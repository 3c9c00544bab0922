use wasm_build::text::{chars_of, decimal_text, matches_at, replace_all};

#[test]
fn chars_of_keeps_every_character_in_order() {
    assert_eq!(chars_of(""), Vec::<char>::new());
    assert_eq!(chars_of("a_b"), vec!['a', '_', 'b']);
    assert_eq!(chars_of("é→z"), vec!['é', '→', 'z']);
}

#[test]
fn replace_all_replaces_a_single_occurrence() {
    assert_eq!(replace_all("int n = __N__;", "__N__", "42"), "int n = 42;");
}

#[test]
fn replace_all_replaces_every_occurrence() {
    assert_eq!(replace_all("a-b-c-d", "-", "+"), "a+b+c+d");
    assert_eq!(replace_all("xyxyxy", "xy", ""), "");
    assert_eq!(replace_all("xyxyxy", "xy", "xyz"), "xyzxyzxyz");
}

#[test]
fn replace_all_leaves_text_without_the_token() {
    assert_eq!(replace_all("nothing here", "__N__", "42"), "nothing here");
    assert_eq!(replace_all("", "__N__", "42"), "");
    assert_eq!(replace_all("ab", "abc", "x"), "ab");
}

#[test]
fn replace_all_takes_the_leftmost_of_overlapping_occurrences() {
    assert_eq!(replace_all("aaa", "aa", "b"), "ba");
    assert_eq!(replace_all("aaaa", "aa", "b"), "bb");
    assert_eq!(replace_all("ababa", "aba", "X"), "Xba");
}

#[test]
fn replace_all_does_not_read_what_it_inserted() {
    assert_eq!(replace_all("ab", "a", "aa"), "aab");
    assert_eq!(replace_all("xx", "x", "xx"), "xxxx");
}

#[test]
fn replace_all_with_an_empty_token_changes_nothing() {
    assert_eq!(replace_all("abc", "", "-"), "abc");
    assert_eq!(replace_all("", "", "-"), "");
}

#[test]
fn replace_all_inserts_the_value_as_it_is() {
    assert_eq!(replace_all("<T>", "T", "\"a\\n\" % {0}"), "<\"a\\n\" % {0}>");
    assert_eq!(replace_all("é_T_→", "_T_", "ß"), "éß→");
}

#[test]
fn replace_all_agrees_with_the_standard_library() {
    let texts = ["", "a", "abcabc", "aaaaa", "__X____X__", "roaring_bitmap_portable_deserialize(x)"];
    let tokens = ["a", "aa", "abc", "__X__", "_", "portable_", "zzz"];
    let values = ["", "a", "q", "__X__", "long replacement"];
    for text in texts {
        for token in tokens {
            for value in values {
                assert_eq!(replace_all(text, token, value), text.replace(token, value));
            }
        }
    }
}

#[test]
fn decimal_text_of_single_digits() {
    assert_eq!(decimal_text(0), "0");
    assert_eq!(decimal_text(1), "1");
    assert_eq!(decimal_text(9), "9");
}

#[test]
fn decimal_text_of_longer_numbers() {
    assert_eq!(decimal_text(10), "10");
    assert_eq!(decimal_text(42), "42");
    assert_eq!(decimal_text(100), "100");
    assert_eq!(decimal_text(1234567890), "1234567890");
    assert_eq!(decimal_text(9007), "9007");
}

#[test]
fn decimal_text_of_the_largest_number() {
    assert_eq!(decimal_text(usize::MAX), format!("{}", usize::MAX));
}

#[test]
fn decimal_text_agrees_with_the_standard_library() {
    let mut n: usize = 0;
    while n < 2000 {
        assert_eq!(decimal_text(n), format!("{}", n));
        n += 1;
    }
    let mut m: usize = 1;
    while m < usize::MAX / 7 {
        assert_eq!(decimal_text(m), format!("{}", m));
        assert_eq!(decimal_text(m - 1), format!("{}", m - 1));
        m *= 7;
    }
}

#[test]
fn decimal_text_reads_back_as_the_number() {
    for n in [0usize, 1, 9, 10, 11, 99, 100, 101, 65535, 65536, usize::MAX - 1, usize::MAX] {
        let text = decimal_text(n);
        assert!(!text.is_empty());
        assert!(text.chars().all(|c| c.is_ascii_digit()));
        assert!(n == 0 || !text.starts_with('0'));
        assert_eq!(text.parse::<usize>(), Ok(n));
    }
}

#[test]
fn matches_at_finds_a_token_where_it_stands() {
    let text = chars_of("ab__X__cd");
    let token = chars_of("__X__");
    assert!(matches_at(&text, &token, 2));
    assert!(!matches_at(&text, &token, 0));
    assert!(!matches_at(&text, &token, 3));
    assert!(!matches_at(&text, &token, 5));
    assert!(!matches_at(&text, &token, 9));
    assert!(!matches_at(&text, &token, 10));
    assert!(!matches_at(&text, &token, usize::MAX));
}

#[test]
fn matches_at_finds_the_empty_token_up_to_the_end() {
    let text = chars_of("ab");
    let empty = chars_of("");
    assert!(matches_at(&text, &empty, 0));
    assert!(matches_at(&text, &empty, 2));
    assert!(!matches_at(&text, &empty, 3));
}
