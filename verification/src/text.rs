//! Text primitives over sequences of characters: literal token replacement
//! and decimal rendering.

use vstd::prelude::*;
use vstd::std_specs::iter::IteratorSpec;

verus! {

/// `String::push` appends the given character to the end of the string.
pub assume_specification[ String::push ](s: &mut String, c: char)
    ensures
        final(s)@ == old(s)@.push(c),
;

/// Whether `token` stands in `text` at position `at`.
pub open spec fn occurs_at(text: Seq<char>, token: Seq<char>, at: int) -> bool {
    &&& 0 <= at
    &&& at + token.len() <= text.len()
    &&& text.subrange(at, at + token.len()) == token
}

/// `text` with the occurrences of `token` replaced by `value`. The text is
/// read from the left; an occurrence that begins inside one already replaced
/// is not seen, and what was inserted is not read again. An empty token
/// occurs nowhere.
pub open spec fn replaced(text: Seq<char>, token: Seq<char>, value: Seq<char>) -> Seq<char>
    decreases text.len(),
{
    if token.len() == 0 || text.len() < token.len() {
        text
    } else if occurs_at(text, token, 0) {
        value + replaced(text.skip(token.len() as int), token, value)
    } else {
        text.take(1) + replaced(text.skip(1), token, value)
    }
}

/// The character of the decimal digit `d`.
pub open spec fn digit(d: nat) -> char {
    seq!['0', '1', '2', '3', '4', '5', '6', '7', '8', '9'][d as int]
}

/// The decimal numeral of `n`: no sign, no leading zero but for `0` itself.
pub open spec fn decimal(n: nat) -> Seq<char>
    decreases n,
{
    if n < 10 {
        seq![digit(n)]
    } else {
        decimal(n / 10).push(digit(n % 10))
    }
}

/// The number that a digit character stands for.
pub open spec fn digit_value(c: char) -> nat {
    (c as nat - '0' as nat) as nat
}

/// The number that a text of digits denotes when read as a decimal numeral.
pub open spec fn numeral_value(text: Seq<char>) -> nat
    decreases text.len(),
{
    if text.len() == 0 {
        0
    } else {
        numeral_value(text.drop_last()) * 10 + digit_value(text.last())
    }
}

/// The decimal numeral of a number is a literal that denotes it: it is not
/// empty, holds digits only, begins with `0` only when the number is 0, and
/// read back it gives the number.
pub proof fn lemma_decimal_denotes(n: nat)
    ensures
        decimal(n).len() >= 1,
        forall|i: int| 0 <= i < decimal(n).len() ==> '0' <= #[trigger] decimal(n)[i] <= '9',
        n > 0 ==> decimal(n)[0] != '0',
        numeral_value(decimal(n)) == n,
    decreases n,
{
    if n < 10 {
        let text = decimal(n);
        assert(text.drop_last() =~= Seq::<char>::empty());
        assert(numeral_value(text.drop_last()) == 0);
        assert(digit_value(digit(n)) == n);
    } else {
        let front = decimal(n / 10);
        let text = front.push(digit(n % 10));
        lemma_decimal_denotes(n / 10);
        assert(text.drop_last() =~= front);
        assert(digit_value(digit(n % 10)) == n % 10);
        assert forall|i: int| 0 <= i < text.len() implies '0' <= #[trigger] text[i] <= '9' by {
            if i < front.len() {
                assert(text[i] == front[i]);
            }
        }
        assert(text[0] == front[0]);
    }
}

/// Whether `token` occurs anywhere in `text`.
pub open spec fn occurs_in(text: Seq<char>, token: Seq<char>) -> bool {
    exists|at: int| occurs_at(text, token, at)
}

/// Whether `token` occurs in `text` at position `at` and at no other.
pub open spec fn occurs_only_at(text: Seq<char>, token: Seq<char>, at: int) -> bool {
    &&& occurs_at(text, token, at)
    &&& forall|other: int| occurs_at(text, token, other) ==> other == at
}

/// An occurrence in what follows the first `from` characters is an
/// occurrence in the whole text, `from` places further on.
pub proof fn lemma_occurs_at_shift(text: Seq<char>, token: Seq<char>, from: int, at: int)
    requires
        0 <= from <= text.len(),
        0 <= at,
    ensures
        occurs_at(text.skip(from), token, at) == occurs_at(text, token, from + at),
{
    if from + at + token.len() <= text.len() {
        assert(text.skip(from).subrange(at, at + token.len()) =~= text.subrange(
            from + at,
            from + at + token.len(),
        ));
    }
}

/// A text in which the token does not occur is left as it is.
pub proof fn lemma_replaced_absent(text: Seq<char>, token: Seq<char>, value: Seq<char>)
    requires
        !occurs_in(text, token),
    ensures
        replaced(text, token, value) == text,
    decreases text.len(),
{
    if token.len() > 0 && text.len() >= token.len() {
        assert(!occurs_at(text, token, 0));
        assert forall|at: int| !occurs_at(text.skip(1), token, at) by {
            if 0 <= at {
                lemma_occurs_at_shift(text, token, 1, at);
                assert(!occurs_at(text, token, 1 + at));
            }
        }
        lemma_replaced_absent(text.skip(1), token, value);
        assert(text.take(1) + text.skip(1) =~= text);
    }
}

/// The leftmost occurrence is replaced, what stands before it is kept, and
/// what follows it is read on its own: with `token` at the end of
/// `head + token` and at no earlier place of `head + token + tail`, the
/// result is `head`, then `value`, then the result for `tail`.
pub proof fn lemma_replaced_leftmost(
    head: Seq<char>,
    token: Seq<char>,
    tail: Seq<char>,
    value: Seq<char>,
)
    requires
        token.len() > 0,
        forall|at: int| 0 <= at < head.len() ==> !occurs_at(head + token + tail, token, at),
    ensures
        replaced(head + token + tail, token, value) == head + value + replaced(
            tail,
            token,
            value,
        ),
    decreases head.len(),
{
    let whole = head + token + tail;
    if head.len() == 0 {
        assert(whole.subrange(0, token.len() as int) =~= token);
        assert(whole.skip(token.len() as int) =~= tail);
        assert(value + replaced(tail, token, value) =~= head + value + replaced(
            tail,
            token,
            value,
        ));
    } else {
        let shorter = head.skip(1);
        assert(!occurs_at(whole, token, 0));
        assert(whole.skip(1) =~= shorter + token + tail);
        assert forall|at: int| 0 <= at < shorter.len() implies !occurs_at(
            shorter + token + tail,
            token,
            at,
        ) by {
            lemma_occurs_at_shift(whole, token, 1, at);
            assert(!occurs_at(whole, token, 1 + at));
        }
        lemma_replaced_leftmost(shorter, token, tail, value);
        assert(whole.take(1) + (shorter + value + replaced(tail, token, value)) =~= head + value
            + replaced(tail, token, value));
    }
}

/// A token that occurs exactly once is replaced there, and the text around
/// it is kept as it is.
pub proof fn lemma_replaced_single(
    head: Seq<char>,
    token: Seq<char>,
    tail: Seq<char>,
    value: Seq<char>,
)
    requires
        token.len() > 0,
        occurs_only_at(head + token + tail, token, head.len() as int),
    ensures
        replaced(head + token + tail, token, value) == head + value + tail,
{
    let whole = head + token + tail;
    let after: int = (head.len() + token.len()) as int;
    lemma_replaced_leftmost(head, token, tail, value);
    assert(whole.skip(after) =~= tail);
    assert forall|at: int| !occurs_at(tail, token, at) by {
        if 0 <= at {
            lemma_occurs_at_shift(whole, token, after, at);
            assert(!occurs_at(whole, token, after + at));
        }
    }
    lemma_replaced_absent(tail, token, value);
}

/// The characters of `text`, in order.
pub fn chars_of(text: &str) -> (out: Vec<char>)
    ensures
        out@ == text@,
{
    let mut out: Vec<char> = Vec::new();
    for c in it: text.chars()
        invariant
            out@ == it.seq().take(it.index()),
            it.seq() == text@,
    {
        out.push(c);
    }
    out
}

/// Whether `token` stands in `text` at position `at`.
pub fn matches_at(text: &Vec<char>, token: &Vec<char>, at: usize) -> (found: bool)
    ensures
        found == occurs_at(text@, token@, at as int),
{
    if at > text.len() || token.len() > text.len() - at {
        return false;
    }
    let mut k: usize = 0;
    while k < token.len()
        invariant
            at + token.len() <= text.len(),
            k <= token.len(),
            forall|j: int| 0 <= j < k ==> text@[at + j] == token@[j],
        decreases token.len() - k,
    {
        if text[at + k] != token[k] {
            assert(text@.subrange(at as int, at + token.len())[k as int] != token@[k as int]);
            return false;
        }
        k += 1;
    }
    assert(text@.subrange(at as int, at + token.len()) =~= token@);
    true
}

/// Replaces the occurrences of `token` in `text` by `value`, from the left.
pub fn replace_all(text: &str, token: &str, value: &str) -> (out: String)
    ensures
        out@ == replaced(text@, token@, value@),
{
    let source = chars_of(text);
    let needle = chars_of(token);
    let mut out = String::new();
    if needle.len() == 0 {
        out.append(text);
        assert(out@ =~= text@);
        return out;
    }
    let mut at: usize = 0;
    assert(out@ + replaced(source@.skip(0), needle@, value@) =~= replaced(
        source@,
        needle@,
        value@,
    )) by {
        assert(source@.skip(0) =~= source@);
    }
    while at < source.len()
        invariant
            at <= source.len(),
            needle.len() > 0,
            out@ + replaced(source@.skip(at as int), needle@, value@) == replaced(
                source@,
                needle@,
                value@,
            ),
        decreases source.len() - at,
    {
        let ghost rest = source@.skip(at as int);
        if matches_at(&source, &needle, at) {
            proof {
                assert(rest.subrange(0, needle@.len() as int) =~= source@.subrange(
                    at as int,
                    at + needle@.len(),
                ));
                assert(rest.skip(needle@.len() as int) =~= source@.skip(at + needle@.len()));
                assert(out@ + value@ + replaced(
                    source@.skip(at + needle@.len()),
                    needle@,
                    value@,
                ) =~= out@ + replaced(rest, needle@, value@));
            }
            out.append(value);
            at += needle.len();
        } else {
            proof {
                if at + needle@.len() <= source@.len() {
                    assert(rest.subrange(0, needle@.len() as int) =~= source@.subrange(
                        at as int,
                        at + needle@.len(),
                    ));
                }
                assert(rest.skip(1) =~= source@.skip(at + 1));
                assert(rest.take(1) =~= seq![source@[at as int]]);
                if rest.len() < needle@.len() {
                    assert(rest =~= rest.take(1) + rest.skip(1));
                }
                assert(out@.push(source@[at as int]) + replaced(
                    source@.skip(at + 1),
                    needle@,
                    value@,
                ) =~= out@ + replaced(rest, needle@, value@));
            }
            out.push(source[at]);
            at += 1;
        }
    }
    assert(out@ + Seq::<char>::empty() =~= out@);
    out
}

fn digit_char(d: u8) -> (c: char)
    requires
        d < 10,
    ensures
        c == digit(d as nat),
{
    (48u8 + d) as char
}

/// The decimal numeral of `n`.
pub fn decimal_text(n: usize) -> (out: String)
    ensures
        out@ == decimal(n as nat),
{
    let mut low: Vec<char> = Vec::new();
    let mut rest: usize = n;
    while rest >= 10
        invariant
            decimal(n as nat) == decimal(rest as nat) + low@.reverse(),
        decreases rest,
    {
        let d: char = digit_char((rest % 10) as u8);
        proof {
            assert(low@.push(d).reverse() =~= seq![d] + low@.reverse());
            assert(decimal((rest / 10) as nat) + low@.push(d).reverse() =~= decimal(
                rest as nat,
            ) + low@.reverse());
        }
        low.push(d);
        rest = rest / 10;
    }
    let mut out = String::new();
    out.push(digit_char(rest as u8));
    let mut k: usize = low.len();
    while k > 0
        invariant
            k <= low.len(),
            out@ == decimal(rest as nat) + low@.reverse().take(low.len() - k),
        decreases k,
    {
        k -= 1;
        proof {
            assert(low@.reverse().take(low.len() - k) =~= low@.reverse().take(
                low.len() - k - 1,
            ).push(low@[k as int]));
        }
        out.push(low[k]);
    }
    assert(low@.reverse().take(low.len() as int) =~= low@.reverse());
    out
}

} // verus!
