use wasm_build::compile::{
    compile_arguments, define_macro, WasmCompileArgs, WasmCompileWarning, WasmOptimisationLevel,
    WasmStandard, COMPILER,
};

fn fixed_profile() -> Vec<&'static str> {
    vec![
        "--target=wasm32-unknown-unknown-wasm",
        "-nostdlib",
        "-nostdinc",
        "-isystemstubs",
        "-fno-builtin",
        "-Wl,--allow-undefined",
        "-Wl,--import-memory",
        "-Wl,--export-dynamic",
        "-Wl,--no-entry",
        "-Wl,--strip-all",
    ]
}

#[test]
fn compiler_is_found_by_its_fixed_name() {
    assert_eq!(COMPILER, "clang");
}

#[test]
fn standard_flag_for_each_dialect() {
    assert_eq!(WasmStandard::C89.flag(), "-std=c89");
    assert_eq!(WasmStandard::C99.flag(), "-std=c99");
    assert_eq!(WasmStandard::C11.flag(), "-std=c11");
    assert_eq!(WasmStandard::C17.flag(), "-std=c17");
}

#[test]
fn optimisation_flag_for_each_level() {
    assert_eq!(WasmOptimisationLevel::Level(0).flag(), "-O0");
    assert_eq!(WasmOptimisationLevel::Level(1).flag(), "-O1");
    assert_eq!(WasmOptimisationLevel::Level(2).flag(), "-O2");
    assert_eq!(WasmOptimisationLevel::Level(3).flag(), "-O3");
    assert_eq!(WasmOptimisationLevel::Fast.flag(), "-Ofast");
    assert_eq!(WasmOptimisationLevel::S.flag(), "-Os");
    assert_eq!(WasmOptimisationLevel::Z.flag(), "-Oz");
    assert_eq!(WasmOptimisationLevel::G.flag(), "-Og");
}

#[test]
fn the_eight_levels_are_valid() {
    assert!(WasmOptimisationLevel::Level(0).is_valid());
    assert!(WasmOptimisationLevel::Level(1).is_valid());
    assert!(WasmOptimisationLevel::Level(2).is_valid());
    assert!(WasmOptimisationLevel::Level(3).is_valid());
    assert!(WasmOptimisationLevel::Fast.is_valid());
    assert!(WasmOptimisationLevel::S.is_valid());
    assert!(WasmOptimisationLevel::Z.is_valid());
    assert!(WasmOptimisationLevel::G.is_valid());
}

#[test]
fn a_number_above_three_names_no_level() {
    assert!(!WasmOptimisationLevel::Level(4).is_valid());
    assert!(!WasmOptimisationLevel::Level(9).is_valid());
    assert!(!WasmOptimisationLevel::Level(255).is_valid());
    let mut n: u8 = 4;
    while n < 255 {
        assert!(!WasmOptimisationLevel::Level(n).is_valid());
        n += 1;
    }
}

#[test]
fn suppression_flag_negates_the_warning() {
    assert_eq!(WasmCompileWarning::UnusedFunction.suppression(), "-Wno-unused-function");
}

#[test]
fn define_macro_joins_name_and_value() {
    assert_eq!(define_macro("MAX_RESULTS", "10"), "-DMAX_RESULTS=10");
    assert_eq!(define_macro("EMPTY", ""), "-DEMPTY=");
    assert_eq!(define_macro("EXPR", "(1 + 2)"), "-DEXPR=(1 + 2)");
    assert_eq!(define_macro("A=B", "C"), "-DA=B=C");
}

#[test]
fn arguments_of_the_smallest_configuration() {
    let args = WasmCompileArgs {
        standard: WasmStandard::C89,
        optimisation_level: WasmOptimisationLevel::Level(0),
        all_warnings: false,
        extra_warnings: false,
        warnings_as_errors: false,
        ignore_warnings: &[],
        macros: &[],
        input: "in.c",
        output: "out.wasm",
    };
    let mut expected = vec!["-std=c89", "-O0"];
    expected.extend(fixed_profile());
    expected.extend(["in.c", "-o", "out.wasm"]);
    assert_eq!(compile_arguments(&args), expected);
}

#[test]
fn arguments_of_a_full_configuration() {
    let args = WasmCompileArgs {
        standard: WasmStandard::C17,
        optimisation_level: WasmOptimisationLevel::Z,
        all_warnings: true,
        extra_warnings: true,
        warnings_as_errors: true,
        ignore_warnings: &[WasmCompileWarning::UnusedFunction],
        macros: &[("A", "1"), ("B", "two")],
        input: "dir/source.c",
        output: "dir/module.wasm",
    };
    let expected = vec![
        "-std=c17",
        "-Oz",
        "-Wall",
        "-Wextra",
        "-Werror",
        "-Wno-unused-function",
        "--target=wasm32-unknown-unknown-wasm",
        "-nostdlib",
        "-nostdinc",
        "-isystemstubs",
        "-fno-builtin",
        "-Wl,--allow-undefined",
        "-Wl,--import-memory",
        "-Wl,--export-dynamic",
        "-Wl,--no-entry",
        "-Wl,--strip-all",
        "-DA=1",
        "-DB=two",
        "dir/source.c",
        "-o",
        "dir/module.wasm",
    ];
    assert_eq!(compile_arguments(&args), expected);
}

#[test]
fn each_warning_switch_gives_its_own_flag() {
    let switches = [
        (true, false, false, vec!["-Wall"]),
        (false, true, false, vec!["-Wextra"]),
        (false, false, true, vec!["-Werror"]),
        (true, false, true, vec!["-Wall", "-Werror"]),
        (false, true, true, vec!["-Wextra", "-Werror"]),
        (true, true, false, vec!["-Wall", "-Wextra"]),
    ];
    for (all, extra, as_errors, flags) in switches {
        let args = WasmCompileArgs {
            standard: WasmStandard::C99,
            optimisation_level: WasmOptimisationLevel::S,
            all_warnings: all,
            extra_warnings: extra,
            warnings_as_errors: as_errors,
            ignore_warnings: &[],
            macros: &[],
            input: "a.c",
            output: "a.wasm",
        };
        let mut expected = vec!["-std=c99", "-Os"];
        expected.extend(flags);
        expected.extend(fixed_profile());
        expected.extend(["a.c", "-o", "a.wasm"]);
        assert_eq!(compile_arguments(&args), expected);
    }
}

#[test]
fn every_suppression_entry_gives_a_flag() {
    let args = WasmCompileArgs {
        standard: WasmStandard::C11,
        optimisation_level: WasmOptimisationLevel::G,
        all_warnings: false,
        extra_warnings: false,
        warnings_as_errors: false,
        ignore_warnings: &[WasmCompileWarning::UnusedFunction, WasmCompileWarning::UnusedFunction],
        macros: &[],
        input: "a.c",
        output: "a.wasm",
    };
    let list = compile_arguments(&args);
    assert_eq!(list.len(), 17);
    assert_eq!(list[2], "-Wno-unused-function");
    assert_eq!(list[3], "-Wno-unused-function");
    assert_eq!(list[4], "--target=wasm32-unknown-unknown-wasm");
}

#[test]
fn macros_keep_their_order_and_their_duplicates() {
    let args = WasmCompileArgs {
        standard: WasmStandard::C11,
        optimisation_level: WasmOptimisationLevel::Fast,
        all_warnings: false,
        extra_warnings: false,
        warnings_as_errors: false,
        ignore_warnings: &[],
        macros: &[("Z", "26"), ("A", "1"), ("Z", "26"), ("M", ""), ("A", "2")],
        input: "a.c",
        output: "a.wasm",
    };
    let list = compile_arguments(&args);
    assert_eq!(list.len(), 20);
    assert_eq!(list[1], "-Ofast");
    assert_eq!(&list[12..17], ["-DZ=26", "-DA=1", "-DZ=26", "-DM=", "-DA=2"]);
    assert_eq!(&list[17..], ["a.c", "-o", "a.wasm"]);
}

#[test]
fn the_same_configuration_gives_the_same_arguments() {
    let first_macros = vec![("N".to_string(), "5".to_string())];
    let second_macros = vec![("N".to_string(), "5".to_string())];
    let first_borrowed: Vec<(&str, &str)> =
        first_macros.iter().map(|m| (m.0.as_str(), m.1.as_str())).collect();
    let second_borrowed: Vec<(&str, &str)> =
        second_macros.iter().map(|m| (m.0.as_str(), m.1.as_str())).collect();
    let first = WasmCompileArgs {
        standard: WasmStandard::C11,
        optimisation_level: WasmOptimisationLevel::Level(2),
        all_warnings: true,
        extra_warnings: false,
        warnings_as_errors: false,
        ignore_warnings: &[WasmCompileWarning::UnusedFunction],
        macros: &first_borrowed,
        input: "a.c",
        output: "a.wasm",
    };
    let second = WasmCompileArgs {
        standard: WasmStandard::C11,
        optimisation_level: WasmOptimisationLevel::Level(2),
        all_warnings: true,
        extra_warnings: false,
        warnings_as_errors: false,
        ignore_warnings: &vec![WasmCompileWarning::UnusedFunction],
        macros: &second_borrowed,
        input: &String::from("a.c"),
        output: &String::from("a.wasm"),
    };
    assert_eq!(compile_arguments(&first), compile_arguments(&second));
    assert_eq!(compile_arguments(&first), compile_arguments(&first));
}

#[test]
fn paths_are_passed_as_they_are() {
    let args = WasmCompileArgs {
        standard: WasmStandard::C11,
        optimisation_level: WasmOptimisationLevel::Level(1),
        all_warnings: false,
        extra_warnings: false,
        warnings_as_errors: false,
        ignore_warnings: &[],
        macros: &[],
        input: "/tmp/with space/-odd name.c",
        output: "",
    };
    let list = compile_arguments(&args);
    assert_eq!(list[list.len() - 3], "/tmp/with space/-odd name.c");
    assert_eq!(list[list.len() - 2], "-o");
    assert_eq!(list[list.len() - 1], "");
}
