//! The compiler invocation: a configuration and the exact argument list that
//! it stands for.

use vstd::prelude::*;
use vstd::string::StringExecFns;

verus! {

/// The program that compiles the runner, found by name on the search path.
pub const COMPILER: &'static str = "clang";

/// The C dialect that the source is compiled as.
#[derive(Clone, Copy, Debug, PartialEq, Eq)]
pub enum WasmStandard {
    C89,
    C99,
    C11,
    C17,
}

/// How the compiler optimises. `Level` carries a number from 0 to 3; any
/// other number names no level.
#[derive(Clone, Copy, Debug, PartialEq, Eq)]
pub enum WasmOptimisationLevel {
    Level(u8),
    Fast,
    S,
    Z,
    G,
}

/// A warning category that can be switched off by name.
#[derive(Clone, Copy, Debug, PartialEq, Eq)]
pub enum WasmCompileWarning {
    UnusedFunction,
}

/// One compiler invocation, fully specified: nothing is filled in later.
pub struct WasmCompileArgs<'iw, 'm, 'i, 'o> {
    pub standard: WasmStandard,
    pub optimisation_level: WasmOptimisationLevel,
    pub all_warnings: bool,
    pub extra_warnings: bool,
    pub warnings_as_errors: bool,
    pub ignore_warnings: &'iw [WasmCompileWarning],
    pub macros: &'m [(&'m str, &'m str)],
    pub input: &'i str,
    pub output: &'o str,
}

/// What a `WasmCompileArgs` holds, as mathematical values.
pub struct CompileArgsView {
    pub standard: WasmStandard,
    pub optimisation_level: WasmOptimisationLevel,
    pub all_warnings: bool,
    pub extra_warnings: bool,
    pub warnings_as_errors: bool,
    pub ignore_warnings: Seq<WasmCompileWarning>,
    pub macros: Seq<(Seq<char>, Seq<char>)>,
    pub input: Seq<char>,
    pub output: Seq<char>,
}

impl<'iw, 'm, 'i, 'o> View for WasmCompileArgs<'iw, 'm, 'i, 'o> {
    type V = CompileArgsView;

    open spec fn view(&self) -> CompileArgsView {
        CompileArgsView {
            standard: self.standard,
            optimisation_level: self.optimisation_level,
            all_warnings: self.all_warnings,
            extra_warnings: self.extra_warnings,
            warnings_as_errors: self.warnings_as_errors,
            ignore_warnings: self.ignore_warnings@,
            macros: self.macros.deep_view(),
            input: self.input@,
            output: self.output@,
        }
    }
}

/// The dialect's name as the compiler spells it.
pub open spec fn standard_name(standard: WasmStandard) -> Seq<char> {
    match standard {
        WasmStandard::C89 => "c89"@,
        WasmStandard::C99 => "c99"@,
        WasmStandard::C11 => "c11"@,
        WasmStandard::C17 => "c17"@,
    }
}

/// The flag that selects the dialect.
pub open spec fn standard_flag(standard: WasmStandard) -> Seq<char> {
    "-std="@ + standard_name(standard)
}

/// The level's name as the compiler spells it; `None` where the value names
/// no level.
pub open spec fn optimisation_name(level: WasmOptimisationLevel) -> Option<Seq<char>> {
    match level {
        WasmOptimisationLevel::Level(n) => if n == 0 {
            Some("0"@)
        } else if n == 1 {
            Some("1"@)
        } else if n == 2 {
            Some("2"@)
        } else if n == 3 {
            Some("3"@)
        } else {
            None
        },
        WasmOptimisationLevel::Fast => Some("fast"@),
        WasmOptimisationLevel::S => Some("s"@),
        WasmOptimisationLevel::Z => Some("z"@),
        WasmOptimisationLevel::G => Some("g"@),
    }
}

/// Whether the value names one of the eight levels.
pub open spec fn valid_level(level: WasmOptimisationLevel) -> bool {
    optimisation_name(level) is Some
}

/// The flag that selects the level.
pub open spec fn optimisation_flag(level: WasmOptimisationLevel) -> Seq<char>
    recommends
        valid_level(level),
{
    "-O"@ + optimisation_name(level).unwrap()
}

/// The category's name as the compiler spells it.
pub open spec fn warning_name(warning: WasmCompileWarning) -> Seq<char> {
    match warning {
        WasmCompileWarning::UnusedFunction => "unused-function"@,
    }
}

/// The flag that switches the category off.
pub open spec fn suppression_flag(warning: WasmCompileWarning) -> Seq<char> {
    "-Wno-"@ + warning_name(warning)
}

/// The flag that defines the macro `name` as `value`.
pub open spec fn macro_definition(name: Seq<char>, value: Seq<char>) -> Seq<char> {
    "-D"@ + name + "="@ + value
}

/// The flags of the three warning switches, each present when it is set.
pub open spec fn warning_flags(all: bool, extra: bool, as_errors: bool) -> Seq<Seq<char>> {
    (if all {
        seq!["-Wall"@]
    } else {
        seq![]
    }) + (if extra {
        seq!["-Wextra"@]
    } else {
        seq![]
    }) + (if as_errors {
        seq!["-Werror"@]
    } else {
        seq![]
    })
}

/// One suppression flag per entry, in the order of the entries.
pub open spec fn suppression_flags(warnings: Seq<WasmCompileWarning>) -> Seq<Seq<char>> {
    warnings.map_values(|w: WasmCompileWarning| suppression_flag(w))
}

/// One definition per entry, in the order of the entries.
pub open spec fn macro_definitions(macros: Seq<(Seq<char>, Seq<char>)>) -> Seq<Seq<char>> {
    macros.map_values(|m: (Seq<char>, Seq<char>)| macro_definition(m.0, m.1))
}

/// The fixed flags of a freestanding 32-bit WebAssembly module: no standard
/// library or headers, no builtin substitution, undefined symbols allowed,
/// memory imported, public symbols exported, no entry point, nothing but
/// code in the output.
pub open spec fn freestanding_profile() -> Seq<Seq<char>> {
    seq![
        "--target=wasm32-unknown-unknown-wasm"@,
        "-nostdlib"@,
        "-nostdinc"@,
        "-isystemstubs"@,
        "-fno-builtin"@,
        "-Wl,--allow-undefined"@,
        "-Wl,--import-memory"@,
        "-Wl,--export-dynamic"@,
        "-Wl,--no-entry"@,
        "-Wl,--strip-all"@,
    ]
}

/// The argument list of a configuration: dialect, level, warning switches,
/// suppressions, the freestanding profile, macro definitions, the input, and
/// the output behind `-o`.
pub open spec fn arguments(config: CompileArgsView) -> Seq<Seq<char>>
    recommends
        valid_level(config.optimisation_level),
{
    seq![standard_flag(config.standard), optimisation_flag(config.optimisation_level)]
        + warning_flags(config.all_warnings, config.extra_warnings, config.warnings_as_errors)
        + suppression_flags(config.ignore_warnings) + freestanding_profile()
        + macro_definitions(config.macros) + seq![config.input, "-o"@, config.output]
}

/// Where the macro definitions begin in the argument list.
pub open spec fn macros_offset(config: CompileArgsView) -> int {
    (2 + warning_flags(
        config.all_warnings,
        config.extra_warnings,
        config.warnings_as_errors,
    ).len() + config.ignore_warnings.len() + freestanding_profile().len()) as int
}

/// The argument list depends on what the configuration holds and on nothing
/// else: two configurations with the same contents, wherever their slices
/// and strings lie, have the same list.
pub proof fn lemma_arguments_deterministic(first: WasmCompileArgs, second: WasmCompileArgs)
    requires
        first.standard == second.standard,
        first.optimisation_level == second.optimisation_level,
        first.all_warnings == second.all_warnings,
        first.extra_warnings == second.extra_warnings,
        first.warnings_as_errors == second.warnings_as_errors,
        first.ignore_warnings@ == second.ignore_warnings@,
        first.macros.deep_view() == second.macros.deep_view(),
        first.input@ == second.input@,
        first.output@ == second.output@,
    ensures
        arguments(first@) == arguments(second@),
{
}

/// The parts of the argument list stand in a fixed order, each at a place
/// that the parts before it determine: dialect, level, warning switches,
/// suppressions, the freestanding profile, macro definitions, and last the
/// input, `-o` and the output.
pub proof fn lemma_arguments_layout(config: CompileArgsView)
    ensures
        ({
            let list = arguments(config);
            let switches = warning_flags(
                config.all_warnings,
                config.extra_warnings,
                config.warnings_as_errors,
            );
            let suppressions = (2 + switches.len()) as int;
            let profile = (suppressions + config.ignore_warnings.len()) as int;
            let macros = macros_offset(config);
            let paths = macros + config.macros.len();
            &&& list.len() == paths + 3
            &&& list[0] == standard_flag(config.standard)
            &&& list[1] == optimisation_flag(config.optimisation_level)
            &&& list.subrange(2, suppressions) == switches
            &&& list.subrange(suppressions, profile) == suppression_flags(config.ignore_warnings)
            &&& list.subrange(profile, macros) == freestanding_profile()
            &&& list.subrange(macros, paths) == macro_definitions(config.macros)
            &&& list[paths] == config.input
            &&& list[paths + 1] == "-o"@
            &&& list[paths + 2] == config.output
        }),
{
    let list = arguments(config);
    let switches = warning_flags(
        config.all_warnings,
        config.extra_warnings,
        config.warnings_as_errors,
    );
    let suppressions = (2 + switches.len()) as int;
    let profile = (suppressions + config.ignore_warnings.len()) as int;
    let macros = macros_offset(config);
    let paths = macros + config.macros.len();
    assert(list.subrange(2, suppressions) =~= switches);
    assert(list.subrange(suppressions, profile) =~= suppression_flags(config.ignore_warnings));
    assert(list.subrange(profile, macros) =~= freestanding_profile());
    assert(list.subrange(macros, paths) =~= macro_definitions(config.macros));
}

/// Every macro entry gives one definition, `-D`, the name, `=` and the
/// value, and the definitions stand next to each other in the order of the
/// entries: none is dropped, merged or moved.
pub proof fn lemma_macros_in_order(config: CompileArgsView)
    ensures
        arguments(config).len() == macros_offset(config) + config.macros.len() + 3,
        forall|k: int|
            0 <= k < config.macros.len() ==> #[trigger] arguments(config)[macros_offset(config)
                + k] == "-D"@ + config.macros[k].0 + "="@ + config.macros[k].1,
{
    lemma_arguments_layout(config);
    let list = arguments(config);
    let first = macros_offset(config);
    assert forall|k: int| 0 <= k < config.macros.len() implies #[trigger] list[first + k] == "-D"@
        + config.macros[k].0 + "="@ + config.macros[k].1 by {
        assert(list.subrange(first, first + config.macros.len())[k] == list[first + k]);
    }
}

fn joined(prefix: &str, rest: &str) -> (out: String)
    ensures
        out@ == prefix@ + rest@,
{
    let mut out = String::new();
    out.append(prefix);
    out.append(rest);
    assert(out@ =~= prefix@ + rest@);
    out
}

fn push_text(list: &mut Vec<String>, item: String)
    ensures
        final(list).deep_view() == old(list).deep_view().push(item@),
{
    list.push(item);
    assert(list.deep_view() =~= old(list).deep_view().push(item@));
}

impl WasmStandard {
    /// The flag that selects this dialect.
    pub fn flag(&self) -> (out: String)
        ensures
            out@ == standard_flag(*self),
    {
        let name: &str = match self {
            WasmStandard::C89 => "c89",
            WasmStandard::C99 => "c99",
            WasmStandard::C11 => "c11",
            WasmStandard::C17 => "c17",
        };
        joined("-std=", name)
    }
}

impl WasmOptimisationLevel {
    /// Whether this value names one of the eight levels.
    pub fn is_valid(&self) -> (ok: bool)
        ensures
            ok == valid_level(*self),
    {
        match self {
            WasmOptimisationLevel::Level(n) => *n <= 3,
            _ => true,
        }
    }

    /// The flag that selects this level.
    pub fn flag(&self) -> (out: String)
        requires
            valid_level(*self),
        ensures
            out@ == optimisation_flag(*self),
    {
        let name: &str = match self {
            WasmOptimisationLevel::Level(n) => if *n == 0 {
                "0"
            } else if *n == 1 {
                "1"
            } else if *n == 2 {
                "2"
            } else {
                "3"
            },
            WasmOptimisationLevel::Fast => "fast",
            WasmOptimisationLevel::S => "s",
            WasmOptimisationLevel::Z => "z",
            WasmOptimisationLevel::G => "g",
        };
        joined("-O", name)
    }
}

impl WasmCompileWarning {
    /// The flag that switches this category off.
    pub fn suppression(&self) -> (out: String)
        ensures
            out@ == suppression_flag(*self),
    {
        let name: &str = match self {
            WasmCompileWarning::UnusedFunction => "unused-function",
        };
        joined("-Wno-", name)
    }
}

/// The flag that defines the macro `name` as `value`.
pub fn define_macro(name: &str, value: &str) -> (out: String)
    ensures
        out@ == macro_definition(name@, value@),
{
    let mut out = String::new();
    out.append("-D");
    out.append(name);
    out.append("=");
    out.append(value);
    assert(out@ =~= macro_definition(name@, value@));
    out
}

/// The arguments that the compiler is run with for `args`, in order.
pub fn compile_arguments(args: &WasmCompileArgs) -> (list: Vec<String>)
    requires
        valid_level(args.optimisation_level),
    ensures
        list.deep_view() == arguments(args@),
{
    let mut list: Vec<String> = Vec::new();
    assert(list.deep_view() =~= Seq::<Seq<char>>::empty());
    push_text(&mut list, args.standard.flag());
    push_text(&mut list, args.optimisation_level.flag());
    if args.all_warnings {
        push_text(&mut list, "-Wall".to_owned());
    }
    if args.extra_warnings {
        push_text(&mut list, "-Wextra".to_owned());
    }
    if args.warnings_as_errors {
        push_text(&mut list, "-Werror".to_owned());
    }
    let ghost head = seq![standard_flag(args.standard), optimisation_flag(args.optimisation_level)]
        + warning_flags(args.all_warnings, args.extra_warnings, args.warnings_as_errors);
    assert(list.deep_view() =~= head);
    let mut i: usize = 0;
    while i < args.ignore_warnings.len()
        invariant
            i <= args.ignore_warnings.len(),
            list.deep_view() == head + suppression_flags(args.ignore_warnings@.take(i as int)),
        decreases args.ignore_warnings.len() - i,
    {
        let flag = args.ignore_warnings[i].suppression();
        proof {
            assert(suppression_flags(args.ignore_warnings@.take(i + 1)) =~= suppression_flags(
                args.ignore_warnings@.take(i as int),
            ).push(flag@));
        }
        push_text(&mut list, flag);
        i += 1;
    }
    assert(args.ignore_warnings@.take(i as int) =~= args.ignore_warnings@);
    push_text(&mut list, "--target=wasm32-unknown-unknown-wasm".to_owned());
    push_text(&mut list, "-nostdlib".to_owned());
    push_text(&mut list, "-nostdinc".to_owned());
    push_text(&mut list, "-isystemstubs".to_owned());
    push_text(&mut list, "-fno-builtin".to_owned());
    push_text(&mut list, "-Wl,--allow-undefined".to_owned());
    push_text(&mut list, "-Wl,--import-memory".to_owned());
    push_text(&mut list, "-Wl,--export-dynamic".to_owned());
    push_text(&mut list, "-Wl,--no-entry".to_owned());
    push_text(&mut list, "-Wl,--strip-all".to_owned());
    let ghost fixed = head + suppression_flags(args.ignore_warnings@) + freestanding_profile();
    assert(list.deep_view() =~= fixed);
    let ghost macros = args.macros.deep_view();
    let mut k: usize = 0;
    while k < args.macros.len()
        invariant
            k <= args.macros.len(),
            macros == args.macros.deep_view(),
            list.deep_view() == fixed + macro_definitions(macros.take(k as int)),
        decreases args.macros.len() - k,
    {
        let entry = args.macros[k];
        let flag = define_macro(entry.0, entry.1);
        proof {
            assert(macro_definitions(macros.take(k + 1)) =~= macro_definitions(
                macros.take(k as int),
            ).push(flag@));
        }
        push_text(&mut list, flag);
        k += 1;
    }
    assert(macros.take(k as int) =~= macros);
    push_text(&mut list, args.input.to_owned());
    push_text(&mut list, "-o".to_owned());
    push_text(&mut list, args.output.to_owned());
    assert(list.deep_view() =~= arguments(args@));
    list
}

} // verus!
