//! The runner's translation unit, assembled from four fragments in a fixed
//! order, and the compiler configuration that it is built with.

use crate::compile::{
    arguments, compile_arguments, CompileArgsView, WasmCompileArgs, WasmCompileWarning,
    WasmOptimisationLevel, WasmStandard,
};
use crate::template::{
    filled_first, lemma_filling_changes_length, lemma_leading_text_holds_no_token,
    lemma_rest_keeps_places, rendered, slot_once, slots_below, tokens_only_at_places, Piece,
};
use crate::text::{
    chars_of, decimal, decimal_text, lemma_occurs_at_shift, lemma_replaced_absent,
    lemma_replaced_leftmost, matches_at, occurs_at, occurs_in, replace_all, replaced,
};
use vstd::prelude::*;
use vstd::string::StringExecFns;

verus! {

/// File name of the generated translation unit, inside the output directory.
pub const SOURCE_FILE: &'static str = "runner.c";

/// File name of the compiled module, inside the output directory.
pub const ARTIFACT_FILE: &'static str = "runner.wasm";

/// Name of the portable deserialization entry point.
pub const PORTABLE_ENTRY: &'static str = "roaring_bitmap_portable_deserialize";

/// Name of the entry point that replaces the portable one.
pub const NONPORTABLE_ENTRY: &'static str = "roaring_bitmap_deserialize";

/// Where the chunk fragment takes the terms payload.
pub const TERMS_CHUNKS_TOKEN: &'static str = "___NORMAL_TERMS_CHUNKS___";

/// Where the chunk fragment takes the number of terms chunks.
pub const TERMS_CHUNKS_LEN_TOKEN: &'static str = "___NORMAL_TERMS_CHUNKS_LEN___";

/// Where the chunk fragment takes the documents payload.
pub const DOCUMENTS_CHUNKS_TOKEN: &'static str = "___DOCUMENTS_CHUNKS___";

/// Where the chunk fragment takes the number of documents chunks.
pub const DOCUMENTS_CHUNKS_LEN_TOKEN: &'static str = "___DOCUMENTS_CHUNKS_LEN___";

/// Macro that carries the capacity of the result buffer.
pub const MAX_RESULTS_MACRO: &'static str = "MAX_RESULTS";

/// Macro that carries the capacity of the query buffer.
pub const MAX_QUERY_TERMS_MACRO: &'static str = "MAX_QUERY_TERMS";

/// The four source fragments, in the order in which they are written.
pub struct RunnerFragments<'a> {
    pub sys: &'a str,
    pub bitmap: &'a str,
    pub index: &'a str,
    pub chunks: &'a str,
}

/// What a `RunnerFragments` holds, as mathematical values.
pub struct RunnerFragmentsView {
    pub sys: Seq<char>,
    pub bitmap: Seq<char>,
    pub index: Seq<char>,
    pub chunks: Seq<char>,
}

impl<'a> View for RunnerFragments<'a> {
    type V = RunnerFragmentsView;

    open spec fn view(&self) -> RunnerFragmentsView {
        RunnerFragmentsView {
            sys: self.sys@,
            bitmap: self.bitmap@,
            index: self.index@,
            chunks: self.chunks@,
        }
    }
}

/// The parameters of one synthesis pass. The payloads are opaque text that
/// is inserted as it is.
pub struct RunnerSpec<'a> {
    pub max_results: usize,
    pub max_query_terms: usize,
    pub terms_chunks_raw: &'a str,
    pub terms_chunks_len: usize,
    pub documents_chunks_raw: &'a str,
    pub documents_chunks_len: usize,
    pub nonportable: bool,
}

/// What a `RunnerSpec` holds, as mathematical values.
pub struct RunnerSpecView {
    pub max_results: nat,
    pub max_query_terms: nat,
    pub terms_chunks_raw: Seq<char>,
    pub terms_chunks_len: nat,
    pub documents_chunks_raw: Seq<char>,
    pub documents_chunks_len: nat,
    pub nonportable: bool,
}

impl<'a> View for RunnerSpec<'a> {
    type V = RunnerSpecView;

    open spec fn view(&self) -> RunnerSpecView {
        RunnerSpecView {
            max_results: self.max_results as nat,
            max_query_terms: self.max_query_terms as nat,
            terms_chunks_raw: self.terms_chunks_raw@,
            terms_chunks_len: self.terms_chunks_len as nat,
            documents_chunks_raw: self.documents_chunks_raw@,
            documents_chunks_len: self.documents_chunks_len as nat,
            nonportable: self.nonportable,
        }
    }
}

/// The bitmap fragment as it is written: as given, or with the portable
/// entry point renamed wherever it occurs.
pub open spec fn bitmap_variant(bitmap: Seq<char>, nonportable: bool) -> Seq<char> {
    if nonportable {
        replaced(bitmap, PORTABLE_ENTRY@, NONPORTABLE_ENTRY@)
    } else {
        bitmap
    }
}

/// The four placeholder tokens: for the terms payload, the terms count,
/// the documents payload and the documents count.
pub open spec fn placeholder_tokens() -> Seq<Seq<char>> {
    seq![
        TERMS_CHUNKS_TOKEN@,
        TERMS_CHUNKS_LEN_TOKEN@,
        DOCUMENTS_CHUNKS_TOKEN@,
        DOCUMENTS_CHUNKS_LEN_TOKEN@,
    ]
}

/// The texts that take the places of the four tokens, in the same order.
pub open spec fn placeholder_values(spec: RunnerSpecView) -> Seq<Seq<char>> {
    seq![
        spec.terms_chunks_raw,
        decimal(spec.terms_chunks_len),
        spec.documents_chunks_raw,
        decimal(spec.documents_chunks_len),
    ]
}

/// The chunk fragment as it is written. The fragment is read once, from
/// the left: where a token stands, its value is written in its place and
/// reading goes on behind the token; any other character is written as it
/// is. What is written is not read again, so a value is never searched.
pub open spec fn filled_chunks(chunks: Seq<char>, spec: RunnerSpecView) -> Seq<char>
    decreases chunks.len(),
    via filled_chunks_decreases
{
    if chunks.len() == 0 {
        chunks
    } else if occurs_at(chunks, TERMS_CHUNKS_TOKEN@, 0) {
        spec.terms_chunks_raw + filled_chunks(chunks.skip(TERMS_CHUNKS_TOKEN@.len() as int), spec)
    } else if occurs_at(chunks, TERMS_CHUNKS_LEN_TOKEN@, 0) {
        decimal(spec.terms_chunks_len) + filled_chunks(
            chunks.skip(TERMS_CHUNKS_LEN_TOKEN@.len() as int),
            spec,
        )
    } else if occurs_at(chunks, DOCUMENTS_CHUNKS_TOKEN@, 0) {
        spec.documents_chunks_raw + filled_chunks(
            chunks.skip(DOCUMENTS_CHUNKS_TOKEN@.len() as int),
            spec,
        )
    } else if occurs_at(chunks, DOCUMENTS_CHUNKS_LEN_TOKEN@, 0) {
        decimal(spec.documents_chunks_len) + filled_chunks(
            chunks.skip(DOCUMENTS_CHUNKS_LEN_TOKEN@.len() as int),
            spec,
        )
    } else {
        chunks.take(1) + filled_chunks(chunks.skip(1), spec)
    }
}

#[via_fn]
proof fn filled_chunks_decreases(chunks: Seq<char>, spec: RunnerSpecView) {
    reveal_strlit("___NORMAL_TERMS_CHUNKS___");
    reveal_strlit("___NORMAL_TERMS_CHUNKS_LEN___");
    reveal_strlit("___DOCUMENTS_CHUNKS___");
    reveal_strlit("___DOCUMENTS_CHUNKS_LEN___");
}

/// The translation unit: system shim, bitmap fragment, index fragment and
/// chunk fragment, in this order.
pub open spec fn runner_source_text(fragments: RunnerFragmentsView, spec: RunnerSpecView) -> Seq<
    char,
> {
    fragments.sys + bitmap_variant(fragments.bitmap, spec.nonportable) + fragments.index
        + filled_chunks(fragments.chunks, spec)
}

/// The configuration that the runner is compiled with: C17, the latest of
/// the dialects, level 3, all and extra warnings without failing on them,
/// unused functions allowed, and the two capacities as macros.
pub open spec fn runner_profile(
    spec: RunnerSpecView,
    source_path: Seq<char>,
    artifact_path: Seq<char>,
) -> CompileArgsView {
    CompileArgsView {
        standard: WasmStandard::C17,
        optimisation_level: WasmOptimisationLevel::Level(3),
        all_warnings: true,
        extra_warnings: true,
        warnings_as_errors: false,
        ignore_warnings: seq![WasmCompileWarning::UnusedFunction],
        macros: seq![
            (MAX_RESULTS_MACRO@, decimal(spec.max_results)),
            (MAX_QUERY_TERMS_MACRO@, decimal(spec.max_query_terms)),
        ],
        input: source_path,
        output: artifact_path,
    }
}

/// Without the variant the bitmap fragment is written as it was given.
pub proof fn lemma_variant_off_keeps_bitmap(bitmap: Seq<char>)
    ensures
        bitmap_variant(bitmap, false) == bitmap,
{
}

/// A bitmap fragment that does not name the portable entry point is written
/// as it was given, with the variant too.
pub proof fn lemma_variant_without_entry(bitmap: Seq<char>)
    requires
        !occurs_in(bitmap, PORTABLE_ENTRY@),
    ensures
        bitmap_variant(bitmap, true) == bitmap,
{
    lemma_replaced_absent(bitmap, PORTABLE_ENTRY@, NONPORTABLE_ENTRY@);
}

/// With the variant the leftmost name of the portable entry point is
/// renamed, the text before it is kept, and the text after it is treated in
/// the same way.
pub proof fn lemma_variant_renames_entry(head: Seq<char>, tail: Seq<char>)
    requires
        forall|at: int|
            0 <= at < head.len() ==> !occurs_at(head + PORTABLE_ENTRY@ + tail, PORTABLE_ENTRY@, at),
    ensures
        bitmap_variant(head + PORTABLE_ENTRY@ + tail, true) == head + NONPORTABLE_ENTRY@
            + bitmap_variant(tail, true),
{
    reveal_strlit("roaring_bitmap_portable_deserialize");
    lemma_replaced_leftmost(head, PORTABLE_ENTRY@, tail, NONPORTABLE_ENTRY@);
}

proof fn lemma_filled_ignores_variant(chunks: Seq<char>, spec: RunnerSpecView, nonportable: bool)
    ensures
        filled_chunks(chunks, RunnerSpecView { nonportable, ..spec }) == filled_chunks(
            chunks,
            spec,
        ),
    decreases chunks.len(),
{
    reveal_strlit("___NORMAL_TERMS_CHUNKS___");
    reveal_strlit("___NORMAL_TERMS_CHUNKS_LEN___");
    reveal_strlit("___DOCUMENTS_CHUNKS___");
    reveal_strlit("___DOCUMENTS_CHUNKS_LEN___");
    if chunks.len() > 0 {
        let step: int = if occurs_at(chunks, TERMS_CHUNKS_TOKEN@, 0) {
            TERMS_CHUNKS_TOKEN@.len() as int
        } else if occurs_at(chunks, TERMS_CHUNKS_LEN_TOKEN@, 0) {
            TERMS_CHUNKS_LEN_TOKEN@.len() as int
        } else if occurs_at(chunks, DOCUMENTS_CHUNKS_TOKEN@, 0) {
            DOCUMENTS_CHUNKS_TOKEN@.len() as int
        } else if occurs_at(chunks, DOCUMENTS_CHUNKS_LEN_TOKEN@, 0) {
            DOCUMENTS_CHUNKS_LEN_TOKEN@.len() as int
        } else {
            1
        };
        lemma_filled_ignores_variant(chunks.skip(step), spec, nonportable);
    }
}

/// The variant reaches the bitmap fragment and nothing else: the system
/// shim and the index fragment are written as given, and the chunk fragment
/// is filled as without the variant.
pub proof fn lemma_variant_touches_bitmap_only(fragments: RunnerFragmentsView, spec: RunnerSpecView)
    ensures
        runner_source_text(fragments, RunnerSpecView { nonportable: false, ..spec })
            == fragments.sys + fragments.bitmap + fragments.index + filled_chunks(
            fragments.chunks,
            spec,
        ),
        runner_source_text(fragments, RunnerSpecView { nonportable: true, ..spec })
            == fragments.sys + replaced(fragments.bitmap, PORTABLE_ENTRY@, NONPORTABLE_ENTRY@)
            + fragments.index + filled_chunks(fragments.chunks, spec),
{
    lemma_filled_ignores_variant(fragments.chunks, spec, false);
    lemma_filled_ignores_variant(fragments.chunks, spec, true);
}
/// No two of the four tokens stand at the same position of a text.
pub proof fn lemma_tokens_apart(text: Seq<char>, at: int)
    ensures
        forall|j: int, k: int|
            0 <= j < 4 && 0 <= k < 4 && occurs_at(text, #[trigger] placeholder_tokens()[j], at)
                && occurs_at(text, #[trigger] placeholder_tokens()[k], at) ==> j == k,
{
    let tokens = placeholder_tokens();
    reveal_strlit("___NORMAL_TERMS_CHUNKS___");
    reveal_strlit("___NORMAL_TERMS_CHUNKS_LEN___");
    reveal_strlit("___DOCUMENTS_CHUNKS___");
    reveal_strlit("___DOCUMENTS_CHUNKS_LEN___");
    if occurs_at(text, tokens[0], at) {
        let found = text.subrange(at, at + tokens[0].len());
        assert(found[3] == 'N' && found[23] == '_');
        assert(text[at + 3] == 'N' && text[at + 23] == '_');
    }
    if occurs_at(text, tokens[1], at) {
        let found = text.subrange(at, at + tokens[1].len());
        assert(found[3] == 'N' && found[23] == 'L');
        assert(text[at + 3] == 'N' && text[at + 23] == 'L');
    }
    if occurs_at(text, tokens[2], at) {
        let found = text.subrange(at, at + tokens[2].len());
        assert(found[3] == 'D' && found[20] == '_');
        assert(text[at + 3] == 'D' && text[at + 20] == '_');
    }
    if occurs_at(text, tokens[3], at) {
        let found = text.subrange(at, at + tokens[3].len());
        assert(found[3] == 'D' && found[20] == 'L');
        assert(text[at + 3] == 'D' && text[at + 20] == 'L');
    }
}

/// Text in which no token begins is written as it is, and what follows it
/// is filled on its own.
pub proof fn lemma_filled_keeps_text(head: Seq<char>, rest: Seq<char>, spec: RunnerSpecView)
    requires
        forall|slot: int, at: int|
            0 <= slot < 4 && 0 <= at < head.len() ==> !#[trigger] occurs_at(
                head + rest,
                placeholder_tokens()[slot],
                at,
            ),
    ensures
        filled_chunks(head + rest, spec) == head + filled_chunks(rest, spec),
    decreases head.len(),
{
    let whole = head + rest;
    let tokens = placeholder_tokens();
    if head.len() == 0 {
        assert(whole =~= rest);
        assert(head + filled_chunks(rest, spec) =~= filled_chunks(rest, spec));
    } else {
        let shorter = head.skip(1);
        assert(!occurs_at(whole, tokens[0], 0) && !occurs_at(whole, tokens[1], 0) && !occurs_at(
            whole,
            tokens[2],
            0,
        ) && !occurs_at(whole, tokens[3], 0));
        assert(whole.skip(1) =~= shorter + rest);
        assert forall|slot: int, at: int| 0 <= slot < 4 && 0 <= at < shorter.len() implies !#[trigger] occurs_at(
            shorter + rest,
            tokens[slot],
            at,
        ) by {
            lemma_occurs_at_shift(whole, tokens[slot], 1, at);
            assert(!occurs_at(whole, tokens[slot], 1 + at));
        }
        lemma_filled_keeps_text(shorter, rest, spec);
        assert(whole.take(1) + (shorter + filled_chunks(rest, spec)) =~= head + filled_chunks(
            rest,
            spec,
        ));
    }
}

/// Each token is replaced by its own value, as the value is, and the text
/// around the tokens is kept, whatever the payloads hold. The chunk fragment
/// is a template that holds the four tokens at its places only; the
/// fragment that is written is that template with the four values in their
/// places.
pub proof fn lemma_chunks_filled(pieces: Seq<Piece>, spec: RunnerSpecView)
    requires
        slots_below(pieces, 4),
        tokens_only_at_places(pieces, placeholder_tokens()),
    ensures
        filled_chunks(rendered(pieces, placeholder_tokens()), spec) == rendered(
            pieces,
            placeholder_values(spec),
        ),
    decreases pieces.len(),
{
    let tokens = placeholder_tokens();
    let values = placeholder_values(spec);
    let template = rendered(pieces, tokens);
    reveal_strlit("___NORMAL_TERMS_CHUNKS___");
    reveal_strlit("___NORMAL_TERMS_CHUNKS_LEN___");
    reveal_strlit("___DOCUMENTS_CHUNKS___");
    reveal_strlit("___DOCUMENTS_CHUNKS_LEN___");
    if pieces.len() > 0 {
        let rest = pieces.drop_first();
        let behind = rendered(rest, tokens);
        assert(pieces.first() == pieces[0]);
        lemma_rest_keeps_places(pieces, tokens);
        lemma_chunks_filled(rest, spec);
        match pieces.first() {
            Piece::Text(text) => {
                lemma_leading_text_holds_no_token(pieces, tokens);
                lemma_filled_keeps_text(text, behind, spec);
            },
            Piece::Slot(slot) => {
                let token = tokens[slot as int];
                assert(template.subrange(0, token.len() as int) =~= token);
                assert(occurs_at(template, token, 0));
                assert(template.skip(token.len() as int) =~= behind);
                lemma_tokens_apart(template, 0);
                assert(filled_chunks(template, spec) == values[slot as int] + filled_chunks(
                    behind,
                    spec,
                ));
            },
        }
    }
}

/// Every place is filled once, none is left and none is filled twice: where
/// the template holds each of the four places once, what is written has the
/// template's length, less the tokens, plus the values.
pub proof fn lemma_chunks_filled_length(pieces: Seq<Piece>, spec: RunnerSpecView)
    requires
        slots_below(pieces, 4),
        tokens_only_at_places(pieces, placeholder_tokens()),
        forall|slot: nat| slot < 4 ==> #[trigger] slot_once(pieces, slot),
    ensures
        filled_chunks(rendered(pieces, placeholder_tokens()), spec).len() + TERMS_CHUNKS_TOKEN@.len()
            + TERMS_CHUNKS_LEN_TOKEN@.len() + DOCUMENTS_CHUNKS_TOKEN@.len()
            + DOCUMENTS_CHUNKS_LEN_TOKEN@.len() == rendered(pieces, placeholder_tokens()).len()
            + spec.terms_chunks_raw.len() + decimal(spec.terms_chunks_len).len()
            + spec.documents_chunks_raw.len() + decimal(spec.documents_chunks_len).len(),
{
    let tokens = placeholder_tokens();
    let values = placeholder_values(spec);
    lemma_chunks_filled(pieces, spec);
    assert(filled_first(tokens, values, 0) =~= tokens);
    assert(filled_first(tokens, values, 4) =~= values);
    assert(slot_once(pieces, 0) && slot_once(pieces, 1) && slot_once(pieces, 2) && slot_once(
        pieces,
        3,
    ));
    lemma_filling_changes_length(pieces, tokens, values, 0);
    lemma_filling_changes_length(pieces, tokens, values, 1);
    lemma_filling_changes_length(pieces, tokens, values, 2);
    lemma_filling_changes_length(pieces, tokens, values, 3);
}

/// The bitmap fragment as it is written.
pub fn bitmap_fragment(bitmap: &str, nonportable: bool) -> (out: String)
    ensures
        out@ == bitmap_variant(bitmap@, nonportable),
{
    if nonportable {
        replace_all(bitmap, PORTABLE_ENTRY, NONPORTABLE_ENTRY)
    } else {
        bitmap.to_owned()
    }
}

/// The chunk fragment with each token replaced by the payload or count of
/// `spec` that belongs in its place.
pub fn chunks_fragment(chunks: &str, spec: &RunnerSpec) -> (out: String)
    ensures
        out@ == filled_chunks(chunks@, spec@),
{
    let source = chars_of(chunks);
    let terms = chars_of(TERMS_CHUNKS_TOKEN);
    let terms_len = chars_of(TERMS_CHUNKS_LEN_TOKEN);
    let documents = chars_of(DOCUMENTS_CHUNKS_TOKEN);
    let documents_len = chars_of(DOCUMENTS_CHUNKS_LEN_TOKEN);
    let terms_count = decimal_text(spec.terms_chunks_len);
    let documents_count = decimal_text(spec.documents_chunks_len);
    let mut out = String::new();
    let mut at: usize = 0;
    proof {
        reveal_strlit("___NORMAL_TERMS_CHUNKS___");
        reveal_strlit("___NORMAL_TERMS_CHUNKS_LEN___");
        reveal_strlit("___DOCUMENTS_CHUNKS___");
        reveal_strlit("___DOCUMENTS_CHUNKS_LEN___");
        assert(source@.skip(0) =~= source@);
        assert(out@ + filled_chunks(source@, spec@) =~= filled_chunks(source@, spec@));
    }
    while at < source.len()
        invariant
            at <= source.len(),
            terms@ == TERMS_CHUNKS_TOKEN@ && terms@.len() > 0,
            terms_len@ == TERMS_CHUNKS_LEN_TOKEN@ && terms_len@.len() > 0,
            documents@ == DOCUMENTS_CHUNKS_TOKEN@ && documents@.len() > 0,
            documents_len@ == DOCUMENTS_CHUNKS_LEN_TOKEN@ && documents_len@.len() > 0,
            terms_count@ == decimal(spec@.terms_chunks_len),
            documents_count@ == decimal(spec@.documents_chunks_len),
            out@ + filled_chunks(source@.skip(at as int), spec@) == filled_chunks(source@, spec@),
        decreases source.len() - at,
    {
        let ghost rest = source@.skip(at as int);
        let ghost written = out@;
        proof {
            lemma_occurs_at_shift(source@, terms@, at as int, 0);
            lemma_occurs_at_shift(source@, terms_len@, at as int, 0);
            lemma_occurs_at_shift(source@, documents@, at as int, 0);
            lemma_occurs_at_shift(source@, documents_len@, at as int, 0);
        }
        let step: usize;
        if matches_at(&source, &terms, at) {
            out.append(spec.terms_chunks_raw);
            step = terms.len();
        } else if matches_at(&source, &terms_len, at) {
            out.append(terms_count.as_str());
            step = terms_len.len();
        } else if matches_at(&source, &documents, at) {
            out.append(spec.documents_chunks_raw);
            step = documents.len();
        } else if matches_at(&source, &documents_len, at) {
            out.append(documents_count.as_str());
            step = documents_len.len();
        } else {
            out.push(source[at]);
            step = 1;
            assert(rest.take(1) =~= seq![source@[at as int]]);
        }
        proof {
            assert(rest.skip(step as int) =~= source@.skip(at + step));
            assert(out@ + filled_chunks(source@.skip(at + step), spec@) =~= written + filled_chunks(
                rest,
                spec@,
            ));
        }
        at += step;
    }
    assert(out@ + Seq::<char>::empty() =~= out@);
    out
}

/// The translation unit for `spec`, assembled from `fragments`.
pub fn runner_source(fragments: &RunnerFragments, spec: &RunnerSpec) -> (out: String)
    ensures
        out@ == runner_source_text(fragments@, spec@),
{
    let bitmap = bitmap_fragment(fragments.bitmap, spec.nonportable);
    let chunks = chunks_fragment(fragments.chunks, spec);
    let mut out = String::new();
    out.append(fragments.sys);
    out.append(bitmap.as_str());
    out.append(fragments.index);
    out.append(chunks.as_str());
    assert(out@ =~= runner_source_text(fragments@, spec@));
    out
}

/// The arguments that the compiler is run with to build the runner of
/// `spec` from the file at `source_path` into the file at `artifact_path`.
pub fn runner_arguments(spec: &RunnerSpec, source_path: &str, artifact_path: &str) -> (list: Vec<
    String,
>)
    ensures
        list.deep_view() == arguments(runner_profile(spec@, source_path@, artifact_path@)),
{
    let max_results = decimal_text(spec.max_results);
    let max_query_terms = decimal_text(spec.max_query_terms);
    let ignore_warnings = [WasmCompileWarning::UnusedFunction];
    let macros = [
        (MAX_RESULTS_MACRO, max_results.as_str()),
        (MAX_QUERY_TERMS_MACRO, max_query_terms.as_str()),
    ];
    let args = WasmCompileArgs {
        standard: WasmStandard::C17,
        optimisation_level: WasmOptimisationLevel::Level(3),
        all_warnings: true,
        extra_warnings: true,
        warnings_as_errors: false,
        ignore_warnings: &ignore_warnings,
        macros: &macros,
        input: source_path,
        output: artifact_path,
    };
    proof {
        let profile = runner_profile(spec@, source_path@, artifact_path@);
        assert(args@.ignore_warnings =~= profile.ignore_warnings);
        assert(args@.macros =~= profile.macros);
    }
    compile_arguments(&args)
}

} // verus!
