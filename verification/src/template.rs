//! A template seen as its pieces: literal text, and the places that take a
//! value. It is the model against which the filling of a template is judged.

use crate::text::{lemma_occurs_at_shift, occurs_at};
use vstd::prelude::*;

verus! {

/// One piece of a template: text that stays, or the place of the value with
/// the given number.
pub enum Piece {
    Text(Seq<char>),
    Slot(nat),
}

/// The text of a piece when the places are filled from `fill`.
pub open spec fn piece_text(piece: Piece, fill: Seq<Seq<char>>) -> Seq<char> {
    match piece {
        Piece::Text(text) => text,
        Piece::Slot(slot) => fill[slot as int],
    }
}

/// The pieces one after the other, each place holding its entry of `fill`.
/// With the tokens as `fill` this is the template as it is stored.
pub open spec fn rendered(pieces: Seq<Piece>, fill: Seq<Seq<char>>) -> Seq<char>
    decreases pieces.len(),
{
    if pieces.len() == 0 {
        Seq::empty()
    } else {
        piece_text(pieces.first(), fill) + rendered(pieces.drop_first(), fill)
    }
}

/// Whether every place among the pieces has a number below `count`.
pub open spec fn slots_below(pieces: Seq<Piece>, count: nat) -> bool {
    forall|i: int|
        0 <= i < pieces.len() ==> (#[trigger] pieces[i] matches Piece::Slot(slot) ==> slot < count)
}

/// Whether the place `slot` stands among the pieces exactly once.
pub open spec fn slot_once(pieces: Seq<Piece>, slot: nat) -> bool {
    exists|i: int|
        {
            &&& 0 <= i < pieces.len()
            &&& #[trigger] pieces[i] == Piece::Slot(slot)
            &&& forall|j: int|
                0 <= j < pieces.len() && #[trigger] pieces[j] == Piece::Slot(slot) ==> j == i
        }
}

/// Whether a piece that is the place `slot` begins at position `at` of the
/// stored template.
pub open spec fn place_begins_at(
    pieces: Seq<Piece>,
    tokens: Seq<Seq<char>>,
    slot: nat,
    at: int,
) -> bool {
    exists|i: int|
        {
            &&& 0 <= i < pieces.len()
            &&& #[trigger] pieces[i] == Piece::Slot(slot)
            &&& rendered(pieces.take(i), tokens).len() == at
        }
}

/// Whether the stored template holds the tokens at its places only: where
/// a token occurs in it, a place for that token begins.
pub open spec fn tokens_only_at_places(pieces: Seq<Piece>, tokens: Seq<Seq<char>>) -> bool {
    forall|slot: int, at: int|
        0 <= slot < tokens.len() && #[trigger] occurs_at(
            rendered(pieces, tokens),
            tokens[slot],
            at,
        ) ==> place_begins_at(pieces, tokens, slot as nat, at)
}

/// What the places hold when the first `count` of them have their values
/// and the others their tokens.
pub open spec fn filled_first(tokens: Seq<Seq<char>>, values: Seq<Seq<char>>, count: nat) -> Seq<
    Seq<char>,
> {
    Seq::new(
        tokens.len(),
        |slot: int|
            if slot < count {
                values[slot]
            } else {
                tokens[slot]
            },
    )
}

proof fn lemma_rendered_concat(front: Seq<Piece>, back: Seq<Piece>, fill: Seq<Seq<char>>)
    ensures
        rendered(front + back, fill) == rendered(front, fill) + rendered(back, fill),
    decreases front.len(),
{
    if front.len() == 0 {
        assert(front + back =~= back);
        assert(rendered(front, fill) + rendered(back, fill) =~= rendered(back, fill));
    } else {
        assert((front + back).first() == front.first());
        assert((front + back).drop_first() =~= front.drop_first() + back);
        lemma_rendered_concat(front.drop_first(), back, fill);
        assert(piece_text(front.first(), fill) + (rendered(front.drop_first(), fill) + rendered(
            back,
            fill,
        )) =~= rendered(front, fill) + rendered(back, fill));
    }
}

proof fn lemma_rendered_same(pieces: Seq<Piece>, fill: Seq<Seq<char>>, other: Seq<Seq<char>>)
    requires
        forall|i: int|
            0 <= i < pieces.len() ==> piece_text(#[trigger] pieces[i], fill) == piece_text(
                pieces[i],
                other,
            ),
    ensures
        rendered(pieces, fill) == rendered(pieces, other),
    decreases pieces.len(),
{
    if pieces.len() > 0 {
        assert(pieces.first() == pieces[0]);
        assert forall|i: int| 0 <= i < pieces.drop_first().len() implies piece_text(
            #[trigger] pieces.drop_first()[i],
            fill,
        ) == piece_text(pieces.drop_first()[i], other) by {
            assert(pieces.drop_first()[i] == pieces[i + 1]);
        }
        lemma_rendered_same(pieces.drop_first(), fill, other);
    }
}

proof fn lemma_rendered_after_first(pieces: Seq<Piece>, fill: Seq<Seq<char>>, i: int)
    requires
        1 <= i <= pieces.len(),
    ensures
        rendered(pieces.take(i), fill) == piece_text(pieces.first(), fill) + rendered(
            pieces.drop_first().take(i - 1),
            fill,
        ),
{
    assert(pieces.take(i).first() == pieces.first());
    assert(pieces.take(i).drop_first() =~= pieces.drop_first().take(i - 1));
}

/// What follows the first piece is a template of its own: if the tokens
/// stand at places only in the whole, they do so in the rest.
pub proof fn lemma_rest_keeps_places(pieces: Seq<Piece>, tokens: Seq<Seq<char>>)
    requires
        pieces.len() > 0,
        slots_below(pieces, tokens.len()),
        forall|slot: int| 0 <= slot < tokens.len() ==> (#[trigger] tokens[slot]).len() > 0,
        tokens_only_at_places(pieces, tokens),
    ensures
        slots_below(pieces.drop_first(), tokens.len()),
        tokens_only_at_places(pieces.drop_first(), tokens),
{
    let rest = pieces.drop_first();
    let whole = rendered(pieces, tokens);
    let first = piece_text(pieces.first(), tokens);
    assert(pieces.first() == pieces[0]);
    assert(whole.skip(first.len() as int) =~= rendered(rest, tokens));
    assert forall|i: int| 0 <= i < rest.len() implies (#[trigger] rest[i] matches Piece::Slot(
        slot,
    ) ==> slot < tokens.len()) by {
        assert(rest[i] == pieces[i + 1]);
    }
    assert forall|slot: int, at: int|
        0 <= slot < tokens.len() && #[trigger] occurs_at(
            rendered(rest, tokens),
            tokens[slot],
            at,
        ) implies place_begins_at(rest, tokens, slot as nat, at) by {
        lemma_occurs_at_shift(whole, tokens[slot], first.len() as int, at);
        assert(occurs_at(whole, tokens[slot], first.len() + at));
        let i = choose|i: int|
            {
                &&& 0 <= i < pieces.len()
                &&& #[trigger] pieces[i] == Piece::Slot(slot as nat)
                &&& rendered(pieces.take(i), tokens).len() == first.len() + at
            };
        if i == 0 {
            assert(rendered(pieces.take(0), tokens).len() == 0);
            assert(first == tokens[slot]);
        } else {
            lemma_rendered_after_first(pieces, tokens, i);
            assert(rest[i - 1] == pieces[i]);
        }
    }
}

/// Inside a leading piece of text no token begins, if the tokens stand at
/// places only.
pub proof fn lemma_leading_text_holds_no_token(pieces: Seq<Piece>, tokens: Seq<Seq<char>>)
    requires
        pieces.len() > 0,
        pieces.first() is Text,
        tokens_only_at_places(pieces, tokens),
    ensures
        forall|slot: int, at: int|
            0 <= slot < tokens.len() && 0 <= at < piece_text(pieces.first(), tokens).len()
                ==> !#[trigger] occurs_at(rendered(pieces, tokens), tokens[slot], at),
{
    let whole = rendered(pieces, tokens);
    let first = piece_text(pieces.first(), tokens);
    assert(pieces.first() == pieces[0]);
    assert forall|slot: int, at: int|
        0 <= slot < tokens.len() && 0 <= at < first.len() implies !#[trigger] occurs_at(
        whole,
        tokens[slot],
        at,
    ) by {
        if occurs_at(whole, tokens[slot], at) {
            let i = choose|i: int|
                {
                    &&& 0 <= i < pieces.len()
                    &&& #[trigger] pieces[i] == Piece::Slot(slot as nat)
                    &&& rendered(pieces.take(i), tokens).len() == at
                };
            lemma_rendered_after_first(pieces, tokens, i);
        }
    }
}

/// Filling one more place changes the length by the difference between the
/// value and its token, where the template holds that place once.
pub proof fn lemma_filling_changes_length(
    pieces: Seq<Piece>,
    tokens: Seq<Seq<char>>,
    values: Seq<Seq<char>>,
    slot: nat,
)
    requires
        tokens.len() == values.len(),
        slot < tokens.len(),
        slots_below(pieces, tokens.len()),
        slot_once(pieces, slot),
    ensures
        rendered(pieces, filled_first(tokens, values, slot + 1)).len() + tokens[slot as int].len()
            == rendered(pieces, filled_first(tokens, values, slot)).len()
            + values[slot as int].len(),
{
    let before = filled_first(tokens, values, slot);
    let after = filled_first(tokens, values, slot + 1);
    let i = choose|i: int|
        {
            &&& 0 <= i < pieces.len()
            &&& #[trigger] pieces[i] == Piece::Slot(slot)
            &&& forall|j: int|
                0 <= j < pieces.len() && #[trigger] pieces[j] == Piece::Slot(slot) ==> j == i
        };
    let front = pieces.take(i);
    let back = pieces.skip(i + 1);
    let here = seq![pieces[i]];
    assert(pieces =~= front + here + back);
    assert(rendered(here, before) =~= tokens[slot as int] && rendered(here, after)
        =~= values[slot as int]) by {
        assert(here.first() == Piece::Slot(slot));
        assert(rendered(here.drop_first(), before) =~= Seq::<char>::empty());
        assert(rendered(here.drop_first(), after) =~= Seq::<char>::empty());
        assert(before[slot as int] == tokens[slot as int]);
        assert(after[slot as int] == values[slot as int]);
    }
    lemma_rendered_concat(front + here, back, before);
    lemma_rendered_concat(front, here, before);
    lemma_rendered_concat(front + here, back, after);
    lemma_rendered_concat(front, here, after);
    assert forall|j: int| 0 <= j < front.len() implies piece_text(#[trigger] front[j], before)
        == piece_text(front[j], after) by {
        assert(front[j] == pieces[j]);
    }
    lemma_rendered_same(front, before, after);
    assert forall|j: int| 0 <= j < back.len() implies piece_text(#[trigger] back[j], before)
        == piece_text(back[j], after) by {
        assert(back[j] == pieces[i + 1 + j]);
    }
    lemma_rendered_same(back, before, after);
}

} // verus!
