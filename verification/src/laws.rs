use vstd::prelude::*;

use crate::error::LexError;
use crate::grammar::{
    is_eof, items_view, lemma_after_all_concat, lemma_after_all_monotonic, lemma_step_advances,
    lexeme_from, placed, point_at, result_view, scan, scan_from, starts_from, step,
};
use crate::lexeme::LexemeView;
use crate::lexer::Context;
use crate::span::Point;
use crate::token::Token;

verus! {

/// No lexical unit is the token that reports the end of the input.
pub proof fn lemma_unit_is_no_eof(first: char, src: Seq<char>, next: int, opened: Point, at: Point)
    ensures
        !(lexeme_from(first, src, next, opened, at).outcome matches Ok(lexeme) && lexeme
            == LexemeView::Eof),
{
}

/// Scanning comes to an end: from any offset of any text it hands out at
/// least one item and at most one more than there are characters left; the
/// last item is the token that reports the end of the input, and no item
/// before it is.
pub proof fn lemma_scan_ends_with_one_eof(src: Seq<char>, pos: int, at: Point)
    requires
        0 <= pos <= src.len(),
    ensures
        1 <= scan_from(src, pos, at).len() <= src.len() - pos + 1,
        is_eof(scan_from(src, pos, at).last()),
        forall|k: int|
            0 <= k < scan_from(src, pos, at).len() - 1 ==> !is_eof(
                #[trigger] scan_from(src, pos, at)[k],
            ),
    decreases src.len() - pos,
{
    if pos < src.len() {
        let unit = step(src, pos, at);
        let end = at.after_all(src.subrange(pos, unit.end));
        lemma_step_advances(src, pos, at);
        lemma_unit_is_no_eof(src[pos], src, pos + 1, at, at.after(src[pos]));
        lemma_scan_ends_with_one_eof(src, unit.end, end);
        let rest = scan_from(src, unit.end, end);
        let all = scan_from(src, pos, at);
        assert(all == seq![placed(unit.outcome, at, end)] + rest);
        assert(all.last() == rest.last());
        assert forall|k: int| 0 <= k < all.len() - 1 implies !is_eof(#[trigger] all[k]) by {
            if k > 0 {
                assert(all[k] == rest[k - 1]);
            }
        }
    }
}

/// Scanning a whole text hands out finitely many items, at most one for each
/// character and one more; exactly one of them is the token that reports the
/// end of the input, and it is the last.
pub proof fn lemma_whole_scan_ends_with_one_eof(src: Seq<char>)
    ensures
        1 <= scan(src).len() <= src.len() + 1,
        is_eof(scan(src).last()),
        forall|k: int| 0 <= k < scan(src).len() - 1 ==> !is_eof(#[trigger] scan(src)[k]),
{
    lemma_scan_ends_with_one_eof(src, 0, Point::origin());
}

/// The end of the input is reported when, and only when, the engine is asked
/// with nothing left to consume for the first time; from then on it hands
/// out nothing and stays as it is.
pub proof fn lemma_eof_once(c: Context, after: Context, last: Context)
    requires
        c.wf(),
        c.next_state(&after),
        after.next_state(&last),
    ensures
        c.next_item() is Some <==> !c.eof_generated,
        (c.next_item() matches Some(item) && is_eof(item)) <==> (!c.eof_generated && c.pos
            == c.source@.len()),
        (c.next_item() matches Some(item) && is_eof(item)) ==> after.next_item() is None && last
            == after,
{
    if !c.eof_generated && c.pos < c.source@.len() {
        lemma_unit_is_no_eof(
            c.source@[c.pos as int],
            c.source@,
            c.pos + 1,
            c.span.end(),
            c.span.end().after(c.source@[c.pos as int]),
        );
    }
}

/// The offset behind the `k`-th of the items that start at `starts`.
pub open spec fn piece_end(starts: Seq<int>, k: int, len: int) -> int {
    if k + 1 < starts.len() {
        starts[k + 1]
    } else {
        len
    }
}

/// The text that the `k`-th of the items covers that start at `starts`.
pub open spec fn piece(src: Seq<char>, starts: Seq<int>, k: int) -> Seq<char> {
    src.subrange(starts[k], piece_end(starts, k, src.len() as int))
}

/// The texts that the first `n` items cover, one behind the other.
pub open spec fn joined(src: Seq<char>, starts: Seq<int>, n: int) -> Seq<char>
    decreases n,
{
    if n <= 0 {
        Seq::empty()
    } else {
        joined(src, starts, n - 1) + piece(src, starts, n - 1)
    }
}

/// The offsets rise from `first` to `last`.
pub open spec fn rising(starts: Seq<int>, first: int, last: int) -> bool {
    &&& starts.len() > 0
    &&& starts[0] == first
    &&& starts.last() == last
    &&& forall|i: int, j: int|
        #![trigger starts[i], starts[j]]
        0 <= i < j < starts.len() ==> starts[i] < starts[j]
}

/// From any offset, the items of a scan start at offsets that rise from the
/// offset where the scan starts to the end of the text, and the span of each
/// token runs from the coordinate of the offset where it starts to the
/// coordinate of the offset where the next item starts.
pub proof fn lemma_spans_tile_from(src: Seq<char>, pos: int, at: Point)
    requires
        0 <= pos <= src.len(),
        at == point_at(src, pos),
    ensures
        starts_from(src, pos, at).len() == scan_from(src, pos, at).len(),
        rising(starts_from(src, pos, at), pos, src.len() as int),
        forall|k: int|
            0 <= k < scan_from(src, pos, at).len() ==> (#[trigger] scan_from(src, pos, at)[k]
                matches Ok(token) ==> token.start == point_at(
                src,
                starts_from(src, pos, at)[k],
            ) && token.end == point_at(
                src,
                piece_end(starts_from(src, pos, at), k, src.len() as int),
            )),
    decreases src.len() - pos,
{
    let all = scan_from(src, pos, at);
    let starts = starts_from(src, pos, at);
    if pos < src.len() {
        let unit = step(src, pos, at);
        let end = at.after_all(src.subrange(pos, unit.end));
        lemma_step_advances(src, pos, at);
        lemma_after_all_concat(
            Point::origin(),
            src.subrange(0, pos),
            src.subrange(pos, unit.end),
        );
        assert(src.subrange(0, pos) + src.subrange(pos, unit.end) =~= src.subrange(0, unit.end));
        assert(end == point_at(src, unit.end));
        lemma_spans_tile_from(src, unit.end, end);
        let rest = scan_from(src, unit.end, end);
        let rest_starts = starts_from(src, unit.end, end);
        assert(all == seq![placed(unit.outcome, at, end)] + rest);
        assert(starts == seq![pos] + rest_starts);
        assert(starts.last() == rest_starts.last());
        assert forall|i: int, j: int|
            #![trigger starts[i], starts[j]]
            0 <= i < j < starts.len() implies starts[i] < starts[j] by {
            assert(starts[j] == rest_starts[j - 1]);
            if i > 0 {
                assert(starts[i] == rest_starts[i - 1]);
            } else if j > 1 {
                assert(rest_starts[0] < rest_starts[j - 1]);
            }
        }
        assert forall|k: int| 0 <= k < all.len() implies (#[trigger] all[k] matches Ok(token)
            ==> token.start == point_at(src, starts[k]) && token.end == point_at(
            src,
            piece_end(starts, k, src.len() as int),
        )) by {
            if k > 0 {
                assert(all[k] == rest[k - 1]);
                assert(starts[k] == rest_starts[k - 1]);
                assert(piece_end(starts, k, src.len() as int) == piece_end(
                    rest_starts,
                    k - 1,
                    src.len() as int,
                ));
            } else {
                assert(starts[1] == rest_starts[0]);
            }
        }
    }
}

/// Pieces that lie one behind the other from the start of a text make up
/// the text up to where the last of them ends.
pub proof fn lemma_pieces_join(src: Seq<char>, starts: Seq<int>, n: int)
    requires
        1 <= n <= starts.len(),
        rising(starts, 0, src.len() as int),
    ensures
        joined(src, starts, n) == src.subrange(0, piece_end(starts, n - 1, src.len() as int)),
    decreases n,
{
    let len = src.len() as int;
    let end = piece_end(starts, n - 1, len);
    assert(0 <= starts[n - 1] <= end <= len) by {
        if n - 1 > 0 {
            assert(starts[0] < starts[n - 1]);
        }
        if n < starts.len() {
            assert(starts[n - 1] < starts[n]);
            if n < starts.len() - 1 {
                assert(starts[n] < starts[starts.len() - 1]);
            }
        } else {
            assert(starts[n - 1] == starts.last());
        }
    }
    if n == 1 {
        assert(joined(src, starts, 0) =~= Seq::<char>::empty());
        assert(joined(src, starts, 1) =~= src.subrange(0, end));
    } else {
        lemma_pieces_join(src, starts, n - 1);
        assert(piece_end(starts, n - 2, len) == starts[n - 1]);
        assert(src.subrange(0, starts[n - 1]) + src.subrange(starts[n - 1], end) =~= src.subrange(
            0,
            end,
        ));
    }
}

/// The items of the scan of a text start at offsets that rise from 0 to the
/// length of the text, and the span of each token runs from the coordinate of
/// the offset where it starts to the coordinate of the offset where the next
/// item starts: it covers its piece of the text and nothing else. So each
/// token starts where the token before it ended, and the pieces, one behind
/// the other, are the text again: nothing is left out and nothing is
/// covered twice.
pub proof fn lemma_spans_tile(src: Seq<char>)
    ensures
        starts_from(src, 0, Point::origin()).len() == scan(src).len(),
        rising(starts_from(src, 0, Point::origin()), 0, src.len() as int),
        forall|k: int|
            0 <= k < scan(src).len() ==> (#[trigger] scan(src)[k] matches Ok(token)
                ==> token.start == point_at(src, starts_from(src, 0, Point::origin())[k])
                && token.end == token.start.after_all(
                piece(src, starts_from(src, 0, Point::origin()), k),
            )),
        forall|k: int|
            0 <= k < scan(src).len() - 1 ==> (#[trigger] scan(src)[k] matches Ok(token) ==> (scan(
                src,
            )[k + 1] matches Ok(next) ==> next.start == token.end)),
        joined(src, starts_from(src, 0, Point::origin()), scan(src).len() as int) == src,
{
    let starts = starts_from(src, 0, Point::origin());
    let all = scan(src);
    let len = src.len() as int;
    assert(src.subrange(0, 0) =~= Seq::<char>::empty());
    lemma_spans_tile_from(src, 0, Point::origin());
    lemma_pieces_join(src, starts, starts.len() as int);
    assert(src.subrange(0, len) =~= src);
    assert forall|k: int| 0 <= k < all.len() implies (#[trigger] all[k] matches Ok(token)
        ==> token.start == point_at(src, starts[k]) && token.end == token.start.after_all(
        piece(src, starts, k),
    )) by {
        let end = piece_end(starts, k, len);
        assert(0 <= starts[k] <= end <= len) by {
            if k > 0 {
                assert(starts[0] < starts[k]);
            }
            if k + 1 < starts.len() {
                assert(starts[k] < starts[k + 1]);
                if k + 1 < starts.len() - 1 {
                    assert(starts[k + 1] < starts[starts.len() - 1]);
                }
            } else {
                assert(starts[k] == starts.last());
            }
        }
        lemma_after_all_concat(Point::origin(), src.subrange(0, starts[k]), piece(src, starts, k));
        assert(src.subrange(0, starts[k]) + piece(src, starts, k) =~= src.subrange(0, end));
    }
    assert forall|k: int| 0 <= k < all.len() - 1 implies (#[trigger] all[k] matches Ok(token) ==> (
    all[k + 1] matches Ok(next) ==> next.start == token.end)) by {
        assert(piece_end(starts, k, len) == starts[k + 1]);
    }
}

/// The text that a token carries is taken from the source as it stands: a
/// run of blanks, an identifier and a number carry all the characters that
/// they cover, a string literal those between its quotes, and a comment
/// those behind its two slashes.
pub proof fn lemma_payload_is_source_text(src: Seq<char>, pos: int, at: Point)
    requires
        0 <= pos < src.len(),
    ensures
        pos < step(src, pos, at).end <= src.len(),
        match step(src, pos, at).outcome {
            Ok(LexemeView::Whitespace(text)) => text == src.subrange(pos, step(src, pos, at).end),
            Ok(LexemeView::Identifier(text)) => text == src.subrange(pos, step(src, pos, at).end),
            Ok(LexemeView::Number(text)) => text == src.subrange(pos, step(src, pos, at).end),
            Ok(LexemeView::String(text)) => text == src.subrange(
                pos + 1,
                step(src, pos, at).end - 1,
            ),
            Ok(LexemeView::Comment(text)) => text == src.subrange(
                pos + 2,
                step(src, pos, at).end,
            ),
            _ => true,
        },
{
    let end = step(src, pos, at).end;
    lemma_step_advances(src, pos, at);
    assert(seq![src[pos]] + src.subrange(pos + 1, end) =~= src.subrange(pos, end));
}

/// No token of a scan ends before it starts.
pub proof fn lemma_token_spans_well_formed(src: Seq<char>)
    ensures
        forall|k: int|
            0 <= k < scan(src).len() ==> (#[trigger] scan(src)[k] matches Ok(token)
                ==> token.start.at_or_before(token.end)),
{
    lemma_spans_tile(src);
    let starts = starts_from(src, 0, Point::origin());
    assert forall|k: int| 0 <= k < scan(src).len() implies (#[trigger] scan(src)[k] matches Ok(
        token,
    ) ==> token.start.at_or_before(token.end)) by {
        lemma_after_all_monotonic(point_at(src, starts[k]), piece(src, starts, k));
    }
}

/// Two fresh engines over the same text have the same
/// items to hand out, those of the scan of the text, the first item
/// included.
pub proof fn lemma_rescan_is_equal(a: Context, b: Context, text: Seq<char>)
    requires
        a.fresh(text),
        b.fresh(text),
    ensures
        a.rest() == scan(text),
        b.rest() == a.rest(),
        b.next_item() == a.next_item(),
{
}

/// Two sequences of items that each are all that a fresh engine over the
/// same text hands out have the same length, and agree item by item: the same
/// failure, or tokens with the same lexeme and the same span.
pub proof fn lemma_rescan_gives_equal_items(
    a: Context,
    b: Context,
    text: Seq<char>,
    first: Seq<Result<Token, LexError>>,
    second: Seq<Result<Token, LexError>>,
)
    requires
        a.fresh(text),
        b.fresh(text),
        items_view(first) == a.rest(),
        items_view(second) == b.rest(),
    ensures
        first.len() == second.len(),
        forall|k: int|
            0 <= k < first.len() ==> match (#[trigger] first[k], second[k]) {
                (Ok(s), Ok(t)) => s.lexeme@ == t.lexeme@ && s.span == t.span,
                (Err(e), Err(f)) => e == f,
                _ => false,
            },
{
    assert(items_view(first).len() == items_view(second).len());
    assert forall|k: int| 0 <= k < first.len() implies match (#[trigger] first[k], second[k]) {
        (Ok(s), Ok(t)) => s.lexeme@ == t.lexeme@ && s.span == t.span,
        (Err(e), Err(f)) => e == f,
        _ => false,
    } by {
        assert(items_view(first)[k] == result_view(first[k]));
        assert(items_view(second)[k] == result_view(second[k]));
    }
}

} // verus!
