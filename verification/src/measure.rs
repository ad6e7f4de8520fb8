//! The geometry of a text: how many lines it has and how long its longest
//! line is, counted in characters.

use vstd::prelude::*;
use vstd::string::*;

verus! {

/// A text broken at every line feed. There is one more piece than there are
/// line feeds; the last piece is what follows the last line feed.
pub open spec fn pieces(text: Seq<char>) -> Seq<Seq<char>>
    decreases text.len(),
{
    if text.len() == 0 {
        seq![Seq::empty()]
    } else {
        let before = pieces(text.drop_last());
        if text.last() == '\n' {
            before.push(Seq::empty())
        } else {
            before.update(before.len() - 1, before.last().push(text.last()))
        }
    }
}

/// A piece without the carriage return that ends it, if one does.
pub open spec fn without_cr(piece: Seq<char>) -> Seq<char> {
    if piece.len() > 0 && piece.last() == '\r' {
        piece.drop_last()
    } else {
        piece
    }
}

/// The lines of a text. A line ends at a line feed, or at a carriage return
/// directly followed by one; the end of the text ends the last line, and an
/// empty last line does not count.
pub open spec fn lines_of(text: Seq<char>) -> Seq<Seq<char>> {
    let all = pieces(text);
    let closed = all.drop_last().map_values(|piece: Seq<char>| without_cr(piece));
    if all.last().len() == 0 {
        closed
    } else {
        closed.push(all.last())
    }
}

/// The length of the longest of some lines; 0 where there are none.
pub open spec fn longest_of(lines: Seq<Seq<char>>) -> nat
    decreases lines.len(),
{
    if lines.len() == 0 {
        0
    } else {
        let before = longest_of(lines.drop_last());
        if lines.last().len() > before {
            lines.last().len()
        } else {
            before
        }
    }
}

/// The size of a text in lines and characters.
#[derive(Clone, Copy, Debug, PartialEq, Eq, Structural)]
pub struct Extent {
    /// How many lines the text has.
    pub lines: usize,
    /// How many characters its longest line has.
    pub longest: usize,
}

/// The extent of a text, as a pair of numbers.
pub open spec fn extent_of(text: Seq<char>) -> (nat, nat) {
    (lines_of(text).len(), longest_of(lines_of(text)))
}

/// A text has at least one piece and at most one more than it has
/// characters, and its last piece is no longer than the text.
proof fn lemma_pieces_nonempty(text: Seq<char>)
    ensures
        pieces(text).len() >= 1,
        pieces(text).len() <= text.len() + 1,
        pieces(text).last().len() <= text.len(),
    decreases text.len(),
{
    if text.len() > 0 {
        lemma_pieces_nonempty(text.drop_last());
    }
}

/// Only the empty text has no lines.
pub proof fn lemma_no_lines_no_text(text: Seq<char>)
    ensures
        lines_of(text).len() == 0 <==> text.len() == 0,
{
    if text.len() > 0 {
        lemma_pieces_nonempty(text.drop_last());
    }
}

/// A text is whole lines when it is empty or ends with a line feed.
pub open spec fn ends_line(text: Seq<char>) -> bool {
    text.len() == 0 || text.last() == '\n'
}

/// After whole lines, the pieces of what follows are pieces of the whole.
proof fn lemma_pieces_after_lines(a: Seq<char>, b: Seq<char>)
    requires
        ends_line(a),
    ensures
        pieces(a + b) == pieces(a).drop_last() + pieces(b),
        pieces(a).last().len() == 0,
    decreases b.len(),
{
    lemma_pieces_nonempty(a);
    if a.len() > 0 {
        lemma_pieces_nonempty(a.drop_last());
    }
    if b.len() == 0 {
        assert(a + b =~= a);
        assert(pieces(a) =~= pieces(a).drop_last() + pieces(b));
    } else {
        let rest = b.drop_last();
        lemma_pieces_after_lines(a, rest);
        lemma_pieces_nonempty(rest);
        assert((a + b).drop_last() =~= a + rest);
        assert((a + b).last() == b.last());
        assert(pieces(a + b) =~= pieces(a).drop_last() + pieces(b));
    }
}

/// The lines of a text that follows whole lines come after those lines.
pub proof fn lemma_lines_after_lines(a: Seq<char>, b: Seq<char>)
    requires
        ends_line(a),
    ensures
        lines_of(a + b) == lines_of(a) + lines_of(b),
{
    lemma_pieces_after_lines(a, b);
    lemma_pieces_nonempty(a);
    lemma_pieces_nonempty(b);
    let strip = |piece: Seq<char>| without_cr(piece);
    let head = pieces(a).drop_last();
    assert((head + pieces(b)).drop_last() =~= head + pieces(b).drop_last());
    assert((head + pieces(b).drop_last()).map_values(strip) =~= head.map_values(strip) + pieces(
        b,
    ).drop_last().map_values(strip));
    assert(lines_of(a) =~= head.map_values(strip));
    assert(lines_of(a + b) =~= lines_of(a) + lines_of(b));
}

/// How many line feeds a text holds.
pub open spec fn breaks(text: Seq<char>) -> nat
    decreases text.len(),
{
    if text.len() == 0 {
        0
    } else {
        breaks(text.drop_last()) + if text.last() == '\n' {
            1nat
        } else {
            0nat
        }
    }
}

/// The line feeds of two texts in a row are those of the one and those of
/// the other.
pub proof fn lemma_breaks_of_both(a: Seq<char>, b: Seq<char>)
    ensures
        breaks(a + b) == breaks(a) + breaks(b),
    decreases b.len(),
{
    if b.len() == 0 {
        assert(a + b =~= a);
    } else {
        lemma_breaks_of_both(a, b.drop_last());
        assert((a + b).drop_last() =~= a + b.drop_last());
        assert((a + b).last() == b.last());
    }
}

/// A text without a line feed in it holds none.
pub proof fn lemma_no_breaks(text: Seq<char>)
    requires
        forall|i: int| 0 <= i < text.len() ==> text[i] != '\n',
    ensures
        breaks(text) == 0,
    decreases text.len(),
{
    if text.len() > 0 {
        lemma_no_breaks(text.drop_last());
    }
}

/// A text of whole lines has as many lines as line feeds.
pub proof fn lemma_lines_are_breaks(text: Seq<char>)
    requires
        ends_line(text),
    ensures
        lines_of(text).len() == breaks(text),
{
    lemma_pieces_after_lines(text, Seq::empty());
    lemma_pieces_count(text);
}

/// A text has one piece more than it has line feeds.
proof fn lemma_pieces_count(text: Seq<char>)
    ensures
        pieces(text).len() == breaks(text) + 1,
    decreases text.len(),
{
    if text.len() > 0 {
        lemma_pieces_count(text.drop_last());
    }
}

/// The longest of some lines and some more is the longer of the two longest.
pub proof fn lemma_longest_of_both(a: Seq<Seq<char>>, b: Seq<Seq<char>>)
    ensures
        longest_of(a + b) == if longest_of(a) >= longest_of(b) {
            longest_of(a)
        } else {
            longest_of(b)
        },
    decreases b.len(),
{
    if b.len() == 0 {
        assert(a + b =~= a);
    } else {
        lemma_longest_of_both(a, b.drop_last());
        assert((a + b).drop_last() =~= a + b.drop_last());
        assert((a + b).last() == b.last());
    }
}

/// Counts the lines of `text` and finds the length of the longest.
pub fn measure(text: &str) -> (extent: Extent)
    ensures
        (extent.lines as nat, extent.longest as nat) == extent_of(text@),
{
    broadcast use group_string_axioms;

    // the number of characters bounds every counter below
    let total = text.unicode_len();
    let ghost all = text@;
    let mut closed: usize = 0;
    let mut longest: usize = 0;
    let mut open_len: usize = 0;
    let mut open_cr: bool = false;
    proof {
        assert(all.take(0) =~= Seq::<char>::empty());
        assert(pieces(all.take(0)).drop_last() =~= Seq::<Seq<char>>::empty());
    }
    for c in it: text.chars()
        invariant
            all == it.seq(),
            closed == pieces(all.take(it.index() as int)).len() - 1,
            longest == longest_of(
                pieces(all.take(it.index() as int)).drop_last().map_values(
                    |piece: Seq<char>| without_cr(piece),
                ),
            ),
            open_len == pieces(all.take(it.index() as int)).last().len(),
            open_cr == (open_len > 0 && pieces(all.take(it.index() as int)).last().last()
                == '\r'),
            all.len() == total,
            it.index() <= all.len(),
            closed + open_len <= it.index(),
            longest <= it.index(),
    {
        proof {
            let i = it.index() as int;
            let seen = all.take(i);
            let next = all.take(i + 1);
            assert(next.drop_last() =~= seen);
            assert(next.last() == c);
            lemma_pieces_nonempty(seen);
            if c == '\n' {
                let strip = |piece: Seq<char>| without_cr(piece);
                assert(pieces(next).drop_last() =~= pieces(seen));
                assert(pieces(seen).map_values(strip).drop_last() =~= pieces(
                    seen,
                ).drop_last().map_values(strip));
            } else {
                assert(pieces(next).drop_last() =~= pieces(seen).drop_last());
            }
        }
        if c == '\n' {
            let line_len: usize = if open_cr {
                open_len - 1
            } else {
                open_len
            };
            if line_len > longest {
                longest = line_len;
            }
            closed += 1;
            open_len = 0;
            open_cr = false;
        } else {
            open_len += 1;
            open_cr = c == '\r';
        }
    }
    proof {
        assert(all.take(all.len() as int) =~= all);
        let strip = |piece: Seq<char>| without_cr(piece);
        let closed_lines = pieces(all).drop_last().map_values(strip);
        if open_len > 0 {
            assert(lines_of(all) == closed_lines.push(pieces(all).last()));
            assert(closed_lines.push(pieces(all).last()).drop_last() =~= closed_lines);
        }
    }
    if open_len == 0 {
        Extent { lines: closed, longest }
    } else {
        Extent {
            lines: closed + 1,
            longest: if open_len > longest {
                open_len
            } else {
                longest
            },
        }
    }
}

} // verus!
