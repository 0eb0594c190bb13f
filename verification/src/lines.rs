//! Lines: the pieces of a sequence that a separator ends.
//!
//! Both the response stream (bytes, newline byte) and the session files
//! (characters, newline character) are read line by line.

use vstd::prelude::*;

verus! {

/// The lines of `s` that a separator has ended, in order, each without its
/// separator.
pub open spec fn closed_lines<T>(s: Seq<T>, sep: T) -> Seq<Seq<T>>
    decreases s.len(),
{
    if s.len() == 0 {
        Seq::empty()
    } else if s.last() == sep {
        closed_lines(s.drop_last(), sep).push(open_line(s.drop_last(), sep))
    } else {
        closed_lines(s.drop_last(), sep)
    }
}

/// What follows the last separator of `s`: a line still open.
pub open spec fn open_line<T>(s: Seq<T>, sep: T) -> Seq<T>
    decreases s.len(),
{
    if s.len() == 0 {
        Seq::empty()
    } else if s.last() == sep {
        Seq::empty()
    } else {
        open_line(s.drop_last(), sep).push(s.last())
    }
}

/// Whether `s` holds no separator.
pub open spec fn sep_free<T>(s: Seq<T>, sep: T) -> bool {
    forall|i: int| 0 <= i < s.len() ==> s[i] != sep
}

/// `lines` written one after the other, a separator behind each.
pub open spec fn join_lines<T>(lines: Seq<Seq<T>>, sep: T) -> Seq<T>
    decreases lines.len(),
{
    if lines.len() == 0 {
        Seq::empty()
    } else {
        join_lines(lines.drop_last(), sep) + lines.last().push(sep)
    }
}

/// A sequence without a separator is one open line.
pub proof fn lemma_sep_free_is_open<T>(s: Seq<T>, sep: T)
    requires
        sep_free(s, sep),
    ensures
        closed_lines(s, sep) == Seq::<Seq<T>>::empty(),
        open_line(s, sep) == s,
    decreases s.len(),
{
    if s.len() > 0 {
        lemma_sep_free_is_open(s.drop_last(), sep);
        assert(s.drop_last().push(s.last()) == s);
    }
}

/// The open line holds no separator.
pub proof fn lemma_open_line_is_sep_free<T>(s: Seq<T>, sep: T)
    ensures
        sep_free(open_line(s, sep), sep),
    decreases s.len(),
{
    if s.len() > 0 && s.last() != sep {
        lemma_open_line_is_sep_free(s.drop_last(), sep);
    }
}

/// No closed line holds a separator.
pub proof fn lemma_closed_lines_are_sep_free<T>(s: Seq<T>, sep: T)
    ensures
        forall|i: int| 0 <= i < closed_lines(s, sep).len() ==> sep_free(
            #[trigger] closed_lines(s, sep)[i],
            sep,
        ),
    decreases s.len(),
{
    if s.len() > 0 {
        let before = s.drop_last();
        lemma_closed_lines_are_sep_free(before, sep);
        lemma_open_line_is_sep_free(before, sep);
        assert forall|i: int| 0 <= i < closed_lines(s, sep).len() implies sep_free(
            #[trigger] closed_lines(s, sep)[i],
            sep,
        ) by {
            if s.last() == sep {
                if i < closed_lines(before, sep).len() {
                    assert(closed_lines(s, sep)[i] == closed_lines(before, sep)[i]);
                } else {
                    assert(closed_lines(s, sep)[i] == open_line(before, sep));
                }
            }
        }
    }
}

/// Cutting a sequence in two cuts its lines: those of the first part, then
/// those of the second part read after the line that the first left open.
pub proof fn lemma_lines_concat<T>(a: Seq<T>, b: Seq<T>, sep: T)
    ensures
        closed_lines(a + b, sep) == closed_lines(a, sep) + closed_lines(open_line(a, sep) + b, sep),
        open_line(a + b, sep) == open_line(open_line(a, sep) + b, sep),
    decreases b.len(),
{
    let rest = open_line(a, sep);
    if b.len() == 0 {
        assert(a + b == a);
        assert(rest + b == rest);
        lemma_open_line_is_sep_free(a, sep);
        lemma_sep_free_is_open(rest, sep);
        assert(closed_lines(a, sep) + Seq::<Seq<T>>::empty() == closed_lines(a, sep));
    } else {
        let b0 = b.drop_last();
        lemma_lines_concat(a, b0, sep);
        assert((a + b).drop_last() == a + b0);
        assert((rest + b).drop_last() == rest + b0);
        if b.last() == sep {
            assert((closed_lines(a, sep) + closed_lines(rest + b0, sep)).push(
                open_line(rest + b0, sep),
            ) == closed_lines(a, sep) + closed_lines(rest + b0, sep).push(
                open_line(rest + b0, sep),
            ));
        }
    }
}

/// A sequence is its closed lines, a separator behind each, and then its open
/// line: cutting into lines loses nothing.
pub proof fn lemma_lines_rejoin<T>(s: Seq<T>, sep: T)
    ensures
        join_lines(closed_lines(s, sep), sep) + open_line(s, sep) == s,
    decreases s.len(),
{
    if s.len() == 0 {
        assert(join_lines(closed_lines(s, sep), sep) + open_line(s, sep) == s);
    } else {
        let before = s.drop_last();
        lemma_lines_rejoin(before, sep);
        let closed = closed_lines(before, sep);
        let open = open_line(before, sep);
        assert(before.push(s.last()) == s);
        if s.last() == sep {
            assert(closed.push(open).drop_last() == closed);
            assert(join_lines(closed, sep) + open.push(sep) + Seq::<T>::empty() == (join_lines(
                closed,
                sep,
            ) + open).push(sep));
        } else {
            assert(join_lines(closed, sep) + open.push(s.last()) == (join_lines(closed, sep)
                + open).push(s.last()));
        }
    }
}

} // verus!
