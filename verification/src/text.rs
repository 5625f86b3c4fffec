//! The textual form of a board: rows of glyphs separated by newlines.
//!
//! This module owns the line structure alone: how a string breaks into
//! lines and how lines join back into a string. Which glyph stands for
//! a live cell is each board module's own affair.

use vstd::prelude::*;
use vstd::string::StrSliceExecFns;

verus! {

/// Index of the first newline in `s`, or `s.len()` when there is none.
pub open spec fn first_nl(s: Seq<char>) -> nat
    decreases s.len(),
{
    if s.len() == 0 {
        0
    } else if s[0] == '\n' {
        0
    } else {
        1 + first_nl(s.drop_first())
    }
}

/// The line with one carriage return dropped from its end, if it ends
/// with one: `"\r\n"` counts as a single line break.
pub open spec fn strip_cr(line: Seq<char>) -> Seq<char> {
    if line.len() > 0 && line.last() == '\r' {
        line.drop_last()
    } else {
        line
    }
}

/// The lines of `s`: the pieces between newlines, in order, each
/// shorn of a carriage return directly before its newline. A final
/// piece without a trailing newline is kept whole (a carriage return
/// at the very end of `s` is an ordinary character); an empty `s` has
/// no lines.
pub open spec fn split_lines(s: Seq<char>) -> Seq<Seq<char>>
    decreases s.len(),
{
    if s.len() == 0 {
        Seq::empty()
    } else {
        let i = first_nl(s);
        if i >= s.len() {
            seq![s]
        } else {
            seq![strip_cr(s.take(i as int))] + split_lines(s.skip(i as int + 1))
        }
    }
}

/// The lines joined back together, each followed by one newline.
pub open spec fn join_lines(lines: Seq<Seq<char>>) -> Seq<char>
    decreases lines.len(),
{
    if lines.len() == 0 {
        Seq::empty()
    } else {
        lines.first() + seq!['\n'] + join_lines(lines.drop_first())
    }
}

/// The character sequences of a vector of strings, in order.
pub open spec fn views_of(lines: Seq<String>) -> Seq<Seq<char>> {
    lines.map_values(|l: String| l@)
}

pub proof fn lemma_views_of_push(lines: Seq<String>, x: String)
    ensures
        views_of(lines.push(x)) == views_of(lines).push(x@),
{
    assert(views_of(lines.push(x)) =~= views_of(lines).push(x@));
}

proof fn lemma_head_tail_no_newline(a: Seq<char>)
    requires
        a.len() > 0,
        !a.contains('\n'),
    ensures
        a[0] != '\n',
        !a.drop_first().contains('\n'),
{
    if a.drop_first().contains('\n') {
        let k = choose|k: int|
            0 <= k < a.drop_first().len() && a.drop_first()[k] == '\n';
        assert(a[k + 1] == '\n');
    }
}

pub proof fn lemma_push_no_newline(a: Seq<char>, c: char)
    requires
        !a.contains('\n'),
        c != '\n',
    ensures
        !a.push(c).contains('\n'),
{
    if a.push(c).contains('\n') {
        let k = choose|k: int| 0 <= k < a.push(c).len() && a.push(c)[k] == '\n';
        if k < a.len() {
            assert(a[k] == '\n');
        }
    }
}

/// A sequence without a newline has no split point before its end.
pub proof fn lemma_first_nl_no_newline(s: Seq<char>)
    requires
        !s.contains('\n'),
    ensures
        first_nl(s) == s.len(),
    decreases s.len(),
{
    if s.len() > 0 {
        lemma_head_tail_no_newline(s);
        lemma_first_nl_no_newline(s.drop_first());
    }
}

proof fn lemma_first_nl_append(a: Seq<char>, b: Seq<char>)
    requires
        !a.contains('\n'),
    ensures
        first_nl(a + seq!['\n'] + b) == a.len(),
    decreases a.len(),
{
    let s = a + seq!['\n'] + b;
    if a.len() == 0 {
        assert(s[0] == '\n');
    } else {
        lemma_head_tail_no_newline(a);
        assert(s[0] == a[0]);
        assert(s.drop_first() =~= a.drop_first() + seq!['\n'] + b);
        lemma_first_nl_append(a.drop_first(), b);
    }
}

/// Splitting a newline-free piece, a newline, and a remainder peels
/// off the piece, shorn of a carriage return at its end, and splits
/// the remainder.
pub proof fn lemma_split_lines_cons(a: Seq<char>, b: Seq<char>)
    requires
        !a.contains('\n'),
    ensures
        split_lines(a + seq!['\n'] + b) == seq![strip_cr(a)] + split_lines(b),
{
    let s = a + seq!['\n'] + b;
    lemma_first_nl_append(a, b);
    assert(s.len() > 0);
    assert(s.take(a.len() as int) =~= a);
    assert(s.skip(a.len() as int + 1) =~= b);
}

/// A non-empty sequence without a newline splits to itself alone.
pub proof fn lemma_split_lines_single(a: Seq<char>)
    requires
        a.len() > 0,
        !a.contains('\n'),
    ensures
        split_lines(a) == seq![a],
{
    lemma_first_nl_no_newline(a);
}

/// Appending one more line to a join appends its text and a newline.
pub proof fn lemma_join_lines_push(lines: Seq<Seq<char>>, x: Seq<char>)
    ensures
        join_lines(lines.push(x)) == join_lines(lines) + x + seq!['\n'],
    decreases lines.len(),
{
    if lines.len() == 0 {
        assert(lines.push(x).len() == 1);
        assert(lines.push(x)[0] == x);
        assert(lines.push(x).drop_first() =~= Seq::<Seq<char>>::empty());
        assert(join_lines(lines.push(x).drop_first()) =~= Seq::<char>::empty());
        assert(join_lines(lines.push(x)) =~= x + seq!['\n']);
        assert(join_lines(lines) + x + seq!['\n'] =~= x + seq!['\n']);
    } else {
        assert(lines.push(x)[0] == lines[0]);
        assert(lines.push(x).drop_first() =~= lines.drop_first().push(x));
        lemma_join_lines_push(lines.drop_first(), x);
        assert(join_lines(lines.push(x)) =~= join_lines(lines) + x + seq!['\n']);
    }
}

/// Splitting the join of lines that hold no newline and end in no
/// carriage return gives the lines back: the two directions of the
/// text form are inverses at the line level.
pub proof fn lemma_split_join(lines: Seq<Seq<char>>)
    requires
        forall|i: int| 0 <= i < lines.len() ==> !(#[trigger] lines[i]).contains('\n'),
        forall|i: int| 0 <= i < lines.len() ==> strip_cr(#[trigger] lines[i]) == lines[i],
    ensures
        split_lines(join_lines(lines)) == lines,
    decreases lines.len(),
{
    if lines.len() > 0 {
        lemma_split_lines_cons(lines.first(), join_lines(lines.drop_first()));
        assert forall|i: int|
            0 <= i < lines.drop_first().len() implies !(#[trigger] lines.drop_first()[i]).contains(
            '\n',
        ) && strip_cr(lines.drop_first()[i]) == lines.drop_first()[i] by {
            assert(lines.drop_first()[i] == lines[i + 1]);
        }
        lemma_split_join(lines.drop_first());
        assert(seq![lines.first()] + lines.drop_first() =~= lines);
    }
}

/// Relies on `String::push`: appends one character at the end.
#[verifier::external_body]
pub(crate) fn push_char(s: &mut String, c: char)
    ensures
        final(s)@ == old(s)@.push(c),
{
    s.push(c)
}

/// The text of the line being scanned: the characters pushed so far,
/// plus a carriage return that is held back until the next character
/// shows whether it belongs to a `"\r\n"` break.
spec fn with_pending(cur: Seq<char>, pending: bool) -> Seq<char> {
    if pending {
        cur.push('\r')
    } else {
        cur
    }
}

/// Splits a string into its lines, as `split_lines` describes them.
pub fn split_lines_exec(s: &str) -> (lines: Vec<String>)
    ensures
        views_of(lines@) == split_lines(s@),
{
    let n = s.unicode_len();
    let mut done: Vec<String> = Vec::new();
    let mut cur: String = String::new();
    let mut pending_cr: bool = false;
    let mut pos: usize = 0;
    proof {
        assert(views_of(done@) =~= Seq::<Seq<char>>::empty());
        assert(with_pending(cur@, pending_cr) + s@.skip(0) =~= s@);
        assert(Seq::<Seq<char>>::empty() + split_lines(s@) =~= split_lines(s@));
    }
    while pos < n
        invariant
            n == s@.len(),
            pos <= n,
            !cur@.contains('\n'),
            !pending_cr ==> cur@.len() == 0 || cur@.last() != '\r',
            split_lines(s@) == views_of(done@) + split_lines(
                with_pending(cur@, pending_cr) + s@.skip(pos as int),
            ),
        decreases n - pos,
    {
        let c = s.get_char(pos);
        let ghost done0 = done@;
        let ghost cur0 = cur@;
        let ghost pending0 = pending_cr;
        if c == '\n' {
            proof {
                if pending0 {
                    lemma_push_no_newline(cur0, '\r');
                }
                assert(with_pending(cur0, pending0) + s@.skip(pos as int) =~= with_pending(
                    cur0,
                    pending0,
                ) + seq!['\n'] + s@.skip(pos as int + 1));
                lemma_split_lines_cons(with_pending(cur0, pending0), s@.skip(pos as int + 1));
                assert(strip_cr(with_pending(cur0, pending0)) =~= cur0);
            }
            done.push(cur);
            cur = String::new();
            pending_cr = false;
            proof {
                lemma_views_of_push(done0, done@[done0.len() as int]);
                assert(views_of(done0) + seq![cur0] =~= views_of(done@));
                assert(with_pending(cur@, pending_cr) + s@.skip(pos as int + 1) =~= s@.skip(
                    pos as int + 1,
                ));
            }
        } else {
            if pending_cr {
                push_char(&mut cur, '\r');
            }
            if c == '\r' {
                pending_cr = true;
            } else {
                push_char(&mut cur, c);
                pending_cr = false;
            }
            proof {
                if pending0 {
                    lemma_push_no_newline(cur0, '\r');
                }
                let mid = with_pending(cur0, pending0);
                if c != '\r' {
                    lemma_push_no_newline(mid, c);
                }
                assert(with_pending(cur@, pending_cr) =~= mid.push(c));
                assert(mid.push(c) + s@.skip(pos as int + 1) =~= mid + s@.skip(pos as int));
            }
        }
        pos = pos + 1;
    }
    proof {
        assert(with_pending(cur@, pending_cr) + s@.skip(pos as int) =~= with_pending(
            cur@,
            pending_cr,
        ));
    }
    if pending_cr {
        proof {
            lemma_push_no_newline(cur@, '\r');
        }
        push_char(&mut cur, '\r');
    }
    if !cur.as_str().is_empty() {
        proof {
            lemma_split_lines_single(cur@);
            lemma_views_of_push(done@, cur);
            assert(views_of(done@) + seq![cur@] =~= views_of(done@).push(cur@));
        }
        done.push(cur);
    }
    done
}

} // verus!
