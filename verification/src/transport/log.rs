//! Log text out of a byte stream.

use vstd::prelude::*;

use crate::text::text_from;

verus! {

/// The place of the first newline from `i` on; the length where there is none.
pub open spec fn newline_from(t: Seq<char>, i: int) -> int
    decreases t.len() - i,
{
    if i >= t.len() || t[i] == '\n' {
        i
    } else {
        newline_from(t, i + 1)
    }
}

/// A line without the carriage returns at its end.
pub open spec fn trimmed(line: Seq<char>) -> Seq<char>
    decreases line.len(),
{
    if line.len() > 0 && (line.last() == '\r' || line.last() == '\n') {
        trimmed(line.drop_last())
    } else {
        line
    }
}

/// The complete lines of a text that are not empty, in order.
pub open spec fn lines_of(t: Seq<char>) -> Seq<Seq<char>>
    decreases t.len(),
{
    let n = newline_from(t, 0);
    if n < 0 || n >= t.len() {
        Seq::empty()
    } else {
        let rest = lines_of(t.skip(n + 1));
        if trimmed(t.take(n)).len() == 0 {
            rest
        } else {
            seq![trimmed(t.take(n))] + rest
        }
    }
}

/// What follows the last newline.
pub open spec fn partial_of(t: Seq<char>) -> Seq<char>
    decreases t.len(),
{
    let n = newline_from(t, 0);
    if n < 0 || n >= t.len() {
        t
    } else {
        partial_of(t.skip(n + 1))
    }
}

/// What a list of texts says.
pub open spec fn views(v: Seq<String>) -> Seq<Seq<char>> {
    Seq::new(v.len(), |i: int| v[i]@)
}

pub proof fn lemma_newline_from(t: Seq<char>, i: int)
    requires
        0 <= i <= t.len(),
    ensures
        i <= newline_from(t, i) <= t.len(),
        newline_from(t, i) < t.len() ==> t[newline_from(t, i)] == '\n',
        forall|k: int| i <= k < newline_from(t, i) ==> t[k] != '\n',
    decreases t.len() - i,
{
    if i < t.len() && t[i] != '\n' {
        lemma_newline_from(t, i + 1);
    }
}

/// The place of a newline with none before it is the first one's.
proof fn lemma_newline_is(t: Seq<char>, i: int, n: int)
    requires
        0 <= i <= n <= t.len(),
        n < t.len() ==> t[n] == '\n',
        forall|k: int| i <= k < n ==> t[k] != '\n',
    ensures
        newline_from(t, i) == n,
    decreases n - i,
{
    if i < n {
        lemma_newline_is(t, i + 1, n);
    }
}

/// However a text is cut in two, its lines come out the same: those of the
/// first part, then those of what it left over together with the second. A
/// line that straddles the cut comes out once, whole.
pub proof fn law_lines_do_not_depend_on_the_cut(a: Seq<char>, b: Seq<char>)
    ensures
        lines_of(a + b) == lines_of(a) + lines_of(partial_of(a) + b),
        partial_of(a + b) == partial_of(partial_of(a) + b),
    decreases a.len(),
{
    lemma_newline_from(a, 0);
    let n = newline_from(a, 0);
    if n < a.len() {
        lemma_newline_is(a + b, 0, n);
        assert((a + b).take(n) =~= a.take(n));
        assert((a + b).skip(n + 1) =~= a.skip(n + 1) + b);
        law_lines_do_not_depend_on_the_cut(a.skip(n + 1), b);
        assert(lines_of(a + b) =~= lines_of(a) + lines_of(partial_of(a) + b));
    } else {
        assert(lines_of(a + b) =~= lines_of(a) + lines_of(partial_of(a) + b));
    }
}

/// What is left over holds no newline.
pub proof fn lemma_partial_has_no_newline(t: Seq<char>)
    ensures
        newline_from(partial_of(t), 0) == partial_of(t).len(),
    decreases t.len(),
{
    lemma_newline_from(t, 0);
    let n = newline_from(t, 0);
    if n < t.len() {
        lemma_partial_has_no_newline(t.skip(n + 1));
    }
}

/// Hand out the complete lines of a text, and give back what follows them.
pub fn split_lines(text: Vec<char>, on_log: &mut Vec<String>) -> (rest: String)
    ensures
        views(final(on_log)@) == views(old(on_log)@) + lines_of(text@),
        rest@ == partial_of(text@),
{
    let ghost before = views(on_log@);
    let mut start: usize = 0;
    let mut i: usize = 0;
    assert(text@.skip(0) =~= text@);
    assert(views(on_log@) + lines_of(text@) =~= before + lines_of(text@.skip(0)));
    while i < text.len()
        invariant
            start <= i <= text@.len(),
            forall|k: int| start <= k < i ==> text@[k] != '\n',
            views(on_log@) + lines_of(text@.skip(start as int)) == before + lines_of(text@),
            partial_of(text@.skip(start as int)) == partial_of(text@),
        decreases text.len() - i,
    {
        if text[i] == '\n' {
            let ghost tail = text@.skip(start as int);
            let ghost n = i - start;
            proof {
                lemma_newline_is(tail, 0, n);
                assert(tail.skip(n + 1) =~= text@.skip(i + 1));
            }
            let mut end: usize = i;
            assert(text@.subrange(start as int, end as int) =~= tail.take(n));
            while end > start && text[end - 1] == '\r'
                invariant
                    start <= end <= i < text@.len(),
                    forall|k: int| start <= k < i ==> text@[k] != '\n',
                    trimmed(text@.subrange(start as int, end as int)) == trimmed(tail.take(n)),
                decreases end - start,
            {
                assert(text@.subrange(start as int, end as int).drop_last() =~= text@.subrange(
                    start as int,
                    end - 1,
                ));
                end = end - 1;
            }
            let ghost line = text@.subrange(start as int, end as int);
            assert(trimmed(line) == line) by {
                if line.len() > 0 {
                    assert(line.last() == text@[end - 1]);
                }
            }
            if end > start {
                let part: &[char] = vstd::slice::slice_subrange(text.as_slice(), start, end);
                let ghost held = views(on_log@);
                on_log.push(text_from(part));
                proof {
                    assert(views(on_log@) =~= held.push(line));
                    assert(held + (seq![line] + lines_of(text@.skip(i + 1))) =~= views(on_log@)
                        + lines_of(text@.skip(i + 1)));
                }
            }
            start = i + 1;
        }
        i = i + 1;
    }
    proof {
        let tail = text@.skip(start as int);
        lemma_newline_is(tail, 0, tail.len() as int);
        assert(views(on_log@) + lines_of(tail) =~= views(on_log@));
        assert(text@.subrange(start as int, text@.len() as int) =~= tail);
    }
    text_from(vstd::slice::slice_subrange(text.as_slice(), start, text.len()))
}

/// A line ends at its newline and goes out without it and without the carriage
/// returns before it, unless nothing is left of it; what follows is read as if
/// it were not there. Text without a newline is kept.
pub proof fn law_a_line_ends_at_its_newline(line: Seq<char>, crs: nat, rest: Seq<char>)
    requires
        forall|i: int| 0 <= i < line.len() ==> #[trigger] line[i] != '\n',
        line.len() > 0 ==> line.last() != '\r',
    ensures
        ({
            let text = line + Seq::new(crs, |i: int| '\r') + seq!['\n'] + rest;
            &&& line.len() > 0 ==> lines_of(text) == seq![line] + lines_of(rest)
            &&& line.len() == 0 ==> lines_of(text) == lines_of(rest)
            &&& partial_of(text) == partial_of(rest)
        }),
        lines_of(line) == Seq::<Seq<char>>::empty(),
        partial_of(line) == line,
{
    let whole = line + Seq::new(crs, |i: int| '\r');
    let text = whole + seq!['\n'] + rest;
    lemma_newline_is(text, 0, whole.len() as int);
    lemma_newline_is(line, 0, line.len() as int);
    assert(text.take(whole.len() as int) =~= whole);
    assert(text.skip(whole.len() as int + 1) =~= rest);
    lemma_trimmed_returns(line, crs);
}

proof fn lemma_trimmed_returns(line: Seq<char>, crs: nat)
    requires
        line.len() > 0 ==> line.last() != '\r' && line.last() != '\n',
    ensures
        trimmed(line + Seq::new(crs, |i: int| '\r')) == line,
    decreases crs,
{
    let whole = line + Seq::new(crs, |i: int| '\r');
    if crs > 0 {
        let less = (crs - 1) as nat;
        assert(whole.drop_last() =~= line + Seq::new(less, |i: int| '\r'));
        lemma_trimmed_returns(line, less);
    } else {
        assert(whole =~= line);
    }
}

} // verus!
