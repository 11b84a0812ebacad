//! Splitting a template's contents into lines and joining them back.
//!
//! A buffer is a sequence of lines.  Loading a template splits its text
//! on `\n` boundaries the way the editor displays it: a trailing `\r`
//! on a line is dropped, and a final newline does not open an empty
//! last line.  Joining re-inserts a single `\n` between lines.

use vstd::prelude::*;

verus! {

/// Relies on `String::push` from std: appends the given char to the
/// end of the string.
pub assume_specification[ String::push ](s: &mut String, ch: char)
    ensures
        final(s)@ == old(s)@.push(ch),
;

/// Relies on `String::pop` from std: removes and returns the last
/// char, or returns `None` when the string is empty.
pub assume_specification[ String::pop ](s: &mut String) -> (r: Option<char>)
    ensures
        old(s)@.len() == 0 ==> r is None && final(s)@ == old(s)@,
        old(s)@.len() > 0 ==> r == Some(old(s)@.last()) && final(s)@ == old(s)@.drop_last(),
;

/// The lines of a buffer, each as its character sequence.
pub open spec fn lines_view(v: Seq<String>) -> Seq<Seq<char>> {
    v.map_values(|s: String| s@)
}

/// A line segment with a trailing carriage return removed.
pub open spec fn strip_cr(t: Seq<char>) -> Seq<char> {
    if t.len() > 0 && t.last() == '\r' {
        t.drop_last()
    } else {
        t
    }
}

/// Index of the first `\n` at or after `i`; `s.len()` if there is none.
pub open spec fn line_break_from(s: Seq<char>, i: int) -> int
    recommends
        0 <= i <= s.len(),
    decreases s.len() - i when 0 <= i <= s.len()
{
    if i >= s.len() {
        s.len() as int
    } else if s[i] == '\n' {
        i
    } else {
        line_break_from(s, i + 1)
    }
}

/// The text split at `\n` boundaries: each segment loses a trailing
/// `\r`, and a final newline does not produce an empty last line.
pub open spec fn spec_split_lines(s: Seq<char>) -> Seq<Seq<char>>
    decreases s.len(),
{
    if s.len() == 0 {
        Seq::empty()
    } else {
        let j = line_break_from(s, 0);
        if 0 <= j < s.len() {
            seq![strip_cr(s.subrange(0, j))] + spec_split_lines(
                s.subrange(j + 1, s.len() as int),
            )
        } else {
            seq![strip_cr(s)]
        }
    }
}

/// The lines joined with a single `\n` between them, no trailing one.
pub open spec fn spec_join_lines(lines: Seq<Seq<char>>) -> Seq<char>
    decreases lines.len(),
{
    if lines.len() == 0 {
        Seq::empty()
    } else if lines.len() == 1 {
        lines[0]
    } else {
        lines[0] + seq!['\n'] + spec_join_lines(lines.drop_first())
    }
}

/// `line_break_from` lands exactly on the first newline.
pub proof fn lemma_line_break_from_is(s: Seq<char>, i: int, j: int)
    requires
        0 <= i <= j <= s.len(),
        forall|k: int| i <= k < j ==> s[k] != '\n',
        j < s.len() ==> s[j] == '\n',
    ensures
        line_break_from(s, i) == j,
    decreases j - i,
{
    if i < j {
        lemma_line_break_from_is(s, i + 1, j);
    }
}

/// Splitting peels off a newline-free first segment.
pub proof fn lemma_split_lines_step(t: Seq<char>, rest: Seq<char>)
    requires
        forall|k: int| 0 <= k < t.len() ==> t[k] != '\n',
    ensures
        spec_split_lines(t + seq!['\n'] + rest) == seq![strip_cr(t)] + spec_split_lines(rest),
{
    let u = t + seq!['\n'] + rest;
    assert forall|k: int| 0 <= k < t.len() implies u[k] != '\n' by {
        assert(u[k] == t[k]);
    }
    lemma_line_break_from_is(u, 0, t.len() as int);
    assert(u.subrange(0, t.len() as int) =~= t);
    assert(u.subrange(t.len() as int + 1, u.len() as int) =~= rest);
}

/// A newline-free text is at most one line.
pub proof fn lemma_split_lines_whole(t: Seq<char>)
    requires
        forall|k: int| 0 <= k < t.len() ==> t[k] != '\n',
    ensures
        spec_split_lines(t) == if t.len() == 0 {
            Seq::<Seq<char>>::empty()
        } else {
            seq![strip_cr(t)]
        },
{
    lemma_line_break_from_is(t, 0, t.len() as int);
}

/// Joining one more line appends a separator and the line.
pub proof fn lemma_join_lines_push(lines: Seq<Seq<char>>, x: Seq<char>)
    ensures
        spec_join_lines(lines.push(x)) == if lines.len() == 0 {
            x
        } else {
            spec_join_lines(lines) + seq!['\n'] + x
        },
    decreases lines.len(),
{
    if lines.len() == 0 {
        assert(lines.push(x)[0] == x);
    } else {
        assert(lines.push(x).drop_first() =~= lines.drop_first().push(x));
        lemma_join_lines_push(lines.drop_first(), x);
        if lines.len() == 1 {
            assert(lines.push(x)[0] == lines[0]);
            assert(lines.drop_first().push(x) =~= seq![x]);
            assert(spec_join_lines(seq![x]) == x);
        }
    }
}

/// A line with its trailing carriage return, if any, removed.
fn finish_line(seg: String) -> (r: String)
    ensures
        r@ == strip_cr(seg@),
{
    let n = seg.as_str().unicode_len();
    if n > 0 && seg.as_str().get_char(n - 1) == '\r' {
        let mut t = seg;
        t.pop();
        t
    } else {
        seg
    }
}

/// The contents of a template split into buffer lines.
pub fn split_lines(content: &str) -> (r: Vec<String>)
    ensures
        lines_view(r@) == spec_split_lines(content@),
{
    let n = content.unicode_len();
    let mut out: Vec<String> = Vec::new();
    let mut cur: String = String::new();
    let mut i: usize = 0;
    proof {
        assert(cur@ + content@.subrange(0, n as int) =~= content@);
        assert(lines_view(out@) + spec_split_lines(content@) =~= spec_split_lines(content@));
    }
    while i < n
        invariant
            i <= n,
            n == content@.len(),
            forall|k: int| 0 <= k < cur@.len() ==> cur@[k] != '\n',
            spec_split_lines(content@) == lines_view(out@) + spec_split_lines(
                cur@ + content@.subrange(i as int, n as int),
            ),
        decreases n - i,
    {
        let c = content.get_char(i);
        if c == '\n' {
            let ghost pre_out = out@;
            let ghost pre_cur = cur@;
            let finished = finish_line(cur);
            out.push(finished);
            cur = String::new();
            proof {
                assert(pre_cur + content@.subrange(i as int, n as int) =~= pre_cur + seq!['\n']
                    + content@.subrange(i as int + 1, n as int));
                lemma_split_lines_step(pre_cur, content@.subrange(i as int + 1, n as int));
                assert(lines_view(out@) =~= lines_view(pre_out) + seq![strip_cr(pre_cur)]);
                assert(cur@ + content@.subrange(i as int + 1, n as int) =~= content@.subrange(
                    i as int + 1,
                    n as int,
                ));
            }
        } else {
            let ghost pre_cur = cur@;
            cur.push(c);
            proof {
                assert(pre_cur + content@.subrange(i as int, n as int) =~= cur@
                    + content@.subrange(i as int + 1, n as int));
            }
        }
        i = i + 1;
    }
    proof {
        assert(cur@ + content@.subrange(n as int, n as int) =~= cur@);
    }
    if cur.as_str().unicode_len() > 0 {
        let ghost pre_out = out@;
        let ghost pre_cur = cur@;
        let finished = finish_line(cur);
        out.push(finished);
        proof {
            lemma_split_lines_whole(pre_cur);
            assert(lines_view(out@) =~= lines_view(pre_out) + seq![strip_cr(pre_cur)]);
        }
    } else {
        proof {
            assert(lines_view(out@) + spec_split_lines(cur@) =~= lines_view(out@));
        }
    }
    out
}

/// The buffer's lines joined with `\n` separators, as shown on screen.
pub fn join_lines(lines: &Vec<String>) -> (r: String)
    ensures
        r@ == spec_join_lines(lines_view(lines@)),
{
    let mut out = String::new();
    let mut i: usize = 0;
    while i < lines.len()
        invariant
            i <= lines.len(),
            out@ == spec_join_lines(lines_view(lines@).subrange(0, i as int)),
        decreases lines.len() - i,
    {
        if i > 0 {
            out.push('\n');
        }
        out.append(lines[i].as_str());
        proof {
            let lv = lines_view(lines@);
            assert(lv.subrange(0, i as int + 1) =~= lv.subrange(0, i as int).push(lv[i as int]));
            lemma_join_lines_push(lv.subrange(0, i as int), lv[i as int]);
        }
        i = i + 1;
    }
    proof {
        assert(lines_view(lines@).subrange(0, lines@.len() as int) =~= lines_view(lines@));
    }
    out
}

} // verus!
