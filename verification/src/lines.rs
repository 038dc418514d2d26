//! The lines of a text.

use crate::text::texts;
use vstd::prelude::*;
use vstd::slice::slice_to_vec;

verus! {

/// The index of the first line feed of `s`, or the length of `s` where it has
/// none.
pub open spec fn first_newline(s: Seq<char>) -> nat
    decreases s.len(),
{
    if s.len() == 0 || s[0] == '\n' {
        0
    } else {
        1 + first_newline(s.drop_first())
    }
}

/// `n` is the first line feed of `s` when no character before it is a line
/// feed and it is one, or the end of `s`.
pub proof fn lemma_first_newline(s: Seq<char>, n: int)
    requires
        0 <= n <= s.len(),
        forall|k: int| 0 <= k < n ==> #[trigger] s[k] != '\n',
        n < s.len() ==> s[n] == '\n',
    ensures
        first_newline(s) == n,
    decreases n,
{
    if n > 0 {
        let rest = s.drop_first();
        assert forall|k: int| 0 <= k < n - 1 implies #[trigger] rest[k] != '\n' by {
            assert(rest[k] == s[k + 1]);
        }
        lemma_first_newline(rest, n - 1);
    }
}

/// `line` without the carriage return that it ends with, if it ends with one.
pub open spec fn strip_carriage_return(line: Seq<char>) -> Seq<char> {
    if line.len() > 0 && line.last() == '\r' {
        line.drop_last()
    } else {
        line
    }
}

/// The lines of `s`. A line ends at a line feed, or at the end of the text
/// where the last line has no line feed. The line feed is not part of the
/// line, nor is a carriage return directly before it. After the last line
/// feed no empty line follows.
pub open spec fn lines(s: Seq<char>) -> Seq<Seq<char>>
    decreases s.len(),
{
    if s.len() == 0 {
        Seq::empty()
    } else if first_newline(s) >= s.len() {
        seq![s]
    } else {
        seq![strip_carriage_return(s.take(first_newline(s) as int))] + lines(
            s.skip(first_newline(s) as int + 1),
        )
    }
}

/// The lines of `s`, as `str::lines` gives them.
pub fn split_lines(s: &[char]) -> (found: Vec<Vec<char>>)
    ensures
        texts(found@) == lines(s@),
{
    let mut found: Vec<Vec<char>> = Vec::new();
    let mut i: usize = 0;
    assert(s@.skip(0) == s@);
    assert(texts(found@) + lines(s@) == lines(s@));
    while i < s.len()
        invariant
            i <= s.len(),
            lines(s@) == texts(found@) + lines(s@.skip(i as int)),
        decreases s.len() - i,
    {
        let ghost rest = s@.skip(i as int);
        let mut j: usize = i;
        while j < s.len() && s[j] != '\n'
            invariant
                i <= j <= s.len(),
                forall|k: int| i <= k < j ==> #[trigger] s@[k] != '\n',
            decreases s.len() - j,
        {
            j += 1;
        }
        proof {
            let n = j - i;
            assert forall|k: int| 0 <= k < n implies #[trigger] rest[k] != '\n' by {
                assert(rest[k] == s@[k + i]);
            }
            lemma_first_newline(rest, n as int);
        }
        if j == s.len() {
            let line = slice_to_vec(&s[i..j]);
            proof {
                assert(line@ == rest);
                assert(texts(found@.push(line)) == texts(found@) + seq![line@]);
                assert(s@.skip(j as int).len() == 0);
            }
            found.push(line);
            i = j;
        } else {
            let end = if j > i && s[j - 1] == '\r' {
                j - 1
            } else {
                j
            };
            let line = slice_to_vec(&s[i..end]);
            proof {
                let whole = rest.take(j - i);
                assert(whole == s@.subrange(i as int, j as int));
                if j > i {
                    assert(whole.last() == s@[j - 1]);
                }
                assert(line@ == strip_carriage_return(whole));
                assert(rest.skip(j - i + 1) == s@.skip(j + 1));
                assert(texts(found@.push(line)) == texts(found@) + seq![line@]);
            }
            found.push(line);
            i = j + 1;
        }
    }
    assert(texts(found@) + Seq::<Seq<char>>::empty() == texts(found@));
    found
}

/// Whether `l` holds neither a line feed nor a carriage return.
pub open spec fn is_plain_line(l: Seq<char>) -> bool {
    forall|i: int| 0 <= i < l.len() ==> #[trigger] l[i] != '\n' && l[i] != '\r'
}

/// The lines of a text that begins with a plain line and a line feed are
/// that line and the lines of the rest.
pub proof fn lemma_lines_first(l: Seq<char>, rest: Seq<char>)
    requires
        is_plain_line(l),
    ensures
        lines(l + seq!['\n'] + rest) == seq![l] + lines(rest),
{
    let s = l + seq!['\n'] + rest;
    assert forall|k: int| 0 <= k < l.len() implies #[trigger] s[k] != '\n' by {
        assert(s[k] == l[k]);
    }
    assert(s[l.len() as int] == '\n');
    lemma_first_newline(s, l.len() as int);
    assert(s.take(l.len() as int) == l);
    assert(s.skip(l.len() as int + 1) == rest);
    if l.len() > 0 {
        assert(l.last() == l[l.len() - 1]);
    }
}

/// A plain line that is not empty and has no line feed behind it is the one
/// line of its text.
pub proof fn lemma_lines_last(l: Seq<char>)
    requires
        is_plain_line(l),
        l.len() > 0,
    ensures
        lines(l) == seq![l],
{
    lemma_first_newline(l, l.len() as int);
}

} // verus!
