//! Embedding text in a single-quoted shell argument.
//!
//! A script that is handed to `bash -c` stands between single quotes. A single
//! quote inside the script would end that argument, so each one is written as
//! `'"'"'`: the quote is closed, a quote follows between double quotes, and the
//! quote is opened again.

use crate::text::{push_chars, push_str};
use vstd::prelude::*;

verus! {

/// What stands for the character `c` between single quotes.
pub open spec fn escaped_char(c: char) -> Seq<char> {
    if c == '\'' {
        seq!['\'', '"', '\'', '"', '\'']
    } else {
        seq![c]
    }
}

/// `s` with each single quote written as `'"'"'`.
pub open spec fn escape_single_quotes(s: Seq<char>) -> Seq<char>
    decreases s.len(),
{
    if s.len() == 0 {
        Seq::empty()
    } else {
        escape_single_quotes(s.drop_last()) + escaped_char(s.last())
    }
}

/// Escaping works piece by piece.
pub proof fn lemma_escape_concat(a: Seq<char>, b: Seq<char>)
    ensures
        escape_single_quotes(a + b) == escape_single_quotes(a) + escape_single_quotes(b),
    decreases b.len(),
{
    if b.len() == 0 {
        assert(a + b == a);
        assert(escape_single_quotes(a) + escape_single_quotes(b) == escape_single_quotes(a));
    } else {
        assert((a + b).drop_last() == a + b.drop_last());
        assert((a + b).last() == b.last());
        lemma_escape_concat(a, b.drop_last());
        assert((escape_single_quotes(a) + escape_single_quotes(b.drop_last())) + escaped_char(
            b.last(),
        ) == escape_single_quotes(a) + (escape_single_quotes(b.drop_last()) + escaped_char(
            b.last(),
        )));
    }
}

/// Appends `s` to `out`, each single quote written as `'"'"'`.
pub fn push_escaped(out: &mut Vec<char>, s: &[char])
    ensures
        final(out)@ == old(out)@ + escape_single_quotes(s@),
{
    let mut i: usize = 0;
    assert(old(out)@ + escape_single_quotes(s@.take(0)) == old(out)@);
    while i < s.len()
        invariant
            i <= s.len(),
            out@ == old(out)@ + escape_single_quotes(s@.take(i as int)),
        decreases s.len() - i,
    {
        let ghost before = out@;
        let c = s[i];
        if c == '\'' {
            out.push('\'');
            out.push('"');
            out.push('\'');
            out.push('"');
            out.push('\'');
        } else {
            out.push(c);
        }
        proof {
            let head = s@.take(i + 1);
            assert(head.drop_last() == s@.take(i as int));
            assert(head.last() == c);
            assert(out@ == before + escaped_char(c));
            assert(out@ == old(out)@ + escape_single_quotes(head));
        }
        i += 1;
    }
    assert(s@.take(s.len() as int) == s@);
}

/// Where a shell stands while it reads a word.
pub enum QuoteState {
    /// Outside any quotes.
    Bare,
    /// Between single quotes.
    Single,
    /// Between double quotes.
    Double,
}

/// `c` put in front of what was read, where something was read.
pub open spec fn read_after(c: char, rest: Option<Seq<char>>) -> Option<Seq<char>> {
    match rest {
        Some(text) => Some(seq![c] + text),
        None => None,
    }
}

/// The text that a shell reads from the word `w`, entered in the given state,
/// where `w` is made of quoted pieces alone. Between single quotes every
/// character stands for itself up to the next single quote. Between double
/// quotes every character stands for itself up to the next double quote, but
/// for `\`, `$` and the backquote, which this model does not read. Nothing is
/// read from a word that holds a character outside quotes or ends inside
/// them.
pub open spec fn read_quoted(w: Seq<char>, state: QuoteState) -> Option<Seq<char>>
    decreases w.len(),
{
    if w.len() == 0 {
        match state {
            QuoteState::Bare => Some(Seq::empty()),
            _ => None,
        }
    } else {
        let c = w[0];
        let rest = w.drop_first();
        match state {
            QuoteState::Bare => if c == '\'' {
                read_quoted(rest, QuoteState::Single)
            } else if c == '"' {
                read_quoted(rest, QuoteState::Double)
            } else {
                None
            },
            QuoteState::Single => if c == '\'' {
                read_quoted(rest, QuoteState::Bare)
            } else {
                read_after(c, read_quoted(rest, QuoteState::Single))
            },
            QuoteState::Double => if c == '"' {
                read_quoted(rest, QuoteState::Bare)
            } else if c == '\\' || c == '$' || c == '`' {
                None
            } else {
                read_after(c, read_quoted(rest, QuoteState::Double))
            },
        }
    }
}

/// `text` as one single-quoted shell argument.
pub open spec fn single_quoted(text: Seq<char>) -> Seq<char> {
    seq!['\''] + escape_single_quotes(text) + seq!['\'']
}

/// Between single quotes, a shell reads the escaped form of `text` as `text`
/// and goes on behind it as if it had not been there.
pub proof fn lemma_read_escaped(text: Seq<char>, tail: Seq<char>)
    ensures
        read_quoted(escape_single_quotes(text) + tail, QuoteState::Single) == match read_quoted(
            tail,
            QuoteState::Single,
        ) {
            Some(read) => Some(text + read),
            None => None,
        },
    decreases text.len(),
{
    if text.len() == 0 {
        assert(escape_single_quotes(text) + tail == tail);
        match read_quoted(tail, QuoteState::Single) {
            Some(read) => {
                assert(text + read == read);
            },
            None => {},
        }
    } else {
        let c = text[0];
        let rest = text.drop_first();
        assert(text == seq![c] + rest);
        lemma_escape_concat(seq![c], rest);
        assert(escape_single_quotes(seq![c]) == escaped_char(c)) by {
            let one = seq![c];
            assert(one.drop_last() == Seq::<char>::empty());
            assert(one.last() == c);
            assert(escape_single_quotes(one.drop_last()) == Seq::<char>::empty());
            assert(Seq::<char>::empty() + escaped_char(c) == escaped_char(c));
        }
        let follows = escape_single_quotes(rest) + tail;
        assert(escape_single_quotes(text) + tail == escaped_char(c) + follows);
        lemma_read_escaped(rest, tail);
        if c == '\'' {
            let w0 = escaped_char(c) + follows;
            let w1 = w0.drop_first();
            let w2 = w1.drop_first();
            let w3 = w2.drop_first();
            let w4 = w3.drop_first();
            assert(w0[0] == '\'');
            assert(w1[0] == '"');
            assert(w2[0] == '\'');
            assert(w3[0] == '"');
            assert(w4[0] == '\'');
            assert(w4.drop_first() == follows);
            assert(read_quoted(w4, QuoteState::Bare) == read_quoted(follows, QuoteState::Single));
            assert(read_quoted(w3, QuoteState::Double) == read_quoted(w4, QuoteState::Bare));
            assert(read_quoted(w2, QuoteState::Double) == read_after(
                '\'',
                read_quoted(w3, QuoteState::Double),
            ));
            assert(read_quoted(w1, QuoteState::Bare) == read_quoted(w2, QuoteState::Double));
            assert(read_quoted(w0, QuoteState::Single) == read_quoted(w1, QuoteState::Bare));
        } else {
            let w0 = escaped_char(c) + follows;
            assert(w0[0] == c);
            assert(w0.drop_first() == follows);
        }
        match read_quoted(tail, QuoteState::Single) {
            Some(read) => {
                assert(seq![c] + (rest + read) == text + read);
            },
            None => {},
        }
    }
}

/// Quoting is safe: a shell reads the single-quoted form of any text as that
/// text, whatever single quotes the text holds.
pub proof fn lemma_single_quoted_round_trip(text: Seq<char>)
    ensures
        read_quoted(single_quoted(text), QuoteState::Bare) == Some(text),
{
    let close = seq!['\''];
    let inner = escape_single_quotes(text) + close;
    let word = single_quoted(text);
    assert(word == seq!['\''] + inner);
    assert(word[0] == '\'');
    assert(word.drop_first() == inner);
    lemma_read_escaped(text, close);
    assert(close.drop_first() == Seq::<char>::empty());
    assert(read_quoted(close.drop_first(), QuoteState::Bare) == Some(Seq::<char>::empty()));
    assert(read_quoted(close, QuoteState::Single) == Some(Seq::<char>::empty()));
    assert(text + Seq::<char>::empty() == text);
}

/// The command line that runs `script` in `bash`: the words `bash -c` and
/// the script as one single-quoted argument.
pub open spec fn shell_invocation(script: Seq<char>) -> Seq<char> {
    "bash -c "@ + single_quoted(script)
}

/// The command line that runs a script in `bash`, made from the script in
/// its escaped form.
pub fn wrap_for_shell(escaped_script: &[char]) -> (line: Vec<char>)
    ensures
        line@ == "bash -c "@ + seq!['\''] + escaped_script@ + seq!['\''],
{
    let mut line: Vec<char> = Vec::new();
    push_str(&mut line, "bash -c ");
    line.push('\'');
    push_chars(&mut line, escaped_script);
    line.push('\'');
    assert(line@ == "bash -c "@ + seq!['\''] + escaped_script@ + seq!['\'']);
    line
}

/// The command line that runs `script` in `bash`.
pub fn invoke_shell(script: &[char]) -> (line: Vec<char>)
    ensures
        line@ == shell_invocation(script@),
{
    let mut line: Vec<char> = Vec::new();
    push_str(&mut line, "bash -c ");
    line.push('\'');
    push_escaped(&mut line, script);
    line.push('\'');
    assert(line@ == "bash -c "@ + single_quoted(script@));
    line
}

} // verus!
