//! White space: trimming a text and splitting it into words.

use crate::text::texts;
use vstd::prelude::*;
use vstd::slice::slice_to_vec;

verus! {

/// Whether `c` is white space: the characters that Unicode gives the property
/// `White_Space`.
pub open spec fn is_whitespace(c: char) -> bool {
    ||| ('\u{9}' <= c && c <= '\u{D}')
    ||| c == ' '
    ||| c == '\u{85}'
    ||| c == '\u{A0}'
    ||| c == '\u{1680}'
    ||| ('\u{2000}' <= c && c <= '\u{200A}')
    ||| c == '\u{2028}'
    ||| c == '\u{2029}'
    ||| c == '\u{202F}'
    ||| c == '\u{205F}'
    ||| c == '\u{3000}'
}

/// Whether `c` is white space.
pub fn char_is_whitespace(c: char) -> (b: bool)
    ensures
        b == is_whitespace(c),
{
    ('\u{9}' <= c && c <= '\u{D}') || c == ' ' || c == '\u{85}' || c == '\u{A0}' || c
        == '\u{1680}' || ('\u{2000}' <= c && c <= '\u{200A}') || c == '\u{2028}' || c
        == '\u{2029}' || c == '\u{202F}' || c == '\u{205F}' || c == '\u{3000}'
}

/// How many characters of white space `s` begins with.
pub open spec fn leading_whitespace(s: Seq<char>) -> nat
    decreases s.len(),
{
    if s.len() > 0 && is_whitespace(s[0]) {
        1 + leading_whitespace(s.drop_first())
    } else {
        0
    }
}

/// How many characters of white space `s` ends with.
pub open spec fn trailing_whitespace(s: Seq<char>) -> nat
    decreases s.len(),
{
    if s.len() > 0 && is_whitespace(s.last()) {
        1 + trailing_whitespace(s.drop_last())
    } else {
        0
    }
}

/// `s` without the white space it begins with.
pub open spec fn trim_start(s: Seq<char>) -> Seq<char> {
    s.skip(leading_whitespace(s) as int)
}

/// `s` without the white space it ends with.
pub open spec fn trim_end(s: Seq<char>) -> Seq<char> {
    s.take(s.len() - trailing_whitespace(s))
}

/// `s` without the white space at either end.
pub open spec fn trim(s: Seq<char>) -> Seq<char> {
    trim_end(trim_start(s))
}

/// `n` is the number of leading white space characters of `s` when the first
/// `n` characters are white space and the next one, if any, is not.
pub proof fn lemma_leading_whitespace(s: Seq<char>, n: int)
    requires
        0 <= n <= s.len(),
        forall|k: int| 0 <= k < n ==> is_whitespace(#[trigger] s[k]),
        n < s.len() ==> !is_whitespace(s[n]),
    ensures
        leading_whitespace(s) == n,
    decreases n,
{
    if n > 0 {
        let rest = s.drop_first();
        assert forall|k: int| 0 <= k < n - 1 implies is_whitespace(#[trigger] rest[k]) by {
            assert(rest[k] == s[k + 1]);
        }
        lemma_leading_whitespace(rest, n - 1);
    }
}

/// `n` is the number of trailing white space characters of `s` when the last
/// `n` characters are white space and the one before them, if any, is not.
pub proof fn lemma_trailing_whitespace(s: Seq<char>, n: int)
    requires
        0 <= n <= s.len(),
        forall|k: int| s.len() - n <= k < s.len() ==> is_whitespace(#[trigger] s[k]),
        n < s.len() ==> !is_whitespace(s[s.len() - n - 1]),
    ensures
        trailing_whitespace(s) == n,
    decreases n,
{
    if n > 0 {
        let init = s.drop_last();
        assert forall|k: int| init.len() - (n - 1) <= k < init.len() implies is_whitespace(
            #[trigger] init[k],
        ) by {
            assert(init[k] == s[k]);
        }
        lemma_trailing_whitespace(init, n - 1);
    }
}

/// The bounds of `s` without the white space at either end.
pub fn trim_bounds(s: &[char]) -> (bounds: (usize, usize))
    ensures
        bounds.0 <= bounds.1 <= s@.len(),
        bounds.0 == leading_whitespace(s@),
        s@.subrange(bounds.0 as int, bounds.1 as int) == trim(s@),
{
    let mut start: usize = 0;
    while start < s.len() && char_is_whitespace(s[start])
        invariant
            start <= s.len(),
            forall|k: int| 0 <= k < start ==> is_whitespace(#[trigger] s@[k]),
        decreases s.len() - start,
    {
        start += 1;
    }
    let mut end: usize = s.len();
    while end > start && char_is_whitespace(s[end - 1])
        invariant
            start <= end <= s.len(),
            forall|k: int| end <= k < s.len() ==> is_whitespace(#[trigger] s@[k]),
        decreases end,
    {
        end -= 1;
    }
    proof {
        lemma_leading_whitespace(s@, start as int);
        let rest = trim_start(s@);
        assert(rest == s@.skip(start as int));
        let n = s.len() - end;
        assert forall|k: int| rest.len() - n <= k < rest.len() implies is_whitespace(
            #[trigger] rest[k],
        ) by {
            assert(rest[k] == s@[k + start]);
        }
        if n < rest.len() {
            assert(rest[rest.len() - n - 1] == s@[end - 1]);
        }
        lemma_trailing_whitespace(rest, n as int);
        assert(rest.take(rest.len() - n) == s@.subrange(start as int, end as int));
    }
    (start, end)
}

/// How many characters `s` begins with that are not white space.
pub open spec fn word_len(s: Seq<char>) -> nat
    decreases s.len(),
{
    if s.len() > 0 && !is_whitespace(s[0]) {
        1 + word_len(s.drop_first())
    } else {
        0
    }
}

/// The words of `s`: its longest runs of characters that are not white space,
/// in the order in which they occur.
pub open spec fn tokens(s: Seq<char>) -> Seq<Seq<char>>
    decreases s.len(),
    via tokens_decreases
{
    if s.len() == 0 {
        Seq::empty()
    } else if is_whitespace(s[0]) {
        tokens(s.drop_first())
    } else {
        seq![s.take(word_len(s) as int)] + tokens(s.skip(word_len(s) as int))
    }
}

#[via_fn]
proof fn tokens_decreases(s: Seq<char>) {
    if s.len() > 0 && !is_whitespace(s[0]) {
        lemma_word_len_bound(s);
    }
}

/// A word is no longer than the text it begins.
pub proof fn lemma_word_len_bound(s: Seq<char>)
    ensures
        word_len(s) <= s.len(),
    decreases s.len(),
{
    if s.len() > 0 {
        lemma_word_len_bound(s.drop_first());
    }
}

/// `n` is the length of the word that `s` begins with when the first `n`
/// characters are not white space and the next one, if any, is.
pub proof fn lemma_word_len(s: Seq<char>, n: int)
    requires
        0 <= n <= s.len(),
        forall|k: int| 0 <= k < n ==> !is_whitespace(#[trigger] s[k]),
        n < s.len() ==> is_whitespace(s[n]),
    ensures
        word_len(s) == n,
    decreases n,
{
    if n > 0 {
        let rest = s.drop_first();
        assert forall|k: int| 0 <= k < n - 1 implies !is_whitespace(#[trigger] rest[k]) by {
            assert(rest[k] == s[k + 1]);
        }
        lemma_word_len(rest, n - 1);
    }
}

/// The words of `s`, as `str::split_whitespace` gives them.
pub fn split_whitespace(s: &[char]) -> (words: Vec<Vec<char>>)
    ensures
        texts(words@) == tokens(s@),
{
    let mut words: Vec<Vec<char>> = Vec::new();
    let mut i: usize = 0;
    assert(s@.skip(0) == s@);
    assert(texts(words@) + tokens(s@) == tokens(s@));
    while i < s.len()
        invariant
            i <= s.len(),
            tokens(s@) == texts(words@) + tokens(s@.skip(i as int)),
        decreases s.len() - i,
    {
        let ghost rest = s@.skip(i as int);
        if char_is_whitespace(s[i]) {
            assert(rest.drop_first() == s@.skip(i + 1));
            i += 1;
        } else {
            let start = i;
            let mut j: usize = i + 1;
            while j < s.len() && !char_is_whitespace(s[j])
                invariant
                    start < j <= s.len(),
                    forall|k: int| start <= k < j ==> !is_whitespace(#[trigger] s@[k]),
                decreases s.len() - j,
            {
                j += 1;
            }
            let word = slice_to_vec(&s[start..j]);
            proof {
                let n = j - start;
                assert forall|k: int| 0 <= k < n implies !is_whitespace(#[trigger] rest[k]) by {
                    assert(rest[k] == s@[k + start]);
                }
                lemma_word_len(rest, n as int);
                assert(rest.take(n as int) == word@);
                assert(rest.skip(n as int) == s@.skip(j as int));
                assert(texts(words@.push(word)) == texts(words@) + seq![word@]);
            }
            words.push(word);
            i = j;
        }
    }
    assert(texts(words@) + Seq::<Seq<char>>::empty() == texts(words@));
    words
}

/// Whether `w` is a word: not empty and free of white space.
pub open spec fn is_word(w: Seq<char>) -> bool {
    w.len() > 0 && forall|i: int| 0 <= i < w.len() ==> !is_whitespace(#[trigger] w[i])
}

/// Text that neither begins nor ends with white space is its own trimmed
/// form.
pub proof fn lemma_trim_bounded(s: Seq<char>)
    requires
        s.len() > 0 ==> !is_whitespace(s[0]) && !is_whitespace(s.last()),
    ensures
        trim(s) == s,
{
    assert(s.skip(0) == s);
    assert(s.take(s.len() as int) == s);
}

/// White space at the end of a text is trimmed away: what is left of
/// `s + tail` is what is left of `s`, where `tail` is white space throughout.
pub proof fn lemma_trim_trailing(s: Seq<char>, tail: Seq<char>)
    requires
        s.len() > 0,
        !is_whitespace(s[0]),
        !is_whitespace(s.last()),
        forall|i: int| 0 <= i < tail.len() ==> is_whitespace(#[trigger] tail[i]),
    ensures
        trim(s + tail) == s,
{
    let whole = s + tail;
    assert(whole[0] == s[0]);
    assert(whole.skip(0) == whole);
    assert forall|k: int| whole.len() - tail.len() <= k < whole.len() implies is_whitespace(
        #[trigger] whole[k],
    ) by {
        assert(whole[k] == tail[k - s.len()]);
    }
    assert(whole[whole.len() - tail.len() - 1] == s.last());
    lemma_trailing_whitespace(whole, tail.len() as int);
    assert(whole.take(whole.len() - tail.len()) == s);
}

/// The white space that a text begins with ends before a character that is
/// none, or at the end of the text.
pub proof fn lemma_leading_whitespace_stops(s: Seq<char>)
    ensures
        leading_whitespace(s) <= s.len(),
        leading_whitespace(s) < s.len() ==> !is_whitespace(s[leading_whitespace(s) as int]),
    decreases s.len(),
{
    if s.len() > 0 && is_whitespace(s[0]) {
        let rest = s.drop_first();
        lemma_leading_whitespace_stops(rest);
        let k = leading_whitespace(rest) as int;
        if k < rest.len() {
            assert(rest[k] == s[k + 1]);
        }
    }
}

/// The white space that a text ends with begins behind a character that is
/// none, or at the beginning of the text.
pub proof fn lemma_trailing_whitespace_stops(s: Seq<char>)
    ensures
        trailing_whitespace(s) <= s.len(),
        trailing_whitespace(s) < s.len() ==> !is_whitespace(
            s[s.len() - trailing_whitespace(s) - 1],
        ),
    decreases s.len(),
{
    if s.len() > 0 && is_whitespace(s.last()) {
        let init = s.drop_last();
        lemma_trailing_whitespace_stops(init);
        let k = trailing_whitespace(init) as int;
        if k < init.len() {
            assert(init[init.len() - k - 1] == s[s.len() - (k + 1) - 1]);
        }
    }
}

/// A trimmed text neither begins nor ends with white space.
pub proof fn lemma_trim_is_bounded(s: Seq<char>)
    ensures
        trim(s).len() <= s.len(),
        trim(s).len() > 0 ==> !is_whitespace(trim(s)[0]) && !is_whitespace(trim(s).last()),
{
    lemma_leading_whitespace_stops(s);
    let rest = trim_start(s);
    lemma_trailing_whitespace_stops(rest);
    let kept = trim(s);
    if kept.len() > 0 {
        assert(kept[0] == rest[0]);
        assert(rest[0] == s[leading_whitespace(s) as int]);
        assert(kept.last() == rest[rest.len() - trailing_whitespace(rest) - 1]);
    }
}

/// The word that a text begins with is free of white space.
pub proof fn lemma_word_len_is_word(s: Seq<char>)
    ensures
        word_len(s) <= s.len(),
        forall|k: int| 0 <= k < word_len(s) ==> !is_whitespace(#[trigger] s[k]),
    decreases s.len(),
{
    if s.len() > 0 && !is_whitespace(s[0]) {
        let rest = s.drop_first();
        lemma_word_len_is_word(rest);
        assert forall|k: int| 0 <= k < word_len(s) implies !is_whitespace(#[trigger] s[k]) by {
            if k > 0 {
                assert(s[k] == rest[k - 1]);
            }
        }
    }
}

/// Every word of a text is a word: not empty, and free of white space.
pub proof fn lemma_tokens_are_words(s: Seq<char>)
    ensures
        forall|i: int| 0 <= i < tokens(s).len() ==> is_word(#[trigger] tokens(s)[i]),
    decreases s.len(),
{
    if s.len() == 0 {
        assert(tokens(s).len() == 0);
    } else if is_whitespace(s[0]) {
        lemma_tokens_are_words(s.drop_first());
        assert(tokens(s) == tokens(s.drop_first()));
    } else {
        lemma_word_len_is_word(s);
        let n = word_len(s) as int;
        let first = s.take(n);
        let rest = s.skip(n);
        lemma_tokens_are_words(rest);
        assert(n >= 1);
        assert(tokens(s) == seq![first] + tokens(rest));
        assert(is_word(first)) by {
            assert forall|k: int| 0 <= k < first.len() implies !is_whitespace(
                #[trigger] first[k],
            ) by {
                assert(first[k] == s[k]);
            }
        }
        assert forall|i: int| 0 <= i < tokens(s).len() implies is_word(#[trigger] tokens(s)[i]) by {
            if i > 0 {
                assert(tokens(s)[i] == tokens(rest)[i - 1]);
            } else {
                assert(tokens(s)[0] == first);
            }
        }
    }
}

} // verus!
