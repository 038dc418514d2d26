//! Text as sequences of characters.
//!
//! Every rule of this crate is stated over `Seq<char>`, the view that `str` and
//! `String` share. The executable functions work on slices of `char`, so that
//! each index is a character position, and are proved against specification
//! functions.

use vstd::prelude::*;

verus! {

/// The views of a list of character vectors, in order.
pub open spec fn texts(v: Seq<Vec<char>>) -> Seq<Seq<char>> {
    v.map_values(|t: Vec<char>| t@)
}

/// The views of a list of strings, in order.
pub open spec fn string_views(v: Seq<String>) -> Seq<Seq<char>> {
    v.map_values(|t: String| t@)
}

/// The characters of a string slice, one element per character.
pub fn chars_of(s: &str) -> (v: Vec<char>)
    ensures
        v@ == s@,
{
    let mut v: Vec<char> = Vec::new();
    for c in it: s.chars()
        invariant
            v@ == it.seq().take(it.index() as int),
    {
        v.push(c);
    }
    v
}

/// The string made of the given characters.
pub fn string_of(v: &[char]) -> (s: String)
    ensures
        s@ == v@,
{
    let mut s = String::new();
    let mut i: usize = 0;
    while i < v.len()
        invariant
            i <= v.len(),
            s@ == v@.take(i as int),
        decreases v.len() - i,
    {
        s.push(v[i]);
        i += 1;
    }
    s
}

/// Appends the characters of `extra` to `out`.
pub fn push_chars(out: &mut Vec<char>, extra: &[char])
    ensures
        final(out)@ == old(out)@ + extra@,
{
    let mut i: usize = 0;
    while i < extra.len()
        invariant
            i <= extra.len(),
            out@ == old(out)@ + extra@.take(i as int),
        decreases extra.len() - i,
    {
        out.push(extra[i]);
        i += 1;
    }
}

/// Appends the characters of the string slice `extra` to `out`.
pub fn push_str(out: &mut Vec<char>, extra: &str)
    ensures
        final(out)@ == old(out)@ + extra@,
{
    for c in it: extra.chars()
        invariant
            out@ == old(out)@ + it.seq().take(it.index() as int),
    {
        out.push(c);
    }
}

/// Whether two character slices hold the same characters.
pub fn chars_equal(a: &[char], b: &[char]) -> (same: bool)
    ensures
        same == (a@ == b@),
{
    if a.len() != b.len() {
        return false;
    }
    let mut i: usize = 0;
    while i < a.len()
        invariant
            i <= a.len(),
            a.len() == b.len(),
            a@.take(i as int) == b@.take(i as int),
        decreases a.len() - i,
    {
        if a[i] != b[i] {
            return false;
        }
        assert(a@.take(i + 1) == a@.take(i as int).push(a@[i as int]));
        assert(b@.take(i + 1) == b@.take(i as int).push(b@[i as int]));
        i += 1;
    }
    assert(a@.take(a.len() as int) == a@);
    assert(b@.take(b.len() as int) == b@);
    true
}

/// Whether a character slice spells the given string slice.
pub fn spells(a: &[char], word: &str) -> (same: bool)
    ensures
        same == (a@ == word@),
{
    let w = chars_of(word);
    chars_equal(a, w.as_slice())
}

/// The views of a table of names, in order.
pub open spec fn names(table: Seq<&'static str>) -> Seq<Seq<char>> {
    table.map_values(|s: &'static str| s@)
}

/// Whether `name` stands in the table.
pub fn is_listed(name: &[char], table: &[&'static str]) -> (b: bool)
    ensures
        b == names(table@).contains(name@),
{
    let mut i: usize = 0;
    while i < table.len()
        invariant
            i <= table.len(),
            forall|k: int| 0 <= k < i ==> names(table@)[k] != name@,
        decreases table.len() - i,
    {
        if spells(name, table[i]) {
            assert(names(table@)[i as int] == name@);
            return true;
        }
        i += 1;
    }
    false
}

/// The character vectors of a list of strings.
pub fn to_texts(strings: &[String]) -> (v: Vec<Vec<char>>)
    ensures
        texts(v@) == string_views(strings@),
{
    let mut v: Vec<Vec<char>> = Vec::new();
    let mut i: usize = 0;
    while i < strings.len()
        invariant
            i <= strings.len(),
            texts(v@) == string_views(strings@).take(i as int),
        decreases strings.len() - i,
    {
        let t = chars_of(strings[i].as_str());
        let ghost before = v@;
        v.push(t);
        assert(texts(v@) =~= texts(before).push(t@));
        assert(string_views(strings@).take(i + 1) =~= string_views(strings@).take(i as int).push(
            strings@[i as int]@,
        ));
        i += 1;
    }
    assert(string_views(strings@).take(strings.len() as int) == string_views(strings@));
    v
}

/// The strings of a list of character vectors.
pub fn to_strings(items: &Vec<Vec<char>>) -> (v: Vec<String>)
    ensures
        string_views(v@) == texts(items@),
{
    let mut v: Vec<String> = Vec::new();
    let mut i: usize = 0;
    while i < items.len()
        invariant
            i <= items.len(),
            string_views(v@) == texts(items@).take(i as int),
        decreases items.len() - i,
    {
        let s = string_of(items[i].as_slice());
        let ghost before = v@;
        v.push(s);
        assert(string_views(v@) =~= string_views(before).push(s@));
        assert(texts(items@).take(i + 1) =~= texts(items@).take(i as int).push(
            items@[i as int]@,
        ));
        i += 1;
    }
    assert(texts(items@).take(items.len() as int) == texts(items@));
    v
}

/// Whether `s` begins with the characters of `prefix`.
pub fn starts_with(s: &[char], prefix: &[char]) -> (b: bool)
    ensures
        b == prefix@.is_prefix_of(s@),
{
    if prefix.len() > s.len() {
        return false;
    }
    chars_equal(&s[0..prefix.len()], prefix)
}

/// Whether `pattern` occurs in `s` as a run of neighbouring characters.
pub open spec fn has_substring(s: Seq<char>, pattern: Seq<char>) -> bool {
    exists|i: int|
        0 <= i <= s.len() - pattern.len() && #[trigger] s.subrange(i, i + pattern.len())
            == pattern
}

/// Whether `pattern` occurs in `s`.
pub fn contains_text(s: &[char], pattern: &[char]) -> (b: bool)
    ensures
        b == has_substring(s@, pattern@),
{
    if pattern.len() > s.len() {
        return false;
    }
    if pattern.len() == 0 {
        assert(s@.subrange(0, 0int + pattern@.len()) =~= pattern@);
        return true;
    }
    let last = s.len() - pattern.len();
    let mut i: usize = 0;
    while i <= last
        invariant
            i <= last + 1,
            last == s.len() - pattern.len(),
            last < s.len(),
            forall|k: int| 0 <= k < i ==> #[trigger] s@.subrange(k, k + pattern@.len()) != pattern@,
        decreases last + 1 - i,
    {
        if chars_equal(&s[i..i + pattern.len()], pattern) {
            return true;
        }
        i += 1;
    }
    false
}

/// Whether the string slice `pattern` occurs in `s`.
pub fn mentions(s: &[char], pattern: &str) -> (b: bool)
    ensures
        b == has_substring(s@, pattern@),
{
    contains_text(s, chars_of(pattern).as_slice())
}

/// Whether `s` begins with the character `c`.
pub fn starts_with_char(s: &[char], c: char) -> (b: bool)
    ensures
        b == (s@.len() > 0 && s@[0] == c),
{
    s.len() > 0 && s[0] == c
}

/// The position of the last occurrence of `c` in `s`.
pub open spec fn last_position(s: Seq<char>, c: char) -> Option<int>
    decreases s.len(),
{
    if s.len() == 0 {
        None
    } else if s.last() == c {
        Some(s.len() - 1)
    } else {
        last_position(s.drop_last(), c)
    }
}

/// What `last_position` finds: an occurrence of `c` that no later one follows,
/// or nothing where `c` does not occur.
pub proof fn lemma_last_position(s: Seq<char>, c: char)
    ensures
        match last_position(s, c) {
            Some(i) => 0 <= i < s.len() && s[i] == c && forall|j: int|
                i < j < s.len() ==> s[j] != c,
            None => !s.contains(c),
        },
    decreases s.len(),
{
    if s.len() > 0 && s.last() != c {
        let init = s.drop_last();
        lemma_last_position(init, c);
        match last_position(init, c) {
            Some(i) => {
                assert(s[i] == init[i]);
                assert forall|j: int| i < j < s.len() implies s[j] != c by {
                    if j < init.len() {
                        assert(s[j] == init[j]);
                    }
                }
            },
            None => {
                assert forall|j: int| 0 <= j < s.len() implies s[j] != c by {
                    if j < init.len() {
                        assert(init[j] == s[j]);
                        assert(init.contains(init[j]));
                    }
                }
            },
        }
    }
}

/// The index of the last `c` in `s`, if there is one.
pub fn find_last(s: &[char], c: char) -> (found: Option<usize>)
    ensures
        match found {
            Some(i) => last_position(s@, c) == Some(i as int) && i < s@.len() && s@[i as int] == c,
            None => last_position(s@, c).is_none() && !s@.contains(c),
        },
{
    proof {
        lemma_last_position(s@, c);
    }
    let mut i: usize = s.len();
    assert(s@.take(i as int) == s@);
    while i > 0
        invariant
            i <= s.len(),
            last_position(s@, c) == last_position(s@.take(i as int), c),
        decreases i,
    {
        if s[i - 1] == c {
            return Some(i - 1);
        }
        assert(s@.take(i as int).drop_last() == s@.take(i - 1));
        i -= 1;
    }
    None
}

/// Whether `c` occurs in `s`.
pub fn contains_char(s: &[char], c: char) -> (b: bool)
    ensures
        b == s@.contains(c),
{
    find_last(s, c).is_some()
}

/// The parts in order, with `sep` between each two neighbours.
pub open spec fn join(parts: Seq<Seq<char>>, sep: Seq<char>) -> Seq<char>
    decreases parts.len(),
{
    if parts.len() == 0 {
        Seq::empty()
    } else if parts.len() == 1 {
        parts[0]
    } else {
        join(parts.drop_last(), sep) + sep + parts.last()
    }
}

/// The parts in order, with `sep` between each two neighbours.
pub fn join_chars(parts: &Vec<Vec<char>>, sep: &[char]) -> (joined: Vec<char>)
    ensures
        joined@ == join(texts(parts@), sep@),
{
    let mut joined: Vec<char> = Vec::new();
    let mut i: usize = 0;
    while i < parts.len()
        invariant
            i <= parts.len(),
            joined@ == join(texts(parts@).take(i as int), sep@),
        decreases parts.len() - i,
    {
        proof {
            let before = texts(parts@).take(i as int);
            let after = texts(parts@).take(i + 1);
            assert(after.drop_last() == before);
            assert(after.last() == parts@[i as int]@);
            if i == 0 {
                assert(joined@ + parts@[i as int]@ == parts@[i as int]@);
            }
        }
        if i > 0 {
            push_chars(&mut joined, sep);
        }
        push_chars(&mut joined, parts[i].as_slice());
        i += 1;
    }
    assert(texts(parts@).take(parts.len() as int) == texts(parts@));
    joined
}

/// The character of a decimal digit.
pub open spec fn digit_char(d: nat) -> char {
    if d == 0 {
        '0'
    } else if d == 1 {
        '1'
    } else if d == 2 {
        '2'
    } else if d == 3 {
        '3'
    } else if d == 4 {
        '4'
    } else if d == 5 {
        '5'
    } else if d == 6 {
        '6'
    } else if d == 7 {
        '7'
    } else if d == 8 {
        '8'
    } else {
        '9'
    }
}

/// The decimal numeral of `n`, without leading zeros.
pub open spec fn decimal(n: nat) -> Seq<char>
    decreases n,
{
    if n < 10 {
        seq![digit_char(n)]
    } else {
        decimal(n / 10).push(digit_char(n % 10))
    }
}

fn digit_of(d: u16) -> (c: char)
    requires
        d < 10,
    ensures
        c == digit_char(d as nat),
{
    if d == 0 {
        '0'
    } else if d == 1 {
        '1'
    } else if d == 2 {
        '2'
    } else if d == 3 {
        '3'
    } else if d == 4 {
        '4'
    } else if d == 5 {
        '5'
    } else if d == 6 {
        '6'
    } else if d == 7 {
        '7'
    } else if d == 8 {
        '8'
    } else {
        '9'
    }
}

/// Appends the decimal numeral of `n` to `out`.
pub fn push_decimal(out: &mut Vec<char>, n: u16)
    ensures
        final(out)@ == old(out)@ + decimal(n as nat),
    decreases n,
{
    if n < 10 {
        out.push(digit_of(n));
        assert(old(out)@.push(digit_char(n as nat)) == old(out)@ + decimal(n as nat));
    } else {
        push_decimal(out, n / 10);
        out.push(digit_of(n % 10));
        assert((old(out)@ + decimal((n / 10) as nat)).push(digit_char((n % 10) as nat)) == old(
            out,
        )@ + decimal(n as nat));
    }
}

} // verus!
