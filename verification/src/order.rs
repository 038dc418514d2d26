//! The order of texts, and lists that are sorted by it.

use crate::text::{chars_equal, texts};
use vstd::prelude::*;

verus! {

/// Whether `a` comes before `b` in the order of a dictionary, characters taken
/// by their code points. This is the order of `str` and `String`.
pub open spec fn lex_less(a: Seq<char>, b: Seq<char>) -> bool
    decreases a.len(),
{
    if b.len() == 0 {
        false
    } else if a.len() == 0 {
        true
    } else if a[0] != b[0] {
        a[0] < b[0]
    } else {
        lex_less(a.drop_first(), b.drop_first())
    }
}

/// No text comes before itself.
pub proof fn lemma_lex_irreflexive(a: Seq<char>)
    ensures
        !lex_less(a, a),
    decreases a.len(),
{
    if a.len() > 0 {
        lemma_lex_irreflexive(a.drop_first());
    }
}

/// Of two different texts one comes before the other.
pub proof fn lemma_lex_total(a: Seq<char>, b: Seq<char>)
    ensures
        a == b || lex_less(a, b) || lex_less(b, a),
    decreases a.len(),
{
    if a.len() > 0 && b.len() > 0 && a[0] == b[0] {
        lemma_lex_total(a.drop_first(), b.drop_first());
        if a.drop_first() == b.drop_first() {
            assert(a =~= seq![a[0]] + a.drop_first());
            assert(b =~= seq![b[0]] + b.drop_first());
        }
    } else if a.len() == 0 && b.len() == 0 {
        assert(a =~= b);
    }
}

/// Two texts do not come before each other.
pub proof fn lemma_lex_asymmetric(a: Seq<char>, b: Seq<char>)
    requires
        lex_less(a, b),
    ensures
        !lex_less(b, a),
    decreases a.len(),
{
    if a.len() > 0 && b.len() > 0 && a[0] == b[0] {
        lemma_lex_asymmetric(a.drop_first(), b.drop_first());
    }
}

/// What comes before a text comes before all that the text comes before.
pub proof fn lemma_lex_transitive(a: Seq<char>, b: Seq<char>, c: Seq<char>)
    requires
        lex_less(a, b),
        lex_less(b, c),
    ensures
        lex_less(a, c),
    decreases a.len(),
{
    if a.len() > 0 && b.len() > 0 && c.len() > 0 && a[0] == b[0] && b[0] == c[0] {
        lemma_lex_transitive(a.drop_first(), b.drop_first(), c.drop_first());
    }
}

/// Whether `a` comes before `b` in the order of a dictionary.
pub fn lex_before(a: &[char], b: &[char]) -> (less: bool)
    ensures
        less == lex_less(a@, b@),
{
    let mut i: usize = 0;
    assert(a@.skip(0) == a@);
    assert(b@.skip(0) == b@);
    while i < a.len() && i < b.len() && a[i] == b[i]
        invariant
            i <= a.len(),
            i <= b.len(),
            lex_less(a@, b@) == lex_less(a@.skip(i as int), b@.skip(i as int)),
        decreases a.len() - i,
    {
        assert(a@.skip(i as int).drop_first() == a@.skip(i + 1));
        assert(b@.skip(i as int).drop_first() == b@.skip(i + 1));
        i += 1;
    }
    if i == b.len() {
        false
    } else if i == a.len() {
        true
    } else {
        a[i] < b[i]
    }
}

/// Whether each item comes before the next in the order of `lex_less`: the
/// list is sorted and holds nothing twice.
pub open spec fn strictly_ascending(s: Seq<Seq<char>>) -> bool {
    forall|i: int, j: int| 0 <= i < j < s.len() ==> lex_less(#[trigger] s[i], #[trigger] s[j])
}

/// Two sorted lists without repetitions that hold the same items are the
/// same list.
pub proof fn lemma_ascending_unique(a: Seq<Seq<char>>, b: Seq<Seq<char>>)
    requires
        strictly_ascending(a),
        strictly_ascending(b),
        forall|m: Seq<char>| a.contains(m) <==> b.contains(m),
    ensures
        a == b,
    decreases a.len(),
{
    if a.len() == 0 {
        if b.len() > 0 {
            assert(b.contains(b[0]));
            assert(a.contains(b[0]));
        }
        assert(a =~= b);
    } else {
        assert(a.contains(a[0]));
        assert(b.contains(a[0]));
        assert(b.contains(b[0]));
        assert(a.contains(b[0]));
        let j = choose|j: int| 0 <= j < a.len() && a[j] == b[0];
        let k = choose|k: int| 0 <= k < b.len() && b[k] == a[0];
        if j > 0 && k > 0 {
            assert(lex_less(a[0], a[j]));
            assert(lex_less(b[0], b[k]));
            lemma_lex_asymmetric(a[0], b[0]);
        }
        assert(a[0] == b[0]);
        let ra = a.drop_first();
        let rb = b.drop_first();
        assert forall|i: int, j: int| 0 <= i < j < ra.len() implies lex_less(
            #[trigger] ra[i],
            #[trigger] ra[j],
        ) by {
            assert(ra[i] == a[i + 1] && ra[j] == a[j + 1]);
        }
        assert forall|i: int, j: int| 0 <= i < j < rb.len() implies lex_less(
            #[trigger] rb[i],
            #[trigger] rb[j],
        ) by {
            assert(rb[i] == b[i + 1] && rb[j] == b[j + 1]);
        }
        assert forall|m: Seq<char>| ra.contains(m) <==> rb.contains(m) by {
            if ra.contains(m) {
                let i = choose|i: int| 0 <= i < ra.len() && ra[i] == m;
                assert(a[i + 1] == m);
                assert(a.contains(m));
                assert(b.contains(m));
                let n = choose|n: int| 0 <= n < b.len() && b[n] == m;
                if n == 0 {
                    assert(lex_less(a[0], a[i + 1]));
                    lemma_lex_irreflexive(m);
                }
                assert(rb[n - 1] == m);
            }
            if rb.contains(m) {
                let i = choose|i: int| 0 <= i < rb.len() && rb[i] == m;
                assert(b[i + 1] == m);
                assert(b.contains(m));
                assert(a.contains(m));
                let n = choose|n: int| 0 <= n < a.len() && a[n] == m;
                if n == 0 {
                    assert(lex_less(b[0], b[i + 1]));
                    lemma_lex_irreflexive(m);
                }
                assert(ra[n - 1] == m);
            }
        }
        lemma_ascending_unique(ra, rb);
        assert(a =~= seq![a[0]] + ra);
        assert(b =~= seq![b[0]] + rb);
    }
}

/// A sorted list without repetitions with `item` put in its place, unless
/// the list holds it already.
pub open spec fn inserted(s: Seq<Seq<char>>, item: Seq<char>) -> Seq<Seq<char>>
    decreases s.len(),
{
    if s.len() == 0 {
        seq![item]
    } else if s[0] == item {
        s
    } else if lex_less(item, s[0]) {
        seq![item] + s
    } else {
        seq![s[0]] + inserted(s.drop_first(), item)
    }
}

/// Putting an item in keeps the list sorted and without repetitions, and
/// adds the item and nothing else.
pub proof fn lemma_inserted(s: Seq<Seq<char>>, item: Seq<char>)
    requires
        strictly_ascending(s),
    ensures
        strictly_ascending(inserted(s, item)),
        forall|m: Seq<char>| #[trigger]
            inserted(s, item).contains(m) <==> (s.contains(m) || m == item),
        inserted(s, item).len() > 0,
        s.len() > 0 ==> inserted(s, item)[0] == s[0] || inserted(s, item)[0] == item,
    decreases s.len(),
{
    let after = inserted(s, item);
    if s.len() == 0 {
        assert(after[0] == item);
        assert forall|m: Seq<char>| after.contains(m) <==> (s.contains(m) || m == item) by {
            if m == item {
                assert(after[0] == m);
            }
        }
    } else if s[0] == item {
        assert forall|m: Seq<char>| after.contains(m) <==> (s.contains(m) || m == item) by {
            if m == item {
                assert(s[0] == m);
            }
        }
    } else if lex_less(item, s[0]) {
        assert forall|i: int, j: int| 0 <= i < j < after.len() implies lex_less(
            #[trigger] after[i],
            #[trigger] after[j],
        ) by {
            assert(after[j] == s[j - 1]);
            if i == 0 {
                if j - 1 > 0 {
                    assert(lex_less(s[0], s[j - 1]));
                    lemma_lex_transitive(item, s[0], s[j - 1]);
                }
            } else {
                assert(after[i] == s[i - 1]);
            }
        }
        assert forall|m: Seq<char>| after.contains(m) <==> (s.contains(m) || m == item) by {
            if after.contains(m) {
                let i = choose|i: int| 0 <= i < after.len() && after[i] == m;
                if i > 0 {
                    assert(s[i - 1] == m);
                }
            }
            if s.contains(m) {
                let i = choose|i: int| 0 <= i < s.len() && s[i] == m;
                assert(after[i + 1] == m);
            }
            if m == item {
                assert(after[0] == m);
            }
        }
    } else {
        let rest = s.drop_first();
        assert forall|i: int, j: int| 0 <= i < j < rest.len() implies lex_less(
            #[trigger] rest[i],
            #[trigger] rest[j],
        ) by {
            assert(rest[i] == s[i + 1] && rest[j] == s[j + 1]);
        }
        lemma_inserted(rest, item);
        let tail = inserted(rest, item);
        lemma_lex_total(item, s[0]);
        assert(lex_less(s[0], item));
        assert(lex_less(s[0], tail[0])) by {
            if rest.len() > 0 && tail[0] == rest[0] {
                assert(rest[0] == s[1]);
            }
        }
        assert forall|i: int, j: int| 0 <= i < j < after.len() implies lex_less(
            #[trigger] after[i],
            #[trigger] after[j],
        ) by {
            assert(after[j] == tail[j - 1]);
            if i == 0 {
                if j - 1 > 0 {
                    assert(lex_less(tail[0], tail[j - 1]));
                    lemma_lex_transitive(s[0], tail[0], tail[j - 1]);
                }
            } else {
                assert(after[i] == tail[i - 1]);
            }
        }
        assert forall|m: Seq<char>| after.contains(m) <==> (s.contains(m) || m == item) by {
            if after.contains(m) {
                let i = choose|i: int| 0 <= i < after.len() && after[i] == m;
                if i > 0 {
                    assert(tail[i - 1] == m);
                    assert(tail.contains(m));
                    if rest.contains(m) {
                        let k = choose|k: int| 0 <= k < rest.len() && rest[k] == m;
                        assert(s[k + 1] == m);
                    }
                } else {
                    assert(s[0] == m);
                }
            }
            if s.contains(m) {
                let i = choose|i: int| 0 <= i < s.len() && s[i] == m;
                if i == 0 {
                    assert(after[0] == m);
                } else {
                    assert(rest[i - 1] == m);
                    assert(rest.contains(m));
                    assert(tail.contains(m));
                    let k = choose|k: int| 0 <= k < tail.len() && tail[k] == m;
                    assert(after[k + 1] == m);
                }
            }
            if m == item {
                assert(tail.contains(m));
                let k = choose|k: int| 0 <= k < tail.len() && tail[k] == m;
                assert(after[k + 1] == m);
            }
        }
    }
}

/// Puts `item` into a sorted list without repetitions, unless the list
/// holds it already.
pub(crate) fn insert_ascending(items: &mut Vec<Vec<char>>, item: Vec<char>)
    ensures
        texts(final(items)@) == inserted(texts(old(items)@), item@),
{
    let ghost before = texts(items@);
    let mut p: usize = 0;
    proof {
        assert(before.skip(0) == before);
        assert(before.take(0) + inserted(before, item@) == inserted(before, item@));
    }
    while p < items.len() && lex_before(items[p].as_slice(), item.as_slice())
        invariant
            p <= items.len(),
            items@ == old(items)@,
            before == texts(items@),
            inserted(before, item@) == before.take(p as int) + inserted(
                before.skip(p as int),
                item@,
            ),
        decreases items.len() - p,
    {
        proof {
            let rest = before.skip(p as int);
            assert(rest[0] == items@[p as int]@);
            lemma_lex_irreflexive(item@);
            lemma_lex_asymmetric(rest[0], item@);
            assert(rest.drop_first() == before.skip(p + 1));
            assert(before.take(p as int) + (seq![rest[0]] + inserted(before.skip(p + 1), item@))
                == before.take(p + 1) + inserted(before.skip(p + 1), item@));
        }
        p += 1;
    }
    let ghost rest = before.skip(p as int);
    if p < items.len() && chars_equal(items[p].as_slice(), item.as_slice()) {
        assert(rest[0] == item@);
        assert(before.take(p as int) + rest == before);
        return;
    }
    proof {
        if p < items.len() {
            assert(rest[0] == items@[p as int]@);
            lemma_lex_total(rest[0], item@);
        }
        assert(before.take(p as int) + (seq![item@] + rest) == before.insert(p as int, item@));
    }
    let ghost added = item@;
    items.insert(p, item);
    assert(texts(items@) == before.insert(p as int, added));
}

} // verus!
