//! Lists of texts in dictionary order.

use crate::text::{chars_of, string_from};
use vstd::prelude::*;

verus! {

/// Whether `a` stands before `b` in the dictionary: at the first place where
/// they differ `a` has the smaller code point, or `a` ends there and `b` goes
/// on.
pub open spec fn precedes(a: Seq<char>, b: Seq<char>) -> bool
    decreases a.len(),
{
    if b.len() == 0 {
        false
    } else if a.len() == 0 {
        true
    } else if a[0] != b[0] {
        a[0] < b[0]
    } else {
        precedes(a.skip(1), b.skip(1))
    }
}

/// No text stands before itself.
pub proof fn lemma_precedes_irreflexive(a: Seq<char>)
    ensures
        !precedes(a, a),
    decreases a.len(),
{
    if a.len() > 0 {
        lemma_precedes_irreflexive(a.skip(1));
    }
}

/// What stands before a text stands before all that this text stands before.
pub proof fn lemma_precedes_transitive(a: Seq<char>, b: Seq<char>, c: Seq<char>)
    requires
        precedes(a, b),
        precedes(b, c),
    ensures
        precedes(a, c),
    decreases a.len(),
{
    if a.len() > 0 && a[0] == b[0] && b[0] == c[0] {
        lemma_precedes_transitive(a.skip(1), b.skip(1), c.skip(1));
    }
}

/// Of two different texts one stands before the other.
pub proof fn lemma_precedes_total(a: Seq<char>, b: Seq<char>)
    ensures
        a == b || precedes(a, b) || precedes(b, a),
    decreases a.len(),
{
    if a.len() > 0 && b.len() > 0 && a[0] == b[0] {
        lemma_precedes_total(a.skip(1), b.skip(1));
        if a.skip(1) == b.skip(1) {
            assert(a =~= seq![a[0]] + a.skip(1));
            assert(b =~= seq![b[0]] + b.skip(1));
        }
    } else if a.len() == 0 && b.len() == 0 {
        assert(a =~= b);
    }
}

/// Whether every text of `list` stands before all that follow it; no text
/// then occurs twice.
pub open spec fn increasing(list: Seq<Seq<char>>) -> bool {
    forall|i: int, j: int|
        0 <= i < j < list.len() ==> precedes(#[trigger] list[i], #[trigger] list[j])
}

/// In a list in dictionary order no text occurs twice.
pub proof fn lemma_increasing_distinct(list: Seq<Seq<char>>)
    requires
        increasing(list),
    ensures
        list.no_duplicates(),
{
    assert forall|i: int, j: int|
        0 <= i < list.len() && 0 <= j < list.len() && i != j implies list[i] != list[j] by {
        lemma_precedes_irreflexive(list[i]);
        if i < j {
            assert(precedes(list[i], list[j]));
        } else {
            assert(precedes(list[j], list[i]));
        }
    }
}

/// The texts of `list`, each from its characters.
pub open spec fn texts(list: Seq<Vec<char>>) -> Seq<Seq<char>> {
    list.map_values(|t: Vec<char>| t@)
}

/// Whether `a` stands before `b` in the dictionary.
pub fn stands_before(a: &Vec<char>, b: &Vec<char>) -> (before: bool)
    ensures
        before == precedes(a@, b@),
{
    let mut i: usize = 0;
    assert(a@.skip(0) =~= a@ && b@.skip(0) =~= b@);
    while i < a.len() && i < b.len()
        invariant
            i <= a.len(),
            i <= b.len(),
            precedes(a@, b@) == precedes(a@.skip(i as int), b@.skip(i as int)),
        decreases a.len() - i,
    {
        assert(a@.skip(i as int)[0] == a@[i as int]);
        assert(b@.skip(i as int)[0] == b@[i as int]);
        assert(a@.skip(i as int).skip(1) =~= a@.skip(i + 1));
        assert(b@.skip(i as int).skip(1) =~= b@.skip(i + 1));
        if a[i] != b[i] {
            return a[i] < b[i];
        }
        i += 1;
    }
    i < b.len()
}

/// The texts of `strings` in dictionary order, each once.
pub fn sorted_distinct(strings: &Vec<String>) -> (out: Vec<String>)
    ensures
        increasing(out.deep_view()),
        out.deep_view().no_duplicates(),
        forall|t: Seq<char>| out.deep_view().contains(t) <==> strings.deep_view().contains(t),
{
    let ghost given = strings.deep_view();
    let mut keys: Vec<Vec<char>> = Vec::new();
    let mut i: usize = 0;
    while i < strings.len()
        invariant
            i <= strings.len(),
            given == strings.deep_view(),
            increasing(texts(keys@)),
            forall|t: Seq<char>| texts(keys@).contains(t) <==> given.take(i as int).contains(t),
        decreases strings.len() - i,
    {
        let key = chars_of(strings[i].as_str());
        let ghost old_keys = texts(keys@);
        let mut p: usize = 0;
        while p < keys.len() && stands_before(&keys[p], &key)
            invariant
                p <= keys.len(),
                old_keys == texts(keys@),
                forall|k: int| 0 <= k < p ==> precedes(#[trigger] old_keys[k], key@),
            decreases keys.len() - p,
        {
            p += 1;
        }
        let present = p < keys.len() && !stands_before(&key, &keys[p]);
        proof {
            if p < keys.len() {
                lemma_precedes_total(key@, old_keys[p as int]);
            }
            if present {
                assert(old_keys[p as int] == key@);
                assert(old_keys.contains(key@));
            }
        }
        if !present {
            keys.insert(p, key);
            proof {
                let new_keys = texts(keys@);
                assert(new_keys =~= old_keys.insert(p as int, key@));
                assert forall|a: int, b: int| 0 <= a < b < new_keys.len() implies precedes(
                    #[trigger] new_keys[a],
                    #[trigger] new_keys[b],
                ) by {
                    if b < p {
                        assert(new_keys[a] == old_keys[a] && new_keys[b] == old_keys[b]);
                    } else if b == p {
                        assert(new_keys[a] == old_keys[a]);
                    } else if a < p {
                        assert(new_keys[a] == old_keys[a] && new_keys[b] == old_keys[b - 1]);
                        lemma_precedes_transitive(old_keys[a], key@, old_keys[p as int]);
                        if b - 1 > p {
                            lemma_precedes_transitive(
                                old_keys[a],
                                old_keys[p as int],
                                old_keys[b - 1],
                            );
                        }
                    } else if a == p {
                        assert(new_keys[b] == old_keys[b - 1]);
                        if b - 1 > p {
                            lemma_precedes_transitive(key@, old_keys[p as int], old_keys[b - 1]);
                        }
                    } else {
                        assert(new_keys[a] == old_keys[a - 1] && new_keys[b] == old_keys[b - 1]);
                    }
                }
                assert forall|t: Seq<char>| new_keys.contains(t) <==> (old_keys.contains(t) || t
                    == key@) by {
                    if new_keys.contains(t) {
                        let k = choose|k: int| 0 <= k < new_keys.len() && new_keys[k] == t;
                        if k < p {
                            assert(old_keys[k] == t);
                        } else if k > p {
                            assert(old_keys[k - 1] == t);
                        }
                    }
                    if old_keys.contains(t) {
                        let k = choose|k: int| 0 <= k < old_keys.len() && old_keys[k] == t;
                        if k < p {
                            assert(new_keys[k] == t);
                        } else {
                            assert(new_keys[k + 1] == t);
                        }
                    }
                    if t == key@ {
                        assert(new_keys[p as int] == t);
                    }
                }
            }
        }
        proof {
            let seen = given.take(i as int);
            let grown = given.take(i + 1);
            assert(grown =~= seen.push(key@));
            assert forall|t: Seq<char>| texts(keys@).contains(t) <==> grown.contains(t) by {
                if grown.contains(t) {
                    let k = choose|k: int| 0 <= k < grown.len() && grown[k] == t;
                    if k < seen.len() {
                        assert(seen[k] == t);
                    }
                }
                if seen.contains(t) {
                    let k = choose|k: int| 0 <= k < seen.len() && seen[k] == t;
                    assert(grown[k] == t);
                }
                if t == key@ {
                    assert(grown[i as int] == t);
                }
            }
        }
        i += 1;
    }
    assert(given.take(strings.len() as int) =~= given);
    let mut out: Vec<String> = Vec::new();
    let mut j: usize = 0;
    while j < keys.len()
        invariant
            j <= keys.len(),
            out.deep_view() == texts(keys@).take(j as int),
        decreases keys.len() - j,
    {
        let ghost before = out.deep_view();
        out.push(string_from(&keys[j]));
        assert(out.deep_view() =~= before.push(keys[j as int]@));
        assert(texts(keys@).take(j + 1) =~= before.push(keys[j as int]@));
        j += 1;
    }
    assert(texts(keys@).take(keys.len() as int) =~= texts(keys@));
    proof {
        lemma_increasing_distinct(out.deep_view());
    }
    out
}

} // verus!
