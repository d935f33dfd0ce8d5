//! Sequences without repeated keys: the first item of each key stays.

use vstd::prelude::*;

verus! {

/// The items of `s` in order, without those whose key an earlier item has.
pub open spec fn distinct_by<A, K>(s: Seq<A>, key: spec_fn(A) -> K) -> Seq<A>
    decreases s.len(),
{
    if s.len() == 0 {
        Seq::empty()
    } else {
        let front = distinct_by(s.drop_last(), key);
        if has_key(front, key, key(s.last())) {
            front
        } else {
            front.push(s.last())
        }
    }
}

/// Some item of `s` has the key `k`.
pub open spec fn has_key<A, K>(s: Seq<A>, key: spec_fn(A) -> K, k: K) -> bool {
    exists|i: int| 0 <= i < s.len() && key(#[trigger] s[i]) == k
}

/// No two items of `s` share a key.
pub open spec fn keys_differ<A, K>(s: Seq<A>, key: spec_fn(A) -> K) -> bool {
    forall|i: int, j: int|
        0 <= i < s.len() && 0 <= j < s.len() && i != j ==> key(#[trigger] s[i]) != key(
            #[trigger] s[j],
        )
}

/// `s[i]` is the first item of `s` with its key.
pub open spec fn is_first_of_key<A, K>(s: Seq<A>, key: spec_fn(A) -> K, i: int) -> bool {
    &&& 0 <= i < s.len()
    &&& forall|h: int| 0 <= h < i ==> key(#[trigger] s[h]) != key(s[i])
}

/// The items of `s` in order, without those that occurred before.
pub open spec fn distinct<A>(s: Seq<A>) -> Seq<A> {
    distinct_by(s, |a: A| a)
}

/// What one more item does to the result.
pub proof fn lemma_distinct_by_push<A, K>(s: Seq<A>, key: spec_fn(A) -> K, item: A)
    ensures
        distinct_by(s.push(item), key) == if has_key(distinct_by(s, key), key, key(item)) {
            distinct_by(s, key)
        } else {
            distinct_by(s, key).push(item)
        },
{
    assert(s.push(item).drop_last() =~= s);
}

/// The result has every key of `s` and no other, each once, and holds for
/// each key the first item of `s` that has it.
pub proof fn lemma_distinct_by<A, K>(s: Seq<A>, key: spec_fn(A) -> K)
    ensures
        keys_differ(distinct_by(s, key), key),
        distinct_by(s, key).len() <= s.len(),
        forall|k: K| has_key(distinct_by(s, key), key, k) <==> has_key(s, key, k),
        forall|j: int|
            0 <= j < distinct_by(s, key).len() ==> exists|i: int|
                is_first_of_key(s, key, i) && s[i] == #[trigger] distinct_by(s, key)[j],
    decreases s.len(),
{
    let d = distinct_by(s, key);
    if s.len() > 0 {
        let front = s.drop_last();
        let df = distinct_by(front, key);
        let last = s.last();
        lemma_distinct_by(front, key);
        assert forall|k: K| has_key(d, key, k) <==> has_key(s, key, k) by {
            if has_key(d, key, k) {
                let j = choose|j: int| 0 <= j < d.len() && key(#[trigger] d[j]) == k;
                if j < df.len() {
                    assert(key(df[j]) == k);
                    assert(has_key(df, key, k));
                    assert(has_key(front, key, k));
                    let i = choose|i: int| 0 <= i < front.len() && key(#[trigger] front[i]) == k;
                    assert(key(s[i]) == k);
                } else {
                    assert(key(s[s.len() - 1]) == k);
                }
            }
            if has_key(s, key, k) {
                let i = choose|i: int| 0 <= i < s.len() && key(#[trigger] s[i]) == k;
                if i < front.len() {
                    assert(key(front[i]) == k);
                    assert(has_key(front, key, k));
                    assert(has_key(df, key, k));
                    let j = choose|j: int| 0 <= j < df.len() && key(#[trigger] df[j]) == k;
                    assert(key(d[j]) == k);
                } else if has_key(df, key, key(last)) {
                    let j = choose|j: int| 0 <= j < df.len() && key(#[trigger] df[j]) == key(last);
                    assert(key(d[j]) == k);
                } else {
                    assert(key(d[d.len() - 1]) == k);
                }
            }
        }
        assert forall|j: int| 0 <= j < d.len() implies exists|i: int|
            is_first_of_key(s, key, i) && s[i] == #[trigger] d[j] by {
            if j < df.len() {
                let i = choose|i: int| is_first_of_key(front, key, i) && front[i] == df[j];
                assert forall|h: int| 0 <= h < i implies key(#[trigger] s[h]) != key(s[i]) by {
                    assert(key(front[h]) != key(front[i]));
                }
                assert(is_first_of_key(s, key, i) && s[i] == d[j]);
            } else {
                let i = s.len() - 1;
                assert forall|h: int| 0 <= h < i implies key(#[trigger] s[h]) != key(s[i]) by {
                    if key(s[h]) == key(last) {
                        assert(key(front[h]) == key(last));
                        assert(has_key(front, key, key(last)));
                    }
                }
                assert(is_first_of_key(s, key, i) && s[i] == d[j]);
            }
        }
        assert(keys_differ(d, key)) by {
            assert forall|i: int, j: int|
                0 <= i < d.len() && 0 <= j < d.len() && i != j implies key(#[trigger] d[i]) != key(
                #[trigger] d[j],
            ) by {
                if i < df.len() && j < df.len() {
                    assert(key(df[i]) != key(df[j]));
                } else if i < df.len() {
                    assert(key(df[i]) != key(last));
                } else {
                    assert(key(df[j]) != key(last));
                }
            }
        }
    }
}

/// `distinct` keeps the items that occur, each once.
pub proof fn lemma_distinct<A>(s: Seq<A>)
    ensures
        distinct(s).no_duplicates(),
        distinct(s).len() <= s.len(),
        forall|a: A| distinct(s).contains(a) <==> s.contains(a),
{
    let key = |a: A| a;
    let d = distinct(s);
    lemma_distinct_by(s, key);
    assert forall|i: int, j: int| 0 <= i < d.len() && 0 <= j < d.len() && i != j implies d[i]
        != d[j] by {
        assert(key(d[i]) != key(d[j]));
    }
    assert forall|a: A| d.contains(a) <==> s.contains(a) by {
        if d.contains(a) {
            let j = choose|j: int| 0 <= j < d.len() && d[j] == a;
            assert(key(d[j]) == a);
            assert(has_key(d, key, a));
            assert(has_key(s, key, a));
            let i = choose|i: int| 0 <= i < s.len() && key(#[trigger] s[i]) == a;
            assert(s[i] == a);
        }
        if s.contains(a) {
            let i = choose|i: int| 0 <= i < s.len() && s[i] == a;
            assert(key(s[i]) == a);
            assert(has_key(s, key, a));
            assert(has_key(d, key, a));
            let j = choose|j: int| 0 <= j < d.len() && key(#[trigger] d[j]) == a;
            assert(d[j] == a);
        }
    }
}

/// Under the key that is the item itself, having a key is containing the
/// item.
pub proof fn lemma_has_item<A>(s: Seq<A>, item: A)
    ensures
        has_key(s, |a: A| a, item) == s.contains(item),
{
    let key = |a: A| a;
    if s.contains(item) {
        let i = choose|i: int| 0 <= i < s.len() && s[i] == item;
        assert(key(s[i]) == item);
    }
    if has_key(s, key, item) {
        let i = choose|i: int| 0 <= i < s.len() && key(#[trigger] s[i]) == item;
        assert(s[i] == item);
    }
}

} // verus!
