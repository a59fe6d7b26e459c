//! Association sequences viewed as maps.
//!
//! The hub keeps its small indices as vectors of key/value pairs with unique
//! keys. These specification functions read such a sequence as a `Map`, and
//! the lemmas translate the three shapes of mutation — updating the value at
//! an index, appending a fresh key, dropping an index — into the map
//! operations that contracts speak of.
use vstd::prelude::*;

verus! {

/// Whether some pair of `s` carries the key `k`.
pub open spec fn assoc_has<K, V>(s: Seq<(K, V)>, k: K) -> bool {
    exists|i: int| 0 <= i < s.len() && s[i].0 == k
}

/// An index of `s` carrying the key `k` (meaningful when keys are unique).
pub open spec fn assoc_idx<K, V>(s: Seq<(K, V)>, k: K) -> int {
    choose|i: int| 0 <= i < s.len() && s[i].0 == k
}

/// No key occurs twice.
pub open spec fn assoc_unique<K, V>(s: Seq<(K, V)>) -> bool {
    forall|i: int, j: int| 0 <= i < j < s.len() ==> s[i].0 != s[j].0
}

/// The sequence of pairs read as a map.
pub open spec fn assoc_map<K, V>(s: Seq<(K, V)>) -> Map<K, V> {
    Map::new(|k: K| assoc_has(s, k), |k: K| s[assoc_idx(s, k)].1)
}

/// With unique keys, the pair at index `i` is the one the map reads.
pub proof fn lemma_assoc_at<K, V>(s: Seq<(K, V)>, i: int)
    requires
        assoc_unique(s),
        0 <= i < s.len(),
    ensures
        assoc_has(s, s[i].0),
        assoc_idx(s, s[i].0) == i,
        assoc_map(s).dom().contains(s[i].0),
        assoc_map(s)[s[i].0] == s[i].1,
{
    let k = s[i].0;
    assert(assoc_has(s, k));
    let j = assoc_idx(s, k);
    if i < j {
        assert(s[i].0 != s[j].0);
    } else if j < i {
        assert(s[j].0 != s[i].0);
    }
}

/// Replacing the value at one index updates one entry of the map.
pub proof fn lemma_assoc_update<K, V>(pre: Seq<(K, V)>, post: Seq<(K, V)>, i: int)
    requires
        assoc_unique(pre),
        0 <= i < pre.len(),
        post.len() == pre.len(),
        post[i].0 == pre[i].0,
        forall|j: int| 0 <= j < pre.len() && j != i ==> post[j] == pre[j],
    ensures
        assoc_unique(post),
        assoc_map(post) == assoc_map(pre).insert(pre[i].0, post[i].1),
{
    assert forall|a: int, b: int| 0 <= a < b < post.len() implies post[a].0 != post[b].0 by {
        assert(pre[a].0 != pre[b].0);
    }
    let k = pre[i].0;
    assert forall|x: K| #[trigger] assoc_has(post, x) == (assoc_has(pre, x) || x == k) by {
        if assoc_has(post, x) {
            let j = assoc_idx(post, x);
            lemma_assoc_at(post, j);
            if j != i {
                assert(pre[j].0 == x);
                assert(assoc_has(pre, x));
            }
        }
        if assoc_has(pre, x) {
            let j = assoc_idx(pre, x);
            lemma_assoc_at(pre, j);
            assert(post[j].0 == x);
        }
        if x == k {
            assert(post[i].0 == x);
        }
    }
    assert forall|x: K| assoc_has(post, x) implies assoc_map(post)[x] == assoc_map(pre).insert(
        k,
        post[i].1,
    )[x] by {
        let j = assoc_idx(post, x);
        lemma_assoc_at(post, j);
        if x == k {
            lemma_assoc_at(post, i);
            assert(j == i);
        } else {
            assert(j != i);
            lemma_assoc_at(pre, j);
        }
    }
    assert(assoc_has(pre, k));
    assert(assoc_map(post) =~= assoc_map(pre).insert(k, post[i].1));
}

/// Appending a pair with a fresh key adds one entry to the map.
pub proof fn lemma_assoc_push<K, V>(pre: Seq<(K, V)>, post: Seq<(K, V)>, k: K, v: V)
    requires
        assoc_unique(pre),
        !assoc_has(pre, k),
        post == pre.push((k, v)),
    ensures
        assoc_unique(post),
        assoc_map(post) == assoc_map(pre).insert(k, v),
{
    let n = pre.len() as int;
    assert(post[n].0 == k && post[n].1 == v);
    assert forall|a: int, b: int| 0 <= a < b < post.len() implies post[a].0 != post[b].0 by {
        if b < n {
            assert(pre[a].0 != pre[b].0);
        } else {
            if post[a].0 == k {
                assert(pre[a].0 == k);
                assert(assoc_has(pre, k));
            }
        }
    }
    assert forall|x: K| #[trigger] assoc_has(post, x) == (assoc_has(pre, x) || x == k) by {
        if assoc_has(post, x) {
            let j = assoc_idx(post, x);
            lemma_assoc_at(post, j);
            if j < n {
                assert(pre[j].0 == x);
                assert(assoc_has(pre, x));
            }
        }
        if assoc_has(pre, x) {
            let j = assoc_idx(pre, x);
            lemma_assoc_at(pre, j);
            assert(post[j].0 == x);
        }
    }
    assert forall|x: K| assoc_has(post, x) implies assoc_map(post)[x] == assoc_map(pre).insert(
        k,
        v,
    )[x] by {
        let j = assoc_idx(post, x);
        lemma_assoc_at(post, j);
        if x == k {
            lemma_assoc_at(post, n);
        } else {
            assert(j != n);
            lemma_assoc_at(pre, j);
        }
    }
    assert(assoc_map(post) =~= assoc_map(pre).insert(k, v));
}

/// Dropping the pair at one index drops one entry of the map.
pub proof fn lemma_assoc_remove<K, V>(pre: Seq<(K, V)>, post: Seq<(K, V)>, i: int)
    requires
        assoc_unique(pre),
        0 <= i < pre.len(),
        post == pre.remove(i),
    ensures
        assoc_unique(post),
        assoc_map(post) == assoc_map(pre).remove(pre[i].0),
{
    let n = pre.len() as int;
    let k = pre[i].0;
    assert(post.len() == n - 1);
    assert(forall|j: int| 0 <= j < i ==> post[j] == pre[j]);
    assert(forall|j: int| i <= j < n - 1 ==> post[j] == pre[j + 1]);
    assert forall|a: int, b: int| 0 <= a < b < post.len() implies post[a].0 != post[b].0 by {
        let a0 = if a < i {
            a
        } else {
            a + 1
        };
        let b0 = if b < i {
            b
        } else {
            b + 1
        };
        assert(pre[a0].0 != pre[b0].0);
    }
    lemma_assoc_at(pre, i);
    assert forall|x: K| #[trigger] assoc_has(post, x) == (assoc_has(pre, x) && x != k) by {
        if assoc_has(post, x) {
            let j = assoc_idx(post, x);
            lemma_assoc_at(post, j);
            let j0 = if j < i {
                j
            } else {
                j + 1
            };
            assert(pre[j0].0 == x);
            assert(assoc_has(pre, x));
            lemma_assoc_at(pre, j0);
            assert(j0 != i);
            assert(x != k);
        }
        if assoc_has(pre, x) && x != k {
            let j = assoc_idx(pre, x);
            lemma_assoc_at(pre, j);
            assert(j != i);
            let j1 = if j < i {
                j
            } else {
                j - 1
            };
            assert(post[j1].0 == x);
        }
    }
    assert forall|x: K| assoc_has(post, x) implies assoc_map(post)[x] == assoc_map(pre).remove(
        k,
    )[x] by {
        let j = assoc_idx(post, x);
        lemma_assoc_at(post, j);
        let j0 = if j < i {
            j
        } else {
            j + 1
        };
        lemma_assoc_at(pre, j0);
        assert(post[j].1 == pre[j0].1);
    }
    assert(assoc_map(post) =~= assoc_map(pre).remove(k));
}

} // verus!
