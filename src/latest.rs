use vstd::prelude::*;

verus! {

/// Position in `w` of the winner whose key is `k`, searching from the end;
/// `-1` when no winner has that key.
pub open spec fn key_pos(keys: Seq<i32>, w: Seq<usize>, k: i32) -> int
    decreases w.len(),
{
    if w.len() == 0 {
        -1
    } else if keys[w.last() as int] == k {
        w.len() - 1
    } else {
        key_pos(keys, w.drop_last(), k)
    }
}

/// The rows kept among the first `n` rows: one per distinct key, the one
/// with the highest rank. Keys appear in the order of their first row; of
/// two rows with the same key and the same rank the earlier one is kept.
pub open spec fn winners(keys: Seq<i32>, ranks: Seq<i128>, n: nat) -> Seq<usize>
    decreases n,
{
    if n == 0 {
        seq![]
    } else {
        let w = winners(keys, ranks, (n - 1) as nat);
        let i = (n - 1) as int;
        let p = key_pos(keys, w, keys[i]);
        if p < 0 {
            w.push(i as usize)
        } else if ranks[i] > ranks[w[p] as int] {
            w.update(p, i as usize)
        } else {
            w
        }
    }
}

/// The indices of `w` point below `n` and carry pairwise distinct keys.
pub open spec fn well_formed_winners(keys: Seq<i32>, w: Seq<usize>, n: nat) -> bool {
    &&& forall|p: int| 0 <= p < w.len() ==> (#[trigger] w[p]) < n
    &&& forall|p: int, q: int|
        0 <= p < w.len() && 0 <= q < w.len() && p != q ==> keys[#[trigger] w[p] as int]
            != keys[#[trigger] w[q] as int]
}

proof fn lemma_key_pos(keys: Seq<i32>, w: Seq<usize>, k: i32, n: nat)
    requires
        well_formed_winners(keys, w, n),
        n <= keys.len(),
    ensures
        -1 <= key_pos(keys, w, k) < w.len(),
        key_pos(keys, w, k) >= 0 ==> keys[w[key_pos(keys, w, k)] as int] == k,
        key_pos(keys, w, k) < 0 ==> forall|p: int| 0 <= p < w.len() ==> keys[#[trigger] w[p] as int] != k,
    decreases w.len(),
{
    if w.len() > 0 && keys[w.last() as int] != k {
        let d = w.drop_last();
        assert(well_formed_winners(keys, d, n)) by {
            assert forall|p: int| 0 <= p < d.len() implies (#[trigger] d[p]) < n by {
                assert(d[p] == w[p]);
            }
            assert forall|p: int, q: int|
                0 <= p < d.len() && 0 <= q < d.len() && p != q implies keys[#[trigger] d[p] as int]
                != keys[#[trigger] d[q] as int] by {
                assert(d[p] == w[p] && d[q] == w[q]);
            }
        }
        lemma_key_pos(keys, d, k, n);
        if key_pos(keys, d, k) < 0 {
            assert forall|p: int| 0 <= p < w.len() implies keys[#[trigger] w[p] as int] != k by {
                if p < d.len() {
                    assert(d[p] == w[p]);
                }
            }
        }
    }
}

/// What the kept rows are, stated without the fold: among the first `n` rows,
/// each kept row has a key no other kept row has, every row's key is kept,
/// and the kept row of a key has the highest rank of that key's rows and is
/// the earliest row of that rank.
pub proof fn lemma_winners(keys: Seq<i32>, ranks: Seq<i128>, n: nat)
    requires
        n <= keys.len(),
        n <= ranks.len(),
        n <= usize::MAX,
    ensures
        well_formed_winners(keys, winners(keys, ranks, n), n),
        forall|j: int|
            0 <= j < n ==> {
                let w = winners(keys, ranks, n);
                let p = key_pos(keys, w, #[trigger] keys[j]);
                &&& 0 <= p < w.len()
                &&& keys[w[p] as int] == keys[j]
                &&& ranks[j] <= ranks[w[p] as int]
                &&& ranks[j] == ranks[w[p] as int] ==> w[p] <= j
            },
    decreases n,
{
    if n > 0 {
        let m = (n - 1) as nat;
        lemma_winners(keys, ranks, m);
        let w = winners(keys, ranks, m);
        let i = m as int;
        let k = keys[i];
        lemma_key_pos(keys, w, k, m);
        let p = key_pos(keys, w, k);
        let v = winners(keys, ranks, n);
        assert((i as usize) as int == i);
        assert(well_formed_winners(keys, v, n)) by {
            if p < 0 {
                assert forall|a: int, b: int|
                    0 <= a < v.len() && 0 <= b < v.len() && a != b implies keys[#[trigger] v[a] as int]
                    != keys[#[trigger] v[b] as int] by {
                    if a < w.len() && b < w.len() {
                        assert(v[a] == w[a] && v[b] == w[b]);
                    } else if a < w.len() {
                        assert(v[a] == w[a]);
                        assert(v[b] == i as usize);
                        assert(keys[w[a] as int] != k);
                    } else {
                        assert(v[b] == w[b]);
                        assert(v[a] == i as usize);
                        assert(keys[w[b] as int] != k);
                    }
                }
            } else if ranks[i] > ranks[w[p] as int] {
                assert forall|a: int, b: int|
                    0 <= a < v.len() && 0 <= b < v.len() && a != b implies keys[#[trigger] v[a] as int]
                    != keys[#[trigger] v[b] as int] by {
                    if a != p && b != p {
                        assert(v[a] == w[a] && v[b] == w[b]);
                    } else if a == p {
                        assert(v[b] == w[b]);
                        assert(keys[w[b] as int] != keys[w[p] as int]);
                    } else {
                        assert(v[a] == w[a]);
                        assert(keys[w[a] as int] != keys[w[p] as int]);
                    }
                }
            }
        }
        assert forall|j: int| 0 <= j < n implies {
            let q = key_pos(keys, v, #[trigger] keys[j]);
            &&& 0 <= q < v.len()
            &&& keys[v[q] as int] == keys[j]
            &&& ranks[j] <= ranks[v[q] as int]
            &&& ranks[j] == ranks[v[q] as int] ==> v[q] <= j
        } by {
            lemma_key_pos(keys, v, keys[j], n);
            let q = key_pos(keys, v, keys[j]);
            if j < m {
                lemma_key_pos(keys, w, keys[j], m);
                let pj = key_pos(keys, w, keys[j]);
                assert(keys[w[pj] as int] == keys[j]);
                // the winner of keys[j] before row i sits at pj; after row i,
                // v[pj] carries the same key, so q == pj by distinctness
                if v[pj] != w[pj] {
                    assert(pj == p);
                }
                assert(keys[v[pj] as int] == keys[j]);
                if q >= 0 && q != pj {
                    assert(keys[v[q] as int] != keys[v[pj] as int]);
                }
                if q < 0 {
                    assert(keys[v[pj] as int] != keys[j]);
                }
            } else {
                assert(j == i);
                if p < 0 {
                    assert(v[w.len() as int] == i as usize);
                    assert(keys[v[w.len() as int] as int] == k);
                    if q >= 0 && q != w.len() {
                        assert(keys[v[q] as int] != keys[v[w.len() as int] as int]);
                    }
                } else {
                    assert(keys[v[p] as int] == k);
                    if q >= 0 && q != p {
                        assert(keys[v[q] as int] != keys[v[p] as int]);
                    }
                }
            }
        }
    }
}

/// The indices of the rows to keep: one per distinct key, the one with the
/// highest rank, in the order in which the keys first occur. Of two rows of
/// one key with the same rank, the earlier is kept.
pub fn latest_indices(keys: &Vec<i32>, ranks: &Vec<i128>) -> (r: Vec<usize>)
    requires
        keys.len() == ranks.len(),
    ensures
        r@ == winners(keys@, ranks@, keys.len() as nat),
        well_formed_winners(keys@, r@, keys.len() as nat),
{
    let mut w: Vec<usize> = Vec::new();
    let mut i: usize = 0;
    while i < keys.len()
        invariant
            keys.len() == ranks.len(),
            i <= keys.len(),
            w@ == winners(keys@, ranks@, i as nat),
            well_formed_winners(keys@, w@, i as nat),
        decreases keys.len() - i,
    {
        proof {
            lemma_key_pos(keys@, w@, keys@[i as int], i as nat);
        }
        let k = keys[i];
        // search from the end, as key_pos does
        let mut j: usize = w.len();
        let mut found: bool = false;
        while !found && j > 0
            invariant
                j <= w.len(),
                well_formed_winners(keys@, w@, i as nat),
                i < keys.len(),
                k == keys@[i as int],
                found ==> 0 < j && keys@[w@[j - 1] as int] == k,
                !found ==> key_pos(keys@, w@, k) < j,
            decreases 2 * j + (if found { 0int } else { 1int }),
        {
            if keys[w[j - 1]] == k {
                found = true;
            } else {
                proof {
                    lemma_key_pos_prefix(keys@, w@, k, j as nat);
                }
                j = j - 1;
            }
        }
        if found {
            let p = j - 1;
            proof {
                lemma_key_pos_unique(keys@, w@, k, p as int, i as nat);
            }
            if ranks[i] > ranks[w[p]] {
                w.set(p, i);
            }
        } else {
            w.push(i);
        }
        proof {
            lemma_winners(keys@, ranks@, (i + 1) as nat);
        }
        i = i + 1;
    }
    w
}

proof fn lemma_key_pos_bound(keys: Seq<i32>, w: Seq<usize>, k: i32)
    ensures
        -1 <= key_pos(keys, w, k) < w.len(),
    decreases w.len(),
{
    if w.len() > 0 {
        lemma_key_pos_bound(keys, w.drop_last(), k);
    }
}

/// Searching from the end: once the entries at and after `j` do not carry
/// `k`, the position found lies below `j`.
proof fn lemma_key_pos_prefix(keys: Seq<i32>, w: Seq<usize>, k: i32, j: nat)
    requires
        0 < j <= w.len(),
        key_pos(keys, w, k) < j,
        keys[w[j - 1] as int] != k,
    ensures
        key_pos(keys, w, k) < j - 1,
    decreases w.len(),
{
    let d = w.drop_last();
    if w.len() > j {
        assert(keys[w.last() as int] != k);
        assert(d[j - 1] == w[j - 1]);
        lemma_key_pos_prefix(keys, d, k, j);
    } else {
        assert(w.last() == w[j - 1]);
        lemma_key_pos_bound(keys, d, k);
    }
}

proof fn lemma_key_pos_unique(keys: Seq<i32>, w: Seq<usize>, k: i32, p: int, n: nat)
    requires
        well_formed_winners(keys, w, n),
        n <= keys.len(),
        0 <= p < w.len(),
        keys[w[p] as int] == k,
    ensures
        key_pos(keys, w, k) == p,
{
    lemma_key_pos(keys, w, k, n);
    let q = key_pos(keys, w, k);
    if q != p {
        assert(keys[w[q] as int] != keys[w[p] as int]);
    }
}

} // verus!
