//! The mathematical model of deterministic candidate selection.
//!
//! A candidate list is drawn from the configured proposer pool by walking a
//! hash chain seeded with the round number: each step advances the chain,
//! picks the pool element at the chain value modulo the pool size, and
//! removes the pick from the pool by swap-with-last removal. The removal
//! strategy determines the positions used by later steps, so it is part of
//! the model, not an implementation detail.

use vstd::prelude::*;

use crate::hashing::sip_hash_of;
use crate::types::Author;

verus! {

/// The pool after swap-with-last removal of the element at `idx`: the last
/// element overwrites position `idx` and the pool shrinks by one.
pub open spec fn swap_removed(pool: Seq<Author>, idx: int) -> Seq<Author> {
    pool.update(idx, pool.last()).drop_last()
}

/// The ranked candidate list drawn from `pool` by continuing the hash chain
/// at `h` for `k` further picks; rank 0 stands first.
pub open spec fn select_candidates(pool: Seq<Author>, h: u64, k: nat) -> Seq<Author>
    decreases k,
{
    if k == 0 || pool.len() == 0 {
        Seq::empty()
    } else {
        let h2 = sip_hash_of(h);
        let idx = (h2 as int) % (pool.len() as int);
        seq![pool[idx]] + select_candidates(swap_removed(pool, idx), h2, (k - 1) as nat)
    }
}

/// The rank of `a` in the candidate list `s`: the first index that holds
/// `a`, or -1 when `a` does not appear at all.
pub open spec fn rank_in(s: Seq<Author>, a: Author) -> int
    decreases s.len(),
{
    if s.len() == 0 {
        -1
    } else if s[0] == a {
        0
    } else {
        let r = rank_in(s.drop_first(), a);
        if r < 0 {
            -1
        } else {
            r + 1
        }
    }
}

/// `rank_in` finds exactly the first occurrence: it is non-negative exactly
/// when the author appears, and every earlier position holds someone else.
pub proof fn lemma_rank_in_props(s: Seq<Author>, a: Author)
    ensures
        rank_in(s, a) >= -1,
        s.contains(a) <==> rank_in(s, a) >= 0,
        rank_in(s, a) >= 0 ==> rank_in(s, a) < s.len() && s[rank_in(s, a)] == a,
        forall|j: int| 0 <= j < rank_in(s, a) ==> s[j] != a,
    decreases s.len(),
{
    if s.len() == 0 {
        assert(!s.contains(a));
    } else if s[0] == a {
        assert(s.contains(a));
    } else {
        let t = s.drop_first();
        lemma_rank_in_props(t, a);
        assert(forall|j: int| 0 <= j < t.len() ==> t[j] == s[j + 1]);
        if s.contains(a) {
            let i = choose|i: int| 0 <= i < s.len() && s[i] == a;
            assert(t[i - 1] == a);
            assert(t.contains(a));
        }
        if t.contains(a) {
            let i = choose|i: int| 0 <= i < t.len() && t[i] == a;
            assert(s[i + 1] == a);
            assert(s.contains(a));
        }
        let r = rank_in(s, a);
        if r >= 0 {
            assert forall|j: int| 0 <= j < r implies s[j] != a by {
                if j >= 1 {
                    assert(t[j - 1] != a);
                }
            }
        }
    }
}

/// Swap-with-last removal keeps every element but the removed one, keeps
/// distinctness, and (when the pool is distinct) removes the picked element
/// from the pool for good.
pub proof fn lemma_swap_removed(pool: Seq<Author>, idx: int)
    requires
        0 <= idx < pool.len(),
    ensures
        swap_removed(pool, idx).len() == pool.len() - 1,
        forall|a: Author| swap_removed(pool, idx).contains(a) ==> pool.contains(a),
        pool.no_duplicates() ==> swap_removed(pool, idx).no_duplicates(),
        pool.no_duplicates() ==> !swap_removed(pool, idx).contains(pool[idx]),
{
    let t = swap_removed(pool, idx);
    let n = pool.len() as int;
    assert(forall|j: int|
        0 <= j < n - 1 ==> t[j] == (if j == idx {
            pool[n - 1]
        } else {
            pool[j]
        }));
    assert forall|a: Author| t.contains(a) implies pool.contains(a) by {
        let j = choose|j: int| 0 <= j < t.len() && t[j] == a;
        if j == idx {
            assert(pool[n - 1] == a);
        } else {
            assert(pool[j] == a);
        }
    }
    if pool.no_duplicates() {
        assert forall|i: int, j: int|
            0 <= i < t.len() && 0 <= j < t.len() && i != j implies t[i] != t[j] by {
            let pi: int = if i == idx { n - 1 } else { i };
            let pj: int = if j == idx { n - 1 } else { j };
            assert(t[i] == pool[pi] && t[j] == pool[pj] && pi != pj);
        }
        if t.contains(pool[idx]) {
            let j = choose|j: int| 0 <= j < t.len() && t[j] == pool[idx];
            if j == idx {
                assert(pool[n - 1] == pool[idx] && idx != n - 1);
            } else {
                assert(pool[j] == pool[idx] && j != idx);
            }
            assert(false);
        }
    }
}

/// The selected candidate list has length exactly `k`, repeats no author,
/// and draws every candidate from the pool.
pub proof fn lemma_select_candidates_props(pool: Seq<Author>, h: u64, k: nat)
    requires
        pool.no_duplicates(),
        k <= pool.len(),
    ensures
        select_candidates(pool, h, k).len() == k,
        select_candidates(pool, h, k).no_duplicates(),
        forall|j: int|
            0 <= j < k ==> pool.contains(#[trigger] select_candidates(pool, h, k)[j]),
    decreases k,
{
    if k == 0 {
    } else {
        let h2 = sip_hash_of(h);
        let n = pool.len() as int;
        let idx = (h2 as int) % n;
        assert(0 <= idx < n);
        lemma_swap_removed(pool, idx);
        let rest = swap_removed(pool, idx);
        lemma_select_candidates_props(rest, h2, (k - 1) as nat);
        let tail = select_candidates(rest, h2, (k - 1) as nat);
        let s = select_candidates(pool, h, k);
        assert(s == seq![pool[idx]] + tail);
        assert(s.len() == k);
        assert(forall|j: int| 1 <= j < s.len() ==> s[j] == tail[j - 1]);
        assert forall|j: int| 0 <= j < k implies pool.contains(#[trigger] s[j]) by {
            if j == 0 {
                assert(pool[idx] == s[0]);
                assert(pool.contains(pool[idx]));
            } else {
                assert(rest.contains(tail[j - 1]));
            }
        }
        assert forall|i: int, j: int|
            0 <= i < s.len() && 0 <= j < s.len() && i != j implies s[i] != s[j] by {
            if i == 0 || j == 0 {
                let other: int = if i == 0 { j } else { i };
                assert(rest.contains(tail[other - 1]));
                assert(!rest.contains(pool[idx]));
            }
        }
    }
}

} // verus!
