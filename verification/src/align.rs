//! Cross-camera detection alignment.
//!
//! Each worker enumerates the subjects of a frame in its own order.
//! Correspondence is recovered by sorting every batch by a shared
//! scalar key: the record's frame coordinate rotated by the
//! ground-plane angle between the cameras, `x * cos + y * sin`, kept
//! unnormalized (a positive scale does not change the order). The sort
//! is stable: records with equal keys keep their input order.

use vstd::prelude::*;
use crate::math::Theta;
use crate::math::MAX_THETA;
use crate::HasImagePosition;

verus! {

/// The alignment key of a record at `(x, y)`: its frame coordinate
/// projected onto the inter-camera direction. The frame-center offset
/// would shift every key of a batch equally, so raw coordinates sort
/// identically to centered ones.
pub open spec fn align_key(x: int, y: int, th: Theta) -> int {
    x * th.c + y * th.s
}

/// The keys of a whole batch.
pub open spec fn keys_of<T: HasImagePosition>(s: Seq<T>, th: Theta) -> Seq<int> {
    Seq::new(
        s.len(),
        |i: int| align_key(s[i].spec_image_x() as int, s[i].spec_image_y() as int, th),
    )
}

/// Strict order on (key, original position): ties in the key fall back
/// to the input order, which is what makes the sort stable.
pub open spec fn lex_lt(k1: int, i1: int, k2: int, i2: int) -> bool {
    k1 < k2 || (k1 == k2 && i1 < i2)
}

/// `ord` lists positions of `keys` in strictly ascending (key,
/// position) order; being strict, it is injective, so with full length
/// it is exactly the stable ascending permutation.
pub open spec fn is_sorted_perm(ord: Seq<int>, keys: Seq<int>) -> bool {
    &&& ord.len() == keys.len()
    &&& forall|a: int| 0 <= a < ord.len() ==> 0 <= #[trigger] ord[a] < keys.len()
    &&& forall|a: int, b: int|
        0 <= a < b < ord.len() ==> lex_lt(keys[#[trigger] ord[a]], ord[a], keys[#[trigger] ord[b]], ord[b])
}

/// `after` is `before` read through `ord`.
pub open spec fn seq_reordered<T>(before: Seq<T>, after: Seq<T>, ord: Seq<int>) -> bool {
    &&& after.len() == ord.len()
    &&& ord.len() == before.len()
    &&& forall|k: int| 0 <= k < ord.len() ==> #[trigger] after[k] == before[ord[k]]
}

/// `after` is the stable ascending reordering of `before` by the
/// alignment key — the unique permutation sorted by (key, input
/// position).
pub open spec fn stable_sorted<T: HasImagePosition>(before: Seq<T>, after: Seq<T>, th: Theta) -> bool {
    exists|ord: Seq<int>|
        #[trigger] is_sorted_perm(ord, keys_of(before, th)) && seq_reordered(before, after, ord)
}

/// Whether the key of record `idx` is at least the key at sorted
/// position `p` — the scan step of the insertion sort.
fn key_ge(keys: &Vec<i128>, ord: &Vec<usize>, p: usize, idx: usize) -> (r: bool)
    requires
        p < ord@.len(),
        idx < keys@.len(),
        ord@[p as int] < keys@.len(),
    ensures
        r == (keys@[ord@[p as int] as int] <= keys@[idx as int]),
{
    keys[ord[p]] <= keys[idx]
}

/// Reorders the batch into ascending alignment-key order, stably:
/// records with equal keys keep their input order. This aligns the
/// independently produced per-camera batches subject-by-subject.
pub fn sort_align<T: HasImagePosition + Copy>(preds: &mut Vec<T>, th: &Theta)
    requires
        th.wf(),
    ensures
        stable_sorted(old(preds)@, final(preds)@, *th),
{
    let ghost before = preds@;
    let n = preds.len();
    let mut keys: Vec<i128> = Vec::new();
    let mut i: usize = 0;
    while i < n
        invariant
            th.wf(),
            preds@ == before,
            n == before.len(),
            i <= n,
            keys@.len() == i as int,
            forall|j: int| 0 <= j < i ==> #[trigger] keys@[j] as int == keys_of(before, *th)[j],
        decreases n - i,
    {
        let x = preds[i].image_x();
        let y = preds[i].image_y();
        proof {
            crate::math::lemma_mul_le(x as int, th.c as int, 0x8000000000000000, MAX_THETA as int);
            crate::math::lemma_mul_le(y as int, th.s as int, 0x8000000000000000, MAX_THETA as int);
        }
        keys.push(x as i128 * th.c as i128 + y as i128 * th.s as i128);
        i = i + 1;
    }
    let mut ord: Vec<usize> = Vec::new();
    let mut idx: usize = 0;
    while idx < n
        invariant
            n == before.len(),
            keys@.len() == n as int,
            forall|j: int| 0 <= j < n ==> #[trigger] keys@[j] as int == keys_of(before, *th)[j],
            idx <= n,
            ord@.len() == idx as int,
            forall|a: int| 0 <= a < ord@.len() ==> #[trigger] ord@[a] < idx,
            forall|a: int, b: int|
                0 <= a < b < ord@.len() ==> lex_lt(
                    keys@[#[trigger] ord@[a] as int] as int,
                    ord@[a] as int,
                    keys@[#[trigger] ord@[b] as int] as int,
                    ord@[b] as int,
                ),
        decreases n - idx,
    {
        let mut p: usize = 0;
        while p < ord.len() && key_ge(&keys, &ord, p, idx)
            invariant
                n == before.len(),
                keys@.len() == n as int,
                idx < n,
                ord@.len() == idx as int,
                forall|a: int| 0 <= a < ord@.len() ==> #[trigger] ord@[a] < idx,
                p <= ord@.len(),
                forall|a: int|
                    0 <= a < p ==> keys@[#[trigger] ord@[a] as int] <= keys@[idx as int],
            decreases ord@.len() - p,
        {
            p = p + 1;
        }
        ord.insert(p, idx);
        proof {
            assert forall|a: int, b: int| 0 <= a < b < ord@.len() implies lex_lt(
                keys@[#[trigger] ord@[a] as int] as int,
                ord@[a] as int,
                keys@[#[trigger] ord@[b] as int] as int,
                ord@[b] as int,
            ) by {
                // pairs on one side of the insertion point keep their
                // order; a prefix key is at most the inserted key and the
                // prefix record comes earlier in the input; a suffix key
                // is strictly above the inserted key
            }
        }
        idx = idx + 1;
    }
    let mut out: Vec<T> = Vec::new();
    let mut k: usize = 0;
    while k < n
        invariant
            preds@ == before,
            n == before.len(),
            ord@.len() == n as int,
            forall|a: int| 0 <= a < ord@.len() ==> #[trigger] ord@[a] < n,
            k <= n,
            out@.len() == k as int,
            forall|m: int| 0 <= m < k ==> #[trigger] out@[m] == before[ord@[m] as int],
        decreases n - k,
    {
        out.push(preds[ord[k]]);
        k = k + 1;
    }
    let ghost ord_int = ord@.map_values(|u: usize| u as int);
    proof {
        assert(is_sorted_perm(ord_int, keys_of(before, *th)));
        assert(seq_reordered(before, out@, ord_int));
    }
    *preds = out;
}

/// Alignment determinism at zero rotation: with a pure-cosine rotation
/// pair (angle 0) the aligned batch is sorted by ascending x.
pub proof fn lemma_align_zero_sorts_by_x<T: HasImagePosition>(
    before: Seq<T>,
    after: Seq<T>,
    th: Theta,
)
    requires
        th.s == 0,
        th.c > 0,
        stable_sorted(before, after, th),
    ensures
        forall|a: int, b: int|
            0 <= a < b < after.len() ==> (#[trigger] after[a]).spec_image_x() <= (
            #[trigger] after[b]).spec_image_x(),
{
    let ord = choose|ord: Seq<int>|
        #[trigger] is_sorted_perm(ord, keys_of(before, th)) && seq_reordered(before, after, ord);
    assert forall|a: int, b: int| 0 <= a < b < after.len() implies (
    #[trigger] after[a]).spec_image_x() <= (#[trigger] after[b]).spec_image_x() by {
        let xa = before[ord[a]].spec_image_x() as int;
        let xb = before[ord[b]].spec_image_x() as int;
        assert(lex_lt(keys_of(before, th)[ord[a]], ord[a], keys_of(before, th)[ord[b]], ord[b]));
        assert(xa * th.c <= xb * th.c);
        assert(xa <= xb) by (nonlinear_arith)
            requires
                xa * th.c <= xb * th.c,
                th.c > 0,
        ;
    }
}

/// Alignment determinism at a quarter turn: with a pure-sine rotation
/// pair (angle 90 degrees) the aligned batch is sorted by ascending y.
pub proof fn lemma_align_quarter_sorts_by_y<T: HasImagePosition>(
    before: Seq<T>,
    after: Seq<T>,
    th: Theta,
)
    requires
        th.c == 0,
        th.s > 0,
        stable_sorted(before, after, th),
    ensures
        forall|a: int, b: int|
            0 <= a < b < after.len() ==> (#[trigger] after[a]).spec_image_y() <= (
            #[trigger] after[b]).spec_image_y(),
{
    let ord = choose|ord: Seq<int>|
        #[trigger] is_sorted_perm(ord, keys_of(before, th)) && seq_reordered(before, after, ord);
    assert forall|a: int, b: int| 0 <= a < b < after.len() implies (
    #[trigger] after[a]).spec_image_y() <= (#[trigger] after[b]).spec_image_y() by {
        let ya = before[ord[a]].spec_image_y() as int;
        let yb = before[ord[b]].spec_image_y() as int;
        assert(lex_lt(keys_of(before, th)[ord[a]], ord[a], keys_of(before, th)[ord[b]], ord[b]));
        assert(ya * th.s <= yb * th.s);
        assert(ya <= yb) by (nonlinear_arith)
            requires
                ya * th.s <= yb * th.s,
                th.s > 0,
        ;
    }
}

} // verus!
