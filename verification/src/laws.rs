//! The laws the storage obeys, stated over the views its contracts use and
//! proved once and for all.

use crate::bucket::lemma_place_write_wf;
use crate::bucket::lemma_take_write_wf;
use crate::bucket::BucketView;
use crate::cycle::Blocking32;
use crate::cycle::Cycle;
use crate::erased::AnyValue;
use crate::id::IdData;
use crate::storage::StorageView;
use vstd::prelude::*;

verus! {

/// Round trip: a fresh placement is immediately removable under its witness
/// and hands back exactly the placed value; once removed, neither a lookup
/// nor a second removal under the same witness succeeds. A lookup of the
/// fresh placement also succeeds, except when the written generation is
/// already exhausted (under `Blocking32`, a cell whose counter stands one
/// step below its maximum).
pub proof fn law_round_trip<C: Cycle>(v: BucketView<C>, cap: nat, value: AnyValue)
    requires
        v.wf(cap),
        v.allocated() + cap <= usize::MAX,
    ensures
        ({
            let (i, w) = v.place_pick();
            let v2 = v.place_write(cap, value);
            let v3 = v2.take_write(i as int);
            &&& v2.admits_take(i as int, w)
            &&& v2.cells[i as int].val == Some(value)
            &&& (!w.next_spec().over_spec() ==> v2.admits(i as int, w))
            &&& !v3.admits(i as int, w)
            &&& !v3.admits_take(i as int, w)
        }),
{
    lemma_place_write_wf(v, cap, value);
    let (i, w) = v.place_pick();
    let v2 = v.place_write(cap, value);
    assert(i < v2.len && v2.len <= v2.allocated());
    let t = crate::bucket::pool_trim(v.cells, v.pool);
    if t.len() > 0 {
        assert(v2.allocated() == v.allocated());
    } else {
        crate::bucket::lemma_walk_bounds(v.cells, v.count, v.len);
        assert(i <= v.count <= v.allocated());
        assert(crate::bucket::fresh_block::<C>(cap).len() == cap);
        assert(v2.cells == (if i == v.allocated() {
            v.cells + crate::bucket::fresh_block::<C>(cap)
        } else {
            v.cells
        }).update(i as int, crate::bucket::Cell { gen: w.next_spec(), val: Some(value) }));
        assert(v2.allocated() <= v.allocated() + cap);
    }
    lemma_take_write_wf(v2, cap, i as int);
}

/// Removing one cell leaves every other cell's lookups exactly as they were.
pub proof fn law_take_frame<C: Cycle>(v: BucketView<C>, cap: nat, i: int, j: int, w: C)
    requires
        v.wf(cap),
        v.live(i),
        i <= usize::MAX,
        j != i,
    ensures
        v.take_write(i).admits(j, w) == v.admits(j, w),
        v.take_write(i).admits_take(j, w) == v.admits_take(j, w),
{
    lemma_take_write_wf(v, cap, i);
}

/// A placement leaves every other cell's lookups exactly as they were: live
/// cells are stable across placements.
pub proof fn law_place_frame<C: Cycle>(
    v: BucketView<C>,
    cap: nat,
    value: AnyValue,
    j: int,
    w: C,
)
    requires
        v.wf(cap),
        j != v.place_pick().0 as int,
    ensures
        v.place_write(cap, value).admits(j, w) == v.admits(j, w),
        v.place_write(cap, value).admits_take(j, w) == v.admits_take(j, w),
{
    lemma_place_write_wf(v, cap, value);
    let (i, _) = v.place_pick();
    let v2 = v.place_write(cap, value);
    let t = crate::bucket::pool_trim(v.cells, v.pool);
    crate::bucket::lemma_pool_trim_shape(v.cells, v.pool);
    if t.len() == 0 {
        crate::bucket::lemma_walk_bounds(v.cells, v.count, v.len);
    }
    if 0 <= j < v.cells.len() {
        assert(v2.cells[j] == v.cells[j]);
        if v.len <= j && j < v2.len {
            assert(v.cells[j].val is None);
        }
    } else if 0 <= j < v2.cells.len() {
        assert(v2.cells[j] == crate::bucket::fresh_block::<C>(cap)[j - v.cells.len()]);
        assert(v2.cells[j].val is None);
    }
}

/// Under the default blocking policy a placement never chooses an exhausted
/// cell, and the generation it writes is strictly above the witness it
/// returns: generations at a reused index grow until saturation, and a
/// saturated index is never handed out again.
pub proof fn law_blocking_monotonic(v: BucketView<Blocking32>, cap: nat, value: AnyValue)
    requires
        v.wf(cap),
    ensures
        ({
            let (i, w) = v.place_pick();
            let v2 = v.place_write(cap, value);
            &&& !w.over_spec()
            &&& w.current_spec() < v2.cells[i as int].gen.current_spec()
            &&& forall|k: int|
                0 <= k < v.cells.len() && (#[trigger] v.cells[k]).gen.over_spec()
                    ==> k != i as int
        }),
{
    lemma_place_write_wf(v, cap, value);
    let (i, w) = v.place_pick();
    crate::cycle::blocking32_behavior(w);
    crate::bucket::lemma_pool_trim_shape(v.cells, v.pool);
    crate::bucket::lemma_walk_bounds(v.cells, v.count, v.len);
    let t = crate::bucket::pool_trim(v.cells, v.pool);
    if t.len() == 0 {
        let j = crate::bucket::walk_from(v.cells, v.count, v.len);
        if j < v.count {
            assert(!v.cells[j as int].gen.over_spec());
        } else if j < v.allocated() {
            assert(v.cells[j as int].gen == Blocking32::start_spec());
        }
    }
    assert(!w.over_spec());
    assert(v.place_write(cap, value).cells[i as int].gen == w.next_spec());
}

/// Whether the bucket's allocation is the least number of whole blocks that
/// covers its initialised cells.
pub open spec fn tight<C: Cycle>(v: BucketView<C>, cap: nat) -> bool {
    v.allocated() == ((v.count + cap - 1) / (cap as int)) * cap
}

/// A tight allocation is exactly a whole number of blocks that reaches the
/// initialised cells and overshoots them by less than one block.
proof fn lemma_tight_range(n: int, a: int, c: int)
    requires
        c >= 1,
        0 <= n <= a,
        a % c == 0,
        a - c < n,
    ensures
        a == ((n + c - 1) / c) * c,
{
    vstd::arithmetic::div_mod::lemma_fundamental_div_mod(a, c);
    let q = a / c;
    assert(a == c * q);
    let r = n + c - 1 - a;
    assert(0 <= r < c);
    vstd::arithmetic::div_mod::lemma_div_multiples_vanish_fancy(q, r, c);
    assert(c * q + r == n + c - 1);
    assert((n + c - 1) / c == q);
    vstd::arithmetic::mul::lemma_mul_is_commutative(q, c);
    assert(q * c == a);
}

/// What a tight allocation guarantees: whole blocks, covering the
/// initialised cells, by less than one block.
proof fn lemma_tight_bounds(n: int, a: int, c: int)
    requires
        c >= 1,
        n >= 0,
        a == ((n + c - 1) / c) * c,
    ensures
        a % c == 0,
        n <= a,
        a - c < n,
{
    let x = n + c - 1;
    vstd::arithmetic::div_mod::lemma_fundamental_div_mod(x, c);
    vstd::arithmetic::div_mod::lemma_mod_bound(x, c);
    let k = x / c;
    assert(x == c * k + x % c);
    assert(0 <= x % c < c);
    assert(a == k * c);
    vstd::arithmetic::mul::lemma_mul_is_commutative(k, c);
    assert(c * k == x - x % c);
    assert(n <= a);
    assert(a - c < n);
    vstd::arithmetic::div_mod::lemma_mod_multiples_vanish(k, 0, c);
    assert((c * k + 0int) % c == 0int % c);
    assert(0int % c == 0) by {
        vstd::arithmetic::div_mod::lemma_small_mod(0, c as nat);
    }
    assert(a % c == 0);
}

/// Block allocation: a placement into a tightly allocated bucket keeps it
/// tight, so after any run of placements into a fresh bucket the block count
/// is the least that covers them.
pub proof fn law_block_allocation<C: Cycle>(v: BucketView<C>, cap: nat, value: AnyValue)
    requires
        v.wf(cap),
        tight(v, cap),
    ensures
        tight(v.place_write(cap, value), cap),
{
    lemma_place_write_wf(v, cap, value);
    let (i, w) = v.place_pick();
    let v2 = v.place_write(cap, value);
    let t = crate::bucket::pool_trim(v.cells, v.pool);
    crate::bucket::lemma_pool_trim_shape(v.cells, v.pool);
    let c = cap as int;
    lemma_tight_bounds(v.count as int, v.allocated() as int, c);
    if t.len() > 0 {
        assert(v2.count == v.count && v2.allocated() == v.allocated());
    } else {
        crate::bucket::lemma_walk_bounds(v.cells, v.count, v.len);
        if i == v.allocated() {
            assert(v.count == v.allocated());
            assert(v2.count == v.count + 1);
            assert(v2.allocated() == v.allocated() + cap);
            assert(v2.allocated() % cap == 0) by {
                vstd::arithmetic::div_mod::lemma_mod_multiples_vanish(
                    1,
                    v.allocated() as int,
                    c,
                );
            }
            lemma_tight_range(v2.count as int, v2.allocated() as int, c);
        } else {
            assert(v2.allocated() == v.allocated());
            assert(v.count <= v2.count <= v.allocated());
            lemma_tight_range(v2.count as int, v2.allocated() as int, c);
        }
    }
}

/// Shrinking keeps whole blocks only: the kept allocation is a multiple of
/// the block capacity, at least `len`, and less than one block above it - the
/// least allocation in whole blocks that still covers the written range.
pub proof fn law_shrink_minimal<C: Cycle>(v: BucketView<C>, cap: nat)
    requires
        v.wf(cap),
    ensures
        v.shrink_write(cap).allocated() % cap == 0,
        v.len <= v.shrink_write(cap).allocated(),
        v.shrink_write(cap).allocated() < v.len + cap,
{
    let c = cap as int;
    let a = v.allocated() as int;
    let l = v.len as int;
    let x = a - l;
    vstd::arithmetic::div_mod::lemma_fundamental_div_mod(x, c);
    vstd::arithmetic::div_mod::lemma_mod_bound(x, c);
    let free = x / c;
    assert(free * c == x - x % c);
    let keep = a - free * c;
    assert(keep == l + x % c);
    vstd::arithmetic::div_mod::lemma_mod_multiples_vanish(-free, a, c);
    assert((c * (-free) + a) % c == a % c);
    vstd::arithmetic::mul::lemma_mul_is_commutative(c, -free);
    vstd::arithmetic::mul::lemma_mul_unary_negation(free, c);
    assert(keep == c * (-free) + a);
    assert(keep % c == 0);
    assert(v.shrink_write(cap).allocated() == keep);
}

/// Clearing drops every value but keeps every generation word, so placements
/// after a clear continue each cell's generation chain; resetting starts
/// every generation word over.
pub proof fn law_clear_versus_reset<C: Cycle>(v: BucketView<C>, cap: nat, k: int, w: C)
    requires
        v.wf(cap),
        0 <= k < v.allocated(),
    ensures
        v.clear_write().cells[k].gen == v.cells[k].gen,
        v.clear_write().cells[k].val is None,
        v.clear_write().len == 0,
        !v.clear_write().admits(k, w),
        !v.clear_write().admits_take(k, w),
        v.reset_write().cells[k].gen == C::start_spec(),
        v.reset_write().cells[k].val is None,
        v.reset_write().len == 0,
        !v.reset_write().admits(k, w),
        !v.reset_write().admits_take(k, w),
{
}

/// Clearing twice is the same as clearing once.
pub proof fn law_clear_idempotent<C: Cycle>(v: BucketView<C>, cap: nat)
    requires
        v.wf(cap),
    ensures
        v.clear_write().clear_write() == v.clear_write(),
{
    assert(v.clear_write().clear_write() =~= v.clear_write());
}

/// Rewriting a live cell's data in place - what a mutable lookup permits -
/// changes no verdict of any lookup: every identifier answers afterwards
/// exactly as it did before.
pub proof fn law_payload_update_preserves<C: Cycle>(
    v: BucketView<C>,
    cap: nat,
    i: int,
    a2: AnyValue,
    j: int,
    w: C,
)
    requires
        v.wf(cap),
        v.live(i),
    ensures
        ({
            let v2 = BucketView {
                token: v.token,
                cells: v.cells.update(i, crate::bucket::Cell { gen: v.cells[i].gen, val: Some(a2) }),
                len: v.len,
                count: v.count,
                pool: v.pool,
            };
            &&& v2.admits(j, w) == v.admits(j, w)
            &&& v2.admits_take(j, w) == v.admits_take(j, w)
        }),
{
}

/// An identifier that addresses a live cell keeps doing so while values are
/// placed elsewhere: a placement for another type, or at another index of the
/// same bucket, disturbs nothing.
pub proof fn law_place_preserves_contains<C: Cycle>(
    v: StorageView<C>,
    t: core::any::TypeId,
    a: AnyValue,
    d: IdData<C>,
)
    requires
        v.wf(),
        v.contains_data(d),
        d.token != t || (d.index as nat) != v.place_pick(t).0,
    ensures
        v.place_write(t, a).contains_data(d),
{
    let (sv, b) = v.with_bucket(t);
    let v2 = v.place_write(t, a);
    let bd = v.bucket_index_of(d.token);
    assert(0 <= bd < v.tokens.len() && v.tokens[bd] == d.token);
    if d.token != t {
        lemma_with_bucket_frame(v, t, d.token);
        assert(sv.buckets[sv.bucket_index_of(d.token)] == v.bucket_of(d.token));
        assert(b == sv.bucket_index_of(t));
        assert(sv.tokens[b] == t);
        assert(sv.bucket_index_of(d.token) != b);
        assert(v2.bucket_of(d.token) == sv.buckets[sv.bucket_index_of(d.token)]);
    } else {
        assert(sv == v && b == bd);
        let bv = sv.buckets[b];
        let (i, w) = bv.place_pick();
        let bv2 = bv.place_write(sv.cap, a);
        assert(v2.bucket_of(d.token) == bv2);
        assert(bv.admits(d.index as int, d.tag));
        assert(d.index as int != i as int);
        law_place_frame(bv, sv.cap, a, d.index as int, d.tag);
        assert(bv2.admits(d.index as int, d.tag));
    }
}

/// An identifier that addresses a live cell keeps doing so while another
/// identifier - another type, or another index of the same bucket - is
/// removed, and an identifier once removed answers to nothing.
pub proof fn law_remove_preserves_others<C: Cycle>(v: StorageView<C>, d: IdData<C>, d2: IdData<
    C,
>)
    requires
        v.wf(),
        v.takes_data(d),
        v.contains_data(d2),
        d.token != d2.token || d.index != d2.index,
    ensures
        v.take_write(d).contains_data(d2),
        !v.take_write(d).contains_data(d),
        !v.take_write(d).takes_data(d),
{
    let b = v.bucket_index_of(d.token);
    let b2 = v.bucket_index_of(d2.token);
    let v2 = v.take_write(d);
    assert(0 <= b < v.tokens.len() && v.tokens[b] == d.token);
    assert(0 <= b2 < v.tokens.len() && v.tokens[b2] == d2.token);
    lemma_take_write_wf(v.buckets[b], v.cap, d.index as int);
    assert(v2.tokens == v.tokens);
    assert(v2.bucket_index_of(d.token) == b);
    assert(v2.bucket_index_of(d2.token) == b2);
    if d.token != d2.token {
        assert(b != b2);
        assert(v2.buckets[b2] == v.buckets[b2]);
    } else {
        assert(b == b2);
        let bv = v.buckets[b];
        assert(bv.wf(v.cap));
        let bv2 = bv.take_write(d.index as int);
        assert(v2.buckets[b2] == bv2);
        assert(bv.admits(d2.index as int, d2.tag));
        assert(d2.index as int != d.index as int);
        assert((d2.index as int) < bv.cells.len());
        assert(bv2.cells[d2.index as int] == bv.cells[d2.index as int]);
        assert(bv2.admits(d2.index as int, d2.tag));
    }
}

/// A fresh placement is immediately visible through the identifier it
/// returns, unless the written generation is already exhausted: the round
/// trip at the storage surface.
pub proof fn law_place_visible<C: Cycle>(
    v: StorageView<C>,
    t: core::any::TypeId,
    a: AnyValue,
    d: IdData<C>,
)
    requires
        v.wf(),
        d.token == t,
        d.index as nat == v.place_pick(t).0,
        d.tag == v.place_pick(t).1,
    ensures
        !d.tag.next_spec().over_spec() ==> v.place_write(t, a).contains_data(d),
{
    let (sv, b) = v.with_bucket(t);
    lemma_with_bucket_wf(v, t);
    let bv = sv.buckets[b];
    lemma_place_write_wf(bv, sv.cap, a);
    let (i, w) = bv.place_pick();
    let bv2 = bv.place_write(sv.cap, a);
    let v2 = v.place_write(t, a);
    assert(v2.tokens == sv.tokens);
    assert(sv.tokens[b] == t);
    assert(sv.tokens.contains(t));
    let b2 = v2.bucket_index_of(t);
    assert(0 <= b2 < v2.tokens.len() && v2.tokens[b2] == t);
    assert(b2 == b) by {
        if b2 != b {
            assert(sv.tokens[b2] == t && sv.tokens[b] == t);
        }
    }
    assert(v2.bucket_of(t) == bv2);
    if !d.tag.next_spec().over_spec() {
        assert(bv2.admits(i as int, w));
        assert(d.index as int == i as int);
    }
}

/// Making a type's bucket present keeps the storage well-formed, and the
/// returned index names a bucket carrying that token.
proof fn lemma_with_bucket_wf<C: Cycle>(v: StorageView<C>, t: core::any::TypeId)
    requires
        v.wf(),
    ensures
        ({
            let (sv, b) = v.with_bucket(t);
            &&& sv.wf()
            &&& 0 <= b < sv.buckets.len()
            &&& sv.tokens[b] == t
            &&& sv.buckets[b].wf(sv.cap)
            &&& sv.cap == v.cap
        }),
{
    let (sv, b) = v.with_bucket(t);
    if v.tokens.contains(t) {
        let c = v.bucket_index_of(t);
        assert(0 <= c < v.tokens.len() && v.tokens[c] == t);
    } else {
        assert(sv.tokens[b] == t);
        assert forall|b1: int, b2: int|
            0 <= b1 < b2 < sv.tokens.len() implies sv.tokens[b1] != sv.tokens[b2] by {
            if b2 == b {
                assert(v.tokens[b1] != t) by {
                    assert(!v.tokens.contains(t));
                }
            }
        }
        assert forall|k: int|
            0 <= k < sv.buckets.len() implies (#[trigger] sv.buckets[k]).wf(sv.cap)
            && sv.buckets[k].token == sv.tokens[k] by {
            if k < b {
                assert(sv.buckets[k] == v.buckets[k]);
            } else {
                assert(sv.buckets[k] == crate::storage::empty_bucket::<C>(t));
                vstd::arithmetic::div_mod::lemma_small_mod(0, sv.cap);
                assert(crate::storage::empty_bucket::<C>(t).wf(sv.cap));
            }
        }
        assert(sv.wf());
    }
}

/// Registering one more type leaves every other type's bucket where it was.
proof fn lemma_with_bucket_frame<C: Cycle>(v: StorageView<C>, t: core::any::TypeId, u: core::any::TypeId)
    requires
        v.wf(),
        v.tokens.contains(u),
        u != t,
    ensures
        ({
            let (sv, b) = v.with_bucket(t);
            &&& sv.tokens.contains(u)
            &&& sv.bucket_index_of(u) == v.bucket_index_of(u)
            &&& sv.buckets[sv.bucket_index_of(u)] == v.bucket_of(u)
            &&& (v.tokens.contains(t) ==> sv.bucket_index_of(t) == b && sv == v)
            &&& (!v.tokens.contains(t) ==> b == v.tokens.len() && sv.tokens[b] == t)
        }),
{
    let (sv, b) = v.with_bucket(t);
    let bu = v.bucket_index_of(u);
    assert(0 <= bu < v.tokens.len() && v.tokens[bu] == u);
    if v.tokens.contains(t) {
        assert(sv == v);
    } else {
        assert(sv.tokens == v.tokens.push(t));
        assert(sv.tokens[bu] == u);
        assert(sv.tokens.contains(u));
        let bu2 = sv.bucket_index_of(u);
        assert(0 <= bu2 < sv.tokens.len() && sv.tokens[bu2] == u);
        if bu2 == sv.tokens.len() - 1 {
            assert(sv.tokens[bu2] == t);
        }
        assert(bu2 < v.tokens.len() && v.tokens[bu2] == u);
        if bu2 != bu {
            assert(false);
        }
        assert(sv.buckets[bu] == v.buckets[bu]);
    }
}

} // verus!
