//! A type-erased, block-allocated container of generational cells for one
//! concrete element type.

use crate::cycle::Cycle;
use crate::erased::type_key_eq;
use crate::erased::AnyValue;
use core::any::TypeId;
use vstd::prelude::*;

verus! {

/// The number of cells one allocation block holds: strictly positive,
/// chosen once per [`crate::storage::Storage`] and passed to every bucket
/// operation.
#[derive(Clone, Copy)]
pub struct BlockCapacity(usize);

impl BlockCapacity {
    /// The capacity as a number.
    pub closed spec fn spec_value(self) -> nat {
        self.0 as nat
    }

    pub fn new(capacity: usize) -> (r: Self)
        requires
            capacity >= 1,
        ensures
            r.spec_value() == capacity,
    {
        BlockCapacity(capacity)
    }

    pub fn value(&self) -> (r: usize)
        ensures
            r as nat == self.spec_value(),
    {
        self.0
    }
}

/// One slot of a bucket: a generation counter that survives the data, and
/// the data itself while the slot is occupied.
pub struct Cell<C> {
    pub gen: C,
    pub val: Option<AnyValue>,
}

/// A bucket as the specification sees it.
///
/// `cells` covers every allocated cell; `len` is the exclusive upper bound of
/// indices ever written in this lifetime; `count` is the high-water mark of
/// cells whose generation word carries history (`len <= count`); `pool` holds
/// the indices below `len` whose data was taken out and that wait for reuse.
#[verifier::ext_equal]
pub struct BucketView<C> {
    pub token: TypeId,
    pub cells: Seq<Cell<C>>,
    pub len: nat,
    pub count: nat,
    pub pool: Seq<usize>,
}

impl<C: Cycle> BucketView<C> {
    /// How many cells are allocated.
    pub open spec fn allocated(self) -> nat {
        self.cells.len()
    }

    /// Whether index `i` holds data.
    pub open spec fn live(self, i: int) -> bool {
        0 <= i < self.len && self.cells[i].val is Some
    }

    /// Whether a lookup with `witness` succeeds at `i`: the slot is live, its
    /// generation is the witness's successor, and it is not exhausted.
    pub open spec fn admits(self, i: int, witness: C) -> bool {
        &&& self.live(i)
        &&& self.cells[i].gen == witness.next_spec()
        &&& !self.cells[i].gen.over_spec()
    }

    /// Whether a removal with `witness` succeeds at `i`: as [`Self::admits`],
    /// but an exhausted slot can still be emptied.
    pub open spec fn admits_take(self, i: int, witness: C) -> bool {
        &&& self.live(i)
        &&& self.cells[i].gen == witness.next_spec()
    }

    /// The bucket's well-formedness under block capacity `cap`.
    pub open spec fn wf(self, cap: nat) -> bool {
        &&& cap >= 1
        &&& self.allocated() % cap == 0
        &&& self.count <= self.allocated()
        &&& self.len <= self.count
        &&& forall|i: int|
            self.len <= i < self.allocated() ==> (#[trigger] self.cells[i]).val is None
        &&& forall|i: int|
            self.count <= i < self.allocated() ==> (#[trigger] self.cells[i]).gen
                == C::start_spec()
        &&& forall|k: int|
            0 <= k < self.pool.len() ==> (#[trigger] self.pool[k]) < self.len
        &&& forall|k: int|
            0 <= k < self.pool.len() ==> self.cells[#[trigger] self.pool[k] as int].val
                is None
        &&& forall|k1: int, k2: int|
            0 <= k1 < k2 < self.pool.len() ==> self.pool[k1] != self.pool[k2]
    }
}

/// The reuse pool with its exhausted tail removed: candidates are popped from
/// the back, and a candidate whose generation is exhausted is discarded for
/// good.
pub open spec fn pool_trim<C: Cycle>(cells: Seq<Cell<C>>, pool: Seq<usize>) -> Seq<usize>
    decreases pool.len(),
{
    if pool.len() == 0 {
        pool
    } else if cells[pool.last() as int].gen.over_spec() {
        pool_trim(cells, pool.drop_last())
    } else {
        pool
    }
}

/// The first index at or after `j` that is not an exhausted leftover: fresh
/// placement walks over banned cells, leaving them behind for good.
pub open spec fn walk_from<C: Cycle>(cells: Seq<Cell<C>>, count: nat, j: nat) -> nat
    decreases count - j,
{
    if j < count && cells[j as int].gen.over_spec() {
        walk_from(cells, count, (j + 1) as nat)
    } else {
        j
    }
}

/// A block of `cap` virgin cells.
pub open spec fn fresh_block<C: Cycle>(cap: nat) -> Seq<Cell<C>> {
    Seq::new(cap, |k: int| Cell { gen: C::start_spec(), val: None })
}

impl<C: Cycle> BucketView<C> {
    /// The index the next placement takes and the generation witness it
    /// returns: the newest usable pool entry, else the first usable index at
    /// or past `len`.
    pub open spec fn place_pick(self) -> (nat, C) {
        let trimmed = pool_trim(self.cells, self.pool);
        if trimmed.len() > 0 {
            let i = trimmed.last() as nat;
            (i, self.cells[i as int].gen)
        } else {
            let i = walk_from(self.cells, self.count, self.len);
            if i < self.allocated() {
                (i, self.cells[i as int].gen)
            } else {
                (i, C::start_spec())
            }
        }
    }

    /// The bucket after the next placement writes `value`: the chosen cell
    /// holds the value under the advanced generation, the pool loses its
    /// exhausted tail and the chosen entry, and a fresh placement may append
    /// one block.
    pub open spec fn place_write(self, cap: nat, value: AnyValue) -> Self {
        let (i, w) = self.place_pick();
        let trimmed = pool_trim(self.cells, self.pool);
        if trimmed.len() > 0 {
            BucketView {
                token: self.token,
                cells: self.cells.update(
                    i as int,
                    Cell { gen: w.next_spec(), val: Some(value) },
                ),
                len: self.len,
                count: self.count,
                pool: trimmed.drop_last(),
            }
        } else {
            let cells1 = if i == self.allocated() {
                self.cells + fresh_block(cap)
            } else {
                self.cells
            };
            BucketView {
                token: self.token,
                cells: cells1.update(i as int, Cell { gen: w.next_spec(), val: Some(value) }),
                len: (i + 1) as nat,
                count: if self.count >= i + 1 {
                    self.count
                } else {
                    (i + 1) as nat
                },
                pool: trimmed,
            }
        }
    }

    /// The bucket after a successful removal at `i`: the data leaves, the
    /// generation word stays, and the slot either shortens `len` (when it was
    /// the newest) or joins the reuse pool.
    pub open spec fn take_write(self, i: int) -> Self {
        let cells2 = self.cells.update(i, Cell { gen: self.cells[i].gen, val: None });
        if i == self.len - 1 {
            BucketView {
                token: self.token,
                cells: cells2,
                len: (self.len - 1) as nat,
                count: self.count,
                pool: self.pool,
            }
        } else {
            BucketView {
                token: self.token,
                cells: cells2,
                len: self.len,
                count: self.count,
                pool: self.pool.push(i as usize),
            }
        }
    }

    /// The bucket after `clear`: all data dropped, `len` back to zero, the
    /// pool emptied, and every generation word kept so that later placements
    /// continue the chain.
    pub open spec fn clear_write(self) -> Self {
        BucketView {
            token: self.token,
            cells: Seq::new(self.allocated(), |i: int| Cell { gen: self.cells[i].gen, val: None }),
            len: 0,
            count: self.count,
            pool: Seq::empty(),
        }
    }

    /// The bucket after `reset`: as `clear`, but every generation word starts
    /// over and exhausted cells become usable again.
    pub open spec fn reset_write(self) -> Self {
        BucketView {
            token: self.token,
            cells: Seq::new(self.allocated(), |i: int| Cell { gen: C::start_spec(), val: None }),
            len: 0,
            count: 0,
            pool: Seq::empty(),
        }
    }

    /// The bucket after `shrink_to_fit`: whole trailing blocks not needed by
    /// `len` are released, and the kept cells past `len` become virgin.
    pub open spec fn shrink_write(self, cap: nat) -> Self {
        let keep = (self.allocated() - ((self.allocated() - self.len) / (cap as int)) * cap) as nat;
        BucketView {
            token: self.token,
            cells: Seq::new(
                keep,
                |i: int|
                    if i < self.len {
                        self.cells[i]
                    } else {
                        Cell { gen: C::start_spec(), val: None }
                    },
            ),
            len: self.len,
            count: self.len,
            pool: self.pool,
        }
    }
}

/// The trimmed pool is a prefix of the pool, and its last entry, if any, is
/// not exhausted.
pub proof fn lemma_pool_trim_shape<C: Cycle>(cells: Seq<Cell<C>>, pool: Seq<usize>)
    ensures
        pool_trim(cells, pool).len() <= pool.len(),
        pool_trim(cells, pool) == pool.subrange(0, pool_trim(cells, pool).len() as int),
        pool_trim(cells, pool).len() > 0 ==> !cells[pool_trim(cells, pool).last() as int].gen
            .over_spec(),
    decreases pool.len(),
{
    if pool.len() == 0 {
        assert(pool_trim(cells, pool) =~= pool.subrange(0, 0));
    } else if cells[pool.last() as int].gen.over_spec() {
        lemma_pool_trim_shape(cells, pool.drop_last());
        let t = pool_trim(cells, pool);
        assert(t == pool_trim(cells, pool.drop_last()));
        assert(pool.drop_last().subrange(0, t.len() as int) =~= pool.subrange(
            0,
            t.len() as int,
        ));
    } else {
        assert(pool_trim(cells, pool) =~= pool.subrange(0, pool.len() as int));
    }
}

/// The fresh walk lands between its start and `count`, inclusive, on an
/// index that is not an exhausted leftover.
pub proof fn lemma_walk_bounds<C: Cycle>(cells: Seq<Cell<C>>, count: nat, j: nat)
    requires
        j <= count,
    ensures
        j <= walk_from(cells, count, j) <= count,
        walk_from(cells, count, j) < count ==> !cells[walk_from(
            cells,
            count,
            j,
        ) as int].gen.over_spec(),
    decreases count - j,
{
    if j < count && cells[j as int].gen.over_spec() {
        lemma_walk_bounds(cells, count, (j + 1) as nat);
    }
}

/// Placement keeps the bucket well-formed, and the chosen index lies below
/// the new `len`.
pub proof fn lemma_place_write_wf<C: Cycle>(v: BucketView<C>, cap: nat, value: AnyValue)
    requires
        v.wf(cap),
    ensures
        ({
            let (i, w) = v.place_pick();
            let v2 = v.place_write(cap, value);
            &&& v2.wf(cap)
            &&& i < v2.len
            &&& v2.len <= v2.allocated()
            &&& v2.cells[i as int].gen == w.next_spec()
            &&& v2.cells[i as int].val == Some(value)
            &&& !w.over_spec() || i >= v.count
        }),
{
    let (i, w) = v.place_pick();
    let v2 = v.place_write(cap, value);
    let t = pool_trim(v.cells, v.pool);
    lemma_pool_trim_shape(v.cells, v.pool);
    if t.len() > 0 {
        assert(forall|k: int|
            0 <= k < t.len() ==> #[trigger] t[k] == v.pool.subrange(0, t.len() as int)[k]);
        assert(forall|k: int| 0 <= k < t.len() ==> #[trigger] t[k] == v.pool[k]);
        assert(i == t.last() as nat && i < v.len);
        assert(v2.cells.len() == v.cells.len());
        assert forall|k: int| v2.len <= k < v2.allocated() implies (
        #[trigger] v2.cells[k]).val is None by {
            assert(v2.cells[k] == v.cells[k]);
        }
        assert forall|k: int| v2.count <= k < v2.allocated() implies (
        #[trigger] v2.cells[k]).gen == C::start_spec() by {
            assert(v2.cells[k] == v.cells[k]);
        }
        assert forall|k: int| 0 <= k < v2.pool.len() implies (#[trigger] v2.pool[k])
            < v2.len by {
            assert(v2.pool[k] == t[k] && t[k] == v.pool[k]);
        }
        assert forall|k: int| 0 <= k < v2.pool.len() implies v2.cells[(
        #[trigger] v2.pool[k]) as int].val is None by {
            assert(v2.pool[k] == t[k] && t[k] == v.pool[k]);
            assert(v.pool[t.len() - 1] == t.last());
            assert(v.pool[k] != t.last());
            assert(v2.cells[v.pool[k] as int] == v.cells[v.pool[k] as int]);
        }
        assert forall|k1: int, k2: int| 0 <= k1 < k2 < v2.pool.len() implies v2.pool[k1]
            != v2.pool[k2] by {
            assert(v2.pool[k1] == v.pool[k1] && v2.pool[k2] == v.pool[k2]);
        }
        assert(v2.wf(cap));
    } else {
        lemma_walk_bounds(v.cells, v.count, v.len);
        assert(i == walk_from(v.cells, v.count, v.len));
        assert(v.len <= i <= v.count);
        let cells1 = if i == v.allocated() {
            v.cells + fresh_block(cap)
        } else {
            v.cells
        };
        if i == v.allocated() {
            assert(v.count == v.allocated());
            assert(v2.allocated() == v.allocated() + cap);
            assert(v2.allocated() % cap == 0) by (nonlinear_arith)
                requires
                    cap >= 1,
                    v.allocated() % cap == 0,
                    v2.allocated() == v.allocated() + cap,
            ;
        } else {
            assert(cells1 == v.cells);
            assert(i < v.allocated());
        }
        assert(v2.cells == cells1.update(i as int, Cell { gen: w.next_spec(), val: Some(value) }));
        assert(v2.len == i + 1 && v2.len <= v2.allocated());
        assert(v2.count <= v2.allocated());
        assert forall|k: int| v2.len <= k < v2.allocated() implies (
        #[trigger] v2.cells[k]).val is None by {
            assert(k != i as int);
            if k < v.allocated() {
                assert(v2.cells[k] == v.cells[k]);
                assert(v.len <= k);
            } else {
                assert(v2.cells[k] == fresh_block::<C>(cap)[k - v.allocated()]);
            }
        }
        assert forall|k: int| v2.count <= k < v2.allocated() implies (
        #[trigger] v2.cells[k]).gen == C::start_spec() by {
            assert(k != i as int);
            if k < v.allocated() {
                assert(v2.cells[k] == v.cells[k]);
                assert(v.count <= k);
            } else {
                assert(v2.cells[k] == fresh_block::<C>(cap)[k - v.allocated()]);
            }
        }
        assert(v2.pool.len() == 0);
        assert(v2.wf(cap));
    }
}

/// Removal keeps the bucket well-formed.
pub proof fn lemma_take_write_wf<C: Cycle>(v: BucketView<C>, cap: nat, i: int)
    requires
        v.wf(cap),
        v.live(i),
        i <= usize::MAX,
    ensures
        v.take_write(i).wf(cap),
        !v.take_write(i).live(i),
{
    let v2 = v.take_write(i);
    assert forall|k: int| 0 <= k < v.pool.len() implies (#[trigger] v.pool[k]) as int
        != i by {
        assert(v.cells[v.pool[k] as int].val is None);
    }
    if i == v.len - 1 {
        assert forall|k: int| 0 <= k < v2.pool.len() implies (#[trigger] v2.pool[k])
            < v2.len by {
            assert(v.pool[k] as int != i);
        }
        assert(v2.wf(cap));
    } else {
        assert forall|k: int| 0 <= k < v2.pool.len() implies v2.cells[(
        #[trigger] v2.pool[k]) as int].val is None by {
            if k < v.pool.len() {
                assert(v2.pool[k] == v.pool[k]);
                assert(v.pool[k] as int != i);
            } else {
                assert(v2.pool[k] as int == i);
            }
        }
        assert forall|k1: int, k2: int| 0 <= k1 < k2 < v2.pool.len() implies v2.pool[k1]
            != v2.pool[k2] by {
            if k2 == v.pool.len() {
                assert(v2.pool[k1] == v.pool[k1]);
                assert(v.pool[k1] as int != i);
            }
        }
        assert(v2.wf(cap));
    }
}

/// Rewriting the data of a live slot in place keeps the bucket well-formed.
pub proof fn lemma_payload_update_wf<C: Cycle>(
    v: BucketView<C>,
    cap: nat,
    i: int,
    value: AnyValue,
)
    requires
        v.wf(cap),
        v.live(i),
        i <= usize::MAX,
    ensures
        (BucketView {
            token: v.token,
            cells: v.cells.update(i, Cell { gen: v.cells[i].gen, val: Some(value) }),
            len: v.len,
            count: v.count,
            pool: v.pool,
        }).wf(cap),
{
    let v2 = BucketView {
        token: v.token,
        cells: v.cells.update(i, Cell { gen: v.cells[i].gen, val: Some(value) }),
        len: v.len,
        count: v.count,
        pool: v.pool,
    };
    assert forall|k: int| 0 <= k < v2.pool.len() implies v2.cells[(
    #[trigger] v2.pool[k]) as int].val is None by {
        assert(v.cells[v.pool[k] as int].val is None);
        assert(v.pool[k] as int != i);
    }
    assert(v2.wf(cap));
}

/// A type-erased, block-allocated container of generational cells for one
/// concrete element type, identified by the token captured at construction.
pub struct Bucket<C: Cycle> {
    token: TypeId,
    cells: Vec<Cell<C>>,
    len: usize,
    count: usize,
    pool: Vec<usize>,
}

impl<C: Cycle> View for Bucket<C> {
    type V = BucketView<C>;

    closed spec fn view(&self) -> BucketView<C> {
        BucketView {
            token: self.token,
            cells: self.cells@,
            len: self.len as nat,
            count: self.count as nat,
            pool: self.pool@,
        }
    }
}

impl<C: Cycle> Bucket<C> {
    /// An empty bucket for the element type behind `token`.
    pub fn new(token: TypeId) -> (r: Self)
        ensures
            r@ == (BucketView::<C> {
                token,
                cells: Seq::empty(),
                len: 0,
                count: 0,
                pool: Seq::empty(),
            }),
    {
        let r = Bucket { token, cells: Vec::new(), len: 0, count: 0, pool: Vec::new() };
        proof {
            assert(r@ =~= BucketView::<C> {
                token,
                cells: Seq::empty(),
                len: 0,
                count: 0,
                pool: Seq::empty(),
            });
        }
        r
    }

    /// How many cells are allocated.
    pub fn capacity(&self) -> (r: usize)
        ensures
            r as nat == self@.allocated(),
    {
        self.cells.len()
    }

    /// Places `value` into the bucket: `None` exactly when `token` is not the
    /// bucket's token; otherwise the chosen index and the generation witness
    /// of the written cell, as [`BucketView::place_pick`] describes.
    pub fn try_place(&mut self, cap: BlockCapacity, token: &TypeId, value: AnyValue) -> (r:
        Option<(usize, C)>)
        requires
            old(self)@.wf(cap.spec_value()),
        ensures
            (r is Some) == (*token == old(self)@.token),
            *token != old(self)@.token ==> final(self)@ == old(self)@,
            *token == old(self)@.token ==> ({
                let (i, w) = old(self)@.place_pick();
                &&& r == Some((i as usize, w))
                &&& i <= usize::MAX
                &&& i < final(self)@.len
                &&& final(self)@ == old(self)@.place_write(cap.spec_value(), value)
                &&& final(self)@.wf(cap.spec_value())
            }),
    {
        let ghost v0 = self@;
        let ghost capn = cap.spec_value();
        if !type_key_eq(&self.token, token) {
            return None;
        }
        proof {
            lemma_pool_trim_shape(v0.cells, v0.pool);
            lemma_place_write_wf(v0, capn, value);
        }
        let mut sel: Option<(usize, C)> = None;
        proof {
            assert(self.pool@ =~= v0.pool.subrange(0, self.pool@.len() as int));
        }
        while sel.is_none() && self.pool.len() > 0
            invariant
                v0.wf(capn),
                self.token == v0.token,
                self.cells@ == v0.cells,
                self.len as nat == v0.len,
                self.count as nat == v0.count,
                self.pool@.len() <= v0.pool.len(),
                self.pool@ == v0.pool.subrange(0, self.pool@.len() as int),
                (match sel {
                    None => pool_trim(v0.cells, v0.pool) == pool_trim(v0.cells, self.pool@),
                    Some((i, w)) => {
                        let t = pool_trim(v0.cells, v0.pool);
                        &&& t.len() > 0
                        &&& i == t.last()
                        &&& w == v0.cells[i as int].gen
                        &&& self.pool@ == t.drop_last()
                    },
                }),
            decreases self.pool.len(),
        {
            let ghost pool_before = self.pool@;
            let i = self.pool.pop().unwrap();
            proof {
                assert(pool_before == v0.pool.subrange(0, pool_before.len() as int));
                assert(pool_before.last() == v0.pool.subrange(
                    0,
                    pool_before.len() as int,
                )[pool_before.len() - 1]);
                assert(pool_before.last() == v0.pool[pool_before.len() - 1]);
                assert(i < v0.len);
                assert(self.pool@ =~= v0.pool.subrange(0, self.pool@.len() as int));
            }
            let g = self.cells[i].gen;
            if g.is_over() {
                proof {
                    assert(self.pool@ =~= pool_before.drop_last());
                    assert(pool_trim(v0.cells, pool_before) == pool_trim(
                        v0.cells,
                        self.pool@,
                    ));
                }
            } else {
                sel = Some((i, g));
                proof {
                    assert(pool_trim(v0.cells, pool_before) == pool_before);
                    assert(self.pool@ =~= pool_before.drop_last());
                }
            }
        }
        match sel {
            Some((i, w)) => {
                proof {
                    let t = pool_trim(v0.cells, v0.pool);
                    assert(i < v0.len);
                    assert(i < self.cells@.len());
                }
                let g2 = w.next();
                self.cells[i] = Cell { gen: g2, val: Some(value) };
                proof {
                    assert(self@ =~= v0.place_write(capn, value));
                }
                Some((i, w))
            },
            None => {
                proof {
                    assert(self.pool@ =~= Seq::<usize>::empty());
                    assert(pool_trim(v0.cells, v0.pool) =~= Seq::<usize>::empty());
                }
                let mut j = self.len;
                while j < self.count && self.cells[j].gen.is_over()
                    invariant
                        v0.wf(capn),
                        self.token == v0.token,
                        self.cells@ == v0.cells,
                        self.len as nat == v0.len,
                        self.count as nat == v0.count,
                        self.pool@ == Seq::<usize>::empty(),
                        v0.len <= j as nat <= v0.count,
                        walk_from(v0.cells, v0.count, v0.len) == walk_from(
                            v0.cells,
                            v0.count,
                            j as nat,
                        ),
                    decreases self.count - j,
                {
                    j = j + 1;
                }
                proof {
                    assert(walk_from(v0.cells, v0.count, j as nat) == j as nat);
                    assert(walk_from(v0.cells, v0.count, v0.len) == j as nat);
                }
                if j == self.cells.len() {
                    let cap_value = cap.value();
                    let mut k: usize = 0;
                    while k < cap_value
                        invariant
                            k <= cap_value,
                            capn == cap_value as nat,
                            self.token == v0.token,
                            self.len as nat == v0.len,
                            self.count as nat == v0.count,
                            self.pool@ == Seq::<usize>::empty(),
                            self.cells@ == v0.cells + fresh_block::<C>(capn).subrange(
                                0,
                                k as int,
                            ),
                        decreases cap_value - k,
                    {
                        self.cells.push(Cell { gen: C::start(), val: None });
                        k = k + 1;
                        proof {
                            assert(self.cells@ =~= v0.cells + fresh_block::<C>(
                                capn,
                            ).subrange(0, k as int));
                        }
                    }
                    proof {
                        assert(fresh_block::<C>(capn).subrange(0, capn as int)
                            =~= fresh_block::<C>(capn));
                        assert(self.cells@ == v0.cells + fresh_block::<C>(capn));
                    }
                }
                let n = self.cells.len();
                proof {
                    assert(j < n);
                }
                let w = self.cells[j].gen;
                let g2 = w.next();
                self.cells[j] = Cell { gen: g2, val: Some(value) };
                self.len = j + 1;
                if self.count < self.len {
                    self.count = self.len;
                }
                proof {
                    assert(self@ =~= v0.place_write(capn, value));
                }
                Some((j, w))
            },
        }
    }

    /// Takes the data out of the slot `index`, leaving the generation word in
    /// place for the next reuse: `None` on a foreign token, an index at or
    /// past `len`, an empty slot, or a generation that does not match the
    /// witness.
    pub fn try_remove(&mut self, cap: BlockCapacity, token: &TypeId, index: usize, witness: &C)
        -> (r: Option<AnyValue>)
        requires
            old(self)@.wf(cap.spec_value()),
        ensures
            ({
                let ok = *token == old(self)@.token && old(self)@.admits_take(
                    index as int,
                    *witness,
                );
                &&& (r is Some) == ok
                &&& (!ok ==> final(self)@ == old(self)@)
                &&& (ok ==> {
                    &&& r == old(self)@.cells[index as int].val
                    &&& final(self)@ == old(self)@.take_write(index as int)
                    &&& final(self)@.wf(cap.spec_value())
                })
            }),
    {
        let ghost v0 = self@;
        if !type_key_eq(&self.token, token) {
            return None;
        }
        if index >= self.len {
            return None;
        }
        let expected = witness.next();
        if !self.cells[index].gen.equals(&expected) {
            return None;
        }
        if self.cells[index].val.is_none() {
            return None;
        }
        proof {
            lemma_take_write_wf(v0, cap.spec_value(), index as int);
        }
        let slot = &mut self.cells[index];
        let taken = slot.val.take();
        if index == self.len - 1 {
            self.len = self.len - 1;
        } else {
            self.pool.push(index);
        }
        proof {
            assert(self@ =~= v0.take_write(index as int));
        }
        taken
    }

    /// Puts `value` back into the slot that the immediately preceding
    /// [`Self::try_remove`] emptied, undoing that removal exactly.
    pub(crate) fn untake(&mut self, index: usize, value: AnyValue, Ghost(prior): Ghost<
        BucketView<C>,
    >)
        requires
            prior.live(index as int),
            (index as int) < prior.cells.len(),
            old(self)@ == prior.take_write(index as int),
        ensures
            final(self)@ == (BucketView {
                token: prior.token,
                cells: prior.cells.update(
                    index as int,
                    Cell { gen: prior.cells[index as int].gen, val: Some(value) },
                ),
                len: prior.len,
                count: prior.count,
                pool: prior.pool,
            }),
    {
        let n = self.cells.len();
        proof {
            assert(index < n);
        }
        let g = self.cells[index].gen;
        self.cells[index] = Cell { gen: g, val: Some(value) };
        if self.len == index {
            self.len = index + 1;
        } else {
            let popped = self.pool.pop();
            proof {
                assert(prior.pool =~= prior.pool.push(index).drop_last());
            }
        }
        proof {
            assert(self@.cells =~= prior.cells.update(
                index as int,
                Cell { gen: prior.cells[index as int].gen, val: Some(value) },
            ));
            assert(self@ =~= (BucketView {
                token: prior.token,
                cells: prior.cells.update(
                    index as int,
                    Cell { gen: prior.cells[index as int].gen, val: Some(value) },
                ),
                len: prior.len,
                count: prior.count,
                pool: prior.pool,
            }));
        }
    }

    /// A reference to the data at `index`, guarded by the witness and the
    /// exhaustion check.
    pub fn try_get(&self, cap: BlockCapacity, token: &TypeId, index: usize, witness: &C) -> (r:
        Option<&AnyValue>)
        requires
            self@.wf(cap.spec_value()),
        ensures
            ({
                let ok = *token == self@.token && self@.admits(index as int, *witness);
                match r {
                    Some(a) => ok && Some(*a) == self@.cells[index as int].val,
                    None => !ok,
                }
            }),
    {
        if !type_key_eq(&self.token, token) {
            return None;
        }
        if index >= self.len {
            return None;
        }
        let expected = witness.next();
        if self.cells[index].gen.is_over() {
            return None;
        }
        if !self.cells[index].gen.equals(&expected) {
            return None;
        }
        self.cells[index].val.as_ref()
    }

    /// A mutable reference to the data at `index`, guarded as [`Self::try_get`].
    /// The caller may rewrite the data through the reference; the cell stays
    /// occupied and its generation word stays put.
    pub fn try_get_mut(&mut self, cap: BlockCapacity, token: &TypeId, index: usize, witness: &C)
        -> (r: Option<&mut AnyValue>)
        requires
            old(self)@.wf(cap.spec_value()),
        ensures
            r is None ==> final(self)@ == old(self)@ && !(*token == old(self)@.token
                && old(self)@.admits(index as int, *witness)),
            r matches Some(a) ==> ({
                &&& *token == old(self)@.token
                &&& old(self)@.admits(index as int, *witness)
                &&& Some(*a) == old(self)@.cells[index as int].val
                &&& final(self)@ == (BucketView {
                    token: old(self)@.token,
                    cells: old(self)@.cells.update(
                        index as int,
                        Cell { gen: old(self)@.cells[index as int].gen, val: Some(*final(a)) },
                    ),
                    len: old(self)@.len,
                    count: old(self)@.count,
                    pool: old(self)@.pool,
                })
            }),
    {
        let ghost v0 = self@;
        if !type_key_eq(&self.token, token) {
            return None;
        }
        if index >= self.len {
            return None;
        }
        let expected = witness.next();
        if self.cells[index].gen.is_over() {
            return None;
        }
        if !self.cells[index].gen.equals(&expected) {
            return None;
        }
        if self.cells[index].val.is_none() {
            return None;
        }
        let slot = &mut self.cells[index];
        slot.val.as_mut()
    }

    /// Whether the slot `index` is occupied under `witness`: live, matching,
    /// and not exhausted.
    pub fn contains(&self, cap: BlockCapacity, index: usize, witness: &C) -> (r: bool)
        requires
            self@.wf(cap.spec_value()),
        ensures
            r == self@.admits(index as int, *witness),
    {
        if index >= self.len {
            return false;
        }
        let expected = witness.next();
        !self.cells[index].gen.is_over() && self.cells[index].gen.equals(&expected)
            && self.cells[index].val.is_some()
    }

    /// Drops all data and forgets the written range, but keeps every block and
    /// every generation word, so later placements continue the chain.
    pub fn clear(&mut self, cap: BlockCapacity)
        requires
            old(self)@.wf(cap.spec_value()),
        ensures
            final(self)@ == old(self)@.clear_write(),
            final(self)@.wf(cap.spec_value()),
    {
        let ghost v0 = self@;
        let n = self.len;
        let mut i: usize = 0;
        while i < n
            invariant
                v0.wf(cap.spec_value()),
                i <= n,
                n as nat == v0.len,
                self.token == v0.token,
                self.len == n,
                self.count as nat == v0.count,
                self.pool@ == v0.pool,
                self.cells@.len() == v0.cells.len(),
                forall|k: int|
                    0 <= k < i ==> #[trigger] self.cells@[k] == (Cell {
                        gen: v0.cells[k].gen,
                        val: None::<AnyValue>,
                    }),
                forall|k: int|
                    i <= k < v0.cells.len() ==> #[trigger] self.cells@[k] == v0.cells[k],
            decreases n - i,
        {
            let g = self.cells[i].gen;
            self.cells[i] = Cell { gen: g, val: None };
            i = i + 1;
        }
        self.len = 0;
        self.pool.clear();
        proof {
            assert(self@ =~= v0.clear_write());
        }
    }

    /// Drops all data and starts every generation word over; exhausted cells
    /// become usable again and the reuse pool empties.
    pub fn reset(&mut self, cap: BlockCapacity)
        requires
            old(self)@.wf(cap.spec_value()),
        ensures
            final(self)@ == old(self)@.reset_write(),
            final(self)@.wf(cap.spec_value()),
    {
        let ghost v0 = self@;
        let n = self.cells.len();
        let mut i: usize = 0;
        while i < n
            invariant
                v0.wf(cap.spec_value()),
                i <= n,
                n as nat == v0.cells.len(),
                self.token == v0.token,
                self.len as nat == v0.len,
                self.count as nat == v0.count,
                self.pool@ == v0.pool,
                self.cells@.len() == v0.cells.len(),
                forall|k: int|
                    0 <= k < i ==> #[trigger] self.cells@[k] == (Cell {
                        gen: C::start_spec(),
                        val: None::<AnyValue>,
                    }),
                forall|k: int|
                    i <= k < v0.cells.len() ==> #[trigger] self.cells@[k] == v0.cells[k],
            decreases n - i,
        {
            self.cells[i] = Cell { gen: C::start(), val: None };
            i = i + 1;
        }
        self.len = 0;
        self.count = 0;
        self.pool.clear();
        proof {
            assert(self@ =~= v0.reset_write());
        }
    }

    /// Releases the trailing blocks that `len` does not need and treats the
    /// kept cells past `len` as virgin again.
    pub fn shrink_to_fit(&mut self, cap: BlockCapacity)
        requires
            old(self)@.wf(cap.spec_value()),
        ensures
            final(self)@ == old(self)@.shrink_write(cap.spec_value()),
            final(self)@.wf(cap.spec_value()),
    {
        let ghost v0 = self@;
        let ghost capn = cap.spec_value();
        let capv = cap.value();
        let free = (self.cells.len() - self.len) / capv;
        proof {
            assert(free * capv <= v0.allocated() - v0.len) by (nonlinear_arith)
                requires
                    capv >= 1,
                    free == (v0.allocated() - v0.len) / (capv as int),
                    v0.len <= v0.allocated(),
            ;
        }
        let keep = self.cells.len() - free * capv;
        proof {
            assert(keep as nat == v0.shrink_write(capn).allocated());
            vstd::arithmetic::div_mod::lemma_mod_multiples_vanish(
                -(free as int),
                v0.allocated() as int,
                capv as int,
            );
            assert((capv as int) * (-(free as int)) + v0.allocated() as int == keep as int)
                by (nonlinear_arith)
                requires
                    keep == v0.allocated() - free * capv,
            ;
            assert(keep as int % (capv as int) == 0);
        }
        self.cells.truncate(keep);
        let n = keep;
        let mut i: usize = self.len;
        while i < n
            invariant
                v0.wf(capn),
                v0.len <= i as nat,
                i <= n,
                n as nat == keep as nat,
                v0.len <= keep as nat <= v0.allocated(),
                self.token == v0.token,
                self.len as nat == v0.len,
                self.count as nat == v0.count,
                self.pool@ == v0.pool,
                self.cells@.len() == keep as nat,
                forall|k: int| 0 <= k < v0.len ==> #[trigger] self.cells@[k] == v0.cells[k],
                forall|k: int|
                    v0.len <= k < i ==> #[trigger] self.cells@[k] == (Cell {
                        gen: C::start_spec(),
                        val: None::<AnyValue>,
                    }),
                forall|k: int|
                    i <= k < keep ==> #[trigger] self.cells@[k] == v0.cells[k],
            decreases n - i,
        {
            self.cells[i] = Cell { gen: C::start(), val: None };
            i = i + 1;
        }
        self.count = self.len;
        proof {
            assert(self@ =~= v0.shrink_write(capn));
            assert(self@.wf(capn));
        }
    }

    /// How many whole blocks are allocated.
    pub fn block_count(&self, cap: BlockCapacity) -> (r: usize)
        requires
            cap.spec_value() >= 1,
        ensures
            r as nat == self@.allocated() / cap.spec_value(),
    {
        self.cells.len() / cap.value()
    }
}

/// The buckets of a storage as the specification sees them.
pub open spec fn buckets_view<C: Cycle>(s: Seq<Bucket<C>>) -> Seq<BucketView<C>> {
    s.map_values(|b: Bucket<C>| b@)
}

/// Replacing one bucket replaces one bucket view.
pub broadcast proof fn lemma_buckets_view_update<C: Cycle>(s: Seq<Bucket<C>>, k: int, x: Bucket<C>)
    requires
        0 <= k < s.len(),
    ensures
        #[trigger] buckets_view(s.update(k, x)) == buckets_view(s).update(k, x@),
{
    assert(buckets_view(s.update(k, x)) =~= buckets_view(s).update(k, x@));
}

/// Appending one bucket appends one bucket view.
pub broadcast proof fn lemma_buckets_view_push<C: Cycle>(s: Seq<Bucket<C>>, x: Bucket<C>)
    ensures
        #[trigger] buckets_view(s.push(x)) == buckets_view(s).push(x@),
{
    assert(buckets_view(s.push(x)) =~= buckets_view(s).push(x@));
}

} // verus!
