//! The storage: one generational bucket per concrete type, addressed
//! through identifiers with generation witnesses.

use crate::bucket::buckets_view;
use crate::bucket::BlockCapacity;
use crate::bucket::Bucket;
use crate::bucket::BucketView;
use crate::bucket::Cell;
use crate::cycle::Blocking32;
use crate::cycle::Cycle;
use crate::erased::any_downcast;
use crate::erased::any_downcast_mut;
use crate::erased::any_downcast_ref;
use crate::erased::any_new;
use crate::erased::type_key;
use crate::erased::type_key_eq;
use crate::erased::AnyValue;
use crate::id::AsTid;
use crate::id::Id;
use crate::id::IdData;
use crate::id::Tid;
use core::any::TypeId;
use vstd::prelude::*;

verus! {

broadcast use crate::bucket::lemma_buckets_view_update, crate::bucket::lemma_buckets_view_push;

/// The block capacity a storage is built with when none is chosen.
pub const DEFAULT_BLOCK_CAPACITY: usize = 1024;

/// A storage as the specification sees it: one bucket per registered type
/// token, and the block capacity every bucket is driven with.
#[verifier::ext_equal]
pub struct StorageView<C> {
    pub tokens: Seq<TypeId>,
    pub buckets: Seq<BucketView<C>>,
    pub cap: nat,
}

/// An empty bucket for `token`.
pub open spec fn empty_bucket<C: Cycle>(token: TypeId) -> BucketView<C> {
    BucketView { token, cells: Seq::empty(), len: 0, count: 0, pool: Seq::empty() }
}

impl<C: Cycle> StorageView<C> {
    /// The storage's well-formedness: one well-formed bucket per token, under
    /// one shared block capacity, with no token registered twice.
    pub open spec fn wf(self) -> bool {
        &&& self.cap >= 1
        &&& self.tokens.len() == self.buckets.len()
        &&& forall|b: int|
            0 <= b < self.buckets.len() ==> (#[trigger] self.buckets[b]).wf(self.cap)
        &&& forall|b: int|
            0 <= b < self.buckets.len() ==> (#[trigger] self.buckets[b]).token
                == self.tokens[b]
        &&& forall|b1: int, b2: int|
            0 <= b1 < b2 < self.tokens.len() ==> self.tokens[b1] != self.tokens[b2]
    }

    /// The index of `token`'s bucket; meaningful when the token is registered.
    pub open spec fn bucket_index_of(self, token: TypeId) -> int {
        choose|b: int| 0 <= b < self.tokens.len() && self.tokens[b] == token
    }

    /// The bucket registered for `token`.
    pub open spec fn bucket_of(self, token: TypeId) -> BucketView<C> {
        self.buckets[self.bucket_index_of(token)]
    }

    /// Whether `d` addresses a live cell of the matching generation that is
    /// not exhausted: what lookups answer to.
    pub open spec fn contains_data(self, d: IdData<C>) -> bool {
        &&& self.tokens.contains(d.token)
        &&& self.bucket_of(d.token).admits(d.index as int, d.tag)
    }

    /// Whether `d` addresses a cell that a removal empties: as
    /// [`Self::contains_data`], without the exhaustion test.
    pub open spec fn takes_data(self, d: IdData<C>) -> bool {
        &&& self.tokens.contains(d.token)
        &&& self.bucket_of(d.token).admits_take(d.index as int, d.tag)
    }

    /// The storage with `token`'s bucket made present, and that bucket's
    /// index.
    pub open spec fn with_bucket(self, token: TypeId) -> (Self, int) {
        if self.tokens.contains(token) {
            (self, self.bucket_index_of(token))
        } else {
            (
                StorageView {
                    tokens: self.tokens.push(token),
                    buckets: self.buckets.push(empty_bucket(token)),
                    cap: self.cap,
                },
                self.tokens.len() as int,
            )
        }
    }

    /// The storage with bucket `b` replaced.
    pub open spec fn update_bucket(self, b: int, bv: BucketView<C>) -> Self {
        StorageView { tokens: self.tokens, buckets: self.buckets.update(b, bv), cap: self.cap }
    }

    /// The storage after a placement for `token` that wrote `value`.
    pub open spec fn place_write(self, token: TypeId, value: AnyValue) -> Self {
        let (sv, b) = self.with_bucket(token);
        sv.update_bucket(b, sv.buckets[b].place_write(sv.cap, value))
    }

    /// The index and generation witness a placement for `token` returns.
    pub open spec fn place_pick(self, token: TypeId) -> (nat, C) {
        let (sv, b) = self.with_bucket(token);
        sv.buckets[b].place_pick()
    }

    /// The storage after the cell addressed by `d` is emptied.
    pub open spec fn take_write(self, d: IdData<C>) -> Self {
        let b = self.bucket_index_of(d.token);
        self.update_bucket(b, self.buckets[b].take_write(d.index as int))
    }
}

/// A heterogeneous, type-erased generational storage: values of arbitrary
/// `'static` types are placed into per-type buckets and addressed through
/// identifiers that carry an index, a generation witness and a type token.
pub struct Storage<C: Cycle = Blocking32> {
    tokens: Vec<TypeId>,
    buckets: Vec<Bucket<C>>,
    capacity: BlockCapacity,
}

impl<C: Cycle> View for Storage<C> {
    type V = StorageView<C>;

    closed spec fn view(&self) -> StorageView<C> {
        StorageView {
            tokens: self.tokens@,
            buckets: buckets_view(self.buckets@),
            cap: self.capacity.spec_value(),
        }
    }
}

impl Storage<Blocking32> {
    /// An empty storage with the default block capacity and the default
    /// generation policy.
    pub fn new() -> (r: Self)
        ensures
            r@.wf(),
            r@.tokens == Seq::<TypeId>::empty(),
            r@.cap == DEFAULT_BLOCK_CAPACITY,
    {
        Storage::<Blocking32>::with_policy_and_capacity(DEFAULT_BLOCK_CAPACITY)
    }

    /// An empty storage with the given block capacity and the default
    /// generation policy.
    pub fn with_block_capacity(capacity: usize) -> (r: Self)
        requires
            capacity >= 1,
        ensures
            r@.wf(),
            r@.tokens == Seq::<TypeId>::empty(),
            r@.cap == capacity,
    {
        Storage::<Blocking32>::with_policy_and_capacity(capacity)
    }
}

impl<C: Cycle> Storage<C> {
    /// An empty storage with the default block capacity and the generation
    /// policy `C`.
    pub fn with_policy() -> (r: Self)
        ensures
            r@.wf(),
            r@.tokens == Seq::<TypeId>::empty(),
            r@.cap == DEFAULT_BLOCK_CAPACITY,
    {
        Storage::<C>::with_policy_and_capacity(DEFAULT_BLOCK_CAPACITY)
    }

    /// An empty storage with the given block capacity and the generation
    /// policy `C`.
    pub fn with_policy_and_capacity(capacity: usize) -> (r: Self)
        requires
            capacity >= 1,
        ensures
            r@.wf(),
            r@.tokens == Seq::<TypeId>::empty(),
            r@.buckets == Seq::<BucketView<C>>::empty(),
            r@.cap == capacity,
    {
        let r = Storage {
            tokens: Vec::new(),
            buckets: Vec::new(),
            capacity: BlockCapacity::new(capacity),
        };
        proof {
            assert(r@.tokens =~= Seq::<TypeId>::empty());
            assert(r@.buckets =~= Seq::<BucketView<C>>::empty());
        }
        r
    }

    /// The block capacity the storage was built with.
    pub fn block_capacity(&self) -> (r: usize)
        requires
            self@.wf(),
        ensures
            r as nat == self@.cap,
    {
        self.capacity.value()
    }

    /// The index of `token`'s bucket, if one is registered.
    fn find_bucket(&self, token: &TypeId) -> (r: Option<usize>)
        requires
            self@.wf(),
        ensures
            match r {
                Some(b) => self@.tokens.contains(*token) && b as int == self@.bucket_index_of(
                    *token,
                ) && b < self@.buckets.len() && self@.buckets[b as int].token == *token,
                None => !self@.tokens.contains(*token),
            },
    {
        let n = self.tokens.len();
        let mut b: usize = 0;
        while b < n
            invariant
                self@.wf(),
                n == self.tokens@.len(),
                b <= n,
                forall|k: int| 0 <= k < b ==> self.tokens@[k] != *token,
            decreases n - b,
        {
            if type_key_eq(&self.tokens[b], token) {
                proof {
                    assert(self@.tokens[b as int] == *token);
                    assert(self@.tokens.contains(*token));
                    let c = self@.bucket_index_of(*token);
                    assert(0 <= c < self@.tokens.len() && self@.tokens[c] == *token);
                    assert(c == b as int);
                }
                return Some(b);
            }
            b = b + 1;
        }
        proof {
            assert forall|k: int| 0 <= k < self@.tokens.len() implies self@.tokens[k]
                != *token by {}
        }
        None
    }

    /// The index of `token`'s bucket, registering an empty one if none is.
    fn ensure_bucket(&mut self, token: TypeId) -> (b: usize)
        requires
            old(self)@.wf(),
        ensures
            final(self)@.wf(),
            ({
                let (sv, bb) = old(self)@.with_bucket(token);
                &&& final(self)@ == sv
                &&& b as int == bb
                &&& 0 <= bb < sv.buckets.len()
                &&& sv.buckets[bb].token == token
                &&& final(self)@.tokens.contains(token)
                &&& final(self)@.bucket_index_of(token) == bb
            }),
    {
        let found = self.find_bucket(&token);
        match found {
            Some(b) => b,
            None => {
                let ghost v0 = self@;
                let b = self.buckets.len();
                self.tokens.push(token);
                self.buckets.push(Bucket::new(token));
                proof {
                    assert(self@.tokens =~= v0.tokens.push(token));
                    assert(self@.buckets =~= v0.buckets.push(empty_bucket(token)));
                    let sv = self@;
                    assert(sv.tokens[b as int] == token);
                    assert(sv.tokens.contains(token));
                    assert forall|b1: int, b2: int|
                        0 <= b1 < b2 < sv.tokens.len() implies sv.tokens[b1]
                        != sv.tokens[b2] by {
                        if b2 == b as int {
                            assert(v0.tokens[b1] != token) by {
                                assert(!v0.tokens.contains(token));
                            }
                        }
                    }
                    assert forall|k: int|
                        0 <= k < sv.buckets.len() implies (#[trigger] sv.buckets[k]).wf(
                        sv.cap,
                    ) by {
                        if k < b as int {
                            assert(sv.buckets[k] == v0.buckets[k]);
                        } else {
                            assert(sv.buckets[k] == empty_bucket::<C>(token));
                        }
                    }
                    assert(sv.wf());
                    let c = sv.bucket_index_of(token);
                    assert(0 <= c < sv.tokens.len() && sv.tokens[c] == token);
                    assert(c == b as int) by {
                        if c < b as int {
                            assert(v0.tokens[c] == token);
                            assert(v0.tokens.contains(token));
                        }
                    }
                }
                b
            },
        }
    }

    /// Places `data` into the bucket of its type, creating the bucket on the
    /// first placement, and returns a typed identifier for the new cell.
    pub fn place<T: 'static>(&mut self, data: T) -> (r: Tid<T, C>)
        requires
            old(self)@.wf(),
        ensures
            final(self)@.wf(),
            ({
                let (i, w) = old(self)@.place_pick(r@.token);
                &&& r@.index as nat == i
                &&& r@.tag == w
                &&& exists|a: AnyValue| final(self)@ == old(self)@.place_write(
                    r@.token,
                    a,
                )
            }),
    {
        let token = type_key::<T>();
        let value = any_new(data);
        let ghost v0 = self@;
        let b = self.ensure_bucket(token);
        let ghost sv = self@;
        let cap = self.capacity;
        let ghost value_g = value;
        let bucket = &mut self.buckets[b];
        let placed = bucket.try_place(cap, &token, value);
        proof {
            assert(self@.buckets =~= sv.buckets.update(
                b as int,
                sv.buckets[b as int].place_write(sv.cap, value_g),
            ));
            assert(self@ =~= v0.place_write(token, value_g));
            assert forall|k: int|
                0 <= k < self@.buckets.len() implies (#[trigger] self@.buckets[k]).wf(
                self@.cap,
            ) by {
                if k != b as int {
                    assert(self@.buckets[k] == sv.buckets[k]);
                }
            }
            assert(self@.wf());
        }
        match placed {
            Some((i, w)) => Tid::new(i, w, token),
            None => unreached(),
        }
    }

    /// Places `data` and returns a type-erased identifier for the new cell.
    pub fn place_id<T: 'static>(&mut self, data: T) -> (r: Id<C>)
        requires
            old(self)@.wf(),
        ensures
            final(self)@.wf(),
            ({
                let (i, w) = old(self)@.place_pick(r@.token);
                &&& r@.index as nat == i
                &&& r@.tag == w
                &&& exists|a: AnyValue| final(self)@ == old(self)@.place_write(
                    r@.token,
                    a,
                )
            }),
    {
        let tid = self.place::<T>(data);
        tid.to_id()
    }

    /// Takes the value behind `id` out of the storage: `None` when the
    /// identifier does not narrow to `T`, addresses no live cell, or carries a
    /// stale generation witness, and in that case the storage is unchanged.
    pub fn remove<T: 'static>(&mut self, id: &impl AsTid<T, C>) -> (r: Option<T>)
        requires
            old(self)@.wf(),
        ensures
            final(self)@.wf(),
            r is None ==> final(self)@ == old(self)@,
            !old(self)@.takes_data(id.id_data()) ==> r is None,
            r is Some ==> old(self)@.takes_data(id.id_data()) && final(self)@ == old(
                self,
            )@.take_write(id.id_data()),
    {
        let ghost v0 = self@;
        let tid = match id.as_tid() {
            Some(t) => t,
            None => {
                return None;
            },
        };
        let token = tid.token();
        let b = match self.find_bucket(&token) {
            Some(b) => b,
            None => {
                return None;
            },
        };
        let cap = self.capacity;
        let index = tid.index();
        let witness = tid.tag();
        let ghost bv0 = self@.buckets[b as int];
        let bucket = &mut self.buckets[b];
        let taken = bucket.try_remove(cap, &token, index, &witness);
        match taken {
            None => {
                proof {
                    assert(self@.buckets =~= v0.buckets);
                    assert(self@ =~= v0);
                }
                None
            },
            Some(a) => {
                proof {
                    assert(v0.takes_data(id.id_data()));
                    assert(self@.buckets =~= v0.buckets.update(
                        b as int,
                        bv0.take_write(index as int),
                    ));
                    assert(self@ =~= v0.take_write(id.id_data()));
                    assert forall|k: int|
                        0 <= k < self@.buckets.len() implies (
                    #[trigger] self@.buckets[k]).wf(self@.cap) by {
                        if k != b as int {
                            assert(self@.buckets[k] == v0.buckets[k]);
                        }
                    }
                }
                match any_downcast::<T>(a) {
                    Ok(v) => Some(v),
                    Err(back) => {
                        let bucket2 = &mut self.buckets[b];
                        bucket2.untake(index, back, Ghost(bv0));
                        proof {
                            assert(bv0.cells[index as int].val == Some(back));
                            assert(self@.buckets[b as int] =~= bv0);
                            assert(self@.buckets =~= v0.buckets);
                            assert(self@ =~= v0);
                        }
                        None
                    },
                }
            },
        }
    }

    /// Drops the value behind `id` in place; the storage is unchanged when the
    /// identifier addresses no live cell or carries a stale witness.
    pub fn erase(&mut self, id: &Id<C>)
        requires
            old(self)@.wf(),
        ensures
            final(self)@.wf(),
            !old(self)@.takes_data(id@) ==> final(self)@ == old(self)@,
            old(self)@.takes_data(id@) ==> final(self)@ == old(self)@.take_write(id@),
    {
        let ghost v0 = self@;
        let token = id.type_id();
        let b = match self.find_bucket(&token) {
            Some(b) => b,
            None => {
                return ;
            },
        };
        let cap = self.capacity;
        let index = id.index();
        let witness = id.tag();
        let ghost bv0 = self@.buckets[b as int];
        let bucket = &mut self.buckets[b];
        let taken = bucket.try_remove(cap, &token, index, &witness);
        proof {
            if taken is None {
                assert(self@.buckets =~= v0.buckets);
                assert(self@ =~= v0);
            } else {
                assert(self@.buckets =~= v0.buckets.update(
                    b as int,
                    bv0.take_write(index as int),
                ));
                assert(self@ =~= v0.take_write(id@));
                assert forall|k: int|
                    0 <= k < self@.buckets.len() implies (#[trigger] self@.buckets[k]).wf(
                    self@.cap,
                ) by {
                    if k != b as int {
                        assert(self@.buckets[k] == v0.buckets[k]);
                    }
                }
            }
        }
    }

    /// A reference to the value behind `id`: `None` when the identifier does
    /// not narrow to `T`, addresses no live cell, is exhausted, or carries a
    /// stale generation witness.
    pub fn get<T: 'static>(&self, id: &impl AsTid<T, C>) -> (r: Option<&T>)
        requires
            self@.wf(),
        ensures
            r is Some ==> self@.contains_data(id.id_data()),
            !self@.contains_data(id.id_data()) ==> r is None,
    {
        let tid = match id.as_tid() {
            Some(t) => t,
            None => {
                return None;
            },
        };
        let token = tid.token();
        let b = match self.find_bucket(&token) {
            Some(b) => b,
            None => {
                return None;
            },
        };
        let bucket = &self.buckets[b];
        match bucket.try_get(self.capacity, &token, tid.index(), &tid.tag()) {
            Some(a) => any_downcast_ref::<T>(a),
            None => None,
        }
    }

    /// A mutable reference to the value behind `id`, guarded as [`Self::get`].
    /// The caller may rewrite the value through the reference; everything else
    /// in the storage stays as it was.
    pub fn get_mut<T: 'static>(&mut self, id: &impl AsTid<T, C>) -> (r: Option<&mut T>)
        requires
            old(self)@.wf(),
        ensures
            final(self)@.wf(),
            r is None ==> final(self)@ == old(self)@,
            !old(self)@.contains_data(id.id_data()) ==> r is None,
            r is Some ==> old(self)@.contains_data(id.id_data()),
            r is Some ==> (exists|a2: AnyValue|
                final(self)@ == old(self)@.update_bucket(
                    old(self)@.bucket_index_of(id.id_data().token),
                    #[trigger] payload_write(
                        old(self)@.bucket_of(id.id_data().token),
                        id.id_data().index as int,
                        a2,
                    ),
                )),
    {
        let ghost v0 = self@;
        let tid = match id.as_tid() {
            Some(t) => t,
            None => {
                return None;
            },
        };
        let token = tid.token();
        let b = match self.find_bucket(&token) {
            Some(b) => b,
            None => {
                return None;
            },
        };
        let cap = self.capacity;
        let index = tid.index();
        let witness = tid.tag();
        let ghost bv0 = self@.buckets[b as int];
        proof {
            if bv0.admits(index as int, witness) {
                assert(index < bv0.len && bv0.len <= bv0.cells.len());
                assert forall|a2: AnyValue|
                    (#[trigger] v0.update_bucket(
                        b as int,
                        payload_write(bv0, index as int, a2),
                    )).wf() by {
                    crate::bucket::lemma_payload_update_wf(bv0, v0.cap, index as int, a2);
                    let sv = v0.update_bucket(b as int, payload_write(bv0, index as int, a2));
                    assert forall|k: int|
                        0 <= k < sv.buckets.len() implies (#[trigger] sv.buckets[k]).wf(
                        sv.cap,
                    ) by {
                        if k != b as int {
                            assert(sv.buckets[k] == v0.buckets[k]);
                        }
                    }
                }
                assert forall|p: AnyValue|
                    bv0.cells[index as int].val == Some(p) implies #[trigger] payload_write(
                    bv0,
                    index as int,
                    p,
                ) == bv0 by {
                    assert(payload_write(bv0, index as int, p).cells =~= bv0.cells);
                    assert(payload_write(bv0, index as int, p) =~= bv0);
                }
            }
            assert(v0.update_bucket(b as int, bv0) =~= v0) by {
                assert(v0.buckets.update(b as int, bv0) =~= v0.buckets);
            }
        }
        let bucket = &mut self.buckets[b];
        let inner = bucket.try_get_mut(cap, &token, index, &witness);
        match inner {
            None => None,
            Some(a) => {
                proof {
                    assert(after_borrow(self)@ == v0.update_bucket(
                        b as int,
                        payload_write(bv0, index as int, *final(a)),
                    ));
                    assert(bv0.cells[index as int].val == Some(*final(a))
                        ==> after_borrow(self)@ == v0);
                }
                any_downcast_mut::<T>(a)
            },
        }
    }

    /// Whether `id` addresses a live cell of the matching generation that is
    /// not exhausted. For a typed identifier the answer is exact; a type-erased
    /// identifier is narrowed to `T` first.
    pub fn contains<T: 'static>(&self, id: &impl AsTid<T, C>) -> (r: bool)
        requires
            self@.wf(),
        ensures
            r ==> self@.contains_data(id.id_data()),
            id.always_narrows() ==> r == self@.contains_data(id.id_data()),
    {
        let tid = match id.as_tid() {
            Some(t) => t,
            None => {
                return false;
            },
        };
        let token = tid.token();
        let b = match self.find_bucket(&token) {
            Some(b) => b,
            None => {
                return false;
            },
        };
        self.buckets[b].contains(self.capacity, tid.index(), &tid.tag())
    }

    /// Whether the type-erased `id` addresses a live cell of the matching
    /// generation that is not exhausted.
    pub fn contains_id(&self, id: &Id<C>) -> (r: bool)
        requires
            self@.wf(),
        ensures
            r == self@.contains_data(id@),
    {
        let token = id.type_id();
        let b = match self.find_bucket(&token) {
            Some(b) => b,
            None => {
                return false;
            },
        };
        self.buckets[b].contains(self.capacity, id.index(), &id.tag())
    }

    /// How many whole blocks the bucket for `T` has allocated: zero when no
    /// `T` was ever placed.
    pub fn block_count_of<T: 'static>(&self) -> (r: usize)
        requires
            self@.wf(),
        ensures
            r == 0 || exists|b: int|
                0 <= b < self@.buckets.len() && r as nat == (
                #[trigger] self@.buckets[b]).allocated() / self@.cap,
    {
        let token = type_key::<T>();
        match self.find_bucket(&token) {
            Some(b) => self.buckets[b].block_count(self.capacity),
            None => 0,
        }
    }

    /// Drops every placed value but keeps every block and every generation
    /// word: placements after `clear` continue each cell's generation chain.
    pub fn clear(&mut self)
        requires
            old(self)@.wf(),
        ensures
            final(self)@.wf(),
            final(self)@.tokens == old(self)@.tokens,
            final(self)@.cap == old(self)@.cap,
            final(self)@.buckets.len() == old(self)@.buckets.len(),
            forall|b: int|
                0 <= b < old(self)@.buckets.len() ==> final(self)@.buckets[b] == (
                #[trigger] old(self)@.buckets[b]).clear_write(),
    {
        let ghost v0 = self@;
        let cap = self.capacity;
        let n = self.buckets.len();
        let mut b: usize = 0;
        while b < n
            invariant
                v0.wf(),
                b <= n,
                n == self.buckets@.len(),
                self.tokens@ == v0.tokens,
                self.capacity.spec_value() == v0.cap,
                cap.spec_value() == v0.cap,
                self@.buckets.len() == v0.buckets.len(),
                forall|k: int|
                    0 <= k < b ==> self@.buckets[k] == (#[trigger] v0.buckets[k]).clear_write(),
                forall|k: int| 0 <= k < b ==> (#[trigger] self@.buckets[k]).wf(v0.cap),
                forall|k: int| b <= k < n ==> #[trigger] self@.buckets[k] == v0.buckets[k],
            decreases n - b,
        {
            let ghost it0 = self@;
            proof {
                assert(self@.buckets[b as int] == v0.buckets[b as int]);
                assert(self@.buckets[b as int].wf(v0.cap));
            }
            let bucket = &mut self.buckets[b];
            bucket.clear(cap);
            proof {
                assert(self@.buckets =~= it0.buckets.update(
                    b as int,
                    v0.buckets[b as int].clear_write(),
                ));
            }
            b = b + 1;
        }
        proof {
            assert forall|k: int|
                0 <= k < self@.buckets.len() implies (#[trigger] self@.buckets[k]).wf(
                self@.cap,
            ) && self@.buckets[k].token == self@.tokens[k] by {
                assert(self@.buckets[k] == v0.buckets[k].clear_write());
                assert(v0.buckets[k].wf(v0.cap));
            }
            assert(self@.wf());
        }
    }

    /// Drops every placed value and starts every generation word over:
    /// exhausted cells become usable again and placements after `reset` see
    /// the starting generation.
    pub fn reset(&mut self)
        requires
            old(self)@.wf(),
        ensures
            final(self)@.wf(),
            final(self)@.tokens == old(self)@.tokens,
            final(self)@.cap == old(self)@.cap,
            final(self)@.buckets.len() == old(self)@.buckets.len(),
            forall|b: int|
                0 <= b < old(self)@.buckets.len() ==> final(self)@.buckets[b] == (
                #[trigger] old(self)@.buckets[b]).reset_write(),
    {
        let ghost v0 = self@;
        let cap = self.capacity;
        let n = self.buckets.len();
        let mut b: usize = 0;
        while b < n
            invariant
                v0.wf(),
                b <= n,
                n == self.buckets@.len(),
                self.tokens@ == v0.tokens,
                self.capacity.spec_value() == v0.cap,
                cap.spec_value() == v0.cap,
                self@.buckets.len() == v0.buckets.len(),
                forall|k: int|
                    0 <= k < b ==> self@.buckets[k] == (#[trigger] v0.buckets[k]).reset_write(),
                forall|k: int| 0 <= k < b ==> (#[trigger] self@.buckets[k]).wf(v0.cap),
                forall|k: int| b <= k < n ==> #[trigger] self@.buckets[k] == v0.buckets[k],
            decreases n - b,
        {
            let ghost it0 = self@;
            proof {
                assert(self@.buckets[b as int] == v0.buckets[b as int]);
                assert(self@.buckets[b as int].wf(v0.cap));
            }
            let bucket = &mut self.buckets[b];
            bucket.reset(cap);
            proof {
                assert(self@.buckets =~= it0.buckets.update(
                    b as int,
                    v0.buckets[b as int].reset_write(),
                ));
            }
            b = b + 1;
        }
        proof {
            assert forall|k: int|
                0 <= k < self@.buckets.len() implies (#[trigger] self@.buckets[k]).wf(
                self@.cap,
            ) && self@.buckets[k].token == self@.tokens[k] by {
                assert(self@.buckets[k] == v0.buckets[k].reset_write());
                assert(v0.buckets[k].wf(v0.cap));
            }
            assert(self@.wf());
        }
    }

    /// Releases, in every bucket, the trailing blocks its `len` does not need.
    pub fn shrink_to_fit(&mut self)
        requires
            old(self)@.wf(),
        ensures
            final(self)@.wf(),
            final(self)@.tokens == old(self)@.tokens,
            final(self)@.cap == old(self)@.cap,
            final(self)@.buckets.len() == old(self)@.buckets.len(),
            forall|b: int|
                0 <= b < old(self)@.buckets.len() ==> final(self)@.buckets[b] == (
                #[trigger] old(self)@.buckets[b]).shrink_write(old(self)@.cap),
    {
        let ghost v0 = self@;
        let cap = self.capacity;
        let n = self.buckets.len();
        let mut b: usize = 0;
        while b < n
            invariant
                v0.wf(),
                b <= n,
                n == self.buckets@.len(),
                self.tokens@ == v0.tokens,
                self.capacity.spec_value() == v0.cap,
                cap.spec_value() == v0.cap,
                self@.buckets.len() == v0.buckets.len(),
                forall|k: int|
                    0 <= k < b ==> self@.buckets[k] == (#[trigger] v0.buckets[k]).shrink_write(
                        v0.cap,
                    ),
                forall|k: int| 0 <= k < b ==> (#[trigger] self@.buckets[k]).wf(v0.cap),
                forall|k: int| b <= k < n ==> #[trigger] self@.buckets[k] == v0.buckets[k],
            decreases n - b,
        {
            let ghost it0 = self@;
            proof {
                assert(self@.buckets[b as int] == v0.buckets[b as int]);
                assert(self@.buckets[b as int].wf(v0.cap));
            }
            let bucket = &mut self.buckets[b];
            bucket.shrink_to_fit(cap);
            proof {
                assert(self@.buckets =~= it0.buckets.update(
                    b as int,
                    v0.buckets[b as int].shrink_write(v0.cap),
                ));
            }
            b = b + 1;
        }
        proof {
            assert forall|k: int|
                0 <= k < self@.buckets.len() implies (#[trigger] self@.buckets[k]).wf(
                self@.cap,
            ) && self@.buckets[k].token == self@.tokens[k] by {
                assert(self@.buckets[k] == v0.buckets[k].shrink_write(v0.cap));
                assert(v0.buckets[k].wf(v0.cap));
            }
            assert(self@.wf());
        }
    }
}

/// The bucket `bv` with the data of its live slot `i` replaced by `value`.
pub open spec fn payload_write<C: Cycle>(bv: BucketView<C>, i: int, value: AnyValue)
    -> BucketView<C> {
    BucketView {
        token: bv.token,
        cells: bv.cells.update(i, Cell { gen: bv.cells[i].gen, val: Some(value) }),
        len: bv.len,
        count: bv.count,
        pool: bv.pool,
    }
}

/// A pre-resolved handle onto the bucket of one type: whether it exists, and
/// a read-only view of it while it does.
pub struct BucketRef<'a, C: Cycle> {
    bucket: Option<&'a Bucket<C>>,
}

impl<'a, C: Cycle> BucketRef<'a, C> {
    /// The bucket behind the handle, as the specification sees it.
    pub closed spec fn bucket_spec(&self) -> Option<BucketView<C>> {
        match self.bucket {
            Some(b) => Some(b@),
            None => None,
        }
    }

    /// Whether a bucket for the probed type has been created.
    pub fn bucket_is_exists(&self) -> (r: bool)
        ensures
            r == (self.bucket_spec() is Some),
    {
        self.bucket.is_some()
    }

    /// How many cells that bucket has allocated; zero without a bucket.
    pub fn capacity(&self) -> (r: usize)
        ensures
            match self.bucket_spec() {
                Some(bv) => r as nat == bv.allocated(),
                None => r == 0,
            },
    {
        match self.bucket {
            Some(b) => b.capacity(),
            None => 0,
        }
    }
}

impl<C: Cycle> Storage<C> {
    /// A handle onto the bucket that holds values of `T`, if one was ever
    /// created.
    pub fn bucket_ref<T: 'static>(&self) -> (r: BucketRef<'_, C>)
        requires
            self@.wf(),
        ensures
            r.bucket_spec() matches Some(bv) ==> exists|b: int|
                0 <= b < self@.buckets.len() && self@.buckets[b] == bv,
    {
        let token = type_key::<T>();
        match self.find_bucket(&token) {
            Some(b) => {
                let r = BucketRef { bucket: Some(&self.buckets[b]) };
                proof {
                    assert((b as int) < self@.buckets.len() && self@.buckets[b as int]
                        == self.buckets@[b as int]@);
                }
                r
            },
            None => BucketRef { bucket: None },
        }
    }
}

impl Default for Storage<Blocking32> {
    fn default() -> (r: Self)
        ensures
            r@.wf(),
            r@.tokens == Seq::<TypeId>::empty(),
            r@.cap == DEFAULT_BLOCK_CAPACITY,
    {
        Storage::new()
    }
}

} // verus!
