//! A handle table with tagged reuse detection and an intrusive free chain.

use crate::erased::shrink_vec;
use crate::params::Size;
use crate::params::UniqueTag;
use vstd::prelude::*;

verus! {

/// Where a handle's value lives: which bucket, and which slot inside it.
#[derive(Clone, Copy)]
pub struct Location<S> {
    bucket_index: S,
    inbucket_index: S,
}

impl<S: Size> Location<S> {
    /// The bucket the handle's value lives in.
    pub closed spec fn bucket_index_spec(&self) -> S {
        self.bucket_index
    }

    /// The slot inside that bucket.
    pub closed spec fn inbucket_index_spec(&self) -> S {
        self.inbucket_index
    }

    pub fn bucket_index(&self) -> (r: S)
        ensures
            r == self.bucket_index_spec(),
    {
        self.bucket_index
    }

    pub fn inbucket_index(&self) -> (r: S)
        ensures
            r == self.inbucket_index_spec(),
    {
        self.inbucket_index
    }
}

/// What a handle's slot carries besides its tag: the location of a live
/// value, or the link to the next free slot.
pub enum TokenData<S> {
    Location(Location<S>),
    FreeLink(S),
}

/// One slot of a handle table: a reuse tag, and a location or a free link.
pub struct Token<S, U> {
    tag: U,
    data: TokenData<S>,
}

impl<S: Size, U: UniqueTag> Token<S, U> {
    /// The slot's reuse tag.
    pub closed spec fn tag_spec(&self) -> U {
        self.tag
    }

    /// The slot's payload.
    pub closed spec fn data_spec(&self) -> TokenData<S> {
        self.data
    }

    pub fn tag(&self) -> (r: U)
        ensures
            r == self.tag_spec(),
    {
        self.tag
    }

    /// The location of the handle's value, while the slot holds one.
    pub fn location(&self) -> (r: Option<&Location<S>>)
        ensures
            match r {
                Some(l) => self.data_spec() == TokenData::Location(*l),
                None => !(self.data_spec() is Location),
            },
    {
        match &self.data {
            TokenData::Location(l) => Some(l),
            TokenData::FreeLink(_) => None,
        }
    }
}

/// A handle table as the specification sees it.
#[verifier::ext_equal]
pub struct TokenBucketView<S, U> {
    pub tokens: Seq<Token<S, U>>,
    pub cursor: Option<S>,
}

impl<S: Size, U: UniqueTag> TokenBucketView<S, U> {
    /// Whether slot `g` sits in the free chain.
    pub closed spec fn is_free(self, g: int) -> bool {
        self.tokens[g].data is FreeLink
    }

    /// The slot that `g`'s free link names.
    pub closed spec fn link_of(self, g: int) -> int {
        self.tokens[g].data->FreeLink_0.as_nat() as int
    }

    /// Whether no free slot other than `h` itself links to `h`.
    pub closed spec fn no_inbound(self, h: int) -> bool {
        forall|g: int|
            0 <= g < self.tokens.len() && #[trigger] self.is_free(g) && self.link_of(g) == h
                ==> g == h
    }

    /// The handle table's well-formedness: the cursor heads a chain of free
    /// slots whose links stay inside the table, carry the removed marker, only
    /// ever point at other free slots, never share a target, and never point
    /// back at the head.
    pub closed spec fn wf(self) -> bool {
        &&& self.tokens.len() <= S::max_spec()
        &&& (match self.cursor {
            Some(f) => f.as_nat() < self.tokens.len() && self.is_free(f.as_nat() as int)
                && self.no_inbound(f.as_nat() as int),
            None => true,
        })
        &&& forall|g: int|
            0 <= g < self.tokens.len() && #[trigger] self.is_free(g) ==> {
                &&& self.tokens[g].tag.is_removed_spec()
                &&& 0 <= self.link_of(g) < self.tokens.len()
                &&& self.is_free(self.link_of(g))
            }
        &&& forall|g1: int, g2: int|
            0 <= g1 < g2 < self.tokens.len() && #[trigger] self.is_free(g1)
                && #[trigger] self.is_free(g2) && self.link_of(g1) == self.link_of(g2)
                ==> (self.link_of(g1) == g1 || self.link_of(g2) == g2)
    }

    /// The table after `create` reuses or appends a slot for the given
    /// location, with the chosen handle index and its tag.
    pub closed spec fn create_write(self, bucket_index: S, inbucket_index: S) -> (Self, S, U) {
        let location = Location { bucket_index, inbucket_index };
        match self.cursor {
            Some(f) => {
                let h = f.as_nat() as int;
                let tag = self.tokens[h].tag.with_removed_spec(false);
                let link = self.link_of(h);
                (
                    TokenBucketView {
                        tokens: self.tokens.update(
                            h,
                            Token { tag, data: TokenData::Location(location) },
                        ),
                        cursor: if link == h {
                            None
                        } else {
                            Some(self.tokens[h].data->FreeLink_0)
                        },
                    },
                    f,
                    tag,
                )
            },
            None => (
                TokenBucketView {
                    tokens: self.tokens.push(
                        Token { tag: U::start_spec(), data: TokenData::Location(location) },
                    ),
                    cursor: None,
                },
                arbitrary(),
                U::start_spec(),
            ),
        }
    }

    /// The table after the handle `t` is marked removed: its tag advances and
    /// the slot heads the free chain, unless the tag is spent, in which case
    /// the slot locks and never returns.
    pub closed spec fn remove_write(self, t: S) -> Self {
        let h = t.as_nat() as int;
        let tag = self.tokens[h].tag;
        if tag.next_spec() == tag {
            TokenBucketView {
                tokens: self.tokens.update(
                    h,
                    Token { tag: tag.lock_write(), data: self.tokens[h].data },
                ),
                cursor: self.cursor,
            }
        } else {
            let link = match self.cursor {
                Some(f) => f,
                None => t,
            };
            TokenBucketView {
                tokens: self.tokens.update(
                    h,
                    Token {
                        tag: tag.next_spec().with_removed_spec(true),
                        data: TokenData::FreeLink(link),
                    },
                ),
                cursor: Some(t),
            }
        }
    }
}

/// A handle table: it lends out small stable indices ("tokens") for values
/// whose in-bucket location may move, detects stale handles through reuse
/// tags, and recycles removed slots through an intrusive free chain.
pub struct TokenBucket<S: Size, U: UniqueTag> {
    tokens: Vec<Token<S, U>>,
    free_cursor: Option<S>,
}

impl<S: Size, U: UniqueTag> View for TokenBucket<S, U> {
    type V = TokenBucketView<S, U>;

    closed spec fn view(&self) -> TokenBucketView<S, U> {
        TokenBucketView { tokens: self.tokens@, cursor: self.free_cursor }
    }
}

impl<S: Size, U: UniqueTag> TokenBucket<S, U> {
    /// An empty handle table.
    pub fn new() -> (r: Self)
        ensures
            r@.wf(),
            r@.tokens == Seq::<Token<S, U>>::empty(),
            r@.cursor is None,
    {
        let r = TokenBucket { tokens: Vec::new(), free_cursor: None };
        proof {
            assert(r@.tokens =~= Seq::<Token<S, U>>::empty());
        }
        r
    }

    /// How many handle slots exist.
    pub fn len(&self) -> (r: usize)
        ensures
            r == self@.tokens.len(),
    {
        self.tokens.len()
    }

    /// Hands out a handle for the given location: the newest free slot is
    /// reused with its removed marker cleared, else a fresh slot is appended
    /// with the starting tag.
    pub fn create(&mut self, bucket_index: S, inbucket_index: S) -> (r: (S, U))
        requires
            old(self)@.wf(),
            old(self)@.tokens.len() < S::max_spec(),
        ensures
            final(self)@.wf(),
            ({
                let (v2, idx, tag) = old(self)@.create_write(bucket_index, inbucket_index);
                &&& final(self)@ == v2
                &&& r.1 == tag
                &&& (old(self)@.cursor matches Some(f) ==> r.0 == f)
                &&& (old(self)@.cursor is None ==> r.0.as_nat() == old(self)@.tokens.len())
            }),
    {
        let ghost v0 = self@;
        match self.free_cursor {
            Some(f) => {
                let h = f.to_usize();
                let next_free = match &self.tokens[h].data {
                    TokenData::FreeLink(s) => *s,
                    TokenData::Location(_) => unreached(),
                };
                let mut tag = self.tokens[h].tag;
                tag.set_removed(false);
                self.tokens[h] = Token {
                    tag,
                    data: TokenData::Location(Location { bucket_index, inbucket_index }),
                };
                if next_free.equals(&f) {
                    self.free_cursor = None;
                } else {
                    self.free_cursor = Some(next_free);
                }
                proof {
                    lemma_create_reuse_wf(v0, bucket_index, inbucket_index);
                    assert(self@ =~= v0.create_write(bucket_index, inbucket_index).0);
                }
                (f, tag)
            },
            None => {
                let idx = S::from_usize(self.tokens.len());
                let tag = U::start();
                self.tokens.push(Token {
                    tag,
                    data: TokenData::Location(Location { bucket_index, inbucket_index }),
                });
                proof {
                    let v2 = v0.create_write(bucket_index, inbucket_index).0;
                    assert(self@ =~= v2);
                    assert forall|g: int|
                        0 <= g < self@.tokens.len() && #[trigger] self@.is_free(g) implies {
                        &&& self@.tokens[g].tag.is_removed_spec()
                        &&& 0 <= self@.link_of(g) < self@.tokens.len()
                        &&& self@.is_free(self@.link_of(g))
                    } by {
                        assert(g < v0.tokens.len() && v0.is_free(g));
                        assert(self@.tokens[self@.link_of(g)] == v0.tokens[v0.link_of(g)]);
                    }
                    assert forall|g1: int, g2: int|
                        0 <= g1 < g2 < self@.tokens.len() && #[trigger] self@.is_free(g1)
                            && #[trigger] self@.is_free(g2) && self@.link_of(g1)
                            == self@.link_of(g2) implies (self@.link_of(g1) == g1
                        || self@.link_of(g2) == g2) by {
                        assert(v0.is_free(g1) && v0.is_free(g2));
                    }
                    assert(self@.wf());
                }
                (idx, tag)
            },
        }
    }

    /// Marks the handle `token_index` removed: its tag advances and the slot
    /// heads the free chain; a spent tag locks the slot for good instead.
    pub fn mark_removed(&mut self, token_index: S)
        requires
            old(self)@.wf(),
            token_index.as_nat() < old(self)@.tokens.len(),
            !old(self)@.tokens[token_index.as_nat() as int].tag_spec().is_removed_spec(),
            !old(self)@.tokens[token_index.as_nat() as int].tag_spec().is_locked_spec(),
        ensures
            final(self)@.wf(),
            final(self)@ == old(self)@.remove_write(token_index),
    {
        let ghost v0 = self@;
        let ghost h = token_index.as_nat() as int;
        let idx = token_index.to_usize();
        let tag = self.tokens[idx].tag;
        let tag2 = tag.next();
        if tag2.equals(&tag) {
            let slot = &mut self.tokens[idx];
            slot.tag.mark_locked();
            proof {
                assert(!v0.is_free(h));
                assert(self@.tokens =~= v0.remove_write(token_index).tokens);
                assert(self@ =~= v0.remove_write(token_index));
                assert forall|g: int|
                    0 <= g < self@.tokens.len() && #[trigger] self@.is_free(g) implies {
                    &&& self@.tokens[g].tag.is_removed_spec()
                    &&& 0 <= self@.link_of(g) < self@.tokens.len()
                    &&& self@.is_free(self@.link_of(g))
                } by {
                    assert(g != h && v0.is_free(g));
                    assert(v0.link_of(g) != h);
                    assert(self@.tokens[self@.link_of(g)] == v0.tokens[v0.link_of(g)]);
                }
                assert forall|g1: int, g2: int|
                    0 <= g1 < g2 < self@.tokens.len() && #[trigger] self@.is_free(g1)
                        && #[trigger] self@.is_free(g2) && self@.link_of(g1) == self@.link_of(
                    g2,
                ) implies (self@.link_of(g1) == g1 || self@.link_of(g2) == g2) by {
                    assert(v0.is_free(g1) && v0.is_free(g2));
                }
                match v0.cursor {
                    Some(f) => {
                        assert(v0.is_free(f.as_nat() as int));
                        assert(f.as_nat() as int != h);
                        assert forall|g: int|
                            0 <= g < self@.tokens.len() && #[trigger] self@.is_free(g)
                                && self@.link_of(g) == f.as_nat() as int implies g
                            == f.as_nat() as int by {
                            assert(v0.is_free(g) && v0.link_of(g) == f.as_nat() as int);
                        }
                    },
                    None => {},
                }
                assert(self@.wf());
            }
        } else {
            let mut tag3 = tag2;
            tag3.set_removed(true);
            let link = match self.free_cursor {
                Some(f) => f,
                None => token_index,
            };
            self.tokens[idx] = Token { tag: tag3, data: TokenData::FreeLink(link) };
            self.free_cursor = Some(token_index);
            proof {
                tag2.law_with_removed(true);
                assert(!v0.is_free(h));
                assert(self@.tokens =~= v0.remove_write(token_index).tokens);
                assert(self@ =~= v0.remove_write(token_index));
                lemma_remove_free_wf(v0, token_index);
            }
        }
    }

    /// Redirects the handle `token_index` to a new slot inside its bucket,
    /// after the bucket moved the value.
    pub fn set_inbucket_index(&mut self, token_index: S, inbucket_index: S)
        requires
            old(self)@.wf(),
            token_index.as_nat() < old(self)@.tokens.len(),
            old(self)@.tokens[token_index.as_nat() as int].data_spec() is Location,
        ensures
            final(self)@.wf(),
            final(self)@.cursor == old(self)@.cursor,
            final(self)@.tokens.len() == old(self)@.tokens.len(),
            ({
                let h = token_index.as_nat() as int;
                let old_t = old(self)@.tokens[h];
                let new_t = final(self)@.tokens[h];
                &&& (forall|g: int|
                    0 <= g < old(self)@.tokens.len() && g != h
                        ==> final(self)@.tokens[g] == old(self)@.tokens[g])
                &&& new_t.tag_spec() == old_t.tag_spec()
                &&& (new_t.data_spec() matches TokenData::Location(l) && l.bucket_index_spec()
                    == old_t.data_spec()->Location_0.bucket_index_spec()
                    && l.inbucket_index_spec() == inbucket_index)
            }),
    {
        let ghost v0 = self@;
        let ghost h = token_index.as_nat() as int;
        let idx = token_index.to_usize();
        let bucket_index = match &self.tokens[idx].data {
            TokenData::Location(l) => l.bucket_index,
            TokenData::FreeLink(_) => unreached(),
        };
        let tag = self.tokens[idx].tag;
        self.tokens[idx] = Token {
            tag,
            data: TokenData::Location(Location { bucket_index, inbucket_index }),
        };
        proof {
            assert(!v0.is_free(h));
            assert forall|g: int|
                0 <= g < self@.tokens.len() && #[trigger] self@.is_free(g) implies {
                &&& self@.tokens[g].tag.is_removed_spec()
                &&& 0 <= self@.link_of(g) < self@.tokens.len()
                &&& self@.is_free(self@.link_of(g))
            } by {
                assert(g != h && v0.is_free(g));
                assert(v0.link_of(g) != h);
                assert(self@.tokens[self@.link_of(g)] == v0.tokens[v0.link_of(g)]);
            }
            assert forall|g1: int, g2: int|
                0 <= g1 < g2 < self@.tokens.len() && #[trigger] self@.is_free(g1)
                    && #[trigger] self@.is_free(g2) && self@.link_of(g1) == self@.link_of(
                g2,
            ) implies (self@.link_of(g1) == g1 || self@.link_of(g2) == g2) by {
                assert(v0.is_free(g1) && v0.is_free(g2));
            }
            match v0.cursor {
                Some(f) => {
                    assert(v0.is_free(f.as_nat() as int));
                    assert(f.as_nat() as int != h);
                    assert forall|g: int|
                        0 <= g < self@.tokens.len() && #[trigger] self@.is_free(g)
                            && self@.link_of(g) == f.as_nat() as int implies g == f.as_nat()
                        as int by {
                        assert(v0.is_free(g) && v0.link_of(g) == f.as_nat() as int);
                    }
                },
                None => {},
            }
            assert(self@.wf());
        }
    }

    /// The handle's slot, when `token_index` is within the table.
    pub fn try_get_token(&self, token_index: S) -> (r: Option<&Token<S, U>>)
        ensures
            match r {
                Some(t) => token_index.as_nat() < self@.tokens.len() && *t
                    == self@.tokens[token_index.as_nat() as int],
                None => token_index.as_nat() >= self@.tokens.len(),
            },
    {
        let idx = token_index.to_usize();
        if idx >= self.tokens.len() {
            return None;
        }
        Some(&self.tokens[idx])
    }

    /// Whether `token_index` is a live handle carrying exactly `tag`.
    pub fn contains(&self, token_index: S, tag: U) -> (r: bool)
        ensures
            r == ({
                let h = token_index.as_nat() as int;
                &&& token_index.as_nat() < self@.tokens.len()
                &&& self@.tokens[h].tag_spec() == tag
                &&& !self@.tokens[h].tag_spec().is_removed_spec()
                &&& !self@.tokens[h].tag_spec().is_locked_spec()
            }),
    {
        let idx = token_index.to_usize();
        if idx >= self.tokens.len() {
            return false;
        }
        let t = &self.tokens[idx];
        t.tag.equals(&tag) && !t.tag.is_removed() && !t.tag.is_locked()
    }

    /// Starts every tag over, keeping only the removed marker, so that reuse
    /// counting begins afresh.
    pub fn reset_tokens(&mut self)
        requires
            old(self)@.wf(),
        ensures
            final(self)@.wf(),
            final(self)@.cursor == old(self)@.cursor,
            final(self)@.tokens.len() == old(self)@.tokens.len(),
            forall|g: int|
                0 <= g < old(self)@.tokens.len() ==> ((#[trigger] final(self)@.tokens[g])
                    .tag_spec() == U::start_spec().with_removed_spec(
                    old(self)@.tokens[g].tag_spec().is_removed_spec(),
                ) && final(self)@.tokens[g].data_spec() == old(self)@.tokens[g].data_spec()),
    {
        let ghost v0 = self@;
        let n = self.tokens.len();
        let mut i: usize = 0;
        while i < n
            invariant
                v0.wf(),
                i <= n,
                n == v0.tokens.len(),
                self.free_cursor == v0.cursor,
                self.tokens@.len() == v0.tokens.len(),
                forall|g: int|
                    0 <= g < i ==> self.tokens@[g] == (Token {
                        tag: U::start_spec().with_removed_spec(
                            (#[trigger] v0.tokens[g]).tag_spec().is_removed_spec(),
                        ),
                        data: v0.tokens[g].data_spec(),
                    }),
                forall|g: int| i <= g < n ==> #[trigger] self.tokens@[g] == v0.tokens[g],
            decreases n - i,
        {
            let removed = self.tokens[i].tag.is_removed();
            let mut tag = U::start();
            tag.set_removed(removed);
            let data_keep = match &self.tokens[i].data {
                TokenData::Location(l) => TokenData::Location(*l),
                TokenData::FreeLink(s) => TokenData::FreeLink(*s),
            };
            self.tokens[i] = Token { tag, data: data_keep };
            proof {
                U::start_spec().law_with_removed(v0.tokens[i as int].tag_spec()
                    .is_removed_spec());
            }
            i = i + 1;
        }
        proof {
            assert forall|g: int|
                0 <= g < self@.tokens.len() && #[trigger] self@.is_free(g) implies {
                &&& self@.tokens[g].tag.is_removed_spec()
                &&& 0 <= self@.link_of(g) < self@.tokens.len()
                &&& self@.is_free(self@.link_of(g))
            } by {
                assert(v0.is_free(g));
                assert(self@.link_of(g) == v0.link_of(g));
                assert(self@.is_free(v0.link_of(g)));
                U::start_spec().law_with_removed(v0.tokens[g].tag_spec().is_removed_spec());
            }
            assert forall|g1: int, g2: int|
                0 <= g1 < g2 < self@.tokens.len() && #[trigger] self@.is_free(g1)
                    && #[trigger] self@.is_free(g2) && self@.link_of(g1) == self@.link_of(
                g2,
            ) implies (self@.link_of(g1) == g1 || self@.link_of(g2) == g2) by {
                assert(v0.is_free(g1) && v0.is_free(g2));
                assert(self@.link_of(g1) == v0.link_of(g1));
                assert(self@.link_of(g2) == v0.link_of(g2));
            }
            match v0.cursor {
                Some(f) => {
                    assert(v0.is_free(f.as_nat() as int));
                    assert(self@.is_free(f.as_nat() as int));
                    assert forall|g: int|
                        0 <= g < self@.tokens.len() && #[trigger] self@.is_free(g)
                            && self@.link_of(g) == f.as_nat() as int implies g == f.as_nat()
                        as int by {
                        assert(v0.is_free(g));
                        assert(self@.link_of(g) == v0.link_of(g));
                    }
                },
                None => {},
            }
            assert(self@.wf());
        }
    }

    /// Forgets every handle and empties the free chain.
    pub fn clear(&mut self)
        ensures
            final(self)@.wf(),
            final(self)@.tokens == Seq::<Token<S, U>>::empty(),
            final(self)@.cursor is None,
    {
        self.tokens.clear();
        self.free_cursor = None;
        proof {
            assert(self@.tokens =~= Seq::<Token<S, U>>::empty());
        }
    }

    /// Releases spare capacity; the handles stay as they are.
    pub fn shrink_to_fit(&mut self)
        ensures
            final(self)@ == old(self)@,
    {
        shrink_vec(&mut self.tokens);
        proof {
            assert(self@ =~= old(self)@);
        }
    }
}

impl<S: Size, U: UniqueTag> Default for TokenBucket<S, U> {
    fn default() -> (r: Self)
        ensures
            r@.wf(),
            r@.tokens == Seq::<Token<S, U>>::empty(),
            r@.cursor is None,
    {
        TokenBucket::new()
    }
}

/// Reusing the newest free slot keeps the handle table well-formed.
proof fn lemma_create_reuse_wf<S: Size, U: UniqueTag>(
    v: TokenBucketView<S, U>,
    bucket_index: S,
    inbucket_index: S,
)
    requires
        v.wf(),
        v.cursor is Some,
    ensures
        v.create_write(bucket_index, inbucket_index).0.wf(),
{
    let f = v.cursor->0;
    let h = f.as_nat() as int;
    let v2 = v.create_write(bucket_index, inbucket_index).0;
    let link = v.link_of(h);
    assert(!v2.is_free(h));
    assert forall|g: int|
        0 <= g < v2.tokens.len() && #[trigger] v2.is_free(g) implies {
        &&& v2.tokens[g].tag.is_removed_spec()
        &&& 0 <= v2.link_of(g) < v2.tokens.len()
        &&& v2.is_free(v2.link_of(g))
    } by {
        assert(g != h && v.is_free(g));
        assert(v2.link_of(g) == v.link_of(g));
        assert(v.link_of(g) != h);
        assert(v2.tokens[v.link_of(g)] == v.tokens[v.link_of(g)]);
    }
    assert forall|g1: int, g2: int|
        0 <= g1 < g2 < v2.tokens.len() && #[trigger] v2.is_free(g1) && #[trigger] v2.is_free(
        g2,
    ) && v2.link_of(g1) == v2.link_of(g2) implies (v2.link_of(g1) == g1 || v2.link_of(g2)
        == g2) by {
        assert(v.is_free(g1) && v.is_free(g2));
        assert(v2.link_of(g1) == v.link_of(g1) && v2.link_of(g2) == v.link_of(g2));
    }
    if link != h {
        assert(v2.cursor == Some(v.tokens[h].data->FreeLink_0));
        assert(v.tokens[h].data->FreeLink_0.as_nat() as int == link);
        assert(v.is_free(link));
        assert(v2.is_free(link));
        assert forall|g: int|
            0 <= g < v2.tokens.len() && #[trigger] v2.is_free(g) && v2.link_of(g)
                == link implies g == link by {
            assert(g != h && v.is_free(g));
            assert(v.link_of(g) == link);
            if g < h {
                assert(v.link_of(g) == g || v.link_of(h) == h);
            } else if h < g {
                assert(v.link_of(h) == h || v.link_of(g) == g);
            }
        }
    }
    assert(v2.wf());
}

/// Pushing a removed handle onto the free chain keeps the table well-formed.
proof fn lemma_remove_free_wf<S: Size, U: UniqueTag>(v: TokenBucketView<S, U>, t: S)
    requires
        v.wf(),
        t.as_nat() < v.tokens.len(),
        !v.tokens[t.as_nat() as int].tag_spec().is_removed_spec(),
        v.tokens[t.as_nat() as int].tag_spec().next_spec() != v.tokens[t.as_nat() as int]
            .tag_spec(),
    ensures
        v.remove_write(t).wf(),
{
    let h = t.as_nat() as int;
    let v2 = v.remove_write(t);
    assert(!v.is_free(h));
    v.tokens[h].tag_spec().next_spec().law_with_removed(true);
    assert(v2.is_free(h));
    assert forall|g: int|
        0 <= g < v2.tokens.len() && #[trigger] v2.is_free(g) implies {
        &&& v2.tokens[g].tag.is_removed_spec()
        &&& 0 <= v2.link_of(g) < v2.tokens.len()
        &&& v2.is_free(v2.link_of(g))
    } by {
        if g == h {
            match v.cursor {
                Some(f) => {
                    assert(v2.link_of(h) == f.as_nat() as int);
                    assert(v.is_free(f.as_nat() as int));
                    assert(f.as_nat() as int != h);
                    assert(v2.is_free(f.as_nat() as int));
                },
                None => {
                    assert(v2.link_of(h) == h);
                },
            }
        } else {
            assert(v.is_free(g));
            assert(v2.link_of(g) == v.link_of(g));
            assert(v.link_of(g) != h);
            assert(v2.tokens[v.link_of(g)] == v.tokens[v.link_of(g)]);
        }
    }
    assert forall|g1: int, g2: int|
        0 <= g1 < g2 < v2.tokens.len() && #[trigger] v2.is_free(g1) && #[trigger] v2.is_free(
        g2,
    ) && v2.link_of(g1) == v2.link_of(g2) implies (v2.link_of(g1) == g1 || v2.link_of(g2)
        == g2) by {
        if g1 != h && g2 != h {
            assert(v.is_free(g1) && v.is_free(g2));
            assert(v2.link_of(g1) == v.link_of(g1) && v2.link_of(g2) == v.link_of(g2));
        } else {
            match v.cursor {
                Some(f) => {
                    let fh = f.as_nat() as int;
                    if g1 == h {
                        assert(v2.link_of(h) == fh);
                        assert(v.is_free(g2) && v.link_of(g2) == fh);
                        assert(g2 == fh);
                    } else {
                        assert(v2.link_of(h) == fh);
                        assert(v.is_free(g1) && v.link_of(g1) == fh);
                        assert(g1 == fh);
                    }
                },
                None => {
                    assert(v2.link_of(h) == h);
                },
            }
        }
    }
    assert(v2.cursor == Some(t));
    assert forall|g: int|
        0 <= g < v2.tokens.len() && #[trigger] v2.is_free(g) && v2.link_of(g) == h implies g
        == h by {
        if g != h {
            assert(v.is_free(g));
            assert(v.link_of(g) == h);
        }
    }
    assert(v2.wf());
}

} // verus!
