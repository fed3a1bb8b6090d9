//! Reuse tags and index widths for the handle table.

use vstd::prelude::*;

verus! {

/// A tag that makes a reused handle recognisable: it advances on every
/// removal, carries a removed marker, and can end up locked when its counter
/// is spent.
pub trait UniqueTag: Sized + Copy {
    /// The tag a fresh handle starts with.
    spec fn start_spec() -> Self;

    /// The successor of this tag's counter, saturating at the last value.
    spec fn next_spec(self) -> Self;

    /// Whether the removed marker is set.
    spec fn is_removed_spec(self) -> bool;

    /// This tag with the removed marker set or cleared.
    spec fn with_removed_spec(self, removed: bool) -> Self;

    /// Whether this tag marks a handle that is spent for good.
    spec fn is_locked_spec(self) -> bool;

    /// This tag after the handle is declared spent; a wrapping tag has no
    /// such state and stays as it is.
    spec fn lock_write(self) -> Self;

    /// The largest counter value, clipped to `usize`.
    spec fn last_spec() -> usize;

    /// This tag's counter, clipped to `usize`.
    spec fn current_spec(self) -> usize;

    /// Setting the removed marker leaves exactly that marker behind.
    proof fn law_with_removed(self, removed: bool)
        ensures
            self.with_removed_spec(removed).is_removed_spec() == removed,
    ;

    fn start() -> (r: Self)
        ensures
            r == Self::start_spec(),
    ;

    fn next(self) -> (r: Self)
        ensures
            r == self.next_spec(),
    ;

    fn last(self) -> (r: usize)
        ensures
            r == Self::last_spec(),
    ;

    fn current(self) -> (r: usize)
        ensures
            r == self.current_spec(),
    ;

    fn is_removed(&self) -> (r: bool)
        ensures
            r == self.is_removed_spec(),
    ;

    fn set_removed(&mut self, removed: bool)
        ensures
            *final(self) == old(self).with_removed_spec(removed),
    ;

    fn is_locked(&self) -> (r: bool)
        ensures
            r == self.is_locked_spec(),
    ;

    fn mark_locked(&mut self)
        ensures
            *final(self) == old(self).lock_write(),
    ;

    fn equals(&self, other: &Self) -> (r: bool)
        ensures
            r == (*self == *other),
    ;
}

/// A saturating tag over `u32`, with the top bit as the removed marker; the
/// marker value alone means locked.
#[derive(Clone, Copy, PartialEq, Eq, Structural, Hash, Debug)]
pub struct Unique32(u32);

impl UniqueTag for Unique32 {
    closed spec fn start_spec() -> Self {
        Unique32(0)
    }

    closed spec fn next_spec(self) -> Self {
        if self.0 >= 0x7fff_ffffu32 {
            Unique32(0x7fff_ffffu32)
        } else {
            Unique32((self.0 + 1) as u32)
        }
    }

    closed spec fn is_removed_spec(self) -> bool {
        self.0 >= 0x8000_0000u32
    }

    closed spec fn with_removed_spec(self, removed: bool) -> Self {
        if removed {
            if self.0 < 0x8000_0000u32 {
                Unique32((self.0 + 0x8000_0000u32) as u32)
            } else {
                self
            }
        } else {
            if self.0 >= 0x8000_0000u32 {
                Unique32((self.0 - 0x8000_0000u32) as u32)
            } else {
                self
            }
        }
    }

    closed spec fn is_locked_spec(self) -> bool {
        self.0 == 0x8000_0000u32
    }

    closed spec fn lock_write(self) -> Self {
        Unique32(0x8000_0000u32)
    }

    closed spec fn last_spec() -> usize {
        0x7fff_ffffu32 as usize
    }

    closed spec fn current_spec(self) -> usize {
        self.0 as usize
    }

    proof fn law_with_removed(self, removed: bool) {
    }

    fn start() -> (r: Self) {
        Unique32(0)
    }

    fn next(self) -> (r: Self) {
        if self.0 >= 0x7fff_ffffu32 {
            Unique32(0x7fff_ffffu32)
        } else {
            Unique32(self.0 + 1)
        }
    }

    fn last(self) -> (r: usize) {
        #[verifier::truncate] (0x7fff_ffffu32 as usize)
    }

    fn current(self) -> (r: usize) {
        #[verifier::truncate] (self.0 as usize)
    }

    fn is_removed(&self) -> (r: bool) {
        self.0 >= 0x8000_0000u32
    }

    fn set_removed(&mut self, removed: bool) {
        if removed {
            if self.0 < 0x8000_0000u32 {
                self.0 = self.0 + 0x8000_0000u32;
            }
        } else {
            if self.0 >= 0x8000_0000u32 {
                self.0 = self.0 - 0x8000_0000u32;
            }
        }
    }

    fn is_locked(&self) -> (r: bool) {
        self.0 == 0x8000_0000u32
    }

    fn mark_locked(&mut self) {
        self.0 = 0x8000_0000u32;
    }

    fn equals(&self, other: &Self) -> (r: bool) {
        self.0 == other.0
    }
}

/// A saturating tag over `u64`, with the top bit as the removed marker; the
/// marker value alone means locked.
#[derive(Clone, Copy, PartialEq, Eq, Structural, Hash, Debug)]
pub struct Unique64(u64);

impl UniqueTag for Unique64 {
    closed spec fn start_spec() -> Self {
        Unique64(0)
    }

    closed spec fn next_spec(self) -> Self {
        if self.0 >= 0x7fff_ffff_ffff_ffffu64 {
            Unique64(0x7fff_ffff_ffff_ffffu64)
        } else {
            Unique64((self.0 + 1) as u64)
        }
    }

    closed spec fn is_removed_spec(self) -> bool {
        self.0 >= 0x8000_0000_0000_0000u64
    }

    closed spec fn with_removed_spec(self, removed: bool) -> Self {
        if removed {
            if self.0 < 0x8000_0000_0000_0000u64 {
                Unique64((self.0 + 0x8000_0000_0000_0000u64) as u64)
            } else {
                self
            }
        } else {
            if self.0 >= 0x8000_0000_0000_0000u64 {
                Unique64((self.0 - 0x8000_0000_0000_0000u64) as u64)
            } else {
                self
            }
        }
    }

    closed spec fn is_locked_spec(self) -> bool {
        self.0 == 0x8000_0000_0000_0000u64
    }

    closed spec fn lock_write(self) -> Self {
        Unique64(0x8000_0000_0000_0000u64)
    }

    closed spec fn last_spec() -> usize {
        0x7fff_ffff_ffff_ffffu64 as usize
    }

    closed spec fn current_spec(self) -> usize {
        self.0 as usize
    }

    proof fn law_with_removed(self, removed: bool) {
    }

    fn start() -> (r: Self) {
        Unique64(0)
    }

    fn next(self) -> (r: Self) {
        if self.0 >= 0x7fff_ffff_ffff_ffffu64 {
            Unique64(0x7fff_ffff_ffff_ffffu64)
        } else {
            Unique64(self.0 + 1)
        }
    }

    fn last(self) -> (r: usize) {
        #[verifier::truncate] (0x7fff_ffff_ffff_ffffu64 as usize)
    }

    fn current(self) -> (r: usize) {
        #[verifier::truncate] (self.0 as usize)
    }

    fn is_removed(&self) -> (r: bool) {
        self.0 >= 0x8000_0000_0000_0000u64
    }

    fn set_removed(&mut self, removed: bool) {
        if removed {
            if self.0 < 0x8000_0000_0000_0000u64 {
                self.0 = self.0 + 0x8000_0000_0000_0000u64;
            }
        } else {
            if self.0 >= 0x8000_0000_0000_0000u64 {
                self.0 = self.0 - 0x8000_0000_0000_0000u64;
            }
        }
    }

    fn is_locked(&self) -> (r: bool) {
        self.0 == 0x8000_0000_0000_0000u64
    }

    fn mark_locked(&mut self) {
        self.0 = 0x8000_0000_0000_0000u64;
    }

    fn equals(&self, other: &Self) -> (r: bool) {
        self.0 == other.0
    }
}

/// A saturating tag over `u128`, with the top bit as the removed marker; the
/// marker value alone means locked.
#[derive(Clone, Copy, PartialEq, Eq, Structural, Hash, Debug)]
pub struct Unique128(u128);

impl UniqueTag for Unique128 {
    closed spec fn start_spec() -> Self {
        Unique128(0)
    }

    closed spec fn next_spec(self) -> Self {
        if self.0 >= 0x7fff_ffff_ffff_ffff_ffff_ffff_ffff_ffffu128 {
            Unique128(0x7fff_ffff_ffff_ffff_ffff_ffff_ffff_ffffu128)
        } else {
            Unique128((self.0 + 1) as u128)
        }
    }

    closed spec fn is_removed_spec(self) -> bool {
        self.0 >= 0x8000_0000_0000_0000_0000_0000_0000_0000u128
    }

    closed spec fn with_removed_spec(self, removed: bool) -> Self {
        if removed {
            if self.0 < 0x8000_0000_0000_0000_0000_0000_0000_0000u128 {
                Unique128((self.0 + 0x8000_0000_0000_0000_0000_0000_0000_0000u128) as u128)
            } else {
                self
            }
        } else {
            if self.0 >= 0x8000_0000_0000_0000_0000_0000_0000_0000u128 {
                Unique128((self.0 - 0x8000_0000_0000_0000_0000_0000_0000_0000u128) as u128)
            } else {
                self
            }
        }
    }

    closed spec fn is_locked_spec(self) -> bool {
        self.0 == 0x8000_0000_0000_0000_0000_0000_0000_0000u128
    }

    closed spec fn lock_write(self) -> Self {
        Unique128(0x8000_0000_0000_0000_0000_0000_0000_0000u128)
    }

    closed spec fn last_spec() -> usize {
        0x7fff_ffff_ffff_ffff_ffff_ffff_ffff_ffffu128 as usize
    }

    closed spec fn current_spec(self) -> usize {
        self.0 as usize
    }

    proof fn law_with_removed(self, removed: bool) {
    }

    fn start() -> (r: Self) {
        Unique128(0)
    }

    fn next(self) -> (r: Self) {
        if self.0 >= 0x7fff_ffff_ffff_ffff_ffff_ffff_ffff_ffffu128 {
            Unique128(0x7fff_ffff_ffff_ffff_ffff_ffff_ffff_ffffu128)
        } else {
            Unique128(self.0 + 1)
        }
    }

    fn last(self) -> (r: usize) {
        #[verifier::truncate] (0x7fff_ffff_ffff_ffff_ffff_ffff_ffff_ffffu128 as usize)
    }

    fn current(self) -> (r: usize) {
        #[verifier::truncate] (self.0 as usize)
    }

    fn is_removed(&self) -> (r: bool) {
        self.0 >= 0x8000_0000_0000_0000_0000_0000_0000_0000u128
    }

    fn set_removed(&mut self, removed: bool) {
        if removed {
            if self.0 < 0x8000_0000_0000_0000_0000_0000_0000_0000u128 {
                self.0 = self.0 + 0x8000_0000_0000_0000_0000_0000_0000_0000u128;
            }
        } else {
            if self.0 >= 0x8000_0000_0000_0000_0000_0000_0000_0000u128 {
                self.0 = self.0 - 0x8000_0000_0000_0000_0000_0000_0000_0000u128;
            }
        }
    }

    fn is_locked(&self) -> (r: bool) {
        self.0 == 0x8000_0000_0000_0000_0000_0000_0000_0000u128
    }

    fn mark_locked(&mut self) {
        self.0 = 0x8000_0000_0000_0000_0000_0000_0000_0000u128;
    }

    fn equals(&self, other: &Self) -> (r: bool) {
        self.0 == other.0
    }
}

/// A wrapping tag over `u32`, with the top bit as the removed marker; it
/// never locks, so handles are reused without end.
#[derive(Clone, Copy, PartialEq, Eq, Structural, Hash, Debug)]
pub struct RepeatIn32(u32);

impl UniqueTag for RepeatIn32 {
    closed spec fn start_spec() -> Self {
        RepeatIn32(0)
    }

    closed spec fn next_spec(self) -> Self {
        if self.0 >= 0xffff_ffffu32 {
            RepeatIn32(0)
        } else {
            RepeatIn32((self.0 + 1) as u32)
        }
    }

    closed spec fn is_removed_spec(self) -> bool {
        self.0 >= 0x8000_0000u32
    }

    closed spec fn with_removed_spec(self, removed: bool) -> Self {
        if removed {
            if self.0 < 0x8000_0000u32 {
                RepeatIn32((self.0 + 0x8000_0000u32) as u32)
            } else {
                self
            }
        } else {
            if self.0 >= 0x8000_0000u32 {
                RepeatIn32((self.0 - 0x8000_0000u32) as u32)
            } else {
                self
            }
        }
    }

    closed spec fn is_locked_spec(self) -> bool {
        false
    }

    closed spec fn lock_write(self) -> Self {
        self
    }

    closed spec fn last_spec() -> usize {
        0x8000_0000u32 as usize
    }

    closed spec fn current_spec(self) -> usize {
        self.0 as usize
    }

    proof fn law_with_removed(self, removed: bool) {
    }

    fn start() -> (r: Self) {
        RepeatIn32(0)
    }

    fn next(self) -> (r: Self) {
        if self.0 >= 0xffff_ffffu32 {
            RepeatIn32(0)
        } else {
            RepeatIn32(self.0 + 1)
        }
    }

    fn last(self) -> (r: usize) {
        #[verifier::truncate] (0x8000_0000u32 as usize)
    }

    fn current(self) -> (r: usize) {
        #[verifier::truncate] (self.0 as usize)
    }

    fn is_removed(&self) -> (r: bool) {
        self.0 >= 0x8000_0000u32
    }

    fn set_removed(&mut self, removed: bool) {
        if removed {
            if self.0 < 0x8000_0000u32 {
                self.0 = self.0 + 0x8000_0000u32;
            }
        } else {
            if self.0 >= 0x8000_0000u32 {
                self.0 = self.0 - 0x8000_0000u32;
            }
        }
    }

    fn is_locked(&self) -> (r: bool) {
        false
    }

    fn mark_locked(&mut self) {
    }

    fn equals(&self, other: &Self) -> (r: bool) {
        self.0 == other.0
    }
}

/// A wrapping tag over `u64`, with the top bit as the removed marker; it
/// never locks, so handles are reused without end.
#[derive(Clone, Copy, PartialEq, Eq, Structural, Hash, Debug)]
pub struct RepeatIn64(u64);

impl UniqueTag for RepeatIn64 {
    closed spec fn start_spec() -> Self {
        RepeatIn64(0)
    }

    closed spec fn next_spec(self) -> Self {
        if self.0 >= 0xffff_ffff_ffff_ffffu64 {
            RepeatIn64(0)
        } else {
            RepeatIn64((self.0 + 1) as u64)
        }
    }

    closed spec fn is_removed_spec(self) -> bool {
        self.0 >= 0x8000_0000_0000_0000u64
    }

    closed spec fn with_removed_spec(self, removed: bool) -> Self {
        if removed {
            if self.0 < 0x8000_0000_0000_0000u64 {
                RepeatIn64((self.0 + 0x8000_0000_0000_0000u64) as u64)
            } else {
                self
            }
        } else {
            if self.0 >= 0x8000_0000_0000_0000u64 {
                RepeatIn64((self.0 - 0x8000_0000_0000_0000u64) as u64)
            } else {
                self
            }
        }
    }

    closed spec fn is_locked_spec(self) -> bool {
        false
    }

    closed spec fn lock_write(self) -> Self {
        self
    }

    closed spec fn last_spec() -> usize {
        0x8000_0000_0000_0000u64 as usize
    }

    closed spec fn current_spec(self) -> usize {
        self.0 as usize
    }

    proof fn law_with_removed(self, removed: bool) {
    }

    fn start() -> (r: Self) {
        RepeatIn64(0)
    }

    fn next(self) -> (r: Self) {
        if self.0 >= 0xffff_ffff_ffff_ffffu64 {
            RepeatIn64(0)
        } else {
            RepeatIn64(self.0 + 1)
        }
    }

    fn last(self) -> (r: usize) {
        #[verifier::truncate] (0x8000_0000_0000_0000u64 as usize)
    }

    fn current(self) -> (r: usize) {
        #[verifier::truncate] (self.0 as usize)
    }

    fn is_removed(&self) -> (r: bool) {
        self.0 >= 0x8000_0000_0000_0000u64
    }

    fn set_removed(&mut self, removed: bool) {
        if removed {
            if self.0 < 0x8000_0000_0000_0000u64 {
                self.0 = self.0 + 0x8000_0000_0000_0000u64;
            }
        } else {
            if self.0 >= 0x8000_0000_0000_0000u64 {
                self.0 = self.0 - 0x8000_0000_0000_0000u64;
            }
        }
    }

    fn is_locked(&self) -> (r: bool) {
        false
    }

    fn mark_locked(&mut self) {
    }

    fn equals(&self, other: &Self) -> (r: bool) {
        self.0 == other.0
    }
}

/// A wrapping tag over `u128`, with the top bit as the removed marker; it
/// never locks, so handles are reused without end.
#[derive(Clone, Copy, PartialEq, Eq, Structural, Hash, Debug)]
pub struct RepeatIn128(u128);

impl UniqueTag for RepeatIn128 {
    closed spec fn start_spec() -> Self {
        RepeatIn128(0)
    }

    closed spec fn next_spec(self) -> Self {
        if self.0 >= 0xffff_ffff_ffff_ffff_ffff_ffff_ffff_ffffu128 {
            RepeatIn128(0)
        } else {
            RepeatIn128((self.0 + 1) as u128)
        }
    }

    closed spec fn is_removed_spec(self) -> bool {
        self.0 >= 0x8000_0000_0000_0000_0000_0000_0000_0000u128
    }

    closed spec fn with_removed_spec(self, removed: bool) -> Self {
        if removed {
            if self.0 < 0x8000_0000_0000_0000_0000_0000_0000_0000u128 {
                RepeatIn128((self.0 + 0x8000_0000_0000_0000_0000_0000_0000_0000u128) as u128)
            } else {
                self
            }
        } else {
            if self.0 >= 0x8000_0000_0000_0000_0000_0000_0000_0000u128 {
                RepeatIn128((self.0 - 0x8000_0000_0000_0000_0000_0000_0000_0000u128) as u128)
            } else {
                self
            }
        }
    }

    closed spec fn is_locked_spec(self) -> bool {
        false
    }

    closed spec fn lock_write(self) -> Self {
        self
    }

    closed spec fn last_spec() -> usize {
        0x8000_0000_0000_0000_0000_0000_0000_0000u128 as usize
    }

    closed spec fn current_spec(self) -> usize {
        self.0 as usize
    }

    proof fn law_with_removed(self, removed: bool) {
    }

    fn start() -> (r: Self) {
        RepeatIn128(0)
    }

    fn next(self) -> (r: Self) {
        if self.0 >= 0xffff_ffff_ffff_ffff_ffff_ffff_ffff_ffffu128 {
            RepeatIn128(0)
        } else {
            RepeatIn128(self.0 + 1)
        }
    }

    fn last(self) -> (r: usize) {
        #[verifier::truncate] (0x8000_0000_0000_0000_0000_0000_0000_0000u128 as usize)
    }

    fn current(self) -> (r: usize) {
        #[verifier::truncate] (self.0 as usize)
    }

    fn is_removed(&self) -> (r: bool) {
        self.0 >= 0x8000_0000_0000_0000_0000_0000_0000_0000u128
    }

    fn set_removed(&mut self, removed: bool) {
        if removed {
            if self.0 < 0x8000_0000_0000_0000_0000_0000_0000_0000u128 {
                self.0 = self.0 + 0x8000_0000_0000_0000_0000_0000_0000_0000u128;
            }
        } else {
            if self.0 >= 0x8000_0000_0000_0000_0000_0000_0000_0000u128 {
                self.0 = self.0 - 0x8000_0000_0000_0000_0000_0000_0000_0000u128;
            }
        }
    }

    fn is_locked(&self) -> (r: bool) {
        false
    }

    fn mark_locked(&mut self) {
    }

    fn equals(&self, other: &Self) -> (r: bool) {
        self.0 == other.0
    }
}

/// The width of the indices a handle table works with.
pub trait Size: Sized + Copy {
    /// The index as a number.
    spec fn as_nat(self) -> nat;

    /// The largest representable index.
    spec fn max_spec() -> nat;

    fn from_usize(value: usize) -> (r: Self)
        requires
            value as nat <= Self::max_spec(),
        ensures
            r.as_nat() == value,
    ;

    fn to_usize(self) -> (r: usize)
        ensures
            r as nat == self.as_nat(),
    ;

    fn max() -> (r: usize)
        ensures
            r as nat == Self::max_spec(),
    ;

    fn equals(&self, other: &Self) -> (r: bool)
        ensures
            r == (self.as_nat() == other.as_nat()),
    ;
}

/// Indices stored as `u32`.
#[derive(Clone, Copy, PartialEq, Eq, Structural, Hash, Debug, Default)]
pub struct U32Size(u32);

impl Size for U32Size {
    closed spec fn as_nat(self) -> nat {
        self.0 as nat
    }

    closed spec fn max_spec() -> nat {
        u32::MAX as nat
    }

    fn from_usize(value: usize) -> (r: Self) {
        U32Size(value as u32)
    }

    fn to_usize(self) -> (r: usize) {
        self.0 as usize
    }

    fn max() -> (r: usize) {
        u32::MAX as usize
    }

    fn equals(&self, other: &Self) -> (r: bool) {
        self.0 == other.0
    }
}

/// Indices stored as `usize`.
#[derive(Clone, Copy, PartialEq, Eq, Structural, Hash, Debug, Default)]
pub struct USize(usize);

impl Size for USize {
    closed spec fn as_nat(self) -> nat {
        self.0 as nat
    }

    closed spec fn max_spec() -> nat {
        usize::MAX as nat
    }

    fn from_usize(value: usize) -> (r: Self) {
        USize(value)
    }

    fn to_usize(self) -> (r: usize) {
        self.0
    }

    fn max() -> (r: usize) {
        usize::MAX
    }

    fn equals(&self, other: &Self) -> (r: bool) {
        self.0 == other.0
    }
}

} // verus!
