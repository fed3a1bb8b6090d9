//! Generation-counter policies: blocking (saturating), wrapping, and none.

use vstd::prelude::*;

verus! {

/// A generation-counter policy.
///
/// A counter starts at [`Cycle::start`], advances by [`Cycle::next`] on every
/// reuse of a cell, and may become exhausted ([`Cycle::is_over`]), after which
/// a blocking policy forbids further placements at that cell.
pub trait Cycle: Sized + Copy {
    /// The value a fresh counter holds.
    spec fn start_spec() -> Self;

    /// The successor of this counter value.
    spec fn next_spec(self) -> Self;

    /// Whether this counter value admits no further placement.
    spec fn over_spec(self) -> bool;

    /// This counter value read as a number.
    spec fn current_spec(self) -> nat;

    /// The largest number a counter of this policy can report.
    spec fn max_spec() -> nat;

    fn start() -> (r: Self)
        ensures
            r == Self::start_spec(),
    ;

    fn next(self) -> (r: Self)
        ensures
            r == self.next_spec(),
    ;

    fn is_over(&self) -> (r: bool)
        ensures
            r == self.over_spec(),
    ;

    fn current(&self) -> (r: u128)
        ensures
            r as nat == self.current_spec(),
    ;

    fn max(&self) -> (r: u128)
        ensures
            r as nat == Self::max_spec(),
    ;

    fn equals(&self, other: &Self) -> (r: bool)
        ensures
            r == (*self == *other),
    ;
}

/// A policy without generations: every value is the same, nothing is ever
/// exhausted, and stale identifiers are not detected.
#[derive(Clone, Copy, PartialEq, Eq, Structural, Hash, Debug)]
pub struct NoCycle;

impl Cycle for NoCycle {
    closed spec fn start_spec() -> Self {
        NoCycle
    }

    closed spec fn next_spec(self) -> Self {
        self
    }

    closed spec fn over_spec(self) -> bool {
        false
    }

    closed spec fn current_spec(self) -> nat {
        0
    }

    closed spec fn max_spec() -> nat {
        0
    }

    fn start() -> (r: Self) {
        NoCycle
    }

    fn next(self) -> (r: Self) {
        self
    }

    fn is_over(&self) -> (r: bool) {
        false
    }

    fn current(&self) -> (r: u128) {
        0
    }

    fn max(&self) -> (r: u128) {
        0
    }

    fn equals(&self, other: &Self) -> (r: bool) {
        true
    }
}

/// A saturating counter over `u8`: exhausted at `u8::MAX`.
#[derive(Clone, Copy, PartialEq, Eq, Structural, Hash, Debug)]
pub struct Blocking8(u8);

impl Cycle for Blocking8 {
    closed spec fn start_spec() -> Self {
        Blocking8(0)
    }

    closed spec fn next_spec(self) -> Self {
        if self.0 == u8::MAX {
            self
        } else {
            Blocking8((self.0 + 1) as u8)
        }
    }

    closed spec fn over_spec(self) -> bool {
        self.0 == u8::MAX
    }

    closed spec fn current_spec(self) -> nat {
        self.0 as nat
    }

    closed spec fn max_spec() -> nat {
        u8::MAX as nat
    }

    fn start() -> (r: Self) {
        Blocking8(0)
    }

    fn next(self) -> (r: Self) {
        if self.0 == u8::MAX {
            self
        } else {
            Blocking8(self.0 + 1)
        }
    }

    fn is_over(&self) -> (r: bool) {
        self.0 == u8::MAX
    }

    fn current(&self) -> (r: u128) {
        self.0 as u128
    }

    fn max(&self) -> (r: u128) {
        u8::MAX as u128
    }

    fn equals(&self, other: &Self) -> (r: bool) {
        self.0 == other.0
    }
}

/// A saturating counter over `u32`: exhausted at `u32::MAX`.
#[derive(Clone, Copy, PartialEq, Eq, Structural, Hash, Debug)]
pub struct Blocking32(u32);

impl Cycle for Blocking32 {
    closed spec fn start_spec() -> Self {
        Blocking32(0)
    }

    closed spec fn next_spec(self) -> Self {
        if self.0 == u32::MAX {
            self
        } else {
            Blocking32((self.0 + 1) as u32)
        }
    }

    closed spec fn over_spec(self) -> bool {
        self.0 == u32::MAX
    }

    closed spec fn current_spec(self) -> nat {
        self.0 as nat
    }

    closed spec fn max_spec() -> nat {
        u32::MAX as nat
    }

    fn start() -> (r: Self) {
        Blocking32(0)
    }

    fn next(self) -> (r: Self) {
        if self.0 == u32::MAX {
            self
        } else {
            Blocking32(self.0 + 1)
        }
    }

    fn is_over(&self) -> (r: bool) {
        self.0 == u32::MAX
    }

    fn current(&self) -> (r: u128) {
        self.0 as u128
    }

    fn max(&self) -> (r: u128) {
        u32::MAX as u128
    }

    fn equals(&self, other: &Self) -> (r: bool) {
        self.0 == other.0
    }
}

/// A saturating counter over `u64`: exhausted at `u64::MAX`.
#[derive(Clone, Copy, PartialEq, Eq, Structural, Hash, Debug)]
pub struct Blocking64(u64);

impl Cycle for Blocking64 {
    closed spec fn start_spec() -> Self {
        Blocking64(0)
    }

    closed spec fn next_spec(self) -> Self {
        if self.0 == u64::MAX {
            self
        } else {
            Blocking64((self.0 + 1) as u64)
        }
    }

    closed spec fn over_spec(self) -> bool {
        self.0 == u64::MAX
    }

    closed spec fn current_spec(self) -> nat {
        self.0 as nat
    }

    closed spec fn max_spec() -> nat {
        u64::MAX as nat
    }

    fn start() -> (r: Self) {
        Blocking64(0)
    }

    fn next(self) -> (r: Self) {
        if self.0 == u64::MAX {
            self
        } else {
            Blocking64(self.0 + 1)
        }
    }

    fn is_over(&self) -> (r: bool) {
        self.0 == u64::MAX
    }

    fn current(&self) -> (r: u128) {
        self.0 as u128
    }

    fn max(&self) -> (r: u128) {
        u64::MAX as u128
    }

    fn equals(&self, other: &Self) -> (r: bool) {
        self.0 == other.0
    }
}

/// A saturating counter over `u128`: exhausted at `u128::MAX`.
#[derive(Clone, Copy, PartialEq, Eq, Structural, Hash, Debug)]
pub struct Blocking128(u128);

impl Cycle for Blocking128 {
    closed spec fn start_spec() -> Self {
        Blocking128(0)
    }

    closed spec fn next_spec(self) -> Self {
        if self.0 == u128::MAX {
            self
        } else {
            Blocking128((self.0 + 1) as u128)
        }
    }

    closed spec fn over_spec(self) -> bool {
        self.0 == u128::MAX
    }

    closed spec fn current_spec(self) -> nat {
        self.0 as nat
    }

    closed spec fn max_spec() -> nat {
        u128::MAX as nat
    }

    fn start() -> (r: Self) {
        Blocking128(0)
    }

    fn next(self) -> (r: Self) {
        if self.0 == u128::MAX {
            self
        } else {
            Blocking128(self.0 + 1)
        }
    }

    fn is_over(&self) -> (r: bool) {
        self.0 == u128::MAX
    }

    fn current(&self) -> (r: u128) {
        self.0
    }

    fn max(&self) -> (r: u128) {
        u128::MAX
    }

    fn equals(&self, other: &Self) -> (r: bool) {
        self.0 == other.0
    }
}

/// A wrapping counter over `u8`: never exhausted, reuses may alias.
#[derive(Clone, Copy, PartialEq, Eq, Structural, Hash, Debug)]
pub struct NonBlocking8(u8);

impl Cycle for NonBlocking8 {
    closed spec fn start_spec() -> Self {
        NonBlocking8(0)
    }

    closed spec fn next_spec(self) -> Self {
        if self.0 == u8::MAX {
            NonBlocking8(0)
        } else {
            NonBlocking8((self.0 + 1) as u8)
        }
    }

    closed spec fn over_spec(self) -> bool {
        false
    }

    closed spec fn current_spec(self) -> nat {
        self.0 as nat
    }

    closed spec fn max_spec() -> nat {
        u8::MAX as nat
    }

    fn start() -> (r: Self) {
        NonBlocking8(0)
    }

    fn next(self) -> (r: Self) {
        if self.0 == u8::MAX {
            NonBlocking8(0)
        } else {
            NonBlocking8(self.0 + 1)
        }
    }

    fn is_over(&self) -> (r: bool) {
        false
    }

    fn current(&self) -> (r: u128) {
        self.0 as u128
    }

    fn max(&self) -> (r: u128) {
        u8::MAX as u128
    }

    fn equals(&self, other: &Self) -> (r: bool) {
        self.0 == other.0
    }
}

/// A wrapping counter over `u32`: never exhausted, reuses may alias.
#[derive(Clone, Copy, PartialEq, Eq, Structural, Hash, Debug)]
pub struct NonBlocking32(u32);

impl Cycle for NonBlocking32 {
    closed spec fn start_spec() -> Self {
        NonBlocking32(0)
    }

    closed spec fn next_spec(self) -> Self {
        if self.0 == u32::MAX {
            NonBlocking32(0)
        } else {
            NonBlocking32((self.0 + 1) as u32)
        }
    }

    closed spec fn over_spec(self) -> bool {
        false
    }

    closed spec fn current_spec(self) -> nat {
        self.0 as nat
    }

    closed spec fn max_spec() -> nat {
        u32::MAX as nat
    }

    fn start() -> (r: Self) {
        NonBlocking32(0)
    }

    fn next(self) -> (r: Self) {
        if self.0 == u32::MAX {
            NonBlocking32(0)
        } else {
            NonBlocking32(self.0 + 1)
        }
    }

    fn is_over(&self) -> (r: bool) {
        false
    }

    fn current(&self) -> (r: u128) {
        self.0 as u128
    }

    fn max(&self) -> (r: u128) {
        u32::MAX as u128
    }

    fn equals(&self, other: &Self) -> (r: bool) {
        self.0 == other.0
    }
}

/// A wrapping counter over `u64`: never exhausted, reuses may alias.
#[derive(Clone, Copy, PartialEq, Eq, Structural, Hash, Debug)]
pub struct NonBlocking64(u64);

impl Cycle for NonBlocking64 {
    closed spec fn start_spec() -> Self {
        NonBlocking64(0)
    }

    closed spec fn next_spec(self) -> Self {
        if self.0 == u64::MAX {
            NonBlocking64(0)
        } else {
            NonBlocking64((self.0 + 1) as u64)
        }
    }

    closed spec fn over_spec(self) -> bool {
        false
    }

    closed spec fn current_spec(self) -> nat {
        self.0 as nat
    }

    closed spec fn max_spec() -> nat {
        u64::MAX as nat
    }

    fn start() -> (r: Self) {
        NonBlocking64(0)
    }

    fn next(self) -> (r: Self) {
        if self.0 == u64::MAX {
            NonBlocking64(0)
        } else {
            NonBlocking64(self.0 + 1)
        }
    }

    fn is_over(&self) -> (r: bool) {
        false
    }

    fn current(&self) -> (r: u128) {
        self.0 as u128
    }

    fn max(&self) -> (r: u128) {
        u64::MAX as u128
    }

    fn equals(&self, other: &Self) -> (r: bool) {
        self.0 == other.0
    }
}

/// A wrapping counter over `u128`: never exhausted, reuses may alias.
#[derive(Clone, Copy, PartialEq, Eq, Structural, Hash, Debug)]
pub struct NonBlocking128(u128);

impl Cycle for NonBlocking128 {
    closed spec fn start_spec() -> Self {
        NonBlocking128(0)
    }

    closed spec fn next_spec(self) -> Self {
        if self.0 == u128::MAX {
            NonBlocking128(0)
        } else {
            NonBlocking128((self.0 + 1) as u128)
        }
    }

    closed spec fn over_spec(self) -> bool {
        false
    }

    closed spec fn current_spec(self) -> nat {
        self.0 as nat
    }

    closed spec fn max_spec() -> nat {
        u128::MAX as nat
    }

    fn start() -> (r: Self) {
        NonBlocking128(0)
    }

    fn next(self) -> (r: Self) {
        if self.0 == u128::MAX {
            NonBlocking128(0)
        } else {
            NonBlocking128(self.0 + 1)
        }
    }

    fn is_over(&self) -> (r: bool) {
        false
    }

    fn current(&self) -> (r: u128) {
        self.0
    }

    fn max(&self) -> (r: u128) {
        u128::MAX
    }

    fn equals(&self, other: &Self) -> (r: bool) {
        self.0 == other.0
    }
}

/// How the default blocking counter behaves, stated for use outside this
/// module: it starts at zero, is exhausted exactly at its maximum, and
/// otherwise advances by one.
pub proof fn blocking32_behavior(g: Blocking32)
    ensures
        !Blocking32::start_spec().over_spec(),
        Blocking32::start_spec().current_spec() == 0,
        g.over_spec() <==> g.current_spec() == u32::MAX as nat,
        !g.over_spec() ==> g.next_spec().current_spec() == g.current_spec() + 1,
        g.over_spec() ==> g.next_spec() == g,
{
}

} // verus!
