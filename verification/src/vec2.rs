//! Two-dimensional vectors over checked scalar arithmetic.

use vstd::prelude::*;

verus! {

/// The scalars a [`Vec2`] can be built from.
///
/// Each operation comes as a pair: a spec function that says when the
/// operation is defined and what it yields, and an executable method that
/// computes exactly that.
pub trait Vec2TBound: Copy {
    /// The additive identity.
    spec fn zero_spec() -> Self;

    /// Whether `self + rhs` is representable.
    spec fn sum_fits(self, rhs: Self) -> bool;

    /// `self + rhs`, meaningful where `sum_fits` holds.
    spec fn sum_spec(self, rhs: Self) -> Self;

    /// Whether `self - rhs` is representable.
    spec fn difference_fits(self, rhs: Self) -> bool;

    /// `self - rhs`, meaningful where `difference_fits` holds.
    spec fn difference_spec(self, rhs: Self) -> Self;

    /// Whether `-self` is representable.
    spec fn negation_fits(self) -> bool;

    /// `-self`, meaningful where `negation_fits` holds.
    spec fn negation_spec(self) -> Self;

    fn zero() -> (z: Self)
        ensures
            z == Self::zero_spec(),
    ;

    fn sum(self, rhs: Self) -> (s: Self)
        requires
            self.sum_fits(rhs),
        ensures
            s == self.sum_spec(rhs),
    ;

    fn difference(self, rhs: Self) -> (d: Self)
        requires
            self.difference_fits(rhs),
        ensures
            d == self.difference_spec(rhs),
    ;

    fn negation(self) -> (n: Self)
        requires
            self.negation_fits(),
        ensures
            n == self.negation_spec(),
    ;
}

/// `num::zero` at `i32`: the crate defines the additive identity of every
/// primitive integer as the literal `0`.
#[verifier::external_body]
fn i32_zero() -> (z: i32)
    ensures
        z == 0,
{
    num::zero()
}

impl Vec2TBound for i32 {
    open spec fn zero_spec() -> i32 {
        0
    }

    open spec fn sum_fits(self, rhs: i32) -> bool {
        i32::MIN <= self + rhs <= i32::MAX
    }

    open spec fn sum_spec(self, rhs: i32) -> i32 {
        (self + rhs) as i32
    }

    open spec fn difference_fits(self, rhs: i32) -> bool {
        i32::MIN <= self - rhs <= i32::MAX
    }

    open spec fn difference_spec(self, rhs: i32) -> i32 {
        (self - rhs) as i32
    }

    open spec fn negation_fits(self) -> bool {
        self != i32::MIN
    }

    open spec fn negation_spec(self) -> i32 {
        (-self) as i32
    }

    fn zero() -> (z: i32) {
        i32_zero()
    }

    fn sum(self, rhs: i32) -> (s: i32) {
        self + rhs
    }

    fn difference(self, rhs: i32) -> (d: i32) {
        self - rhs
    }

    fn negation(self) -> (n: i32) {
        -self
    }
}

/// A point or displacement in the plane.
#[derive(Clone, Copy, Debug, PartialEq, Eq)]
pub struct Vec2<T: Vec2TBound> {
    pub x: T,
    pub y: T,
}

impl<T: Vec2TBound> Vec2<T> {
    pub fn new(x: T, y: T) -> (v: Self)
        ensures
            v.x == x,
            v.y == y,
    {
        Self { x, y }
    }

    /// Moves the vector by `dx` along x and by `dy` along y.
    pub fn translate(&mut self, dx: T, dy: T)
        requires
            old(self).x.sum_fits(dx),
            old(self).y.sum_fits(dy),
        ensures
            final(self).x == old(self).x.sum_spec(dx),
            final(self).y == old(self).y.sum_spec(dy),
    {
        self.x = self.x.sum(dx);
        self.y = self.y.sum(dy);
    }

    pub fn set(&mut self, x: T, y: T)
        ensures
            final(self).x == x,
            final(self).y == y,
    {
        self.x = x;
        self.y = y;
    }

    /// Whether the component-wise sum with `other` is representable.
    pub open spec fn sum_fits(self, other: Self) -> bool {
        self.x.sum_fits(other.x) && self.y.sum_fits(other.y)
    }

    /// The component-wise sum with `other`.
    pub open spec fn sum_spec(self, other: Self) -> Self {
        Vec2 { x: self.x.sum_spec(other.x), y: self.y.sum_spec(other.y) }
    }

    /// Whether the component-wise difference with `other` is representable.
    pub open spec fn difference_fits(self, other: Self) -> bool {
        self.x.difference_fits(other.x) && self.y.difference_fits(other.y)
    }

    /// The component-wise difference with `other`.
    pub open spec fn difference_spec(self, other: Self) -> Self {
        Vec2 { x: self.x.difference_spec(other.x), y: self.y.difference_spec(other.y) }
    }

    /// Whether the component-wise negation is representable.
    pub open spec fn negation_fits(self) -> bool {
        self.x.negation_fits() && self.y.negation_fits()
    }

    /// The component-wise negation.
    pub open spec fn negation_spec(self) -> Self {
        Vec2 { x: self.x.negation_spec(), y: self.y.negation_spec() }
    }
}

impl<T: Vec2TBound> Default for Vec2<T> {
    fn default() -> (v: Self)
        ensures
            v.x == T::zero_spec(),
            v.y == T::zero_spec(),
    {
        Self { x: T::zero(), y: T::zero() }
    }
}

impl<T: Vec2TBound> From<(T, T)> for Vec2<T> {
    fn from(tuple: (T, T)) -> (v: Self) {
        Self { x: tuple.0, y: tuple.1 }
    }
}

impl<T: Vec2TBound> vstd::std_specs::convert::FromSpecImpl<(T, T)> for Vec2<T> {
    open spec fn obeys_from_spec() -> bool {
        true
    }

    open spec fn from_spec(tuple: (T, T)) -> Self {
        Vec2 { x: tuple.0, y: tuple.1 }
    }
}

impl<T: Vec2TBound> core::ops::Add for Vec2<T> {
    type Output = Self;

    fn add(self, other: Self) -> (v: Self) {
        Self { x: self.x.sum(other.x), y: self.y.sum(other.y) }
    }
}

impl<T: Vec2TBound> vstd::std_specs::ops::AddSpecImpl for Vec2<T> {
    open spec fn obeys_add_spec() -> bool {
        true
    }

    open spec fn add_req(self, other: Self) -> bool {
        self.sum_fits(other)
    }

    open spec fn add_spec(self, other: Self) -> Self {
        self.sum_spec(other)
    }
}

impl<T: Vec2TBound> core::ops::Neg for Vec2<T> {
    type Output = Self;

    fn neg(self) -> (v: Self) {
        Self { x: self.x.negation(), y: self.y.negation() }
    }
}

impl<T: Vec2TBound> vstd::std_specs::ops::NegSpecImpl for Vec2<T> {
    open spec fn obeys_neg_spec() -> bool {
        true
    }

    open spec fn neg_req(self) -> bool {
        self.negation_fits()
    }

    open spec fn neg_spec(self) -> Self {
        self.negation_spec()
    }
}

impl<T: Vec2TBound> core::ops::Sub for Vec2<T> {
    type Output = Self;

    fn sub(self, other: Self) -> (v: Self) {
        Self { x: self.x.difference(other.x), y: self.y.difference(other.y) }
    }
}

impl<T: Vec2TBound> vstd::std_specs::ops::SubSpecImpl for Vec2<T> {
    open spec fn obeys_sub_spec() -> bool {
        true
    }

    open spec fn sub_req(self, other: Self) -> bool {
        self.difference_fits(other)
    }

    open spec fn sub_spec(self, other: Self) -> Self {
        self.difference_spec(other)
    }
}

} // verus!
