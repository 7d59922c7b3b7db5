//! Points and displacement vectors with three coordinates.

use std::ops::{Add, Mul, Neg, Sub};
use vstd::prelude::*;
use vstd::std_specs::convert::FromSpecImpl;
use vstd::std_specs::ops::{
    AddSpec, AddSpecImpl, MulSpec, MulSpecImpl, NegSpec, NegSpecImpl, SubSpec, SubSpecImpl,
};

verus! {

/// A location given by three coordinates.
#[derive(Debug, Copy, Clone, PartialEq, Eq)]
pub struct BasicPoint3d<T> {
    pub x: T,
    pub y: T,
    pub z: T,
}

impl<T> BasicPoint3d<T> {
    /// The displacement from the origin to the point.
    pub fn as_vector(self) -> (v: BasicVector3d<T>)
        ensures
            v.x == self.x,
            v.y == self.y,
            v.z == self.z,
    {
        BasicVector3d { x: self.x, y: self.y, z: self.z }
    }
}

/// A displacement given by three coordinates.
#[derive(Debug, Copy, Clone, Eq, PartialEq)]
pub struct BasicVector3d<T> {
    pub x: T,
    pub y: T,
    pub z: T,
}

impl<T> BasicVector3d<T> {
    /// The point to which the vector leads from the origin.
    pub fn as_point(self) -> (p: BasicPoint3d<T>)
        ensures
            p.x == self.x,
            p.y == self.y,
            p.z == self.z,
    {
        BasicPoint3d { x: self.x, y: self.y, z: self.z }
    }
}

impl<O, B, A: Add<B, Output = O>> Add<BasicVector3d<B>> for BasicPoint3d<A> {
    type Output = BasicPoint3d<O>;

    /// The point moved by the displacement, coordinate by coordinate.
    fn add(self, other: BasicVector3d<B>) -> (r: BasicPoint3d<O>) {
        BasicPoint3d { x: self.x + other.x, y: self.y + other.y, z: self.z + other.z }
    }
}

impl<O, B, A: Add<B, Output = O>> AddSpecImpl<BasicVector3d<B>> for BasicPoint3d<A> {
    open spec fn obeys_add_spec() -> bool {
        A::obeys_add_spec()
    }

    open spec fn add_req(self, other: BasicVector3d<B>) -> bool {
        self.x.add_req(other.x) && self.y.add_req(other.y) && self.z.add_req(other.z)
    }

    open spec fn add_spec(self, other: BasicVector3d<B>) -> BasicPoint3d<O> {
        BasicPoint3d {
            x: self.x.add_spec(other.x),
            y: self.y.add_spec(other.y),
            z: self.z.add_spec(other.z),
        }
    }
}

impl<O, B, A: Sub<B, Output = O>> Sub<BasicPoint3d<B>> for BasicPoint3d<A> {
    type Output = BasicVector3d<O>;

    /// The displacement that leads from `other` to the point, coordinate by coordinate.
    fn sub(self, other: BasicPoint3d<B>) -> (r: BasicVector3d<O>) {
        BasicVector3d { x: self.x - other.x, y: self.y - other.y, z: self.z - other.z }
    }
}

impl<O, B, A: Sub<B, Output = O>> SubSpecImpl<BasicPoint3d<B>> for BasicPoint3d<A> {
    open spec fn obeys_sub_spec() -> bool {
        A::obeys_sub_spec()
    }

    open spec fn sub_req(self, other: BasicPoint3d<B>) -> bool {
        self.x.sub_req(other.x) && self.y.sub_req(other.y) && self.z.sub_req(other.z)
    }

    open spec fn sub_spec(self, other: BasicPoint3d<B>) -> BasicVector3d<O> {
        BasicVector3d {
            x: self.x.sub_spec(other.x),
            y: self.y.sub_spec(other.y),
            z: self.z.sub_spec(other.z),
        }
    }
}

impl<O, B, A: Sub<B, Output = O>> Sub<BasicVector3d<B>> for BasicPoint3d<A> {
    type Output = BasicPoint3d<O>;

    /// The point moved against the displacement, coordinate by coordinate.
    fn sub(self, other: BasicVector3d<B>) -> (r: BasicPoint3d<O>) {
        BasicPoint3d { x: self.x - other.x, y: self.y - other.y, z: self.z - other.z }
    }
}

impl<O, B, A: Sub<B, Output = O>> SubSpecImpl<BasicVector3d<B>> for BasicPoint3d<A> {
    open spec fn obeys_sub_spec() -> bool {
        A::obeys_sub_spec()
    }

    open spec fn sub_req(self, other: BasicVector3d<B>) -> bool {
        self.x.sub_req(other.x) && self.y.sub_req(other.y) && self.z.sub_req(other.z)
    }

    open spec fn sub_spec(self, other: BasicVector3d<B>) -> BasicPoint3d<O> {
        BasicPoint3d {
            x: self.x.sub_spec(other.x),
            y: self.y.sub_spec(other.y),
            z: self.z.sub_spec(other.z),
        }
    }
}

impl<O, B, A: Add<B, Output = O>> Add<BasicVector3d<B>> for BasicVector3d<A> {
    type Output = BasicVector3d<O>;

    /// The sum of the displacements, coordinate by coordinate.
    fn add(self, other: BasicVector3d<B>) -> (r: BasicVector3d<O>) {
        BasicVector3d { x: self.x + other.x, y: self.y + other.y, z: self.z + other.z }
    }
}

impl<O, B, A: Add<B, Output = O>> AddSpecImpl<BasicVector3d<B>> for BasicVector3d<A> {
    open spec fn obeys_add_spec() -> bool {
        A::obeys_add_spec()
    }

    open spec fn add_req(self, other: BasicVector3d<B>) -> bool {
        self.x.add_req(other.x) && self.y.add_req(other.y) && self.z.add_req(other.z)
    }

    open spec fn add_spec(self, other: BasicVector3d<B>) -> BasicVector3d<O> {
        BasicVector3d {
            x: self.x.add_spec(other.x),
            y: self.y.add_spec(other.y),
            z: self.z.add_spec(other.z),
        }
    }
}

impl<O, B, A: Sub<B, Output = O>> Sub<BasicVector3d<B>> for BasicVector3d<A> {
    type Output = BasicVector3d<O>;

    /// The difference of the displacements, coordinate by coordinate.
    fn sub(self, other: BasicVector3d<B>) -> (r: BasicVector3d<O>) {
        BasicVector3d { x: self.x - other.x, y: self.y - other.y, z: self.z - other.z }
    }
}

impl<O, B, A: Sub<B, Output = O>> SubSpecImpl<BasicVector3d<B>> for BasicVector3d<A> {
    open spec fn obeys_sub_spec() -> bool {
        A::obeys_sub_spec()
    }

    open spec fn sub_req(self, other: BasicVector3d<B>) -> bool {
        self.x.sub_req(other.x) && self.y.sub_req(other.y) && self.z.sub_req(other.z)
    }

    open spec fn sub_spec(self, other: BasicVector3d<B>) -> BasicVector3d<O> {
        BasicVector3d {
            x: self.x.sub_spec(other.x),
            y: self.y.sub_spec(other.y),
            z: self.z.sub_spec(other.z),
        }
    }
}

impl<O, B: Copy, A: Mul<B, Output = O>> Mul<B> for BasicVector3d<A> {
    type Output = BasicVector3d<O>;

    /// The displacement scaled by a factor, coordinate by coordinate.
    fn mul(self, scalar: B) -> (r: BasicVector3d<O>) {
        BasicVector3d { x: self.x * scalar, y: self.y * scalar, z: self.z * scalar }
    }
}

impl<O, B: Copy, A: Mul<B, Output = O>> MulSpecImpl<B> for BasicVector3d<A> {
    open spec fn obeys_mul_spec() -> bool {
        A::obeys_mul_spec()
    }

    open spec fn mul_req(self, scalar: B) -> bool {
        self.x.mul_req(scalar) && self.y.mul_req(scalar) && self.z.mul_req(scalar)
    }

    open spec fn mul_spec(self, scalar: B) -> BasicVector3d<O> {
        BasicVector3d {
            x: self.x.mul_spec(scalar),
            y: self.y.mul_spec(scalar),
            z: self.z.mul_spec(scalar),
        }
    }
}

impl<O, T: Neg<Output = O>> Neg for BasicVector3d<T> {
    type Output = BasicVector3d<O>;

    /// The opposite displacement, coordinate by coordinate.
    fn neg(self) -> (r: BasicVector3d<O>) {
        BasicVector3d { x: self.x.neg(), y: self.y.neg(), z: self.z.neg() }
    }
}

impl<O, T: Neg<Output = O>> NegSpecImpl for BasicVector3d<T> {
    open spec fn obeys_neg_spec() -> bool {
        T::obeys_neg_spec()
    }

    open spec fn neg_req(self) -> bool {
        self.x.neg_req() && self.y.neg_req() && self.z.neg_req()
    }

    open spec fn neg_spec(self) -> BasicVector3d<O> {
        BasicVector3d { x: self.x.neg_spec(), y: self.y.neg_spec(), z: self.z.neg_spec() }
    }
}

impl<T> From<(T, T, T)> for BasicPoint3d<T> {
    /// The point whose coordinates are the tuple's items, in their order.
    fn from(tuple: (T, T, T)) -> (r: BasicPoint3d<T>) {
        BasicPoint3d { x: tuple.0, y: tuple.1, z: tuple.2 }
    }
}

impl<T> FromSpecImpl<(T, T, T)> for BasicPoint3d<T> {
    open spec fn obeys_from_spec() -> bool {
        true
    }

    open spec fn from_spec(tuple: (T, T, T)) -> BasicPoint3d<T> {
        BasicPoint3d { x: tuple.0, y: tuple.1, z: tuple.2 }
    }
}

impl<T> From<(T, T, T)> for BasicVector3d<T> {
    /// The vector whose coordinates are the tuple's items, in their order.
    fn from(tuple: (T, T, T)) -> (r: BasicVector3d<T>) {
        BasicVector3d { x: tuple.0, y: tuple.1, z: tuple.2 }
    }
}

impl<T> FromSpecImpl<(T, T, T)> for BasicVector3d<T> {
    open spec fn obeys_from_spec() -> bool {
        true
    }

    open spec fn from_spec(tuple: (T, T, T)) -> BasicVector3d<T> {
        BasicVector3d { x: tuple.0, y: tuple.1, z: tuple.2 }
    }
}

} // verus!
