//! Points and vectors in two and three dimensions, generic over the scalar.
//!
//! A point is a position, a vector a displacement. Both expose their
//! coordinates through [`Algebr2D`] / [`Algebr3D`], so that a point can be
//! moved by either. Every contract is stated over the scalar's own operator
//! specifications: for the machine integers these are the mathematical
//! operations, guarded against overflow.
//!
//! A point takes its right-hand side by reference (`p + &v`). Verified code
//! calls the operator by its method (`p.add(&v)`), which has the contract
//! that `AddSpecImpl` gives it; so for `sub` and `mul`.
use core::ops::{Add, Mul, Sub};
use vstd::prelude::*;
use vstd::std_specs::ops::{AddSpec, AddSpecImpl, MulSpec, MulSpecImpl, SubSpec, SubSpecImpl};

verus! {

/// A position in the plane.
#[derive(Debug)]
pub struct Point2<T> {
    pub x: T,
    pub y: T,
}

/// A displacement in the plane.
#[derive(Debug)]
pub struct Vec2<T> {
    pub x: T,
    pub y: T,
}

/// Anything that can be read as a displacement in the plane.
pub trait Algebr2D<T> {
    /// The displacement this value stands for.
    spec fn coords(&self) -> Vec2<T>;

    fn as_vec(&self) -> (v: Vec2<T>)
        ensures
            v == self.coords(),
    ;
}

impl<T> Algebr2D<T> for Point2<T> where T: Copy {
    open spec fn coords(&self) -> Vec2<T> {
        Vec2 { x: self.x, y: self.y }
    }

    fn as_vec(&self) -> (v: Vec2<T>) {
        Vec2 { x: self.x, y: self.y }
    }
}

impl<T> Algebr2D<T> for Vec2<T> where T: Copy {
    open spec fn coords(&self) -> Vec2<T> {
        Vec2 { x: self.x, y: self.y }
    }

    fn as_vec(&self) -> (v: Vec2<T>) {
        Vec2 { x: self.x, y: self.y }
    }
}

impl<T, U> Add<&U> for Point2<T> where T: Add<Output = T> + Copy, U: Algebr2D<T> {
    type Output = Self;

    /// Moves the point by `rhs`, coordinate by coordinate.
    fn add(self, rhs: &U) -> (out: Self) {
        let lhs = self;
        let rhs = rhs.as_vec();
        Self { x: lhs.x + rhs.x, y: lhs.y + rhs.y }
    }
}

impl<T, U> AddSpecImpl<&U> for Point2<T> where T: Add<Output = T> + Copy, U: Algebr2D<T> {
    open spec fn obeys_add_spec() -> bool {
        T::obeys_add_spec()
    }

    open spec fn add_req(self, rhs: &U) -> bool {
        &&& self.x.add_req(rhs.coords().x)
        &&& self.y.add_req(rhs.coords().y)
    }

    open spec fn add_spec(self, rhs: &U) -> Self {
        Point2 { x: self.x.add_spec(rhs.coords().x), y: self.y.add_spec(rhs.coords().y) }
    }
}

impl<T, U> Mul<&U> for Point2<T> where T: Mul<Output = T> + Copy, U: Algebr2D<T> {
    type Output = Self;

    /// Scales the point by `rhs`, coordinate by coordinate.
    fn mul(self, rhs: &U) -> (out: Self) {
        let lhs = self;
        let rhs = rhs.as_vec();
        Self { x: lhs.x * rhs.x, y: lhs.y * rhs.y }
    }
}

impl<T, U> MulSpecImpl<&U> for Point2<T> where T: Mul<Output = T> + Copy, U: Algebr2D<T> {
    open spec fn obeys_mul_spec() -> bool {
        T::obeys_mul_spec()
    }

    open spec fn mul_req(self, rhs: &U) -> bool {
        &&& self.x.mul_req(rhs.coords().x)
        &&& self.y.mul_req(rhs.coords().y)
    }

    open spec fn mul_spec(self, rhs: &U) -> Self {
        Point2 { x: self.x.mul_spec(rhs.coords().x), y: self.y.mul_spec(rhs.coords().y) }
    }
}

impl<T, U> Sub<&U> for Point2<T> where T: Sub<Output = T> + Copy, U: Algebr2D<T> {
    type Output = Self;

    /// Moves the point back by `rhs`, coordinate by coordinate.
    fn sub(self, rhs: &U) -> (out: Self) {
        let lhs = self;
        let rhs = rhs.as_vec();
        Self { x: lhs.x - rhs.x, y: lhs.y - rhs.y }
    }
}

impl<T, U> SubSpecImpl<&U> for Point2<T> where T: Sub<Output = T> + Copy, U: Algebr2D<T> {
    open spec fn obeys_sub_spec() -> bool {
        T::obeys_sub_spec()
    }

    open spec fn sub_req(self, rhs: &U) -> bool {
        &&& self.x.sub_req(rhs.coords().x)
        &&& self.y.sub_req(rhs.coords().y)
    }

    open spec fn sub_spec(self, rhs: &U) -> Self {
        Point2 { x: self.x.sub_spec(rhs.coords().x), y: self.y.sub_spec(rhs.coords().y) }
    }
}

impl<T> Vec2<T> where T: Sub<Output = T> + Mul<Output = T> + Copy {
    /// Whether the displacement from `point1` to `point2` can be computed.
    pub open spec fn from_points_req(point1: &Point2<T>, point2: &Point2<T>) -> bool {
        &&& point2.x.sub_req(point1.x)
        &&& point2.y.sub_req(point1.y)
    }

    /// The displacement that leads from `point1` to `point2`.
    pub open spec fn spec_from_points(point1: &Point2<T>, point2: &Point2<T>) -> Vec2<T> {
        Vec2 { x: point2.x.sub_spec(point1.x), y: point2.y.sub_spec(point1.y) }
    }

    pub fn from_points(point1: &Point2<T>, point2: &Point2<T>) -> (v: Vec2<T>)
        requires
            Self::from_points_req(point1, point2),
        ensures
            T::obeys_sub_spec() ==> v == Self::spec_from_points(point1, point2),
    {
        Vec2::<T> { x: point2.x - point1.x, y: point2.y - point1.y }
    }

    /// Whether the products and the difference of the planar cross product
    /// can be computed.
    pub open spec fn cross_req(vec0: &Vec2<T>, vec1: &Vec2<T>) -> bool {
        &&& vec0.x.mul_req(vec1.y)
        &&& vec0.y.mul_req(vec1.x)
        &&& vec0.x.mul_spec(vec1.y).sub_req(vec0.y.mul_spec(vec1.x))
    }

    /// The planar cross product `x0 * y1 - y0 * x1`: twice the signed area of
    /// the triangle that the two vectors span.
    pub open spec fn spec_cross(vec0: &Vec2<T>, vec1: &Vec2<T>) -> T {
        vec0.x.mul_spec(vec1.y).sub_spec(vec0.y.mul_spec(vec1.x))
    }

    pub fn cross(vec0: &Vec2<T>, vec1: &Vec2<T>) -> (c: T)
        requires
            T::obeys_mul_spec(),
            Self::cross_req(vec0, vec1),
        ensures
            T::obeys_sub_spec() ==> c == Self::spec_cross(vec0, vec1),
    {
        (vec0.x * vec1.y) - (vec0.y * vec1.x)
    }
}

/// A position in space.
#[derive(Debug)]
pub struct Point3<T> {
    pub x: T,
    pub y: T,
    pub z: T,
}

/// A displacement in space.
#[derive(Debug)]
pub struct Vec3<T> {
    pub x: T,
    pub y: T,
    pub z: T,
}

/// Anything that can be read as a displacement in space.
pub trait Algebr3D<T> {
    /// The displacement this value stands for.
    spec fn coords(&self) -> Vec3<T>;

    fn as_vec(&self) -> (v: Vec3<T>)
        ensures
            v == self.coords(),
    ;
}

impl<T> Algebr3D<T> for Point3<T> where T: Copy {
    open spec fn coords(&self) -> Vec3<T> {
        Vec3 { x: self.x, y: self.y, z: self.z }
    }

    fn as_vec(&self) -> (v: Vec3<T>) {
        Vec3 { x: self.x, y: self.y, z: self.z }
    }
}

impl<T> Algebr3D<T> for Vec3<T> where T: Copy {
    open spec fn coords(&self) -> Vec3<T> {
        Vec3 { x: self.x, y: self.y, z: self.z }
    }

    fn as_vec(&self) -> (v: Vec3<T>) {
        Vec3 { x: self.x, y: self.y, z: self.z }
    }
}

impl<T, U> Add<&U> for Point3<T> where T: Add<Output = T> + Copy, U: Algebr3D<T> {
    type Output = Self;

    /// Moves the point by `rhs`, coordinate by coordinate.
    fn add(self, rhs: &U) -> (out: Self) {
        let lhs = self;
        let rhs = rhs.as_vec();
        Self { x: lhs.x + rhs.x, y: lhs.y + rhs.y, z: lhs.z + rhs.z }
    }
}

impl<T, U> AddSpecImpl<&U> for Point3<T> where T: Add<Output = T> + Copy, U: Algebr3D<T> {
    open spec fn obeys_add_spec() -> bool {
        T::obeys_add_spec()
    }

    open spec fn add_req(self, rhs: &U) -> bool {
        &&& self.x.add_req(rhs.coords().x)
        &&& self.y.add_req(rhs.coords().y)
        &&& self.z.add_req(rhs.coords().z)
    }

    open spec fn add_spec(self, rhs: &U) -> Self {
        Point3 {
            x: self.x.add_spec(rhs.coords().x),
            y: self.y.add_spec(rhs.coords().y),
            z: self.z.add_spec(rhs.coords().z),
        }
    }
}

impl<T, U> Mul<&U> for Point3<T> where T: Mul<Output = T> + Copy, U: Algebr3D<T> {
    type Output = Self;

    /// Scales the point by `rhs`, coordinate by coordinate.
    fn mul(self, rhs: &U) -> (out: Self) {
        let lhs = self;
        let rhs = rhs.as_vec();
        Self { x: lhs.x * rhs.x, y: lhs.y * rhs.y, z: lhs.z * rhs.z }
    }
}

impl<T, U> MulSpecImpl<&U> for Point3<T> where T: Mul<Output = T> + Copy, U: Algebr3D<T> {
    open spec fn obeys_mul_spec() -> bool {
        T::obeys_mul_spec()
    }

    open spec fn mul_req(self, rhs: &U) -> bool {
        &&& self.x.mul_req(rhs.coords().x)
        &&& self.y.mul_req(rhs.coords().y)
        &&& self.z.mul_req(rhs.coords().z)
    }

    open spec fn mul_spec(self, rhs: &U) -> Self {
        Point3 {
            x: self.x.mul_spec(rhs.coords().x),
            y: self.y.mul_spec(rhs.coords().y),
            z: self.z.mul_spec(rhs.coords().z),
        }
    }
}

impl<T, U> Sub<&U> for Point3<T> where T: Sub<Output = T> + Copy, U: Algebr3D<T> {
    type Output = Self;

    /// Moves the point back by `rhs`, coordinate by coordinate.
    fn sub(self, rhs: &U) -> (out: Self) {
        let lhs = self;
        let rhs = rhs.as_vec();
        Self { x: lhs.x - rhs.x, y: lhs.y - rhs.y, z: lhs.z - rhs.z }
    }
}

impl<T, U> SubSpecImpl<&U> for Point3<T> where T: Sub<Output = T> + Copy, U: Algebr3D<T> {
    open spec fn obeys_sub_spec() -> bool {
        T::obeys_sub_spec()
    }

    open spec fn sub_req(self, rhs: &U) -> bool {
        &&& self.x.sub_req(rhs.coords().x)
        &&& self.y.sub_req(rhs.coords().y)
        &&& self.z.sub_req(rhs.coords().z)
    }

    open spec fn sub_spec(self, rhs: &U) -> Self {
        Point3 {
            x: self.x.sub_spec(rhs.coords().x),
            y: self.y.sub_spec(rhs.coords().y),
            z: self.z.sub_spec(rhs.coords().z),
        }
    }
}

impl<T> Vec3<T> where T: Add<Output = T> + Sub<Output = T> + Mul<Output = T> + Copy {
    /// Whether the displacement from `point1` to `point2` can be computed.
    pub open spec fn from_points_req(point1: &Point3<T>, point2: &Point3<T>) -> bool {
        &&& point2.x.sub_req(point1.x)
        &&& point2.y.sub_req(point1.y)
        &&& point2.z.sub_req(point1.z)
    }

    /// The displacement that leads from `point1` to `point2`.
    pub open spec fn spec_from_points(point1: &Point3<T>, point2: &Point3<T>) -> Vec3<T> {
        Vec3 {
            x: point2.x.sub_spec(point1.x),
            y: point2.y.sub_spec(point1.y),
            z: point2.z.sub_spec(point1.z),
        }
    }

    pub fn from_points(point1: &Point3<T>, point2: &Point3<T>) -> (v: Vec3<T>)
        requires
            Self::from_points_req(point1, point2),
        ensures
            T::obeys_sub_spec() ==> v == Self::spec_from_points(point1, point2),
    {
        Vec3::<T> { x: point2.x - point1.x, y: point2.y - point1.y, z: point2.z - point1.z }
    }

    /// Whether `a * b - c * d` can be computed.
    pub open spec fn minor_req(a: T, b: T, c: T, d: T) -> bool {
        &&& a.mul_req(b)
        &&& c.mul_req(d)
        &&& a.mul_spec(b).sub_req(c.mul_spec(d))
    }

    /// The two-by-two determinant `a * b - c * d`.
    pub open spec fn minor(a: T, b: T, c: T, d: T) -> T {
        a.mul_spec(b).sub_spec(c.mul_spec(d))
    }

    /// Whether all three components of the cross product can be computed.
    pub open spec fn cross_req(vec0: Vec3<T>, vec1: Vec3<T>) -> bool {
        &&& Self::minor_req(vec0.y, vec1.z, vec0.z, vec1.y)
        &&& Self::minor_req(vec0.z, vec1.x, vec0.x, vec1.z)
        &&& Self::minor_req(vec0.x, vec1.y, vec0.y, vec1.x)
    }

    /// The cross product: the vector perpendicular to both arguments whose
    /// components are the three two-by-two determinants of their coordinates.
    pub open spec fn spec_cross(vec0: Vec3<T>, vec1: Vec3<T>) -> Vec3<T> {
        Vec3 {
            x: Self::minor(vec0.y, vec1.z, vec0.z, vec1.y),
            y: Self::minor(vec0.z, vec1.x, vec0.x, vec1.z),
            z: Self::minor(vec0.x, vec1.y, vec0.y, vec1.x),
        }
    }

    pub fn cross(vec0: Vec3<T>, vec1: Vec3<T>) -> (c: Vec3<T>)
        requires
            T::obeys_mul_spec(),
            Self::cross_req(vec0, vec1),
        ensures
            T::obeys_sub_spec() ==> c == Self::spec_cross(vec0, vec1),
    {
        let x = (vec0.y * vec1.z) - (vec0.z * vec1.y);
        let y = (vec0.z * vec1.x) - (vec0.x * vec1.z);
        let z = (vec0.x * vec1.y) - (vec0.y * vec1.x);
        Vec3 { x, y, z }
    }
}

} // verus!
