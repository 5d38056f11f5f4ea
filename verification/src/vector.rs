//! Small vectors: indices of cells, and field values at a cell.
use crate::axis::Axis;
use crate::scalar::Scalar;
use vstd::prelude::*;

verus! {

/// Three indices, one per axis.
#[derive(Copy, Clone, Debug, PartialEq, Eq, Structural)]
pub struct UVec3 {
    pub x: u32,
    pub y: u32,
    pub z: u32,
}

impl UVec3 {
    pub open spec fn splat_spec(v: u32) -> UVec3 {
        UVec3 { x: v, y: v, z: v }
    }

    pub fn new(x: u32, y: u32, z: u32) -> (r: Self)
        ensures
            r == (UVec3 { x, y, z }),
    {
        UVec3 { x, y, z }
    }

    pub fn splat(v: u32) -> (r: Self)
        ensures
            r == Self::splat_spec(v),
    {
        UVec3 { x: v, y: v, z: v }
    }

    pub open spec fn at(self, axis: Axis) -> u32 {
        match axis {
            Axis::X => self.x,
            Axis::Y => self.y,
            _ => self.z,
        }
    }

    /// The component along `axis`.
    pub fn get(&self, axis: Axis) -> (r: u32)
        requires
            axis.valid(),
        ensures
            r == self.at(axis),
    {
        match axis {
            Axis::X => self.x,
            Axis::Y => self.y,
            _ => self.z,
        }
    }

    pub open spec fn with_spec(self, axis: Axis, v: u32) -> UVec3 {
        match axis {
            Axis::X => UVec3 { x: v, ..self },
            Axis::Y => UVec3 { y: v, ..self },
            _ => UVec3 { z: v, ..self },
        }
    }

    /// `self` with the component along `axis` replaced by `v`.
    pub fn with(&self, axis: Axis, v: u32) -> (r: Self)
        requires
            axis.valid(),
        ensures
            r == self.with_spec(axis, v),
    {
        match axis {
            Axis::X => UVec3 { x: v, y: self.y, z: self.z },
            Axis::Y => UVec3 { x: self.x, y: v, z: self.z },
            _ => UVec3 { x: self.x, y: self.y, z: v },
        }
    }

    /// Every component is below that of `rhs`.
    pub open spec fn below(self, rhs: UVec3) -> bool {
        self.x < rhs.x && self.y < rhs.y && self.z < rhs.z
    }

    /// Whether every component is below that of `rhs`.
    pub fn all_below(&self, rhs: &UVec3) -> (r: bool)
        ensures
            r == self.below(*rhs),
    {
        self.x < rhs.x && self.y < rhs.y && self.z < rhs.z
    }

    pub open spec fn product_spec(self) -> int {
        self.x * self.y * self.z
    }

    /// The product of the components.
    pub fn element_product(&self) -> (r: u32)
        requires
            self.x * self.y <= u32::MAX,
            self.product_spec() <= u32::MAX,
        ensures
            r == self.product_spec(),
    {
        self.x * self.y * self.z
    }
}

/// A vector in the plane.
#[derive(Copy, Clone, Debug, PartialEq)]
pub struct Vec2<S> {
    pub x: S,
    pub y: S,
}

impl<S: Scalar> Vec2<S> {
    pub open spec fn splat_spec(v: S) -> Self {
        Vec2 { x: v, y: v }
    }

    pub fn splat(v: &S) -> (r: Self)
        ensures
            r == Self::splat_spec(*v),
    {
        Vec2 { x: v.dup(), y: v.dup() }
    }

    pub fn dup(&self) -> (r: Self)
        ensures
            r == *self,
    {
        Vec2 { x: self.x.dup(), y: self.y.dup() }
    }

    pub open spec fn spec_mul(self, rhs: Self) -> Self {
        Vec2 { x: self.x * rhs.x, y: self.y * rhs.y }
    }

    pub fn times(&self, rhs: &Self) -> (r: Self)
        ensures
            r == *self * *rhs,
    {
        Vec2 { x: self.x.times(&rhs.x), y: self.y.times(&rhs.y) }
    }

    pub open spec fn scaled_spec(self, k: S) -> Self {
        Vec2 { x: self.x * k, y: self.y * k }
    }

    pub fn scaled(&self, k: &S) -> (r: Self)
        ensures
            r == self.scaled_spec(*k),
    {
        Vec2 { x: self.x.times(k), y: self.y.times(k) }
    }

    pub open spec fn spec_neg(self) -> Self {
        Vec2 { x: -self.x, y: -self.y }
    }

    pub fn negated(&self) -> (r: Self)
        ensures
            r == -*self,
    {
        Vec2 { x: self.x.negated(), y: self.y.negated() }
    }
}

/// A vector in space.
#[derive(Copy, Clone, Debug, PartialEq)]
pub struct Vec3<S> {
    pub x: S,
    pub y: S,
    pub z: S,
}

impl<S: Scalar> Vec3<S> {
    pub open spec fn splat_spec(v: S) -> Self {
        Vec3 { x: v, y: v, z: v }
    }

    pub fn splat(v: &S) -> (r: Self)
        ensures
            r == Self::splat_spec(*v),
    {
        Vec3 { x: v.dup(), y: v.dup(), z: v.dup() }
    }

    pub fn dup(&self) -> (r: Self)
        ensures
            r == *self,
    {
        Vec3 { x: self.x.dup(), y: self.y.dup(), z: self.z.dup() }
    }

    pub open spec fn at(self, axis: Axis) -> S {
        match axis {
            Axis::X => self.x,
            Axis::Y => self.y,
            _ => self.z,
        }
    }

    /// The component along `axis`.
    pub fn get(&self, axis: Axis) -> (r: &S)
        requires
            axis.valid(),
        ensures
            *r == self.at(axis),
    {
        match axis {
            Axis::X => &self.x,
            Axis::Y => &self.y,
            _ => &self.z,
        }
    }

    pub open spec fn spec_add(self, rhs: Self) -> Self {
        Vec3 { x: self.x + rhs.x, y: self.y + rhs.y, z: self.z + rhs.z }
    }

    pub fn plus(&self, rhs: &Self) -> (r: Self)
        ensures
            r == *self + *rhs,
    {
        Vec3 { x: self.x.plus(&rhs.x), y: self.y.plus(&rhs.y), z: self.z.plus(&rhs.z) }
    }

    pub open spec fn spec_sub(self, rhs: Self) -> Self {
        Vec3 { x: self.x - rhs.x, y: self.y - rhs.y, z: self.z - rhs.z }
    }

    pub fn minus(&self, rhs: &Self) -> (r: Self)
        ensures
            r == *self - *rhs,
    {
        Vec3 { x: self.x.minus(&rhs.x), y: self.y.minus(&rhs.y), z: self.z.minus(&rhs.z) }
    }

    pub open spec fn spec_mul(self, rhs: Self) -> Self {
        Vec3 { x: self.x * rhs.x, y: self.y * rhs.y, z: self.z * rhs.z }
    }

    pub fn times(&self, rhs: &Self) -> (r: Self)
        ensures
            r == *self * *rhs,
    {
        Vec3 { x: self.x.times(&rhs.x), y: self.y.times(&rhs.y), z: self.z.times(&rhs.z) }
    }

    pub open spec fn over_spec(self, rhs: Self) -> Self {
        Vec3 {
            x: self.x.over_spec(rhs.x),
            y: self.y.over_spec(rhs.y),
            z: self.z.over_spec(rhs.z),
        }
    }

    pub fn over(&self, rhs: &Self) -> (r: Self)
        ensures
            r == self.over_spec(*rhs),
    {
        Vec3 { x: self.x.over(&rhs.x), y: self.y.over(&rhs.y), z: self.z.over(&rhs.z) }
    }

    pub open spec fn ceil_spec(self) -> Self {
        Vec3 { x: self.x.ceil_spec(), y: self.y.ceil_spec(), z: self.z.ceil_spec() }
    }

    pub fn ceil(&self) -> (r: Self)
        ensures
            r == self.ceil_spec(),
    {
        Vec3 { x: self.x.ceil(), y: self.y.ceil(), z: self.z.ceil() }
    }

    pub open spec fn recip_spec(self) -> Self {
        Vec3 { x: self.x.recip_spec(), y: self.y.recip_spec(), z: self.z.recip_spec() }
    }

    pub fn recip(&self) -> (r: Self)
        ensures
            r == self.recip_spec(),
    {
        Vec3 { x: self.x.recip(), y: self.y.recip(), z: self.z.recip() }
    }

    pub open spec fn sqrt_spec(self) -> Self {
        Vec3 { x: self.x.sqrt_spec(), y: self.y.sqrt_spec(), z: self.z.sqrt_spec() }
    }

    pub fn sqrt(&self) -> (r: Self)
        ensures
            r == self.sqrt_spec(),
    {
        Vec3 { x: self.x.sqrt(), y: self.y.sqrt(), z: self.z.sqrt() }
    }

    pub open spec fn smaller_spec(self, rhs: Self) -> Self {
        Vec3 {
            x: self.x.smaller_spec(rhs.x),
            y: self.y.smaller_spec(rhs.y),
            z: self.z.smaller_spec(rhs.z),
        }
    }

    /// The smaller of each two components.
    pub fn smaller(&self, rhs: &Self) -> (r: Self)
        ensures
            r == self.smaller_spec(*rhs),
    {
        Vec3 { x: self.x.smaller(&rhs.x), y: self.y.smaller(&rhs.y), z: self.z.smaller(&rhs.z) }
    }

    pub open spec fn larger_spec(self, rhs: Self) -> Self {
        Vec3 {
            x: self.x.larger_spec(rhs.x),
            y: self.y.larger_spec(rhs.y),
            z: self.z.larger_spec(rhs.z),
        }
    }

    /// The larger of each two components.
    pub fn larger(&self, rhs: &Self) -> (r: Self)
        ensures
            r == self.larger_spec(*rhs),
    {
        Vec3 { x: self.x.larger(&rhs.x), y: self.y.larger(&rhs.y), z: self.z.larger(&rhs.z) }
    }

    pub open spec fn scaled_spec(self, k: S) -> Self {
        Vec3 { x: self.x * k, y: self.y * k, z: self.z * k }
    }

    pub fn scaled(&self, k: &S) -> (r: Self)
        ensures
            r == self.scaled_spec(*k),
    {
        Vec3 { x: self.x.times(k), y: self.y.times(k), z: self.z.times(k) }
    }

    pub open spec fn divided_spec(self, k: S) -> Self {
        Vec3 { x: self.x.over_spec(k), y: self.y.over_spec(k), z: self.z.over_spec(k) }
    }

    pub fn divided(&self, k: &S) -> (r: Self)
        ensures
            r == self.divided_spec(*k),
    {
        Vec3 { x: self.x.over(k), y: self.y.over(k), z: self.z.over(k) }
    }
}

/// The value of a vector field at a cell. Only the first three components belong to an axis.
#[derive(Copy, Clone, Debug, PartialEq)]
pub struct Vec4<S> {
    pub x: S,
    pub y: S,
    pub z: S,
    pub w: S,
}

impl<S: Scalar> Vec4<S> {
    pub open spec fn splat_spec(v: S) -> Self {
        Vec4 { x: v, y: v, z: v, w: v }
    }

    pub fn splat(v: &S) -> (r: Self)
        ensures
            r == Self::splat_spec(*v),
    {
        Vec4 { x: v.dup(), y: v.dup(), z: v.dup(), w: v.dup() }
    }

    pub open spec fn zero_spec() -> Self {
        Self::splat_spec(S::zero_spec())
    }

    pub fn zero() -> (r: Self)
        ensures
            r == Self::zero_spec(),
    {
        Vec4 { x: S::zero(), y: S::zero(), z: S::zero(), w: S::zero() }
    }

    pub fn dup(&self) -> (r: Self)
        ensures
            r == *self,
    {
        Vec4 { x: self.x.dup(), y: self.y.dup(), z: self.z.dup(), w: self.w.dup() }
    }

    pub open spec fn at(self, axis: Axis) -> S {
        match axis {
            Axis::X => self.x,
            Axis::Y => self.y,
            _ => self.z,
        }
    }

    /// The component along `axis`.
    pub fn get(&self, axis: Axis) -> (r: &S)
        requires
            axis.valid(),
        ensures
            *r == self.at(axis),
    {
        match axis {
            Axis::X => &self.x,
            Axis::Y => &self.y,
            _ => &self.z,
        }
    }

    pub open spec fn with_spec(self, axis: Axis, v: S) -> Self {
        match axis {
            Axis::X => Vec4 { x: v, ..self },
            Axis::Y => Vec4 { y: v, ..self },
            _ => Vec4 { z: v, ..self },
        }
    }

    /// Replace the component along `axis` by `v`.
    pub fn put(&mut self, axis: Axis, v: S)
        requires
            axis.valid(),
        ensures
            *final(self) == old(self).with_spec(axis, v),
    {
        match axis {
            Axis::X => {
                self.x = v;
            },
            Axis::Y => {
                self.y = v;
            },
            _ => {
                self.z = v;
            },
        }
    }

    pub open spec fn spec_add(self, rhs: Self) -> Self {
        Vec4 { x: self.x + rhs.x, y: self.y + rhs.y, z: self.z + rhs.z, w: self.w + rhs.w }
    }

    pub fn plus(&self, rhs: &Self) -> (r: Self)
        ensures
            r == *self + *rhs,
    {
        Vec4 {
            x: self.x.plus(&rhs.x),
            y: self.y.plus(&rhs.y),
            z: self.z.plus(&rhs.z),
            w: self.w.plus(&rhs.w),
        }
    }

    pub open spec fn spec_sub(self, rhs: Self) -> Self {
        Vec4 { x: self.x - rhs.x, y: self.y - rhs.y, z: self.z - rhs.z, w: self.w - rhs.w }
    }

    pub fn minus(&self, rhs: &Self) -> (r: Self)
        ensures
            r == *self - *rhs,
    {
        Vec4 {
            x: self.x.minus(&rhs.x),
            y: self.y.minus(&rhs.y),
            z: self.z.minus(&rhs.z),
            w: self.w.minus(&rhs.w),
        }
    }

    pub open spec fn spec_mul(self, rhs: Self) -> Self {
        Vec4 { x: self.x * rhs.x, y: self.y * rhs.y, z: self.z * rhs.z, w: self.w * rhs.w }
    }

    pub fn times(&self, rhs: &Self) -> (r: Self)
        ensures
            r == *self * *rhs,
    {
        Vec4 {
            x: self.x.times(&rhs.x),
            y: self.y.times(&rhs.y),
            z: self.z.times(&rhs.z),
            w: self.w.times(&rhs.w),
        }
    }

    pub open spec fn scaled_spec(self, k: S) -> Self {
        Vec4 { x: self.x * k, y: self.y * k, z: self.z * k, w: self.w * k }
    }

    pub fn scaled(&self, k: &S) -> (r: Self)
        ensures
            r == self.scaled_spec(*k),
    {
        Vec4 {
            x: self.x.times(k),
            y: self.y.times(k),
            z: self.z.times(k),
            w: self.w.times(k),
        }
    }

    pub open spec fn length_spec(self) -> S {
        (self.x * self.x + self.y * self.y + self.z * self.z + self.w * self.w).sqrt_spec()
    }

    /// Euclidean length.
    pub fn length(&self) -> (r: S)
        ensures
            r == self.length_spec(),
    {
        self.x.times(&self.x).plus(&self.y.times(&self.y)).plus(&self.z.times(&self.z)).plus(
            &self.w.times(&self.w),
        ).sqrt()
    }

    pub open spec fn xyz_spec(self) -> Vec3<S> {
        Vec3 { x: self.x, y: self.y, z: self.z }
    }

    pub fn xyz(&self) -> (r: Vec3<S>)
        ensures
            r == self.xyz_spec(),
    {
        Vec3 { x: self.x.dup(), y: self.y.dup(), z: self.z.dup() }
    }

    pub open spec fn dot_spec(self, rhs: Self) -> S {
        self.x * rhs.x + self.y * rhs.y + self.z * rhs.z + self.w * rhs.w
    }

    pub fn dot(&self, rhs: &Self) -> (r: S)
        ensures
            r == self.dot_spec(*rhs),
    {
        self.x.times(&rhs.x).plus(&self.y.times(&rhs.y)).plus(&self.z.times(&rhs.z)).plus(
            &self.w.times(&rhs.w),
        )
    }
}

} // verus!
