//! Vectors with one component per spatial axis.
use crate::axis::{Dim, SpatialAxis};
use crate::exact::{at, exact, exact_roots, lemma_unit, times};
use crate::index::GridIndex;
use crate::scalar::Scalar;
use crate::vector::{UVec3, Vec3, Vec4};
use vstd::prelude::*;

verus! {

/// A "vector" type used as a spatial position or a vector of staggered vector components.
#[derive(Copy, Clone, Debug, PartialEq)]
pub enum Vect<S> {
    /// Along Z.
    One(S),
    /// Along X and Y.
    Two(S, S),
    /// Along X, Y and Z.
    Three(S, S, S),
}

/// One truth value per spatial axis.
#[derive(Copy, Clone, Debug, PartialEq, Eq, Structural)]
pub enum BoolVect {
    One(bool),
    Two(bool, bool),
    Three(bool, bool, bool),
}

impl BoolVect {
    /// The truth values, in the order of the spatial axes.
    pub open spec fn lanes(self) -> Seq<bool> {
        match self {
            BoolVect::One(z) => seq![z],
            BoolVect::Two(x, y) => seq![x, y],
            BoolVect::Three(x, y, z) => seq![x, y, z],
        }
    }
}

/// What holds along some or all axes.
pub trait BoolVectExt: Sized {
    spec fn all_lanes(self) -> Seq<bool>;

    fn any(self) -> (r: bool)
        ensures
            r == exists|i: int|
                0 <= i < self.all_lanes().len() && #[trigger] self.all_lanes()[i],
    ;

    fn all(self) -> (r: bool)
        ensures
            r == forall|i: int|
                0 <= i < self.all_lanes().len() ==> #[trigger] self.all_lanes()[i],
    ;
}

impl BoolVectExt for BoolVect {
    open spec fn all_lanes(self) -> Seq<bool> {
        self.lanes()
    }

    fn any(self) -> (r: bool) {
        let ghost lanes = self.all_lanes();
        match self {
            BoolVect::One(z) => {
                assert(lanes[0] == z);
                z
            },
            BoolVect::Two(x, y) => {
                assert(lanes[0] == x && lanes[1] == y);
                x || y
            },
            BoolVect::Three(x, y, z) => {
                assert(lanes[0] == x && lanes[1] == y && lanes[2] == z);
                x || y || z
            },
        }
    }

    fn all(self) -> (r: bool) {
        let ghost lanes = self.all_lanes();
        match self {
            BoolVect::One(z) => {
                assert(lanes[0] == z);
                z
            },
            BoolVect::Two(x, y) => {
                assert(lanes[0] == x && lanes[1] == y);
                x && y
            },
            BoolVect::Three(x, y, z) => {
                assert(lanes[0] == x && lanes[1] == y && lanes[2] == z);
                x && y && z
            },
        }
    }
}

/// A trait with functions for general vector values.
pub trait VectorValueExt: Sized {
    type Element;

    type Boolean;

    /// The components, in the order of the spatial axes.
    spec fn elements(self) -> Seq<Self::Element>;

    spec fn dims(self) -> Dim;

    /// The comparisons of the components.
    spec fn comparisons(b: Self::Boolean) -> Seq<bool>;

    spec fn zero_element() -> Self::Element;

    spec fn one_element() -> Self::Element;

    spec fn larger_of(a: Self::Element, b: Self::Element) -> Self::Element;

    spec fn smaller_of(a: Self::Element, b: Self::Element) -> Self::Element;

    spec fn at_least(a: Self::Element, b: Self::Element) -> bool;

    spec fn sum_of(a: Self::Element, b: Self::Element) -> Self::Element;

    spec fn product_of(a: Self::Element, b: Self::Element) -> Self::Element;

    /// The components can be added up.
    spec fn sum_fits(self) -> bool;

    /// The components can be multiplied.
    spec fn product_fits(self) -> bool;

    /// Every component `value`.
    fn from_element(dim: Dim, value: Self::Element) -> (r: Self)
        ensures
            r.dims() == dim,
            r.elements() == Seq::new(dim.count_spec() as nat, |i: int| value),
    ;

    fn zero(dim: Dim) -> (r: Self)
        ensures
            r.dims() == dim,
            r.elements() == Seq::new(dim.count_spec() as nat, |i: int| Self::zero_element()),
    ;

    fn one(dim: Dim) -> (r: Self)
        ensures
            r.dims() == dim,
            r.elements() == Seq::new(dim.count_spec() as nat, |i: int| Self::one_element()),
    ;

    fn largest_element(self) -> (r: Self::Element)
        ensures
            r == fold_right(
                self.elements(),
                |a: Self::Element, b: Self::Element| Self::larger_of(a, b),
            ),
    ;

    fn smallest_element(self) -> (r: Self::Element)
        ensures
            r == fold_right(
                self.elements(),
                |a: Self::Element, b: Self::Element| Self::smaller_of(a, b),
            ),
    ;

    /// Compare the components one by one.
    fn ge(self, rhs: Self) -> (r: Self::Boolean)
        requires
            self.dims() == rhs.dims(),
        ensures
            Self::comparisons(r) == Seq::new(
                self.elements().len(),
                |i: int| Self::at_least(self.elements()[i], rhs.elements()[i]),
            ),
    ;

    fn sum_elements(self) -> (r: Self::Element)
        requires
            self.sum_fits(),
        ensures
            r == fold_left(
                self.elements(),
                |a: Self::Element, b: Self::Element| Self::sum_of(a, b),
            ),
    ;

    fn mul_elements(self) -> (r: Self::Element)
        requires
            self.product_fits(),
        ensures
            r == fold_left(
                self.elements(),
                |a: Self::Element, b: Self::Element| Self::product_of(a, b),
            ),
    ;

    fn map_elements<F: Fn(Self::Element) -> Self::Element>(self, f: F) -> (r: Self)
        requires
            forall|i: int|
                0 <= i < self.elements().len() ==> call_requires(
                    f,
                    (#[trigger] self.elements()[i],),
                ),
        ensures
            r.dims() == self.dims(),
            r.elements().len() == self.elements().len(),
            forall|i: int|
                0 <= i < self.elements().len() ==> call_ensures(
                    f,
                    (self.elements()[i],),
                    #[trigger] r.elements()[i],
                ),
    ;
}

/// `f` applied from the front: `f(f(a, b), c)`.
pub open spec fn fold_left<T>(s: Seq<T>, f: spec_fn(T, T) -> T) -> T {
    if s.len() <= 1 {
        s[0]
    } else if s.len() == 2 {
        f(s[0], s[1])
    } else {
        f(f(s[0], s[1]), s[2])
    }
}

/// `f` applied from the back: `f(a, f(b, c))`.
pub open spec fn fold_right<T>(s: Seq<T>, f: spec_fn(T, T) -> T) -> T {
    if s.len() <= 1 {
        s[0]
    } else if s.len() == 2 {
        f(s[0], s[1])
    } else {
        f(s[0], f(s[1], s[2]))
    }
}

fn larger_u32(a: u32, b: u32) -> (r: u32)
    ensures
        r == if a > b {
            a
        } else {
            b
        },
{
    if a > b {
        a
    } else {
        b
    }
}

fn smaller_u32(a: u32, b: u32) -> (r: u32)
    ensures
        r == if a < b {
            a
        } else {
            b
        },
{
    if a < b {
        a
    } else {
        b
    }
}

impl VectorValueExt for GridIndex {
    type Element = u32;

    type Boolean = BoolVect;

    open spec fn elements(self) -> Seq<u32> {
        self.array()
    }

    open spec fn dims(self) -> Dim {
        self.dim()
    }

    open spec fn comparisons(b: BoolVect) -> Seq<bool> {
        b.lanes()
    }

    open spec fn zero_element() -> u32 {
        0
    }

    open spec fn one_element() -> u32 {
        1
    }

    open spec fn larger_of(a: u32, b: u32) -> u32 {
        if a > b {
            a
        } else {
            b
        }
    }

    open spec fn smaller_of(a: u32, b: u32) -> u32 {
        if a < b {
            a
        } else {
            b
        }
    }

    open spec fn at_least(a: u32, b: u32) -> bool {
        a >= b
    }

    open spec fn sum_of(a: u32, b: u32) -> u32 {
        (a + b) as u32
    }

    open spec fn product_of(a: u32, b: u32) -> u32 {
        (a * b) as u32
    }

    open spec fn sum_fits(self) -> bool {
        match self {
            GridIndex::One(_) => true,
            GridIndex::Two(x, y) => x + y <= u32::MAX,
            GridIndex::Three(x, y, z) => x + y + z <= u32::MAX,
        }
    }

    open spec fn product_fits(self) -> bool {
        match self {
            GridIndex::One(_) => true,
            GridIndex::Two(x, y) => x * y <= u32::MAX,
            GridIndex::Three(x, y, z) => x * y <= u32::MAX && x * y * z <= u32::MAX,
        }
    }

    fn from_element(dim: Dim, value: u32) -> (r: Self) {
        let r = GridIndex::splat(dim, value);
        assert(r.elements() =~= Seq::new(dim.count_spec() as nat, |i: int| value));
        r
    }

    fn zero(dim: Dim) -> (r: Self) {
        Self::from_element(dim, 0)
    }

    fn one(dim: Dim) -> (r: Self) {
        Self::from_element(dim, 1)
    }

    fn largest_element(self) -> (r: u32) {
        match self {
            GridIndex::One(z) => z,
            GridIndex::Two(x, y) => larger_u32(x, y),
            GridIndex::Three(x, y, z) => larger_u32(x, larger_u32(y, z)),
        }
    }

    fn smallest_element(self) -> (r: u32) {
        match self {
            GridIndex::One(z) => z,
            GridIndex::Two(x, y) => smaller_u32(x, y),
            GridIndex::Three(x, y, z) => smaller_u32(x, smaller_u32(y, z)),
        }
    }

    fn ge(self, rhs: Self) -> (r: BoolVect) {
        let r = match (self, rhs) {
            (GridIndex::One(z), GridIndex::One(c)) => BoolVect::One(z >= c),
            (GridIndex::Two(x, y), GridIndex::Two(a, b)) => BoolVect::Two(x >= a, y >= b),
            (GridIndex::Three(x, y, z), GridIndex::Three(a, b, c)) => BoolVect::Three(
                x >= a,
                y >= b,
                z >= c,
            ),
            _ => BoolVect::One(false),
        };
        assert(Self::comparisons(r) =~= Seq::new(
            self.elements().len(),
            |i: int| Self::at_least(self.elements()[i], rhs.elements()[i]),
        ));
        r
    }

    fn sum_elements(self) -> (r: u32) {
        match self {
            GridIndex::One(z) => z,
            GridIndex::Two(x, y) => x + y,
            GridIndex::Three(x, y, z) => x + y + z,
        }
    }

    fn mul_elements(self) -> (r: u32) {
        match self {
            GridIndex::One(z) => z,
            GridIndex::Two(x, y) => x * y,
            GridIndex::Three(x, y, z) => x * y * z,
        }
    }

    fn map_elements<F: Fn(u32) -> u32>(self, f: F) -> (r: Self) {
        let ghost elements = self.elements();
        match self {
            GridIndex::One(z) => {
                assert(elements[0] == z);
                GridIndex::One(f(z))
            },
            GridIndex::Two(x, y) => {
                assert(elements[0] == x && elements[1] == y);
                GridIndex::Two(f(x), f(y))
            },
            GridIndex::Three(x, y, z) => {
                assert(elements[0] == x && elements[1] == y && elements[2] == z);
                GridIndex::Three(f(x), f(y), f(z))
            },
        }
    }
}

impl<S: Scalar> VectorValueExt for Vect<S> {
    type Element = S;

    type Boolean = BoolVect;

    open spec fn elements(self) -> Seq<S> {
        self.array()
    }

    open spec fn dims(self) -> Dim {
        self.dim()
    }

    open spec fn comparisons(b: BoolVect) -> Seq<bool> {
        b.lanes()
    }

    open spec fn zero_element() -> S {
        S::zero_spec()
    }

    open spec fn one_element() -> S {
        S::one_spec()
    }

    open spec fn larger_of(a: S, b: S) -> S {
        a.larger_spec(b)
    }

    open spec fn smaller_of(a: S, b: S) -> S {
        a.smaller_spec(b)
    }

    open spec fn at_least(a: S, b: S) -> bool {
        a.at_least_spec(b)
    }

    open spec fn sum_of(a: S, b: S) -> S {
        a + b
    }

    open spec fn product_of(a: S, b: S) -> S {
        a * b
    }

    open spec fn sum_fits(self) -> bool {
        true
    }

    open spec fn product_fits(self) -> bool {
        true
    }

    fn from_element(dim: Dim, value: S) -> (r: Self) {
        let r = match dim {
            Dim::One => Vect::One(value),
            Dim::Two => Vect::Two(value.dup(), value),
            Dim::Three => Vect::Three(value.dup(), value.dup(), value),
        };
        assert(r.elements() =~= Seq::new(dim.count_spec() as nat, |i: int| value));
        r
    }

    fn zero(dim: Dim) -> (r: Self) {
        Self::from_element(dim, S::zero())
    }

    fn one(dim: Dim) -> (r: Self) {
        Self::from_element(dim, S::one())
    }

    fn largest_element(self) -> (r: S) {
        match self {
            Vect::One(z) => z,
            Vect::Two(x, y) => x.larger(&y),
            Vect::Three(x, y, z) => x.larger(&y.larger(&z)),
        }
    }

    fn smallest_element(self) -> (r: S) {
        match self {
            Vect::One(z) => z,
            Vect::Two(x, y) => x.smaller(&y),
            Vect::Three(x, y, z) => x.smaller(&y.smaller(&z)),
        }
    }

    fn ge(self, rhs: Self) -> (r: BoolVect) {
        let r = match (&self, &rhs) {
            (Vect::One(z), Vect::One(c)) => BoolVect::One(z.at_least(c)),
            (Vect::Two(x, y), Vect::Two(a, b)) => BoolVect::Two(x.at_least(a), y.at_least(b)),
            (Vect::Three(x, y, z), Vect::Three(a, b, c)) => BoolVect::Three(
                x.at_least(a),
                y.at_least(b),
                z.at_least(c),
            ),
            _ => BoolVect::One(false),
        };
        assert(Self::comparisons(r) =~= Seq::new(
            self.elements().len(),
            |i: int| Self::at_least(self.elements()[i], rhs.elements()[i]),
        ));
        r
    }

    fn sum_elements(self) -> (r: S) {
        match self {
            Vect::One(z) => z,
            Vect::Two(x, y) => x.plus(&y),
            Vect::Three(x, y, z) => x.plus(&y).plus(&z),
        }
    }

    fn mul_elements(self) -> (r: S) {
        match self {
            Vect::One(z) => z,
            Vect::Two(x, y) => x.times(&y),
            Vect::Three(x, y, z) => x.times(&y).times(&z),
        }
    }

    fn map_elements<F: Fn(S) -> S>(self, f: F) -> (r: Self) {
        let ghost elements = self.elements();
        match self {
            Vect::One(z) => {
                assert(elements[0] == z);
                Vect::One(f(z))
            },
            Vect::Two(x, y) => {
                assert(elements[0] == x && elements[1] == y);
                Vect::Two(f(x), f(y))
            },
            Vect::Three(x, y, z) => {
                assert(elements[0] == x && elements[1] == y && elements[2] == z);
                Vect::Three(f(x), f(y), f(z))
            },
        }
    }
}

impl<S: Scalar> Vect<S> {
    pub open spec fn dim(self) -> Dim {
        match self {
            Vect::One(_) => Dim::One,
            Vect::Two(_, _) => Dim::Two,
            Vect::Three(_, _, _) => Dim::Three,
        }
    }

    pub fn get_dim(&self) -> (r: Dim)
        ensures
            r == self.dim(),
    {
        match self {
            Vect::One(_) => Dim::One,
            Vect::Two(_, _) => Dim::Two,
            Vect::Three(_, _, _) => Dim::Three,
        }
    }

    pub open spec fn array(self) -> Seq<S> {
        match self {
            Vect::One(z) => seq![z],
            Vect::Two(x, y) => seq![x, y],
            Vect::Three(x, y, z) => seq![x, y, z],
        }
    }

    pub fn dup(&self) -> (r: Self)
        ensures
            r == *self,
    {
        match self {
            Vect::One(z) => Vect::One(z.dup()),
            Vect::Two(x, y) => Vect::Two(x.dup(), y.dup()),
            Vect::Three(x, y, z) => Vect::Three(x.dup(), y.dup(), z.dup()),
        }
    }

    /// The component along `axis`.
    pub fn get(&self, axis: SpatialAxis) -> (r: &S)
        requires
            axis.of_dim(self.dim()),
        ensures
            *r == self.array()[axis.index_spec(self.dim()) as int],
    {
        match (self, axis) {
            (Vect::One(z), _) => z,
            (Vect::Two(x, _), SpatialAxis::X) => x,
            (Vect::Two(_, y), _) => y,
            (Vect::Three(x, _, _), SpatialAxis::X) => x,
            (Vect::Three(_, y, _), SpatialAxis::Y) => y,
            (Vect::Three(_, _, z), SpatialAxis::Z) => z,
        }
    }

    pub open spec fn to_3d_spec(self, mask: Vec3<S>) -> Vec3<S> {
        match self {
            Vect::One(z) => Vec3 { x: mask.x, y: mask.y, z },
            Vect::Two(x, y) => Vec3 { x, y, z: mask.z },
            Vect::Three(x, y, z) => Vec3 { x, y, z },
        }
    }

    /// Converts a [`Vect`] to [`Vec3`].
    /// `mask` sets the components that `self` doesn't already have.
    ///
    /// e.g. the vector `z` with the mask `(1, 1, 1)` gives `(1, 1, z)` in 1D.
    pub fn to_3d(&self, mask: &Vec3<S>) -> (r: Vec3<S>)
        ensures
            r == self.to_3d_spec(*mask),
    {
        match self {
            Vect::One(z) => Vec3 { x: mask.x.dup(), y: mask.y.dup(), z: z.dup() },
            Vect::Two(x, y) => Vec3 { x: x.dup(), y: y.dup(), z: mask.z.dup() },
            Vect::Three(x, y, z) => Vec3 { x: x.dup(), y: y.dup(), z: z.dup() },
        }
    }

    /// The components, in the order of the spatial axes.
    pub fn into_array(self) -> (r: Vec<S>)
        ensures
            r@ == self.array(),
    {
        match self {
            Vect::One(z) => vec![z],
            Vect::Two(x, y) => vec![x, y],
            Vect::Three(x, y, z) => vec![x, y, z],
        }
    }

    /// The vector with the components `arr`, in the order of the spatial axes.
    pub fn from_array(dim: Dim, arr: &Vec<S>) -> (r: Self)
        requires
            arr.len() == dim.count_spec(),
        ensures
            r.dim() == dim,
            r.array() == arr@,
    {
        let r = match dim {
            Dim::One => Vect::One(arr[0].dup()),
            Dim::Two => Vect::Two(arr[0].dup(), arr[1].dup()),
            Dim::Three => Vect::Three(arr[0].dup(), arr[1].dup(), arr[2].dup()),
        };
        assert(r.array() =~= arr@);
        r
    }

    pub open spec fn from_vec3_spec(dim: Dim, v: Vec3<S>) -> Self {
        match dim {
            Dim::One => Vect::One(v.z),
            Dim::Two => Vect::Two(v.x, v.y),
            Dim::Three => Vect::Three(v.x, v.y, v.z),
        }
    }

    /// The spatial components of `v`.
    pub fn from_vec3(dim: Dim, v: &Vec3<S>) -> (r: Self)
        ensures
            r == Self::from_vec3_spec(dim, *v),
    {
        match dim {
            Dim::One => Vect::One(v.z.dup()),
            Dim::Two => Vect::Two(v.x.dup(), v.y.dup()),
            Dim::Three => Vect::Three(v.x.dup(), v.y.dup(), v.z.dup()),
        }
    }

    /// The spatial components of `v`.
    pub fn from_vec4(dim: Dim, v: &Vec4<S>) -> (r: Self)
        ensures
            r == Self::from_vec3_spec(dim, v.xyz_spec()),
    {
        match dim {
            Dim::One => Vect::One(v.z.dup()),
            Dim::Two => Vect::Two(v.x.dup(), v.y.dup()),
            Dim::Three => Vect::Three(v.x.dup(), v.y.dup(), v.z.dup()),
        }
    }

    pub open spec fn as_grid_index_spec(self) -> GridIndex {
        match self {
            Vect::One(z) => GridIndex::One(z.to_index_spec()),
            Vect::Two(x, y) => GridIndex::Two(x.to_index_spec(), y.to_index_spec()),
            Vect::Three(x, y, z) => GridIndex::Three(
                x.to_index_spec(),
                y.to_index_spec(),
                z.to_index_spec(),
            ),
        }
    }

    /// Convert [`Vect`] to [`GridIndex`]. This effectively floors all components of `self`.
    pub fn as_grid_index(&self) -> (r: GridIndex)
        ensures
            r == self.as_grid_index_spec(),
            r.dim() == self.dim(),
    {
        match self {
            Vect::One(z) => GridIndex::One(z.to_index()),
            Vect::Two(x, y) => GridIndex::Two(x.to_index(), y.to_index()),
            Vect::Three(x, y, z) => GridIndex::Three(x.to_index(), y.to_index(), z.to_index()),
        }
    }

    pub open spec fn magnitude_spec(self) -> S {
        match self {
            Vect::One(z) => z,
            Vect::Two(x, y) => (x * x + y * y).sqrt_spec(),
            Vect::Three(x, y, z) => (x * x + y * y + z * z).sqrt_spec(),
        }
    }

    /// Euclidean length; in 1D the component itself.
    pub fn magnitude(&self) -> (r: S)
        ensures
            r == self.magnitude_spec(),
    {
        match self {
            Vect::One(z) => z.dup(),
            Vect::Two(x, y) => x.times(x).plus(&y.times(y)).sqrt(),
            Vect::Three(x, y, z) => x.times(x).plus(&y.times(y)).plus(&z.times(z)).sqrt(),
        }
    }

    /// `f` applied to each component.
    pub open spec fn each(self, f: spec_fn(S) -> S) -> Self {
        match self {
            Vect::One(z) => Vect::One(f(z)),
            Vect::Two(x, y) => Vect::Two(f(x), f(y)),
            Vect::Three(x, y, z) => Vect::Three(f(x), f(y), f(z)),
        }
    }

    /// `f` applied to each two components.
    pub open spec fn each2(self, rhs: Self, f: spec_fn(S, S) -> S) -> Self {
        match (self, rhs) {
            (Vect::One(z), Vect::One(c)) => Vect::One(f(z, c)),
            (Vect::Two(x, y), Vect::Two(a, b)) => Vect::Two(f(x, a), f(y, b)),
            (Vect::Three(x, y, z), Vect::Three(a, b, c)) => Vect::Three(f(x, a), f(y, b), f(z, c)),
            _ => self,
        }
    }

    pub open spec fn spec_add(self, rhs: Self) -> Self {
        self.each2(rhs, |a: S, b: S| a + b)
    }

    pub fn plus(&self, rhs: &Self) -> (r: Self)
        requires
            self.dim() == rhs.dim(),
        ensures
            r == *self + *rhs,
            r.dim() == self.dim(),
    {
        match (self, rhs) {
            (Vect::One(z), Vect::One(c)) => Vect::One(z.plus(c)),
            (Vect::Two(x, y), Vect::Two(a, b)) => Vect::Two(x.plus(a), y.plus(b)),
            (Vect::Three(x, y, z), Vect::Three(a, b, c)) => Vect::Three(
                x.plus(a),
                y.plus(b),
                z.plus(c),
            ),
            _ => self.dup(),
        }
    }

    pub open spec fn spec_sub(self, rhs: Self) -> Self {
        self.each2(rhs, |a: S, b: S| a - b)
    }

    pub fn minus(&self, rhs: &Self) -> (r: Self)
        requires
            self.dim() == rhs.dim(),
        ensures
            r == *self - *rhs,
            r.dim() == self.dim(),
    {
        match (self, rhs) {
            (Vect::One(z), Vect::One(c)) => Vect::One(z.minus(c)),
            (Vect::Two(x, y), Vect::Two(a, b)) => Vect::Two(x.minus(a), y.minus(b)),
            (Vect::Three(x, y, z), Vect::Three(a, b, c)) => Vect::Three(
                x.minus(a),
                y.minus(b),
                z.minus(c),
            ),
            _ => self.dup(),
        }
    }

    pub open spec fn spec_mul(self, rhs: Self) -> Self {
        self.each2(rhs, |a: S, b: S| a * b)
    }

    pub fn times(&self, rhs: &Self) -> (r: Self)
        requires
            self.dim() == rhs.dim(),
        ensures
            r == *self * *rhs,
            r.dim() == self.dim(),
    {
        match (self, rhs) {
            (Vect::One(z), Vect::One(c)) => Vect::One(z.times(c)),
            (Vect::Two(x, y), Vect::Two(a, b)) => Vect::Two(x.times(a), y.times(b)),
            (Vect::Three(x, y, z), Vect::Three(a, b, c)) => Vect::Three(
                x.times(a),
                y.times(b),
                z.times(c),
            ),
            _ => self.dup(),
        }
    }

    pub open spec fn over_spec(self, rhs: Self) -> Self {
        self.each2(rhs, |a: S, b: S| a.over_spec(b))
    }

    pub fn over(&self, rhs: &Self) -> (r: Self)
        requires
            self.dim() == rhs.dim(),
        ensures
            r == self.over_spec(*rhs),
            r.dim() == self.dim(),
    {
        match (self, rhs) {
            (Vect::One(z), Vect::One(c)) => Vect::One(z.over(c)),
            (Vect::Two(x, y), Vect::Two(a, b)) => Vect::Two(x.over(a), y.over(b)),
            (Vect::Three(x, y, z), Vect::Three(a, b, c)) => Vect::Three(
                x.over(a),
                y.over(b),
                z.over(c),
            ),
            _ => self.dup(),
        }
    }

    pub open spec fn scaled_spec(self, k: S) -> Self {
        self.each(|a: S| a * k)
    }

    /// Every component times `k`.
    pub fn scaled(&self, k: &S) -> (r: Self)
        ensures
            r == self.scaled_spec(*k),
            r.dim() == self.dim(),
    {
        match self {
            Vect::One(z) => Vect::One(z.times(k)),
            Vect::Two(x, y) => Vect::Two(x.times(k), y.times(k)),
            Vect::Three(x, y, z) => Vect::Three(x.times(k), y.times(k), z.times(k)),
        }
    }

    pub open spec fn divided_spec(self, k: S) -> Self {
        self.each(|a: S| a.over_spec(k))
    }

    /// Every component divided by `k`.
    pub fn divided(&self, k: &S) -> (r: Self)
        ensures
            r == self.divided_spec(*k),
            r.dim() == self.dim(),
    {
        match self {
            Vect::One(z) => Vect::One(z.over(k)),
            Vect::Two(x, y) => Vect::Two(x.over(k), y.over(k)),
            Vect::Three(x, y, z) => Vect::Three(x.over(k), y.over(k), z.over(k)),
        }
    }

    pub open spec fn recip_spec(self) -> Self {
        self.each(|a: S| a.recip_spec())
    }

    /// The reciprocal of every component.
    pub fn recip(&self) -> (r: Self)
        ensures
            r == self.recip_spec(),
            r.dim() == self.dim(),
    {
        match self {
            Vect::One(z) => Vect::One(z.recip()),
            Vect::Two(x, y) => Vect::Two(x.recip(), y.recip()),
            Vect::Three(x, y, z) => Vect::Three(x.recip(), y.recip(), z.recip()),
        }
    }

    pub open spec fn ceil_spec(self) -> Self {
        self.each(|a: S| a.ceil_spec())
    }

    /// Every component rounded up.
    pub fn ceil(&self) -> (r: Self)
        ensures
            r == self.ceil_spec(),
            r.dim() == self.dim(),
    {
        match self {
            Vect::One(z) => Vect::One(z.ceil()),
            Vect::Two(x, y) => Vect::Two(x.ceil(), y.ceil()),
            Vect::Three(x, y, z) => Vect::Three(x.ceil(), y.ceil(), z.ceil()),
        }
    }
}

impl GridIndex {
    pub open spec fn as_vect_spec<S: Scalar>(self) -> Vect<S> {
        match self {
            GridIndex::One(z) => Vect::One(S::of_nat_spec(z)),
            GridIndex::Two(x, y) => Vect::Two(S::of_nat_spec(x), S::of_nat_spec(y)),
            GridIndex::Three(x, y, z) => Vect::Three(
                S::of_nat_spec(x),
                S::of_nat_spec(y),
                S::of_nat_spec(z),
            ),
        }
    }

    /// Convert [`GridIndex`] into [`Vect`].
    pub fn as_vect<S: Scalar>(&self) -> (r: Vect<S>)
        ensures
            r == self.as_vect_spec::<S>(),
            r.dim() == self.dim(),
    {
        match *self {
            GridIndex::One(z) => Vect::One(S::of_nat(z)),
            GridIndex::Two(x, y) => Vect::Two(S::of_nat(x), S::of_nat(y)),
            GridIndex::Three(x, y, z) => Vect::Three(S::of_nat(x), S::of_nat(y), S::of_nat(z)),
        }
    }
}

/// Converts a [`Vect`] to [`Vec3`]; `mask` sets the components that `v` doesn't have.
///
/// e.g. the vector `z` with the mask `(1, 1, 1)` gives `(1, 1, z)` in 1D.
pub fn vect_to_3d<S: Scalar>(v: &Vect<S>, mask: &Vec3<S>) -> (r: Vec3<S>)
    ensures
        r == v.to_3d_spec(*mask),
{
    v.to_3d(mask)
}

/// The components, in the order of the spatial axes.
pub fn vect_to_array<S: Scalar>(v: Vect<S>) -> (r: Vec<S>)
    ensures
        r@ == v.array(),
{
    v.into_array()
}

/// The vector with the components `arr`, in the order of the spatial axes.
pub fn vect_from_array<S: Scalar>(dim: Dim, arr: &Vec<S>) -> (r: Vect<S>)
    requires
        arr.len() == dim.count_spec(),
    ensures
        r.dim() == dim,
        r.array() == arr@,
{
    Vect::from_array(dim, arr)
}

/// The spatial components of `v`.
pub fn vec3_to_vect<S: Scalar>(dim: Dim, v: &Vec3<S>) -> (r: Vect<S>)
    ensures
        r == Vect::from_vec3_spec(dim, *v),
{
    Vect::from_vec3(dim, v)
}

/// The spatial components of `v`.
pub fn vec4_to_vect<S: Scalar>(dim: Dim, v: &Vec4<S>) -> (r: Vect<S>)
    ensures
        r == Vect::from_vec3_spec(dim, v.xyz_spec()),
{
    Vect::from_vec4(dim, v)
}

/// Convert [`Vect`] to [`GridIndex`]. This effectively floors all components of `v`.
pub fn to_grid_index<S: Scalar>(v: &Vect<S>) -> (r: GridIndex)
    ensures
        r == v.as_grid_index_spec(),
{
    v.as_grid_index()
}

/// Convert [`GridIndex`] into [`Vect`].
pub fn grid_index_as_vect<S: Scalar>(idx: GridIndex) -> (r: Vect<S>)
    ensures
        r == idx.as_vect_spec::<S>(),
{
    idx.as_vect()
}

/// Converts a [`GridIndex`] to [`UVec3`]; `mask` sets the components that `idx` doesn't have.
///
/// e.g. the index `k` with the mask `(1, 1, 1)` gives `(1, 1, k)` in 1D.
pub fn grid_index_to_3d(idx: GridIndex, mask: UVec3) -> (r: UVec3)
    ensures
        r == idx.to_3d_spec(mask),
{
    idx.to_3d(mask)
}

/// The components, in the order of the spatial axes.
pub fn grid_index_to_array(idx: GridIndex) -> (r: Vec<u32>)
    ensures
        r@ == idx.array(),
{
    idx.into_array()
}

/// The index with the components `arr`, in the order of the spatial axes.
pub fn grid_index_from_array(dim: Dim, arr: &Vec<u32>) -> (r: GridIndex)
    requires
        arr.len() == dim.count_spec(),
    ensures
        r.dim() == dim,
        r.array() == arr@,
{
    GridIndex::from_index_array(dim, arr)
}

/// The spatial components of `v`.
pub fn uvec3_to_grid_index(dim: Dim, v: UVec3) -> (r: GridIndex)
    ensures
        r == GridIndex::from_uvec3_spec(dim, v),
{
    GridIndex::from_uvec3(dim, v)
}

/// The cell of a grid of dimensions `grid_dim` that is stored at `idx`. Behind the end of a grid in
/// 2D the rows start over.
pub fn flat_idx_to_grid_index(idx: u32, grid_dim: GridIndex) -> (r: GridIndex)
    requires
        grid_dim matches GridIndex::Two(nx, ny) ==> nx != 0 && ny != 0,
        grid_dim matches GridIndex::Three(nx, ny, _) ==> nx != 0 && ny != 0 && nx * ny <= u32::MAX,
    ensures
        r == match grid_dim {
            GridIndex::Two(nx, ny) => GridIndex::Two(
                (idx as int % nx as int) as u32,
                ((idx as int / nx as int) % ny as int) as u32,
            ),
            _ => GridIndex::unflat(idx as int, grid_dim),
        },
{
    match grid_dim {
        GridIndex::Two(nx, ny) => GridIndex::Two(idx % nx, (idx / nx) % ny),
        _ => GridIndex::from_flat_idx(idx, grid_dim),
    }
}

/// Where the cell `grid_idx` of a grid of dimensions `grid_dim` is stored.
pub fn grid_index_to_flat_idx(grid_idx: GridIndex, grid_dim: GridIndex) -> (r: u32)
    requires
        grid_idx.dim() == grid_dim.dim(),
        grid_idx.flat(grid_dim) <= u32::MAX,
        grid_idx.cell3().z * grid_dim.cells3().x <= u32::MAX,
    ensures
        r == grid_idx.flat(grid_dim),
{
    grid_idx.to_flat_idx(grid_dim)
}

/// The cell that a thread works on: in 1D the threads count along X and the cells along Z.
pub fn thread_id_to_3d_grid_index(dim: Dim, id3: UVec3) -> (r: UVec3)
    ensures
        r == if dim == Dim::One {
            UVec3 { x: 0, y: 0, z: id3.x }
        } else {
            id3
        },
{
    if matches!(dim, Dim::One) {
        UVec3::new(0, 0, id3.x)
    } else {
        id3
    }
}

/// Taking the spatial components of a 3D vector undoes filling up the others.
pub proof fn law_to_3d_and_back<S: Scalar>(v: Vect<S>, mask: Vec3<S>)
    ensures
        Vect::from_vec3_spec(v.dim(), v.to_3d_spec(mask)) == v,
{
}

/// Taking the spatial components of a 3D index undoes filling up the others.
pub proof fn law_index_to_3d_and_back(c: GridIndex, mask: UVec3)
    ensures
        GridIndex::from_uvec3_spec(c.dim(), c.to_3d_spec(mask)) == c,
{
}

/// The sum of the squares of the first `k` components.
pub open spec fn squares_of<S: Scalar>(read: spec_fn(S) -> real, v: Seq<S>, k: nat) -> real
    decreases k,
{
    if k == 0 {
        0 as real
    } else {
        let c = at(read, v[k - 1]);
        squares_of(read, v, (k - 1) as nat) + times(c, c)
    }
}

/// The square of the length of a vector is the sum of the squares of its components.
pub proof fn law_length_squared<S: Scalar>(read: spec_fn(S) -> real, v: Vect<S>)
    requires
        exact(read),
        exact_roots(read),
    ensures
        times(at(read, v.magnitude_spec()), at(read, v.magnitude_spec())) == squares_of(
            read,
            v.array(),
            v.array().len(),
        ),
{
    reveal_with_fuel(squares_of, 4);
    match v {
        Vect::One(z) => {
            crate::polarization::lemma_square_sign(at(read, z));
        },
        Vect::Two(x, y) => {
            crate::polarization::lemma_square_sign(at(read, x));
            crate::polarization::lemma_square_sign(at(read, y));
        },
        Vect::Three(x, y, z) => {
            crate::polarization::lemma_square_sign(at(read, x));
            crate::polarization::lemma_square_sign(at(read, y));
            crate::polarization::lemma_square_sign(at(read, z));
        },
    }
}

/// The largest component is a component that no other exceeds, and the smallest one is one that
/// exceeds no other.
pub proof fn law_extreme_elements_bound_the_others<S: Scalar>(
    read: spec_fn(S) -> real,
    v: Vect<S>,
    i: int,
)
    requires
        exact(read),
        0 <= i < v.array().len(),
    ensures
        ({
            let largest = at(
                read,
                fold_right(v.array(), |a: S, b: S| <Vect<S> as VectorValueExt>::larger_of(a, b)),
            );
            let smallest = at(
                read,
                fold_right(v.array(), |a: S, b: S| <Vect<S> as VectorValueExt>::smaller_of(a, b)),
            );
            &&& smallest <= at(read, v.array()[i]) <= largest
            &&& exists|j: int|
                0 <= j < v.array().len() && at(read, #[trigger] v.array()[j]) == largest
            &&& exists|j: int|
                0 <= j < v.array().len() && at(read, #[trigger] v.array()[j]) == smallest
        }),
{
    let a = v.array();
    assert(at(read, a[0]) == at(read, a[0]));
    if a.len() >= 2 {
        assert(at(read, a[1]) == at(read, a[1]));
    }
    if a.len() >= 3 {
        assert(at(read, a[2]) == at(read, a[2]));
    }
}

/// The sum and the product of the components, from the first on.
pub open spec fn joined_elements<S: Scalar>(
    read: spec_fn(S) -> real,
    v: Seq<S>,
    k: nat,
) -> (real, real)
    decreases k,
{
    if k == 0 {
        (0 as real, 1 as real)
    } else {
        let (sum, product) = joined_elements(read, v, (k - 1) as nat);
        let c = at(read, v[k - 1]);
        (sum + c, times(product, c))
    }
}

/// The sum and the product of all components.
pub proof fn law_elements_are_summed_and_multiplied<S: Scalar>(
    read: spec_fn(S) -> real,
    v: Vect<S>,
)
    requires
        exact(read),
    ensures
        ({
            let sum = fold_left(
                v.array(),
                |a: S, b: S| <Vect<S> as VectorValueExt>::sum_of(a, b),
            );
            let product = fold_left(
                v.array(),
                |a: S, b: S| <Vect<S> as VectorValueExt>::product_of(a, b),
            );
            (at(read, sum), at(read, product)) == joined_elements(
                read,
                v.array(),
                v.array().len(),
            )
        }),
{
    reveal_with_fuel(joined_elements, 4);
    lemma_unit(at(read, v.array()[0]));
}

} // verus!
