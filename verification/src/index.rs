//! Positions of cells in a grid, and the order in which the cells of a grid are stored.
use crate::axis::{Axis, Dim, SpatialAxis};
use crate::vector::UVec3;
use vstd::arithmetic::div_mod::*;
use vstd::arithmetic::mul::*;
use vstd::prelude::*;

verus! {

/// The position of a cell in a grid, or the dimensions of a grid, counted in cells.
#[derive(Copy, Clone, Debug, PartialEq, Eq, Structural)]
pub enum GridIndex {
    /// Along Z.
    One(u32),
    /// Along X and Y.
    Two(u32, u32),
    /// Along X, Y and Z.
    Three(u32, u32, u32),
}

/// Where the cell `c` of a grid with `n` cells along the axes is stored: X runs fastest, Z slowest.
pub open spec fn flat3(c: UVec3, n: UVec3) -> int {
    c.z * n.x * n.y + c.y * n.x + c.x
}

impl GridIndex {
    pub open spec fn dim(self) -> Dim {
        match self {
            GridIndex::One(_) => Dim::One,
            GridIndex::Two(_, _) => Dim::Two,
            GridIndex::Three(_, _, _) => Dim::Three,
        }
    }

    pub fn get_dim(&self) -> (r: Dim)
        ensures
            r == self.dim(),
    {
        match *self {
            GridIndex::One(_) => Dim::One,
            GridIndex::Two(_, _) => Dim::Two,
            GridIndex::Three(_, _, _) => Dim::Three,
        }
    }

    /// The component along `axis`; 0 along an axis that is not spatial.
    pub open spec fn at(self, axis: Axis) -> u32 {
        self.to_3d_spec(UVec3::splat_spec(0)).at(axis)
    }

    /// The component along `axis`.
    pub fn get(&self, axis: SpatialAxis) -> (r: u32)
        requires
            axis.of_dim(self.dim()),
        ensures
            r == self.at(axis.axis()),
    {
        match (*self, axis) {
            (GridIndex::One(z), _) => z,
            (GridIndex::Two(x, _), SpatialAxis::X) => x,
            (GridIndex::Two(_, y), _) => y,
            (GridIndex::Three(x, _, _), SpatialAxis::X) => x,
            (GridIndex::Three(_, y, _), SpatialAxis::Y) => y,
            (GridIndex::Three(_, _, z), SpatialAxis::Z) => z,
        }
    }

    pub open spec fn with_spec(self, axis: Axis, v: u32) -> GridIndex {
        match (self, axis) {
            (GridIndex::One(_), Axis::Z) => GridIndex::One(v),
            (GridIndex::Two(_, y), Axis::X) => GridIndex::Two(v, y),
            (GridIndex::Two(x, _), Axis::Y) => GridIndex::Two(x, v),
            (GridIndex::Three(_, y, z), Axis::X) => GridIndex::Three(v, y, z),
            (GridIndex::Three(x, _, z), Axis::Y) => GridIndex::Three(x, v, z),
            (GridIndex::Three(x, y, _), Axis::Z) => GridIndex::Three(x, y, v),
            _ => self,
        }
    }

    /// `self` with the component along `axis` replaced by `v`.
    pub fn with(&self, axis: SpatialAxis, v: u32) -> (r: Self)
        requires
            axis.of_dim(self.dim()),
        ensures
            r == self.with_spec(axis.axis(), v),
    {
        match (*self, axis) {
            (GridIndex::One(_), _) => GridIndex::One(v),
            (GridIndex::Two(_, y), SpatialAxis::X) => GridIndex::Two(v, y),
            (GridIndex::Two(x, _), _) => GridIndex::Two(x, v),
            (GridIndex::Three(_, y, z), SpatialAxis::X) => GridIndex::Three(v, y, z),
            (GridIndex::Three(x, _, z), SpatialAxis::Y) => GridIndex::Three(x, v, z),
            (GridIndex::Three(x, y, _), SpatialAxis::Z) => GridIndex::Three(x, y, v),
        }
    }

    pub open spec fn splat_spec(dim: Dim, v: u32) -> GridIndex {
        match dim {
            Dim::One => GridIndex::One(v),
            Dim::Two => GridIndex::Two(v, v),
            Dim::Three => GridIndex::Three(v, v, v),
        }
    }

    /// Every component `v`.
    pub fn splat(dim: Dim, v: u32) -> (r: Self)
        ensures
            r == Self::splat_spec(dim, v),
    {
        match dim {
            Dim::One => GridIndex::One(v),
            Dim::Two => GridIndex::Two(v, v),
            Dim::Three => GridIndex::Three(v, v, v),
        }
    }

    pub open spec fn array(self) -> Seq<u32> {
        match self {
            GridIndex::One(z) => seq![z],
            GridIndex::Two(x, y) => seq![x, y],
            GridIndex::Three(x, y, z) => seq![x, y, z],
        }
    }

    /// The components, in the order of the spatial axes.
    pub fn into_array(self) -> (r: Vec<u32>)
        ensures
            r@ == self.array(),
    {
        match self {
            GridIndex::One(z) => vec![z],
            GridIndex::Two(x, y) => vec![x, y],
            GridIndex::Three(x, y, z) => vec![x, y, z],
        }
    }

    /// The index with the components `arr`, in the order of the spatial axes.
    pub fn from_index_array(dim: Dim, arr: &Vec<u32>) -> (r: Self)
        requires
            arr.len() == dim.count_spec(),
        ensures
            r.dim() == dim,
            r.array() == arr@,
    {
        let r = match dim {
            Dim::One => GridIndex::One(arr[0]),
            Dim::Two => GridIndex::Two(arr[0], arr[1]),
            Dim::Three => GridIndex::Three(arr[0], arr[1], arr[2]),
        };
        assert(r.array() =~= arr@);
        r
    }

    /// Division of each component, rounded up.
    pub open spec fn div_ceil_spec(self, rhs: GridIndex) -> GridIndex {
        match (self, rhs) {
            (GridIndex::One(z), GridIndex::One(c)) => GridIndex::One(ceil_div(z, c)),
            (GridIndex::Two(x, y), GridIndex::Two(a, b)) => GridIndex::Two(
                ceil_div(x, a),
                ceil_div(y, b),
            ),
            (GridIndex::Three(x, y, z), GridIndex::Three(a, b, c)) => GridIndex::Three(
                ceil_div(x, a),
                ceil_div(y, b),
                ceil_div(z, c),
            ),
            _ => self,
        }
    }

    /// Division of each component, rounded up.
    pub fn div_ceil(self, rhs: GridIndex) -> (r: GridIndex)
        requires
            self.dim() == rhs.dim(),
            rhs.nonzero(),
        ensures
            r == self.div_ceil_spec(rhs),
            r.dim() == self.dim(),
    {
        match (self, rhs) {
            (GridIndex::One(z), GridIndex::One(c)) => GridIndex::One(div_ceil_u32(z, c)),
            (GridIndex::Two(x, y), GridIndex::Two(a, b)) => GridIndex::Two(
                div_ceil_u32(x, a),
                div_ceil_u32(y, b),
            ),
            (GridIndex::Three(x, y, z), GridIndex::Three(a, b, c)) => GridIndex::Three(
                div_ceil_u32(x, a),
                div_ceil_u32(y, b),
                div_ceil_u32(z, c),
            ),
            _ => self,
        }
    }

    /// No component is 0.
    pub open spec fn nonzero(self) -> bool {
        match self {
            GridIndex::One(z) => z != 0,
            GridIndex::Two(x, y) => x != 0 && y != 0,
            GridIndex::Three(x, y, z) => x != 0 && y != 0 && z != 0,
        }
    }

    pub open spec fn to_3d_spec(self, mask: UVec3) -> UVec3 {
        match self {
            GridIndex::One(z) => UVec3 { x: mask.x, y: mask.y, z },
            GridIndex::Two(x, y) => UVec3 { x, y, z: mask.z },
            GridIndex::Three(x, y, z) => UVec3 { x, y, z },
        }
    }

    /// Converts a [`GridIndex`] to [`UVec3`].
    /// `mask` sets the components that `self` doesn't already have.
    ///
    /// e.g. the index `k` with the mask `(1, 1, 1)` gives `(1, 1, k)` in 1D.
    pub fn to_3d(self, mask: UVec3) -> (r: UVec3)
        ensures
            r == self.to_3d_spec(mask),
    {
        match self {
            GridIndex::One(z) => UVec3::new(mask.x, mask.y, z),
            GridIndex::Two(x, y) => UVec3::new(x, y, mask.z),
            GridIndex::Three(x, y, z) => UVec3::new(x, y, z),
        }
    }

    pub open spec fn cells3(self) -> UVec3 {
        self.to_3d_spec(UVec3::splat_spec(1))
    }

    /// Helper function for converting the dimensions of a grid into a 3D vector.
    pub fn n_cells_to_3d(self) -> (r: UVec3)
        ensures
            r == self.cells3(),
    {
        self.to_3d(UVec3::splat(1))
    }

    pub open spec fn cell3(self) -> UVec3 {
        self.to_3d_spec(UVec3::splat_spec(0))
    }

    /// Helper function for converting the index of a cell in a grid into a 3D vector index.
    pub fn cell_idx_to_3d(self) -> (r: UVec3)
        ensures
            r == self.cell3(),
    {
        self.to_3d(UVec3::splat(0))
    }

    pub open spec fn from_uvec3_spec(dim: Dim, v: UVec3) -> GridIndex {
        match dim {
            Dim::One => GridIndex::One(v.z),
            Dim::Two => GridIndex::Two(v.x, v.y),
            Dim::Three => GridIndex::Three(v.x, v.y, v.z),
        }
    }

    /// The spatial components of `v`.
    pub fn from_uvec3(dim: Dim, v: UVec3) -> (r: GridIndex)
        ensures
            r == Self::from_uvec3_spec(dim, v),
    {
        match dim {
            Dim::One => GridIndex::One(v.z),
            Dim::Two => GridIndex::Two(v.x, v.y),
            Dim::Three => GridIndex::Three(v.x, v.y, v.z),
        }
    }

    /// Every component is below that of `n_cells`: `self` is a cell of a grid of these dimensions.
    pub open spec fn cell_of(self, n_cells: GridIndex) -> bool {
        &&& self.dim() == n_cells.dim()
        &&& self.cell3().below(n_cells.cells3())
    }

    /// How many cells a grid of these dimensions has.
    pub open spec fn cell_count(self) -> int {
        self.cells3().product_spec()
    }

    /// Where the cell `self` is stored.
    pub open spec fn flat(self, n_cells: GridIndex) -> int {
        flat3(self.cell3(), n_cells.cells3())
    }

    /// Where the cell `self` of a grid of dimensions `grid_dim` is stored.
    pub fn to_flat_idx(self, grid_dim: GridIndex) -> (r: u32)
        requires
            self.dim() == grid_dim.dim(),
            self.flat(grid_dim) <= u32::MAX,
            self.cell3().z * grid_dim.cells3().x <= u32::MAX,
        ensures
            r == self.flat(grid_dim),
    {
        match (self, grid_dim) {
            (GridIndex::One(z), _) => {
                assert(self.cell3().z * 1 * 1 == self.cell3().z);
                assert(0 * 1 == 0int);
                z
            },
            (GridIndex::Two(x, y), GridIndex::Two(nx, ny)) => {
                assert(0 * nx * ny == 0int) by (nonlinear_arith);
                assert(0 <= y * nx) by (nonlinear_arith);
                y * nx + x
            },
            (GridIndex::Three(x, y, z), GridIndex::Three(nx, ny, _)) => {
                assert(0 <= z * nx * ny) by (nonlinear_arith);
                assert(0 <= y * nx) by (nonlinear_arith);
                z * nx * ny + y * nx + x
            },
            _ => 0,
        }
    }

    /// The cell that is stored at `idx`.
    pub open spec fn unflat(idx: int, n: GridIndex) -> GridIndex {
        match n {
            GridIndex::One(_) => GridIndex::One(idx as u32),
            GridIndex::Two(nx, _) => GridIndex::Two((idx % nx as int) as u32, (idx / nx as int) as u32),
            GridIndex::Three(nx, ny, _) => GridIndex::Three(
                (idx % nx as int) as u32,
                ((idx / nx as int) % ny as int) as u32,
                (idx / (nx * ny)) as u32,
            ),
        }
    }

    /// The cell of a grid of dimensions `grid_dim` that is stored at `idx`.
    pub fn from_flat_idx(idx: u32, grid_dim: GridIndex) -> (r: GridIndex)
        requires
            grid_dim matches GridIndex::Two(nx, _) ==> nx != 0,
            grid_dim matches GridIndex::Three(nx, ny, _) ==> nx != 0 && ny != 0 && nx * ny
                <= u32::MAX,
        ensures
            r == Self::unflat(idx as int, grid_dim),
            r.dim() == grid_dim.dim(),
    {
        match grid_dim {
            GridIndex::One(_) => GridIndex::One(idx),
            GridIndex::Two(nx, _) => GridIndex::Two(idx % nx, idx / nx),
            GridIndex::Three(nx, ny, _) => {
                assert(nx * ny > 0) by (nonlinear_arith)
                    requires
                        nx != 0,
                        ny != 0,
                ;
                GridIndex::Three(idx % nx, (idx / nx) % ny, idx / (nx * ny))
            },
        }
    }

    /// The product of the components.
    pub fn element_product(self) -> (r: u32)
        requires
            self.cell_count() <= u32::MAX,
            self.cells3().x * self.cells3().y <= u32::MAX,
        ensures
            r == self.cell_count(),
    {
        match self {
            GridIndex::One(z) => {
                assert(1 * 1 * z == z) by (nonlinear_arith);
                z
            },
            GridIndex::Two(x, y) => {
                assert(x * y * 1 == x * y) by (nonlinear_arith);
                x * y
            },
            GridIndex::Three(x, y, z) => x * y * z,
        }
    }

    /// Every component times `k`.
    pub open spec fn times_spec(self, k: int) -> GridIndex {
        match self {
            GridIndex::One(z) => GridIndex::One((z * k) as u32),
            GridIndex::Two(x, y) => GridIndex::Two((x * k) as u32, (y * k) as u32),
            GridIndex::Three(x, y, z) => GridIndex::Three(
                (x * k) as u32,
                (y * k) as u32,
                (z * k) as u32,
            ),
        }
    }

    /// Every component times `k` can still be counted.
    pub open spec fn times_fits(self, k: int) -> bool {
        match self {
            GridIndex::One(z) => z * k <= u32::MAX,
            GridIndex::Two(x, y) => x * k <= u32::MAX && y * k <= u32::MAX,
            GridIndex::Three(x, y, z) => x * k <= u32::MAX && y * k <= u32::MAX && z * k
                <= u32::MAX,
        }
    }

    /// Every component times `k`.
    pub fn times(self, k: u32) -> (r: GridIndex)
        requires
            self.times_fits(k as int),
        ensures
            r == self.times_spec(k as int),
            r.dim() == self.dim(),
    {
        match self {
            GridIndex::One(z) => GridIndex::One(z * k),
            GridIndex::Two(x, y) => GridIndex::Two(x * k, y * k),
            GridIndex::Three(x, y, z) => GridIndex::Three(x * k, y * k, z * k),
        }
    }

    /// Every component minus `k`.
    pub fn minus(self, k: u32) -> (r: GridIndex)
        requires
            forall|s: SpatialAxis| #[trigger] s.of_dim(self.dim()) ==> self.at(s.axis()) >= k,
        ensures
            r.dim() == self.dim(),
            forall|s: SpatialAxis| #[trigger]
                s.of_dim(self.dim()) ==> r.at(s.axis()) == self.at(s.axis()) - k,
    {
        assert(SpatialAxis::X.of_dim(self.dim()) ==> self.at(Axis::X) >= k);
        assert(SpatialAxis::Y.of_dim(self.dim()) ==> self.at(Axis::Y) >= k);
        assert(SpatialAxis::Z.of_dim(self.dim()) ==> self.at(Axis::Z) >= k);
        match self {
            GridIndex::One(z) => GridIndex::One(z - k),
            GridIndex::Two(x, y) => GridIndex::Two(x - k, y - k),
            GridIndex::Three(x, y, z) => GridIndex::Three(x - k, y - k, z - k),
        }
    }

    pub open spec fn plus_spec(self, rhs: GridIndex) -> GridIndex {
        match (self, rhs) {
            (GridIndex::One(z), GridIndex::One(c)) => GridIndex::One((z + c) as u32),
            (GridIndex::Two(x, y), GridIndex::Two(a, b)) => GridIndex::Two(
                (x + a) as u32,
                (y + b) as u32,
            ),
            (GridIndex::Three(x, y, z), GridIndex::Three(a, b, c)) => GridIndex::Three(
                (x + a) as u32,
                (y + b) as u32,
                (z + c) as u32,
            ),
            _ => self,
        }
    }

    pub open spec fn plus_fits(self, rhs: GridIndex) -> bool {
        let a = self.cell3();
        let b = rhs.cell3();
        a.x + b.x <= u32::MAX && a.y + b.y <= u32::MAX && a.z + b.z <= u32::MAX
    }

    /// The sum of each two components.
    pub fn plus(self, rhs: GridIndex) -> (r: GridIndex)
        requires
            self.dim() == rhs.dim(),
            self.plus_fits(rhs),
        ensures
            r == self.plus_spec(rhs),
            r.dim() == self.dim(),
    {
        match (self, rhs) {
            (GridIndex::One(z), GridIndex::One(c)) => GridIndex::One(z + c),
            (GridIndex::Two(x, y), GridIndex::Two(a, b)) => GridIndex::Two(x + a, y + b),
            (GridIndex::Three(x, y, z), GridIndex::Three(a, b, c)) => GridIndex::Three(
                x + a,
                y + b,
                z + c,
            ),
            _ => self,
        }
    }
}

/// `a / b` rounded up.
pub open spec fn ceil_div(a: u32, b: u32) -> u32 {
    ((a + b - 1) / b as int) as u32
}

fn div_ceil_u32(a: u32, b: u32) -> (r: u32)
    requires
        b != 0,
    ensures
        r == ceil_div(a, b),
        r * b >= a,
        r > 0 ==> (r - 1) * b < a,
{
    let q: u32 = a / b;
    proof {
        lemma_fundamental_div_mod(a as int, b as int);
        let m = a as int % b as int;
        if m == 0 {
            assert((a + b - 1) == b * (a as int / b as int) + (b - 1));
            lemma_fundamental_div_mod_converse(a + b - 1, b as int, a as int / b as int, b - 1);
        } else {
            assert((a + b - 1) == b * (a as int / b as int + 1) + (m - 1)) by (nonlinear_arith)
                requires
                    a == b * (a as int / b as int) + m,
            ;
            lemma_fundamental_div_mod_converse(a + b - 1, b as int, a as int / b as int + 1, m - 1);
            assert(a as int / b as int + 1 <= a) by (nonlinear_arith)
                requires
                    a == b * (a as int / b as int) + m,
                    m > 0,
                    b > 0,
                    m < b,
                    a as int / b as int >= 0,
            ;
        }
    }
    if a % b == 0 {
        assert(q * b == a && (q > 0 ==> (q - 1) * b < a)) by (nonlinear_arith)
            requires
                a == b * q + 0,
                b > 0,
        ;
        q
    } else {
        assert((q + 1) * b >= a && q * b < a) by (nonlinear_arith)
            requires
                a == b * q + a as int % b as int,
                0 < a as int % b as int,
                (a as int % b as int) < b,
        ;
        q + 1
    }
}

/// A cell of the grid is stored below the number of cells, and the products on the way to its
/// place are no larger.
pub proof fn lemma_flat3_bounds(c: UVec3, n: UVec3)
    requires
        c.below(n),
    ensures
        0 <= flat3(c, n) < n.product_spec(),
        c.z * n.x <= n.product_spec(),
        n.x * n.y <= n.product_spec(),
{
    let (x, y, z) = (n.x as int, n.y as int, n.z as int);
    let (cx, cy, cz) = (c.x as int, c.y as int, c.z as int);
    assert(0 <= cz * x * y + cy * x + cx < x * y * z) by (nonlinear_arith)
        requires
            0 <= cx < x,
            0 <= cy < y,
            0 <= cz < z,
    {
        assert(cz * x * y + x * y <= x * y * z) by (nonlinear_arith)
            requires
                0 <= cz < z,
                x > 0,
                y > 0,
        ;
        assert(cy * x + x <= x * y) by (nonlinear_arith)
            requires
                0 <= cy < y,
                x > 0,
        ;
        assert(0 <= cz * x * y) by (nonlinear_arith)
            requires
                0 <= cz,
                x > 0,
                y > 0,
        ;
        assert(0 <= cy * x) by (nonlinear_arith)
            requires
                0 <= cy,
                x > 0,
        ;
    }
    assert(cz * x <= x * y * z) by (nonlinear_arith)
        requires
            0 <= cz < z,
            x > 0,
            y > 0,
    ;
    assert(x * y <= x * y * z) by (nonlinear_arith)
        requires
            x > 0,
            y > 0,
            z > 0,
    ;
}

/// Different cells are stored in different places.
pub proof fn law_flat_idx_is_injective(a: UVec3, b: UVec3, n: UVec3)
    requires
        a.below(n),
        b.below(n),
        flat3(a, n) == flat3(b, n),
    ensures
        a == b,
{
    lemma_unflat3(a, n);
    lemma_unflat3(b, n);
}

/// What division recovers of the place of a cell.
pub proof fn lemma_unflat3(c: UVec3, n: UVec3)
    requires
        c.below(n),
    ensures
        flat3(c, n) % n.x as int == c.x,
        (flat3(c, n) / n.x as int) % n.y as int == c.y,
        flat3(c, n) / (n.x * n.y) == c.z,
{
    let (x, y) = (n.x as int, n.y as int);
    let (cx, cy, cz) = (c.x as int, c.y as int, c.z as int);
    let f = flat3(c, n);
    assert(f == x * (cz * y + cy) + cx) by (nonlinear_arith)
        requires
            f == cz * x * y + cy * x + cx,
    ;
    lemma_fundamental_div_mod_converse(f, x, cz * y + cy, cx);
    assert(cz * y + cy == y * cz + cy) by (nonlinear_arith);
    lemma_fundamental_div_mod_converse(cz * y + cy, y, cz, cy);
    assert(f == (x * y) * cz + (cy * x + cx)) by (nonlinear_arith)
        requires
            f == cz * x * y + cy * x + cx,
    ;
    assert(0 <= cy * x + cx < x * y) by (nonlinear_arith)
        requires
            0 <= cx < x,
            0 <= cy < y,
    ;
    lemma_fundamental_div_mod_converse(f, x * y, cz, cy * x + cx);
}

/// Looking up the cell that is stored in the place of a cell gives that cell back.
pub proof fn law_cell_to_flat_and_back(c: GridIndex, n: GridIndex)
    requires
        c.cell_of(n),
    ensures
        0 <= c.flat(n) < n.cell_count(),
        GridIndex::unflat(c.flat(n), n) == c,
{
    lemma_flat3_bounds(c.cell3(), n.cells3());
    lemma_unflat3(c.cell3(), n.cells3());
    match (c, n) {
        (GridIndex::One(z), GridIndex::One(_)) => {
            assert(z * 1 * 1 + 0 * 1 + 0 == z) by (nonlinear_arith);
        },
        (GridIndex::Two(x, y), GridIndex::Two(nx, ny)) => {
            let f = c.flat(n);
            assert(f == nx * y + x) by (nonlinear_arith)
                requires
                    f == 0 * nx * ny + y * nx + x,
            ;
            lemma_fundamental_div_mod_converse(f, nx as int, y as int, x as int);
        },
        _ => {},
    }
}

/// Every place below the number of cells belongs to a cell of the grid, and that cell is stored
/// there.
pub proof fn law_flat_to_cell_and_back(i: int, n: GridIndex)
    requires
        0 <= i < n.cell_count(),
    ensures
        GridIndex::unflat(i, n).cell_of(n),
        GridIndex::unflat(i, n).flat(n) == i,
{
    match n {
        GridIndex::One(nz) => {
            assert(1 * 1 * nz == nz) by (nonlinear_arith);
            assert(i * 1 * 1 + 0 * 1 + 0 == i) by (nonlinear_arith);
        },
        GridIndex::Two(nx, ny) => {
            let (x, y) = (nx as int, ny as int);
            assert(x * y * 1 == x * y) by (nonlinear_arith);
            assert(x > 0 && y > 0) by (nonlinear_arith)
                requires
                    0 < x * y,
                    x >= 0,
                    y >= 0,
            ;
            lemma_fundamental_div_mod(i, x);
            let q = i / x;
            let m = i % x;
            assert(0 <= q < y) by (nonlinear_arith)
                requires
                    i == x * q + m,
                    0 <= m < x,
                    0 <= i < x * y,
            ;
            assert(0 * x * y + q * x + m == i) by (nonlinear_arith)
                requires
                    i == x * q + m,
            ;
        },
        GridIndex::Three(nx, ny, nz) => {
            let (x, y, z) = (nx as int, ny as int, nz as int);
            assert(x > 0 && y > 0 && z > 0) by (nonlinear_arith)
                requires
                    0 < x * y * z,
                    x >= 0,
                    y >= 0,
                    z >= 0,
            ;
            assert(x * y > 0) by (nonlinear_arith)
                requires
                    x > 0,
                    y > 0,
            ;
            lemma_fundamental_div_mod(i, x);
            lemma_fundamental_div_mod(i / x, y);
            let q = i / x;
            let m = i % x;
            let q2 = q / y;
            let m2 = q % y;
            assert(0 <= q) by (nonlinear_arith)
                requires
                    i == x * q + m,
                    0 <= m < x,
                    0 <= i,
            ;
            assert(0 <= q2) by (nonlinear_arith)
                requires
                    q == y * q2 + m2,
                    0 <= m2 < y,
                    0 <= q,
            ;
            assert(i == (x * y) * q2 + (m2 * x + m)) by (nonlinear_arith)
                requires
                    i == x * q + m,
                    q == y * q2 + m2,
            ;
            assert(0 <= m2 * x + m < x * y) by (nonlinear_arith)
                requires
                    0 <= m < x,
                    0 <= m2 < y,
            ;
            lemma_fundamental_div_mod_converse(i, x * y, q2, m2 * x + m);
            assert(q2 < z) by (nonlinear_arith)
                requires
                    i == (x * y) * q2 + (m2 * x + m),
                    0 <= m2 * x + m,
                    i < x * y * z,
                    x * y > 0,
            ;
            assert(q2 * x * y + m2 * x + m == i) by (nonlinear_arith)
                requires
                    i == (x * y) * q2 + (m2 * x + m),
            ;
        },
    }
}

/// How far apart in storage two neighbours along `axis` are.
pub open spec fn stride(n: UVec3, axis: Axis) -> int {
    match axis {
        Axis::X => 1,
        Axis::Y => n.x as int,
        _ => n.x * n.y,
    }
}

/// The neighbour of a cell along an axis is stored a fixed distance behind it.
pub proof fn law_neighbour_is_one_stride_away(c: UVec3, n: UVec3, axis: Axis)
    requires
        axis.valid(),
        c.at(axis) < u32::MAX,
    ensures
        flat3(c.with_spec(axis, (c.at(axis) + 1) as u32), n) == flat3(c, n) + stride(n, axis),
{
    let (x, y) = (n.x as int, n.y as int);
    let (cy, cz) = (c.y as int, c.z as int);
    assert((cz + 1) * x * y == cz * x * y + x * y) by (nonlinear_arith);
    assert((cy + 1) * x == cy * x + x) by (nonlinear_arith);
}

} // verus!
