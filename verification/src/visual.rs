//! What the viewer draws: where the cells are, and how the fields are shown there.
use crate::axis::{spatial, Axis, Dim};
use crate::color::{Color, ColorMode, Palette};
use crate::exact::{at, exact, lemma_swap_last, lemma_times_divisor, over, times};
use crate::index::GridIndex;
use crate::polarization::PolarizationMode;
use crate::scalar::Scalar;
use crate::vect::Vect;
use crate::vector::{Vec3, Vec4};
use vstd::prelude::*;

verus! {

/// A straight line.
#[derive(Copy, Clone, Debug)]
pub struct Segment<S> {
    pub from: Vec3<S>,
    pub to: Vec3<S>,
    pub color: Color<S>,
}

/// A cell as it is drawn.
#[derive(Copy, Clone, Debug)]
pub struct InstanceData<S> {
    pub color: Color<S>,
    pub position: Vec3<S>,
}

/// The mode in which vector fields are visualized.
///
/// `A` stands for the ways in which the renderer can treat transparency.
#[derive(Clone, Debug)]
#[non_exhaustive]
pub enum VisualizationMode<S, A> {
    /// A line graph of vector field magnitudes, for 1D simulations.
    LineGraph {
        color_mode: ColorMode<S>,
        graph_max_magnitude: S,
        data_point_magnitude: S,
        positions: Vec<Vec3<S>>,
    },
    /// A quad for every cell, for 2D simulations.
    Quads { instances: Vec<InstanceData<S>>, color_mode: ColorMode<S> },
    /// A cube for every cell, for 3D simulations.
    Cubes {
        instances: Vec<InstanceData<S>>,
        color_mode: ColorMode<S>,
        alpha_mode: A,
        alpha: S,
    },
}

/// What changes on the screen from frame to frame.
#[derive(Clone, Debug)]
pub enum Frame<S> {
    /// The lines of a graph.
    Lines(Vec<Segment<S>>),
    /// The colors of the first cells.
    Colors(Vec<Color<S>>),
}

/// Where the corner of a cell is.
pub open spec fn cell_position<S: Scalar>(cell: GridIndex, cell_size: Vect<S>) -> Vec3<S> {
    (cell.as_vect_spec::<S>() * cell_size).to_3d_spec(Vec3::splat_spec(S::zero_spec()))
}

/// Where the corners of the cells are, in the order in which the cells are stored.
pub fn cell_positions<S: Scalar>(n_cells: GridIndex, cell_size: &Vect<S>) -> (r: Vec<Vec3<S>>)
    requires
        n_cells.cells3().x * n_cells.cells3().y <= u32::MAX,
        n_cells.cell_count() <= u32::MAX,
        n_cells.dim() == cell_size.dim(),
    ensures
        r.len() == n_cells.cell_count(),
        forall|i: int|
            0 <= i < r.len() ==> #[trigger] r[i] == cell_position(
                GridIndex::unflat(i, n_cells),
                *cell_size,
            ),
{
    let count: u32 = n_cells.element_product();
    let zero: Vec3<S> = Vec3::splat(&S::zero());
    let mut r: Vec<Vec3<S>> = Vec::new();
    let mut i: u32 = 0;
    while i < count
        invariant
            i <= count == n_cells.cell_count(),
            n_cells.dim() == cell_size.dim(),
            zero == Vec3::<S>::splat_spec(S::zero_spec()),
            r.len() == i,
            forall|k: int|
                0 <= k < r.len() ==> #[trigger] r[k] == cell_position(
                    GridIndex::unflat(k, n_cells),
                    *cell_size,
                ),
        decreases count - i,
    {
        proof {
            lemma_no_empty_axis(n_cells);
        }
        let cell = GridIndex::from_flat_idx(i, n_cells);
        r.push(cell.as_vect::<S>().times(cell_size).to_3d(&zero));
        i = i + 1;
    }
    r
}

proof fn lemma_no_empty_axis(n: GridIndex)
    requires
        0 < n.cell_count() <= u32::MAX,
    ensures
        n matches GridIndex::Two(nx, _) ==> nx != 0,
        n matches GridIndex::Three(nx, ny, _) ==> nx != 0 && ny != 0 && nx * ny <= u32::MAX,
{
    match n {
        GridIndex::One(_) => {},
        GridIndex::Two(nx, ny) => {
            assert(nx != 0) by (nonlinear_arith)
                requires
                    0 < nx * ny * 1,
            ;
        },
        GridIndex::Three(nx, ny, nz) => {
            assert(nx != 0 && ny != 0 && nx * ny <= nx * ny * nz) by (nonlinear_arith)
                requires
                    0 < nx * ny * nz,
            ;
        },
    }
}

/// The magnitudes of the E field.
pub open spec fn magnitudes_of<S: Scalar>(
    dim: Dim,
    mode: PolarizationMode,
    v: Seq<Vec4<S>>,
) -> Seq<S> {
    Seq::new(v.len(), |i: int| mode.e_magnitude(dim, v[i]))
}

fn compute_magnitudes<S: Scalar>(dim: Dim, mode: &PolarizationMode, v: &Vec<Vec4<S>>) -> (r: Vec<S>)
    ensures
        r@ == magnitudes_of(dim, *mode, v@),
{
    let mut r: Vec<S> = Vec::new();
    let mut i: usize = 0;
    while i < v.len()
        invariant
            i <= v.len(),
            r.len() == i,
            forall|k: int| 0 <= k < r.len() ==> #[trigger] r[k] == mode.e_magnitude(dim, v[k]),
        decreases v.len() - i,
    {
        r.push(mode.get_e_magnitude(dim, &v[i]));
        i = i + 1;
    }
    r
}

/// Where the graph passes over a cell: away from the cell along the E field, by as much of `height`
/// as the field has of the largest magnitude.
pub open spec fn graph_point<S: Scalar>(
    position: Vec3<S>,
    mode: PolarizationMode,
    v: Vec4<S>,
    max_magnitude: S,
    height: S,
) -> Vec3<S> {
    position + mode.e_vector(Dim::One, v).divided_spec(max_magnitude).scaled_spec(height)
}

impl<S: Scalar, A> VisualizationMode<S, A> {
    /// The number of spatial axes that the mode is for.
    pub open spec fn dim(self) -> Dim {
        match self {
            VisualizationMode::LineGraph { .. } => Dim::One,
            VisualizationMode::Quads { .. } => Dim::Two,
            VisualizationMode::Cubes { .. } => Dim::Three,
        }
    }

    pub open spec fn color_mode(self) -> ColorMode<S> {
        match self {
            VisualizationMode::LineGraph { color_mode, .. } => color_mode,
            VisualizationMode::Quads { color_mode, .. } => color_mode,
            VisualizationMode::Cubes { color_mode, .. } => color_mode,
        }
    }

    /// Return a new [`Self`] with a new [`ColorMode`]
    pub fn with_color_mode(self, color_mode: ColorMode<S>) -> (r: Self)
        ensures
            r == match self {
                VisualizationMode::LineGraph {
                    graph_max_magnitude,
                    data_point_magnitude,
                    positions,
                    ..
                } => VisualizationMode::LineGraph {
                    color_mode,
                    graph_max_magnitude,
                    data_point_magnitude,
                    positions,
                },
                VisualizationMode::Quads { instances, .. } => VisualizationMode::Quads {
                    instances,
                    color_mode,
                },
                VisualizationMode::Cubes { instances, alpha_mode, alpha, .. }
                    => VisualizationMode::Cubes { instances, color_mode, alpha_mode, alpha },
            },
    {
        match self {
            VisualizationMode::LineGraph {
                graph_max_magnitude,
                data_point_magnitude,
                positions,
                ..
            } => VisualizationMode::LineGraph {
                color_mode,
                graph_max_magnitude,
                data_point_magnitude,
                positions,
            },
            VisualizationMode::Quads { instances, .. } => VisualizationMode::Quads {
                instances,
                color_mode,
            },
            VisualizationMode::Cubes { instances, alpha_mode, alpha, .. }
                => VisualizationMode::Cubes { instances, color_mode, alpha_mode, alpha },
        }
    }

    /// Set the alpha mode and alpha of the visual of a 3D simulation.
    ///
    /// `vis_alpha` edits the alpha applied to the entire visual.
    pub fn with_alpha(self, alpha_mode: A, vis_alpha: S) -> (r: Self)
        requires
            self.dim() == Dim::Three,
        ensures
            r == (VisualizationMode::Cubes {
                instances: self->Cubes_instances,
                color_mode: self.color_mode(),
                alpha_mode,
                alpha: vis_alpha,
            }),
    {
        match self {
            VisualizationMode::Cubes { instances, color_mode, .. } => VisualizationMode::Cubes {
                instances,
                color_mode,
                alpha_mode,
                alpha: vis_alpha,
            },
            other => other,
        }
    }

    /// The mode for a simulation where nothing else is chosen, with `blend` as the alpha mode and
    /// `alpha` as the alpha of the cubes.
    pub fn default_for(dim: Dim, palette: &Palette<S>, blend: A, alpha: S) -> (r: Self)
        ensures
            r.dim() == dim,
            r.color_mode() == ColorMode::default_spec(dim, *palette),
            r matches VisualizationMode::LineGraph {
                graph_max_magnitude,
                data_point_magnitude,
                positions,
                ..
            } ==> graph_max_magnitude == S::zero_spec() && data_point_magnitude == S::zero_spec()
                && positions@.len() == 0,
            r matches VisualizationMode::Quads { instances, .. } ==> instances@.len() == 0,
            r matches VisualizationMode::Cubes { instances, alpha_mode, alpha: a, .. }
                ==> instances@.len() == 0 && alpha_mode == blend && a == alpha,
    {
        let color_mode = ColorMode::default_for(dim, palette);
        match dim {
            Dim::One => VisualizationMode::LineGraph {
                color_mode,
                graph_max_magnitude: S::zero(),
                data_point_magnitude: S::zero(),
                positions: Vec::new(),
            },
            Dim::Two => VisualizationMode::Quads { instances: Vec::new(), color_mode },
            Dim::Three => VisualizationMode::Cubes {
                instances: Vec::new(),
                color_mode,
                alpha_mode: blend,
                alpha,
            },
        }
    }

    /// Lay the visual out over a grid.
    pub fn initialize(&mut self, n_cells: GridIndex, cell_size: &Vect<S>)
        requires
            n_cells.cells3().x * n_cells.cells3().y <= u32::MAX,
            n_cells.cell_count() <= u32::MAX,
            n_cells.dim() == old(self).dim(),
            cell_size.dim() == old(self).dim(),
        ensures
            final(self).dim() == old(self).dim(),
            final(self).color_mode() == old(self).color_mode(),
            *old(self) matches VisualizationMode::LineGraph { graph_max_magnitude: max, .. }
                ==> *final(self) matches VisualizationMode::LineGraph {
                graph_max_magnitude,
                data_point_magnitude,
                positions,
                ..
            } && graph_max_magnitude == max && positions@.len() == n_cells.cell_count() && (
            forall|i: int|
                0 <= i < positions@.len() ==> #[trigger] positions@[i] == cell_position(
                    GridIndex::unflat(i, n_cells),
                    *cell_size,
                )) && data_point_magnitude == tenth_of_grid(n_cells, *cell_size),
            *old(self) matches VisualizationMode::Quads { color_mode, .. }
                ==> *final(self) matches VisualizationMode::Quads { instances, .. } && lays_out(
                instances@,
                color_mode,
                n_cells,
                *cell_size,
            ),
            *old(self) matches VisualizationMode::Cubes {
                color_mode,
                alpha_mode: m,
                alpha: a,
                ..
            } ==> *final(self) matches VisualizationMode::Cubes {
                instances,
                alpha_mode,
                alpha,
                ..
            } && lays_out(instances@, color_mode, n_cells, *cell_size) && alpha_mode == m && alpha
                == a,
    {
        match self {
            VisualizationMode::LineGraph { positions, data_point_magnitude, .. } => {
                *positions = cell_positions(n_cells, cell_size);
                let grid_extents: Vect<S> = n_cells.as_vect::<S>().times(cell_size);
                if let Vect::One(z) = grid_extents {
                    *data_point_magnitude = z.over(&S::of_nat(10));
                }
            },
            VisualizationMode::Quads { instances, color_mode } => {
                *instances = initial_instances(color_mode, n_cells, cell_size);
            },
            VisualizationMode::Cubes { instances, color_mode, .. } => {
                *instances = initial_instances(color_mode, n_cells, cell_size);
            },
        }
    }

    /// Show the field `v_field` in the next frame.
    pub fn visualize(
        &mut self,
        v_field: &Vec<Vec4<S>>,
        polarization_mode: &PolarizationMode,
    ) -> (r: Frame<S>)
        requires
            *old(self) matches VisualizationMode::LineGraph { positions, .. } ==> positions@.len()
                > 0,
        ensures
            final(self).dim() == old(self).dim(),
            final(self).color_mode() == old(self).color_mode().prepared(
                magnitudes_of(old(self).dim(), *polarization_mode, v_field@),
            ),
            *old(self) matches VisualizationMode::LineGraph {
                graph_max_magnitude: seen,
                data_point_magnitude: height,
                positions: at,
                ..
            } ==> *final(self) matches VisualizationMode::LineGraph {
                color_mode,
                graph_max_magnitude,
                data_point_magnitude,
                positions,
            } && positions@ == at@ && data_point_magnitude == height && graph_max_magnitude
                == seen.larger_spec(color_mode.v_max_spec()) && r is Lines
                && r->Lines_0@ == graph_lines(
                at@,
                v_field@,
                *polarization_mode,
                color_mode,
                graph_max_magnitude,
                height,
            ),
            *old(self) matches VisualizationMode::Quads { instances: cells, .. }
                ==> *final(self) matches VisualizationMode::Quads { instances, .. } && instances@
                == cells@ && r is Colors && r->Colors_0@ == cell_colors(
                magnitudes_of(Dim::Two, *polarization_mode, v_field@),
                final(self).color_mode(),
                cells@.len(),
            ),
            *old(self) matches VisualizationMode::Cubes {
                instances: cells,
                alpha_mode: m,
                alpha: a,
                ..
            } ==> *final(self) matches VisualizationMode::Cubes {
                instances,
                alpha_mode,
                alpha,
                ..
            } && instances@ == cells@ && alpha_mode == m && alpha == a && r is Colors && r->Colors_0@
                == cell_colors(
                magnitudes_of(Dim::Three, *polarization_mode, v_field@),
                final(self).color_mode(),
                cells@.len(),
            ),
    {
        match self {
            VisualizationMode::LineGraph {
                color_mode,
                graph_max_magnitude,
                data_point_magnitude,
                positions,
            } => {
                let magnitudes: Vec<S> = compute_magnitudes(Dim::One, polarization_mode, v_field);
                color_mode.prepare(&magnitudes);
                *graph_max_magnitude = graph_max_magnitude.larger(&color_mode.v_max());
                Frame::Lines(
                    compute_graph_lines(
                        positions,
                        v_field,
                        polarization_mode,
                        color_mode,
                        graph_max_magnitude,
                        data_point_magnitude,
                    ),
                )
            },
            VisualizationMode::Quads { instances, color_mode } => {
                let magnitudes: Vec<S> = compute_magnitudes(Dim::Two, polarization_mode, v_field);
                color_mode.prepare(&magnitudes);
                Frame::Colors(compute_cell_colors(&magnitudes, color_mode, instances.len()))
            },
            VisualizationMode::Cubes { instances, color_mode, .. } => {
                let magnitudes: Vec<S> = compute_magnitudes(Dim::Three, polarization_mode, v_field);
                color_mode.prepare(&magnitudes);
                Frame::Colors(compute_cell_colors(&magnitudes, color_mode, instances.len()))
            },
        }
    }
}

/// The smaller of two lengths.
pub open spec fn shorter(a: nat, b: nat) -> nat {
    if a <= b {
        a
    } else {
        b
    }
}

/// The lines of the graph of the E field `v`: from the first cell to the point over the second one,
/// and on to the points over the others.
pub open spec fn graph_lines<S: Scalar>(
    positions: Seq<Vec3<S>>,
    v: Seq<Vec4<S>>,
    polarization: PolarizationMode,
    color_mode: ColorMode<S>,
    max_magnitude: S,
    height: S,
) -> Seq<Segment<S>> {
    let count = shorter(positions.len(), v.len());
    let point = |i: int|
        graph_point(positions[i], polarization, v[i], max_magnitude, height);
    Seq::new(
        if count == 0 {
            0
        } else {
            (count - 1) as nat
        },
        |i: int|
            Segment {
                from: if i == 0 {
                    positions[0]
                } else {
                    point(i)
                },
                to: point(i + 1),
                color: color_mode.color_of(polarization.e_magnitude(Dim::One, v[i + 1])),
            },
    )
}

fn compute_graph_lines<S: Scalar>(
    positions: &Vec<Vec3<S>>,
    v: &Vec<Vec4<S>>,
    polarization: &PolarizationMode,
    color_mode: &ColorMode<S>,
    max_magnitude: &S,
    height: &S,
) -> (r: Vec<Segment<S>>)
    requires
        positions.len() > 0,
    ensures
        r@ == graph_lines(
            positions@,
            v@,
            *polarization,
            *color_mode,
            *max_magnitude,
            *height,
        ),
{
    let count: usize = if positions.len() <= v.len() {
        positions.len()
    } else {
        v.len()
    };
    let ghost lines = graph_lines(
        positions@,
        v@,
        *polarization,
        *color_mode,
        *max_magnitude,
        *height,
    );
    let mut r: Vec<Segment<S>> = Vec::new();
    let mut prev_pos: Vec3<S> = positions[0].dup();
    let mut i: usize = 1;
    while i < count
        invariant
            1 <= i,
            i == 1 || i <= count,
            count == shorter(positions@.len(), v@.len()),
            r.len() == i - 1,
            lines == graph_lines(
                positions@,
                v@,
                *polarization,
                *color_mode,
                *max_magnitude,
                *height,
            ),
            prev_pos == if i == 1 {
                positions[0]
            } else {
                graph_point(
                    positions[i - 1],
                    *polarization,
                    v[i - 1],
                    *max_magnitude,
                    *height,
                )
            },
            forall|k: int| 0 <= k < r.len() ==> #[trigger] r[k] == lines[k],
        decreases count - i,
    {
        let vector: Vec3<S> = polarization.extract_e_vector(Dim::One, &v[i]);
        let pos: Vec3<S> = positions[i].plus(&vector.divided(max_magnitude).scaled(height));
        let magnitude: S = polarization.get_e_magnitude(Dim::One, &v[i]);
        r.push(
            Segment {
                from: prev_pos,
                to: pos.dup(),
                color: color_mode.compute_color(&magnitude),
            },
        );
        prev_pos = pos;
        i = i + 1;
    }
    assert(r@ =~= lines);
    r
}

/// The colors of the first `count` cells, or of as many as there are magnitudes.
pub open spec fn cell_colors<S: Scalar>(
    magnitudes: Seq<S>,
    color_mode: ColorMode<S>,
    count: nat,
) -> Seq<Color<S>> {
    Seq::new(shorter(magnitudes.len(), count), |i: int| color_mode.color_of(magnitudes[i]))
}

fn compute_cell_colors<S: Scalar>(
    magnitudes: &Vec<S>,
    color_mode: &ColorMode<S>,
    count: usize,
) -> (r: Vec<Color<S>>)
    ensures
        r@ == cell_colors(magnitudes@, *color_mode, count as nat),
{
    let mut r: Vec<Color<S>> = Vec::new();
    let mut i: usize = 0;
    while i < magnitudes.len() && i < count
        invariant
            i <= shorter(magnitudes@.len(), count as nat),
            r.len() == i,
            forall|k: int|
                0 <= k < r.len() ==> #[trigger] r[k] == color_mode.color_of(magnitudes[k]),
        decreases magnitudes.len() - i,
    {
        r.push(color_mode.compute_color(&magnitudes[i]));
        i = i + 1;
    }
    r
}

/// A tenth of the length of a 1D grid.
pub open spec fn tenth_of_grid<S: Scalar>(n_cells: GridIndex, cell_size: Vect<S>) -> S {
    (n_cells.as_vect_spec::<S>() * cell_size)->One_0.over_spec(S::of_nat_spec(10))
}

/// Where a cell is drawn: around its middle.
pub open spec fn instance_position<S: Scalar>(cell: GridIndex, cell_size: Vect<S>) -> Vec3<S> {
    let zero = Vec3::splat_spec(S::zero_spec());
    cell_position(cell, cell_size) + cell_size.divided_spec(S::of_nat_spec(2)).to_3d_spec(zero)
}

/// There is an instance for every cell, in the color of the smallest magnitude.
pub open spec fn lays_out<S: Scalar>(
    instances: Seq<InstanceData<S>>,
    color_mode: ColorMode<S>,
    n_cells: GridIndex,
    cell_size: Vect<S>,
) -> bool {
    &&& instances.len() == n_cells.cell_count()
    &&& forall|i: int|
        0 <= i < instances.len() ==> #[trigger] instances[i] == (InstanceData {
            color: color_mode.color_of(-S::largest_value_spec()),
            position: instance_position(GridIndex::unflat(i, n_cells), cell_size),
        })
}

fn initial_instances<S: Scalar>(
    color_mode: &mut ColorMode<S>,
    n_cells: GridIndex,
    cell_size: &Vect<S>,
) -> (r: Vec<InstanceData<S>>)
    requires
        n_cells.cells3().x * n_cells.cells3().y <= u32::MAX,
        n_cells.cell_count() <= u32::MAX,
        n_cells.dim() == cell_size.dim(),
    ensures
        *final(color_mode) == *old(color_mode),
        lays_out(r@, *old(color_mode), n_cells, *cell_size),
{
    let zero: Vec3<S> = Vec3::splat(&S::zero());
    let positions: Vec<Vec3<S>> = cell_positions(n_cells, cell_size);
    let half: Vec3<S> = cell_size.divided(&S::of_nat(2)).to_3d(&zero);
    color_mode.prepare(&Vec::new());
    let color = color_mode.compute_color(&S::largest_value().negated());
    let mut r: Vec<InstanceData<S>> = Vec::new();
    let mut i: usize = 0;
    while i < positions.len()
        invariant
            i <= positions.len(),
            positions.len() == n_cells.cell_count(),
            r.len() == i,
            forall|k: int|
                0 <= k < positions.len() ==> #[trigger] positions[k] == cell_position(
                    GridIndex::unflat(k, n_cells),
                    *cell_size,
                ),
            half == cell_size.divided_spec(S::of_nat_spec(2)).to_3d_spec(
                Vec3::splat_spec(S::zero_spec()),
            ),
            forall|k: int|
                0 <= k < r.len() ==> #[trigger] r[k] == (InstanceData {
                    color,
                    position: instance_position(GridIndex::unflat(k, n_cells), *cell_size),
                }),
        decreases positions.len() - i,
    {
        r.push(InstanceData { color: color.dup(), position: positions[i].plus(&half) });
        i = i + 1;
    }
    r
}

/// The corners of a box: around its lower side, then around its upper side.
pub open spec fn box_corners<S>(start: Vec3<S>, end: Vec3<S>) -> Seq<Vec3<S>> {
    seq![
        start,
        Vec3 { x: end.x, ..start },
        Vec3 { z: start.z, ..end },
        Vec3 { y: end.y, ..start },
        Vec3 { z: end.z, ..start },
        Vec3 { y: start.y, ..end },
        end,
        Vec3 { x: start.x, ..end },
    ]
}

/// Which corners the edges of a box join: around its lower side, around its upper side, and from
/// side to side.
pub open spec fn box_edges() -> Seq<(int, int)> {
    seq![
        (0, 1),
        (1, 2),
        (2, 3),
        (3, 0),
        (4, 5),
        (5, 6),
        (6, 7),
        (7, 4),
        (0, 4),
        (1, 5),
        (2, 6),
        (3, 7),
    ]
}

/// The edges of the box from `start` to `end`.
pub fn draw_bb<S: Scalar>(start: &Vec3<S>, end: &Vec3<S>, color: &Color<S>) -> (r: Vec<Segment<S>>)
    ensures
        r.len() == box_edges().len(),
        forall|i: int|
            0 <= i < r.len() ==> #[trigger] r[i] == (Segment {
                from: box_corners(*start, *end)[box_edges()[i].0],
                to: box_corners(*start, *end)[box_edges()[i].1],
                color: *color,
            }),
{
    let edge = |from: Vec3<S>, to: Vec3<S>| -> (s: Segment<S>)
        ensures
            s == (Segment { from, to, color: *color }),
        { Segment { from, to, color: color.dup() } };
    let corner = |x: &S, y: &S, z: &S| -> (c: Vec3<S>)
        ensures
            c == (Vec3 { x: *x, y: *y, z: *z }),
        { Vec3 { x: x.dup(), y: y.dup(), z: z.dup() } };
    let v0 = start.dup();
    let v1 = corner(&end.x, &start.y, &start.z);
    let v2 = corner(&end.x, &end.y, &start.z);
    let v3 = corner(&start.x, &end.y, &start.z);
    let v4 = corner(&start.x, &start.y, &end.z);
    let v5 = corner(&end.x, &start.y, &end.z);
    let v6 = end.dup();
    let v7 = corner(&start.x, &end.y, &end.z);
    let mut r: Vec<Segment<S>> = Vec::new();
    r.push(edge(v0.dup(), v1.dup()));
    r.push(edge(v1.dup(), v2.dup()));
    r.push(edge(v2.dup(), v3.dup()));
    r.push(edge(v3.dup(), v0.dup()));
    r.push(edge(v4.dup(), v5.dup()));
    r.push(edge(v5.dup(), v6.dup()));
    r.push(edge(v6.dup(), v7.dup()));
    r.push(edge(v7.dup(), v4.dup()));
    r.push(edge(v0, v4));
    r.push(edge(v1, v5));
    r.push(edge(v2, v6));
    r.push(edge(v3, v7));
    r
}

/// Every edge of a box runs along one axis: its two ends have two of three components in common.
pub proof fn law_edges_run_along_an_axis<S>(start: Vec3<S>, end: Vec3<S>, i: int)
    requires
        0 <= i < box_edges().len(),
    ensures
        ({
            let a = box_corners(start, end)[box_edges()[i].0];
            let b = box_corners(start, end)[box_edges()[i].1];
            ||| a.x == b.x && a.y == b.y
            ||| a.y == b.y && a.z == b.z
            ||| a.z == b.z && a.x == b.x
        }),
{
}

/// A corner of the box from `start` to `end`: at its end along the axes that `far` names.
pub open spec fn corner_of<S>(start: Vec3<S>, end: Vec3<S>, far: (bool, bool, bool)) -> Vec3<S> {
    Vec3 {
        x: if far.0 {
            end.x
        } else {
            start.x
        },
        y: if far.1 {
            end.y
        } else {
            start.y
        },
        z: if far.2 {
            end.z
        } else {
            start.z
        },
    }
}

/// The edge `i` of a box joins the corners `a` and `b`.
pub open spec fn joins<S>(start: Vec3<S>, end: Vec3<S>, i: int, a: Vec3<S>, b: Vec3<S>) -> bool {
    let from = box_corners(start, end)[box_edges()[i].0];
    let to = box_corners(start, end)[box_edges()[i].1];
    from == a && to == b || from == b && to == a
}

/// The edges of a box are all of its edges: any two corners that differ along one axis are joined by
/// one.
pub proof fn law_all_neighbouring_corners_are_joined<S>(
    start: Vec3<S>,
    end: Vec3<S>,
    far: (bool, bool, bool),
) -> (r: (int, int, int))
    ensures
        0 <= r.0 < box_edges().len(),
        0 <= r.1 < box_edges().len(),
        0 <= r.2 < box_edges().len(),
        joins(
            start,
            end,
            r.0,
            corner_of(start, end, (false, far.1, far.2)),
            corner_of(start, end, (true, far.1, far.2)),
        ),
        joins(
            start,
            end,
            r.1,
            corner_of(start, end, (far.0, false, far.2)),
            corner_of(start, end, (far.0, true, far.2)),
        ),
        joins(
            start,
            end,
            r.2,
            corner_of(start, end, (far.0, far.1, false)),
            corner_of(start, end, (far.0, far.1, true)),
        ),
{
    let along_x = match (far.1, far.2) {
        (false, false) => 0int,
        (true, false) => 2,
        (false, true) => 4,
        (true, true) => 6,
    };
    let along_y = match (far.0, far.2) {
        (false, false) => 3int,
        (true, false) => 1,
        (false, true) => 7,
        (true, true) => 5,
    };
    let along_z = match (far.0, far.1) {
        (false, false) => 8int,
        (true, false) => 9,
        (true, true) => 10,
        (false, true) => 11,
    };
    (along_x, along_y, along_z)
}

/// The lines of a graph are joined and start at the first cell.
pub proof fn law_graph_lines_are_joined<S: Scalar>(
    positions: Seq<Vec3<S>>,
    v: Seq<Vec4<S>>,
    polarization: PolarizationMode,
    color_mode: ColorMode<S>,
    max_magnitude: S,
    height: S,
    i: int,
)
    requires
        0 <= i,
        i + 1 < graph_lines(positions, v, polarization, color_mode, max_magnitude, height).len(),
    ensures
        ({
            let lines = graph_lines(
                positions,
                v,
                polarization,
                color_mode,
                max_magnitude,
                height,
            );
            &&& lines[0].from == positions[0]
            &&& lines[i].to == lines[i + 1].from
        }),
{
}

/// The graph passes over a cell as far away from it, along the E field, as the field's share of the
/// largest magnitude has it: the distance is to the height as the field is to that magnitude.
pub proof fn law_graph_is_drawn_to_scale<S: Scalar>(
    read: spec_fn(S) -> real,
    position: Vec3<S>,
    mode: PolarizationMode,
    v: Vec4<S>,
    max_magnitude: S,
    height: S,
    axis: Axis,
)
    requires
        exact(read),
        axis.valid(),
        at(read, max_magnitude) != 0 as real,
    ensures
        ({
            let away = at(
                read,
                graph_point(position, mode, v, max_magnitude, height).at(axis),
            ) - at(read, position.at(axis));
            let field = if mode.e_axes(Dim::One)[0] == axis {
                at(read, v.at(axis))
            } else {
                0 as real
            };
            times(away, at(read, max_magnitude)) == times(field, at(read, height))
        }),
{
    let field = at(read, mode.e_vector(Dim::One, v).at(axis));
    let m = at(read, max_magnitude);
    lemma_times_divisor(field, m);
    lemma_swap_last(over(field, m), at(read, height), m);
}

/// Cells are drawn around their middles: half a cell from their corners, which are a cell apart.
pub proof fn law_cells_are_drawn_around_their_middles<S: Scalar>(
    read: spec_fn(S) -> real,
    cell: GridIndex,
    cell_size: Vect<S>,
    axis: Axis,
)
    requires
        exact(read),
        axis.valid(),
        cell.dim() == cell_size.dim(),
    ensures
        ({
            let none = Vec3::splat_spec(S::zero_spec());
            let size = at(read, cell_size.to_3d_spec(none).at(axis));
            let corner = at(read, cell_position(cell, cell_size).at(axis));
            let middle = at(read, instance_position(cell, cell_size).at(axis));
            if spatial(cell.dim(), axis) {
                corner == times(cell.at(axis) as real, size) && middle - corner == over(
                    size,
                    2 as real,
                )
            } else {
                corner == 0 as real && middle == 0 as real
            }
        }),
{
}

/// A graph is by default a tenth as high as the grid is long.
pub proof fn law_ten_heights_are_the_length_of_the_grid<S: Scalar>(
    read: spec_fn(S) -> real,
    n_cells: GridIndex,
    cell_size: Vect<S>,
)
    requires
        exact(read),
        n_cells is One,
        cell_size is One,
    ensures
        times(at(read, tenth_of_grid(n_cells, cell_size)), 10 as real) == times(
            n_cells->One_0 as real,
            at(read, cell_size->One_0),
        ),
{
    lemma_times_divisor(
        times(n_cells->One_0 as real, at(read, cell_size->One_0)),
        10 as real,
    );
}

} // verus!
