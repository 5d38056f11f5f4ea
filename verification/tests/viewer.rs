use taser_em::axis::{Dim, SpatialAxis};
use taser_em::color::{lerp_colors, Color, ColorMode, Palette};
use taser_em::error::Error;
use taser_em::fdtd_1d;
use taser_em::geometry::{Aabb, Cuboid};
use taser_em::index::GridIndex;
use taser_em::materials::{ElectricMaterial, MaterialRegions, YeeGridMaterials};
use taser_em::nonzero::NonZeroU32;
use taser_em::params::{
    DipoleType, GpuDipole, GpuTfsf, GridParameters, PmlCoefficients, PmlIntegrals,
    PolarizationModeIndex, SourceTerms, WaveDirection,
};
use taser_em::plane_waves::{create_plane_waves, GpuPlaneWave};
use taser_em::polarization::PolarizationMode;
use taser_em::readback::{FdtdSimulationMode, FdtdStateReadback, Reply};
use taser_em::scalar::{bit, Scalar};
use taser_em::simulation::{compute_flat_idx_incrs, create_dipoles};
use taser_em::source::Source;
use taser_em::state::FdtdLossyState;
use taser_em::tfsf_setup::TfsfDispatchData;
use taser_em::vect::{
    grid_index_as_vect, to_grid_index, vec3_to_vect, vec4_to_vect, vect_from_array, vect_to_3d, vect_to_array, Vect,
    VectorValueExt,
};
use taser_em::vector::{UVec3, Vec3, Vec4};
use taser_em::visual::{cell_positions, draw_bb, Frame, VisualizationMode};

/// Single precision numbers.
#[derive(Clone, Copy, Debug, PartialEq)]
struct F(f32);

impl Scalar for F {
    fn zero() -> Self {
        F(0.0)
    }
    fn one() -> Self {
        F(1.0)
    }
    fn half() -> Self {
        F(0.5)
    }
    fn largest_value() -> Self {
        F(f32::MAX)
    }
    fn epsilon() -> Self {
        F(f32::EPSILON)
    }
    fn frac_1_pi() -> Self {
        F(std::f32::consts::FRAC_1_PI)
    }
    fn of_nat(n: u32) -> Self {
        F(n as f32)
    }
    fn dup(&self) -> Self {
        *self
    }
    fn plus(&self, rhs: &Self) -> Self {
        F(self.0 + rhs.0)
    }
    fn minus(&self, rhs: &Self) -> Self {
        F(self.0 - rhs.0)
    }
    fn times(&self, rhs: &Self) -> Self {
        F(self.0 * rhs.0)
    }
    fn negated(&self) -> Self {
        F(-self.0)
    }
    fn over(&self, rhs: &Self) -> Self {
        F(self.0 / rhs.0)
    }
    fn recip(&self) -> Self {
        F(self.0.recip())
    }
    fn powi(&self, n: i32) -> Self {
        F(self.0.powi(n))
    }
    fn sqrt(&self) -> Self {
        F(self.0.sqrt())
    }
    fn e_powf(&self) -> Self {
        F(std::f32::consts::E.powf(self.0))
    }
    fn ceil(&self) -> Self {
        F(self.0.ceil())
    }
    fn clamp_unit(&self) -> Self {
        F(self.0.clamp(0.0, 1.0))
    }
    fn larger(&self, rhs: &Self) -> Self {
        F(self.0.max(rhs.0))
    }
    fn smaller(&self, rhs: &Self) -> Self {
        F(self.0.min(rhs.0))
    }
    fn finite_or_zero(&self) -> Self {
        F(if self.0.is_finite() { self.0 } else { 0.0 })
    }
    fn at_least(&self, rhs: &Self) -> bool {
        self.0 >= rhs.0
    }
    fn exceeds(&self, rhs: &Self) -> bool {
        self.0 > rhs.0
    }
    fn ranks_above(&self, rhs: &Self) -> bool {
        self.0.total_cmp(&rhs.0).is_gt()
    }
    fn is_sign_negative(&self) -> bool {
        self.0.is_sign_negative()
    }
    fn to_index(&self) -> u32 {
        self.0 as u32
    }
    fn to_count(&self) -> usize {
        self.0 as usize
    }

    // What the operations are, for the contracts of the library.
    fn zero_spec() -> Self {
        Self::zero()
    }
    fn one_spec() -> Self {
        Self::one()
    }
    fn half_spec() -> Self {
        Self::half()
    }
    fn largest_value_spec() -> Self {
        Self::largest_value()
    }
    fn epsilon_spec() -> Self {
        Self::epsilon()
    }
    fn frac_1_pi_spec() -> Self {
        Self::frac_1_pi()
    }
    fn of_nat_spec(n: u32) -> Self {
        Self::of_nat(n)
    }
    fn spec_add(self, rhs: Self) -> Self {
        self.plus(&rhs)
    }
    fn spec_sub(self, rhs: Self) -> Self {
        self.minus(&rhs)
    }
    fn spec_mul(self, rhs: Self) -> Self {
        self.times(&rhs)
    }
    fn over_spec(self, rhs: Self) -> Self {
        self.over(&rhs)
    }
    fn larger_spec(self, rhs: Self) -> Self {
        self.larger(&rhs)
    }
    fn smaller_spec(self, rhs: Self) -> Self {
        self.smaller(&rhs)
    }
    fn spec_neg(self) -> Self {
        self.negated()
    }
    fn recip_spec(self) -> Self {
        self.recip()
    }
    fn sqrt_spec(self) -> Self {
        self.sqrt()
    }
    fn e_powf_spec(self) -> Self {
        self.e_powf()
    }
    fn ceil_spec(self) -> Self {
        self.ceil()
    }
    fn clamp_unit_spec(self) -> Self {
        self.clamp_unit()
    }
    fn finite_or_zero_spec(self) -> Self {
        self.finite_or_zero()
    }
    fn powi_spec(self, n: i32) -> Self {
        self.powi(n)
    }
    fn at_least_spec(self, rhs: Self) -> bool {
        self.at_least(&rhs)
    }
    fn exceeds_spec(self, rhs: Self) -> bool {
        self.exceeds(&rhs)
    }
    fn ranks_above_spec(self, rhs: Self) -> bool {
        self.ranks_above(&rhs)
    }
    fn is_sign_negative_spec(self) -> bool {
        self.is_sign_negative()
    }
    fn to_index_spec(self) -> u32 {
        self.to_index()
    }
    fn to_count_spec(self) -> usize {
        self.to_count()
    }
}

fn v3(x: f32, y: f32, z: f32) -> Vec3<F> {
    Vec3 { x: F(x), y: F(y), z: F(z) }
}

fn v4(x: f32, y: f32, z: f32) -> Vec4<F> {
    Vec4 { x: F(x), y: F(y), z: F(z), w: F(0.0) }
}

fn rgba(r: f32, g: f32, b: f32, a: f32) -> Color<F> {
    Color { r: F(r), g: F(g), b: F(b), a: F(a) }
}

fn palette() -> Palette<F> {
    Palette {
        red: rgba(1.0, 0.0, 0.0, 0.75),
        blue: rgba(0.0, 0.0, 1.0, 1.0),
        transparent: rgba(0.0, 0.0, 0.0, 0.0),
    }
}

#[test]
fn vectors_widen_to_three_components() {
    let ones = v3(1.0, 1.0, 1.0);
    assert_eq!(vect_to_3d(&Vect::One(F(9.0)), &ones), v3(1.0, 1.0, 9.0));
    assert_eq!(vect_to_3d(&Vect::Two(F(4.0), F(5.0)), &ones), v3(4.0, 5.0, 1.0));
    assert_eq!(vect_to_3d(&Vect::Three(F(4.0), F(5.0), F(6.0)), &ones), v3(4.0, 5.0, 6.0));
    for v in [Vect::One(F(9.0)), Vect::Two(F(4.0), F(5.0)), Vect::Three(F(4.0), F(5.0), F(6.0))] {
        assert_eq!(vec3_to_vect(v.get_dim(), &v.to_3d(&ones)), v);
    }
    assert_eq!(vec4_to_vect(Dim::One, &v4(1.0, 2.0, 3.0)), Vect::One(F(3.0)));
    assert_eq!(vec4_to_vect(Dim::Two, &v4(1.0, 2.0, 3.0)), Vect::Two(F(1.0), F(2.0)));
}

#[test]
fn vectors_as_arrays_and_indices() {
    assert_eq!(vect_to_array(Vect::Two(F(4.0), F(5.0))), vec![F(4.0), F(5.0)]);
    assert_eq!(vect_from_array(Dim::One, &vec![F(4.0)]), Vect::One(F(4.0)));
    assert_eq!(to_grid_index(&Vect::Two(F(4.9), F(-5.0))), GridIndex::Two(4, 0));
    assert_eq!(GridIndex::Two(4, 7).as_vect::<F>(), Vect::Two(F(4.0), F(7.0)));
}

#[test]
fn vector_arithmetic() {
    let a = Vect::Two(F(3.0), F(4.0));
    let b = Vect::Two(F(1.0), F(2.0));
    assert_eq!(a.plus(&b), Vect::Two(F(4.0), F(6.0)));
    assert_eq!(a.minus(&b), Vect::Two(F(2.0), F(2.0)));
    assert_eq!(a.times(&b), Vect::Two(F(3.0), F(8.0)));
    assert_eq!(a.over(&b), Vect::Two(F(3.0), F(2.0)));
    assert_eq!(a.magnitude(), F(5.0));
    assert_eq!(a.scaled(&F(2.0)), Vect::Two(F(6.0), F(8.0)));
    assert_eq!(a.recip(), Vect::Two(F(1.0 / 3.0), F(0.25)));
    assert_eq!(a.largest_element(), F(4.0));
    assert_eq!(a.smallest_element(), F(3.0));
    assert_eq!(a.sum_elements(), F(7.0));
    assert_eq!(a.map_elements(|v: F| F(v.0 + 1.0)), Vect::Two(F(4.0), F(5.0)));
    assert_eq!(v4(2.0, 3.0, 6.0).length(), F(7.0));
    assert_eq!(bit::<F>(true), F(1.0));
    assert_eq!(bit::<F>(false), F(0.0));
}

#[test]
fn boxes_merge_and_grow() {
    let mut bb = Aabb::<F>::new_invalid();
    bb.merge(&Aabb { mins: v3(-1.0, 0.0, 2.0), maxs: v3(1.0, 4.0, 2.0) });
    bb.merge(&Aabb { mins: v3(0.0, -2.0, 0.0), maxs: v3(3.0, 1.0, 1.0) });
    assert_eq!(bb, Aabb { mins: v3(-1.0, -2.0, 0.0), maxs: v3(3.0, 4.0, 2.0) });
    assert_eq!(bb.center(), v3(1.0, 1.0, 1.0));
    assert_eq!(bb.extents(), v3(4.0, 6.0, 2.0));
    assert_eq!(
        bb.add_half_extents(&v3(1.0, 1.0, 1.0)),
        Aabb { mins: v3(-2.0, -3.0, -1.0), maxs: v3(4.0, 5.0, 3.0) }
    );
}

#[test]
fn filled_region_reaches_from_start_to_end() {
    let cuboid = Cuboid::span(&Vect::Two(F(1.0), F(2.0)), &Vect::Two(F(5.0), F(4.0)));
    assert_eq!(cuboid.middle, v3(3.0, 3.0, 0.0));
    assert_eq!(cuboid.half_extents, v3(2.0, 1.0, 4.0));
    let mut regions: MaterialRegions<F, Cuboid<F>> = MaterialRegions::new();
    regions.fill_region(
        &Vect::One(F(1.0)),
        &Vect::One(F(3.0)),
        ElectricMaterial::free_space(),
        |c| c,
    );
    let bb = regions.compute_bounding_box(|c: &Cuboid<F>| Aabb {
        mins: c.middle.minus(&c.half_extents),
        maxs: c.middle.plus(&c.half_extents),
    });
    assert_eq!((bb.mins.z, bb.maxs.z), (F(1.0), F(3.0)));
}

fn line_contains(g: &(f32, f32), offset: &Vec3<F>, p: &Vec3<F>) -> bool {
    let z = p.z.0 - offset.z.0;
    g.0 <= z && z <= g.1
}

#[test]
fn first_region_decides_the_material() {
    let mut regions: MaterialRegions<F, (f32, f32)> = MaterialRegions::new();
    let mat = |eps: f32| ElectricMaterial {
        eps_r: v3(eps, eps, eps),
        mu_r: v3(eps + 1.0, eps + 1.0, eps + 1.0),
        sig: v3(0.0, 0.0, 0.0),
    };
    let build = |c: Cuboid<F>| {
        (c.middle.z.0 - c.half_extents.z.0, c.middle.z.0 + c.half_extents.z.0)
    };
    regions.fill_region(&Vect::One(F(0.0)), &Vect::One(F(2.0)), mat(2.0), build);
    regions.fill_region(&Vect::One(F(0.0)), &Vect::One(F(4.0)), mat(4.0), build);
    let bb = Aabb { mins: v3(0.0, 0.0, 0.0), maxs: v3(0.0, 0.0, 4.0) };
    let size = Vect::One(F(1.0));
    let n = GridIndex::One(6);
    let grid = YeeGridMaterials::new_material_grid(
        n,
        &size,
        &bb,
        &regions,
        line_contains,
        &ElectricMaterial::free_space(),
    );
    // the middle of the box is moved to the middle of the grid
    assert_eq!(grid.sim_offset.z, F(1.0));
    let eps: Vec<f32> = grid.materials.iter().map(|m| m.eps_r.x.0).collect();
    assert_eq!(eps, vec![1.0, 2.0, 2.0, 2.0, 4.0, 4.0]);
    // half a cell further along the axis
    assert_eq!(grid.materials[3].eps_r.z, F(4.0));
    assert_eq!(grid.materials[3].mu_r.x, F(5.0));
}

#[test]
fn downscaling_averages_blocks() {
    let mat = |eps: f32| ElectricMaterial {
        eps_r: v3(eps, eps, eps),
        mu_r: v3(1.0, 1.0, 1.0),
        sig: v3(0.0, 0.0, 0.0),
    };
    let fine = YeeGridMaterials {
        n_cells: GridIndex::One(6),
        cell_size: Vect::One(F(0.5)),
        materials: [1.0, 3.0, 5.0, 5.0, 2.0, 4.0].into_iter().map(mat).collect(),
        default_mat: mat(1.0),
        sim_offset: v3(0.0, 0.0, 0.0),
    };
    let coarse = fine.downscaled(NonZeroU32::new(2).unwrap());
    assert_eq!(coarse.n_cells, GridIndex::One(3));
    assert_eq!(coarse.cell_size, Vect::One(F(1.0)));
    let eps: Vec<f32> = coarse.materials.iter().map(|m| m.eps_r.y.0).collect();
    assert_eq!(eps, vec![2.0, 5.0, 3.0]);
}

#[test]
fn offsets_of_the_components() {
    assert_eq!(
        YeeGridMaterials::<F>::dn_offsets(),
        [v3(1.0, 0.0, 0.0), v3(0.0, 1.0, 0.0), v3(0.0, 0.0, 1.0)]
    );
    assert_eq!(
        YeeGridMaterials::<F>::h_offsets(),
        [v3(0.0, 1.0, 1.0), v3(1.0, 0.0, 1.0), v3(1.0, 1.0, 0.0)]
    );
}

#[test]
fn dipoles_and_plane_waves_share_their_values() {
    let sources = vec![
        Source::PlaneWave {
            spatial_axis: SpatialAxis::Y,
            position: F(1.0),
            direction: WaveDirection::Negative,
            t_start: F(1.0),
            vals: vec![F(7.0), F(8.0)],
        },
        Source::Dipole {
            dipole_type: DipoleType::Magnetic,
            position: Vect::Two(F(1.0), F(0.5)),
            t_start: F(0.0),
            vals: vec![F(1.0), F(2.0), F(3.0)],
            moment: v3(0.0, 0.0, 1.0),
        },
    ];
    let (offset, size) = (Vect::Two(F(0.5), F(0.5)), Vect::Two(F(0.5), F(0.5)));
    let n = GridIndex::Two(10, 8);
    let (dipoles, mut vals) = create_dipoles(&sources, &offset, &size, n, &F(0.5));
    assert_eq!(dipoles.len(), 1);
    assert_eq!(dipoles[0].cell_idx, 2 * 10 + 3);
    assert_eq!((dipoles[0].vals_start, dipoles[0].vals_end), (0, 2));
    let waves = create_plane_waves(&sources, &offset, &size, n, &F(0.5), &mut vals);
    assert_eq!(
        waves,
        vec![GpuPlaneWave {
            spatial_axis: SpatialAxis::Y,
            direction: -1,
            position_idx: 3,
            vals_start: 3,
            vals_end: 4,
            t_start: 2,
        }]
    );
    assert_eq!(vals, vec![F(1.0), F(2.0), F(3.0), F(7.0), F(8.0)]);
}

#[test]
fn magnitudes_of_the_polarization_modes() {
    let e = v4(3.0, 4.0, 12.0);
    let (tm, te) = (PolarizationMode::TransverseMagnetic, PolarizationMode::TransverseElectric);
    assert_eq!(tm.get_e_magnitude(Dim::One, &e), F(4.0));
    assert_eq!(te.get_e_magnitude(Dim::One, &e), F(3.0));
    assert_eq!(te.get_e_magnitude(Dim::Two, &e), F(12.0));
    assert_eq!(tm.get_e_magnitude(Dim::Three, &e), F(13.0));
    assert_eq!(tm.extract_e_vector(Dim::One, &e), v3(0.0, 4.0, 0.0));
    assert_eq!(te.extract_e_vector(Dim::One, &e), v3(3.0, 0.0, 0.0));
    assert_eq!(tm.extract_e_vector(Dim::Two, &e), v3(3.0, 4.0, 0.0));
    assert_eq!(te.extract_e_vector(Dim::Two, &e), v3(0.0, 0.0, 12.0));
}

#[test]
fn colors_between_colors() {
    let (a, b) = (rgba(0.0, 1.0, 0.5, 0.0), rgba(1.0, 0.0, 0.5, 1.0));
    assert_eq!(lerp_colors(&F(0.0), &a, &b), a);
    assert_eq!(lerp_colors(&F(1.0), &a, &b), b);
    assert_eq!(lerp_colors(&F(0.25), &a, &b), rgba(0.25, 0.75, 0.5, 0.25));
}

#[test]
fn fixed_range_colors() {
    let mut mode = ColorMode::FixedRange {
        color_min: rgba(0.0, 0.0, 0.0, 1.0),
        color_max: rgba(1.0, 1.0, 1.0, 1.0),
        v_min: F(2.0),
        v_max: F(6.0),
    };
    mode.prepare(&vec![F(100.0)]);
    assert_eq!(mode.v_max(), F(6.0));
    assert_eq!(mode.compute_color(&F(3.0)).r, F(0.25));
    assert_eq!(mode.compute_color(&F(1.0)).r, F(0.0));
    assert_eq!(mode.compute_color(&F(9.0)).r, F(1.0));
}

#[test]
fn scaling_colors_follow_the_largest_magnitude() {
    let mut mode = ColorMode::default_for(Dim::Two, &palette());
    assert_eq!(mode.v_max(), F(f32::MIN));
    mode.prepare(&vec![]);
    assert_eq!(mode.v_max(), F(f32::MIN));
    mode.prepare(&vec![F(1.0), F(4.0), F(-9.0)]);
    assert_eq!(mode.v_max(), F(4.0));
    mode.prepare(&vec![F(2.0)]);
    assert_eq!(mode.v_max(), F(4.0));
    assert_eq!(mode.compute_color(&F(0.0)), palette().blue);
    assert_eq!(mode.compute_color(&F(4.0)), palette().red);
}

#[test]
fn default_colors_of_each_dimension() {
    for (dim, min, max) in [
        (Dim::One, palette().red, palette().red),
        (Dim::Two, palette().blue, palette().red),
        (Dim::Three, palette().transparent, rgba(1.0, 0.0, 0.0, 1.0)),
    ] {
        let mode = ColorMode::default_for(dim, &palette());
        match mode {
            ColorMode::AutoScale { color_min, color_max, v_max } => {
                assert_eq!((color_min, color_max, v_max), (min, max, F(f32::MIN)));
            },
            _ => panic!("a fixed range"),
        }
    }
}

#[test]
fn cells_lie_side_by_side() {
    assert_eq!(
        cell_positions(GridIndex::Two(2, 2), &Vect::Two(F(0.5), F(2.0))),
        vec![v3(0.0, 0.0, 0.0), v3(0.5, 0.0, 0.0), v3(0.0, 2.0, 0.0), v3(0.5, 2.0, 0.0)]
    );
    assert_eq!(
        cell_positions(GridIndex::One(2), &Vect::One(F(3.0))),
        vec![v3(0.0, 0.0, 0.0), v3(0.0, 0.0, 3.0)]
    );
}

#[test]
fn line_graph_of_a_field() {
    let mut mode: VisualizationMode<F, ()> =
        VisualizationMode::default_for(Dim::One, &palette(), (), F(0.2));
    mode.initialize(GridIndex::One(3), &Vect::One(F(10.0)));
    let field = vec![v4(0.0, 9.0, 0.0), v4(0.0, 2.0, 0.0), v4(0.0, -4.0, 0.0)];
    let frame = mode.visualize(&field, &PolarizationMode::TransverseMagnetic);
    let lines = match frame {
        Frame::Lines(lines) => lines,
        Frame::Colors(_) => panic!("colors"),
    };
    // a tenth of the grid stands for the largest magnitude, 9
    assert_eq!(lines.len(), 2);
    assert_eq!(lines[0].from, v3(0.0, 0.0, 0.0));
    assert_eq!(lines[0].to, v3(0.0, 2.0 / 9.0 * 3.0, 10.0));
    assert_eq!(lines[1].from, lines[0].to);
    assert_eq!(lines[1].to, v3(0.0, -4.0 / 9.0 * 3.0, 20.0));
    // smaller magnitudes do not shrink the graph
    let frame = mode.visualize(&vec![v4(0.0, 1.0, 0.0); 3], &PolarizationMode::TransverseMagnetic);
    match frame {
        Frame::Lines(lines) => assert_eq!(lines[0].to, v3(0.0, 1.0 / 9.0 * 3.0, 10.0)),
        Frame::Colors(_) => panic!("colors"),
    }
}

#[test]
fn quads_of_a_plane() {
    let mut mode: VisualizationMode<F, ()> =
        VisualizationMode::default_for(Dim::Two, &palette(), (), F(0.2));
    mode.initialize(GridIndex::Two(2, 1), &Vect::Two(F(1.0), F(3.0)));
    match &mode {
        VisualizationMode::Quads { instances, .. } => {
            assert_eq!(instances.len(), 2);
            assert_eq!(instances[0].position, v3(0.5, 1.5, 0.0));
            assert_eq!(instances[1].position, v3(1.5, 1.5, 0.0));
        },
        _ => panic!("no quads"),
    }
    let field = vec![v4(0.0, 0.0, 4.0), v4(0.0, 0.0, 1.0), v4(0.0, 0.0, 2.0)];
    match mode.visualize(&field, &PolarizationMode::TransverseElectric) {
        // as many colors as cells
        Frame::Colors(colors) => assert_eq!(
            colors,
            vec![palette().red, lerp_colors(&F(0.25), &palette().blue, &palette().red)]
        ),
        Frame::Lines(_) => panic!("lines"),
    }
}

#[test]
fn cubes_of_space() {
    let mode: VisualizationMode<F, &str> =
        VisualizationMode::default_for(Dim::Three, &palette(), "blend", F(0.2));
    let fixed = ColorMode::FixedRange {
        color_min: palette().transparent,
        color_max: palette().red,
        v_min: F(0.0),
        v_max: F(0.5),
    };
    let mut mode = mode.with_alpha("opaque", F(1.0)).with_color_mode(fixed);
    mode.initialize(GridIndex::Three(1, 1, 2), &Vect::Three(F(2.0), F(2.0), F(2.0)));
    match &mode {
        VisualizationMode::Cubes { instances, alpha_mode, alpha, color_mode } => {
            assert_eq!(instances[1].position, v3(1.0, 1.0, 3.0));
            assert_eq!((*alpha_mode, *alpha, color_mode.v_max()), ("opaque", F(1.0), F(0.5)));
        },
        _ => panic!("no cubes"),
    }
}

#[test]
fn box_has_twelve_edges() {
    let edges = draw_bb(&v3(0.0, 0.0, 0.0), &v3(1.0, 2.0, 3.0), &palette().red);
    assert_eq!(edges.len(), 12);
    let mut total = 0.0;
    for e in &edges {
        let d = e.to.minus(&e.from);
        let moved = [d.x.0.abs(), d.y.0.abs(), d.z.0.abs()];
        assert_eq!(moved.iter().filter(|x| **x > 0.0).count(), 1);
        total += moved.iter().sum::<f32>();
    }
    assert_eq!(total, 4.0 * (1.0 + 2.0 + 3.0));
    assert_eq!((edges[0].from, edges[0].to), (v3(0.0, 0.0, 0.0), v3(1.0, 0.0, 0.0)));
    assert_eq!((edges[11].from, edges[11].to), (v3(0.0, 2.0, 0.0), v3(0.0, 2.0, 3.0)));
}

fn state(n_cells: GridIndex) -> FdtdLossyState<F> {
    let count = n_cells.element_product() as usize;
    let n = n_cells.n_cells_to_3d();
    FdtdLossyState {
        grid_params: GridParameters {
            dim: n_cells.get_dim(),
            flat_idx_incrs: compute_flat_idx_incrs(n_cells),
            polarization_mode_index: PolarizationModeIndex::te(),
            n_cells3: n,
            dt: F(1.0),
            d: v3(1.0, 1.0, 1.0),
            inv_dt: F(1.0),
            inv_d: v3(1.0, 1.0, 1.0),
            cell_count: count as u32,
            problem_space_min: UVec3::splat(1),
            problem_space_max: UVec3::splat(1),
        },
        t_idx: 0,
        h: vec![Vec4::zero(); count],
        dn: vec![Vec4::zero(); count],
        en: vec![Vec4::zero(); count],
        dipoles: vec![GpuDipole::default()],
        plane_waves: vec![GpuPlaneWave::zero(n_cells.get_dim())],
        tfsf_dispatch_data: TfsfDispatchData {
            tfsf_sources: vec![GpuTfsf::default()],
            tfsf_masks: vec![],
            corrections: vec![],
            auxgr_coeffs: vec![],
            h: vec![],
            dn: vec![],
            en: vec![],
            aux_grid_thread_count: None,
            mask_init_thread_count: None,
        },
        source_vals: vec![F(0.0)],
        source_terms: vec![SourceTerms::default(); count],
        int_terms: vec![PmlIntegrals::default(); count],
        grid_coeffs: vec![PmlCoefficients::default(); count],
        thread_count: [n.x, n.y, n.z],
        n_cells,
    }
}

#[test]
fn requested_copies_are_read() {
    let mut r = FdtdStateReadback::new(&state(GridIndex::One(2)), Some(FdtdSimulationMode::EyHx));
    assert_eq!(r.get_dn_field(), &vec![Vec4::zero(); 2]);
    let data = vec![v4(1.0, 2.0, 3.0), v4(4.0, 5.0, 6.0)];
    // a reply that nobody asked for changes nothing
    assert!(!r.try_read_back_dn(Reply::Arrived(data.clone())));
    assert!(r.request_copy_dn());
    assert!(!r.request_copy_dn());
    assert!(!r.try_read_back_dn(Reply::Pending));
    assert_eq!(r.get_dn_field(), &vec![Vec4::zero(); 2]);
    assert!(r.try_read_back_dn(Reply::Arrived(data.clone())));
    assert_eq!(r.get_dn_field(), &data);
    assert_eq!(r.dn_magnitudes(), vec![F(2.0), F(5.0)]);
    assert!(r.request_copy_dn());
    assert!(r.try_read_back_dn(Reply::Lost));
    assert_eq!(r.get_dn_field(), &data);
    assert!(r.request_copy_h() && r.request_copy_en());
}

#[test]
fn fields_are_read_in_order() {
    let mut r = FdtdStateReadback::new(&state(GridIndex::One(1)), Some(FdtdSimulationMode::ExHy));
    assert_eq!(r.request_copy_fields(), (true, true, true));
    assert_eq!(r.request_copy_fields(), (false, false, false));
    let data = |x: f32| Reply::Arrived(vec![v4(x, 2.0 * x, 0.0)]);
    // D is not ready, so E is not looked at
    assert!(!r.try_read_back_fields(data(1.0), Reply::Pending, data(3.0)));
    assert_eq!(r.get_h_field()[0].x, F(1.0));
    assert_eq!(r.get_en_field()[0].x, F(0.0));
    assert_eq!(r.request_copy_fields(), (true, false, false));
    assert!(r.try_read_back_fields(data(4.0), data(5.0), data(6.0)));
    assert_eq!(r.h_magnitudes(), vec![F(8.0)]);
    assert_eq!(r.dn_magnitudes(), vec![F(5.0)]);
    assert_eq!(r.en_magnitudes(), vec![F(6.0)]);
}

#[test]
fn magnitudes_of_the_simulation_modes() {
    for (n, mode, h, e) in [
        (GridIndex::One(1), Some(FdtdSimulationMode::EyHx), 3.0, 4.0),
        (GridIndex::One(1), Some(FdtdSimulationMode::ExHy), 4.0, 3.0),
        (GridIndex::Two(1, 1), Some(FdtdSimulationMode::TransverseMagneticZ), 5.0, 12.0),
        (GridIndex::Two(1, 1), Some(FdtdSimulationMode::TransverseElectricZ), 12.0, 5.0),
        (GridIndex::Three(1, 1, 1), None, 13.0, 13.0),
    ] {
        let mut r = FdtdStateReadback::new(&state(n), mode);
        r.request_copy_fields();
        let data = || Reply::Arrived(vec![v4(3.0, 4.0, 12.0)]);
        assert!(r.try_read_back_fields(data(), data(), data()));
        assert_eq!(r.h_magnitudes(), vec![F(h)]);
        assert_eq!(r.dn_magnitudes(), vec![F(e)]);
        assert_eq!(r.en_magnitudes(), vec![F(e)]);
    }
}

#[test]
fn mesh_errors_differ() {
    let loader: Error<&str, u32> = Error::MeshLoader("missing");
    let conversion: Error<&str, u32> = Error::MeshConversion(3);
    assert_ne!(loader, conversion);
}

#[test]
fn signal_is_drawn_to_scale() {
    let dn = vec![v4(9.0, 1.0, 9.0), v4(9.0, -2.0, 9.0), v4(9.0, 4.0, 9.0)];
    let red = palette().red;
    let lines = fdtd_1d::visualize(&dn, &F(0.5), &red);
    assert_eq!(lines.len(), 2);
    assert_eq!(lines[0].from, v3(0.0, 0.5, 0.0));
    assert_eq!(lines[0].to, v3(0.0, -1.0, 0.5));
    assert_eq!(lines[1].from, lines[0].to);
    assert_eq!(lines[1].to, v3(0.0, 2.0, 1.0));
    assert_eq!(lines[1].color, red);
    assert!(fdtd_1d::visualize(&vec![v4(0.0, 1.0, 0.0)], &F(0.5), &red).is_empty());
}

#[test]
fn grid_indices_as_vectors() {
    assert_eq!(grid_index_as_vect::<F>(GridIndex::Two(3, 4)), Vect::Two(F(3.0), F(4.0)));
    assert_eq!(grid_index_as_vect::<F>(GridIndex::One(7)), Vect::One(F(7.0)));
}

#[test]
fn source_terms_are_injected_by_mode() {
    let term = v4(1.0, 2.0, 3.0);
    for dim in [Dim::One, Dim::Two, Dim::Three] {
        for mode in [PolarizationModeIndex::tm(), PolarizationModeIndex::te()] {
            let (mut h, mut dn) = (v4(10.0, 10.0, 10.0), v4(20.0, 20.0, 20.0));
            mode.inject_h_source(dim, &mut h, &term);
            mode.inject_dn_source(dim, &mut dn, &term);
            let all = dim != Dim::Three;
            let h_on = if all || mode.is_te() { 1.0 } else { 0.0 };
            let dn_on = if all || mode.is_tm() { 1.0 } else { 0.0 };
            assert_eq!(h, v4(10.0 + h_on, 10.0 + 2.0 * h_on, 10.0 + 3.0 * h_on));
            assert_eq!(dn, v4(20.0 + dn_on, 20.0 + 2.0 * dn_on, 20.0 + 3.0 * dn_on));
        }
    }
}
