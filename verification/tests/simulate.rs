use taser_em::axis::{Axis, Dim, SpatialAxis};
use taser_em::boundary_condition::PECBoundary;
use taser_em::geometry::{Aabb, Cuboid};
use taser_em::index::GridIndex;
use taser_em::launch::{run_pass, Pass};
use taser_em::layers::{LayerWidths, LoHiWidths};
use taser_em::materials::ElectricMaterial;
use taser_em::nonzero::{NonZeroI32, NonZeroU32};
use taser_em::params::{DipoleType, GridParameters, WaveDirection};
use taser_em::pipeline::FdtdLossyPipeline;
use taser_em::pml::{FreeSpace, PmlParameters};
use taser_em::polarization::PolarizationMode;
use taser_em::scalar::Scalar;
use taser_em::simulation::{FdtdLossySimulation, FdtdParameters, MaterialDiscretization};
use taser_em::source::Source;
use taser_em::stability::FdtdStability;
use taser_em::state::FdtdLossyState;
use taser_em::vect::Vect;
use taser_em::vector::{UVec3, Vec3, Vec4};

/// Single precision numbers.
#[derive(Clone, Copy, Debug, PartialEq)]
struct F(f32);

impl Scalar for F {
    fn zero() -> Self {
        F(0.0)
    }
    fn one() -> Self {
        F(1.0)
    }
    fn half() -> Self {
        F(0.5)
    }
    fn largest_value() -> Self {
        F(f32::MAX)
    }
    fn epsilon() -> Self {
        F(f32::EPSILON)
    }
    fn frac_1_pi() -> Self {
        F(std::f32::consts::FRAC_1_PI)
    }
    fn of_nat(n: u32) -> Self {
        F(n as f32)
    }
    fn dup(&self) -> Self {
        *self
    }
    fn plus(&self, rhs: &Self) -> Self {
        F(self.0 + rhs.0)
    }
    fn minus(&self, rhs: &Self) -> Self {
        F(self.0 - rhs.0)
    }
    fn times(&self, rhs: &Self) -> Self {
        F(self.0 * rhs.0)
    }
    fn negated(&self) -> Self {
        F(-self.0)
    }
    fn over(&self, rhs: &Self) -> Self {
        F(self.0 / rhs.0)
    }
    fn recip(&self) -> Self {
        F(self.0.recip())
    }
    fn powi(&self, n: i32) -> Self {
        F(self.0.powi(n))
    }
    fn sqrt(&self) -> Self {
        F(self.0.sqrt())
    }
    fn e_powf(&self) -> Self {
        F(std::f32::consts::E.powf(self.0))
    }
    fn ceil(&self) -> Self {
        F(self.0.ceil())
    }
    fn clamp_unit(&self) -> Self {
        F(self.0.clamp(0.0, 1.0))
    }
    fn larger(&self, rhs: &Self) -> Self {
        F(self.0.max(rhs.0))
    }
    fn smaller(&self, rhs: &Self) -> Self {
        F(self.0.min(rhs.0))
    }
    fn finite_or_zero(&self) -> Self {
        F(if self.0.is_finite() { self.0 } else { 0.0 })
    }
    fn at_least(&self, rhs: &Self) -> bool {
        self.0 >= rhs.0
    }
    fn exceeds(&self, rhs: &Self) -> bool {
        self.0 > rhs.0
    }
    fn ranks_above(&self, rhs: &Self) -> bool {
        self.0.total_cmp(&rhs.0).is_gt()
    }
    fn is_sign_negative(&self) -> bool {
        self.0.is_sign_negative()
    }
    fn to_index(&self) -> u32 {
        self.0 as u32
    }
    fn to_count(&self) -> usize {
        self.0 as usize
    }

    // What the operations are, for the contracts of the library.
    fn zero_spec() -> Self {
        Self::zero()
    }
    fn one_spec() -> Self {
        Self::one()
    }
    fn half_spec() -> Self {
        Self::half()
    }
    fn largest_value_spec() -> Self {
        Self::largest_value()
    }
    fn epsilon_spec() -> Self {
        Self::epsilon()
    }
    fn frac_1_pi_spec() -> Self {
        Self::frac_1_pi()
    }
    fn of_nat_spec(n: u32) -> Self {
        Self::of_nat(n)
    }
    fn spec_add(self, rhs: Self) -> Self {
        self.plus(&rhs)
    }
    fn spec_sub(self, rhs: Self) -> Self {
        self.minus(&rhs)
    }
    fn spec_mul(self, rhs: Self) -> Self {
        self.times(&rhs)
    }
    fn over_spec(self, rhs: Self) -> Self {
        self.over(&rhs)
    }
    fn larger_spec(self, rhs: Self) -> Self {
        self.larger(&rhs)
    }
    fn smaller_spec(self, rhs: Self) -> Self {
        self.smaller(&rhs)
    }
    fn spec_neg(self) -> Self {
        self.negated()
    }
    fn recip_spec(self) -> Self {
        self.recip()
    }
    fn sqrt_spec(self) -> Self {
        self.sqrt()
    }
    fn e_powf_spec(self) -> Self {
        self.e_powf()
    }
    fn ceil_spec(self) -> Self {
        self.ceil()
    }
    fn clamp_unit_spec(self) -> Self {
        self.clamp_unit()
    }
    fn finite_or_zero_spec(self) -> Self {
        self.finite_or_zero()
    }
    fn powi_spec(self, n: i32) -> Self {
        self.powi(n)
    }
    fn at_least_spec(self, rhs: Self) -> bool {
        self.at_least(&rhs)
    }
    fn exceeds_spec(self, rhs: Self) -> bool {
        self.exceeds(&rhs)
    }
    fn ranks_above_spec(self, rhs: Self) -> bool {
        self.ranks_above(&rhs)
    }
    fn is_sign_negative_spec(self) -> bool {
        self.is_sign_negative()
    }
    fn to_index_spec(self) -> u32 {
        self.to_index()
    }
    fn to_count_spec(self) -> usize {
        self.to_count()
    }
}

type Box3 = Cuboid<F>;

const SPACE: FreeSpace<F> = FreeSpace {
    c_0: F(299792458.0),
    eps_0: F(8.854188e-12),
    mu_0: F(1.256637e-6),
    impedance_0: F(376.73032),
};

const F_MAX: F = F(2.4e9);

fn v3(x: f32, y: f32, z: f32) -> Vec3<F> {
    Vec3 { x: F(x), y: F(y), z: F(z) }
}

fn aabb_of(g: &Box3) -> Aabb<F> {
    Aabb { mins: g.middle.minus(&g.half_extents), maxs: g.middle.plus(&g.half_extents) }
}

fn contains(g: &Box3, offset: &Vec3<F>, p: &Vec3<F>) -> bool {
    let d = p.minus(&g.middle.plus(offset));
    d.x.0.abs() <= g.half_extents.x.0
        && d.y.0.abs() <= g.half_extents.y.0
        && d.z.0.abs() <= g.half_extents.z.0
}

fn origin(dim: Dim) -> Vect<F> {
    match dim {
        Dim::One => Vect::One(F(0.0)),
        Dim::Two => Vect::Two(F(0.0), F(0.0)),
        Dim::Three => Vect::Three(F(0.0), F(0.0), F(0.0)),
    }
}

fn stability(dim: Dim) -> FdtdStability<F> {
    let mut stability = FdtdStability::default_for(dim);
    stability.spacer_region_widths = LayerWidths::splat_spatial(dim, 2);
    stability
}

/// An empty simulation with layers of 3 cells and spacers of 2 cells.
fn simulation(dim: Dim, discretization: MaterialDiscretization) -> FdtdLossySimulation<F, Box3> {
    let stability = stability(dim);
    let cell_size = stability.cell_size_from_min_wavelength(dim, &F_MAX, &SPACE);
    let dt = stability
        .cfl_condition(&cell_size, &SPACE)
        .smaller(&stability.dt_from_gaussian_freq(&F_MAX));
    let mut pml = PmlParameters::new(dim, &dt, &SPACE);
    pml.widths = LayerWidths::splat_spatial(dim, 3);
    FdtdLossySimulation::new(
        FdtdParameters {
            cell_size,
            dt,
            polarization_mode: PolarizationMode::TransverseMagnetic,
            material_discretization: discretization,
        },
        pml,
    )
}

fn dipole(dim: Dim, dipole_type: DipoleType, moment: Vec3<F>, dt: F) -> Source<F> {
    Source::Dipole {
        dipole_type,
        position: origin(dim),
        t_start: F(0.0),
        vals: Source::gaussian_max_f(&F_MAX, &F(1.0), &dt),
        moment,
    }
}

fn finalize(sim: &FdtdLossySimulation<F, Box3>) -> FdtdLossyState<F> {
    sim.finalize(aabb_of, contains, &stability(sim.fdtd_parameters.cell_size.get_dim()), &SPACE)
}

fn run_steps(state: &mut FdtdLossyState<F>, steps: usize) {
    let mut pipeline = FdtdLossyPipeline::new(PECBoundary {}, steps);
    let mut pass = Pass::new();
    assert_eq!(pipeline.dispatch_steps::<F, ()>(&mut pass, state), Ok(()));
    run_pass(state, &pass);
}

fn cells(n: UVec3) -> Vec<UVec3> {
    let mut r = vec![];
    for z in 0..n.z {
        for y in 0..n.y {
            for x in 0..n.x {
                r.push(UVec3::new(x, y, z));
            }
        }
    }
    r
}

fn largest(field: &Vec<Vec4<F>>) -> f32 {
    field.iter().map(|v| v.x.0.abs().max(v.y.0.abs()).max(v.z.0.abs())).fold(0.0, f32::max)
}

fn to_array(v: &Vec4<F>) -> [f32; 3] {
    [v.x.0, v.y.0, v.z.0]
}

/// The curl of a field on the whole grid, by central differences between neighbours.
fn curl(grid: &GridParameters<F>, v: &Vec<[f32; 3]>, c: &UVec3, forward: bool) -> [f32; 3] {
    let spatial: [bool; 3] = match grid.dim {
        Dim::One => [false, false, true],
        Dim::Two => [true, true, false],
        Dim::Three => [true, true, true],
    };
    let at = grid.cell_place(c);
    let inv = [grid.inv_d.x.0, grid.inv_d.y.0, grid.inv_d.z.0];
    let mut d = [[0.0f32; 3]; 3];
    for (i, axis) in Axis::all_axes().into_iter().enumerate() {
        if !spatial[i] {
            continue;
        }
        for k in 0..3 {
            d[i][k] = if forward {
                v[grid.cell_place(&c.with(axis, c.get(axis) + 1))][k] - v[at][k]
            } else {
                v[at][k] - v[grid.cell_place(&c.with(axis, c.get(axis) - 1))][k]
            };
        }
    }
    match grid.dim {
        Dim::One => [-d[2][1] * inv[2], d[2][0] * inv[2], 0.0],
        Dim::Two => [
            d[1][2] * inv[1],
            -d[0][2] * inv[0],
            d[0][1] * inv[0] - d[1][0] * inv[1],
        ],
        Dim::Three => [
            d[1][2] * inv[1] - d[2][1] * inv[2],
            d[2][0] * inv[2] - d[0][2] * inv[0],
            d[0][1] * inv[0] - d[1][0] * inv[1],
        ],
    }
}

/// The fields after a step without sources: H of all cells first, then D and E of all cells.
fn plain_step(state: &FdtdLossyState<F>) -> (Vec<[f32; 3]>, Vec<[f32; 3]>, Vec<[f32; 3]>) {
    let grid = &state.grid_params;
    let sums = &state.int_terms;
    let mut h: Vec<[f32; 3]> = state.h.iter().map(to_array).collect();
    let mut dn: Vec<[f32; 3]> = state.dn.iter().map(to_array).collect();
    let mut en: Vec<[f32; 3]> = state.en.iter().map(to_array).collect();
    let inner: Vec<UVec3> =
        cells(grid.n_cells3).into_iter().filter(|c| !grid.is_on_boundary(c)).collect();
    let two = |k: usize, m3: [f32; 3], m4: [f32; 3], curl: f32, v: f32| match grid.dim {
        Dim::One => 0.0,
        Dim::Two => if k == 2 { m4[k] * v } else { m3[k] * curl },
        Dim::Three => m3[k] * curl + m4[k] * v,
    };
    let old_h = h.clone();
    for c in &inner {
        let i = grid.cell_place(c);
        let m = &state.grid_coeffs[i];
        let (m1, m2) = (to_array(&m.h1), to_array(&m.h2));
        let (m3, m4) = (to_array(&m.h3), to_array(&m.h4));
        let (curl_sum, sum) = (to_array(&sums[i].en_curl), to_array(&sums[i].h));
        let e_curl = curl(grid, &en, c, true);
        for k in 0..3 {
            if grid.dim == Dim::One && k == 2 {
                continue;
            }
            h[i][k] = m1[k] * old_h[i][k]
                + m2[k] * e_curl[k]
                + two(k, m3, m4, curl_sum[k] + e_curl[k], sum[k] + old_h[i][k]);
        }
    }
    for c in &inner {
        let i = grid.cell_place(c);
        let m = &state.grid_coeffs[i];
        let (m1, m2) = (to_array(&m.dn1), to_array(&m.dn2));
        let (m3, m4) = (to_array(&m.dn3), to_array(&m.dn4));
        let (l1, l2) = (to_array(&m.dn_loss1), to_array(&m.dn_loss2));
        let (curl_sum, sum) = (to_array(&sums[i].h_curl), to_array(&sums[i].dn));
        let (e, e_sum) = (en[i], to_array(&sums[i].en));
        let h_curl = curl(grid, &h, c, false);
        let old = dn[i];
        for k in 0..3 {
            if grid.dim == Dim::One && k == 2 {
                continue;
            }
            dn[i][k] = m1[k] * old[k]
                + m2[k] * h_curl[k]
                + l1[k] * e[k]
                + l2[k] * (e_sum[k] + e[k])
                + two(k, m3, m4, curl_sum[k] + h_curl[k], sum[k] + old[k]);
        }
        let e = to_array(&m.en1);
        en[i] = [e[0] * dn[i][0], e[1] * dn[i][1], e[2] * dn[i][2]];
    }
    (h, dn, en)
}

fn close(a: &Vec<[f32; 3]>, b: &Vec<Vec4<F>>) -> bool {
    let scale = largest(b).max(1e-30);
    a.iter().zip(b.iter()).all(|(x, y)| {
        let y = to_array(y);
        (0..3).all(|k| (x[k] - y[k]).abs() <= 1e-5 * scale)
    })
}

#[test]
fn free_space_values() {
    let space = ElectricMaterial::<F>::free_space();
    assert_eq!(space.eps_r, v3(1.0, 1.0, 1.0));
    assert_eq!(space.mu_r, v3(1.0, 1.0, 1.0));
    assert_eq!(space.sig, v3(0.0, 0.0, 0.0));
    let glass = ElectricMaterial { eps_r: v3(4.0, 9.0, 1.0), mu_r: v3(1.0, 1.0, 4.0), sig: v3(0.0, 0.0, 0.0) };
    assert_eq!(glass.refractive_index(), v3(2.0, 3.0, 2.0));
    assert_eq!(ElectricMaterial::<F>::zero().mu_r, v3(0.0, 0.0, 0.0));
}

#[test]
fn stability_formulas() {
    let s = FdtdStability::<F>::default_for(Dim::Two);
    assert_eq!(s.cells_per_wavelength, 10);
    assert_eq!(s.dt_safety_factor, F(2.0));
    assert_eq!(s.material_resolution.get(), 3);
    assert_eq!(FdtdStability::<F>::default().source_resolution, 10);
    let size = s.cell_size_from_min_wavelength(Dim::Two, &F_MAX, &SPACE);
    assert_eq!(size, Vect::Two(F(299792458.0f32 / 2.4e9 / 10.0), F(299792458.0f32 / 2.4e9 / 10.0)));
    let cells = Vect::Two(F(0.5), F(0.5));
    assert_eq!(s.cfl_condition(&cells, &SPACE), F(1.0 / (299792458.0f32 * 8.0f32.sqrt() * 2.0)));
    assert_eq!(
        s.snap_to_critical_dim(&Vect::Two(F(0.4), F(0.5)), &Vect::Two(F(1.0), F(1.0))),
        Vect::Two(F(1.0 / 3.0), F(0.5))
    );
    assert_eq!(FdtdStability::pml_sig_max(&F(0.5), &SPACE), F(8.854188e-12));
    assert_eq!(
        s.dt_from_gaussian_freq(&F(2.0)),
        F(std::f32::consts::FRAC_1_PI / 2.0 / 10.0)
    );
}

#[test]
fn safety_factor_below_one_is_ignored() {
    let mut s = FdtdStability::<F>::default_for(Dim::One);
    s.dt_safety_factor = F(0.25);
    assert_eq!(s.cfl_condition(&Vect::One(F(1.0)), &SPACE), F(1.0 / 299792458.0f32));
}

#[test]
fn default_absorbing_layers() {
    let pml = PmlParameters::new(Dim::One, &F(0.5), &SPACE);
    assert_eq!(pml.widths.get(Axis::Z), LoHiWidths::splat(12));
    assert_eq!(pml.widths.get(Axis::X), LoHiWidths::splat(0));
    assert_eq!(pml.grading_order.get(), 3);
    assert_eq!(pml.sig_max, F(8.854188e-12));
}

#[test]
fn gaussian_has_its_peak_in_the_middle() {
    let dt = F(1.0 / (std::f32::consts::PI * 100.0));
    let vals = Source::gaussian_max_f(&F(1.0), &F(3.0), &dt);
    assert_eq!(vals.len(), 1200);
    let peak = vals.iter().map(|v| v.0).fold(0.0, f32::max);
    assert!((peak - 3.0).abs() < 1e-3);
    assert!((vals[600].0 - 3.0).abs() < 1e-2);
    assert!(vals[0].0 < 1e-9);
}

#[test]
fn data_points_are_sampled_at_every_step() {
    let vals = Source::function_data_points(&F(0.5), &F(2.0), |t: &F| F(t.0 * 10.0));
    assert_eq!(vals, vec![F(0.0), F(5.0), F(10.0), F(15.0)]);
}

#[test]
fn grid_has_materials_spacers_layers_and_border() {
    let mut sim = simulation(Dim::One, MaterialDiscretization::Rough);
    sim.add_source(dipole(Dim::One, DipoleType::Electric, v3(0.0, 1.0, 0.0), sim.fdtd_parameters.dt));
    let state = finalize(&sim);
    // one cell for the dipole, 2 spacer cells, 3 absorbing cells and a border cell on each side
    assert_eq!(state.n_cells, GridIndex::One(13));
    assert_eq!(state.thread_count, [1, 1, 13]);
    assert_eq!(state.grid_params.problem_space_min.z, 4);
    assert_eq!(state.grid_params.problem_space_max.z, 8);
    assert_eq!(state.grid_params.cell_count, 13);
    assert_eq!(state.t_idx, 0);
    assert_eq!(state.h.len(), 13);
    assert_eq!(state.grid_coeffs.len(), 13);
    assert_eq!(state.dipoles.len(), 1);
    assert_eq!(state.dipoles[0].cell_idx, 6);
    assert!(state.tfsf_dispatch_data.aux_grid_thread_count.is_none());
}

#[test]
fn simulation_without_sources_has_placeholders() {
    let mut sim = simulation(Dim::Two, MaterialDiscretization::Rough);
    sim.material_regions.fill_region(
        &Vect::Two(F(0.0), F(0.0)),
        &Vect::Two(F(0.02), F(0.01)),
        ElectricMaterial::free_space(),
        |c| c,
    );
    let state = finalize(&sim);
    assert_eq!(state.dipoles.len(), 1);
    assert_eq!(state.source_vals, vec![F(0.0)]);
    assert_eq!(state.tfsf_dispatch_data.tfsf_sources.len(), 1);
    assert_eq!(state.tfsf_dispatch_data.tfsf_masks.len(), 1);
}

#[test]
fn steps_follow_the_update_equations() {
    for dim in [Dim::One, Dim::Two, Dim::Three] {
        let mut sim = simulation(dim, MaterialDiscretization::Rough);
        let dt = sim.fdtd_parameters.dt;
        sim.add_source(dipole(dim, DipoleType::Electric, v3(1.0, 1.0, 1.0), dt));
        sim.background_material.sig = v3(0.01, 0.02, 0.03);
        let mut state = finalize(&sim);
        run_steps(&mut state, 60);
        assert_eq!(state.t_idx, 60);
        assert!(state.grid_coeffs.iter().all(|m| m.dn_loss1.x.0 < 0.0));
        assert!(largest(&state.en) > 1e-3);
        // without the source the next step follows from the fields alone
        for d in state.dipoles.iter_mut() {
            d.moment = Vec4::zero();
        }
        let (h, dn, en) = plain_step(&state);
        run_steps(&mut state, 1);
        assert!(close(&h, &state.h));
        assert!(close(&dn, &state.dn));
        assert!(close(&en, &state.en));
    }
}

#[test]
fn boundary_stays_zero_in_every_dimension() {
    for dim in [Dim::One, Dim::Two, Dim::Three] {
        let mut sim = simulation(dim, MaterialDiscretization::Rough);
        let dt = sim.fdtd_parameters.dt;
        sim.add_source(dipole(dim, DipoleType::Electric, v3(1.0, 1.0, 1.0), dt));
        let mut state = finalize(&sim);
        run_steps(&mut state, 70);
        for c in cells(state.grid_params.n_cells3) {
            if state.grid_params.is_on_boundary(&c) {
                let i = state.grid_params.cell_place(&c);
                assert_eq!(state.h[i], Vec4::zero());
                assert_eq!(state.dn[i], Vec4::zero());
                assert_eq!(state.en[i], Vec4::zero());
            }
        }
    }
}

#[test]
fn submissions_do_not_matter() {
    let mut sim = simulation(Dim::Two, MaterialDiscretization::Rough);
    let dt = sim.fdtd_parameters.dt;
    sim.add_source(dipole(Dim::Two, DipoleType::Electric, v3(0.0, 0.0, 1.0), dt));
    let mut at_once = finalize(&sim);
    let mut in_parts = finalize(&sim);
    run_steps(&mut at_once, 30);
    run_steps(&mut in_parts, 7);
    run_steps(&mut in_parts, 0);
    run_steps(&mut in_parts, 23);
    assert_eq!(at_once.t_idx, in_parts.t_idx);
    assert_eq!(at_once.h, in_parts.h);
    assert_eq!(at_once.dn, in_parts.dn);
    assert_eq!(at_once.en, in_parts.en);
}

#[test]
fn electric_dipole_drives_d_and_magnetic_dipole_drives_h() {
    for (kind, electric) in [(DipoleType::Electric, true), (DipoleType::Magnetic, false)] {
        let mut sim = simulation(Dim::One, MaterialDiscretization::Rough);
        sim.add_source(Source::Dipole {
            dipole_type: kind,
            position: Vect::One(F(0.0)),
            t_start: F(0.0),
            vals: vec![F(2.0), F(4.0)],
            moment: v3(0.0, 1.0, 0.0),
        });
        let mut state = finalize(&sim);
        let at = state.dipoles[0].cell_idx as usize;
        let y = |v: &Vec<Vec4<F>>| v[at].y.0;
        run_steps(&mut state, 1);
        if electric {
            assert_eq!(y(&state.dn), 2.0);
            assert_eq!(y(&state.h), 0.0);
        } else {
            // half a step ahead
            assert_eq!(y(&state.h), 3.0);
        }
    }
}

#[test]
fn dipole_waits_for_its_start_and_ends_with_its_signal() {
    let mut sim = simulation(Dim::One, MaterialDiscretization::Rough);
    let dt = sim.fdtd_parameters.dt;
    sim.add_source(Source::Dipole {
        dipole_type: DipoleType::Electric,
        position: Vect::One(F(0.0)),
        t_start: F(dt.0 * 2.5),
        vals: vec![F(1.0), F(1.0), F(1.0)],
        moment: v3(0.0, 1.0, 0.0),
    });
    let mut state = finalize(&sim);
    assert_eq!(state.dipoles[0].t_start, 2);
    assert_eq!((state.dipoles[0].vals_start, state.dipoles[0].vals_end), (0, 2));
    let at = state.dipoles[0].cell_idx as usize;
    let mut driven = vec![];
    for _ in 0..7 {
        run_steps(&mut state, 1);
        driven.push(state.source_terms[at].dn.y.0);
    }
    assert_eq!(driven, vec![0.0, 0.0, 1.0, 1.0, 1.0, 0.0, 0.0]);
}

#[test]
fn signals_are_stored_one_behind_the_other() {
    let mut sim = simulation(Dim::One, MaterialDiscretization::Rough);
    for (position, vals) in [(0.0, vec![F(1.0), F(2.0)]), (0.001, vec![F(3.0), F(4.0), F(5.0)])] {
        sim.add_source(Source::Dipole {
            dipole_type: DipoleType::Electric,
            position: Vect::One(F(position)),
            t_start: F(0.0),
            vals,
            moment: v3(0.0, 1.0, 0.0),
        });
    }
    let state = finalize(&sim);
    assert_eq!(state.source_vals, vec![F(1.0), F(2.0), F(3.0), F(4.0), F(5.0)]);
    assert_eq!((state.dipoles[0].vals_start, state.dipoles[0].vals_end), (0, 1));
    assert_eq!((state.dipoles[1].vals_start, state.dipoles[1].vals_end), (2, 4));
}

#[test]
fn materials_slow_the_coefficients_down() {
    let mut sim = simulation(Dim::One, MaterialDiscretization::Rough);
    let glass = ElectricMaterial { eps_r: v3(4.0, 4.0, 4.0), mu_r: v3(1.0, 1.0, 1.0), sig: v3(0.0, 0.0, 0.0) };
    sim.material_regions.fill_region(&Vect::One(F(0.0)), &Vect::One(F(0.05)), glass, |c| c);
    let state = finalize(&sim);
    let inside = state.n_cells.element_product() as usize / 2;
    assert_eq!(state.grid_coeffs[inside].en1.y, F(0.25));
    assert_eq!(state.grid_coeffs[1].en1.y, F(1.0));
}

#[test]
fn smoothing_averages_the_materials() {
    let mut rough = simulation(Dim::One, MaterialDiscretization::Rough);
    let resolution = NonZeroU32::new(3).unwrap();
    let mut smooth = simulation(Dim::One, MaterialDiscretization::Smooth { resolution });
    let glass = ElectricMaterial { eps_r: v3(4.0, 4.0, 4.0), mu_r: v3(1.0, 1.0, 1.0), sig: v3(0.0, 0.0, 0.0) };
    for sim in [&mut rough, &mut smooth] {
        sim.material_regions.fill_region(&Vect::One(F(0.0)), &Vect::One(F(0.03)), glass, |c| c);
    }
    let (a, b) = (finalize(&rough), finalize(&smooth));
    assert_eq!(a.n_cells, b.n_cells);
    let between = |v: F| v.0 < 1.0 && v.0 > 0.25;
    assert!(a.grid_coeffs.iter().all(|m| m.en1.y == F(1.0) || m.en1.y == F(0.25)));
    assert!(b.grid_coeffs.iter().any(|m| between(m.en1.y)));
}

#[test]
fn layers_absorb_only_at_the_ends() {
    let sim = {
        let mut sim = simulation(Dim::One, MaterialDiscretization::Rough);
        let dt = sim.fdtd_parameters.dt;
        sim.add_source(dipole(Dim::One, DipoleType::Electric, v3(0.0, 1.0, 0.0), dt));
        sim
    };
    let state = finalize(&sim);
    for (i, m) in state.grid_coeffs.iter().enumerate() {
        if (3..10).contains(&i) {
            assert!((m.dn1.x.0 - 1.0).abs() < 1e-6);
        }
    }
    assert!(state.grid_coeffs[0].dn1.x.0 < 0.99);
    assert!(state.grid_coeffs[12].dn1.x.0 < 0.99);
}

fn plane_wave(dim: Dim, direction: WaveDirection, dt: F) -> FdtdLossySimulation<F, Box3> {
    let mut sim = simulation(dim, MaterialDiscretization::Rough);
    let corner = match dim {
        Dim::One => Vect::One(F(0.2)),
        Dim::Two => Vect::Two(F(0.2), F(0.2)),
        Dim::Three => Vect::Three(F(0.1), F(0.1), F(0.1)),
    };
    sim.material_regions.fill_region(&origin(dim), &corner, ElectricMaterial::free_space(), |c| c);
    sim.add_source(Source::TFSF {
        spatial_axis: if dim == Dim::Two { SpatialAxis::X } else { SpatialAxis::Z },
        direction,
        t_start: F(0.0),
        vals: Source::gaussian_max_f(&F_MAX, &F(1.0), &dt),
        polarization: if dim == Dim::Two { v3(0.0, 1.0, 0.0) } else { v3(1.0, 0.0, 0.0) },
        tfsf_buffer_width: LayerWidths::splat_spatial(dim, 3),
    });
    sim
}

/// The largest E field in the cells that `wanted` picks, over a number of steps.
fn largest_over_time(
    state: &mut FdtdLossyState<F>,
    steps: usize,
    wanted: impl Fn(&UVec3) -> bool,
) -> (f32, f32) {
    let (mut picked, mut others): (f32, f32) = (0.0, 0.0);
    for _ in 0..steps {
        run_steps(state, 1);
        for c in cells(state.grid_params.n_cells3) {
            let e = &state.en[state.grid_params.cell_place(&c)];
            let e = to_array(e).iter().fold(0.0f32, |a, b| a.max(b.abs()));
            if wanted(&c) {
                picked = picked.max(e);
            } else {
                others = others.max(e);
            }
        }
    }
    (picked, others)
}

#[test]
fn plane_wave_enters_the_total_field_only() {
    for direction in [WaveDirection::Positive, WaveDirection::Negative] {
        let dt = simulation(Dim::One, MaterialDiscretization::Rough).fdtd_parameters.dt;
        let mut state = finalize(&plane_wave(Dim::One, direction, dt));
        let (_, pass) = FdtdLossyPipeline::new_initialized(PECBoundary {}, 1, &state);
        assert_eq!(pass.launches.len(), 1);
        run_pass(&mut state, &pass);
        let source = state.tfsf_dispatch_data.tfsf_sources[0];
        assert_eq!(source.a, Axis::Z);
        // nothing travels against the direction of the wave
        let (behind, ahead) = largest_over_time(&mut state, 110, |c| match direction {
            WaveDirection::Positive => c.z < source.tf_min_a,
            WaveDirection::Negative => c.z > source.tf_max_a,
        });
        assert!(ahead > 0.9, "{ahead}");
        assert!(behind < 1e-3, "{behind}");
    }
}

#[test]
fn plane_wave_leaves_the_total_field_in_a_plane() {
    let dt = simulation(Dim::Two, MaterialDiscretization::Rough).fdtd_parameters.dt;
    let mut state = finalize(&plane_wave(Dim::Two, WaveDirection::Positive, dt));
    let (_, pass) = FdtdLossyPipeline::new_initialized(PECBoundary {}, 1, &state);
    run_pass(&mut state, &pass);
    let s = state.tfsf_dispatch_data.tfsf_sources[0];
    let (inside, outside) = largest_over_time(&mut state, 250, |c| {
        (s.tf_min_a..=s.tf_max_a + 1).contains(&c.x) && (s.tf_min_a1..=s.tf_max_a1 + 1).contains(&c.y)
    });
    assert!(inside > 0.9, "{inside}");
    assert!(outside < 0.02, "{outside}");
}

#[test]
fn plane_wave_buffers_are_laid_out() {
    let dt = simulation(Dim::Two, MaterialDiscretization::Rough).fdtd_parameters.dt;
    let sim = plane_wave(Dim::Two, WaveDirection::Positive, dt);
    let state = finalize(&sim);
    let tfsf = &state.tfsf_dispatch_data;
    let s = &tfsf.tfsf_sources[0];
    assert_eq!(tfsf.tfsf_sources.len(), 1);
    assert_eq!(tfsf.aux_grid_thread_count, Some([1, 1, s.n_cells]));
    let n = state.grid_params.n_cells3;
    assert_eq!(tfsf.mask_init_thread_count, Some([n.x, n.y, 1]));
    assert_eq!(tfsf.corrections.len(), s.num_correction_cells as usize);
    assert_eq!(tfsf.h.len(), s.n_cells as usize);
    assert_eq!((s.a, s.a1, s.a2), (Axis::X, Axis::Y, Axis::Z));
    // three cells away from the absorbing layers
    assert_eq!(s.tf_min_a, state.grid_params.problem_space_min.x + 3);
}

fn try_finalize(sim: &FdtdLossySimulation<F, Box3>) -> Option<FdtdLossyState<F>> {
    sim.try_finalize(aabb_of, contains, &stability(sim.fdtd_parameters.cell_size.get_dim()), &SPACE)
}

fn is_finalizable(sim: &FdtdLossySimulation<F, Box3>) -> bool {
    let bb = sim.compute_bounding_box(aabb_of);
    sim.is_finalizable(&bb, &stability(sim.fdtd_parameters.cell_size.get_dim()), &SPACE)
}

#[test]
fn ordinary_simulations_are_laid_out() {
    for dim in [Dim::One, Dim::Two, Dim::Three] {
        let dt = simulation(dim, MaterialDiscretization::Rough).fdtd_parameters.dt;
        let mut sim = plane_wave(dim, WaveDirection::Positive, dt);
        sim.add_source(dipole(dim, DipoleType::Magnetic, v3(1.0, 1.0, 1.0), dt));
        assert!(is_finalizable(&sim));
        let (a, b) = (try_finalize(&sim).unwrap(), finalize(&sim));
        assert_eq!(a.n_cells, b.n_cells);
        assert_eq!(a.source_vals, b.source_vals);
        assert_eq!(a.dipoles[0].cell_idx, b.dipoles[0].cell_idx);
        assert_eq!(a.tfsf_dispatch_data.corrections.len(), b.tfsf_dispatch_data.corrections.len());
        assert_eq!(a.grid_coeffs.len() as u32, b.grid_params.cell_count);
    }
}

#[test]
fn nothing_is_refined_by_zero() {
    assert!(NonZeroU32::new(0).is_none());
    assert!(NonZeroI32::new(0).is_none());
    assert_eq!(NonZeroI32::new(-3).unwrap().get(), -3);
    let resolution = NonZeroU32::new(1).unwrap();
    assert_eq!(resolution.get(), 1);
    let mut sim = simulation(Dim::One, MaterialDiscretization::Smooth { resolution });
    let dt = sim.fdtd_parameters.dt;
    sim.add_source(dipole(Dim::One, DipoleType::Electric, v3(0.0, 1.0, 0.0), dt));
    assert!(try_finalize(&sim).is_some());
    let resolution = NonZeroU32::new(u32::MAX).unwrap();
    sim.fdtd_parameters.material_discretization = MaterialDiscretization::Smooth { resolution };
    assert!(!is_finalizable(&sim));
}

#[test]
fn grids_that_cannot_be_counted_are_refused() {
    let mut sim = simulation(Dim::One, MaterialDiscretization::Rough);
    let dt = sim.fdtd_parameters.dt;
    sim.add_source(dipole(Dim::One, DipoleType::Electric, v3(0.0, 1.0, 0.0), dt));
    sim.pml_parameters.widths = LayerWidths::splat_spatial(Dim::One, u32::MAX / 2);
    assert!(!is_finalizable(&sim));
    assert!(try_finalize(&sim).is_none());

    let mut sim = simulation(Dim::Three, MaterialDiscretization::Rough);
    sim.add_source(dipole(Dim::Three, DipoleType::Electric, v3(0.0, 1.0, 0.0), dt));
    assert!(is_finalizable(&sim));
    // each axis can be counted, the cells cannot
    sim.pml_parameters.widths = LayerWidths::splat_spatial(Dim::Three, 1000);
    assert!(!is_finalizable(&sim));
}

#[test]
fn sources_without_values_are_refused() {
    let mut sim = simulation(Dim::One, MaterialDiscretization::Rough);
    sim.add_source(Source::Dipole {
        dipole_type: DipoleType::Electric,
        position: Vect::One(F(0.0)),
        t_start: F(0.0),
        vals: vec![],
        moment: v3(0.0, 1.0, 0.0),
    });
    assert!(try_finalize(&sim).is_none());
}

#[test]
fn total_field_without_room_is_refused() {
    let dt = simulation(Dim::Two, MaterialDiscretization::Rough).fdtd_parameters.dt;
    let mut sim = plane_wave(Dim::Two, WaveDirection::Positive, dt);
    assert!(is_finalizable(&sim));
    match &mut sim.sources[0] {
        Source::TFSF { tfsf_buffer_width, .. } => {
            *tfsf_buffer_width = LayerWidths::splat_spatial(Dim::Two, 1000);
        }
        _ => unreachable!(),
    }
    assert!(!is_finalizable(&sim));
    assert!(try_finalize(&sim).is_none());
}

#[test]
fn submission_runs_its_steps() {
    let mut sim = simulation(Dim::Two, MaterialDiscretization::Rough);
    let dt = sim.fdtd_parameters.dt;
    sim.add_source(dipole(Dim::Two, DipoleType::Electric, v3(0.0, 0.0, 1.0), dt));
    let mut submitted = finalize(&sim);
    let mut recorded = finalize(&sim);
    let mut pipeline = FdtdLossyPipeline::new(PECBoundary {}, 12);
    assert!(pipeline.run_submission(&mut submitted));
    assert!(pipeline.run_submission(&mut submitted));
    run_steps(&mut recorded, 24);
    assert_eq!(submitted.t_idx, 24);
    assert_eq!(submitted.h, recorded.h);
    assert_eq!(submitted.dn, recorded.dn);
    assert_eq!(submitted.en, recorded.en);
    assert!(largest(&submitted.en) > 0.0);
}

#[test]
fn submission_stops_where_steps_cannot_be_counted() {
    let mut sim = simulation(Dim::One, MaterialDiscretization::Rough);
    sim.add_source(Source::Dipole {
        dipole_type: DipoleType::Electric,
        position: Vect::One(F(0.0)),
        t_start: F(0.0),
        vals: vec![F(1.0), F(2.0)],
        moment: v3(0.0, 1.0, 0.0),
    });
    let mut state = finalize(&sim);
    let mut pipeline = FdtdLossyPipeline::new(PECBoundary {}, 4);
    // two stored values and four steps
    state.t_idx = u32::MAX - 6;
    assert!(pipeline.run_submission(&mut state));
    assert_eq!(state.t_idx, u32::MAX - 2);
    let en = state.en.clone();
    assert!(!pipeline.run_submission(&mut state));
    assert_eq!(state.t_idx, u32::MAX - 2);
    assert_eq!(state.en, en);
}

#[test]
fn initialization_fills_the_masks() {
    let dt = simulation(Dim::One, MaterialDiscretization::Rough).fdtd_parameters.dt;
    let mut state = finalize(&plane_wave(Dim::One, WaveDirection::Positive, dt));
    let s = state.tfsf_dispatch_data.tfsf_sources[0];
    assert!(state.tfsf_dispatch_data.tfsf_masks.iter().all(|m| m.h_src_a1_ma == F(0.0)));
    FdtdLossyPipeline::new(PECBoundary {}, 1).run_initialization(&mut state);
    assert_eq!(state.t_idx, 0);
    for (i, m) in state.tfsf_dispatch_data.tfsf_masks.iter().enumerate() {
        let i = i as u32;
        // the wave enters between the last cell of the scattered field and the first of the total
        assert_eq!(m.h_src_a1_ma != F(0.0), i == s.tf_min_a, "{i}");
        assert_eq!(m.en_src_a1_pa != F(0.0), i + 1 == s.tf_min_a, "{i}");
        assert_eq!(m.h_src_a1_ma, m.h_src_a2_ma);
        assert_eq!(m.en_src_a1_pa, m.en_src_a2_pa);
    }
}

#[test]
fn masks_surround_the_total_field() {
    let dt = simulation(Dim::Two, MaterialDiscretization::Rough).fdtd_parameters.dt;
    let mut state = finalize(&plane_wave(Dim::Two, WaveDirection::Positive, dt));
    let s = state.tfsf_dispatch_data.tfsf_sources[0];
    FdtdLossyPipeline::new(PECBoundary {}, 1).run_initialization(&mut state);
    for c in cells(state.grid_params.n_cells3) {
        let m = &state.tfsf_dispatch_data.tfsf_masks[state.grid_params.cell_place(&c)];
        let on = [m.h_src_a1_ma, m.en_src_a1_pa, m.h_src_a2_ma1, m.en_src_a2_pa1]
            .iter()
            .any(|v| *v != F(0.0));
        let inside = |lo: u32, hi: u32, i: u32| lo <= i && i <= hi;
        let near = inside(s.tf_min_a - 1, s.tf_max_a + 1, c.x)
            && inside(s.tf_min_a1 - 1, s.tf_max_a1 + 1, c.y);
        let deep = inside(s.tf_min_a + 1, s.tf_max_a - 1, c.x)
            && inside(s.tf_min_a1 + 1, s.tf_max_a1 - 1, c.y);
        let corner = (c.x == s.tf_min_a - 1 || c.x == s.tf_max_a + 1)
            && (c.y == s.tf_min_a1 - 1 || c.y == s.tf_max_a1 + 1);
        assert_eq!(on, near && !deep && !corner, "{c:?}");
    }
}

#[test]
fn plane_waves_do_not_touch_each_other() {
    let dt = simulation(Dim::Two, MaterialDiscretization::Rough).fdtd_parameters.dt;
    let one = plane_wave(Dim::Two, WaveDirection::Positive, dt);
    let mut two = plane_wave(Dim::Two, WaveDirection::Positive, dt);
    two.add_source(Source::TFSF {
        spatial_axis: SpatialAxis::Y,
        direction: WaveDirection::Negative,
        t_start: F(0.0),
        vals: vec![F(0.5), F(1.0)],
        polarization: v3(1.0, 0.0, 0.0),
        tfsf_buffer_width: LayerWidths::splat_spatial(Dim::Two, 4),
    });
    let (mut one, mut two) = (finalize(&one), finalize(&two));
    for state in [&mut one, &mut two] {
        FdtdLossyPipeline::new(PECBoundary {}, 1).run_initialization(state);
    }
    let n = one.tfsf_dispatch_data.tfsf_sources[0].n_cells as usize;
    assert_eq!(two.tfsf_dispatch_data.tfsf_sources.len(), 2);
    assert_eq!(two.tfsf_dispatch_data.tfsf_sources[1].grid_start as usize, n);
    assert!(two.tfsf_dispatch_data.en.len() > n);
    let (mut first, mut second): (f32, f32) = (0.0, 0.0);
    for _ in 0..120 {
        run_steps(&mut one, 1);
        run_steps(&mut two, 1);
        let (a, b) = (&one.tfsf_dispatch_data, &two.tfsf_dispatch_data);
        assert_eq!(a.h[..], b.h[..n]);
        assert_eq!(a.dn[..], b.dn[..n]);
        assert_eq!(a.en[..], b.en[..n]);
        for (i, v) in b.en.iter().enumerate() {
            let e = v.x.0.abs().max(v.y.0.abs());
            if i < n {
                first = first.max(e);
            } else {
                second = second.max(e);
            }
        }
    }
    assert!(first > 0.1, "{first}");
    assert!(second > 0.1, "{second}");
}

#[test]
fn mirrored_widths_mirror_the_layers() {
    let widths = |lo: u32, hi: u32| {
        LayerWidths::splat_spatial(Dim::One, 0).with_axis_widths(SpatialAxis::Z, LoHiWidths { lo, hi })
    };
    let lay_out = |lo: u32, hi: u32| {
        let mut sim = simulation(Dim::One, MaterialDiscretization::Rough);
        let dt = sim.fdtd_parameters.dt;
        sim.add_source(dipole(Dim::One, DipoleType::Electric, v3(0.0, 1.0, 0.0), dt));
        sim.pml_parameters.widths = widths(lo, hi);
        finalize(&sim)
    };
    let (a, b) = (lay_out(2, 5), lay_out(5, 2));
    let n = a.grid_coeffs.len();
    assert_eq!(n, b.grid_coeffs.len());
    // H sits half a cell behind D
    for i in 0..n {
        assert_eq!(a.grid_coeffs[i].dn1.x, b.grid_coeffs[n - 1 - i].h1.x);
    }
    // nothing is absorbed between the layers
    let lossless = a.grid_coeffs[n / 2].dn1.x;
    assert!((lossless.0 - 1.0).abs() < 1e-6);
    for i in 2..n - 5 {
        assert_eq!(a.grid_coeffs[i].dn1.x, lossless);
    }
    assert!(a.grid_coeffs[1].dn1.x.0 < lossless.0);
    assert!(a.grid_coeffs[n - 5].h1.x.0 < lossless.0);
}

#[test]
fn loss_takes_energy() {
    let run = |sig: f32| {
        let mut sim = simulation(Dim::One, MaterialDiscretization::Rough);
        let dt = sim.fdtd_parameters.dt;
        sim.add_source(dipole(Dim::One, DipoleType::Electric, v3(0.0, 1.0, 0.0), dt));
        sim.background_material.sig = v3(sig, sig, sig);
        let mut state = finalize(&sim);
        run_steps(&mut state, 60);
        largest(&state.en)
    };
    assert!(run(0.1) < 0.9 * run(0.0));
}

#[test]
fn plane_waves_without_total_field_are_stored() {
    let mut sim = simulation(Dim::Two, MaterialDiscretization::Rough);
    let dt = sim.fdtd_parameters.dt;
    let wave = |position: f32| Source::PlaneWave {
        spatial_axis: SpatialAxis::Y,
        position: F(position),
        direction: WaveDirection::Negative,
        t_start: F(dt.0 * 2.5),
        vals: vec![F(7.0), F(8.0)],
    };
    sim.add_source(wave(0.0));
    sim.add_source(Source::Dipole {
        dipole_type: DipoleType::Electric,
        position: Vect::Two(F(0.0), F(0.0)),
        t_start: F(0.0),
        vals: vec![F(1.0), F(2.0), F(3.0)],
        moment: v3(0.0, 0.0, 1.0),
    });
    let state = try_finalize(&sim).unwrap();
    assert_eq!(state.source_vals, vec![F(1.0), F(2.0), F(3.0), F(7.0), F(8.0)]);
    assert_eq!(state.plane_waves.len(), 1);
    let w = state.plane_waves[0];
    assert_eq!((w.spatial_axis, w.direction), (SpatialAxis::Y, -1));
    assert_eq!((w.vals_start, w.vals_end, w.t_start), (3, 4, 2));
    assert_eq!(w.position_idx, state.dipoles[0].cell_idx / state.grid_params.n_cells3.x);
    // without one there is a placeholder, and far outside of the grid there can be none
    let empty = finalize(&plane_wave(Dim::Two, WaveDirection::Positive, dt));
    assert_eq!(empty.plane_waves.len(), 1);
    assert_eq!((empty.plane_waves[0].vals_start, empty.plane_waves[0].vals_end), (0, 0));
    sim.add_source(wave(-10.0));
    assert!(try_finalize(&sim).is_none());
    // nor is there any in 1D
    let mut line = simulation(Dim::One, MaterialDiscretization::Rough);
    line.add_source(dipole(Dim::One, DipoleType::Electric, v3(0.0, 1.0, 0.0), dt));
    assert!(try_finalize(&line).is_some());
    line.add_source(Source::PlaneWave {
        spatial_axis: SpatialAxis::Z,
        position: F(0.0),
        direction: WaveDirection::Positive,
        t_start: F(0.0),
        vals: vec![F(1.0)],
    });
    assert!(try_finalize(&line).is_none());
}

#[test]
fn bounding_box_contains_everything_and_grows() {
    let mut sim = simulation(Dim::Two, MaterialDiscretization::Rough);
    let dt = sim.fdtd_parameters.dt;
    let holds = |a: &Aabb<F>, b: &Aabb<F>| {
        let (p, q) = ([&a.mins, &a.maxs], [&b.mins, &b.maxs]);
        let le = |u: &Vec3<F>, v: &Vec3<F>| u.x.0 <= v.x.0 && u.y.0 <= v.y.0 && u.z.0 <= v.z.0;
        le(p[0], q[0]) && le(q[1], p[1])
    };
    for (lo, hi) in [(0.0, 0.3), (-0.2, 0.1)] {
        sim.material_regions.fill_region(
            &Vect::Two(F(lo), F(lo)),
            &Vect::Two(F(hi), F(hi)),
            ElectricMaterial::free_space(),
            |c| c,
        );
    }
    let first = sim.compute_bounding_box(aabb_of);
    for region in &sim.material_regions.regions {
        assert!(holds(&first, &aabb_of(&region.geometry)));
    }
    let far = Source::Dipole {
        dipole_type: DipoleType::Electric,
        position: Vect::Two(F(4.0), F(-3.0)),
        t_start: F(0.0),
        vals: vec![F(1.0)],
        moment: v3(0.0, 0.0, 1.0),
    };
    let mut before = first;
    for source in [far, dipole(Dim::Two, DipoleType::Magnetic, v3(0.0, 0.0, 1.0), dt)] {
        sim.add_source(source);
        let now = sim.compute_bounding_box(aabb_of);
        assert!(holds(&now, &before));
        before = now;
    }
    let point = v3(4.0, -3.0, 0.0);
    assert!(holds(&before, &Aabb { mins: point, maxs: point }));
    assert!(!holds(&first, &before));
}
