use taser_em::axis::{Axis, Dim, SpatialAxis};
use taser_em::boundary::{
    BoundaryAxis, BoundaryCondition as AxisCondition, BoundaryConditions, Stage, PECBoundaryX, PECBoundaryY, PECBoundaryZ, PeriodicBoundaryX,
    PeriodicBoundaryY, PeriodicBoundaryZ,
};
use taser_em::boundary_condition::{BoundaryCondition, CallArgs, PECBoundary};
use taser_em::boundary_kernels::{
    gpu_pec_boundary, gpu_pec_boundary_x, gpu_pec_boundary_y, gpu_pec_boundary_z,
    gpu_periodic_x_en, gpu_periodic_x_h, gpu_periodic_y_en, gpu_periodic_y_h, gpu_periodic_z_en,
    gpu_periodic_z_h,
};
use taser_em::clamped::{GpuDipole as PlainDipole, GridParameters2};
use taser_em::fdtd1;
use taser_em::host::Kernel;
use taser_em::index::GridIndex;
use taser_em::launch::{run_launch, Launch, Launches, Pass};
use taser_em::params::{
    GpuDipole, GpuTfsf, GridParameters, PmlCoefficients, PmlIntegrals, PolarizationModeIndex,
    SourceTerms, TfsfMask,
};
use taser_em::plane_waves::GpuPlaneWave;
use taser_em::pipeline::FdtdLossyPipeline;
use taser_em::polarization::GpuPolarizationMode;
use taser_em::polarized;
use taser_em::scalar::Scalar;
use taser_em::simulation::compute_flat_idx_incrs;
use taser_em::state::FdtdLossyState;
use taser_em::symbolic::Expr;
use taser_em::tabled;
use taser_em::tfsf::init_tfsf_masks;
use taser_em::tfsf_setup::TfsfDispatchData;
use taser_em::update::{gpu_lossy_update, gpu_lossy_update_old};
use taser_em::vector::{UVec3, Vec2, Vec3, Vec4};
use taser_em::whole_vector;

/// Single precision numbers.
#[derive(Clone, Copy, Debug, PartialEq)]
struct F(f32);

impl Scalar for F {
    fn zero() -> Self {
        F(0.0)
    }
    fn one() -> Self {
        F(1.0)
    }
    fn half() -> Self {
        F(0.5)
    }
    fn largest_value() -> Self {
        F(f32::MAX)
    }
    fn epsilon() -> Self {
        F(f32::EPSILON)
    }
    fn frac_1_pi() -> Self {
        F(std::f32::consts::FRAC_1_PI)
    }
    fn of_nat(n: u32) -> Self {
        F(n as f32)
    }
    fn dup(&self) -> Self {
        *self
    }
    fn plus(&self, rhs: &Self) -> Self {
        F(self.0 + rhs.0)
    }
    fn minus(&self, rhs: &Self) -> Self {
        F(self.0 - rhs.0)
    }
    fn times(&self, rhs: &Self) -> Self {
        F(self.0 * rhs.0)
    }
    fn negated(&self) -> Self {
        F(-self.0)
    }
    fn over(&self, rhs: &Self) -> Self {
        F(self.0 / rhs.0)
    }
    fn recip(&self) -> Self {
        F(self.0.recip())
    }
    fn powi(&self, n: i32) -> Self {
        F(self.0.powi(n))
    }
    fn sqrt(&self) -> Self {
        F(self.0.sqrt())
    }
    fn e_powf(&self) -> Self {
        F(std::f32::consts::E.powf(self.0))
    }
    fn ceil(&self) -> Self {
        F(self.0.ceil())
    }
    fn clamp_unit(&self) -> Self {
        F(self.0.clamp(0.0, 1.0))
    }
    fn larger(&self, rhs: &Self) -> Self {
        F(self.0.max(rhs.0))
    }
    fn smaller(&self, rhs: &Self) -> Self {
        F(self.0.min(rhs.0))
    }
    fn finite_or_zero(&self) -> Self {
        F(if self.0.is_finite() { self.0 } else { 0.0 })
    }
    fn at_least(&self, rhs: &Self) -> bool {
        self.0 >= rhs.0
    }
    fn exceeds(&self, rhs: &Self) -> bool {
        self.0 > rhs.0
    }
    fn ranks_above(&self, rhs: &Self) -> bool {
        self.0.total_cmp(&rhs.0).is_gt()
    }
    fn is_sign_negative(&self) -> bool {
        self.0.is_sign_negative()
    }
    fn to_index(&self) -> u32 {
        self.0 as u32
    }
    fn to_count(&self) -> usize {
        self.0 as usize
    }

    // What the operations are, for the contracts of the library.
    fn zero_spec() -> Self {
        Self::zero()
    }
    fn one_spec() -> Self {
        Self::one()
    }
    fn half_spec() -> Self {
        Self::half()
    }
    fn largest_value_spec() -> Self {
        Self::largest_value()
    }
    fn epsilon_spec() -> Self {
        Self::epsilon()
    }
    fn frac_1_pi_spec() -> Self {
        Self::frac_1_pi()
    }
    fn of_nat_spec(n: u32) -> Self {
        Self::of_nat(n)
    }
    fn spec_add(self, rhs: Self) -> Self {
        self.plus(&rhs)
    }
    fn spec_sub(self, rhs: Self) -> Self {
        self.minus(&rhs)
    }
    fn spec_mul(self, rhs: Self) -> Self {
        self.times(&rhs)
    }
    fn over_spec(self, rhs: Self) -> Self {
        self.over(&rhs)
    }
    fn larger_spec(self, rhs: Self) -> Self {
        self.larger(&rhs)
    }
    fn smaller_spec(self, rhs: Self) -> Self {
        self.smaller(&rhs)
    }
    fn spec_neg(self) -> Self {
        self.negated()
    }
    fn recip_spec(self) -> Self {
        self.recip()
    }
    fn sqrt_spec(self) -> Self {
        self.sqrt()
    }
    fn e_powf_spec(self) -> Self {
        self.e_powf()
    }
    fn ceil_spec(self) -> Self {
        self.ceil()
    }
    fn clamp_unit_spec(self) -> Self {
        self.clamp_unit()
    }
    fn finite_or_zero_spec(self) -> Self {
        self.finite_or_zero()
    }
    fn powi_spec(self, n: i32) -> Self {
        self.powi(n)
    }
    fn at_least_spec(self, rhs: Self) -> bool {
        self.at_least(&rhs)
    }
    fn exceeds_spec(self, rhs: Self) -> bool {
        self.exceeds(&rhs)
    }
    fn ranks_above_spec(self, rhs: Self) -> bool {
        self.ranks_above(&rhs)
    }
    fn is_sign_negative_spec(self) -> bool {
        self.is_sign_negative()
    }
    fn to_index_spec(self) -> u32 {
        self.to_index()
    }
    fn to_count_spec(self) -> usize {
        self.to_count()
    }
}

fn v4(x: f32, y: f32, z: f32) -> Vec4<F> {
    Vec4 { x: F(x), y: F(y), z: F(z), w: F(0.0) }
}

fn grid(n_cells: GridIndex) -> GridParameters<F> {
    GridParameters {
        dim: n_cells.get_dim(),
        flat_idx_incrs: compute_flat_idx_incrs(n_cells),
        polarization_mode_index: PolarizationModeIndex::tm(),
        n_cells3: n_cells.n_cells_to_3d(),
        dt: F(1.0),
        d: Vec3::splat(&F(0.5)),
        inv_dt: F(1.0),
        inv_d: Vec3::splat(&F(2.0)),
        cell_count: n_cells.element_product(),
        problem_space_min: UVec3::splat(1),
        problem_space_max: UVec3::splat(1),
    }
}

/// A field whose x component counts the cells.
fn counted(n_cells: GridIndex) -> Vec<Vec4<F>> {
    (0..n_cells.element_product()).map(|i| v4(i as f32 + 1.0, 0.0, 0.0)).collect()
}

fn threads(n: UVec3) -> Vec<UVec3> {
    let mut r = vec![];
    for z in 0..n.z + 1 {
        for y in 0..n.y + 1 {
            for x in 0..n.x + 1 {
                r.push(UVec3::new(x, y, z));
            }
        }
    }
    r
}

fn xs(v: &Vec<Vec4<F>>) -> Vec<f32> {
    v.iter().map(|v| v.x.0).collect()
}

/// The coefficients that make the sums of the tests easy.
fn simple_coeffs() -> PmlCoefficients<F> {
    PmlCoefficients {
        h1: Vec4::splat(&F(1.0)),
        h2: Vec4::splat(&F(-0.5)),
        dn1: Vec4::splat(&F(1.0)),
        dn2: Vec4::splat(&F(0.5)),
        en1: Vec4::splat(&F(0.25)),
        ..PmlCoefficients::default()
    }
}

#[test]
fn conductor_clears_the_boundary_cells() {
    let n = GridIndex::Two(4, 3);
    let g = grid(n);
    let (mut h, mut dn, mut en) = (counted(n), counted(n), counted(n));
    for t in threads(g.n_cells3) {
        gpu_pec_boundary(t, &g, &mut h, &mut dn, &mut en);
    }
    let left = vec![0.0, 0.0, 0.0, 0.0, 0.0, 6.0, 7.0, 0.0, 0.0, 0.0, 0.0, 0.0];
    assert_eq!(xs(&h), left);
    assert_eq!(xs(&dn), left);
    assert_eq!(xs(&en), left);
}

#[test]
fn conductor_across_one_axis() {
    let n = GridIndex::Two(3, 2);
    let g = grid(n);
    let (mut h, mut dn, mut en) = (counted(n), counted(n), counted(n));
    for t in threads(g.n_cells3) {
        gpu_pec_boundary_x(t, &g, &mut h, &mut dn, &mut en);
    }
    assert_eq!(xs(&h), vec![0.0, 2.0, 0.0, 0.0, 5.0, 0.0]);
    let n = GridIndex::Two(1, 4);
    let g = grid(n);
    let (mut h, mut dn, mut en) = (counted(n), counted(n), counted(n));
    for t in threads(g.n_cells3) {
        gpu_pec_boundary_y(t, &g, &mut h, &mut dn, &mut en);
    }
    assert_eq!(xs(&dn), vec![0.0, 2.0, 3.0, 0.0]);
    let n = GridIndex::One(4);
    let g = grid(n);
    let (mut h, mut dn, mut en) = (counted(n), counted(n), counted(n));
    for t in threads(g.n_cells3) {
        gpu_pec_boundary_z(t, &g, &mut h, &mut dn, &mut en);
    }
    assert_eq!(xs(&en), vec![0.0, 2.0, 3.0, 0.0]);
}

#[test]
fn periodic_boundary_joins_the_sides() {
    let n = GridIndex::One(5);
    let g = grid(n);
    let (mut h, mut en) = (counted(n), counted(n));
    for t in threads(g.n_cells3) {
        gpu_periodic_z_en(t, &g, &mut en);
        gpu_periodic_z_h(t, &g, &mut h);
    }
    assert_eq!(xs(&en), vec![1.0, 2.0, 3.0, 4.0, 2.0]);
    assert_eq!(xs(&h), vec![4.0, 2.0, 3.0, 4.0, 5.0]);
}

#[test]
fn periodic_boundary_in_a_plane() {
    let n = GridIndex::Two(3, 3);
    let g = grid(n);
    let (mut h, mut en) = (counted(n), counted(n));
    for t in threads(g.n_cells3) {
        gpu_periodic_x_en(t, &g, &mut en);
        gpu_periodic_x_h(t, &g, &mut h);
    }
    assert_eq!(xs(&en), vec![1.0, 2.0, 2.0, 4.0, 5.0, 5.0, 7.0, 8.0, 8.0]);
    assert_eq!(xs(&h), vec![2.0, 2.0, 3.0, 5.0, 5.0, 6.0, 8.0, 8.0, 9.0]);
    let (mut h, mut en) = (counted(n), counted(n));
    for t in threads(g.n_cells3) {
        gpu_periodic_y_en(t, &g, &mut en);
        gpu_periodic_y_h(t, &g, &mut h);
    }
    assert_eq!(xs(&en), vec![1.0, 2.0, 3.0, 4.0, 5.0, 6.0, 4.0, 5.0, 6.0]);
    assert_eq!(xs(&h), vec![4.0, 5.0, 6.0, 4.0, 5.0, 6.0, 7.0, 8.0, 9.0]);
}

#[test]
fn update_of_one_inner_cell() {
    let n = GridIndex::One(3);
    let g = grid(n);
    for old in [false, true] {
        let mut h = vec![Vec4::zero(); 3];
        let mut dn = vec![v4(0.0, 10.0, 0.0); 3];
        let mut en = vec![v4(0.0, 0.0, 0.0), v4(0.0, 1.0, 0.0), v4(0.0, 3.0, 0.0)];
        let mut ints = vec![PmlIntegrals::default(); 3];
        let coeffs = vec![simple_coeffs(); 3];
        let terms = vec![SourceTerms::default(); 3];
        let mut steps: u32 = 7;
        for t in threads(g.n_cells3) {
            if old {
                gpu_lossy_update_old(
                    t, &g, &mut steps, &mut h, &mut dn, &mut en, &mut ints, &coeffs, &terms,
                );
            } else {
                gpu_lossy_update(
                    t, &g, &mut steps, &mut h, &mut dn, &mut en, &mut ints, &coeffs, &terms,
                );
            }
        }
        // curl of E along x: -(3 - 1) * 2; curl of H along y: (2 - 0) * 2
        assert_eq!(h[1].x, F(2.0));
        assert_eq!(dn[1].y, F(12.0));
        assert_eq!(en[1].y, F(3.0));
        assert_eq!(steps, 8);
        // the boundary keeps its fields
        assert_eq!((h[0], dn[0], en[2]), (Vec4::zero(), v4(0.0, 10.0, 0.0), v4(0.0, 3.0, 0.0)));
    }
}

#[test]
fn source_terms_are_added_after_the_update() {
    let n = GridIndex::One(3);
    let g = grid(n);
    let mut h = vec![Vec4::zero(); 3];
    let mut dn = vec![Vec4::zero(); 3];
    let mut en = vec![Vec4::zero(); 3];
    let mut ints = vec![PmlIntegrals::default(); 3];
    let coeffs = vec![simple_coeffs(); 3];
    let terms = vec![SourceTerms { h: v4(1.0, 0.0, 0.0), dn: v4(0.0, 8.0, 0.0) }; 3];
    let mut steps: u32 = 0;
    gpu_lossy_update(
        UVec3::new(0, 0, 1), &g, &mut steps, &mut h, &mut dn, &mut en, &mut ints, &coeffs, &terms,
    );
    assert_eq!(h[1].x, F(1.0));
    // half of the curl (1 - 0) * 2, and the source
    assert_eq!(dn[1].y, F(9.0));
    assert_eq!(en[1].y, F(2.25));
}

fn clamped_grid(n_cells: GridIndex, mode: GpuPolarizationMode) -> GridParameters2<F> {
    GridParameters2 {
        dim: n_cells.get_dim(),
        flat_idx_incrs: compute_flat_idx_incrs(n_cells),
        n_cells3: n_cells.n_cells_to_3d(),
        d: Vec3::splat(&F(0.5)),
        polarization_mode: mode,
    }
}

#[test]
fn polarized_update_of_a_border_cell() {
    let n = GridIndex::One(2);
    let g = clamped_grid(n, GpuPolarizationMode::tm(Dim::One));
    let mut h = vec![Vec4::zero(); 2];
    let mut dn = vec![v4(0.0, 10.0, 0.0); 2];
    let mut en = vec![v4(0.0, 1.0, 0.0), v4(0.0, 3.0, 0.0)];
    let mut ints = vec![PmlIntegrals::default(); 2];
    let coeffs = vec![simple_coeffs(); 2];
    let dipoles = vec![PlainDipole { cell_idx: 0, vals_range: [0, 1], t_start: 0 }];
    let mut steps: u32 = 0;
    polarized::fdtd_lossy(
        UVec3::splat(0), &mut h, &mut dn, &mut en, &mut ints, &coeffs, &dipoles,
        &vec![F(5.0), F(6.0)], &mut steps, &g,
    );
    assert_eq!(h[0], v4(2.0, 0.0, 0.0));
    // the neighbour before the border counts as zero
    assert_eq!(dn[0], v4(0.0, 17.0, 0.0));
    assert_eq!(en[0], v4(0.0, 4.25, 0.0));
    assert_eq!(ints[0].en.y, F(1.0));
    assert_eq!(steps, 1);
    polarized::fdtd_lossy(
        UVec3::new(0, 0, 2), &mut h, &mut dn, &mut en, &mut ints, &coeffs, &dipoles,
        &vec![F(5.0), F(6.0)], &mut steps, &g,
    );
    assert_eq!(steps, 1);
    assert_eq!(dn[1], v4(0.0, 10.0, 0.0));
}

#[test]
fn polarized_source_drives_h_in_the_other_mode() {
    let n = GridIndex::One(2);
    let g = clamped_grid(n, GpuPolarizationMode::te(Dim::One));
    let mut h = vec![Vec4::zero(); 2];
    let mut dn = vec![Vec4::zero(); 2];
    let mut en = vec![Vec4::zero(); 2];
    let mut ints = vec![PmlIntegrals::default(); 2];
    let coeffs = vec![simple_coeffs(); 2];
    let dipoles = vec![PlainDipole { cell_idx: 0, vals_range: [0, 0], t_start: 0 }];
    let mut steps: u32 = 0;
    polarized::fdtd_lossy(
        UVec3::splat(0), &mut h, &mut dn, &mut en, &mut ints, &coeffs, &dipoles, &vec![F(5.0)],
        &mut steps, &g,
    );
    assert_eq!(h[0], v4(0.0, 5.0, 0.0));
    // curl of H along x: -(5 - 0) / 0.5
    assert_eq!(dn[0], v4(-5.0, 0.0, 0.0));
}

#[test]
fn tabled_updates_of_a_border_cell() {
    let n = GridIndex::One(2);
    let g = clamped_grid(n, GpuPolarizationMode::tm(Dim::One));
    let zero = F(0.0);
    let coeffs = vec![
        tabled::PmlCoefficients2 {
            h_coeffs: [[F(1.0), F(-0.5), zero, zero]; 3],
            dn_coeffs: [[F(1.0), F(0.5), zero, F(2.0), zero, zero]; 3],
            en_coeffs: [F(0.25); 3],
        };
        2
    ];
    let dipoles = vec![PlainDipole { cell_idx: 0, vals_range: [0, 0], t_start: 0 }];
    let vals = vec![F(5.0)];
    for in_place in [false, true] {
        let mut h = vec![v4(0.0, 7.0, 0.0); 2];
        let mut dn = vec![v4(0.0, 10.0, 0.0); 2];
        let mut en = vec![v4(0.0, 1.0, 0.0), v4(0.0, 3.0, 0.0)];
        let mut ints =
            vec![tabled::IntegrationTerms { h: [[zero; 2]; 3], dn: [[zero; 3]; 3] }; 2];
        let mut steps: u32 = 0;
        let first = UVec3::splat(0);
        if in_place {
            tabled::fdtd_lossy_v2(
                first, &mut h, &mut dn, &mut en, &mut ints, &coeffs, &dipoles, &vals, &mut steps,
                &g,
            );
            assert_eq!(h[0], v4(2.0, 7.0, 0.0));
        } else {
            tabled::fdtd_lossy(
                first, &mut h, &mut dn, &mut en, &mut ints, &coeffs, &dipoles, &vals, &mut steps,
                &g,
            );
            assert_eq!(h[0], v4(2.0, 0.0, 0.0));
        }
        // with the loss: twice the sum of E
        assert_eq!(dn[0], v4(0.0, 19.0, 0.0));
        assert_eq!(en[0], v4(0.0, 4.75, 0.0));
        assert_eq!(ints[0].dn[1][0], F(1.0));
        assert_eq!(steps, 1);
    }
}

#[test]
fn whole_vector_update_of_a_border_cell() {
    let n = GridIndex::One(2);
    let g = clamped_grid(n, GpuPolarizationMode::tm(Dim::One));
    let mut h = vec![Vec4::zero(); 2];
    let mut dn = vec![v4(0.0, 10.0, 0.0); 2];
    let mut en = vec![v4(0.0, 1.0, 0.0), v4(0.0, 3.0, 0.0)];
    let mut ints = vec![PmlIntegrals::default(); 2];
    let coeffs = vec![simple_coeffs(); 2];
    let dipoles = vec![PlainDipole { cell_idx: 0, vals_range: [0, 0], t_start: 0 }];
    let mut steps: u32 = 0;
    whole_vector::fdtd_lossy_v2(
        UVec3::splat(0), &mut h, &mut dn, &mut en, &mut ints, &coeffs, &dipoles, &vec![F(5.0)],
        &mut steps, &g,
    );
    assert_eq!(h[0], v4(2.0, 0.0, 0.0));
    // the source is added to every component
    assert_eq!((dn[0].x, dn[0].y, dn[0].z), (F(5.0), F(17.0), F(5.0)));
    assert_eq!(en[0].y, F(4.25));
    assert_eq!(ints[0].en.y, F(1.0));
    assert_eq!(steps, 1);
}

#[test]
fn single_component_update() {
    let mut h = vec![F(2.0), F(0.0), F(9.0)];
    let mut dn = vec![F(10.0), F(0.0), F(0.0)];
    let mut en = vec![F(1.0), F(3.0), F(5.0)];
    let mut sums = vec![F(0.0); 3];
    let m = fdtd1::PmlCoefficients {
        h_x_coeffs: Vec2 { x: F(1.0), y: F(0.5) },
        en_y_coeff: F(0.5),
        dn_y_coeffs: Vec4 { x: F(1.0), y: F(2.0), z: F(3.0), w: F(4.0) },
    };
    let coeffs = vec![m; 3];
    let g = fdtd1::GridParameters { dz: F(0.5) };
    fdtd1::fdtd1_dn_y(UVec3::new(0, 0, 0), &mut h, &mut dn, &mut en, &mut sums, &coeffs, &g);
    assert_eq!(h, vec![F(-2.0), F(0.0), F(9.0)]);
    assert_eq!(dn, vec![F(9.0), F(0.0), F(0.0)]);
    assert_eq!(en, vec![F(4.5), F(3.0), F(5.0)]);
    assert_eq!(sums, vec![F(1.0), F(0.0), F(0.0)]);
    fdtd1::fdtd1_dn_y(UVec3::new(3, 0, 0), &mut h, &mut dn, &mut en, &mut sums, &coeffs, &g);
    assert_eq!(sums, vec![F(1.0), F(0.0), F(0.0)]);
}

fn state(n_cells: GridIndex) -> FdtdLossyState<F> {
    let count = n_cells.element_product() as usize;
    let n = n_cells.n_cells_to_3d();
    FdtdLossyState {
        grid_params: grid(n_cells),
        t_idx: 0,
        h: counted(n_cells),
        dn: counted(n_cells),
        en: counted(n_cells),
        dipoles: vec![GpuDipole::default()],
        plane_waves: vec![GpuPlaneWave::zero(n_cells.get_dim())],
        tfsf_dispatch_data: TfsfDispatchData {
            tfsf_sources: vec![GpuTfsf::default()],
            tfsf_masks: vec![],
            corrections: vec![],
            auxgr_coeffs: vec![],
            h: vec![],
            dn: vec![],
            en: vec![],
            aux_grid_thread_count: None,
            mask_init_thread_count: None,
        },
        source_vals: vec![F(0.0)],
        source_terms: vec![SourceTerms::default(); count],
        int_terms: vec![PmlIntegrals::default(); count],
        grid_coeffs: vec![simple_coeffs(); count],
        thread_count: [n.x, n.y, n.z],
        n_cells,
    }
}

#[test]
fn launches_run_all_threads() {
    let mut s = state(GridIndex::Two(4, 3));
    let threads = s.grid_params.n_cells3;
    run_launch(&mut s, &Launch { kernel: Kernel::PecBoundary, threads });
    assert_eq!(xs(&s.h), vec![0.0, 0.0, 0.0, 0.0, 0.0, 6.0, 7.0, 0.0, 0.0, 0.0, 0.0, 0.0]);
    let mut s = state(GridIndex::Two(3, 3));
    let threads = s.grid_params.n_cells3;
    run_launch(&mut s, &Launch { kernel: Kernel::PeriodicEn(SpatialAxis::X), threads });
    assert_eq!(xs(&s.en), vec![1.0, 2.0, 2.0, 4.0, 5.0, 5.0, 7.0, 8.0, 8.0]);
    run_launch(&mut s, &Launch { kernel: Kernel::PeriodicH(SpatialAxis::Y), threads });
    assert_eq!(xs(&s.h), vec![4.0, 5.0, 6.0, 4.0, 5.0, 6.0, 7.0, 8.0, 9.0]);
}

#[test]
fn update_launch_counts_one_step() {
    for (n, counted) in [
        (GridIndex::One(5), 1),
        (GridIndex::One(2), 0),
        (GridIndex::Two(3, 3), 1),
        (GridIndex::Two(3, 2), 0),
        (GridIndex::Three(3, 4, 3), 1),
    ] {
        let mut s = state(n);
        let threads = s.grid_params.n_cells3;
        run_launch(&mut s, &Launch { kernel: Kernel::LossyUpdate, threads });
        assert_eq!(s.t_idx, counted);
    }
}

fn kernels(pass: &Pass) -> Vec<Kernel> {
    pass.launches.iter().map(|l| l.kernel).collect()
}

#[test]
fn step_records_boundary_sources_and_update() {
    let s = state(GridIndex::Two(4, 3));
    let mut pipeline = FdtdLossyPipeline::new(PECBoundary {}, 2);
    let mut pass = Pass::new();
    pipeline.initialize(&mut pass, &s);
    assert_eq!(kernels(&pass), vec![]);
    assert_eq!(pipeline.dispatch_steps::<F, ()>(&mut pass, &s), Ok(()));
    let step = vec![Kernel::PecBoundary, Kernel::ComputeSourceTerms, Kernel::LossyUpdate];
    assert_eq!(kernels(&pass), [step.clone(), step].concat());
    assert!(pass.launches.iter().all(|l| l.threads == UVec3::new(4, 3, 1)));
}

#[test]
fn step_with_plane_waves_updates_their_grids() {
    let mut s = state(GridIndex::One(5));
    s.tfsf_dispatch_data.aux_grid_thread_count = Some([1, 1, 9]);
    s.tfsf_dispatch_data.mask_init_thread_count = Some([1, 1, 5]);
    let (mut pipeline, init) = FdtdLossyPipeline::new_initialized(PECBoundary {}, 1, &s);
    assert_eq!(
        init.launches,
        vec![Launch { kernel: Kernel::InitTfsfMasks, threads: UVec3::new(1, 1, 5) }]
    );
    let mut pass = Pass::new();
    assert_eq!(pipeline.dispatch_steps::<F, ()>(&mut pass, &s), Ok(()));
    assert_eq!(
        kernels(&pass),
        vec![
            Kernel::PecBoundary,
            Kernel::AuxGridUpdate,
            Kernel::ComputeSourceTerms,
            Kernel::LossyUpdate
        ]
    );
    assert_eq!(pass.launches[1].threads, UVec3::new(1, 1, 9));
}

#[test]
fn boundary_condition_records_its_kernel() {
    let mut pass = Pass::new();
    let s = state(GridIndex::Two(4, 3));
    let called: Result<(), ()> =
        PECBoundary {}.call(&mut pass, &s.grid_params, &s.h, &s.dn, &s.en, [4, 3, 1]);
    assert_eq!(called, Ok(()));
    assert_eq!(
        pass.launches,
        vec![Launch { kernel: Kernel::PecBoundary, threads: UVec3::new(4, 3, 1) }]
    );
}

#[test]
fn boundary_conditions_run_axis_by_axis() {
    let s = state(GridIndex::Three(3, 3, 3));
    let mut bc = BoundaryConditions::new(PeriodicBoundaryX {}, PECBoundaryY {}, PeriodicBoundaryZ {});
    let mut pass = Pass::new();
    assert_eq!(bc.initialize::<F, ()>(&mut pass, &s), Ok(()));
    assert_eq!(kernels(&pass), vec![Kernel::PecBoundaryInit(SpatialAxis::Y)]);
    let mut pass = Pass::new();
    assert_eq!(bc.pre_update::<F, ()>(&mut pass, &s), Ok(()));
    assert_eq!(
        kernels(&pass),
        vec![Kernel::PeriodicEn(SpatialAxis::X), Kernel::PeriodicEn(SpatialAxis::Z)]
    );
    let mut pass = Pass::new();
    assert_eq!(bc.before_de_update::<F, ()>(&mut pass, &s), Ok(()));
    assert_eq!(
        kernels(&pass),
        vec![Kernel::PeriodicH(SpatialAxis::X), Kernel::PeriodicH(SpatialAxis::Z)]
    );
}

#[test]
fn boundary_conditions_of_lower_dimensions() {
    let mut pass = Pass::new();
    let mut line = BoundaryConditions::new_1d(PECBoundaryZ {});
    assert_eq!(line.initialize::<F, ()>(&mut pass, &state(GridIndex::One(4))), Ok(()));
    assert_eq!(line.pre_update::<F, ()>(&mut pass, &state(GridIndex::One(4))), Ok(()));
    assert_eq!(kernels(&pass), vec![Kernel::PecBoundaryInit(SpatialAxis::Z)]);
    let mut pass = Pass::new();
    let mut plane = BoundaryConditions::new_2d(PECBoundaryX {}, PeriodicBoundaryY {});
    assert_eq!(plane.pre_update::<F, ()>(&mut pass, &state(GridIndex::Two(4, 4))), Ok(()));
    assert_eq!(kernels(&pass), vec![Kernel::PeriodicEn(SpatialAxis::Y)]);
}

#[test]
fn kernels_compute_formulas() {
    let n = GridIndex::One(3);
    let dup = |v: &Vec4<Expr>| v.dup();
    let input = |i: u32| Vec4 {
        x: Expr::Input(10 * i),
        y: Expr::Input(10 * i + 1),
        z: Expr::Input(10 * i + 2),
        w: Expr::Nat(0),
    };
    let g = GridParameters {
        dim: Dim::One,
        flat_idx_incrs: compute_flat_idx_incrs(n),
        polarization_mode_index: PolarizationModeIndex::tm(),
        n_cells3: n.n_cells_to_3d(),
        dt: Expr::Nat(1),
        d: Vec3::splat(&Expr::Nat(1)),
        inv_dt: Expr::Nat(1),
        inv_d: Vec3::splat(&Expr::Input(99)),
        cell_count: 3,
        problem_space_min: UVec3::splat(1),
        problem_space_max: UVec3::splat(1),
    };
    let mut en = vec![input(1), input(2), input(3)];
    let mut h = vec![input(4), input(5), input(6)];
    let mut dn = vec![input(7), input(8), input(9)];
    gpu_periodic_z_en(UVec3::new(0, 0, 2), &g, &mut en);
    assert_eq!(dup(&en[2]), input(2));
    gpu_pec_boundary(UVec3::new(0, 0, 0), &g, &mut h, &mut dn, &mut en);
    assert_eq!(dup(&h[0]), Vec4::zero());
    assert_eq!(dup(&h[1]), input(5));
}

/// A boundary condition with a kernel of its own, which fails in one of its calls.
struct Failing {
    calls: u32,
    fails_at: u32,
}

impl Failing {
    fn count(&mut self, pass: &mut Pass, thread_count: [u32; 3]) -> Result<(), u32> {
        self.calls += 1;
        if self.calls == self.fails_at {
            return Err(self.calls);
        }
        pass.dispatch(Kernel::Own(5), thread_count);
        Ok(())
    }
}

impl BoundaryCondition<F, u32> for Failing {
    fn recorded(self, _: CallArgs<F>) -> Launches {
        unreachable!()
    }
    fn outcome(self, _: CallArgs<F>) -> Result<(), u32> {
        unreachable!()
    }
    fn after_call(self, _: CallArgs<F>) -> Self {
        unreachable!()
    }
    fn call(
        &mut self,
        pass: &mut Pass,
        _grid: &GridParameters<F>,
        _h: &Vec<Vec4<F>>,
        _dn: &Vec<Vec4<F>>,
        _en: &Vec<Vec4<F>>,
        thread_count: [u32; 3],
    ) -> Result<(), u32> {
        self.count(pass, thread_count)
    }
}

#[test]
fn first_error_ends_the_steps() {
    let s = state(GridIndex::Two(4, 3));
    for fails_at in 1..5 {
        let mut pipeline = FdtdLossyPipeline::new(Failing { calls: 0, fails_at }, 4);
        let mut pass = Pass::new();
        assert_eq!(pipeline.dispatch_steps(&mut pass, &s), Err(fails_at));
        assert_eq!(pipeline.boundary_condition.calls, fails_at);
        let step = vec![Kernel::Own(5), Kernel::ComputeSourceTerms, Kernel::LossyUpdate];
        assert_eq!(kernels(&pass), step.repeat(fails_at as usize - 1));
    }
    let mut pipeline = FdtdLossyPipeline::new(Failing { calls: 0, fails_at: 5 }, 4);
    let mut pass = Pass::new();
    assert_eq!(pipeline.dispatch_steps(&mut pass, &s), Ok(()));
    assert_eq!(pass.launches.len(), 12);
    assert_eq!(pipeline.boundary_condition.calls, 4);
}

impl<A: BoundaryAxis> AxisCondition<A, F, u32> for Failing {
    fn recorded(self, _: Stage, _: FdtdLossyState<F>) -> Launches {
        unreachable!()
    }
    fn outcome(self, _: Stage, _: FdtdLossyState<F>) -> Result<(), u32> {
        unreachable!()
    }
    fn after(self, _: Stage, _: FdtdLossyState<F>) -> Self {
        unreachable!()
    }
    fn initialize(&mut self, _: &mut Pass, _: &FdtdLossyState<F>) -> Result<(), u32> {
        Ok(())
    }
    fn pre_update(&mut self, pass: &mut Pass, state: &FdtdLossyState<F>) -> Result<(), u32> {
        self.count(pass, state.thread_count)
    }
    fn before_de_update(&mut self, pass: &mut Pass, state: &FdtdLossyState<F>) -> Result<(), u32> {
        self.count(pass, state.thread_count)
    }
}

#[test]
fn first_error_ends_the_stage() {
    let s = state(GridIndex::Three(3, 3, 3));
    let fine = || Failing { calls: 0, fails_at: 9 };
    let broken = || Failing { calls: 6, fails_at: 7 };
    let mut pass = Pass::new();
    let mut bc = BoundaryConditions::new(fine(), broken(), fine());
    assert_eq!(bc.pre_update(&mut pass, &s), Err(7));
    assert_eq!(kernels(&pass), vec![Kernel::Own(5)]);
    assert_eq!((bc.x_boundary.calls, bc.y_boundary.calls, bc.z_boundary.calls), (1, 7, 0));
    let mut pass = Pass::new();
    let mut bc = BoundaryConditions::new(broken(), fine(), fine());
    assert_eq!(bc.before_de_update(&mut pass, &s), Err(7));
    assert_eq!(kernels(&pass), vec![]);
    assert_eq!(bc.y_boundary.calls, 0);
    let mut bc = BoundaryConditions::new(fine(), fine(), broken());
    assert_eq!(bc.pre_update(&mut pass, &s), Err(7));
    assert_eq!(kernels(&pass), vec![Kernel::Own(5), Kernel::Own(5)]);
    assert_eq!(bc.initialize(&mut pass, &s), Ok(()));
}

#[test]
fn sums_are_stored_and_loss_is_taken() {
    let lossy = PmlCoefficients {
        h3: Vec4::splat(&F(2.0)),
        h4: Vec4::splat(&F(4.0)),
        dn_loss1: Vec4::splat(&F(-1.0)),
        dn_loss2: Vec4::splat(&F(-2.0)),
        ..simple_coeffs()
    };
    let run = |n: GridIndex, old: bool, times: usize| {
        let g = grid(n);
        let count = n.element_product() as usize;
        let mut h = vec![v4(1.0, 1.0, 1.0); count];
        let mut dn = vec![v4(10.0, 10.0, 10.0); count];
        let mut en = vec![v4(1.0, 1.0, 1.0); count];
        let mut ints = vec![PmlIntegrals::default(); count];
        let coeffs = vec![lossy; count];
        let terms = vec![SourceTerms::default(); count];
        let mut steps: u32 = 0;
        let c = n.n_cells_to_3d();
        let cell = UVec3::new(c.x / 2, c.y / 2, c.z / 2);
        for _ in 0..times {
            if old {
                gpu_lossy_update_old(
                    cell, &g, &mut steps, &mut h, &mut dn, &mut en, &mut ints, &coeffs, &terms,
                );
            } else {
                gpu_lossy_update(
                    cell, &g, &mut steps, &mut h, &mut dn, &mut en, &mut ints, &coeffs, &terms,
                );
            }
        }
        let i = g.cell_place(&cell);
        (h[i], dn[i], ints[i], ints[0])
    };
    // no field differs between neighbours, so H stays and D loses 1 + 2 times E
    let (h, dn, ints, corner) = run(GridIndex::One(3), false, 1);
    assert_eq!(h, v4(1.0, 1.0, 1.0));
    assert_eq!(dn, v4(7.0, 7.0, 10.0));
    assert_eq!(ints.en, v4(1.0, 1.0, 1.0));
    assert_eq!((ints.h, ints.dn), (Vec4::zero(), Vec4::zero()));
    assert_eq!(corner.en, Vec4::zero());
    // E is then a quarter of D: 1.75, and the sum of E is 2.75. E now differs from its neighbours,
    // so H becomes 1.75 and its curl takes another 0.75 from D
    let (h, dn, ints, _) = run(GridIndex::One(3), false, 2);
    assert_eq!(h.y, F(1.75));
    assert_eq!(dn.x, F(7.0 - 0.75 - 1.75 - 5.5));
    assert_eq!(ints.en.x, F(2.75));
    // in a plane the z component of H remembers itself
    let (h, _, ints, _) = run(GridIndex::Two(3, 3), false, 1);
    assert_eq!(h, v4(1.0, 1.0, 5.0));
    assert_eq!(ints.h, v4(1.0, 1.0, 1.0));
    assert_eq!(ints.dn, v4(10.0, 10.0, 10.0));
    assert_eq!(ints.en_curl, Vec4::zero());
    // the other update sums only what it reads
    let (_, dn, ints, _) = run(GridIndex::One(3), true, 1);
    assert_eq!((dn.x, dn.y), (F(9.0), F(9.0)));
    assert_eq!(ints.en, v4(0.0, 0.0, 1.0));
    let (_, _, ints, _) = run(GridIndex::Two(3, 3), true, 1);
    assert_eq!(ints.en, v4(1.0, 1.0, 0.0));
    assert_eq!(ints.h, v4(0.0, 0.0, 1.0));
    assert_eq!(ints.dn, v4(0.0, 0.0, 10.0));
    let (_, _, ints, _) = run(GridIndex::Three(3, 3, 3), true, 1);
    assert_eq!(ints.dn, v4(10.0, 10.0, 10.0));
}

#[test]
fn updates_agree_in_1d_without_loss() {
    let g = grid(GridIndex::One(4));
    let run = |old: bool| {
        let mut h: Vec<_> = (0..4).map(|i| v4(i as f32, 2.0 - i as f32, 0.0)).collect();
        let mut dn: Vec<_> = (0..4).map(|i| v4(0.5 * i as f32, 1.0, 0.0)).collect();
        let mut en: Vec<_> = (0..4).map(|i| v4(3.0, i as f32 * i as f32, 0.0)).collect();
        let mut ints = vec![PmlIntegrals::default(); 4];
        let coeffs = vec![simple_coeffs(); 4];
        let terms = vec![SourceTerms { h: v4(1.0, 0.5, 0.0), dn: v4(0.0, 8.0, 0.0) }; 4];
        let mut steps: u32 = 0;
        for t in threads(g.n_cells3) {
            if old {
                gpu_lossy_update_old(
                    t, &g, &mut steps, &mut h, &mut dn, &mut en, &mut ints, &coeffs, &terms,
                );
            } else {
                gpu_lossy_update(
                    t, &g, &mut steps, &mut h, &mut dn, &mut en, &mut ints, &coeffs, &terms,
                );
            }
        }
        (h, dn, en, steps)
    };
    assert_eq!(run(false), run(true));
}

#[test]
fn masks_go_by_the_cell() {
    // two equal plane waves get equal masks, whichever threads compute them
    let source = GpuTfsf {
        a: Axis::X,
        a1: Axis::Y,
        a2: Axis::Z,
        tf_min_a: 2,
        tf_min_a1: 2,
        tf_min_a2: 2,
        tf_max_a: 3,
        tf_max_a1: 3,
        tf_max_a2: 3,
        vals_end: 1,
        ..GpuTfsf::default()
    };
    let n = GridIndex::Three(6, 6, 6);
    let g = grid(n);
    let mut masks = vec![TfsfMask::default(); 2 * 216];
    for z in 0..12 {
        for y in 0..6 {
            for x in 0..6 {
                init_tfsf_masks(UVec3::new(x, y, z), &g, &vec![source, source], &mut masks);
            }
        }
    }
    let on = |m: &TfsfMask<F>| {
        [m.h_src_a1_ma, m.h_src_a1_ma2, m.en_src_a1_pa, m.en_src_a1_pa2].map(|v| v.0 != 0.0)
    };
    let first: Vec<_> = masks[..216].iter().map(on).collect();
    let second: Vec<_> = masks[216..].iter().map(on).collect();
    assert_eq!(first, second);
    assert!(first.iter().any(|m| m[1]));
    assert!(first.iter().any(|m| m[3]));
}

#[test]
fn defaults_are_zero() {
    assert_eq!(GridParameters::<F>::default().n_cells3, UVec3::splat(0));
    assert_eq!(GridParameters::<F>::default().inv_d, Vec3::splat(&F(0.0)));
    assert!(GridParameters2::<F>::default().polarization_mode.is_tm());
    assert_eq!(
        PlainDipole::default(),
        PlainDipole { cell_idx: 0, vals_range: [0, 0], t_start: 0 }
    );
    assert_eq!(tabled::PmlCoefficients2::<F>::default().dn_coeffs, [[F(0.0); 6]; 3]);
    assert_eq!(tabled::PmlCoefficients2::<F>::default().h_coeffs, [[F(0.0); 4]; 3]);
    assert_eq!(tabled::IntegrationTerms::<F>::default().dn, [[F(0.0); 3]; 3]);
    assert_eq!(fdtd1::GridParameters::<F>::default().dz, F(0.0));
    assert_eq!(fdtd1::PmlCoefficients::<F>::default().dn_y_coeffs, Vec4::zero());
}

#[test]
fn updates_agree_in_1d_whatever_the_sign_of_zero() {
    let g = grid(GridIndex::One(3));
    let minus = Vec4 { x: F(-0.0), y: F(2.0), z: F(-0.0), w: F(-0.0) };
    let run = |old: bool| {
        let mut h = vec![minus; 3];
        let mut dn = vec![minus; 3];
        let mut en = vec![v4(0.0, -0.0, 0.0), minus, v4(-3.0, 1.0, -0.0)];
        let mut ints = vec![PmlIntegrals::default(); 3];
        let coeffs = vec![PmlCoefficients { h3: Vec4::splat(&F(-7.0)), ..simple_coeffs() }; 3];
        let terms = vec![SourceTerms { h: minus, dn: v4(0.0, 0.0, -0.0) }; 3];
        let mut steps: u32 = 4;
        let cell = UVec3::new(0, 0, 1);
        if old {
            gpu_lossy_update_old(
                cell, &g, &mut steps, &mut h, &mut dn, &mut en, &mut ints, &coeffs, &terms,
            );
        } else {
            gpu_lossy_update(
                cell, &g, &mut steps, &mut h, &mut dn, &mut en, &mut ints, &coeffs, &terms,
            );
        }
        (h, dn, en, steps)
    };
    let (h, dn, en, steps) = run(false);
    assert_eq!((h.clone(), dn, en, steps), run(true));
    assert_eq!(steps, 5);
    // the curl of E along x is -(1 - 2) * 2, and the source adds -0
    assert_eq!(h[1].x, F(-1.0));
}

#[test]
fn literals_rank_above_other_formulas() {
    let (two, three, input) = (Expr::Nat(2), Expr::Nat(3), Expr::Input(0));
    assert!(three.ranks_above(&two) && !two.ranks_above(&three) && !two.ranks_above(&two));
    assert!(two.ranks_above(&input) && !input.ranks_above(&two) && !input.ranks_above(&input));
}
