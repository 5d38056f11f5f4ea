//! Preparing the plane waves of a simulation.
use crate::axis::{Axis, Dim, SpatialAxis};
use crate::layers::LayerWidths;
use crate::materials::ElectricMaterial;
use crate::nonzero::{NonZeroI32, NonZeroU32};
use crate::params::{AuxGridPmlCoeffs, AuxVect, GpuTfsf, TfsfMask, TfsfSourceValues, WaveDirection};
use crate::pml::FreeSpace;
use crate::scalar::Scalar;
use crate::source::Source;
use crate::vector::{UVec3, Vec2, Vec3};
use vstd::prelude::*;

verus! {

#[derive(Clone, Debug)]
pub struct TfsfParameters<S> {
    pub pml_width: NonZeroU32,
    pub pml_sig_max: S,
    pub pml_grading_order: NonZeroI32,
}

/// What a simulation hands to every plane wave.
pub struct TfsfSetup<S> {
    pub parameters: TfsfParameters<S>,
    pub dt: S,
    pub background: ElectricMaterial<S>,
    pub space: FreeSpace<S>,
    /// The reciprocal cell size, zero along axes that are not spatial.
    pub inv_d: Vec3<S>,
    pub problem_space_min: UVec3,
    pub problem_space_max: UVec3,
}

/// The distance of `i` from the end of the auxiliary grid at which the wave leaves it, in half
/// cells.
pub open spec fn end_distance(n_cells: u32, direction: WaveDirection, i: int) -> int {
    match direction {
        WaveDirection::Positive => 2 * n_cells - 1 - i,
        WaveDirection::Negative => i,
    }
}

impl<S: Scalar> TfsfSetup<S> {
    /// The conductivity of the absorbing layer of an auxiliary grid, `i` half cells from its start.
    pub open spec fn aux_sig(self, n_cells: u32, direction: WaveDirection, i: int) -> S {
        let p = self.parameters;
        let dist = S::of_nat_spec(end_distance(n_cells, direction, i) as u32);
        let interp = (S::one_spec() - dist.over_spec(
            S::of_nat_spec((p.pml_width@ * 2) as u32),
        )).clamp_unit_spec();
        p.pml_sig_max * interp.powi_spec(p.pml_grading_order@)
    }

    fn compute_aux_sig(&self, n_cells: u32, direction: WaveDirection, i: u32) -> (r: S)
        requires
            2 * n_cells <= u32::MAX,
            i < 2 * n_cells,
            self.parameters.pml_width@ * 2 <= u32::MAX,
        ensures
            r == self.aux_sig(n_cells, direction, i as int),
    {
        let p = &self.parameters;
        let dist: u32 = match direction {
            WaveDirection::Positive => (2 * n_cells - 1) - i,
            WaveDirection::Negative => i,
        };
        let width: S = S::of_nat(p.pml_width.get() * 2);
        let interp: S = S::one().minus(&S::of_nat(dist).over(&width)).clamp_unit();
        p.pml_sig_max.times(&interp.powi(p.pml_grading_order.get()))
    }

    /// The coefficients of the cell `i` of an auxiliary grid of `n_cells` cells.
    pub open spec fn aux_coefficients(
        self,
        a1: Axis,
        a2: Axis,
        n_cells: u32,
        direction: WaveDirection,
        i: int,
    ) -> AuxGridPmlCoeffs<S> {
        let two_eps = S::of_nat_spec(2) * self.space.eps_0;
        let inv_dt = self.dt.recip_spec();
        let h_sig = self.aux_sig(n_cells, direction, 2 * i + 1).over_spec(two_eps);
        let dn_sig = self.aux_sig(n_cells, direction, 2 * i).over_spec(two_eps);
        let h_term = Vec2::splat_spec((inv_dt + h_sig).recip_spec());
        let dn_term = Vec2::splat_spec((inv_dt + dn_sig).recip_spec());
        let mu = self.background.mu_r;
        let eps = self.background.eps_r;
        AuxGridPmlCoeffs {
            h1: h_term.scaled_spec(inv_dt - h_sig),
            h2: (-h_term).scaled_spec(self.space.c_0) * Vec2 {
                x: mu.at(a1).recip_spec(),
                y: mu.at(a2).recip_spec(),
            },
            dn1: dn_term.scaled_spec(inv_dt - dn_sig),
            dn2: dn_term.scaled_spec(self.space.c_0),
            en1: Vec2 { x: eps.at(a1).recip_spec(), y: eps.at(a2).recip_spec() },
        }
    }

    fn compute_aux_coefficients(
        &self,
        a1: Axis,
        a2: Axis,
        n_cells: u32,
        direction: WaveDirection,
        i: u32,
    ) -> (r: AuxGridPmlCoeffs<S>)
        requires
            a1.valid(),
            a2.valid(),
            2 * n_cells <= u32::MAX,
            i < n_cells,
            self.parameters.pml_width@ * 2 <= u32::MAX,
        ensures
            r == self.aux_coefficients(a1, a2, n_cells, direction, i as int),
    {
        let two_eps: S = S::of_nat(2).times(&self.space.eps_0);
        let inv_dt: S = self.dt.recip();
        let h_sig: S = self.compute_aux_sig(n_cells, direction, 2 * i + 1).over(&two_eps);
        let dn_sig: S = self.compute_aux_sig(n_cells, direction, 2 * i).over(&two_eps);
        let h_term: Vec2<S> = Vec2::splat(&inv_dt.plus(&h_sig).recip());
        let dn_term: Vec2<S> = Vec2::splat(&inv_dt.plus(&dn_sig).recip());
        let inv_mu: Vec2<S> = Vec2 {
            x: self.background.mu_r.get(a1).recip(),
            y: self.background.mu_r.get(a2).recip(),
        };
        AuxGridPmlCoeffs {
            h1: h_term.scaled(&inv_dt.minus(&h_sig)),
            h2: h_term.negated().scaled(&self.space.c_0).times(&inv_mu),
            dn1: dn_term.scaled(&inv_dt.minus(&dn_sig)),
            dn2: dn_term.scaled(&self.space.c_0),
            en1: Vec2 {
                x: self.background.eps_r.get(a1).recip(),
                y: self.background.eps_r.get(a2).recip(),
            },
        }
    }

    /// The first index of the total field along `axis`.
    pub open spec fn tf_min(self, buffer: LayerWidths, axis: Axis) -> int {
        self.problem_space_min.at(axis) + buffer.at(axis).lo
    }

    /// The last index of the total field along `axis`.
    pub open spec fn tf_max(self, buffer: LayerWidths, axis: Axis) -> int {
        self.problem_space_max.at(axis) - buffer.at(axis).hi
    }

    /// The wavefronts that a source hands over: one per cell of the total field along the axis, and
    /// one on each side of it.
    pub open spec fn correction_cells(self, buffer: LayerWidths, a: Axis) -> int {
        (self.tf_max(buffer, a) - self.tf_min(buffer, a) + 1) + 2
    }

    /// The cells of an auxiliary grid: the wavefronts, the source cell and the absorbing layer.
    pub open spec fn aux_cells(self, buffer: LayerWidths, a: Axis) -> int {
        self.correction_cells(buffer, a) + 1 + self.parameters.pml_width@
    }

    /// The total field lies between the absorbing layers and is not empty along the wave's axis,
    /// and the auxiliary grid can be counted.
    pub open spec fn buffer_fits(self, buffer: LayerWidths, a: Axis) -> bool {
        &&& forall|b: Axis| #[trigger]
            b.valid() ==> self.tf_min(buffer, b) <= u32::MAX && 0 <= self.tf_max(buffer, b)
        &&& self.tf_min(buffer, a) <= self.tf_max(buffer, a)
        &&& 2 * self.aux_cells(buffer, a) <= u32::MAX
        &&& self.parameters.pml_width@ * 2 <= u32::MAX
    }

    /// The source as the kernels read it, where the buffers that it shares with the other sources
    /// already hold as many elements as given.
    pub open spec fn packed(
        self,
        axis: SpatialAxis,
        direction: WaveDirection,
        t_start: S,
        vals_len: int,
        polarization: Vec3<S>,
        buffer: LayerWidths,
        vals_start: int,
        corrections_start: int,
        grid_start: int,
    ) -> GpuTfsf<S> {
        let a = axis.axis();
        let a1 = a.permute_spec();
        let a2 = a1.permute_spec();
        GpuTfsf {
            a,
            a1,
            a2,
            direction,
            tf_min_a: self.tf_min(buffer, a) as u32,
            tf_min_a1: self.tf_min(buffer, a1) as u32,
            tf_min_a2: self.tf_min(buffer, a2) as u32,
            tf_max_a: self.tf_max(buffer, a) as u32,
            tf_max_a1: self.tf_max(buffer, a1) as u32,
            tf_max_a2: self.tf_max(buffer, a2) as u32,
            grid_start: grid_start as u32,
            vals_start: vals_start as u32,
            vals_end: (vals_start + vals_len - 1) as u32,
            t_start: t_start.over_spec(self.dt).to_index_spec(),
            n_cells: self.aux_cells(buffer, a) as u32,
            polarization_a1: polarization.at(a1),
            polarization_a2: polarization.at(a2),
            corrections_start: corrections_start as u32,
            num_correction_cells: self.correction_cells(buffer, a) as u32,
            inv_d_a: self.inv_d.at(a),
            inv_d_a1: self.inv_d.at(a1),
            inv_d_a2: self.inv_d.at(a2),
        }
    }
}

/// The plane waves of the first sources, with the contents of the buffers that they share.
pub ghost struct TfsfPack<S> {
    pub sources: Seq<GpuTfsf<S>>,
    pub corrections: int,
    pub coeffs: Seq<AuxGridPmlCoeffs<S>>,
    pub vals: Seq<S>,
    pub max_cells: int,
}

impl<S: Scalar> TfsfSetup<S> {
    /// The plane waves among the first `k` sources; `vals` are the values that other sources have
    /// stored before.
    pub open spec fn pack(self, sources: Seq<Source<S>>, vals: Seq<S>, k: nat) -> TfsfPack<S>
        decreases k,
    {
        if k == 0 {
            TfsfPack { sources: seq![], corrections: 0, coeffs: seq![], vals, max_cells: 0 }
        } else {
            let p = self.pack(sources, vals, (k - 1) as nat);
            match sources[k - 1] {
                Source::TFSF {
                    spatial_axis,
                    direction,
                    t_start,
                    vals: signal,
                    polarization,
                    tfsf_buffer_width,
                } => {
                    let a = spatial_axis.axis();
                    let a1 = a.permute_spec();
                    let a2 = a1.permute_spec();
                    let n = self.aux_cells(tfsf_buffer_width, a);
                    TfsfPack {
                        sources: p.sources.push(
                            self.packed(
                                spatial_axis,
                                direction,
                                t_start,
                                signal@.len() as int,
                                polarization,
                                tfsf_buffer_width,
                                p.vals.len() as int,
                                p.corrections,
                                p.coeffs.len() as int,
                            ),
                        ),
                        corrections: p.corrections + self.correction_cells(tfsf_buffer_width, a),
                        coeffs: p.coeffs + Seq::new(
                            n as nat,
                            |i: int| self.aux_coefficients(a1, a2, n as u32, direction, i),
                        ),
                        vals: p.vals + signal@,
                        max_cells: crate::source_terms::larger_int(p.max_cells, n),
                    }
                },
                _ => p,
            }
        }
    }

    /// The plane waves among the first `k` sources have a total field, and their shared buffers can
    /// be counted and hold a value.
    pub open spec fn packs(self, sources: Seq<Source<S>>, vals: Seq<S>, k: nat) -> bool {
        forall|j: int|
            0 <= j < k ==> (#[trigger] sources[j] matches Source::TFSF {
                spatial_axis,
                tfsf_buffer_width,
                ..
            } ==> {
                let p = self.pack(sources, vals, (j + 1) as nat);
                &&& self.buffer_fits(tfsf_buffer_width, spatial_axis.axis())
                &&& p.corrections <= u32::MAX
                &&& p.coeffs.len() <= u32::MAX
                &&& 1 <= p.vals.len() <= u32::MAX
            })
    }
}

/// Append copies of `from` to `to`.
pub fn extend_from<S: Scalar>(to: &mut Vec<S>, from: &Vec<S>)
    ensures
        final(to)@ == old(to)@ + from@,
{
    for i in 0..from.len()
        invariant
            to@ == old(to)@ + from@.take(i as int),
    {
        to.push(from[i].dup());
        assert(from@.take(i + 1) =~= from@.take(i as int).push(from[i as int]));
        assert(to@ =~= old(to)@ + from@.take(i + 1));
    }
    assert(from@.take(from.len() as int) =~= from@);
}

/// Buffers and data of the plane waves.
#[derive(Clone, Debug)]
pub struct TfsfDispatchData<S> {
    pub tfsf_sources: Vec<GpuTfsf<S>>,
    pub tfsf_masks: Vec<TfsfMask<S>>,
    pub corrections: Vec<TfsfSourceValues<S>>,
    pub auxgr_coeffs: Vec<AuxGridPmlCoeffs<S>>,
    pub h: Vec<AuxVect<S>>,
    pub dn: Vec<AuxVect<S>>,
    pub en: Vec<AuxVect<S>>,
    /// Thread count for simulating auxiliary grids for ALL plane waves.
    ///
    /// Is [`None`] only when there are no TF/SF sources.
    pub aux_grid_thread_count: Option<[u32; 3]>,
    pub mask_init_thread_count: Option<[u32; 3]>,
}

impl<S: Scalar> TfsfDispatchData<S> {
    /// The buffers hold the plane waves of `p`, before the first step. Buffers that would be empty
    /// hold one unused element, and no threads are needed without a plane wave.
    pub open spec fn lays_out(self, p: TfsfPack<S>, dim: Dim, n_cells3: UVec3) -> bool {
        let count = p.sources.len();
        let masks = count * n_cells3.product_spec();
        &&& self.h@ == Seq::new(p.coeffs.len(), |i: int| Vec2::splat_spec(S::zero_spec()))
        &&& self.dn@ == self.h@
        &&& self.en@ == self.h@
        &&& if count > 0 {
            &&& self.tfsf_sources@ == p.sources
            &&& self.corrections@ == Seq::new(
                p.corrections as nat,
                |i: int| TfsfSourceValues::<S>::zero_spec(),
            )
            &&& self.auxgr_coeffs@ == p.coeffs
            &&& self.aux_grid_thread_count matches Some(t) && t@ == seq![
                count as u32,
                1u32,
                p.max_cells as u32,
            ]
            &&& self.mask_init_thread_count matches Some(t) && t@ == mask_thread_count(
                dim,
                n_cells3,
                count as int,
            )
        } else {
            &&& self.tfsf_sources@ == seq![GpuTfsf::<S>::zero_spec()]
            &&& self.corrections@ == seq![TfsfSourceValues::<S>::zero_spec()]
            &&& self.auxgr_coeffs@ == seq![AuxGridPmlCoeffs::<S>::zero_spec()]
            &&& self.aux_grid_thread_count is None
            &&& self.mask_init_thread_count is None
        }
        &&& self.tfsf_masks@ == if masks > 0 {
            Seq::new(masks as nat, |i: int| TfsfMask::<S>::zero_spec())
        } else {
            seq![TfsfMask::<S>::zero_spec()]
        }
    }
}

/// `n` copies of zero.
fn zero_vectors<S: Scalar>(n: usize) -> (r: Vec<AuxVect<S>>)
    ensures
        r@ == Seq::new(n as nat, |i: int| Vec2::splat_spec(S::zero_spec())),
{
    let mut r: Vec<AuxVect<S>> = Vec::new();
    for i in 0..n
        invariant
            r@ == Seq::new(i as nat, |i: int| Vec2::splat_spec(S::zero_spec())),
    {
        r.push(Vec2::splat(&S::zero()));
        assert(r@ =~= Seq::new((i + 1) as nat, |i: int| Vec2::splat_spec(S::zero_spec())));
    }
    r
}

fn zero_masks<S: Scalar>(n: usize) -> (r: Vec<TfsfMask<S>>)
    ensures
        r@ == Seq::new(n as nat, |i: int| TfsfMask::<S>::zero_spec()),
{
    let mut r: Vec<TfsfMask<S>> = Vec::new();
    for i in 0..n
        invariant
            r@ == Seq::new(i as nat, |i: int| TfsfMask::<S>::zero_spec()),
    {
        r.push(TfsfMask::default());
        assert(r@ =~= Seq::new((i + 1) as nat, |i: int| TfsfMask::<S>::zero_spec()));
    }
    r
}

fn zero_corrections<S: Scalar>(n: usize) -> (r: Vec<TfsfSourceValues<S>>)
    ensures
        r@ == Seq::new(n as nat, |i: int| TfsfSourceValues::<S>::zero_spec()),
{
    let mut r: Vec<TfsfSourceValues<S>> = Vec::new();
    for i in 0..n
        invariant
            r@ == Seq::new(i as nat, |i: int| TfsfSourceValues::<S>::zero_spec()),
    {
        r.push(TfsfSourceValues::default());
        assert(r@ =~= Seq::new((i + 1) as nat, |i: int| TfsfSourceValues::<S>::zero_spec()));
    }
    r
}

/// The threads that initialise the masks of `count` sources.
pub open spec fn mask_thread_count(dim: Dim, n: UVec3, count: int) -> Seq<u32> {
    match dim {
        Dim::One => seq![count as u32, n.y, n.z],
        Dim::Two => seq![n.x, n.y, count as u32],
        Dim::Three => seq![n.x, n.y, (count * n.z) as u32],
    }
}

/// The masks and the threads that initialise them can be counted.
pub open spec fn masks_fit(dim: Dim, n: UVec3, count: int) -> bool {
    &&& n.product_spec() <= u32::MAX
    &&& n.x * n.y <= u32::MAX
    &&& count <= u32::MAX
    &&& count * n.product_spec() <= usize::MAX
    &&& dim == Dim::Three ==> count * n.z <= u32::MAX
}

impl<S: Scalar> TfsfSetup<S> {
    /// Prepare the plane waves among `sources`. Their signals are appended to `source_vals`. Buffers
    /// that would be empty get one unused element.
    pub fn create(
        &self,
        dim: Dim,
        sources: &Vec<Source<S>>,
        source_vals: &mut Vec<S>,
        n_cells3: UVec3,
    ) -> (r: TfsfDispatchData<S>)
        requires
            self.packs(sources@, old(source_vals)@, sources.len() as nat),
            masks_fit(
                dim,
                n_cells3,
                self.pack(
                    sources@,
                    old(source_vals)@,
                    sources.len() as nat,
                ).sources.len() as int,
            ),
        ensures
            ({
                let p = self.pack(sources@, old(source_vals)@, sources.len() as nat);
                &&& final(source_vals)@ == p.vals
                &&& r.lays_out(p, dim, n_cells3)
            }),
    {
        let mut tfsf_srcs: Vec<GpuTfsf<S>> = Vec::new();
        let mut coeffs: Vec<AuxGridPmlCoeffs<S>> = Vec::new();
        let mut corrections_len: u32 = 0;
        let mut aux_grid_n_cells_max: u32 = 0;
        let ghost vals0 = source_vals@;
        for k in 0..sources.len()
            invariant
                vals0 == old(source_vals)@,
                self.packs(sources@, vals0, sources.len() as nat),
                ({
                    let p = self.pack(sources@, vals0, k as nat);
                    &&& tfsf_srcs@ == p.sources
                    &&& coeffs@ == p.coeffs
                    &&& corrections_len == p.corrections
                    &&& aux_grid_n_cells_max == p.max_cells
                    &&& source_vals@ == p.vals
                    &&& coeffs@.len() <= u32::MAX
                }),
        {
            let ghost p = self.pack(sources@, vals0, k as nat);
            let ghost p2 = self.pack(sources@, vals0, (k + 1) as nat);
            let source: &Source<S> = &sources[k];
            match source {
                Source::TFSF {
                    spatial_axis,
                    direction,
                    t_start,
                    vals,
                    polarization,
                    tfsf_buffer_width,
                } => {
                    let a: Axis = Axis::from(*spatial_axis);
                    let a1: Axis = a.permute();
                    let a2: Axis = a1.permute();
                    assert(sources@[k as int] is TFSF);
                    assert(self.buffer_fits(*tfsf_buffer_width, a));
                    assert(a.valid() && a1.valid() && a2.valid());
                    let (min, max) = (self.problem_space_min, self.problem_space_max);
                    let buf_a = tfsf_buffer_width.get(a);
                    let buf_a1 = tfsf_buffer_width.get(a1);
                    let buf_a2 = tfsf_buffer_width.get(a2);
                    let tf_min_a: u32 = min.get(a) + buf_a.lo;
                    let tf_min_a1: u32 = min.get(a1) + buf_a1.lo;
                    let tf_min_a2: u32 = min.get(a2) + buf_a2.lo;
                    let tf_max_a: u32 = max.get(a) - buf_a.hi;
                    let tf_max_a1: u32 = max.get(a1) - buf_a1.hi;
                    let tf_max_a2: u32 = max.get(a2) - buf_a2.hi;
                    let num_correction_cells: u32 = (tf_max_a - tf_min_a + 1) + 2;
                    let n_cells: u32 = num_correction_cells + 1 + self.parameters.pml_width.get();
                    if n_cells > aux_grid_n_cells_max {
                        aux_grid_n_cells_max = n_cells;
                    }
                    let corrections_start: u32 = corrections_len;
                    corrections_len = corrections_len + num_correction_cells;
                    let vals_start: u32 = source_vals.len() as u32;
                    extend_from(source_vals, vals);
                    let coeffs_start: u32 = coeffs.len() as u32;
                    for i in 0..n_cells
                        invariant
                            a1.valid(),
                            a2.valid(),
                            2 * n_cells <= u32::MAX,
                            self.parameters.pml_width@ * 2 <= u32::MAX,
                            coeffs@ == p.coeffs + Seq::new(
                                i as nat,
                                |i: int| self.aux_coefficients(a1, a2, n_cells, *direction, i),
                            ),
                    {
                        coeffs.push(self.compute_aux_coefficients(a1, a2, n_cells, *direction, i));
                        assert(coeffs@ =~= p.coeffs + Seq::new(
                            (i + 1) as nat,
                            |i: int| self.aux_coefficients(a1, a2, n_cells, *direction, i),
                        ));
                    }
                    let packed = GpuTfsf {
                        a,
                        a1,
                        a2,
                        direction: *direction,
                        tf_min_a,
                        tf_min_a1,
                        tf_min_a2,
                        tf_max_a,
                        tf_max_a1,
                        tf_max_a2,
                        grid_start: coeffs_start,
                        vals_start,
                        vals_end: source_vals.len() as u32 - 1,
                        t_start: t_start.over(&self.dt).to_index(),
                        n_cells,
                        polarization_a1: polarization.get(a1).dup(),
                        polarization_a2: polarization.get(a2).dup(),
                        corrections_start,
                        num_correction_cells,
                        inv_d_a: self.inv_d.get(a).dup(),
                        inv_d_a1: self.inv_d.get(a1).dup(),
                        inv_d_a2: self.inv_d.get(a2).dup(),
                    };
                    assert(packed == p2.sources.last());
                    tfsf_srcs.push(packed);
                    assert(tfsf_srcs@ =~= p2.sources);
                    assert(coeffs@ =~= p2.coeffs);
                },
                _ => {},
            }
        }

        let has_tfsf_sources = tfsf_srcs.len() > 0;
        let count: u32 = tfsf_srcs.len() as u32;
        let aux_cells: usize = coeffs.len();
        let cell_count: usize = n_cells3.element_product() as usize;
        let mask_count: usize = tfsf_srcs.len() * cell_count;
        let mut tfsf_masks: Vec<TfsfMask<S>> = zero_masks(mask_count);
        let mut corrections: Vec<TfsfSourceValues<S>> = zero_corrections(corrections_len as usize);
        proof {
            lemma_pack_nonempty(*self, sources@, vals0, sources.len() as nat);
        }
        if tfsf_srcs.len() == 0 {
            tfsf_srcs.push(GpuTfsf::default());
        }
        if tfsf_masks.len() == 0 {
            tfsf_masks.push(TfsfMask::default());
        }
        if corrections.len() == 0 {
            corrections.push(TfsfSourceValues::default());
        }
        if coeffs.len() == 0 {
            coeffs.push(AuxGridPmlCoeffs::default());
        }
        let n = n_cells3;
        let mask_threads = match dim {
            Dim::One => [count, n.y, n.z],
            Dim::Two => [n.x, n.y, count],
            Dim::Three => [n.x, n.y, count * n.z],
        };
        let r = TfsfDispatchData {
            tfsf_sources: tfsf_srcs,
            tfsf_masks,
            corrections,
            auxgr_coeffs: coeffs,
            h: zero_vectors(aux_cells),
            dn: zero_vectors(aux_cells),
            en: zero_vectors(aux_cells),
            aux_grid_thread_count: if has_tfsf_sources {
                Some([count, 1, aux_grid_n_cells_max])
            } else {
                None
            },
            mask_init_thread_count: if has_tfsf_sources {
                Some(mask_threads)
            } else {
                None
            },
        };
        proof {
            let p = self.pack(sources@, vals0, sources.len() as nat);
            if p.sources.len() == 0 {
                assert(r.tfsf_sources@ =~= seq![GpuTfsf::<S>::zero_spec()]);
                assert(r.corrections@ =~= seq![TfsfSourceValues::<S>::zero_spec()]);
                assert(r.auxgr_coeffs@ =~= seq![AuxGridPmlCoeffs::<S>::zero_spec()]);
            } else {
                assert(r.aux_grid_thread_count->0@ =~= seq![count, 1u32, aux_grid_n_cells_max]);
                assert(mask_threads@ =~= mask_thread_count(dim, n_cells3, count as int));
            }
            if mask_count == 0 {
                assert(r.tfsf_masks@ =~= seq![TfsfMask::<S>::zero_spec()]);
            }
        }
        r
    }
}

/// Where there is a plane wave there are wavefronts and an auxiliary grid, and nowhere else.
proof fn lemma_pack_nonempty<S: Scalar>(
    setup: TfsfSetup<S>,
    sources: Seq<Source<S>>,
    vals: Seq<S>,
    k: nat,
)
    requires
        setup.packs(sources, vals, k),
        k <= sources.len(),
    ensures
        ({
            let p = setup.pack(sources, vals, k);
            &&& p.corrections >= 0
            &&& p.sources.len() > 0 <==> p.corrections > 0
            &&& p.sources.len() > 0 <==> p.coeffs.len() > 0
        }),
    decreases k,
{
    if k > 0 {
        lemma_pack_nonempty(setup, sources, vals, (k - 1) as nat);
        assert(sources[k - 1] == sources[k - 1]);
    }
}

/// The parts of the shared buffers that belong to a plane wave lie in them.
pub proof fn lemma_pack_bounds<S: Scalar>(
    setup: TfsfSetup<S>,
    sources: Seq<Source<S>>,
    vals: Seq<S>,
    k: nat,
)
    requires
        setup.packs(sources, vals, k),
        k <= sources.len(),
    ensures
        ({
            let p = setup.pack(sources, vals, k);
            &&& p.vals.len() >= vals.len()
            &&& p.sources.len() > 0 ==> p.corrections <= u32::MAX
            &&& p.sources.len() == 0 ==> p.coeffs.len() == 0
            &&& forall|i: int|
                0 <= i < p.sources.len() ==> {
                    let s = #[trigger] p.sources[i];
                    &&& s.axes_valid()
                    &&& s.vals_start <= p.vals.len()
                    &&& s.vals_end < p.vals.len()
                    &&& s.num_correction_cells >= 3
                    &&& s.corrections_start + s.num_correction_cells <= p.corrections
                    &&& s.grid_start + s.n_cells <= p.coeffs.len()
                    &&& s.tf_max_a <= setup.problem_space_max.at(s.a)
                    &&& s.tf_max_a1 <= setup.problem_space_max.at(s.a1)
                    &&& s.tf_max_a2 <= setup.problem_space_max.at(s.a2)
                }
        }),
    decreases k,
{
    if k > 0 {
        lemma_pack_bounds(setup, sources, vals, (k - 1) as nat);
        lemma_pack_nonempty(setup, sources, vals, (k - 1) as nat);
        assert(sources[k - 1] == sources[k - 1]);
        assert(Axis::X.valid() && Axis::Y.valid() && Axis::Z.valid());
    }
}

/// Where the part of the shared corrections that belongs to the source behind `i` starts.
pub open spec fn next_correction<S>(p: TfsfPack<S>, i: int) -> int {
    if i + 1 < p.sources.len() {
        p.sources[i + 1].corrections_start as int
    } else {
        p.corrections
    }
}

/// Where the auxiliary grid of the source behind `i` starts.
pub open spec fn next_grid<S>(p: TfsfPack<S>, i: int) -> int {
    if i + 1 < p.sources.len() {
        p.sources[i + 1].grid_start as int
    } else {
        p.coeffs.len() as int
    }
}

/// Where the signal of the source behind `i` starts.
pub open spec fn next_signal<S>(p: TfsfPack<S>, i: int) -> int {
    if i + 1 < p.sources.len() {
        p.sources[i + 1].vals_start as int
    } else {
        p.vals.len() as int
    }
}

/// The plane waves divide the buffers that they share: the corrections, the auxiliary grid and the
/// signal of each end where those of the next one start, or where the buffer ends. The auxiliary
/// grid of each has room for all its corrections behind the source cell.
pub proof fn law_plane_waves_divide_their_buffers<S: Scalar>(
    setup: TfsfSetup<S>,
    sources: Seq<Source<S>>,
    vals: Seq<S>,
    k: nat,
    i: int,
)
    requires
        setup.packs(sources, vals, k),
        k <= sources.len(),
        0 <= i < setup.pack(sources, vals, k).sources.len(),
    ensures
        ({
            let p = setup.pack(sources, vals, k);
            let s = p.sources[i];
            &&& s.corrections_start + s.num_correction_cells == next_correction(p, i)
            &&& s.grid_start + s.n_cells == next_grid(p, i)
            &&& s.vals_end + 1 == next_signal(p, i)
            &&& s.num_correction_cells >= 3
            &&& s.n_cells > s.num_correction_cells
            &&& s.n_cells <= p.max_cells
        }),
    decreases k,
{
    if k > 0 {
        let before = setup.pack(sources, vals, (k - 1) as nat);
        assert(sources[k - 1] == sources[k - 1]);
        lemma_pack_nonempty(setup, sources, vals, (k - 1) as nat);
        if i < before.sources.len() {
            law_plane_waves_divide_their_buffers(setup, sources, vals, (k - 1) as nat, i);
        }
    }
}

/// The total field of a plane wave lies in the problem space, along every axis, and the axes of the
/// source are its own and the two that follow it.
pub proof fn law_total_field_is_in_the_problem_space<S: Scalar>(
    setup: TfsfSetup<S>,
    sources: Seq<Source<S>>,
    vals: Seq<S>,
    k: nat,
    i: int,
)
    requires
        setup.packs(sources, vals, k),
        k <= sources.len(),
        0 <= i < setup.pack(sources, vals, k).sources.len(),
    ensures
        ({
            let s = setup.pack(sources, vals, k).sources[i];
            let (min, max) = (setup.problem_space_min, setup.problem_space_max);
            &&& s.a.valid() && s.a1 == s.a.permute_spec() && s.a2 == s.a1.permute_spec()
            &&& min.at(s.a) <= s.tf_min_a <= s.tf_max_a <= max.at(s.a)
            &&& min.at(s.a1) <= s.tf_min_a1 && s.tf_max_a1 <= max.at(s.a1)
            &&& min.at(s.a2) <= s.tf_min_a2 && s.tf_max_a2 <= max.at(s.a2)
            &&& s.num_correction_cells == s.tf_max_a - s.tf_min_a + 3
        }),
    decreases k,
{
    if k > 0 {
        let before = setup.pack(sources, vals, (k - 1) as nat);
        assert(sources[k - 1] == sources[k - 1]);
        if i < before.sources.len() {
            law_total_field_is_in_the_problem_space(setup, sources, vals, (k - 1) as nat, i);
        } else {
            assert(Axis::X.valid() && Axis::Y.valid() && Axis::Z.valid());
        }
    }
}

} // verus!
