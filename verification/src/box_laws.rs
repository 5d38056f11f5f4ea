//! What the box around a simulation contains.
use crate::geometry::Aabb;
use crate::materials::{box_of, boxes_of, merged, regions_box};
use crate::scalar::Scalar;
use crate::simulation::{with_sources, FdtdLossySimulation};
use crate::source::Source;
use crate::vect::Vect;
use crate::vector::Vec3;
use vstd::prelude::*;

verus! {

/// `a` is not larger than `b` in the order `le`. Numbers that compare have
/// `|a, b| b.at_least_spec(a)` for it.
pub open spec fn up_to<S>(le: spec_fn(S, S) -> bool, a: S, b: S) -> bool {
    le(a, b)
}

/// The value compares with itself, as every number does.
pub open spec fn is_number<S: Scalar>(le: spec_fn(S, S) -> bool, a: S) -> bool {
    up_to(le, a, a)
}

/// The order `le` fits the arithmetic: it is transitive, the smaller of two numbers is up to both and
/// both are up to the larger, the largest value and its opposite are numbers, and moving two numbers
/// by the machine epsilon keeps their order and does not move them the wrong way.
#[verifier::opaque]
pub open spec fn ordered<S: Scalar>(le: spec_fn(S, S) -> bool) -> bool {
    let eps = S::epsilon_spec();
    &&& is_number(le, S::largest_value_spec())
    &&& is_number(le, -S::largest_value_spec())
    &&& forall|a: S, b: S, c: S| #[trigger]
        up_to(le, a, b) && #[trigger] up_to(le, b, c) ==> up_to(le, a, c)
    &&& forall|a: S, b: S|
        is_number(le, a) && is_number(le, b) ==> {
            let s = #[trigger] a.smaller_spec(b);
            is_number(le, s) && up_to(le, s, a) && up_to(le, s, b)
        }
    &&& forall|a: S, b: S|
        is_number(le, a) && is_number(le, b) ==> {
            let l = #[trigger] a.larger_spec(b);
            is_number(le, l) && up_to(le, a, l) && up_to(le, b, l)
        }
    &&& forall|a: S|
        is_number(le, a) ==> up_to(le, #[trigger] (a - eps), a)
    &&& forall|a: S|
        is_number(le, a) ==> up_to(le, a, #[trigger] (a + eps))
    &&& forall|a: S, b: S|
        up_to(le, a, b) ==> up_to(le, #[trigger] (a - eps), #[trigger] (b - eps))
    &&& forall|a: S, b: S|
        up_to(le, a, b) ==> up_to(le, #[trigger] (a + eps), #[trigger] (b + eps))
}

/// Every component of the one is up to that of the other.
pub open spec fn all_up_to<S: Scalar>(le: spec_fn(S, S) -> bool, a: Vec3<S>, b: Vec3<S>) -> bool {
    up_to(le, a.x, b.x) && up_to(le, a.y, b.y) && up_to(le, a.z, b.z)
}

/// Every component is a number.
pub open spec fn all_numbers<S: Scalar>(le: spec_fn(S, S) -> bool, a: Vec3<S>) -> bool {
    all_up_to(le, a, a)
}

impl<S: Scalar> Aabb<S> {
    /// The box contains the box `inner`.
    pub open spec fn holds(self, le: spec_fn(S, S) -> bool, inner: Self) -> bool {
        all_up_to(le, self.mins, inner.mins) && all_up_to(le, inner.maxs, self.maxs)
    }

    /// The corners of the box are numbers.
    pub open spec fn has_numbers(self, le: spec_fn(S, S) -> bool) -> bool {
        all_numbers(le, self.mins) && all_numbers(le, self.maxs)
    }
}

/// Where a dipole is in space.
pub open spec fn point_of<S: Scalar>(position: Vect<S>) -> Vec3<S> {
    position.to_3d_spec(Vec3::splat_spec(S::zero_spec()))
}

impl<S: Scalar, G> FdtdLossySimulation<S, G> {
    /// The boxes of the regions, the places of the dipoles and, where a plane wave needs it, the
    /// middle of the regions are made of numbers.
    pub open spec fn has_numbers<F: Fn(&G) -> Aabb<S>>(
        self,
        le: spec_fn(S, S) -> bool,
        aabb_of: F,
    ) -> bool {
        let regions = self.material_regions.regions@;
        &&& forall|i: int|
            0 <= i < regions.len() ==> box_of(
                aabb_of,
                (#[trigger] regions[i]).geometry,
            ).has_numbers(le)
        &&& forall|j: int|
            0 <= j < self.sources@.len() ==> match #[trigger] self.sources@[j] {
                Source::Dipole { position, .. } => all_numbers(le, point_of(position)),
                Source::TFSF { .. } => all_numbers(le, regions_box(regions, aabb_of).center_spec()),
                Source::PlaneWave { .. } => true,
            }
    }
}

proof fn lemma_merging<S: Scalar>(le: spec_fn(S, S) -> bool, a: Aabb<S>, b: Aabb<S>)
    requires
        ordered(le),
        a.has_numbers(le),
        b.has_numbers(le),
    ensures
        a.merged_spec(b).has_numbers(le),
        a.merged_spec(b).holds(le, a),
        a.merged_spec(b).holds(le, b),
{
    reveal(ordered);
}

proof fn lemma_holding<S: Scalar>(le: spec_fn(S, S) -> bool, a: Aabb<S>, b: Aabb<S>, c: Aabb<S>)
    requires
        ordered(le),
        a.holds(le, b),
        b.holds(le, c),
    ensures
        a.holds(le, c),
{
    reveal(ordered);
}

proof fn lemma_growing<S: Scalar>(le: spec_fn(S, S) -> bool, a: Aabb<S>, b: Aabb<S>)
    requires
        ordered(le),
        a.has_numbers(le),
        a.holds(le, b),
    ensures
        ({
            let eps = Vec3::splat_spec(S::epsilon_spec());
            a.grown_spec(eps).holds(le, b) && a.grown_spec(eps).holds(le, b.grown_spec(eps))
        }),
{
    let eps = Vec3::splat_spec(S::epsilon_spec());
    assert(a.grown_spec(eps).holds(le, a) && a.grown_spec(eps).holds(le, b.grown_spec(eps))) by {
        reveal(ordered);
    }
    lemma_holding(le, a.grown_spec(eps), a, b);
}

proof fn lemma_invalid_box<S: Scalar>(le: spec_fn(S, S) -> bool)
    requires
        ordered(le),
    ensures
        Aabb::<S>::invalid_spec().has_numbers(le),
{
    reveal(ordered);
}

proof fn lemma_merged_boxes<S: Scalar>(
    le: spec_fn(S, S) -> bool,
    bb: Aabb<S>,
    boxes: Seq<Aabb<S>>,
    k: nat,
)
    requires
        ordered(le),
        bb.has_numbers(le),
        k <= boxes.len(),
        forall|i: int| 0 <= i < k ==> (#[trigger] boxes[i]).has_numbers(le),
    ensures
        merged(bb, boxes, k).has_numbers(le),
        forall|i: int| 0 <= i < k ==> merged(bb, boxes, k).holds(le, #[trigger] boxes[i]),
    decreases k,
{
    if k > 0 {
        let before = merged(bb, boxes, (k - 1) as nat);
        lemma_merged_boxes(le, bb, boxes, (k - 1) as nat);
        lemma_merging(le, before, boxes[k - 1]);
        assert forall|i: int| 0 <= i < k implies merged(bb, boxes, k).holds(le, 
            #[trigger] boxes[i],
        ) by {
            if i < k - 1 {
                lemma_holding(le, merged(bb, boxes, k), before, boxes[i]);
            }
        }
    }
}

/// The box that the first `k` sources make of `bb` holds `bb` and the dipoles among them.
proof fn lemma_with_sources<S: Scalar>(
    le: spec_fn(S, S) -> bool,
    bb: Aabb<S>,
    center: Vec3<S>,
    sources: Seq<Source<S>>,
    k: nat,
)
    requires
        ordered(le),
        bb.has_numbers(le),
        k <= sources.len(),
        forall|j: int|
            0 <= j < k ==> match #[trigger] sources[j] {
                Source::Dipole { position, .. } => all_numbers(le, point_of(position)),
                Source::TFSF { .. } => all_numbers(le, center),
                Source::PlaneWave { .. } => true,
            },
    ensures
        with_sources(bb, center, sources, k).has_numbers(le),
        with_sources(bb, center, sources, k).holds(le, bb),
        k > 0 ==> with_sources(bb, center, sources, k).holds(le, 
            with_sources(bb, center, sources, (k - 1) as nat),
        ),
        forall|j: int|
            0 <= j < k ==> (#[trigger] sources[j] matches Source::Dipole { position, .. }
                ==> with_sources(bb, center, sources, k).holds(le, Aabb::at_point(point_of(position)))),
    decreases k,
{
    if k > 0 {
        let before = with_sources(bb, center, sources, (k - 1) as nat);
        let after = with_sources(bb, center, sources, k);
        lemma_with_sources(le, bb, center, sources, (k - 1) as nat);
        match sources[k - 1] {
            Source::Dipole { position, .. } => {
                lemma_merging(le, before, Aabb::at_point(point_of(position)));
            },
            Source::TFSF { .. } => {
                lemma_merging(le, before, Aabb::at_point(center));
            },
            Source::PlaneWave { .. } => {},
        }
        lemma_holding(le, after, before, bb);
        assert forall|j: int| 0 <= j < k implies (#[trigger] sources[j] matches Source::Dipole {
            position,
            ..
        } ==> after.holds(le, Aabb::at_point(point_of(position)))) by {
            if j < k - 1 && sources[j] is Dipole {
                lemma_holding(
                    le,
                    after,
                    before,
                    Aabb::at_point(point_of(sources[j]->Dipole_position)),
                );
            }
        }
    }
}

/// The box around a simulation contains the box of every region and the place of every dipole.
pub proof fn law_bounding_box_contains_everything<S: Scalar, G, F: Fn(&G) -> Aabb<S>>(
    le: spec_fn(S, S) -> bool,
    sim: FdtdLossySimulation<S, G>,
    aabb_of: F,
)
    requires
        ordered(le),
        sim.has_numbers(le, aabb_of),
    ensures
        forall|i: int|
            0 <= i < sim.material_regions.regions@.len() ==> sim.bounding_box(aabb_of).holds(le, 
                box_of(aabb_of, (#[trigger] sim.material_regions.regions@[i]).geometry),
            ),
        forall|j: int|
            0 <= j < sim.sources@.len() ==> (#[trigger] sim.sources@[j] matches Source::Dipole {
                position,
                ..
            } ==> sim.bounding_box(aabb_of).holds(le, Aabb::at_point(point_of(position)))),
{
    let regions = sim.material_regions.regions@;
    let boxes = boxes_of(regions, aabb_of);
    let inside = regions_box(regions, aabb_of);
    let center = inside.center_spec();
    let k = sim.sources@.len();
    let all = with_sources(inside, center, sim.sources@, k);
    lemma_invalid_box(le);
    lemma_merged_boxes(le, Aabb::invalid_spec(), boxes, regions.len());
    lemma_with_sources(le, inside, center, sim.sources@, k);
    assert forall|i: int| 0 <= i < regions.len() implies sim.bounding_box(aabb_of).holds(le, 
        box_of(aabb_of, (#[trigger] regions[i]).geometry),
    ) by {
        assert(boxes[i] == box_of(aabb_of, regions[i].geometry));
        lemma_holding(le, all, inside, boxes[i]);
        lemma_growing(le, all, boxes[i]);
    }
    assert forall|j: int| 0 <= j < k implies (#[trigger] sim.sources@[j] matches Source::Dipole {
        position,
        ..
    } ==> sim.bounding_box(aabb_of).holds(le, Aabb::at_point(point_of(position)))) by {
        if sim.sources@[j] is Dipole {
            lemma_growing(le, all, Aabb::at_point(point_of(sim.sources@[j]->Dipole_position)));
        }
    }
}

/// Adding a source does not make the box around a simulation smaller: the new box contains the old
/// one.
pub proof fn law_bounding_box_only_grows<S: Scalar, G, F: Fn(&G) -> Aabb<S>>(
    le: spec_fn(S, S) -> bool,
    sim: FdtdLossySimulation<S, G>,
    more: FdtdLossySimulation<S, G>,
    source: Source<S>,
    aabb_of: F,
)
    requires
        ordered(le),
        more.has_numbers(le, aabb_of),
        more.sources@ == sim.sources@.push(source),
        more.material_regions == sim.material_regions,
    ensures
        more.bounding_box(aabb_of).holds(le, sim.bounding_box(aabb_of)),
{
    let regions = sim.material_regions.regions@;
    let inside = regions_box(regions, aabb_of);
    let center = inside.center_spec();
    let k = more.sources@.len();
    lemma_invalid_box(le);
    lemma_merged_boxes(le, Aabb::invalid_spec(), boxes_of(regions, aabb_of), regions.len());
    lemma_with_sources(le, inside, center, more.sources@, k);
    lemma_same_first_sources(inside, center, sim.sources@, source, (k - 1) as nat);
    lemma_growing(
        le,
        with_sources(inside, center, more.sources@, k),
        with_sources(inside, center, sim.sources@, (k - 1) as nat),
    );
}

proof fn lemma_same_first_sources<S: Scalar>(
    bb: Aabb<S>,
    center: Vec3<S>,
    sources: Seq<Source<S>>,
    source: Source<S>,
    k: nat,
)
    requires
        k <= sources.len(),
    ensures
        with_sources(bb, center, sources.push(source), k) == with_sources(bb, center, sources, k),
    decreases k,
{
    if k > 0 {
        lemma_same_first_sources(bb, center, sources, source, (k - 1) as nat);
    }
}

} // verus!
