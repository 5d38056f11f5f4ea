use taser_em::axis::{Axis, Dim, SpatialAxis};
use taser_em::cells::grid_cells_iter;
use taser_em::index::GridIndex;
use taser_em::layers::{LayerWidths, LoHiWidths};
use taser_em::saturating::{saturating_sub, GpuSaturatingSub};
use taser_em::simulation::compute_flat_idx_incrs;
use taser_em::vect::{
    flat_idx_to_grid_index, grid_index_from_array, grid_index_to_3d, grid_index_to_array,
    grid_index_to_flat_idx, thread_id_to_3d_grid_index, uvec3_to_grid_index, BoolVectExt,
    VectorValueExt,
};
use taser_em::vector::UVec3;

#[test]
fn flat_indices_run_along_x_first() {
    let n = GridIndex::Three(4, 3, 2);
    assert_eq!(GridIndex::Three(0, 0, 0).to_flat_idx(n), 0);
    assert_eq!(GridIndex::Three(1, 0, 0).to_flat_idx(n), 1);
    assert_eq!(GridIndex::Three(0, 1, 0).to_flat_idx(n), 4);
    assert_eq!(GridIndex::Three(0, 0, 1).to_flat_idx(n), 12);
    assert_eq!(GridIndex::Three(3, 2, 1).to_flat_idx(n), 23);
    assert_eq!(GridIndex::Two(3, 2).to_flat_idx(GridIndex::Two(4, 3)), 11);
    assert_eq!(GridIndex::One(5).to_flat_idx(GridIndex::One(9)), 5);
}

#[test]
fn flat_indices_round_trip() {
    for n in [GridIndex::One(7), GridIndex::Two(5, 3), GridIndex::Three(4, 3, 2)] {
        for i in 0..n.element_product() {
            let cell = GridIndex::from_flat_idx(i, n);
            assert_eq!(cell.to_flat_idx(n), i);
            assert_eq!(flat_idx_to_grid_index(i, n), cell);
            assert_eq!(grid_index_to_flat_idx(cell, n), i);
        }
    }
}

#[test]
fn every_cell_is_listed_once() {
    for n in [GridIndex::One(7), GridIndex::Two(5, 3), GridIndex::Three(4, 3, 2)] {
        let cells = grid_cells_iter(n);
        let mut seen = vec![false; n.element_product() as usize];
        assert_eq!(cells.len(), seen.len());
        for cell in cells {
            let i = cell.to_flat_idx(n) as usize;
            assert!(!seen[i]);
            seen[i] = true;
        }
    }
}

#[test]
fn cells_are_listed_with_the_last_axis_first() {
    assert_eq!(
        grid_cells_iter(GridIndex::Two(2, 2)),
        vec![
            GridIndex::Two(0, 0),
            GridIndex::Two(0, 1),
            GridIndex::Two(1, 0),
            GridIndex::Two(1, 1)
        ]
    );
    assert_eq!(grid_cells_iter(GridIndex::Three(0, 3, 2)), vec![]);
}

#[test]
fn indices_widen_to_three_components() {
    assert_eq!(grid_index_to_3d(GridIndex::One(9), UVec3::splat(1)), UVec3::new(1, 1, 9));
    assert_eq!(grid_index_to_3d(GridIndex::Two(4, 5), UVec3::splat(1)), UVec3::new(4, 5, 1));
    assert_eq!(grid_index_to_3d(GridIndex::Three(4, 5, 6), UVec3::splat(1)), UVec3::new(4, 5, 6));
    assert_eq!(GridIndex::One(9).n_cells_to_3d(), UVec3::new(1, 1, 9));
    assert_eq!(GridIndex::One(9).cell_idx_to_3d(), UVec3::new(0, 0, 9));
    for c in [GridIndex::One(9), GridIndex::Two(4, 5), GridIndex::Three(4, 5, 6)] {
        assert_eq!(uvec3_to_grid_index(c.get_dim(), c.to_3d(UVec3::splat(7))), c);
        assert_eq!(GridIndex::from_uvec3(c.get_dim(), c.cell_idx_to_3d()), c);
    }
}

#[test]
fn indices_as_arrays() {
    assert_eq!(grid_index_to_array(GridIndex::Three(4, 5, 6)), vec![4, 5, 6]);
    assert_eq!(grid_index_from_array(Dim::Two, &vec![4, 5]), GridIndex::Two(4, 5));
    assert_eq!(GridIndex::from_index_array(Dim::One, &vec![3]), GridIndex::One(3));
    assert_eq!(GridIndex::One(3).into_array(), vec![3]);
}

#[test]
fn index_arithmetic() {
    assert_eq!(GridIndex::Two(7, 8).div_ceil(GridIndex::Two(2, 4)), GridIndex::Two(4, 2));
    assert_eq!(GridIndex::Two(7, 8).times(3), GridIndex::Two(21, 24));
    assert_eq!(GridIndex::Two(7, 8).minus(2), GridIndex::Two(5, 6));
    assert_eq!(GridIndex::Two(7, 8).plus(GridIndex::Two(1, 2)), GridIndex::Two(8, 10));
    assert_eq!(GridIndex::Three(2, 3, 4).element_product(), 24);
    assert_eq!(GridIndex::Two(7, 8).get(SpatialAxis::Y), 8);
    assert_eq!(GridIndex::Two(7, 8).with(SpatialAxis::X, 1), GridIndex::Two(1, 8));
}

#[test]
fn index_elements() {
    let v = GridIndex::Three(2, 9, 4);
    assert_eq!(v.largest_element(), 9);
    assert_eq!(v.smallest_element(), 2);
    assert_eq!(v.sum_elements(), 15);
    assert_eq!(v.mul_elements(), 72);
    assert!(v.ge(GridIndex::Three(2, 10, 5)).any());
    assert!(!v.ge(GridIndex::Three(2, 10, 4)).all());
    assert!(!GridIndex::One(3).ge(GridIndex::One(4)).any());
    assert!(GridIndex::zero(Dim::Two).ge(GridIndex::Two(0, 0)).all());
    assert_eq!(GridIndex::one(Dim::Two), GridIndex::Two(1, 1));
}

#[test]
fn strides_between_neighbours() {
    assert_eq!(compute_flat_idx_incrs(GridIndex::Three(4, 3, 2)), UVec3::new(1, 4, 12));
    assert_eq!(compute_flat_idx_incrs(GridIndex::Two(4, 3)), UVec3::new(1, 4, 0));
    assert_eq!(compute_flat_idx_incrs(GridIndex::One(4)), UVec3::new(0, 0, 1));
}

#[test]
fn thread_ids_of_each_dimension() {
    let id = UVec3::new(3, 4, 5);
    assert_eq!(thread_id_to_3d_grid_index(Dim::Three, id), id);
}

#[test]
fn saturating_subtraction() {
    assert_eq!(saturating_sub(7, 3), 4);
    assert_eq!(saturating_sub(3, 7), 0);
    assert_eq!(saturating_sub(3, 3), 0);
    assert_eq!(5u32.gpu_saturating_sub(2), 3);
    assert_eq!(2u32.gpu_saturating_sub(5), 0);
    assert_eq!(usize::MAX.gpu_saturating_sub(1), usize::MAX - 1);
}

#[test]
fn widths_of_layers() {
    let all = LayerWidths::splat(3);
    for axis in Axis::all_axes() {
        assert_eq!(all.get(axis), LoHiWidths::splat(3));
    }
    let flat = LayerWidths::splat_spatial(Dim::Two, 3);
    assert_eq!(flat.get(Axis::Y), LoHiWidths { lo: 3, hi: 3 });
    assert_eq!(flat.get(Axis::Z), LoHiWidths { lo: 0, hi: 0 });
    let wide = flat.with_axis_widths(SpatialAxis::X, LoHiWidths { lo: 1, hi: 2 });
    assert_eq!(wide.get(Axis::X), LoHiWidths { lo: 1, hi: 2 });
    assert_eq!(wide.get(Axis::Y), LoHiWidths { lo: 3, hi: 3 });
    assert_eq!(LayerWidths::default().get(Axis::X), LoHiWidths::default());
}

#[test]
fn layers_enlarge_a_grid() {
    let w = LayerWidths::splat_spatial(Dim::Two, 3)
        .with_axis_widths(SpatialAxis::X, LoHiWidths { lo: 1, hi: 2 });
    assert_eq!(w.sum_with_n_cells(GridIndex::Two(10, 20)), GridIndex::Two(13, 26));
    assert_eq!(
        w.iter_spatial_axes(Dim::Two),
        vec![
            (SpatialAxis::X, LoHiWidths { lo: 1, hi: 2 }),
            (SpatialAxis::Y, LoHiWidths { lo: 3, hi: 3 })
        ]
    );
    assert_eq!(w.iter_axes(Dim::One), vec![LoHiWidths { lo: 0, hi: 0 }]);
}

#[test]
fn adding_widths_is_undone() {
    let a = LayerWidths::splat(3);
    let b = LayerWidths::splat_spatial(Dim::One, 2);
    let mut sum = a + b;
    assert_eq!(sum.get(Axis::Z), LoHiWidths::splat(5));
    assert_eq!(sum.get(Axis::X), LoHiWidths::splat(3));
    assert_eq!((sum - b).get(Axis::Z), LoHiWidths::splat(3));
    sum.sub_assign(b);
    assert_eq!(sum.get(Axis::Z), a.get(Axis::Z));
    sum.add_assign(a);
    assert_eq!(sum.get(Axis::Y), LoHiWidths::splat(6));
}

#[test]
fn layers_added_one_by_one_add_up() {
    let a = LayerWidths::splat_spatial(Dim::Three, 3);
    let b = LayerWidths::splat_spatial(Dim::Three, 2);
    let n = GridIndex::Three(4, 5, 6);
    assert_eq!(b.sum_with_n_cells(a.sum_with_n_cells(n)), (a + b).sum_with_n_cells(n));
}
