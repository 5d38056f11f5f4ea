use taser_em::axis::{dimensions_check, Axis, AxisIndex, Dim, DimensionError, SpatialAxis};
use taser_em::backend::{backend_name, shader_crate_name, Backend};
use taser_em::params::{PolarizationModeIndex, WaveDirection};
use taser_em::polarization::{live_axes, GpuPolarizationMode, PolarizationMode};

const DIMS: [Dim; 3] = [Dim::One, Dim::Two, Dim::Three];

#[test]
fn permute_cycles() {
    assert_eq!(Axis::X.permute(), Axis::Y);
    assert_eq!(Axis::Y.permute(), Axis::Z);
    assert_eq!(Axis::Z.permute(), Axis::X);
    for axis in Axis::all_axes() {
        assert_eq!(axis.permute().permute().permute(), axis);
    }
}

#[test]
fn axis_from_index() {
    assert_eq!(Axis::try_from(0), Ok(Axis::X));
    assert_eq!(Axis::try_from(1), Ok(Axis::Y));
    assert_eq!(Axis::try_from(2), Ok(Axis::Z));
    assert_eq!(Axis::try_from(3), Err(()));
    assert_eq!(Axis::try_from(u32::MAX), Err(()));
    for axis in Axis::all_axes() {
        assert_eq!(Axis::from_index_unchecked(axis.index()), axis);
    }
}

#[test]
fn spatial_axes_of_each_dimension() {
    assert_eq!(SpatialAxis::all_spatial(Dim::One), vec![SpatialAxis::Z]);
    assert_eq!(SpatialAxis::all_spatial(Dim::Two), vec![SpatialAxis::X, SpatialAxis::Y]);
    assert_eq!(
        SpatialAxis::all_spatial(Dim::Three),
        vec![SpatialAxis::X, SpatialAxis::Y, SpatialAxis::Z]
    );
    assert_eq!(SpatialAxis::all_axes(Dim::One), vec![Axis::Z]);
    for dim in DIMS {
        assert_eq!(SpatialAxis::all_spatial(dim).len(), dim.count());
        for s in SpatialAxis::all_spatial(dim) {
            assert!(SpatialAxis::is_spatial_axis(dim, Axis::from(s)));
            assert_eq!(SpatialAxis::try_from_axis(dim, Axis::from(s)), Ok(s));
            assert_eq!(SpatialAxis::try_from_index(dim, s.index(dim)), Ok(s));
        }
    }
}

#[test]
fn other_axes_are_not_spatial() {
    assert!(!SpatialAxis::is_spatial_axis(Dim::One, Axis::X));
    assert!(!SpatialAxis::is_spatial_axis(Dim::Two, Axis::Z));
    assert_eq!(SpatialAxis::try_from_axis(Dim::One, Axis::X), Err(()));
    assert_eq!(SpatialAxis::try_from_axis(Dim::One, Axis::Y), Err(()));
    assert_eq!(SpatialAxis::try_from_axis(Dim::Two, Axis::Z), Err(()));
    assert_eq!(SpatialAxis::try_from_index(Dim::One, 1), Err(()));
    assert_eq!(SpatialAxis::try_from_index(Dim::Two, 2), Err(()));
    assert_eq!(SpatialAxis::try_from_index(Dim::Three, 3), Err(()));
}

#[test]
fn axis_index_round_trip() {
    for axis in Axis::all_axes() {
        assert_eq!(AxisIndex::from_axis(axis).into_axis(), axis);
        assert_eq!(AxisIndex::from_axis(axis).as_usize(), axis.index() as usize);
    }
    let letters = ['a', 'b', 'c'];
    assert_eq!(*AxisIndex::from_axis(Axis::Y).element_of(&letters), 'b');
}

#[test]
fn exactly_one_dimension_is_enabled() {
    assert_eq!(dimensions_check(true, false, false), Ok(Dim::One));
    assert_eq!(dimensions_check(false, true, false), Ok(Dim::Two));
    assert_eq!(dimensions_check(false, false, true), Ok(Dim::Three));
    assert_eq!(dimensions_check(false, false, false), Err(DimensionError::NoDimension));
    assert_eq!(dimensions_check(true, true, false), Err(DimensionError::TooManyDimensions));
    assert_eq!(dimensions_check(true, false, true), Err(DimensionError::TooManyDimensions));
    assert_eq!(dimensions_check(true, true, true), Err(DimensionError::TooManyDimensions));
}

#[test]
fn backend_names() {
    assert_eq!(backend_name(&Backend::WebGpu), "WebGPU");
    assert_eq!(backend_name(&Backend::Cuda), "CUDA");
    assert_eq!(backend_name(&Backend::Metal), "Metal");
    assert_eq!(backend_name(&Backend::Cpu), "CPU");
    assert_eq!(backend_name(&Backend::Other), "UNKNOWN");
}

#[test]
fn shader_crates() {
    assert_eq!(shader_crate_name(Dim::One), "taser-em-shaders1d");
    assert_eq!(shader_crate_name(Dim::Two), "taser-em-shaders2d");
    assert_eq!(shader_crate_name(Dim::Three), "taser-em-shaders3d");
}

#[test]
fn polarization_mode_indices() {
    assert_eq!(
        PolarizationModeIndex::from(PolarizationMode::TransverseMagnetic),
        PolarizationModeIndex::tm()
    );
    assert_eq!(
        PolarizationModeIndex::from(PolarizationMode::TransverseElectric),
        PolarizationModeIndex::te()
    );
    assert!(PolarizationModeIndex::tm().is_tm() && !PolarizationModeIndex::tm().is_te());
    assert!(PolarizationModeIndex::te().is_te() && !PolarizationModeIndex::te().is_tm());
}

#[test]
fn polarization_axes_of_a_plane() {
    let tm = GpuPolarizationMode::tm(Dim::Two);
    assert!(tm.is_tm() && !tm.is_te());
    assert_eq!(live_axes(&tm.get_dn_axes()), vec![Axis::X, Axis::Y]);
    assert_eq!(live_axes(&tm.get_h_axes()), vec![Axis::Z]);
    let te = GpuPolarizationMode::te(Dim::Two);
    assert_eq!(live_axes(&te.get_dn_axes()), vec![Axis::Z]);
    assert_eq!(live_axes(&te.get_h_axes()), vec![Axis::X, Axis::Y]);
}

#[test]
fn polarization_axes_of_a_line() {
    let tm = GpuPolarizationMode::from_mode(Dim::One, PolarizationMode::TransverseMagnetic);
    assert_eq!(live_axes(&tm.get_dn_axes()), vec![Axis::Y]);
    assert_eq!(live_axes(&tm.get_h_axes()), vec![Axis::X]);
    let te = GpuPolarizationMode::from_mode(Dim::One, PolarizationMode::TransverseElectric);
    assert_eq!(live_axes(&te.get_dn_axes()), vec![Axis::X]);
    assert_eq!(live_axes(&te.get_h_axes()), vec![Axis::Y]);
}

#[test]
fn polarization_axes_of_space() {
    for mode in [GpuPolarizationMode::tm(Dim::Three), GpuPolarizationMode::te(Dim::Three)] {
        assert_eq!(live_axes(&mode.get_dn_axes()), vec![Axis::X, Axis::Y, Axis::Z]);
        assert_eq!(live_axes(&mode.get_h_axes()), vec![Axis::X, Axis::Y, Axis::Z]);
    }
}

#[test]
fn wave_directions_have_signs() {
    assert_eq!(WaveDirection::Positive.sign(), 1);
    assert_eq!(WaveDirection::Negative.sign(), -1);
}

#[test]
fn default_modes_are_transverse_magnetic() {
    assert!(PolarizationModeIndex::default().is_tm());
    assert!(!PolarizationModeIndex::default().is_te());
    assert_eq!(PolarizationModeIndex::default(), PolarizationModeIndex::tm());
    assert!(GpuPolarizationMode::default().is_tm());
    assert_eq!(GpuPolarizationMode::default(), GpuPolarizationMode::tm(Dim::Three));
    assert_eq!(AxisIndex::default().into_axis(), Axis::X);
}
