use num_complex::Complex64;
use xrt::beam::{count_good, Beam, RayState};

const DEFAULT_ENERGY: f64 = 9000.0;

fn czero() -> Complex64 {
    Complex64::new(0.0, 0.0)
}

fn new_beam(nrays: usize) -> Beam<f64, Complex64> {
    Beam::new(nrays, 0.0, 1.0, DEFAULT_ENERGY, czero())
}

fn beam_with_amplitudes(nrays: usize) -> Beam<f64, Complex64> {
    Beam::with_amplitudes(nrays, 0.0, 1.0, DEFAULT_ENERGY, czero())
}

/// Every optional field that is present is as long as the beam.
fn assert_optional_lengths(beam: &Beam<f64, Complex64>) {
    let n = beam.nrays();
    if let Some(amp) = beam.amplitudes() {
        assert_eq!(amp.es.len(), n, "es");
        assert_eq!(amp.ep.len(), n, "ep");
    }
    if let Some(el) = beam.elevation() {
        assert_eq!(el.d.len(), n, "elevation_d");
        assert_eq!(el.x.len(), n, "elevation_x");
        assert_eq!(el.y.len(), n, "elevation_y");
        assert_eq!(el.z.len(), n, "elevation_z");
    }
    if let Some(par) = beam.parametric() {
        assert_eq!(par.s.len(), n, "s");
        assert_eq!(par.phi.len(), n, "phi");
        assert_eq!(par.r.len(), n, "r");
    }
    if let Some(theta) = beam.theta() {
        assert_eq!(theta.len(), n, "theta");
    }
    if let Some(order) = beam.order() {
        assert_eq!(order.len(), n, "order");
    }
    if let Some(n_refl) = beam.n_refl() {
        assert_eq!(n_refl.len(), n, "n_refl");
    }
}

#[test]
fn test_new_beam_defaults() {
    let beam = new_beam(100);
    assert_eq!(beam.nrays(), 100);
    assert_eq!(beam.x[0], 0.0);
    assert_eq!(beam.b[0], 1.0); // default direction +y
    assert_eq!(beam.e[0], DEFAULT_ENERGY);
    assert_eq!(beam.jss[0], 1.0);
    assert_eq!(beam.jpp[0], 0.0);
    assert!(beam.amplitudes().is_none());
}

#[test]
fn test_with_amplitudes() {
    let beam = beam_with_amplitudes(50);
    let amp = beam.amplitudes().expect("amplitudes were requested");
    assert_eq!(amp.es.len(), 50);
    assert_eq!(amp.ep.len(), 50);
}

#[test]
fn amplitudes_survive_concatenation_only_when_both_beams_carry_them() {
    // present ∥ present
    let mut both = beam_with_amplitudes(3);
    both.concatenate(&beam_with_amplitudes(2));
    assert_eq!(both.nrays(), 5);
    assert_eq!(both.amplitudes().expect("both carried them").es.len(), 5);
    assert_optional_lengths(&both);

    // present ∥ absent
    let mut left = beam_with_amplitudes(3);
    left.concatenate(&new_beam(2));
    assert_eq!(left.nrays(), 5);
    assert!(left.amplitudes().is_none());
    assert_optional_lengths(&left);

    // absent ∥ present
    let mut right = new_beam(3);
    right.concatenate(&beam_with_amplitudes(2));
    assert_eq!(right.nrays(), 5);
    assert!(right.amplitudes().is_none());
    assert_optional_lengths(&right);
}

#[test]
fn parametric_survives_concatenation_only_when_both_beams_carry_it() {
    let mut parametric = new_beam(3);
    parametric.ensure_parametric(0.0);
    assert_eq!(parametric.parametric().expect("just allocated").s.len(), 3);

    let mut mixed = parametric.clone();
    mixed.concatenate(&new_beam(2));
    assert!(mixed.parametric().is_none());
    assert_optional_lengths(&mixed);

    let mut other = new_beam(2);
    other.ensure_parametric(0.0);
    parametric.concatenate(&other);
    assert_eq!(parametric.parametric().expect("both carried it").r.len(), 5);
    assert_optional_lengths(&parametric);
}

#[test]
fn a_dropped_field_can_be_reallocated_at_the_new_length() {
    let mut beam = beam_with_amplitudes(3);
    beam.concatenate(&new_beam(2));
    assert!(beam.amplitudes().is_none());
    assert_eq!(beam.ensure_amplitudes(czero()).es.len(), 5);
    assert_optional_lengths(&beam);
}

#[test]
fn filtering_shortens_every_present_optional_field() {
    let mut beam = beam_with_amplitudes(5);
    beam.ensure_parametric(0.0);
    beam.ensure_elevation(0.0);
    beam.ensure_theta(0.0);
    beam.ensure_order();
    beam.ensure_n_refl();
    beam.set_state(RayState::Good);
    beam.state[1] = RayState::Dead.code();
    beam.state[3] = RayState::Out.code();

    let good = beam.filter_good();
    assert_eq!(good.nrays(), 3);
    assert_optional_lengths(&good);
}

#[test]
fn test_filter_good() {
    let mut beam = new_beam(5);
    beam.state[0] = RayState::Good.code();
    beam.state[1] = RayState::Out.code();
    beam.state[2] = RayState::Good.code();
    beam.state[3] = RayState::Dead.code();
    beam.state[4] = RayState::Good.code();

    let good = beam.filter_good();
    assert_eq!(good.nrays(), 3);
}

#[test]
fn test_concatenate() {
    let mut beam1 = new_beam(3);
    let beam2 = new_beam(2);
    beam1.concatenate(&beam2);
    assert_eq!(beam1.nrays(), 5);
}

#[test]
fn test_ray_state_roundtrip() {
    assert_eq!(RayState::from_i32(1), RayState::Good);
    assert_eq!(RayState::from_i32(-1), RayState::Dead);
    assert_eq!(RayState::from_i32(99), RayState::Undefined);
}

#[test]
fn test_footprint() {
    let mut beam = new_beam(5);
    beam.set_state(RayState::Good);
    beam.x[0] = 1.0;
    beam.z[0] = 2.0;
    beam.state[1] = RayState::Dead.code();
    let (x, _z) = beam.footprint();
    assert_eq!(x.len(), 4); // 4 good rays
    assert!((x[0] - 1.0).abs() < 1e-15);
}

#[test]
fn state_codes_round_trip() {
    for s in [RayState::Undefined, RayState::Good, RayState::Out, RayState::Over, RayState::Dead] {
        assert_eq!(RayState::from_i32(s.code()), s);
    }
    assert_eq!(RayState::Dead.code(), -1);
    assert_eq!(RayState::Over.code(), 3);
    assert_eq!(RayState::from_i32(4), RayState::Undefined);
}

#[test]
fn filter_by_index_keeps_order_and_repeats() {
    let mut beam = new_beam(4);
    for i in 0..4 {
        beam.x[i] = i as f64;
    }
    beam.ensure_order()[2] = 7;
    let picked = beam.filter_by_index(&[2, 0, 2]);
    assert_eq!(picked.x, vec![2.0, 0.0, 2.0]);
    assert_eq!(picked.order().unwrap(), &vec![7, 0, 7]);
    assert!(picked.theta().is_none());
    assert_optional_lengths(&picked);
}

#[test]
fn good_indices_are_increasing_positions_of_good_rays() {
    let mut beam = new_beam(6);
    beam.state = vec![1, 0, 1, -1, 2, 1];
    assert_eq!(beam.good_indices(), vec![0, 2, 5]);
    assert_eq!(count_good(&beam.state), 3);
    let good = beam.filter_good();
    assert!(good.state.iter().all(|&s| s == 1));
}

#[test]
fn concatenation_appends_columns_and_keeps_first_source_parameters() {
    let mut a = new_beam(2);
    a.source_sigma_x = 0.5;
    a.e = vec![1.0, 2.0];
    let mut b = new_beam(1);
    b.source_sigma_x = 9.0;
    b.e = vec![3.0];
    a.ensure_theta(0.25);
    b.ensure_theta(0.75);
    a.concatenate(&b);
    assert_eq!(a.e, vec![1.0, 2.0, 3.0]);
    assert_eq!(a.theta().unwrap(), &vec![0.25, 0.25, 0.75]);
    assert_eq!(a.source_sigma_x, 0.5);
}

#[test]
fn xyz_only_has_empty_direction_columns() {
    let beam: Beam<f64, Complex64> = Beam::xyz_only(3, 0.0);
    assert_eq!(beam.nrays(), 3);
    assert!(beam.a.is_empty());
    assert!(beam.state.is_empty());
}

#[test]
fn mutable_accessors_reach_present_fields_only() {
    let mut beam = new_beam(2);
    assert!(beam.amplitudes_mut().is_none());
    beam.ensure_elevation(0.0);
    beam.elevation_mut().unwrap().d[1] = 4.0;
    assert_eq!(beam.elevation().unwrap().d, vec![0.0, 4.0]);
    assert!(beam.parametric_mut().is_none());
}
