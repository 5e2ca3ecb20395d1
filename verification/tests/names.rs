use xrt::crystal::{CrystalGeometry, Polarization};
use xrt::interp::bracket_search;
use xrt::material::MaterialKind;
use xrt::multilayer::MultilayerGeom;
use xrt::screen::bin_slot;
use xrt::surfaces::FlatSurface;
use xrt::text::{contains_str, parse_usize, split_whitespace_str, starts_with_str, trim_str};

#[test]
fn crystal_geometry_names() {
    assert_eq!(CrystalGeometry::from_str_xrt("Bragg reflected").unwrap(), CrystalGeometry::BraggReflected);
    assert_eq!(CrystalGeometry::from_str_xrt("Bragg transmitted").unwrap(), CrystalGeometry::BraggTransmitted);
    assert_eq!(CrystalGeometry::from_str_xrt("Laue transmitted").unwrap(), CrystalGeometry::LaueTransmitted);
    assert_eq!(CrystalGeometry::from_str_xrt("Laue reflected").unwrap(), CrystalGeometry::LaueReflected);
    assert_eq!(CrystalGeometry::from_str_xrt("anything").unwrap(), CrystalGeometry::LaueReflected);
    assert_eq!(CrystalGeometry::from_lowercase("the bragg transmitted"), CrystalGeometry::LaueTransmitted);
    assert!(CrystalGeometry::BraggTransmitted.is_bragg());
    assert!(CrystalGeometry::BraggTransmitted.is_transmitted());
    assert!(!CrystalGeometry::LaueReflected.is_bragg());
    assert!(!CrystalGeometry::BraggReflected.is_transmitted());
    assert_ne!(Polarization::S, Polarization::P);
}

#[test]
fn material_kind_names() {
    assert_eq!(MaterialKind::from_str_xrt("Mirror"), MaterialKind::Mirror);
    assert_eq!(MaterialKind::from_str_xrt("Thin Mirror"), MaterialKind::ThinMirror);
    assert_eq!(MaterialKind::from_str_xrt("PLATE"), MaterialKind::Plate);
    assert_eq!(MaterialKind::from_str_xrt("lens"), MaterialKind::Lens);
    assert_eq!(MaterialKind::from_str_xrt("Grating"), MaterialKind::Grating);
    assert_eq!(MaterialKind::from_str_xrt("FZP"), MaterialKind::Fzp);
    assert_eq!(MaterialKind::from_str_xrt("mirror "), MaterialKind::Auto);
    assert_ne!(MultilayerGeom::Reflected, MultilayerGeom::Transmitted);
    let _flat = FlatSurface;
}

#[test]
fn text_helpers() {
    assert_eq!(split_whitespace_str("  a bc\t d  "), vec!["a", "bc", "d"]);
    assert!(split_whitespace_str(" \n ").is_empty());
    assert_eq!(trim_str("\t x y \n"), "x y");
    assert_eq!(parse_usize("42"), Some(42));
    assert_eq!(parse_usize("+7"), Some(7));
    assert_eq!(parse_usize("-7"), None);
    assert_eq!(parse_usize("+"), None);
    assert_eq!(parse_usize(""), None);
    assert_eq!(parse_usize("1a"), None);
    assert_eq!(parse_usize("99999999999999999999999"), None);
    assert_eq!(parse_usize(&usize::MAX.to_string()), Some(usize::MAX));
    assert!(contains_str("brennan cowan", "cowan"));
    assert!(!contains_str("bra", "brag"));
    assert!(contains_str("x", ""));
    assert!(starts_with_str("#UP a", "#UP"));
    assert!(!starts_with_str("#U", "#UP"));
}

#[test]
fn screen_bins() {
    assert_eq!(bin_slot(2, 3, 4, 5), Some(13));
    assert_eq!(bin_slot(0, 0, 4, 5), Some(0));
    assert_eq!(bin_slot(3, 4, 4, 5), Some(19));
    assert_eq!(bin_slot(4, 0, 4, 5), None);
    assert_eq!(bin_slot(0, -1, 4, 5), None);
    assert_eq!(bin_slot(-1, 0, 4, 5), None);
}

#[test]
fn bracket_search_finds_the_segment() {
    let knots = [0.0, 1.0, 2.0, 4.0, 8.0];
    assert_eq!(bracket_search(knots.len(), |i| knots[i] <= 3.0), 2);
    assert_eq!(bracket_search(knots.len(), |i| knots[i] <= 1.0), 1);
    assert_eq!(bracket_search(knots.len(), |i| knots[i] <= 7.9), 3);
    assert_eq!(bracket_search(2, |_| true), 0);
    assert_eq!(bracket_search(knots.len(), |_| false), 0);
}
