use std::collections::HashMap;
use xrt::data::{
    atomic_data_record, build_element_table, element_name, element_z, f1f2_keys, parse_f0_data,
    read_atomic_mass, read_f0_coeffs, resolve_element, F0ScanState, ScatteringTable, ELEMENTS_LIST,
};
use xrt::error::XrtError;

#[test]
fn elements_list_correct_length() {
    // 0=none + 1..92 elements = 93 entries
    assert_eq!(ELEMENTS_LIST.len(), 93);
}

#[test]
fn element_z_lookup() {
    assert_eq!(element_z("H"), Some(1));
    assert_eq!(element_z("Si"), Some(14));
    assert_eq!(element_z("U"), Some(92));
    assert_eq!(element_z("Xx"), None);
}

#[test]
fn scattering_table_from_str() {
    assert_eq!(
        ScatteringTable::from_str_xrt("Chantler total"),
        ScatteringTable::ChantlerTotal
    );
    assert_eq!(
        ScatteringTable::from_str_xrt("Henke"),
        ScatteringTable::Henke
    );
    assert_eq!(ScatteringTable::from_str_xrt("BrCo"), ScatteringTable::BrCo);
}

#[test]
fn element_names_and_numbers_are_inverse() {
    for z in 0..93 {
        let name = element_name(z).unwrap();
        assert_eq!(name, ELEMENTS_LIST[z]);
        assert_eq!(element_z(name), Some(z));
    }
    assert_eq!(element_name(93), None);
    assert_eq!(element_name(26), Some("Fe"));
}

#[test]
fn table_names_and_files() {
    assert_eq!(ScatteringTable::from_str_xrt("Brennan & Cowan"), ScatteringTable::BrCo);
    assert_eq!(ScatteringTable::from_str_xrt("chantler"), ScatteringTable::Chantler);
    assert_eq!(ScatteringTable::from_str_xrt("TOTAL henke"), ScatteringTable::Henke);
    assert_eq!(ScatteringTable::from_lowercase("xyz"), ScatteringTable::Chantler);
    assert_eq!(ScatteringTable::ChantlerTotal.filename(), "Chantler.npz");
    assert_eq!(ScatteringTable::Chantler.filename(), "Chantler.npz");
    assert_eq!(ScatteringTable::Henke.filename(), "Henke.npz");
    assert_eq!(ScatteringTable::BrCo.filename(), "BrCo.npz");
    assert_eq!(ScatteringTable::ChantlerTotal.f2_key_suffix(), "_f2tot");
    assert_eq!(ScatteringTable::Henke.f2_key_suffix(), "_f2");
}

#[test]
fn npz_keys_follow_the_element_name() {
    let (e, f1, f2) = f1f2_keys("Si", ScatteringTable::ChantlerTotal);
    assert_eq!(e, "Si_E.npy");
    assert_eq!(f1, "Si_f1.npy");
    assert_eq!(f2, "Si_f2tot.npy");
    let (_, _, f2) = f1f2_keys("Au", ScatteringTable::BrCo);
    assert_eq!(f2, "Au_f2.npy");
}

#[test]
fn elements_resolve_by_symbol_or_number() {
    assert_eq!(resolve_element("Si").unwrap(), (14, "Si".to_string()));
    assert_eq!(resolve_element("14").unwrap(), (14, "Si".to_string()));
    assert_eq!(resolve_element("+1").unwrap(), (1, "H".to_string()));
    match resolve_element("93") {
        Err(XrtError::ElementNotFound(m)) => assert_eq!(m, "Z=93"),
        other => panic!("unexpected {other:?}"),
    }
    match resolve_element("Xx") {
        Err(XrtError::ElementNotFound(m)) => assert_eq!(m, "Xx"),
        other => panic!("unexpected {other:?}"),
    }
}

#[test]
fn f0_scan_finds_coefficient_lines() {
    let text = "#F f0_xop.dat\n#S 14 Si\n#N 11\n#UP a1 a2\n1 2 3 4 5 6 7 8 9 10 11\n#S 1 H\n#UP\n# comment\n1 2 3\n0.4 0.3 0.2 0.1 0.05 0.0 1 2 3 4 5\n";
    let lines: Vec<&str> = text.lines().collect();
    let counts: Vec<usize> = lines
        .iter()
        .map(|l| l.split_whitespace().filter(|w| w.parse::<f64>().is_ok()).count())
        .collect();
    let found = parse_f0_data(&lines, &counts);
    assert_eq!(found, vec![(14, 4), (1, 9)]);

    let mut st = F0ScanState::new();
    assert_eq!(st.step("#S x", 0), None);
    assert_eq!(st.current_z, None);
    assert_eq!(st.step("1 2 3 4 5 6 7 8 9 10 11", 11), None);
}

#[test]
fn element_tables_keep_the_last_entry_and_report_missing_ones() {
    let table: HashMap<usize, [u32; 2]> =
        build_element_table(&vec![(14, [1, 2]), (1, [3, 4]), (14, [5, 6])]);
    assert_eq!(read_f0_coeffs(&table, 14).unwrap(), [5, 6]);
    assert_eq!(read_f0_coeffs(&table, 1).unwrap(), [3, 4]);
    match read_f0_coeffs(&table, 26) {
        Err(XrtError::ElementNotFound(m)) => assert_eq!(m, "f0 coefficients not found for Z=26"),
        other => panic!("unexpected {other:?}"),
    }
    let masses: HashMap<usize, u64> = build_element_table(&vec![(6, 12)]);
    assert_eq!(read_atomic_mass(&masses, 6).unwrap(), 12);
    match read_atomic_mass(&masses, 7) {
        Err(XrtError::ElementNotFound(m)) => assert_eq!(m, "atomic mass not found for Z=7"),
        other => panic!("unexpected {other:?}"),
    }
}

#[test]
fn atomic_data_lines() {
    assert_eq!(atomic_data_record("  14 Si 1.17 28.0855 2.33 \n"), Some((14, "28.0855")));
    assert_eq!(atomic_data_record("0  AtomicRadius x y"), None);
    assert_eq!(atomic_data_record("# header"), None);
    assert_eq!(atomic_data_record("   "), None);
    assert_eq!(atomic_data_record("14 Si 1.17"), None);
    assert_eq!(atomic_data_record("Si 14 1.17 28.0855"), None);
}
