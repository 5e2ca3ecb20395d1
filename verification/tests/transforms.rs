use xrt::error::XrtError;
use xrt::transforms::{parse_rotation_sequence, Axis};

#[test]
fn test_parse_rotation_sequence() {
    let axes = parse_rotation_sequence("RzRyRx").unwrap();
    assert_eq!(axes, [Axis::Z, Axis::Y, Axis::X]);

    let axes = parse_rotation_sequence("-RzRyRx").unwrap();
    assert_eq!(axes, [Axis::X, Axis::Y, Axis::Z]);

    let axes = parse_rotation_sequence("RxRzRy").unwrap();
    assert_eq!(axes, [Axis::X, Axis::Z, Axis::Y]);
}

#[test]
fn test_parse_rotation_sequence_invalid() {
    assert!(parse_rotation_sequence("Rz").is_err());
    assert!(parse_rotation_sequence("RzRyRq").is_err());
    assert!(parse_rotation_sequence("AzRyRx").is_err());
}

#[test]
fn minus_sign_reverses_the_order() {
    for s in ["RxRyRz", "RzRzRx", "RyRxRz"] {
        let mut forward = parse_rotation_sequence(s).unwrap();
        forward.reverse();
        assert_eq!(parse_rotation_sequence(&format!("-{s}")).unwrap(), forward);
    }
}

#[test]
fn malformed_sequences_report_the_text() {
    match parse_rotation_sequence("--RzRyRx") {
        Err(XrtError::InvalidRotationSequence(m)) => assert_eq!(m, "--RzRyRx"),
        other => panic!("unexpected {other:?}"),
    }
    assert!(parse_rotation_sequence("").is_err());
    assert!(parse_rotation_sequence("-").is_err());
    assert!(parse_rotation_sequence("RZRyRx").is_err());
    assert!(parse_rotation_sequence("RzRyRxRz").is_err());
    assert!(parse_rotation_sequence("RzRyRé").is_err());
}
