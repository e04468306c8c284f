use prusto::{ErrorLocation, FailureInfo};

#[test]
fn test_loc() {
    let loc = ErrorLocation {
        line_number: 100,
        column_number: 15,
    };

    assert_eq!("(100, 15)", loc.display());
}

#[test]
fn test_failure() {
    let failure = FailureInfo {
        ty: "xxxty".to_string(),
        suppressed: vec![],
        stack: vec![
            "stack_1".to_string(),
            "stack_2".to_string(),
            "stack_3".to_string(),
        ],
        message: None,
        cause: None,
        error_location: None,
    };

    println!("{}", failure.display());
}
