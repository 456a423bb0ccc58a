use rudi::error::{join_chain, optional_from};
use rudi::RudiError;

#[test]
fn not_found_without_name_formats() {
    let err = RudiError::NotFound {
        type_label: "MyType",
        name: None,
    };
    assert_eq!(err.message(), "type not registered: MyType");
}

#[test]
fn not_found_with_name_formats() {
    let err = RudiError::NotFound {
        type_label: "MyType",
        name: Some("primary".to_string()),
    };
    assert_eq!(err.message(), "type not registered: MyType (name: primary)");
}

#[test]
fn build_failed_formats() {
    // The source error's text is what the error keeps of it: an error whose Display
    // is "boom".
    let err = RudiError::BuildFailed {
        type_label: "MyType",
        source: "boom".to_string(),
    };
    assert_eq!(err.message(), "failed to build MyType: boom");
}

#[test]
fn downcast_failed_formats() {
    let err = RudiError::DowncastFailed {
        type_label: "MyType",
    };
    assert_eq!(
        err.message(),
        "registered value for MyType could not be downcast (bug in rudi or type collision)"
    );
}

#[test]
fn circular_dependency_formats_the_chain() {
    let err = RudiError::CircularDependency {
        chain: vec!["A", "B", "A"],
    };
    assert_eq!(err.message(), "circular dependency detected: A -> B -> A");
}

#[test]
fn circular_dependency_of_a_single_type_formats() {
    let err = RudiError::CircularDependency { chain: vec!["Solo"] };
    assert_eq!(err.message(), "circular dependency detected: Solo");
}

#[test]
fn join_chain_handles_empty_and_many() {
    assert_eq!(join_chain(&vec![]), "");
    assert_eq!(join_chain(&vec!["X", "Y"]), "X -> Y");
}

#[test]
fn is_not_found_tells_the_variant() {
    assert!(RudiError::NotFound { type_label: "T", name: None }.is_not_found());
    assert!(!RudiError::DowncastFailed { type_label: "T" }.is_not_found());
}

#[test]
fn optional_turns_not_found_into_none() {
    let r: Result<u32, RudiError> = Err(RudiError::NotFound { type_label: "T", name: None });
    assert!(matches!(optional_from(r), Ok(None)));
}

#[test]
fn optional_wraps_a_value() {
    let r: Result<u32, RudiError> = Ok(7);
    assert!(matches!(optional_from(r), Ok(Some(7))));
}

#[test]
fn optional_keeps_build_failures() {
    let r: Result<u32, RudiError> = Err(RudiError::BuildFailed {
        type_label: "T",
        source: "boom".to_string(),
    });
    match optional_from(r) {
        Err(e) => assert_eq!(e.message(), "failed to build T: boom"),
        Ok(_) => panic!("a build failure must not become None"),
    }
}
