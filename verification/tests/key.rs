use std::any::TypeId;

use rudi::Key;

#[test]
fn keys_with_same_type_and_no_name_are_equal() {
    let a = Key::new(TypeId::of::<u32>(), None);
    let b = Key::new(TypeId::of::<u32>(), None);
    assert_eq!(a, b);
}

#[test]
fn keys_with_same_type_and_same_name_are_equal() {
    let a = Key::new(TypeId::of::<u32>(), Some("primary"));
    let b = Key::new(TypeId::of::<u32>(), Some("primary"));
    assert_eq!(a, b);
}

#[test]
fn keys_with_same_type_and_different_names_are_not_equal() {
    let a = Key::new(TypeId::of::<u32>(), Some("primary"));
    let b = Key::new(TypeId::of::<u32>(), Some("replica"));
    assert_ne!(a, b);
}

#[test]
fn keys_with_same_type_named_vs_unnamed_are_not_equal() {
    let a = Key::new(TypeId::of::<u32>(), None);
    let b = Key::new(TypeId::of::<u32>(), Some("primary"));
    assert_ne!(a, b);
}

#[test]
fn keys_with_different_types_are_not_equal() {
    let a = Key::new(TypeId::of::<u32>(), None);
    let b = Key::new(TypeId::of::<u64>(), None);
    assert_ne!(a, b);
}

#[test]
fn key_exposes_its_parts() {
    let k = Key::new(TypeId::of::<String>(), Some("replica"));
    assert_eq!(k.type_id(), TypeId::of::<String>());
    assert_eq!(k.name(), Some("replica".to_string()));
    assert_eq!(Key::new(TypeId::of::<String>(), None).name(), None);
}

#[test]
fn duplicated_and_cloned_keys_are_equal() {
    let k = Key::new(TypeId::of::<u8>(), Some("x"));
    assert!(k.same(&k.duplicate()));
    assert_eq!(k.clone(), k);
    assert!(!k.same(&Key::new(TypeId::of::<u8>(), Some("y"))));
}
