use std::any::TypeId;

use rudi::{DebugKind, EntryKind, Key, Registry, ResolutionStack, RudiError};

struct Config;
struct Adapter;
struct Leaf;
struct Parent;
struct Child;

fn key_of<T: 'static>() -> Key {
    Key::new(TypeId::of::<T>(), None)
}

fn named<T: 'static>(name: &str) -> Key {
    Key::new(TypeId::of::<T>(), Some(name))
}

#[test]
fn registered_instance_is_found() {
    let mut reg: Registry<u32> = Registry::new();
    reg.insert_entry(key_of::<Config>(), EntryKind::Instance, "Config", 42);
    let mut stack = ResolutionStack::new();
    let r = reg.begin_resolve(&mut stack, key_of::<Config>(), "Config");
    assert!(matches!(r, Ok((EntryKind::Instance, 42))));
    assert_eq!(stack.depth(), 1);
    stack.leave();
    assert_eq!(stack.depth(), 0);
}

#[test]
fn unregistered_type_is_not_found_and_leaves_the_chain_alone() {
    let mut reg: Registry<u32> = Registry::new();
    let mut stack = ResolutionStack::new();
    match reg.begin_resolve(&mut stack, key_of::<Config>(), "Config") {
        Err(e) => {
            assert!(e.is_not_found());
            assert_eq!(e.message(), "type not registered: Config");
        }
        Ok(_) => panic!("expected NotFound"),
    }
    assert_eq!(stack.depth(), 0);
}

#[test]
fn named_and_unnamed_registrations_coexist() {
    let mut reg: Registry<u32> = Registry::new();
    reg.insert_entry(key_of::<Config>(), EntryKind::Instance, "Config", 1);
    reg.insert_entry(named::<Config>("primary"), EntryKind::Instance, "Config", 2);
    let mut stack = ResolutionStack::new();
    let unnamed = reg.begin_resolve(&mut stack, key_of::<Config>(), "Config");
    stack.leave();
    let primary = reg.begin_resolve(&mut stack, named::<Config>("primary"), "Config");
    stack.leave();
    assert!(matches!(unnamed, Ok((_, 1))));
    assert!(matches!(primary, Ok((_, 2))));
}

#[test]
fn missing_name_is_not_found_with_that_name() {
    let mut reg: Registry<u32> = Registry::new();
    reg.insert_entry(named::<Config>("primary"), EntryKind::Instance, "Config", 1);
    let mut stack = ResolutionStack::new();
    match reg.begin_resolve(&mut stack, named::<Config>("replica"), "Config") {
        Err(e) => assert_eq!(e.message(), "type not registered: Config (name: replica)"),
        Ok(_) => panic!("expected NotFound"),
    }
}

#[test]
fn last_registration_wins() {
    let mut reg: Registry<&str> = Registry::new();
    reg.insert_entry(key_of::<Adapter>(), EntryKind::Singleton, "Adapter", "a");
    reg.insert_entry(key_of::<Adapter>(), EntryKind::Singleton, "Adapter", "b");
    let mut stack = ResolutionStack::new();
    assert!(matches!(
        reg.begin_resolve(&mut stack, key_of::<Adapter>(), "Adapter"),
        Ok((EntryKind::Singleton, "b"))
    ));
    assert_eq!(reg.debug_entries().len(), 1);
}

#[test]
fn direct_cycle_is_reported_with_its_chain() {
    struct A;
    struct B;
    let mut reg: Registry<u32> = Registry::new();
    reg.insert_entry(key_of::<A>(), EntryKind::Singleton, "A", 1);
    reg.insert_entry(key_of::<B>(), EntryKind::Singleton, "B", 2);
    let mut stack = ResolutionStack::new();
    assert!(reg.begin_resolve(&mut stack, key_of::<A>(), "A").is_ok());
    assert!(reg.begin_resolve(&mut stack, key_of::<B>(), "B").is_ok());
    match reg.begin_resolve(&mut stack, key_of::<A>(), "A") {
        Err(RudiError::CircularDependency { chain }) => {
            assert_eq!(chain, vec!["A", "B", "A"]);
        }
        _ => panic!("cycle must surface as an error"),
    }
    assert_eq!(stack.depth(), 2);
    let err = RudiError::CircularDependency { chain: vec!["A", "B", "A"] };
    assert!(err.message().contains("circular dependency detected"));
}

#[test]
fn non_cyclic_chain_resolves_and_records_edges() {
    struct C1;
    struct C2;
    struct C3;
    let mut reg: Registry<u32> = Registry::new();
    reg.insert_entry(key_of::<C1>(), EntryKind::Instance, "C1", 1);
    reg.insert_entry(key_of::<C2>(), EntryKind::Singleton, "C2", 2);
    reg.insert_entry(key_of::<C3>(), EntryKind::Singleton, "C3", 3);
    let mut stack = ResolutionStack::new();
    assert!(reg.begin_resolve(&mut stack, key_of::<C3>(), "C3").is_ok());
    assert!(reg.begin_resolve(&mut stack, key_of::<C2>(), "C2").is_ok());
    assert!(reg.begin_resolve(&mut stack, key_of::<C1>(), "C1").is_ok());
    stack.leave();
    stack.leave();
    stack.leave();
    assert_eq!(stack.depth(), 0);
    let edges = reg.debug_edges();
    assert_eq!(edges.len(), 2);
    assert_eq!(edges[0].0.type_label, "C3");
    assert_eq!(edges[0].1.type_label, "C2");
    assert_eq!(edges[1].0.type_label, "C2");
    assert_eq!(edges[1].1.type_label, "C1");
}

#[test]
fn debug_entries_list_every_registration_mode() {
    let mut reg: Registry<u32> = Registry::new();
    reg.insert_entry(key_of::<Config>(), EntryKind::Instance, "Config", 1);
    reg.insert_entry(key_of::<Adapter>(), EntryKind::Transient, "Adapter", 2);
    reg.insert_entry(key_of::<Leaf>(), EntryKind::Singleton, "Leaf", 3);
    let entries = reg.debug_entries();
    assert_eq!(entries.len(), 3);
    let kinds: Vec<_> = entries.iter().map(|e| e.kind).collect();
    assert_eq!(kinds, vec![DebugKind::Instance, DebugKind::Transient, DebugKind::Singleton]);
    assert_eq!(entries[0].type_label, "Config");
    assert_eq!(entries[0].name, None);
}

#[test]
fn debug_entries_list_one_many_entry_per_accumulated_payload() {
    let mut reg: Registry<u32> = Registry::new();
    reg.insert_entry(named::<Config>("primary"), EntryKind::Instance, "Config", 1);
    reg.push_many(key_of::<Adapter>(), "Adapter", 10);
    reg.push_many(key_of::<Adapter>(), "Adapter", 11);
    let entries = reg.debug_entries();
    assert_eq!(entries.len(), 3);
    assert_eq!(entries[0].name, Some("primary".to_string()));
    assert_eq!(entries[1].kind, DebugKind::Many);
    assert_eq!(entries[2].kind, DebugKind::Many);
    assert_eq!(entries[2].type_label, "Adapter");
}

#[test]
fn debug_edges_capture_nested_resolution_once() {
    let mut reg: Registry<u32> = Registry::new();
    reg.insert_entry(key_of::<Child>(), EntryKind::Instance, "Child", 1);
    reg.insert_entry(key_of::<Parent>(), EntryKind::Singleton, "Parent", 2);
    assert!(reg.debug_edges().is_empty(), "no resolution happened yet");
    let mut stack = ResolutionStack::new();
    for _ in 0..2 {
        assert!(reg.begin_resolve(&mut stack, key_of::<Parent>(), "Parent").is_ok());
        assert!(reg.begin_resolve(&mut stack, key_of::<Child>(), "Child").is_ok());
        stack.leave();
        stack.leave();
    }
    let edges = reg.debug_edges();
    assert_eq!(edges.len(), 1);
    assert_eq!(edges[0].0.type_label, "Parent");
    assert_eq!(edges[0].1.type_label, "Child");
}

#[test]
fn top_level_resolution_records_no_edge() {
    let mut reg: Registry<u32> = Registry::new();
    reg.insert_entry(key_of::<Leaf>(), EntryKind::Instance, "Leaf", 1);
    let mut stack = ResolutionStack::new();
    assert!(reg.begin_resolve(&mut stack, key_of::<Leaf>(), "Leaf").is_ok());
    assert!(reg.debug_edges().is_empty());
}

#[test]
fn many_slots_accumulate_in_order() {
    let mut reg: Registry<&str> = Registry::new();
    reg.push_many(key_of::<Adapter>(), "Adapter", "a");
    reg.push_many(key_of::<Adapter>(), "Adapter", "b");
    assert_eq!(reg.many_slots(&key_of::<Adapter>()), vec!["a", "b"]);
}

#[test]
fn many_slots_without_accumulation_are_empty() {
    let reg: Registry<&str> = Registry::new();
    assert!(reg.many_slots(&key_of::<Adapter>()).is_empty());
}

#[test]
fn single_and_many_bindings_are_independent() {
    let mut reg: Registry<&str> = Registry::new();
    reg.push_many(key_of::<Adapter>(), "Adapter", "many");
    reg.insert_entry(key_of::<Adapter>(), EntryKind::Singleton, "Adapter", "single");
    assert_eq!(reg.many_slots(&key_of::<Adapter>()), vec!["many"]);
    let mut stack = ResolutionStack::new();
    assert!(matches!(
        reg.begin_resolve(&mut stack, key_of::<Adapter>(), "Adapter"),
        Ok((EntryKind::Singleton, "single"))
    ));
}

#[test]
fn stack_reports_membership_and_chain() {
    let mut stack = ResolutionStack::new();
    assert!(stack.top().is_none());
    assert!(rudi::resolution::enter(&mut stack, key_of::<Parent>(), "Parent").is_ok());
    assert!(stack.contains(&key_of::<Parent>()));
    assert!(!stack.contains(&key_of::<Child>()));
    assert_eq!(stack.chain_with("Child"), vec!["Parent", "Child"]);
    assert_eq!(stack.top().unwrap().type_label(), "Parent");
    stack.leave();
    stack.leave();
    assert_eq!(stack.depth(), 0);
}

#[test]
fn separate_registries_do_not_interfere() {
    let mut first: Registry<&str> = Registry::new();
    let mut second: Registry<&str> = Registry::new();
    first.insert_entry(key_of::<Config>(), EntryKind::Instance, "Config", "a");
    second.insert_entry(key_of::<Config>(), EntryKind::Instance, "Config", "b");
    let mut stack = ResolutionStack::new();
    assert!(matches!(first.begin_resolve(&mut stack, key_of::<Config>(), "Config"), Ok((_, "a"))));
    stack.leave();
    assert!(matches!(second.begin_resolve(&mut stack, key_of::<Config>(), "Config"), Ok((_, "b"))));
    let empty: Registry<&str> = Registry::new();
    assert!(empty.debug_entries().is_empty());
}

#[test]
fn leaving_after_entering_restores_the_chain() {
    let mut stack = ResolutionStack::new();
    assert!(rudi::resolution::enter(&mut stack, key_of::<Parent>(), "Parent").is_ok());
    assert!(rudi::resolution::enter(&mut stack, key_of::<Child>(), "Child").is_ok());
    assert_eq!(stack.depth(), 2);
    stack.leave();
    assert_eq!(stack.depth(), 1);
    assert!(stack.contains(&key_of::<Parent>()));
    assert!(!stack.contains(&key_of::<Child>()));
    assert_eq!(stack.chain_with("X"), vec!["Parent", "X"]);
    // Entering again after leaving is accepted: the chain no longer holds `Child`.
    assert!(rudi::resolution::enter(&mut stack, key_of::<Child>(), "Child").is_ok());
}

#[test]
fn cycle_chain_starts_outermost_and_ends_with_the_repeated_type() {
    let mut stack = ResolutionStack::new();
    assert!(rudi::resolution::enter(&mut stack, key_of::<Parent>(), "Parent").is_ok());
    assert!(rudi::resolution::enter(&mut stack, key_of::<Child>(), "Child").is_ok());
    let err = rudi::resolution::enter(&mut stack, key_of::<Parent>(), "Parent").unwrap_err();
    match &err {
        RudiError::CircularDependency { chain } => assert_eq!(chain, &vec!["Parent", "Child", "Parent"]),
        other => panic!("unexpected {:?}", other),
    }
    assert_eq!(err.message(), "circular dependency detected: Parent -> Child -> Parent");
    assert_eq!(stack.depth(), 2);
}
