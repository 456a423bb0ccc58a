use rudi::ShutdownHooks;

#[test]
fn hooks_are_taken_in_reverse_registration_order() {
    let mut hooks = ShutdownHooks::new();
    for id in 1..=3 {
        hooks.register(id);
    }
    assert_eq!(hooks.take_for_shutdown(), vec![3, 2, 1]);
}

#[test]
fn shutdown_without_hooks_runs_nothing() {
    let mut hooks: ShutdownHooks<&str> = ShutdownHooks::new();
    assert!(hooks.take_for_shutdown().is_empty());
}

#[test]
fn second_shutdown_runs_nothing() {
    let mut hooks = ShutdownHooks::new();
    hooks.register("first");
    hooks.register("second");
    assert_eq!(hooks.take_for_shutdown(), vec!["second", "first"]);
    assert_eq!(hooks.len(), 0);
    assert!(hooks.take_for_shutdown().is_empty());
}
