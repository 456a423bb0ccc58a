# rudi

Type-safe dependency injection: values registered by type and optional name,
resolved asynchronously, with port bindings (`Arc<dyn Port>`), accumulated
multi-bindings, circular-dependency detection, shutdown hooks and introspection.

## Layout

- `src/` — the verified library (Verus):
  - `key.rs` — registration keys (type + optional name) and their equality;
  - `registry.rs` — single bindings ("last registration wins"), accumulated
    bindings, observed dependency edges, and `begin_resolve`, which decides each
    resolution step (circular dependency, not found, or the binding to build);
  - `resolution.rs` — the chain of resolutions in progress;
  - `shutdown.rs` — shutdown hooks, run last-registered first;
  - `error.rs` — `RudiError` and the exact text of each error;
  - `type_shape.rs`, `markers.rs`, `injectable_plan.rs`, `inject_plan.rs`,
    `derive_plan.rs` — what the code generators decide, over plain models of the
    items they decorate;
  - `laws.rs` — properties spanning several operations.
- `app/` — the asynchronous `Container` (tokio), the ambient `container()`,
  `testing::with_container`, the `Injectable` trait, the error type with the
  standard error traits and the introspection records (both with the public field
  name `type_name`; the library's own records call it `type_label`), and the token
  plumbing of the code generators (syn/quote).
- `tests/` — tests of the library.
