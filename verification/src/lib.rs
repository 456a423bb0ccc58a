//! A dependency-injection registry: registrations keyed by type and optional name
//! ("last registration wins"), resolution planning with circular-dependency
//! detection, accumulated multi-bindings, shutdown hooks run last-registered first,
//! introspection of what is registered and of the dependency edges observed, and
//! the planning done by the code generators (`#[injectable]`, `#[inject]`,
//! `#[derive(Injectable)]`) over plain models of the items they decorate.
pub mod assoc;
pub mod debug;
pub mod derive_plan;
pub mod error;
pub mod inject_plan;
pub mod injectable_plan;
pub mod key;
pub mod laws;
pub mod markers;
pub mod registry;
pub mod resolution;
pub mod shutdown;
pub mod text;
pub mod type_shape;

pub use debug::{DebugEntry, DebugKind, DebugNode};
pub use error::RudiError;
pub use key::Key;
pub use registry::{EntryKind, Registry};
pub use resolution::ResolutionStack;
pub use shutdown::ShutdownHooks;
