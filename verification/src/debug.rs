//! Read-only descriptions of what a container holds and of what it has resolved.
use vstd::prelude::*;

verus! {

/// How a [`DebugEntry`] was registered.
#[derive(Debug, Clone, Copy, PartialEq, Eq, Structural)]
pub enum DebugKind {
    Instance,
    Transient,
    Singleton,
    /// Registered through `bind_many`: one entry per accumulated implementation, so
    /// several entries may share a type and name.
    Many,
}

/// One registration in a container.
#[derive(Debug, Clone, PartialEq, Eq)]
pub struct DebugEntry {
    pub type_label: &'static str,
    pub name: Option<String>,
    pub kind: DebugKind,
}

/// The identity of a resolved type, used on both ends of a dependency edge.
#[derive(Debug, Clone, PartialEq, Eq, Hash)]
pub struct DebugNode {
    pub type_label: &'static str,
    pub name: Option<String>,
}

} // verus!
