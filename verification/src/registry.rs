//! The registrations of a container: single bindings (last one wins), accumulated
//! multi-bindings, and the dependency edges observed while resolving.
use crate::assoc::{assoc_has, assoc_map, assoc_unique, lemma_assoc_at, lemma_assoc_push, lemma_assoc_update};
use crate::debug::{DebugEntry, DebugKind, DebugNode};
use crate::error::{label_views, RudiError};
use crate::key::{name_view, Key, KeyView};
use crate::resolution::{chain_contains, chain_labels, enter, Frame, FrameView, ResolutionStack};
use vstd::prelude::*;

verus! {

/// How a single binding produces its value.
#[derive(Debug, Clone, Copy, PartialEq, Eq, Structural)]
pub enum EntryKind {
    /// A value built before registration, handed out as is.
    Instance,
    /// A builder run again on every resolution.
    Transient,
    /// A builder run on the first resolution, whose value is then kept.
    Singleton,
}

/// The introspection kind of a binding of kind `k`.
pub open spec fn debug_kind_of(k: EntryKind) -> DebugKind {
    match k {
        EntryKind::Instance => DebugKind::Instance,
        EntryKind::Transient => DebugKind::Transient,
        EntryKind::Singleton => DebugKind::Singleton,
    }
}

/// The abstract value of a binding: its kind, its type label and its payload.
pub type EntryModel<P> = (EntryKind, Seq<char>, P);

/// The abstract value of an accumulated binding list: its type label and its
/// payloads in registration order.
pub type GroupModel<P> = (Seq<char>, Seq<P>);

/// The abstract value of a dependency edge: the resolution that was in progress
/// (the dependent) and the one it started (the dependency).
pub type EdgeView = (FrameView, FrameView);

struct Binding<P> {
    key: Key,
    kind: EntryKind,
    type_label: &'static str,
    payload: P,
}

impl<P> Binding<P> {
    spec fn pair(&self) -> (KeyView, EntryModel<P>) {
        (self.key@, (self.kind, self.type_label@, self.payload))
    }
}

struct ManyGroup<P> {
    key: Key,
    type_label: &'static str,
    slots: Vec<P>,
}

impl<P> ManyGroup<P> {
    spec fn pair(&self) -> (KeyView, GroupModel<P>) {
        (self.key@, (self.type_label@, self.slots@))
    }
}

struct Edge {
    parent: Frame,
    child: Frame,
}

impl Edge {
    spec fn model(&self) -> EdgeView {
        (self.parent@, self.child@)
    }
}

/// Whether `edges` already holds an edge between the keys of `e`.
pub open spec fn edge_known(edges: Seq<EdgeView>, e: EdgeView) -> bool {
    exists|j: int| 0 <= j < edges.len() && (#[trigger] edges[j]).0.0 == e.0.0 && edges[j].1.0 == e.1.0
}

/// The edges after `child` starts resolving on a chain `stack`: when something is in
/// progress, the edge from the innermost resolution to `child` is added unless an
/// edge between the same keys is already known.
pub open spec fn edges_after(edges: Seq<EdgeView>, stack: Seq<FrameView>, child: FrameView) -> Seq<EdgeView> {
    if stack.len() == 0 {
        edges
    } else if edge_known(edges, (stack.last(), child)) {
        edges
    } else {
        edges.push((stack.last(), child))
    }
}

/// No two edges of `edges` join the same pair of keys.
pub open spec fn edges_unique(edges: Seq<EdgeView>) -> bool {
    forall|i: int, j: int|
        0 <= i < edges.len() && 0 <= j < edges.len() && i != j ==> !(
        (#[trigger] edges[i]).0.0 == (#[trigger] edges[j]).0.0 && edges[i].1.0 == edges[j].1.0)
}

/// The registrations of one container.
pub struct Registry<P> {
    bindings: Vec<Binding<P>>,
    groups: Vec<ManyGroup<P>>,
    edges: Vec<Edge>,
}

impl<P> Registry<P> {
    closed spec fn binding_pairs(&self) -> Seq<(KeyView, EntryModel<P>)> {
        self.bindings@.map_values(|b: Binding<P>| b.pair())
    }

    closed spec fn group_pairs(&self) -> Seq<(KeyView, GroupModel<P>)> {
        self.groups@.map_values(|g: ManyGroup<P>| g.pair())
    }

    /// The single bindings: for each key, the last registration made under it.
    pub closed spec fn entries(&self) -> Map<KeyView, EntryModel<P>> {
        assoc_map(self.binding_pairs())
    }

    /// The keys of the single bindings, in order of their first registration.
    pub closed spec fn binding_order(&self) -> Seq<KeyView> {
        self.binding_pairs().map_values(|p: (KeyView, EntryModel<P>)| p.0)
    }

    /// The accumulated bindings: for each key, its type label and every payload
    /// accumulated under it, in registration order.
    pub closed spec fn groups(&self) -> Map<KeyView, GroupModel<P>> {
        assoc_map(self.group_pairs())
    }

    /// The keys of the accumulated bindings, in order of their first registration.
    pub closed spec fn group_order(&self) -> Seq<KeyView> {
        self.group_pairs().map_values(|p: (KeyView, GroupModel<P>)| p.0)
    }

    /// The dependency edges observed so far, in the order they were first seen.
    pub closed spec fn edges(&self) -> Seq<EdgeView> {
        self.edges@.map_values(|e: Edge| e.model())
    }

    /// The registry's internal invariant: no key is listed twice among the single
    /// bindings or among the accumulated ones, and no edge is recorded twice.
    pub closed spec fn wf(&self) -> bool {
        &&& assoc_unique(self.binding_pairs())
        &&& assoc_unique(self.group_pairs())
        &&& edges_unique(self.edges())
    }

    /// An empty registry.
    pub fn new() -> (r: Registry<P>)
        ensures
            r.wf(),
            r.entries() == Map::<KeyView, EntryModel<P>>::empty(),
            r.binding_order() == Seq::<KeyView>::empty(),
            r.groups() == Map::<KeyView, GroupModel<P>>::empty(),
            r.group_order() == Seq::<KeyView>::empty(),
            r.edges() == Seq::<EdgeView>::empty(),
    {
        let r = Registry { bindings: Vec::new(), groups: Vec::new(), edges: Vec::new() };
        assert(r.binding_pairs() =~= Seq::empty());
        assert(r.group_pairs() =~= Seq::empty());
        assert(r.entries() =~= Map::empty());
        assert(r.groups() =~= Map::empty());
        assert(r.binding_order() =~= Seq::empty());
        assert(r.group_order() =~= Seq::empty());
        assert(r.edges() =~= Seq::empty());
        r
    }

    /// Registers `payload` under `key`, replacing whatever was registered under the
    /// same key before ("last registration wins"). A key registered for the first
    /// time goes to the end of the registration order.
    pub fn insert_entry(&mut self, key: Key, kind: EntryKind, type_label: &'static str, payload: P)
        requires
            old(self).wf(),
        ensures
            final(self).wf(),
            final(self).entries() == old(self).entries().insert(key@, (kind, type_label@, payload)),
            final(self).binding_order() == if old(self).entries().contains_key(key@) {
                old(self).binding_order()
            } else {
                old(self).binding_order().push(key@)
            },
            final(self).groups() == old(self).groups(),
            final(self).group_order() == old(self).group_order(),
            final(self).edges() == old(self).edges(),
    {
        let ghost old_pairs = self.binding_pairs();
        let n = self.bindings.len();
        let mut i: usize = 0;
        while i < n
            invariant
                n == self.bindings@.len(),
                0 <= i <= n,
                self.binding_pairs() == old_pairs,
                forall|j: int| 0 <= j < i ==> (#[trigger] old_pairs[j]).0 != key@,
                *self == *old(self),
                old(self).wf(),
                assoc_unique(old_pairs),
            decreases n - i,
        {
            if self.bindings[i].key.same(&key) {
                let ghost k = key@;
                let b = Binding { key, kind, type_label, payload };
                proof {
                    lemma_assoc_update(old_pairs, i as int, b.pair());
                    lemma_assoc_at(old_pairs, i as int);
                }
                self.bindings.set(i, b);
                assert(self.binding_pairs() =~= old_pairs.update(i as int, (k, (kind, type_label@, payload))));
                assert(self.binding_order() =~= old(self).binding_order());
                assert(self.edges() == old(self).edges());
                assert(self.group_pairs() == old(self).group_pairs());
                return;
            }
            i = i + 1;
        }
        let b = Binding { key, kind, type_label, payload };
        proof {
            assert(!assoc_has(old_pairs, b.pair().0));
            lemma_assoc_push(old_pairs, b.pair());
        }
        self.bindings.push(b);
        assert(self.binding_pairs() =~= old_pairs.push(b.pair()));
        assert(self.binding_order() =~= old(self).binding_order().push(key@));
        assert(self.edges() == old(self).edges());
        assert(self.group_pairs() == old(self).group_pairs());
    }
}


impl<P> Registry<P> {
    /// Adds `payload` to the list accumulated under `key`, after everything already
    /// accumulated there. The single bindings are not touched, and the list keeps the
    /// type label of its first registration.
    pub fn push_many(&mut self, key: Key, type_label: &'static str, payload: P)
        requires
            old(self).wf(),
        ensures
            final(self).wf(),
            final(self).groups() == old(self).groups().insert(
                key@,
                if old(self).groups().contains_key(key@) {
                    (old(self).groups()[key@].0, old(self).groups()[key@].1.push(payload))
                } else {
                    (type_label@, seq![payload])
                },
            ),
            final(self).group_order() == if old(self).groups().contains_key(key@) {
                old(self).group_order()
            } else {
                old(self).group_order().push(key@)
            },
            final(self).entries() == old(self).entries(),
            final(self).binding_order() == old(self).binding_order(),
            final(self).edges() == old(self).edges(),
    {
        let ghost old_pairs = self.group_pairs();
        let n = self.groups.len();
        let mut i: usize = 0;
        while i < n
            invariant
                n == self.groups@.len(),
                0 <= i <= n,
                self.group_pairs() == old_pairs,
                forall|j: int| 0 <= j < i ==> (#[trigger] old_pairs[j]).0 != key@,
                *self == *old(self),
                old(self).wf(),
                assoc_unique(old_pairs),
            decreases n - i,
        {
            if self.groups[i].key.same(&key) {
                let ghost k = key@;
                let ghost old_group = old_pairs[i as int].1;
                proof {
                    lemma_assoc_at(old_pairs, i as int);
                    lemma_assoc_update(old_pairs, i as int, (k, (old_group.0, old_group.1.push(payload))));
                }
                self.groups[i].slots.push(payload);
                assert(self.group_pairs() =~= old_pairs.update(i as int, (k, (old_group.0, old_group.1.push(payload)))));
                assert(self.group_order() =~= old(self).group_order());
                assert(self.edges() == old(self).edges());
                assert(self.binding_pairs() == old(self).binding_pairs());
                return;
            }
            i = i + 1;
        }
        let mut slots: Vec<P> = Vec::new();
        slots.push(payload);
        let g = ManyGroup { key, type_label, slots };
        proof {
            assert(g.pair().1.1 =~= seq![payload]);
            assert(!assoc_has(old_pairs, g.pair().0));
            lemma_assoc_push(old_pairs, g.pair());
        }
        self.groups.push(g);
        assert(self.group_pairs() =~= old_pairs.push(g.pair()));
        assert(self.group_order() =~= old(self).group_order().push(key@));
        assert(self.edges() == old(self).edges());
        assert(self.binding_pairs() == old(self).binding_pairs());
    }

    /// Copies of the payloads accumulated under `key`, in registration order; empty
    /// when nothing was accumulated under it.
    pub fn many_slots(&self, key: &Key) -> (r: Vec<P>)
        where
            P: Clone,
        requires
            self.wf(),
        ensures
            self.groups().contains_key(key@) ==> {
                &&& r@.len() == self.groups()[key@].1.len()
                &&& forall|i: int| 0 <= i < r@.len() ==> cloned::<P>(self.groups()[key@].1[i], #[trigger] r@[i])
            },
            !self.groups().contains_key(key@) ==> r@.len() == 0,
    {
        let ghost pairs = self.group_pairs();
        let n = self.groups.len();
        let mut i: usize = 0;
        while i < n
            invariant
                n == self.groups@.len(),
                pairs == self.group_pairs(),
                0 <= i <= n,
                forall|j: int| 0 <= j < i ==> (#[trigger] pairs[j]).0 != key@,
                self.wf(),
            decreases n - i,
        {
            if self.groups[i].key.same(key) {
                proof {
                    lemma_assoc_at(pairs, i as int);
                }
                let slots = &self.groups[i].slots;
                let m = slots.len();
                let mut out: Vec<P> = Vec::new();
                let mut j: usize = 0;
                while j < m
                    invariant
                        m == slots@.len(),
                        0 <= j <= m,
                        out@.len() == j,
                        forall|t: int| 0 <= t < j ==> cloned::<P>(slots@[t], #[trigger] out@[t]),
                    decreases m - j,
                {
                    out.push(slots[j].clone());
                    j = j + 1;
                }
                assert(self.groups()[key@].1 == slots@);
                return out;
            }
            i = i + 1;
        }
        assert(!assoc_has(pairs, key@));
        Vec::new()
    }
}


impl<P> Registry<P> {
    /// The position of the single binding registered under `key`, if any.
    fn find_binding(&self, key: &Key) -> (r: Option<usize>)
        requires
            self.wf(),
        ensures
            r is None ==> !self.entries().contains_key(key@),
            r matches Some(i) ==> {
                &&& i < self.bindings@.len()
                &&& self.entries().contains_key(key@)
                &&& self.entries()[key@] == self.bindings@[i as int].pair().1
            },
    {
        let ghost pairs = self.binding_pairs();
        let n = self.bindings.len();
        let mut i: usize = 0;
        while i < n
            invariant
                n == self.bindings@.len(),
                pairs == self.binding_pairs(),
                0 <= i <= n,
                forall|j: int| 0 <= j < i ==> (#[trigger] pairs[j]).0 != key@,
                self.wf(),
            decreases n - i,
        {
            if self.bindings[i].key.same(key) {
                proof {
                    lemma_assoc_at(pairs, i as int);
                }
                return Some(i);
            }
            i = i + 1;
        }
        assert(!assoc_has(pairs, key@));
        None
    }

    /// Records that resolving `parent` started resolving `child`, unless an edge
    /// between the same two keys is already recorded.
    fn record_edge(&mut self, parent: Frame, child: Frame)
        requires
            old(self).wf(),
        ensures
            final(self).wf(),
            final(self).edges() == if edge_known(old(self).edges(), (parent@, child@)) {
                old(self).edges()
            } else {
                old(self).edges().push((parent@, child@))
            },
            final(self).binding_pairs() == old(self).binding_pairs(),
            final(self).group_pairs() == old(self).group_pairs(),
    {
        let n = self.edges.len();
        let mut i: usize = 0;
        while i < n
            invariant
                n == self.edges@.len(),
                0 <= i <= n,
                *self == *old(self),
                old(self).wf(),
                forall|j: int| 0 <= j < i ==> !((#[trigger] self.edges()[j]).0.0 == parent@.0 && self.edges()[j].1.0 == child@.0),
            decreases n - i,
        {
            if self.edges[i].parent.key().same(parent.key()) && self.edges[i].child.key().same(child.key()) {
                assert(self.edges()[i as int].0.0 == parent@.0);
                return;
            }
            i = i + 1;
        }
        let e = Edge { parent, child };
        self.edges.push(e);
        assert(self.edges() =~= old(self).edges().push((parent@, child@)));
        assert(self.binding_pairs() == old(self).binding_pairs());
        assert(self.group_pairs() == old(self).group_pairs());
    }

    /// Starts resolving `key`, whose type is called `type_label`, on the chain `stack`.
    ///
    /// - When `key` is already being resolved on the chain, the result is the
    ///   `CircularDependency` error naming every type on the chain followed by
    ///   `type_label`; nothing changes.
    /// - Otherwise, when nothing is registered under `key`, the result is the
    ///   `NotFound` error for `type_label` and the key's name; nothing changes.
    /// - Otherwise the result is the kind of the binding and a copy of its payload;
    ///   the key is pushed on the chain, and the edge from the innermost resolution
    ///   in progress (if any) to `key` is recorded. The caller pops the chain with
    ///   [`ResolutionStack::leave`] once the value is built.
    pub fn begin_resolve(&mut self, stack: &mut ResolutionStack, key: Key, type_label: &'static str) -> (r: Result<(EntryKind, P), RudiError>)
        where
            P: Clone,
        requires
            old(self).wf(),
        ensures
            final(self).wf(),
            final(self).entries() == old(self).entries(),
            final(self).binding_order() == old(self).binding_order(),
            final(self).groups() == old(self).groups(),
            final(self).group_order() == old(self).group_order(),
            chain_contains(old(stack)@, key@) ==> {
                &&& final(stack)@ == old(stack)@
                &&& final(self).edges() == old(self).edges()
                &&& r matches Err(RudiError::CircularDependency { chain })
                &&& label_views(chain@) == chain_labels(old(stack)@).push(type_label@)
            },
            !chain_contains(old(stack)@, key@) && !old(self).entries().contains_key(key@) ==> {
                &&& final(stack)@ == old(stack)@
                &&& final(self).edges() == old(self).edges()
                &&& r matches Err(RudiError::NotFound { type_label: l, name })
                &&& l == type_label
                &&& name_view(name) == key@.1
            },
            !chain_contains(old(stack)@, key@) && old(self).entries().contains_key(key@) ==> {
                &&& r matches Ok((kind, payload))
                &&& kind == old(self).entries()[key@].0
                &&& cloned::<P>(old(self).entries()[key@].2, payload)
                &&& final(stack)@ == old(stack)@.push((key@, type_label@))
                &&& final(self).edges() == edges_after(old(self).edges(), old(stack)@, (key@, type_label@))
            },
    {
        let parent = match stack.top() {
            Some(f) => Some(f.duplicate()),
            None => None,
        };
        let name = key.name();
        let child = Frame::new(key.duplicate(), type_label);
        let found = self.find_binding(&key);
        match enter(stack, key, type_label) {
            Err(e) => {
                return Err(e);
            },
            Ok(()) => {},
        }
        match found {
            None => {
                stack.leave();
                assert(final(stack)@ =~= old(stack)@);
                Err(RudiError::NotFound { type_label, name })
            },
            Some(i) => {
                let kind = self.bindings[i].kind;
                let payload = self.bindings[i].payload.clone();
                match parent {
                    Some(p) => {
                        self.record_edge(p, child);
                    },
                    None => {},
                }
                assert(self.entries() == old(self).entries());
                assert(self.binding_order() == old(self).binding_order());
                assert(self.groups() == old(self).groups());
                assert(self.group_order() == old(self).group_order());
                Ok((kind, payload))
            },
        }
    }
}


/// The abstract value of a [`DebugEntry`]: type label, name and kind.
pub type DebugEntryView = (Seq<char>, Option<Seq<char>>, DebugKind);

/// The view of a debug entry.
pub open spec fn debug_entry_view(e: DebugEntry) -> DebugEntryView {
    (e.type_label@, name_view(e.name), e.kind)
}

/// The abstract value of a [`DebugNode`]: type label and name.
pub open spec fn debug_node_view(n: DebugNode) -> (Seq<char>, Option<Seq<char>>) {
    (n.type_label@, name_view(n.name))
}

/// One introspection entry per payload accumulated under the keys of `order`, key by
/// key in that order, payloads in registration order.
pub open spec fn many_debug_entries<P>(order: Seq<KeyView>, groups: Map<KeyView, GroupModel<P>>) -> Seq<DebugEntryView>
    decreases order.len(),
{
    if order.len() == 0 {
        Seq::empty()
    } else {
        let k = order.last();
        many_debug_entries(order.drop_last(), groups) + Seq::new(
            groups[k].1.len(),
            |_i: int| (groups[k].0, k.1, DebugKind::Many),
        )
    }
}

impl<P> Registry<P> {
    /// What [`Registry::debug_entries`] lists: one entry per single binding, in
    /// registration order, then one entry per accumulated payload.
    pub open spec fn debug_view(&self) -> Seq<DebugEntryView> {
        self.binding_order().map_values(|k: KeyView| (self.entries()[k].1, k.1, debug_kind_of(self.entries()[k].0)))
            + many_debug_entries(self.group_order(), self.groups())
    }

    /// Lists every registration: each single binding with its kind, then one `Many`
    /// entry per payload accumulated through `push_many`.
    pub fn debug_entries(&self) -> (r: Vec<DebugEntry>)
        requires
            self.wf(),
        ensures
            r@.map_values(|e: DebugEntry| debug_entry_view(e)) == self.debug_view(),
    {
        let ghost bpairs = self.binding_pairs();
        let ghost gpairs = self.group_pairs();
        let mut out: Vec<DebugEntry> = Vec::new();
        let n = self.bindings.len();
        let mut i: usize = 0;
        while i < n
            invariant
                n == self.bindings@.len(),
                bpairs == self.binding_pairs(),
                self.wf(),
                0 <= i <= n,
                out@.map_values(|e: DebugEntry| debug_entry_view(e)) == self.binding_order().take(i as int).map_values(
                    |k: KeyView| (self.entries()[k].1, k.1, debug_kind_of(self.entries()[k].0)),
                ),
            decreases n - i,
        {
            let b = &self.bindings[i];
            let kind = match b.kind {
                EntryKind::Instance => DebugKind::Instance,
                EntryKind::Transient => DebugKind::Transient,
                EntryKind::Singleton => DebugKind::Singleton,
            };
            let ghost before = out@;
            out.push(DebugEntry { type_label: b.type_label, name: b.key.name(), kind });
            proof {
                lemma_assoc_at(bpairs, i as int);
                assert(self.binding_order()[i as int] == b.key@);
                assert(self.binding_order().take(i + 1) =~= self.binding_order().take(i as int).push(b.key@));
                assert(out@.map_values(|e: DebugEntry| debug_entry_view(e)) =~= before.map_values(|e: DebugEntry| debug_entry_view(e)).push(debug_entry_view(out@[i as int])));
            }
            i = i + 1;
        }
        assert(self.binding_order().take(n as int) =~= self.binding_order());
        let ghost prefix = out@.map_values(|e: DebugEntry| debug_entry_view(e));
        let m = self.groups.len();
        let mut g: usize = 0;
        while g < m
            invariant
                m == self.groups@.len(),
                gpairs == self.group_pairs(),
                self.wf(),
                0 <= g <= m,
                out@.map_values(|e: DebugEntry| debug_entry_view(e)) == prefix + many_debug_entries(self.group_order().take(g as int), self.groups()),
            decreases m - g,
        {
            let group = &self.groups[g];
            proof {
                lemma_assoc_at(gpairs, g as int);
                assert(self.group_order()[g as int] == group.key@);
                assert(self.group_order().take(g + 1).drop_last() =~= self.group_order().take(g as int));
            }
            let ghost start = out@.map_values(|e: DebugEntry| debug_entry_view(e));
            let ghost k = group.key@;
            let c = group.slots.len();
            let mut j: usize = 0;
            while j < c
                invariant
                    c == group.slots@.len(),
                    0 <= j <= c,
                    k == group.key@,
                    out@.map_values(|e: DebugEntry| debug_entry_view(e)) == start + Seq::new(
                        j as nat,
                        |_i: int| (group.type_label@, k.1, DebugKind::Many),
                    ),
                decreases c - j,
            {
                let ghost before = out@;
                out.push(DebugEntry { type_label: group.type_label, name: group.key.name(), kind: DebugKind::Many });
                assert(out@.map_values(|e: DebugEntry| debug_entry_view(e)) =~= before.map_values(|e: DebugEntry| debug_entry_view(e)).push(debug_entry_view(out@[before.len() as int])));
                assert(start + Seq::new((j + 1) as nat, |_i: int| (group.type_label@, k.1, DebugKind::Many)) =~= (start + Seq::new(j as nat, |_i: int| (group.type_label@, k.1, DebugKind::Many))).push((group.type_label@, k.1, DebugKind::Many)));
                j = j + 1;
            }
            proof {
                let order = self.group_order().take(g + 1);
                assert(order.last() == k);
                assert(self.groups()[k] == (group.type_label@, group.slots@));
                assert(prefix + many_debug_entries(order, self.groups()) =~= prefix + many_debug_entries(self.group_order().take(g as int), self.groups()) + Seq::new(
                    c as nat,
                    |_i: int| (group.type_label@, k.1, DebugKind::Many),
                ));
            }
            g = g + 1;
        }
        assert(self.group_order().take(m as int) =~= self.group_order());
        out
    }

    /// Lists the dependency edges observed so far, as (dependent, dependency) pairs,
    /// in the order they were first seen.
    pub fn debug_edges(&self) -> (r: Vec<(DebugNode, DebugNode)>)
        ensures
            r@.len() == self.edges().len(),
            forall|i: int| 0 <= i < r@.len() ==> {
                &&& debug_node_view((#[trigger] r@[i]).0) == (self.edges()[i].0.1, self.edges()[i].0.0.1)
                &&& debug_node_view(r@[i].1) == (self.edges()[i].1.1, self.edges()[i].1.0.1)
            },
    {
        let mut out: Vec<(DebugNode, DebugNode)> = Vec::new();
        let n = self.edges.len();
        let mut i: usize = 0;
        while i < n
            invariant
                n == self.edges@.len(),
                0 <= i <= n,
                out@.len() == i,
                forall|t: int| 0 <= t < i ==> {
                    &&& debug_node_view((#[trigger] out@[t]).0) == (self.edges()[t].0.1, self.edges()[t].0.0.1)
                    &&& debug_node_view(out@[t].1) == (self.edges()[t].1.1, self.edges()[t].1.0.1)
                },
            decreases n - i,
        {
            let e = &self.edges[i];
            let parent = DebugNode { type_label: e.parent.type_label(), name: e.parent.key().name() };
            let child = DebugNode { type_label: e.child.type_label(), name: e.child.key().name() };
            out.push((parent, child));
            i = i + 1;
        }
        out
    }
}

} // verus!
