//! Properties that span several operations of the library.
use crate::error::{circular_text, label_views, RudiError};
use crate::derive_plan::{derive_plan, fields_plan, DeriveShape, FieldsShape, FieldsStyle};
use crate::inject_plan::{container_marked, inject_plan, marked_from, InjectInputShape};
use crate::injectable_plan::{
    ctor_positions_from, injectable_plan, is_ctor, item_is_ctor, params_plan, return_plan, FnShape, ImplItemShape,
    ImplShape, InputShape, PortPlan, ReturnPlan, ReturnShape,
};
use crate::markers::{first_marker, ErrView, Marker};
use crate::type_shape::{
    collect_plan, field_plan, wrapped_inner, ArgsShape, CollectPlan, FieldPlan, GenericArgShape, TypeForm, TypeShape,
};
use crate::injectable_plan::{param_plan, ParamPlan};
use crate::key::{name_ref_view, Key, KeyView};
use crate::markers::{marker_of, unmarked_from};
use crate::registry::{edges_after, EdgeView, EntryModel, GroupModel, Registry};
use crate::resolution::{chain_contains, chain_labels, FrameView, ResolutionStack};
use crate::shutdown::ShutdownHooks;
use std::any::TypeId;
use vstd::prelude::*;

verus! {

/// Registering twice under the same key keeps only the second registration: the
/// result is as if the first had never happened.
pub proof fn law_last_registration_wins<P>(
    r0: Registry<P>,
    r1: Registry<P>,
    r2: Registry<P>,
    k: KeyView,
    first: EntryModel<P>,
    second: EntryModel<P>,
)
    requires
        r1.entries() == r0.entries().insert(k, first),
        r2.entries() == r1.entries().insert(k, second),
    ensures
        r2.entries()[k] == second,
        r2.entries() == r0.entries().insert(k, second),
{
    assert(r2.entries() =~= r0.entries().insert(k, second));
}

/// A registration under one key leaves every other key as it was; in particular a
/// named registration and an unnamed one of the same type never replace each other.
pub proof fn law_other_keys_untouched<P>(r0: Registry<P>, r1: Registry<P>, k: KeyView, e: EntryModel<P>, other: KeyView)
    requires
        r1.entries() == r0.entries().insert(k, e),
        other != k,
    ensures
        r1.entries().contains_key(other) == r0.entries().contains_key(other),
        r0.entries().contains_key(other) ==> r1.entries()[other] == r0.entries()[other],
{
}

/// The key of a named registration differs from the unnamed key of the same type,
/// and keys of the same type under different names differ: keys built by `Key::new`
/// from one type id never denote the same slot unless their names agree.
pub proof fn law_names_separate_keys(t: TypeId, a: &str, b: &str, unnamed: Key, named_a: Key, named_b: Key)
    requires
        unnamed@ == (t, name_ref_view(None)),
        named_a@ == (t, name_ref_view(Some(a))),
        named_b@ == (t, name_ref_view(Some(b))),
    ensures
        named_a@ != unnamed@,
        a@ != b@ ==> named_a@ != named_b@,
        a@ == b@ ==> named_a@ == named_b@,
{
}

/// Accumulating twice under the same key, starting from nothing, lists both payloads
/// in registration order.
pub proof fn law_many_accumulates_in_order<P>(
    r0: Registry<P>,
    r1: Registry<P>,
    r2: Registry<P>,
    k: KeyView,
    label: Seq<char>,
    first: P,
    second: P,
)
    requires
        !r0.groups().contains_key(k),
        r1.groups() == r0.groups().insert(k, (label, seq![first])),
        r2.groups() == r1.groups().insert(k, (r1.groups()[k].0, r1.groups()[k].1.push(second))),
    ensures
        r2.groups()[k].1 == seq![first, second],
        r2.groups()[k].0 == label,
{
    assert(r2.groups()[k].1 =~= seq![first, second]);
}

/// Single bindings and accumulated ones live apart: a change that keeps one side
/// leaves it exactly as it was, whatever happens on the other side.
pub proof fn law_single_and_many_independent<P>(
    r0: Registry<P>,
    r1: Registry<P>,
    k: KeyView,
    e: EntryModel<P>,
)
    requires
        r1.entries() == r0.entries().insert(k, e),
        r1.groups() == r0.groups(),
    ensures
        r1.groups().contains_key(k) == r0.groups().contains_key(k),
        r0.groups().contains_key(k) ==> r1.groups()[k] == r0.groups()[k],
{
}

/// A resolution started with nothing else in progress records no dependency edge.
pub proof fn law_top_level_resolution_records_no_edge(edges: Seq<EdgeView>, child: FrameView)
    ensures
        edges_after(edges, Seq::<FrameView>::empty(), child) == edges,
{
}

/// A resolution started inside another one records the edge from the enclosing
/// resolution to the new one, once: recording it again changes nothing.
pub proof fn law_nested_resolution_records_edge_once(edges: Seq<EdgeView>, stack: Seq<FrameView>, child: FrameView)
    requires
        stack.len() > 0,
    ensures
        exists|j: int|
            0 <= j < edges_after(edges, stack, child).len() && (#[trigger] edges_after(edges, stack, child)[j]).0.0 == stack.last().0
                && edges_after(edges, stack, child)[j].1.0 == child.0,
        edges_after(edges_after(edges, stack, child), stack, child) == edges_after(edges, stack, child),
{
    let e1 = edges_after(edges, stack, child);
    if !crate::registry::edge_known(edges, (stack.last(), child)) {
        assert(e1[edges.len() as int] == (stack.last(), child));
    }
    assert(crate::registry::edge_known(e1, (stack.last(), child)));
}

/// Entering a resolution and leaving it restores the chain as it was: when `enter`
/// accepted `key` on `s0`, giving `s1`, a `leave` on `s1` gives back `s0`.
pub proof fn law_leave_undoes_enter(
    s0: ResolutionStack,
    s1: ResolutionStack,
    s2: ResolutionStack,
    key: KeyView,
    label: Seq<char>,
)
    requires
        !chain_contains(s0@, key),
        s1@ == s0@.push((key, label)),
        s2@ == (if s1@.len() > 0 { s1@.drop_last() } else { s1@ }),
    ensures
        s2@ == s0@,
        !chain_contains(s2@, key),
{
    assert(s0@.push((key, label)).drop_last() =~= s0@);
}

/// Shutdown hooks run last-registered first: after `register(last)` on `h0`, giving
/// `h1`, `take_for_shutdown` on `h1` hands out `run` (leaving `h2`) with the hook
/// registered last first and the hook registered first last; a second shutdown on
/// `h2` hands out nothing.
pub proof fn law_shutdown_runs_last_registered_first<H>(
    h0: ShutdownHooks<H>,
    h1: ShutdownHooks<H>,
    h2: ShutdownHooks<H>,
    last: H,
    run: Seq<H>,
    second_run: Seq<H>,
)
    requires
        h1@ == h0@.push(last),
        run == h1@.reverse(),
        h2@ == Seq::<H>::empty(),
        second_run == h2@.reverse(),
    ensures
        run.len() == h0@.len() + 1,
        run[0] == last,
        h0@.len() > 0 ==> run.last() == h0@[0],
        forall|i: int| 0 <= i < h0@.len() ==> run[i + 1] == #[trigger] h0@[h0@.len() - 1 - i],
        second_run.len() == 0,
{
}

/// A constructor that can be planned gets one plan per parameter.
pub proof fn law_one_plan_per_parameter(inputs: Seq<InputShape>)
    ensures
        params_plan(inputs) matches Ok(ps) ==> ps.len() == inputs.len(),
    decreases inputs.len(),
{
    if inputs.len() > 0 {
        law_one_plan_per_parameter(inputs.drop_first());
    }
}

/// Stripping markers keeps exactly the attributes that are not markers, in their
/// order of appearance (positions are machine integers, so the list fits in memory).
pub proof fn law_stripping_keeps_exactly_the_unmarked(attrs: Seq<Option<Seq<char>>>, i: int)
    requires
        0 <= i <= attrs.len(),
        attrs.len() <= usize::MAX,
    ensures
        forall|k: int|
            0 <= k < unmarked_from(attrs, i).len() ==> i <= #[trigger] unmarked_from(attrs, i)[k] < attrs.len()
                && marker_of(attrs[unmarked_from(attrs, i)[k] as int]) is None,
        forall|k: int, l: int|
            0 <= k < l < unmarked_from(attrs, i).len() ==> #[trigger] unmarked_from(attrs, i)[k] < #[trigger] unmarked_from(attrs, i)[l],
        forall|j: int| i <= j < attrs.len() && marker_of(#[trigger] attrs[j]) is None ==> unmarked_from(attrs, i).contains(j as usize),
    decreases attrs.len() - i,
{
    if i < attrs.len() {
        law_stripping_keeps_exactly_the_unmarked(attrs, i + 1);
        let rest = unmarked_from(attrs, i + 1);
        let head: Seq<usize> = if marker_of(attrs[i]) is None { seq![i as usize] } else { Seq::empty() };
        assert(unmarked_from(attrs, i) == head + rest);
        let all = head + rest;
        assert forall|k: int| 0 <= k < all.len() implies i <= #[trigger] all[k] < attrs.len()
            && marker_of(attrs[all[k] as int]) is None by {
            if k >= head.len() {
                assert(all[k] == rest[k - head.len()]);
            }
        }
        assert forall|k: int, l: int| 0 <= k < l < all.len() implies #[trigger] all[k] < #[trigger] all[l] by {
            if k >= head.len() {
                assert(all[k] == rest[k - head.len()]);
                assert(all[l] == rest[l - head.len()]);
            } else {
                assert(all[l] == rest[l - head.len()]);
            }
        }
        assert forall|j: int| i <= j < attrs.len() && marker_of(#[trigger] attrs[j]) is None implies unmarked_from(attrs, i).contains(j as usize) by {
            if j == i {
                assert((head + rest)[0] == i as usize);
            } else {
                let t = choose|t: int| 0 <= t < rest.len() && rest[t] == j as usize;
                assert((head + rest)[head.len() + t] == j as usize);
            }
        }
    }
}


/// No key occurs twice on `frames`.
pub open spec fn chain_keys_distinct(frames: Seq<FrameView>) -> bool {
    forall|i: int, j: int| 0 <= i < frames.len() && 0 <= j < frames.len() && i != j ==> (#[trigger] frames[i]).0 != (#[trigger] frames[j]).0
}

/// A chain grown only by entering keys not already on it never holds a key twice:
/// entering keeps the keys of the chain distinct.
pub proof fn law_chain_never_repeats_a_key(frames: Seq<FrameView>, frame: FrameView)
    requires
        chain_keys_distinct(frames),
        !chain_contains(frames, frame.0),
    ensures
        chain_keys_distinct(frames.push(frame)),
{
    let t = frames.push(frame);
    assert forall|i: int, j: int| 0 <= i < t.len() && 0 <= j < t.len() && i != j implies (#[trigger] t[i]).0 != (#[trigger] t[j]).0 by {
        if i < frames.len() && j < frames.len() {
            assert(frames[i].0 != frames[j].0);
        } else if i < frames.len() {
            assert(frames[i].0 != frame.0);
        } else {
            assert(frames[j].0 != frame.0);
        }
    }
}

/// The chain reported for a circular dependency (by `enter` or `begin_resolve` on
/// `stack` when `label` is reached again) starts with the outermost resolution and
/// ends with the type reached again, one label per resolution in progress plus that
/// one, and the error's text lists that chain.
pub proof fn law_cycle_chain_shape(stack: ResolutionStack, label: &'static str, err: RudiError)
    requires
        err is CircularDependency,
        label_views(err->chain@) == chain_labels(stack@).push(label@),
    ensures
        err->chain@.len() == stack@.len() + 1,
        err->chain@.last()@ == label@,
        stack@.len() > 0 ==> err->chain@[0]@ == stack@[0].1,
        err.text() == circular_text(chain_labels(stack@).push(label@)),
{
    let chain = err->chain@;
    assert(label_views(chain).len() == chain.len());
    assert(label_views(chain)[chain.len() - 1] == chain.last()@);
    if stack@.len() > 0 {
        assert(label_views(chain)[0] == chain[0]@);
        assert(chain_labels(stack@)[0] == stack@[0].1);
    }
}

/// Every position listed from `i` on lies in `[i, items.len())` and holds a
/// function with the constructor shape.
proof fn lemma_ctor_positions_in_range(items: Seq<ImplItemShape>, i: int)
    requires
        0 <= i,
    ensures
        forall|k: int|
            0 <= k < ctor_positions_from(items, i).len() ==> i <= #[trigger] ctor_positions_from(items, i)[k]
                < items.len() && item_is_ctor(items[ctor_positions_from(items, i)[k]]),
        forall|j: int| i <= j < items.len() && item_is_ctor(#[trigger] items[j]) ==> ctor_positions_from(items, i).contains(j),
    decreases items.len() - i,
{
    if i < items.len() {
        lemma_ctor_positions_in_range(items, i + 1);
        let head: Seq<int> = if item_is_ctor(items[i]) { seq![i] } else { Seq::empty() };
        let rest = ctor_positions_from(items, i + 1);
        assert(ctor_positions_from(items, i) == head + rest);
        assert forall|k: int| 0 <= k < (head + rest).len() implies i <= #[trigger] (head + rest)[k] < items.len()
            && item_is_ctor(items[(head + rest)[k]]) by {
            if k >= head.len() {
                assert((head + rest)[k] == rest[k - head.len()]);
            }
        }
        assert forall|j: int| i <= j < items.len() && item_is_ctor(#[trigger] items[j]) implies (head + rest).contains(j) by {
            if j == i {
                assert((head + rest)[0] == i);
            } else {
                let t = choose|t: int| 0 <= t < rest.len() && rest[t] == j;
                assert((head + rest)[head.len() + t] == j);
            }
        }
    }
}

/// The plan `#[injectable]` makes is the plan of one function of the block with the
/// constructor shape: its position names that function, the generated code awaits
/// the constructor call exactly when that function is `async`, there is one plan per
/// parameter, and the port is the attribute's argument exactly when one is given.
/// (Positions are machine integers, so the block's items fit in memory.)
pub proof fn law_injectable_plans_the_chosen_constructor(imp: ImplShape)
    requires
        imp.items@.len() <= usize::MAX,
    ensures
        injectable_plan(imp) matches Ok(pv) ==> pv.0 < imp.items@.len() && (imp.items@[pv.0 as int] matches ImplItemShape::Fn(
            f,
        ) && is_ctor(f) && pv.1 == f.is_async && pv.2.len() == f.inputs@.len()),
        injectable_plan(imp) matches Ok(pv) ==> pv.5 == (if imp.has_port_argument {
            PortPlan::Argument
        } else {
            PortPlan::SelfType
        }),
        imp.is_trait_impl ==> injectable_plan(imp) is Err,
        (forall|j: int| 0 <= j < imp.items@.len() ==> !item_is_ctor(#[trigger] imp.items@[j])) ==> injectable_plan(imp) is Err,
        forall|a: int, b: int|
            0 <= a < b < imp.items@.len() && item_is_ctor(#[trigger] imp.items@[a]) && item_is_ctor(#[trigger] imp.items@[b])
                ==> injectable_plan(imp) is Err,
{
    lemma_ctor_positions_in_range(imp.items@, 0);
    let all = ctor_positions_from(imp.items@, 0);
    if all.len() > 0 {
        assert(item_is_ctor(imp.items@[all[0]]));
    }
    assert forall|a: int, b: int|
        0 <= a < b < imp.items@.len() && item_is_ctor(#[trigger] imp.items@[a]) && item_is_ctor(#[trigger] imp.items@[b])
            implies injectable_plan(imp) is Err by {
        assert(all.contains(a));
        assert(all.contains(b));
        let ka = choose|k: int| 0 <= k < all.len() && all[k] == a;
        let kb = choose|k: int| 0 <= k < all.len() && all[k] == b;
        assert(ka != kb);
    }
    if !imp.is_trait_impl {
        let found = ctor_positions_from(imp.items@, 0);
        if found.len() == 1 {
            assert(0 <= found[0] < imp.items@.len());
            assert((found[0] as usize) as int == found[0]);
            assert(item_is_ctor(imp.items@[found[0]]));
            match imp.items@[found[0]] {
                ImplItemShape::Fn(f) => {
                    law_one_plan_per_parameter(f.inputs@);
                },
                ImplItemShape::Other => {},
            }
        }
    }
}

/// Whether `t` is a path type whose last segment is `Result`.
pub open spec fn names_result(t: TypeShape) -> bool {
    t.form matches TypeForm::Path(Some(seg)) && seg.ident@ == "Result"@
}

/// The second angle-bracketed argument of `t`'s last segment, when it is a type.
pub open spec fn second_type_argument(t: TypeShape) -> Option<TypeShape> {
    match t.form {
        TypeForm::Path(Some(seg)) => match seg.args {
            ArgsShape::Angle(args) => if args@.len() >= 2 {
                match args@[1] {
                    GenericArgShape::Type(e) => Some(e),
                    GenericArgShape::Other => None,
                }
            } else {
                None
            },
            _ => None,
        },
        _ => None,
    }
}

/// How a constructor's declared return type is read: no declared type is refused;
/// any type that is not `Result<..>` is the value itself, whatever its name; a
/// `Result` whose second argument is a type `E` is the constructor's own result with
/// error type `E`, and any other `Result` is refused.
pub proof fn law_return_plan_by_declared_type(out: ReturnShape, at: usize)
    ensures
        match out {
            ReturnShape::Default => return_plan(out, at) is Err,
            ReturnShape::Type(t) => if !names_result(t) {
                return_plan(out, at) == Ok::<ReturnPlan, ErrView>(ReturnPlan::Bare)
            } else {
                match second_type_argument(t) {
                    Some(e) => return_plan(out, at) == Ok::<ReturnPlan, ErrView>(
                        ReturnPlan::Fallible { error_type: e.id },
                    ),
                    None => return_plan(out, at) is Err,
                }
            },
        },
{
}

/// Every position listed from `i` on lies in `[i, inputs.len())` and is marked
/// `#[container]`, and every marked position from `i` on is listed.
proof fn lemma_marked_positions(inputs: Seq<InjectInputShape>, i: int)
    requires
        0 <= i,
    ensures
        forall|k: int|
            0 <= k < marked_from(inputs, i).len() ==> i <= #[trigger] marked_from(inputs, i)[k] < inputs.len()
                && container_marked(inputs[marked_from(inputs, i)[k]]),
        forall|j: int| i <= j < inputs.len() && container_marked(#[trigger] inputs[j]) ==> marked_from(inputs, i).contains(j),
    decreases inputs.len() - i,
{
    if i < inputs.len() {
        lemma_marked_positions(inputs, i + 1);
        let head: Seq<int> = if container_marked(inputs[i]) { seq![i] } else { Seq::empty() };
        let rest = marked_from(inputs, i + 1);
        assert(marked_from(inputs, i) == head + rest);
        assert forall|k: int| 0 <= k < (head + rest).len() implies i <= #[trigger] (head + rest)[k] < inputs.len()
            && container_marked(inputs[(head + rest)[k]]) by {
            if k >= head.len() {
                assert((head + rest)[k] == rest[k - head.len()]);
            }
        }
        assert forall|j: int| i <= j < inputs.len() && container_marked(#[trigger] inputs[j]) implies (head + rest).contains(j) by {
            if j == i {
                assert((head + rest)[0] == i);
            } else {
                let t = choose|t: int| 0 <= t < rest.len() && rest[t] == j;
                assert((head + rest)[head.len() + t] == j);
            }
        }
    }
}

/// `#[inject]` replaces the one parameter marked `#[container]`: when it succeeds,
/// the parameter it removes is marked, no other parameter is, and the container is
/// bound by reference exactly when that parameter's type is a reference. With no
/// marked parameter, or with two, it fails. (Positions are machine integers, so the
/// inputs fit in memory.)
pub proof fn law_inject_binds_the_marked_parameter(inputs: Seq<InjectInputShape>)
    requires
        inputs.len() <= usize::MAX,
    ensures
        inject_plan(inputs) matches Ok(p) ==> p.index < inputs.len() && container_marked(inputs[p.index as int])
            && p.by_ref == inputs[p.index as int].by_ref,
        inject_plan(inputs) matches Ok(p) ==> forall|j: int|
            0 <= j < inputs.len() && j != p.index ==> !container_marked(#[trigger] inputs[j]),
        (forall|j: int| 0 <= j < inputs.len() ==> !container_marked(#[trigger] inputs[j])) ==> inject_plan(inputs) is Err,
        forall|a: int, b: int|
            0 <= a < b < inputs.len() && container_marked(#[trigger] inputs[a]) && container_marked(#[trigger] inputs[b])
                ==> inject_plan(inputs) is Err,
{
    lemma_marked_positions(inputs, 0);
    let m = marked_from(inputs, 0);
    if m.len() == 1 {
        assert(0 <= m[0] < inputs.len());
        assert((m[0] as usize) as int == m[0]);
        assert(container_marked(inputs[m[0]]));
        assert(inject_plan(inputs) == Ok::<_, ErrView>(
            crate::inject_plan::InjectPlan { index: m[0] as usize, by_ref: inputs[m[0]].by_ref },
        ));
        assert forall|j: int| 0 <= j < inputs.len() && j != m[0] implies !container_marked(#[trigger] inputs[j]) by {
            if container_marked(inputs[j]) {
                assert(m.contains(j));
            }
        }
    }
    assert forall|a: int, b: int|
        0 <= a < b < inputs.len() && container_marked(#[trigger] inputs[a]) && container_marked(#[trigger] inputs[b])
            implies inject_plan(inputs) is Err by {
        assert(m.contains(a));
        assert(m.contains(b));
        let ka = choose|k: int| 0 <= k < m.len() && m[k] == a;
        let kb = choose|k: int| 0 <= k < m.len() && m[k] == b;
        assert(ka != kb);
    }
}

/// `#[derive(Injectable)]` builds the value the way the struct is written: named
/// fields by name, a tuple struct positionally, a unit struct as itself, with one
/// plan per field, each that field's own plan; a struct can be derived exactly when
/// every field's type can be resolved, and anything but a struct fails.
pub proof fn law_derive_style_follows_the_fields(d: DeriveShape)
    ensures
        derive_plan(d) matches Ok(v) ==> match d.fields {
            FieldsShape::Named(ts) => v.0 == FieldsStyle::Named && v.1.len() == ts@.len(),
            FieldsShape::Unnamed(ts) => v.0 == FieldsStyle::Unnamed && v.1.len() == ts@.len(),
            FieldsShape::Unit => v.0 == FieldsStyle::Unit && v.1.len() == 0,
        },
        derive_plan(d) matches Ok(v) ==> match d.fields {
            FieldsShape::Named(ts) => forall|j: int| 0 <= j < ts@.len() ==> field_plan(ts@[j]) == Some(#[trigger] v.1[j]),
            FieldsShape::Unnamed(ts) => forall|j: int| 0 <= j < ts@.len() ==> field_plan(ts@[j]) == Some(#[trigger] v.1[j]),
            FieldsShape::Unit => true,
        },
        d.is_struct ==> (derive_plan(d) is Ok <==> match d.fields {
            FieldsShape::Named(ts) => forall|j: int| 0 <= j < ts@.len() ==> #[trigger] field_plan(ts@[j]) is Some,
            FieldsShape::Unnamed(ts) => forall|j: int| 0 <= j < ts@.len() ==> #[trigger] field_plan(ts@[j]) is Some,
            FieldsShape::Unit => true,
        }),
        !d.is_struct ==> derive_plan(d) is Err,
{
    match d.fields {
        FieldsShape::Named(ts) => law_fields_planned_in_order(ts@),
        FieldsShape::Unnamed(ts) => law_fields_planned_in_order(ts@),
        FieldsShape::Unit => {},
    }
}

/// The marker of a parameter is the first of its attributes that is a marker: with
/// none among them there is no marker, and otherwise every attribute before that
/// one is not a marker.
pub proof fn law_first_marker_is_the_first_marker_attribute(attrs: Seq<Option<Seq<char>>>)
    ensures
        first_marker(attrs) is None <==> forall|k: int| 0 <= k < attrs.len() ==> crate::markers::marker_of(#[trigger] attrs[k]) is None,
        first_marker(attrs) matches Some(m) ==> exists|k: int|
            0 <= k < attrs.len() && crate::markers::marker_of(#[trigger] attrs[k]) == Some(m) && forall|j: int|
                0 <= j < k ==> crate::markers::marker_of(#[trigger] attrs[j]) is None,
    decreases attrs.len(),
{
    if attrs.len() > 0 {
        let rest = attrs.drop_first();
        law_first_marker_is_the_first_marker_attribute(rest);
        assert forall|k: int| 0 <= k < rest.len() implies #[trigger] rest[k] == attrs[k + 1] by {}
        match crate::markers::marker_of(attrs[0]) {
            Some(m) => {
                assert(crate::markers::marker_of(attrs[0]) == Some(m));
            },
            None => {
                if first_marker(rest) is None {
                    assert forall|k: int| 0 <= k < attrs.len() implies crate::markers::marker_of(#[trigger] attrs[k]) is None by {
                        if k > 0 {
                            assert(attrs[k] == rest[k - 1]);
                        }
                    }
                } else {
                    let m = first_marker(rest)->Some_0;
                    let k = choose|k: int|
                        0 <= k < rest.len() && crate::markers::marker_of(#[trigger] rest[k]) == Some(m) && forall|j: int|
                            0 <= j < k ==> crate::markers::marker_of(#[trigger] rest[j]) is None;
                    assert(attrs[k + 1] == rest[k]);
                    assert forall|j: int| 0 <= j < k + 1 implies crate::markers::marker_of(#[trigger] attrs[j]) is None by {
                        if j > 0 {
                            assert(attrs[j] == rest[j - 1]);
                        }
                    }
                    assert(crate::markers::marker_of(attrs[k + 1]) == Some(m));
                }
            },
        }
    }
}

/// How a constructor parameter is obtained follows its marker: a receiver or a
/// parameter without marker is refused; `#[container]` gives the container, by
/// reference exactly when the parameter's type is a reference; `#[inject]` resolves
/// the parameter as a field of its type would be, and `#[inject_all]` collects.
pub proof fn law_param_follows_its_marker(i: InputShape)
    ensures
        match i {
            InputShape::Receiver => param_plan(i) is Err,
            InputShape::Typed(p) => match first_marker(crate::markers::attr_views(p.attrs@)) {
                None => param_plan(i) is Err,
                Some(Marker::Container) => param_plan(i) == Ok::<ParamPlan, ErrView>(
                    if p.ty.form is Reference {
                        ParamPlan::ContainerRef
                    } else {
                        ParamPlan::ContainerOwned
                    },
                ),
                Some(Marker::Inject) => match field_plan(p.ty) {
                    Some(fp) => param_plan(i) == Ok::<ParamPlan, ErrView>(ParamPlan::Inject(fp)),
                    None => param_plan(i) is Err,
                },
                Some(Marker::InjectAll) => match collect_plan(p.ty) {
                    Some(cp) => param_plan(i) == Ok::<ParamPlan, ErrView>(ParamPlan::InjectAll(cp)),
                    None => param_plan(i) is Err,
                },
            },
        },
{
}

/// How a field or parameter is resolved follows its declared type: `Arc<T>` is
/// required and `Option<Arc<T>>` optional; when `T` is a trait object the type
/// resolved is the `Arc<T>` itself (flattened afterwards), otherwise `T`; any other
/// type cannot be resolved.
pub proof fn law_field_plan_follows_the_type(t: TypeShape)
    ensures
        match wrapped_inner(t, "Arc"@) {
            Some(x) => field_plan(t) == Some(
                FieldPlan {
                    optional: false,
                    flatten: x.form is TraitObject,
                    target: if x.form is TraitObject { t.id } else { x.id },
                },
            ),
            None => match wrapped_inner(t, "Option"@) {
                Some(a) => match wrapped_inner(a, "Arc"@) {
                    Some(x) => field_plan(t) == Some(
                        FieldPlan {
                            optional: true,
                            flatten: x.form is TraitObject,
                            target: if x.form is TraitObject { a.id } else { x.id },
                        },
                    ),
                    None => field_plan(t) is None,
                },
                None => field_plan(t) is None,
            },
        },
{
    reveal_strlit("Arc");
    reveal_strlit("Option");
    assert("Arc"@.len() != "Option"@.len());
    if wrapped_inner(t, "Arc"@) is Some {
        assert(wrapped_inner(t, "Option"@) is None);
    }
}

/// How a parameter collects accumulated bindings follows its declared type: only
/// `Vec<Arc<T>>` collects, by `Arc<T>` (flattened) when `T` is a trait object and by
/// `T` otherwise.
pub proof fn law_collect_plan_follows_the_type(t: TypeShape)
    ensures
        match wrapped_inner(t, "Vec"@) {
            Some(a) => match wrapped_inner(a, "Arc"@) {
                Some(x) => collect_plan(t) == Some(
                    CollectPlan {
                        flatten: x.form is TraitObject,
                        target: if x.form is TraitObject { a.id } else { x.id },
                    },
                ),
                None => collect_plan(t) is None,
            },
            None => collect_plan(t) is None,
        },
{
}

/// Constructor parameters are planned one by one, in order: the planning succeeds
/// exactly when every parameter can be planned, and then the plan at each position
/// is that parameter's own plan.
pub proof fn law_params_planned_in_order(inputs: Seq<InputShape>)
    ensures
        params_plan(inputs) is Ok <==> forall|j: int| 0 <= j < inputs.len() ==> #[trigger] param_plan(inputs[j]) is Ok,
        params_plan(inputs) matches Ok(ps) ==> ps.len() == inputs.len() && forall|j: int|
            0 <= j < inputs.len() ==> param_plan(inputs[j]) == Ok::<ParamPlan, ErrView>(#[trigger] ps[j]),
    decreases inputs.len(),
{
    if inputs.len() > 0 {
        let rest = inputs.drop_first();
        law_params_planned_in_order(rest);
        assert forall|j: int| 0 <= j < rest.len() implies #[trigger] rest[j] == inputs[j + 1] by {}
        if params_plan(inputs) is Ok {
            let ps = params_plan(inputs)->Ok_0;
            let tail = params_plan(rest)->Ok_0;
            assert(ps == seq![param_plan(inputs[0])->Ok_0] + tail);
            assert forall|j: int| 0 <= j < inputs.len() implies param_plan(inputs[j]) == Ok::<ParamPlan, ErrView>(#[trigger] ps[j]) by {
                if j > 0 {
                    assert(ps[j] == tail[j - 1]);
                    assert(inputs[j] == rest[j - 1]);
                }
            }
            assert forall|j: int| 0 <= j < inputs.len() implies #[trigger] param_plan(inputs[j]) is Ok by {
                assert(param_plan(inputs[j]) == Ok::<ParamPlan, ErrView>(ps[j]));
            }
        } else {
            if param_plan(inputs[0]) is Ok {
                assert(params_plan(rest) is Err);
                let j0 = choose|j: int| 0 <= j < rest.len() && !(#[trigger] param_plan(rest[j]) is Ok);
                assert(rest[j0] == inputs[j0 + 1]);
                assert(param_plan(inputs[j0 + 1]) is Err);
            }
        }
    }
}

/// Fields are planned one by one, in order: the planning succeeds exactly when every
/// field's type can be resolved, and then the plan at each position is that field's
/// own plan.
pub proof fn law_fields_planned_in_order(types: Seq<TypeShape>)
    ensures
        fields_plan(types) is Ok <==> forall|j: int| 0 <= j < types.len() ==> #[trigger] field_plan(types[j]) is Some,
        fields_plan(types) matches Ok(ps) ==> ps.len() == types.len() && forall|j: int|
            0 <= j < types.len() ==> field_plan(types[j]) == Some(#[trigger] ps[j]),
    decreases types.len(),
{
    if types.len() > 0 {
        let rest = types.drop_first();
        law_fields_planned_in_order(rest);
        assert forall|j: int| 0 <= j < rest.len() implies #[trigger] rest[j] == types[j + 1] by {}
        if fields_plan(types) is Ok {
            let ps = fields_plan(types)->Ok_0;
            let tail = fields_plan(rest)->Ok_0;
            assert(ps == seq![field_plan(types[0])->Some_0] + tail);
            assert forall|j: int| 0 <= j < types.len() implies field_plan(types[j]) == Some(#[trigger] ps[j]) by {
                if j > 0 {
                    assert(ps[j] == tail[j - 1]);
                    assert(types[j] == rest[j - 1]);
                }
            }
            assert forall|j: int| 0 <= j < types.len() implies #[trigger] field_plan(types[j]) is Some by {
                assert(field_plan(types[j]) == Some(ps[j]));
            }
        } else {
            if field_plan(types[0]) is Some {
                assert(fields_plan(rest) is Err);
                let j0 = choose|j: int| 0 <= j < rest.len() && !(#[trigger] field_plan(rest[j]) is Some);
                assert(rest[j0] == types[j0 + 1]);
                assert(field_plan(types[j0 + 1]) is None);
            }
        }
    }
}

/// `kept` lists, in increasing order, exactly the positions of the attributes of
/// `attrs` that are not markers.
pub open spec fn keeps_exactly_unmarked(attrs: Seq<Option<Seq<char>>>, kept: Seq<usize>) -> bool {
    &&& forall|k: int| 0 <= k < kept.len() ==> #[trigger] kept[k] < attrs.len() && crate::markers::marker_of(attrs[kept[k] as int]) is None
    &&& forall|k: int, l: int| 0 <= k < l < kept.len() ==> #[trigger] kept[k] < #[trigger] kept[l]
    &&& forall|j: int| 0 <= j < attrs.len() && crate::markers::marker_of(#[trigger] attrs[j]) is None ==> kept.contains(j as usize)
}

/// Stripping the markers of a constructor keeps, on each parameter, exactly its
/// attributes that are not markers, in order, and nothing on a receiver.
pub proof fn law_kept_attrs_are_the_unmarked_ones(inputs: Seq<InputShape>)
    requires
        forall|j: int| 0 <= j < inputs.len() ==> (#[trigger] inputs[j] matches InputShape::Typed(p) ==> p.attrs@.len() <= usize::MAX),
    ensures
        crate::injectable_plan::kept_attrs(inputs).len() == inputs.len(),
        forall|j: int|
            0 <= j < inputs.len() ==> match #[trigger] inputs[j] {
                InputShape::Typed(p) => keeps_exactly_unmarked(
                    crate::markers::attr_views(p.attrs@),
                    crate::injectable_plan::kept_attrs(inputs)[j],
                ),
                InputShape::Receiver => crate::injectable_plan::kept_attrs(inputs)[j].len() == 0,
            },
{
    assert forall|j: int| 0 <= j < inputs.len() implies match #[trigger] inputs[j] {
        InputShape::Typed(p) => keeps_exactly_unmarked(
            crate::markers::attr_views(p.attrs@),
            crate::injectable_plan::kept_attrs(inputs)[j],
        ),
        InputShape::Receiver => crate::injectable_plan::kept_attrs(inputs)[j].len() == 0,
    } by {
        match inputs[j] {
            InputShape::Typed(p) => {
                let v = crate::markers::attr_views(p.attrs@);
                assert(v.len() == p.attrs@.len());
                law_stripping_keeps_exactly_the_unmarked(v, 0);
            },
            InputShape::Receiver => {},
        }
    }
}

} // verus!
