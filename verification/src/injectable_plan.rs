//! What `#[injectable]` generates for an inherent `impl` block: which function is the
//! constructor, how each of its parameters is obtained, and how its result is read.
use crate::markers::{
    attr_views, err_view, find_marker, first_marker, macro_error, unmarked_from, unmarked_positions, ErrView,
    MacroError, Marker, SpanTarget,
};
use crate::text::{decimal, decimal_text, join_strings, joined, string_views};
use crate::type_shape::{
    collect_plan, field_plan, find_first_type_arg, plan_collect, plan_field, text_is, ArgsShape, CollectPlan,
    FieldPlan, GenericArgShape, TypeForm, TypeShape,
};
use vstd::prelude::*;

use crate::laws::{
    keeps_exactly_unmarked, law_injectable_plans_the_chosen_constructor, law_one_plan_per_parameter,
    law_param_follows_its_marker, law_params_planned_in_order, law_return_plan_by_declared_type,
    names_result, second_type_argument,
};

verus! {

/// A typed function parameter: the paths of its attributes (see
/// [`crate::markers::attr_views`]) and its type.
pub struct ParamShape {
    pub attrs: Vec<Option<String>>,
    pub ty: TypeShape,
}

/// A function input.
pub enum InputShape {
    /// `self`, `&self`, `&mut self`.
    Receiver,
    /// A typed parameter.
    Typed(ParamShape),
}

/// A declared return type.
pub enum ReturnShape {
    /// No return type.
    Default,
    /// `-> T`.
    Type(TypeShape),
}

/// A function of the `impl` block.
pub struct FnShape {
    pub ident: String,
    pub is_async: bool,
    pub inputs: Vec<InputShape>,
    pub output: ReturnShape,
}

/// An item of the `impl` block.
pub enum ImplItemShape {
    Fn(FnShape),
    Other,
}

/// An `impl` block.
pub struct ImplShape {
    /// `impl Trait for Type` rather than `impl Type`.
    pub is_trait_impl: bool,
    /// A port type is given as the attribute's argument (`#[injectable(dyn Port)]`).
    pub has_port_argument: bool,
    pub items: Vec<ImplItemShape>,
}

/// The port through which the generated implementation is resolved.
#[derive(Debug, Clone, Copy, PartialEq, Eq, Structural)]
pub enum PortPlan {
    /// The decorated type itself: resolved by its concrete type.
    SelfType,
    /// The type given as the attribute's argument: resolved through that port.
    Argument,
}

/// The port of the generated implementation: the attribute's argument when one is
/// given, the decorated type otherwise.
pub open spec fn port_plan(has_argument: bool) -> PortPlan {
    if has_argument {
        PortPlan::Argument
    } else {
        PortPlan::SelfType
    }
}

/// The port of the generated implementation.
pub fn plan_port(has_argument: bool) -> (p: PortPlan)
    ensures
        p == port_plan(has_argument),
{
    if has_argument {
        PortPlan::Argument
    } else {
        PortPlan::SelfType
    }
}

/// How one constructor parameter is obtained.
#[derive(Debug, Clone, Copy, PartialEq, Eq, Structural)]
pub enum ParamPlan {
    /// `#[container]` on a reference type: a reference to the container.
    ContainerRef,
    /// `#[container]` on an owned type: the container itself.
    ContainerOwned,
    /// `#[inject]`: resolved from the container.
    Inject(FieldPlan),
    /// `#[inject_all]`: every accumulated binding.
    InjectAll(CollectPlan),
}

/// How the constructor's result is read.
#[derive(Debug, Clone, Copy, PartialEq, Eq, Structural)]
pub enum ReturnPlan {
    /// `-> Self`: the value itself; the generated error type is the library's.
    Bare,
    /// `-> Result<Self, E>`: the constructor's own result, with error type `E`.
    Fallible { error_type: usize },
}

/// What `#[injectable]` generates.
pub struct InjectablePlan {
    /// The position of the constructor among the items.
    pub ctor: usize,
    /// The constructor is `async` and its call is awaited.
    pub is_async: bool,
    /// How each parameter is obtained, in order.
    pub params: Vec<ParamPlan>,
    /// For each parameter, the positions of the attributes kept on it (markers are
    /// stripped from the emitted constructor).
    pub kept_attrs: Vec<Vec<usize>>,
    pub ret: ReturnPlan,
    pub port: PortPlan,
}

/// The abstract value of a plan.
pub type InjectablePlanView = (usize, bool, Seq<ParamPlan>, Seq<Seq<usize>>, ReturnPlan, PortPlan);

/// The view of a plan.
pub open spec fn plan_view(p: InjectablePlan) -> InjectablePlanView {
    (p.ctor, p.is_async, p.params@, p.kept_attrs@.map_values(|k: Vec<usize>| k@), p.ret, p.port)
}

/// The text when the decorated block implements a trait.
pub open spec fn trait_impl_text() -> Seq<char> {
    "#[injectable] deve decorar `impl Tipo { ... }` sem trait (não `impl Trait for Tipo`)"@
}

/// The text when no function has the constructor shape.
pub open spec fn no_ctor_text() -> Seq<char> {
    "#[injectable] exige uma fn construtor: sem `self`, todo parâmetro marcado #[inject]/#[inject_all]/#[container]"@
}

/// The text when several functions have the constructor shape.
pub open spec fn ambiguous_text(count: nat, names: Seq<Seq<char>>) -> Seq<char> {
    "#[injectable] ambíguo — "@ + decimal_text(count) + " fns candidatas a construtor: "@ + joined(names, ", "@)
}

/// The text when an `#[inject]` parameter has the wrong type.
pub open spec fn inject_type_text() -> Seq<char> {
    "#[inject] parâmetro deve ser Arc<T> ou Option<Arc<T>>"@
}

/// The text when an `#[inject_all]` parameter has the wrong type.
pub open spec fn inject_all_type_text() -> Seq<char> {
    "#[inject_all] parâmetro deve ser Vec<Arc<T>> (resolve_all sempre retorna Vec<Arc<T>>)"@
}

/// The text when a `Result` return type lacks its two type arguments.
pub open spec fn result_args_text() -> Seq<char> {
    "Result do construtor deve ter 2 parâmetros de tipo: Result<Self, Error>"@
}

/// The text when the constructor declares no return type.
pub open spec fn return_shape_text() -> Seq<char> {
    "construtor deve retornar `Self` ou `Result<Self, E>`"@
}

/// Whether an input is a typed parameter carrying a marker.
pub open spec fn input_marked(i: InputShape) -> bool {
    match i {
        InputShape::Typed(p) => first_marker(attr_views(p.attrs@)) is Some,
        InputShape::Receiver => false,
    }
}

/// The constructor shape: no receiver, at least one parameter, every parameter
/// marked.
pub open spec fn is_ctor(f: FnShape) -> bool {
    &&& f.inputs@.len() > 0
    &&& forall|j: int| 0 <= j < f.inputs@.len() ==> input_marked(#[trigger] f.inputs@[j])
}

/// Whether an item is a function with the constructor shape.
pub open spec fn item_is_ctor(item: ImplItemShape) -> bool {
    match item {
        ImplItemShape::Fn(f) => is_ctor(f),
        ImplItemShape::Other => false,
    }
}

/// The positions, from `i` on, of the items with the constructor shape.
pub open spec fn ctor_positions_from(items: Seq<ImplItemShape>, i: int) -> Seq<int>
    decreases items.len() - i,
{
    if i < 0 || i >= items.len() {
        Seq::empty()
    } else {
        (if item_is_ctor(items[i]) {
            seq![i]
        } else {
            Seq::empty()
        }) + ctor_positions_from(items, i + 1)
    }
}

/// The name of the function at position `i` (empty for other items).
pub open spec fn item_name(items: Seq<ImplItemShape>, i: int) -> Seq<char> {
    match items[i] {
        ImplItemShape::Fn(f) => f.ident@,
        ImplItemShape::Other => Seq::empty(),
    }
}

/// How a parameter is obtained, or the error it causes.
pub open spec fn param_plan(i: InputShape) -> Result<ParamPlan, ErrView> {
    match i {
        InputShape::Typed(p) => match first_marker(attr_views(p.attrs@)) {
            Some(Marker::Container) => Ok(
                if p.ty.form is Reference {
                    ParamPlan::ContainerRef
                } else {
                    ParamPlan::ContainerOwned
                },
            ),
            Some(Marker::Inject) => match field_plan(p.ty) {
                Some(fp) => Ok(ParamPlan::Inject(fp)),
                None => Err((inject_type_text(), SpanTarget::Type(p.ty.id))),
            },
            Some(Marker::InjectAll) => match collect_plan(p.ty) {
                Some(cp) => Ok(ParamPlan::InjectAll(cp)),
                None => Err((inject_all_type_text(), SpanTarget::Type(p.ty.id))),
            },
            None => Err((no_ctor_text(), SpanTarget::Item)),
        },
        InputShape::Receiver => Err((no_ctor_text(), SpanTarget::Item)),
    }
}

/// How every parameter is obtained, or the error of the first one that fails.
pub open spec fn params_plan(inputs: Seq<InputShape>) -> Result<Seq<ParamPlan>, ErrView>
    decreases inputs.len(),
{
    if inputs.len() == 0 {
        Ok(Seq::empty())
    } else {
        match param_plan(inputs[0]) {
            Err(e) => Err(e),
            Ok(p) => match params_plan(inputs.drop_first()) {
                Err(e) => Err(e),
                Ok(ps) => Ok(seq![p] + ps),
            },
        }
    }
}

/// `r` with `prefix` placed before its plans.
pub open spec fn after_prefix(prefix: Seq<ParamPlan>, r: Result<Seq<ParamPlan>, ErrView>) -> Result<Seq<ParamPlan>, ErrView> {
    match r {
        Ok(ps) => Ok(prefix + ps),
        Err(e) => Err(e),
    }
}

/// How the constructor's result is read, or the error its return type causes; `at`
/// is the constructor's position among the items.
pub open spec fn return_plan(out: ReturnShape, at: usize) -> Result<ReturnPlan, ErrView> {
    match out {
        ReturnShape::Default => Err((return_shape_text(), SpanTarget::Output(at))),
        ReturnShape::Type(t) => match t.form {
            TypeForm::Path(Some(seg)) => if seg.ident@ == "Result"@ {
                match seg.args {
                    ArgsShape::Angle(args) => if args@.len() >= 2 && args@[1] is Type {
                        Ok(ReturnPlan::Fallible { error_type: args@[1]->Type_0.id })
                    } else {
                        Err((result_args_text(), SpanTarget::Type(t.id)))
                    },
                    _ => Err((result_args_text(), SpanTarget::Type(t.id))),
                }
            } else {
                Ok(ReturnPlan::Bare)
            },
            _ => Ok(ReturnPlan::Bare),
        },
    }
}

/// The attributes kept on each input once markers are stripped.
pub open spec fn kept_attrs(inputs: Seq<InputShape>) -> Seq<Seq<usize>> {
    inputs.map_values(
        |i: InputShape|
            match i {
                InputShape::Typed(p) => unmarked_from(attr_views(p.attrs@), 0),
                InputShape::Receiver => Seq::empty(),
            },
    )
}

/// The plan for the constructor `f` at position `ctor`, resolved through `port`, or
/// the first error: the parameters are checked in order, then the return type.
pub open spec fn ctor_plan(f: FnShape, ctor: int, port: PortPlan) -> Result<InjectablePlanView, ErrView> {
    match params_plan(f.inputs@) {
        Err(e) => Err(e),
        Ok(ps) => match return_plan(f.output, ctor as usize) {
            Err(e) => Err(e),
            Ok(r) => Ok((ctor as usize, f.is_async, ps, kept_attrs(f.inputs@), r, port)),
        },
    }
}

/// What `#[injectable]` generates for `imp`, or the error it reports: a trait impl
/// is refused; otherwise exactly one function must have the constructor shape.
pub open spec fn injectable_plan(imp: ImplShape) -> Result<InjectablePlanView, ErrView> {
    if imp.is_trait_impl {
        Err((trait_impl_text(), SpanTarget::Item))
    } else {
        let found = ctor_positions_from(imp.items@, 0);
        if found.len() == 0 {
            Err((no_ctor_text(), SpanTarget::Item))
        } else if found.len() > 1 {
            Err(
                (
                    ambiguous_text(found.len(), found.map_values(|i: int| item_name(imp.items@, i))),
                    SpanTarget::Item,
                ),
            )
        } else {
            match imp.items@[found[0]] {
                ImplItemShape::Fn(f) => ctor_plan(f, found[0], port_plan(imp.has_port_argument)),
                ImplItemShape::Other => Err((no_ctor_text(), SpanTarget::Item)),
            }
        }
    }
}

/// Whether an input is a typed parameter carrying a marker.
fn marked_input(i: &InputShape) -> (r: bool)
    ensures
        r == input_marked(*i),
{
    match i {
        InputShape::Typed(p) => find_marker(&p.attrs).is_some(),
        InputShape::Receiver => false,
    }
}

/// Whether `f` has the constructor shape.
pub fn ctor_shape(f: &FnShape) -> (r: bool)
    ensures
        r == is_ctor(*f),
{
    let n = f.inputs.len();
    if n == 0 {
        return false;
    }
    let mut i: usize = 0;
    while i < n
        invariant
            n == f.inputs@.len(),
            0 <= i <= n,
            forall|j: int| 0 <= j < i ==> input_marked(#[trigger] f.inputs@[j]),
        decreases n - i,
    {
        if !marked_input(&f.inputs[i]) {
            return false;
        }
        i = i + 1;
    }
    true
}

/// How one parameter is obtained.
pub fn plan_param(i: &InputShape) -> (r: Result<ParamPlan, MacroError>)
    ensures
        match param_plan(*i) {
            Ok(p) => r == Ok::<ParamPlan, MacroError>(p),
            Err(e) => r matches Err(x) && err_view(x) == e,
        },
        match *i {
            InputShape::Receiver => r is Err,
            InputShape::Typed(p) => match first_marker(attr_views(p.attrs@)) {
                None => r is Err,
                Some(Marker::Container) => r == Ok::<ParamPlan, MacroError>(
                    if p.ty.form is Reference {
                        ParamPlan::ContainerRef
                    } else {
                        ParamPlan::ContainerOwned
                    },
                ),
                Some(Marker::Inject) => match field_plan(p.ty) {
                    Some(fp) => r == Ok::<ParamPlan, MacroError>(ParamPlan::Inject(fp)),
                    None => r is Err,
                },
                Some(Marker::InjectAll) => match collect_plan(p.ty) {
                    Some(cp) => r == Ok::<ParamPlan, MacroError>(ParamPlan::InjectAll(cp)),
                    None => r is Err,
                },
            },
        },
{
    proof {
        law_param_follows_its_marker(*i);
    }
    match i {
        InputShape::Typed(p) => match find_marker(&p.attrs) {
            Some(Marker::Container) => {
                let by_ref = match p.ty.form {
                    TypeForm::Reference => true,
                    _ => false,
                };
                Ok(if by_ref { ParamPlan::ContainerRef } else { ParamPlan::ContainerOwned })
            },
            Some(Marker::Inject) => match plan_field(&p.ty) {
                Some(fp) => Ok(ParamPlan::Inject(fp)),
                None => Err(macro_error("#[inject] parâmetro deve ser Arc<T> ou Option<Arc<T>>", SpanTarget::Type(p.ty.id))),
            },
            Some(Marker::InjectAll) => match plan_collect(&p.ty) {
                Some(cp) => Ok(ParamPlan::InjectAll(cp)),
                None => Err(
                    macro_error(
                        "#[inject_all] parâmetro deve ser Vec<Arc<T>> (resolve_all sempre retorna Vec<Arc<T>>)",
                        SpanTarget::Type(p.ty.id),
                    ),
                ),
            },
            None => Err(no_ctor_error()),
        },
        InputShape::Receiver => Err(no_ctor_error()),
    }
}

fn no_ctor_error() -> (e: MacroError)
    ensures
        err_view(e) == (no_ctor_text(), SpanTarget::Item),
{
    macro_error(
        "#[injectable] exige uma fn construtor: sem `self`, todo parâmetro marcado #[inject]/#[inject_all]/#[container]",
        SpanTarget::Item,
    )
}

/// How every parameter is obtained, or the error of the first that fails.
pub fn plan_params(inputs: &Vec<InputShape>) -> (r: Result<Vec<ParamPlan>, MacroError>)
    ensures
        match params_plan(inputs@) {
            Ok(ps) => r matches Ok(v) && v@ == ps,
            Err(e) => r matches Err(x) && err_view(x) == e,
        },
        r is Ok <==> forall|j: int| 0 <= j < inputs@.len() ==> #[trigger] param_plan(inputs@[j]) is Ok,
        r matches Ok(v) ==> v@.len() == inputs@.len() && forall|j: int|
            0 <= j < inputs@.len() ==> param_plan(inputs@[j]) == Ok::<ParamPlan, ErrView>(#[trigger] v@[j]),
{
    proof {
        law_params_planned_in_order(inputs@);
    }
    let n = inputs.len();
    let mut out: Vec<ParamPlan> = Vec::new();
    let mut i: usize = 0;
    assert(inputs@.skip(0) =~= inputs@);
    assert(after_prefix(out@, params_plan(inputs@)) =~= params_plan(inputs@)) by {
        match params_plan(inputs@) {
            Ok(ps) => assert(out@ + ps =~= ps),
            Err(_) => {},
        }
    }
    while i < n
        invariant
            n == inputs@.len(),
            0 <= i <= n,
            params_plan(inputs@) == after_prefix(out@, params_plan(inputs@.skip(i as int))),
        decreases n - i,
    {
        let ghost rest = inputs@.skip(i as int);
        assert(rest[0] == inputs@[i as int]);
        assert(rest.drop_first() =~= inputs@.skip(i + 1));
        match plan_param(&inputs[i]) {
            Err(e) => {
                return Err(e);
            },
            Ok(p) => {
                let ghost before = out@;
                out.push(p);
                assert(after_prefix(before, params_plan(rest)) == after_prefix(out@, params_plan(inputs@.skip(i + 1)))) by {
                    match params_plan(inputs@.skip(i + 1)) {
                        Ok(ps) => assert(before + (seq![p] + ps) =~= out@ + ps),
                        Err(_) => {},
                    }
                }
            },
        }
        i = i + 1;
    }
    assert(inputs@.skip(n as int).len() == 0);
    assert(out@ + Seq::<ParamPlan>::empty() =~= out@);
    Ok(out)
}

/// How the constructor's result is read.
pub fn plan_return(out: &ReturnShape, at: usize) -> (r: Result<ReturnPlan, MacroError>)
    ensures
        match return_plan(*out, at) {
            Ok(p) => r == Ok::<ReturnPlan, MacroError>(p),
            Err(e) => r matches Err(x) && err_view(x) == e,
        },
        match *out {
            ReturnShape::Default => r is Err,
            ReturnShape::Type(t) => if !names_result(t) {
                r == Ok::<ReturnPlan, MacroError>(ReturnPlan::Bare)
            } else {
                match second_type_argument(t) {
                    Some(e) => r == Ok::<ReturnPlan, MacroError>(ReturnPlan::Fallible { error_type: e.id }),
                    None => r is Err,
                }
            },
        },
{
    proof {
        law_return_plan_by_declared_type(*out, at);
    }
    match out {
        ReturnShape::Default => Err(
            macro_error("construtor deve retornar `Self` ou `Result<Self, E>`", SpanTarget::Output(at)),
        ),
        ReturnShape::Type(t) => match &t.form {
            TypeForm::Path(Some(seg)) => {
                if text_is(&seg.ident, "Result") {
                    match &seg.args {
                        ArgsShape::Angle(args) => {
                            if args.len() >= 2 {
                                match &args[1] {
                                    GenericArgShape::Type(e) => Ok(ReturnPlan::Fallible { error_type: e.id }),
                                    GenericArgShape::Other => Err(result_args_error(t.id)),
                                }
                            } else {
                                Err(result_args_error(t.id))
                            }
                        },
                        _ => Err(result_args_error(t.id)),
                    }
                } else {
                    Ok(ReturnPlan::Bare)
                }
            },
            _ => Ok(ReturnPlan::Bare),
        },
    }
}

fn result_args_error(id: usize) -> (e: MacroError)
    ensures
        err_view(e) == (result_args_text(), SpanTarget::Type(id)),
{
    macro_error("Result do construtor deve ter 2 parâmetros de tipo: Result<Self, Error>", SpanTarget::Type(id))
}

/// The attributes kept on each input once markers are stripped.
pub fn plan_kept_attrs(inputs: &Vec<InputShape>) -> (r: Vec<Vec<usize>>)
    ensures
        r@.map_values(|k: Vec<usize>| k@) == kept_attrs(inputs@),
        r@.len() == inputs@.len(),
        forall|j: int|
            0 <= j < inputs@.len() ==> match #[trigger] inputs@[j] {
                InputShape::Typed(p) => keeps_exactly_unmarked(attr_views(p.attrs@), r@[j]@),
                InputShape::Receiver => r@[j]@.len() == 0,
            },
{
    let n = inputs.len();
    let mut out: Vec<Vec<usize>> = Vec::new();
    let mut i: usize = 0;
    while i < n
        invariant
            n == inputs@.len(),
            0 <= i <= n,
            out@.map_values(|k: Vec<usize>| k@) == kept_attrs(inputs@).take(i as int),
            out@.len() == i,
            forall|j: int|
                0 <= j < i ==> match #[trigger] inputs@[j] {
                    InputShape::Typed(p) => keeps_exactly_unmarked(attr_views(p.attrs@), out@[j]@),
                    InputShape::Receiver => out@[j]@.len() == 0,
                },
        decreases n - i,
    {
        let ghost before = out@;
        let kept = match &inputs[i] {
            InputShape::Typed(p) => unmarked_positions(&p.attrs),
            InputShape::Receiver => Vec::new(),
        };
        assert(kept_attrs(inputs@)[i as int] == kept@);
        out.push(kept);
        assert(out@.map_values(|k: Vec<usize>| k@) =~= kept_attrs(inputs@).take(i + 1)) by {
            assert(out@.map_values(|k: Vec<usize>| k@) =~= before.map_values(|k: Vec<usize>| k@).push(kept@));
        }
        i = i + 1;
    }
    assert(kept_attrs(inputs@).take(n as int) =~= kept_attrs(inputs@));
    out
}


/// The plan for the constructor `f` at position `ctor`, resolved through `port`.
pub fn plan_ctor(f: &FnShape, ctor: usize, port: PortPlan) -> (r: Result<InjectablePlan, MacroError>)
    ensures
        match ctor_plan(*f, ctor as int, port) {
            Ok(pv) => r matches Ok(p) && plan_view(p) == pv,
            Err(e) => r matches Err(x) && err_view(x) == e,
        },
        r matches Ok(p) ==> p.ctor == ctor && p.is_async == f.is_async && p.port == port && p.params@.len()
            == f.inputs@.len() && p.kept_attrs@.len() == f.inputs@.len(),
        r matches Ok(p) ==> forall|j: int|
            0 <= j < f.inputs@.len() ==> param_plan(f.inputs@[j]) == Ok::<ParamPlan, ErrView>(#[trigger] p.params@[j]),
        r matches Ok(p) ==> forall|j: int|
            0 <= j < f.inputs@.len() ==> match #[trigger] f.inputs@[j] {
                InputShape::Typed(a) => keeps_exactly_unmarked(attr_views(a.attrs@), p.kept_attrs@[j]@),
                InputShape::Receiver => p.kept_attrs@[j]@.len() == 0,
            },
        r matches Ok(p) ==> return_plan(f.output, ctor) == Ok::<ReturnPlan, ErrView>(p.ret),
{
    proof {
        law_one_plan_per_parameter(f.inputs@);
    }
    let params = match plan_params(&f.inputs) {
        Ok(ps) => ps,
        Err(e) => {
            return Err(e);
        },
    };
    let ret = match plan_return(&f.output, ctor) {
        Ok(rp) => rp,
        Err(e) => {
            return Err(e);
        },
    };
    let kept_attrs = plan_kept_attrs(&f.inputs);
    proof {
        assert(kept_attrs@.map_values(|k: Vec<usize>| k@).len() == kept_attrs@.len());
        assert(crate::injectable_plan::kept_attrs(f.inputs@).len() == f.inputs@.len());
    }
    Ok(InjectablePlan { ctor, is_async: f.is_async, params, kept_attrs, ret, port })
}

/// The views of a sequence of positions.
pub open spec fn positions_view(v: Seq<usize>) -> Seq<int> {
    v.map_values(|x: usize| x as int)
}

/// What `#[injectable]` generates for `imp`, or the error it reports.
pub fn plan_injectable(imp: &ImplShape) -> (r: Result<InjectablePlan, MacroError>)
    ensures
        match injectable_plan(*imp) {
            Ok(pv) => r matches Ok(p) && plan_view(p) == pv,
            Err(e) => r matches Err(x) && err_view(x) == e,
        },
        r matches Ok(p) ==> p.ctor < imp.items@.len() && (imp.items@[p.ctor as int] matches ImplItemShape::Fn(f)
            && is_ctor(f) && p.is_async == f.is_async && p.params@.len() == f.inputs@.len()),
        r matches Ok(p) ==> p.port == (if imp.has_port_argument {
            PortPlan::Argument
        } else {
            PortPlan::SelfType
        }),
        imp.is_trait_impl ==> r is Err,
        (forall|j: int| 0 <= j < imp.items@.len() ==> !item_is_ctor(#[trigger] imp.items@[j])) ==> r is Err,
        forall|a: int, b: int|
            0 <= a < b < imp.items@.len() && item_is_ctor(#[trigger] imp.items@[a]) && item_is_ctor(#[trigger] imp.items@[b])
                ==> r is Err,
{
    let item_count = imp.items.len();
    proof {
        assert(imp.items@.len() == item_count);
        law_injectable_plans_the_chosen_constructor(*imp);
    }
    if imp.is_trait_impl {
        return Err(
            macro_error(
                "#[injectable] deve decorar `impl Tipo { ... }` sem trait (não `impl Trait for Tipo`)",
                SpanTarget::Item,
            ),
        );
    }
    let ghost items = imp.items@;
    let n = imp.items.len();
    let mut found: Vec<usize> = Vec::new();
    let mut i: usize = 0;
    assert(positions_view(found@) + ctor_positions_from(items, 0) =~= ctor_positions_from(items, 0));
    while i < n
        invariant
            n == items.len(),
            items == imp.items@,
            0 <= i <= n,
            ctor_positions_from(items, 0) == positions_view(found@) + ctor_positions_from(items, i as int),
            forall|k: int| 0 <= k < found@.len() ==> 0 <= #[trigger] found@[k] < n,
        decreases n - i,
    {
        let ghost before = found@;
        let is_candidate = match &imp.items[i] {
            ImplItemShape::Fn(f) => ctor_shape(f),
            ImplItemShape::Other => false,
        };
        if is_candidate {
            found.push(i);
        }
        assert(ctor_positions_from(items, i as int) == (if item_is_ctor(items[i as int]) {
            seq![i as int]
        } else {
            Seq::<int>::empty()
        }) + ctor_positions_from(items, i + 1));
        assert(positions_view(before) + ctor_positions_from(items, i as int) =~= positions_view(found@)
            + ctor_positions_from(items, i + 1));
        i = i + 1;
    }
    assert(ctor_positions_from(items, n as int) =~= Seq::<int>::empty());
    assert(positions_view(found@) + ctor_positions_from(items, n as int) =~= positions_view(found@));
    let ghost fv = positions_view(found@);
    let count = found.len();
    if count == 0 {
        return Err(no_ctor_error());
    }
    if count > 1 {
        let mut names: Vec<String> = Vec::new();
        let mut k: usize = 0;
        while k < count
            invariant
                count == found@.len(),
                fv == positions_view(found@),
                items == imp.items@,
                0 <= k <= count,
                forall|t: int| 0 <= t < found@.len() ==> 0 <= #[trigger] found@[t] < items.len(),
                string_views(names@) == fv.take(k as int).map_values(|p: int| item_name(items, p)),
            decreases count - k,
        {
            let ghost before = names@;
            let name = match &imp.items[found[k]] {
                ImplItemShape::Fn(f) => f.ident.clone(),
                ImplItemShape::Other => String::new(),
            };
            assert(name@ == item_name(items, fv[k as int]));
            names.push(name);
            assert(string_views(names@) =~= string_views(before).push(name@));
            assert(fv.take(k + 1).map_values(|p: int| item_name(items, p)) =~= fv.take(k as int).map_values(
                |p: int| item_name(items, p),
            ).push(item_name(items, fv[k as int])));
            k = k + 1;
        }
        assert(fv.take(count as int) =~= fv);
        let mut msg = String::new();
        msg.append("#[injectable] ambíguo — ");
        let num = decimal(count);
        msg.append(num.as_str());
        msg.append(" fns candidatas a construtor: ");
        let list = join_strings(&names, ", ");
        msg.append(list.as_str());
        return Err(MacroError { message: msg, span: SpanTarget::Item });
    }
    let ctor = found[0];
    match &imp.items[ctor] {
        ImplItemShape::Fn(f) => plan_ctor(f, ctor, plan_port(imp.has_port_argument)),
        ImplItemShape::Other => Err(no_ctor_error()),
    }
}

} // verus!
