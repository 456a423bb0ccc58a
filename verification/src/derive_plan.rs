//! What `#[derive(Injectable)]` generates for a struct: how each field is resolved.
use crate::injectable_plan::{PortPlan, ReturnPlan};
use crate::markers::{err_view, macro_error, ErrView, MacroError, SpanTarget};
use crate::type_shape::{field_plan, plan_field, FieldPlan, TypeShape};
use vstd::prelude::*;

use crate::laws::{law_derive_style_follows_the_fields, law_fields_planned_in_order};

verus! {

/// The fields of the derived item.
pub enum FieldsShape {
    /// `struct S { a: A, .. }`: the field types in order.
    Named(Vec<TypeShape>),
    /// `struct S(A, ..)`: the field types in order.
    Unnamed(Vec<TypeShape>),
    /// `struct S;`
    Unit,
}

/// The derived item.
pub struct DeriveShape {
    /// The item is a struct (not an enum or a union).
    pub is_struct: bool,
    pub fields: FieldsShape,
}

/// How the value is assembled.
#[derive(Debug, Clone, Copy, PartialEq, Eq, Structural)]
pub enum FieldsStyle {
    Named,
    Unnamed,
    Unit,
}

/// What `#[derive(Injectable)]` generates: the field style and, field by field, how
/// each is resolved. The value is resolved by its own type (`port` is always
/// `SelfType`) and its error type is the library's (`ret` is always `Bare`).
pub struct DerivePlan {
    pub style: FieldsStyle,
    pub fields: Vec<FieldPlan>,
    pub port: PortPlan,
    pub ret: ReturnPlan,
}

/// The text when the derived item is not a struct.
pub open spec fn not_struct_text() -> Seq<char> {
    "#[derive(Injectable)] só suporta struct"@
}

/// The text when a field has neither the `Arc<T>` nor the `Option<Arc<T>>` shape.
pub open spec fn field_type_text() -> Seq<char> {
    "campo de #[derive(Injectable)] deve ser Arc<T> ou Option<Arc<T>>"@
}

/// How each field is resolved, or the error of the first that cannot be.
pub open spec fn fields_plan(types: Seq<TypeShape>) -> Result<Seq<FieldPlan>, ErrView>
    decreases types.len(),
{
    if types.len() == 0 {
        Ok(Seq::empty())
    } else {
        match field_plan(types[0]) {
            None => Err((field_type_text(), SpanTarget::Type(types[0].id))),
            Some(p) => match fields_plan(types.drop_first()) {
                Err(e) => Err(e),
                Ok(ps) => Ok(seq![p] + ps),
            },
        }
    }
}

/// `r` with `prefix` placed before its plans.
pub open spec fn fields_after_prefix(prefix: Seq<FieldPlan>, r: Result<Seq<FieldPlan>, ErrView>) -> Result<Seq<FieldPlan>, ErrView> {
    match r {
        Ok(ps) => Ok(prefix + ps),
        Err(e) => Err(e),
    }
}

/// What `#[derive(Injectable)]` generates for `d`, or the error it reports: the field
/// style, the field plans, the port (always the type itself) and how the result is
/// read (always bare, with the library's error type).
pub open spec fn derive_plan(d: DeriveShape) -> Result<(FieldsStyle, Seq<FieldPlan>, PortPlan, ReturnPlan), ErrView> {
    if !d.is_struct {
        Err((not_struct_text(), SpanTarget::Item))
    } else {
        match d.fields {
            FieldsShape::Named(ts) => match fields_plan(ts@) {
                Ok(ps) => Ok((FieldsStyle::Named, ps, PortPlan::SelfType, ReturnPlan::Bare)),
                Err(e) => Err(e),
            },
            FieldsShape::Unnamed(ts) => match fields_plan(ts@) {
                Ok(ps) => Ok((FieldsStyle::Unnamed, ps, PortPlan::SelfType, ReturnPlan::Bare)),
                Err(e) => Err(e),
            },
            FieldsShape::Unit => Ok((FieldsStyle::Unit, Seq::empty(), PortPlan::SelfType, ReturnPlan::Bare)),
        }
    }
}

/// How each field is resolved, or the error of the first that cannot be.
pub fn plan_fields(types: &Vec<TypeShape>) -> (r: Result<Vec<FieldPlan>, MacroError>)
    ensures
        match fields_plan(types@) {
            Ok(ps) => r matches Ok(v) && v@ == ps,
            Err(e) => r matches Err(x) && err_view(x) == e,
        },
        r is Ok <==> forall|j: int| 0 <= j < types@.len() ==> #[trigger] field_plan(types@[j]) is Some,
        r matches Ok(v) ==> v@.len() == types@.len() && forall|j: int|
            0 <= j < types@.len() ==> field_plan(types@[j]) == Some(#[trigger] v@[j]),
{
    proof {
        law_fields_planned_in_order(types@);
    }
    let n = types.len();
    let mut out: Vec<FieldPlan> = Vec::new();
    let mut i: usize = 0;
    assert(types@.skip(0) =~= types@);
    assert(fields_after_prefix(out@, fields_plan(types@)) =~= fields_plan(types@)) by {
        match fields_plan(types@) {
            Ok(ps) => assert(out@ + ps =~= ps),
            Err(_) => {},
        }
    }
    while i < n
        invariant
            n == types@.len(),
            0 <= i <= n,
            fields_plan(types@) == fields_after_prefix(out@, fields_plan(types@.skip(i as int))),
        decreases n - i,
    {
        let ghost rest = types@.skip(i as int);
        assert(rest[0] == types@[i as int]);
        assert(rest.drop_first() =~= types@.skip(i + 1));
        match plan_field(&types[i]) {
            None => {
                return Err(
                    macro_error(
                        "campo de #[derive(Injectable)] deve ser Arc<T> ou Option<Arc<T>>",
                        SpanTarget::Type(types[i].id),
                    ),
                );
            },
            Some(p) => {
                let ghost before = out@;
                out.push(p);
                assert(fields_after_prefix(before, fields_plan(rest)) == fields_after_prefix(
                    out@,
                    fields_plan(types@.skip(i + 1)),
                )) by {
                    match fields_plan(types@.skip(i + 1)) {
                        Ok(ps) => assert(before + (seq![p] + ps) =~= out@ + ps),
                        Err(_) => {},
                    }
                }
            },
        }
        i = i + 1;
    }
    assert(types@.skip(n as int).len() == 0);
    assert(out@ + Seq::<FieldPlan>::empty() =~= out@);
    Ok(out)
}

/// What `#[derive(Injectable)]` generates for `d`, or the error it reports.
pub fn plan_derive(d: &DeriveShape) -> (r: Result<DerivePlan, MacroError>)
    ensures
        match derive_plan(*d) {
            Ok((style, ps, port, ret)) => r matches Ok(p) && p.style == style && p.fields@ == ps && p.port == port
                && p.ret == ret,
            Err(e) => r matches Err(x) && err_view(x) == e,
        },
        r matches Ok(p) ==> match d.fields {
            FieldsShape::Named(ts) => p.style == FieldsStyle::Named && p.fields@.len() == ts@.len(),
            FieldsShape::Unnamed(ts) => p.style == FieldsStyle::Unnamed && p.fields@.len() == ts@.len(),
            FieldsShape::Unit => p.style == FieldsStyle::Unit && p.fields@.len() == 0,
        },
        r matches Ok(p) ==> match d.fields {
            FieldsShape::Named(ts) => forall|j: int| 0 <= j < ts@.len() ==> field_plan(ts@[j]) == Some(#[trigger] p.fields@[j]),
            FieldsShape::Unnamed(ts) => forall|j: int| 0 <= j < ts@.len() ==> field_plan(ts@[j]) == Some(#[trigger] p.fields@[j]),
            FieldsShape::Unit => true,
        },
        d.is_struct ==> (r is Ok <==> match d.fields {
            FieldsShape::Named(ts) => forall|j: int| 0 <= j < ts@.len() ==> #[trigger] field_plan(ts@[j]) is Some,
            FieldsShape::Unnamed(ts) => forall|j: int| 0 <= j < ts@.len() ==> #[trigger] field_plan(ts@[j]) is Some,
            FieldsShape::Unit => true,
        }),
        d.is_struct && d.fields is Unit ==> r is Ok,
        !d.is_struct ==> r is Err,
{
    proof {
        law_derive_style_follows_the_fields(*d);
    }
    if !d.is_struct {
        return Err(macro_error("#[derive(Injectable)] só suporta struct", SpanTarget::Item));
    }
    match &d.fields {
        FieldsShape::Named(ts) => match plan_fields(ts) {
            Ok(fields) => Ok(
                DerivePlan { style: FieldsStyle::Named, fields, port: PortPlan::SelfType, ret: ReturnPlan::Bare },
            ),
            Err(e) => Err(e),
        },
        FieldsShape::Unnamed(ts) => match plan_fields(ts) {
            Ok(fields) => Ok(
                DerivePlan { style: FieldsStyle::Unnamed, fields, port: PortPlan::SelfType, ret: ReturnPlan::Bare },
            ),
            Err(e) => Err(e),
        },
        FieldsShape::Unit => Ok(
            DerivePlan { style: FieldsStyle::Unit, fields: Vec::new(), port: PortPlan::SelfType, ret: ReturnPlan::Bare },
        ),
    }
}

} // verus!
