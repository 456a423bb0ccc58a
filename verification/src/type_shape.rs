//! The shape of a Rust type as the code generators read it, and how a field or
//! parameter of a given shape is resolved from a container.
use crate::laws::{law_collect_plan_follows_the_type, law_field_plan_follows_the_type};
use vstd::prelude::*;

verus! {

/// A type as the generators see it. `id` names the type in the caller's own table,
/// so that a plan can point back at the type it refers to.
pub struct TypeShape {
    pub id: usize,
    pub form: TypeForm,
}

/// The outer form of a type.
pub enum TypeForm {
    /// A path type (`a::b::C<..>`); holds its last segment, if it has one.
    Path(Option<SegmentShape>),
    /// A reference type (`&T`, `&mut T`).
    Reference,
    /// A trait object (`dyn Trait`).
    TraitObject,
    /// Any other type.
    Other,
}

/// One segment of a path: its identifier and its arguments.
pub struct SegmentShape {
    pub ident: String,
    pub args: ArgsShape,
}

/// The arguments of a path segment.
pub enum ArgsShape {
    /// No arguments.
    Plain,
    /// Angle-bracketed arguments (`<A, B>`).
    Angle(Vec<GenericArgShape>),
    /// Parenthesized arguments (`Fn(A) -> B`).
    Parenthesized,
}

/// One angle-bracketed argument.
pub enum GenericArgShape {
    /// A type argument.
    Type(TypeShape),
    /// A lifetime, constant, binding or constraint.
    Other,
}

/// How a field or parameter declared as `Arc<T>` or `Option<Arc<T>>` is resolved.
#[derive(Debug, Clone, Copy, PartialEq, Eq, Structural)]
pub struct FieldPlan {
    /// `Option<Arc<T>>`: absence of the dependency gives `None` instead of an error.
    pub optional: bool,
    /// `T` is a trait object: the type resolved is `Arc<T>` itself, and the resolved
    /// `Arc<Arc<T>>` is flattened to `Arc<T>`.
    pub flatten: bool,
    /// The type to resolve: `T`, or `Arc<T>` when flattening.
    pub target: usize,
}

/// How a parameter declared as `Vec<Arc<T>>` collects every accumulated binding.
#[derive(Debug, Clone, Copy, PartialEq, Eq, Structural)]
pub struct CollectPlan {
    /// `T` is a trait object: items are resolved as `Arc<T>` and flattened.
    pub flatten: bool,
    /// The type whose accumulated bindings are collected: `T`, or `Arc<T>` when
    /// flattening.
    pub target: usize,
}

/// Whether the type is a trait object.
pub open spec fn is_trait_object(t: TypeShape) -> bool {
    t.form is TraitObject
}

/// The first type argument of `args`.
pub open spec fn first_type_arg(args: Seq<GenericArgShape>) -> Option<TypeShape>
    decreases args.len(),
{
    if args.len() == 0 {
        None
    } else {
        match args[0] {
            GenericArgShape::Type(t) => Some(t),
            GenericArgShape::Other => first_type_arg(args.drop_first()),
        }
    }
}

/// For a path type whose last segment is `wrapper<..>`, the first type argument of
/// that segment; otherwise nothing.
pub open spec fn wrapped_inner(t: TypeShape, wrapper: Seq<char>) -> Option<TypeShape> {
    match t.form {
        TypeForm::Path(Some(seg)) => if seg.ident@ == wrapper {
            match seg.args {
                ArgsShape::Angle(args) => first_type_arg(args@),
                _ => None,
            }
        } else {
            None
        },
        _ => None,
    }
}

/// How a required `Arc<T>` is resolved, if `t` has that shape.
pub open spec fn required_plan(t: TypeShape) -> Option<FieldPlan> {
    match wrapped_inner(t, "Arc"@) {
        Some(inner) => Some(
            FieldPlan {
                optional: false,
                flatten: is_trait_object(inner),
                target: if is_trait_object(inner) { t.id } else { inner.id },
            },
        ),
        None => None,
    }
}

/// How a field or parameter of type `t` is resolved: `Option<Arc<T>>` optionally,
/// `Arc<T>` as a requirement, anything else not at all.
pub open spec fn field_plan(t: TypeShape) -> Option<FieldPlan> {
    match wrapped_inner(t, "Option"@) {
        Some(arc_ty) => match wrapped_inner(arc_ty, "Arc"@) {
            Some(inner) => Some(
                FieldPlan {
                    optional: true,
                    flatten: is_trait_object(inner),
                    target: if is_trait_object(inner) { arc_ty.id } else { inner.id },
                },
            ),
            None => required_plan(t),
        },
        None => required_plan(t),
    }
}

/// How a parameter of type `t` collects accumulated bindings, if `t` is
/// `Vec<Arc<T>>`.
pub open spec fn collect_plan(t: TypeShape) -> Option<CollectPlan> {
    match wrapped_inner(t, "Vec"@) {
        Some(arc_ty) => match wrapped_inner(arc_ty, "Arc"@) {
            Some(inner) => Some(
                CollectPlan {
                    flatten: is_trait_object(inner),
                    target: if is_trait_object(inner) { arc_ty.id } else { inner.id },
                },
            ),
            None => None,
        },
        None => None,
    }
}

/// Whether `s` reads `lit`.
pub fn text_is(s: &String, lit: &str) -> (r: bool)
    ensures
        r == (s@ == lit@),
{
    let l = lit.to_string();
    *s == l
}

/// The first type argument of `args`.
pub fn find_first_type_arg(args: &Vec<GenericArgShape>) -> (r: Option<&TypeShape>)
    ensures
        match r {
            Some(t) => first_type_arg(args@) == Some(*t),
            None => first_type_arg(args@) is None,
        },
{
    let n = args.len();
    let mut i: usize = 0;
    assert(args@.skip(0) =~= args@);
    while i < n
        invariant
            n == args@.len(),
            0 <= i <= n,
            first_type_arg(args@) == first_type_arg(args@.skip(i as int)),
        decreases n - i,
    {
        assert(args@.skip(i as int)[0] == args@[i as int]);
        assert(args@.skip(i as int).drop_first() =~= args@.skip(i + 1));
        match &args[i] {
            GenericArgShape::Type(t) => {
                return Some(t);
            },
            GenericArgShape::Other => {},
        }
        i = i + 1;
    }
    assert(args@.skip(n as int).len() == 0);
    None
}

/// For a path type whose last segment is `wrapper<..>`, the first type argument of
/// that segment.
pub fn find_wrapped_inner<'a>(t: &'a TypeShape, wrapper: &str) -> (r: Option<&'a TypeShape>)
    ensures
        match r {
            Some(inner) => wrapped_inner(*t, wrapper@) == Some(*inner),
            None => wrapped_inner(*t, wrapper@) is None,
        },
{
    match &t.form {
        TypeForm::Path(Some(seg)) => {
            if text_is(&seg.ident, wrapper) {
                match &seg.args {
                    ArgsShape::Angle(args) => find_first_type_arg(args),
                    _ => None,
                }
            } else {
                None
            }
        },
        _ => None,
    }
}

/// Whether the type is a trait object.
pub fn trait_object(t: &TypeShape) -> (r: bool)
    ensures
        r == is_trait_object(*t),
{
    match t.form {
        TypeForm::TraitObject => true,
        _ => false,
    }
}

/// How a required `Arc<T>` is resolved, if `t` has that shape.
fn plan_required(t: &TypeShape) -> (r: Option<FieldPlan>)
    ensures
        r == required_plan(*t),
{
    match find_wrapped_inner(t, "Arc") {
        Some(inner) => {
            let flatten = trait_object(inner);
            Some(FieldPlan { optional: false, flatten, target: if flatten { t.id } else { inner.id } })
        },
        None => None,
    }
}

/// How a field or parameter of type `t` is resolved from a container, if its shape
/// allows it.
pub fn plan_field(t: &TypeShape) -> (r: Option<FieldPlan>)
    ensures
        r == field_plan(*t),
        match wrapped_inner(*t, "Arc"@) {
            Some(x) => r == Some(
                FieldPlan {
                    optional: false,
                    flatten: x.form is TraitObject,
                    target: if x.form is TraitObject { t.id } else { x.id },
                },
            ),
            None => match wrapped_inner(*t, "Option"@) {
                Some(a) => match wrapped_inner(a, "Arc"@) {
                    Some(x) => r == Some(
                        FieldPlan {
                            optional: true,
                            flatten: x.form is TraitObject,
                            target: if x.form is TraitObject { a.id } else { x.id },
                        },
                    ),
                    None => r is None,
                },
                None => r is None,
            },
        },
{
    proof {
        law_field_plan_follows_the_type(*t);
    }
    match find_wrapped_inner(t, "Option") {
        Some(arc_ty) => match find_wrapped_inner(arc_ty, "Arc") {
            Some(inner) => {
                let flatten = trait_object(inner);
                Some(
                    FieldPlan {
                        optional: true,
                        flatten,
                        target: if flatten { arc_ty.id } else { inner.id },
                    },
                )
            },
            None => plan_required(t),
        },
        None => plan_required(t),
    }
}

/// How a parameter of type `t` collects accumulated bindings, if it is
/// `Vec<Arc<T>>`.
pub fn plan_collect(t: &TypeShape) -> (r: Option<CollectPlan>)
    ensures
        r == collect_plan(*t),
        match wrapped_inner(*t, "Vec"@) {
            Some(a) => match wrapped_inner(a, "Arc"@) {
                Some(x) => r == Some(
                    CollectPlan {
                        flatten: x.form is TraitObject,
                        target: if x.form is TraitObject { a.id } else { x.id },
                    },
                ),
                None => r is None,
            },
            None => r is None,
        },
{
    proof {
        law_collect_plan_follows_the_type(*t);
    }
    match find_wrapped_inner(t, "Vec") {
        Some(arc_ty) => match find_wrapped_inner(arc_ty, "Arc") {
            Some(inner) => {
                let flatten = trait_object(inner);
                Some(CollectPlan { flatten, target: if flatten { arc_ty.id } else { inner.id } })
            },
            None => None,
        },
        None => None,
    }
}

} // verus!
