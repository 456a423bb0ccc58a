//! Parameter markers read from attributes, and the errors the code generators report.
use crate::key::name_view;
use crate::type_shape::text_is;
use crate::laws::{keeps_exactly_unmarked, law_first_marker_is_the_first_marker_attribute, law_stripping_keeps_exactly_the_unmarked};
use vstd::prelude::*;

verus! {

/// The marker attribute on a constructor parameter.
#[derive(Debug, Clone, Copy, PartialEq, Eq, Structural)]
pub enum Marker {
    /// `#[container]`: the parameter receives the container itself.
    Container,
    /// `#[inject]`: the parameter is resolved from the container.
    Inject,
    /// `#[inject_all]`: the parameter collects every accumulated binding.
    InjectAll,
}

/// Where a generator error points.
#[derive(Debug, Clone, Copy, PartialEq, Eq, Structural)]
pub enum SpanTarget {
    /// The whole item the generator decorates.
    Item,
    /// The signature of the decorated function.
    Signature,
    /// The return type position of the function at this position among the items
    /// (when it declares none).
    Output(usize),
    /// The function input at this position.
    Input(usize),
    /// The type with this id.
    Type(usize),
}

/// An error reported by a code generator: its text and where it points.
#[derive(Debug, Clone)]
pub struct MacroError {
    pub message: String,
    pub span: SpanTarget,
}

/// The abstract value of a generator error.
pub type ErrView = (Seq<char>, SpanTarget);

/// The view of a generator error.
pub open spec fn err_view(e: MacroError) -> ErrView {
    (e.message@, e.span)
}

/// Builds the error with text `text` pointing at `span`.
pub fn macro_error(text: &str, span: SpanTarget) -> (e: MacroError)
    ensures
        err_view(e) == (text@, span),
{
    MacroError { message: text.to_string(), span }
}

/// The views of attribute paths: the identifier of each attribute whose path is a
/// single identifier, nothing for other paths.
pub open spec fn attr_views(attrs: Seq<Option<String>>) -> Seq<Option<Seq<char>>> {
    attrs.map_values(|a: Option<String>| name_view(a))
}

/// The marker an attribute stands for, if any.
pub open spec fn marker_of(attr: Option<Seq<char>>) -> Option<Marker> {
    match attr {
        Some(s) => if s == "container"@ {
            Some(Marker::Container)
        } else if s == "inject_all"@ {
            Some(Marker::InjectAll)
        } else if s == "inject"@ {
            Some(Marker::Inject)
        } else {
            None
        },
        None => None,
    }
}

/// The marker of the first attribute that is a marker.
pub open spec fn first_marker(attrs: Seq<Option<Seq<char>>>) -> Option<Marker>
    decreases attrs.len(),
{
    if attrs.len() == 0 {
        None
    } else {
        match marker_of(attrs[0]) {
            Some(m) => Some(m),
            None => first_marker(attrs.drop_first()),
        }
    }
}

/// The positions, from `i` on, of the attributes that are not markers.
pub open spec fn unmarked_from(attrs: Seq<Option<Seq<char>>>, i: int) -> Seq<usize>
    decreases attrs.len() - i,
{
    if i < 0 || i >= attrs.len() {
        Seq::empty()
    } else {
        (if marker_of(attrs[i]) is None {
            seq![i as usize]
        } else {
            Seq::empty()
        }) + unmarked_from(attrs, i + 1)
    }
}

/// The marker an attribute stands for, if any.
pub fn attr_marker(attr: &Option<String>) -> (m: Option<Marker>)
    ensures
        m == marker_of(name_view(*attr)),
{
    match attr {
        Some(s) => {
            if text_is(s, "container") {
                Some(Marker::Container)
            } else if text_is(s, "inject_all") {
                Some(Marker::InjectAll)
            } else if text_is(s, "inject") {
                Some(Marker::Inject)
            } else {
                None
            }
        },
        None => None,
    }
}

/// The marker of the first attribute that is a marker.
pub fn find_marker(attrs: &Vec<Option<String>>) -> (m: Option<Marker>)
    ensures
        m == first_marker(attr_views(attrs@)),
        m is None <==> forall|k: int| 0 <= k < attrs@.len() ==> marker_of(#[trigger] attr_views(attrs@)[k]) is None,
        m matches Some(mk) ==> exists|k: int|
            0 <= k < attrs@.len() && marker_of(#[trigger] attr_views(attrs@)[k]) == Some(mk) && forall|j: int|
                0 <= j < k ==> marker_of(#[trigger] attr_views(attrs@)[j]) is None,
{
    let ghost v = attr_views(attrs@);
    proof {
        law_first_marker_is_the_first_marker_attribute(v);
    }
    let n = attrs.len();
    let mut i: usize = 0;
    assert(v.skip(0) =~= v);
    while i < n
        invariant
            n == attrs@.len(),
            v == attr_views(attrs@),
            v.len() == n,
            0 <= i <= n,
            first_marker(v) == first_marker(v.skip(i as int)),
            first_marker(v) is None <==> forall|k: int| 0 <= k < v.len() ==> marker_of(#[trigger] v[k]) is None,
            first_marker(v) matches Some(mk) ==> exists|k: int|
                0 <= k < v.len() && marker_of(#[trigger] v[k]) == Some(mk) && forall|j: int|
                    0 <= j < k ==> marker_of(#[trigger] v[j]) is None,
        decreases n - i,
    {
        assert(v.skip(i as int)[0] == v[i as int]);
        assert(v.skip(i as int).drop_first() =~= v.skip(i + 1));
        let m = attr_marker(&attrs[i]);
        if m.is_some() {
            return m;
        }
        i = i + 1;
    }
    assert(v.skip(n as int).len() == 0);
    None
}

/// The positions of the attributes that are not markers: the attributes kept when
/// markers are stripped.
pub fn unmarked_positions(attrs: &Vec<Option<String>>) -> (r: Vec<usize>)
    ensures
        r@ == unmarked_from(attr_views(attrs@), 0),
        keeps_exactly_unmarked(attr_views(attrs@), r@),
{
    let ghost v = attr_views(attrs@);
    let n = attrs.len();
    let mut out: Vec<usize> = Vec::new();
    let mut i: usize = 0;
    assert(out@ + unmarked_from(v, 0) =~= unmarked_from(v, 0));
    while i < n
        invariant
            n == attrs@.len(),
            v == attr_views(attrs@),
            v.len() == n,
            0 <= i <= n,
            unmarked_from(v, 0) == out@ + unmarked_from(v, i as int),
        decreases n - i,
    {
        let ghost before = out@;
        let m = attr_marker(&attrs[i]);
        if m.is_none() {
            out.push(i);
        }
        assert(unmarked_from(v, i as int) == (if marker_of(v[i as int]) is None {
            seq![i as usize]
        } else {
            Seq::<usize>::empty()
        }) + unmarked_from(v, i + 1));
        assert(before + unmarked_from(v, i as int) =~= out@ + unmarked_from(v, i + 1));
        i = i + 1;
    }
    assert(unmarked_from(v, n as int) =~= Seq::<usize>::empty());
    assert(out@ + unmarked_from(v, n as int) =~= out@);
    proof {
        law_stripping_keeps_exactly_the_unmarked(v, 0);
    }
    out
}

} // verus!
