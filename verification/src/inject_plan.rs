//! What `#[inject]` does to a function: which parameter it removes and replaces by
//! the ambient container.
use crate::markers::{attr_views, err_view, macro_error, ErrView, MacroError, SpanTarget};
use crate::type_shape::text_is;
use vstd::prelude::*;

use crate::laws::law_inject_binds_the_marked_parameter;

verus! {

/// A function input as `#[inject]` reads it.
pub struct InjectInputShape {
    /// A typed parameter (not a receiver).
    pub typed: bool,
    /// The paths of its attributes (see [`crate::markers::attr_views`]).
    pub attrs: Vec<Option<String>>,
    /// Its type is a reference.
    pub by_ref: bool,
}

/// What `#[inject]` does: remove the input at `index` and bind its pattern to the
/// ambient container, by reference when `by_ref`.
#[derive(Debug, Clone, Copy, PartialEq, Eq, Structural)]
pub struct InjectPlan {
    pub index: usize,
    pub by_ref: bool,
}

/// The text when several parameters are marked.
pub open spec fn too_many_marked_text() -> Seq<char> {
    "#[inject] permite no máximo 1 parâmetro marcado #[container]"@
}

/// The text when no parameter is marked.
pub open spec fn none_marked_text() -> Seq<char> {
    "#[inject] exige exatamente 1 parâmetro marcado #[container]"@
}

/// Whether an input is a typed parameter with a `#[container]` attribute.
pub open spec fn container_marked(i: InjectInputShape) -> bool {
    i.typed && exists|j: int| 0 <= j < i.attrs@.len() && #[trigger] attr_views(i.attrs@)[j] == Some("container"@)
}

/// The positions, from `i` on, of the inputs marked `#[container]`.
pub open spec fn marked_from(inputs: Seq<InjectInputShape>, i: int) -> Seq<int>
    decreases inputs.len() - i,
{
    if i < 0 || i >= inputs.len() {
        Seq::empty()
    } else {
        (if container_marked(inputs[i]) {
            seq![i]
        } else {
            Seq::empty()
        }) + marked_from(inputs, i + 1)
    }
}

/// What `#[inject]` does with a function of these inputs, or the error it reports:
/// exactly one input must be marked; with several, the error points at the second.
pub open spec fn inject_plan(inputs: Seq<InjectInputShape>) -> Result<InjectPlan, ErrView> {
    let marked = marked_from(inputs, 0);
    if marked.len() >= 2 {
        Err((too_many_marked_text(), SpanTarget::Input(marked[1] as usize)))
    } else if marked.len() == 0 {
        Err((none_marked_text(), SpanTarget::Signature))
    } else {
        Ok(InjectPlan { index: marked[0] as usize, by_ref: inputs[marked[0]].by_ref })
    }
}

/// Whether an input is a typed parameter with a `#[container]` attribute.
fn has_container_marker(i: &InjectInputShape) -> (r: bool)
    ensures
        r == container_marked(*i),
{
    if !i.typed {
        return false;
    }
    let n = i.attrs.len();
    let mut j: usize = 0;
    while j < n
        invariant
            n == i.attrs@.len(),
            i.typed,
            0 <= j <= n,
            forall|t: int| 0 <= t < j ==> #[trigger] attr_views(i.attrs@)[t] != Some("container"@),
        decreases n - j,
    {
        let hit = match &i.attrs[j] {
            Some(s) => text_is(s, "container"),
            None => false,
        };
        if hit {
            assert(attr_views(i.attrs@)[j as int] == Some("container"@));
            return true;
        }
        j = j + 1;
    }
    false
}

/// What `#[inject]` does with a function of these inputs, or the error it reports.
pub fn plan_inject(inputs: &Vec<InjectInputShape>) -> (r: Result<InjectPlan, MacroError>)
    ensures
        match inject_plan(inputs@) {
            Ok(p) => r == Ok::<InjectPlan, MacroError>(p),
            Err(e) => r matches Err(x) && err_view(x) == e,
        },
        r matches Ok(p) ==> p.index < inputs@.len() && container_marked(inputs@[p.index as int]) && p.by_ref
            == inputs@[p.index as int].by_ref,
        r matches Ok(p) ==> forall|j: int|
            0 <= j < inputs@.len() && j != p.index ==> !container_marked(#[trigger] inputs@[j]),
        (forall|j: int| 0 <= j < inputs@.len() ==> !container_marked(#[trigger] inputs@[j])) ==> r is Err,
        forall|a: int, b: int|
            0 <= a < b < inputs@.len() && container_marked(#[trigger] inputs@[a]) && container_marked(
                #[trigger] inputs@[b],
            ) ==> r is Err,
{
    let ghost s = inputs@;
    let n = inputs.len();
    proof {
        law_inject_binds_the_marked_parameter(inputs@);
    }
    let mut first: Option<usize> = None;
    let mut i: usize = 0;
    while i < n
        invariant
            n == s.len(),
            s == inputs@,
            0 <= i <= n,
            marked_from(s, 0) == (match first {
                Some(f) => seq![f as int],
                None => Seq::<int>::empty(),
            }) + marked_from(s, i as int),
            first matches Some(f) ==> f < i,
        decreases n - i,
    {
        assert(marked_from(s, i as int) == (if container_marked(s[i as int]) {
            seq![i as int]
        } else {
            Seq::<int>::empty()
        }) + marked_from(s, i + 1));
        if has_container_marker(&inputs[i]) {
            match first {
                Some(f) => {
                    assert(marked_from(s, 0)[1] == i as int);
                    return Err(
                        macro_error(
                            "#[inject] permite no máximo 1 parâmetro marcado #[container]",
                            SpanTarget::Input(i),
                        ),
                    );
                },
                None => {
                    first = Some(i);
                    assert(marked_from(s, 0) =~= seq![i as int] + marked_from(s, i + 1));
                },
            }
        } else {
            assert(marked_from(s, 0) =~= (match first {
                Some(f) => seq![f as int],
                None => Seq::<int>::empty(),
            }) + marked_from(s, i + 1));
        }
        i = i + 1;
    }
    assert(marked_from(s, n as int) =~= Seq::<int>::empty());
    match first {
        Some(f) => {
            assert(marked_from(s, 0) =~= seq![f as int]);
            Ok(InjectPlan { index: f, by_ref: inputs[f].by_ref })
        },
        None => {
            assert(marked_from(s, 0) =~= Seq::<int>::empty());
            Err(macro_error("#[inject] exige exatamente 1 parâmetro marcado #[container]", SpanTarget::Signature))
        },
    }
}

} // verus!
