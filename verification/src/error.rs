//! The library's error type and the text that describes each error.
use vstd::prelude::*;

verus! {

/// Why a resolution failed.
#[derive(Debug, Clone)]
pub enum RudiError {
    /// Nothing is registered under the requested type (and name).
    NotFound { type_label: &'static str, name: Option<String> },
    /// The registered builder returned an error; `source` is that error's text.
    BuildFailed { type_label: &'static str, source: String },
    /// A registered value did not have the requested type.
    DowncastFailed { type_label: &'static str },
    /// Resolving a type reached the same type again further down the same chain;
    /// `chain` lists the types on the chain, ending with the repeated one.
    CircularDependency { chain: Vec<&'static str> },
}

/// The views of a sequence of type labels.
pub open spec fn label_views(labels: Seq<&'static str>) -> Seq<Seq<char>> {
    labels.map_values(|l: &'static str| l@)
}

/// The labels joined by `" -> "`.
pub open spec fn chain_text(labels: Seq<Seq<char>>) -> Seq<char>
    decreases labels.len(),
{
    if labels.len() == 0 {
        Seq::empty()
    } else if labels.len() == 1 {
        labels[0]
    } else {
        chain_text(labels.drop_last()) + " -> "@ + labels.last()
    }
}

/// The text of a `NotFound` error.
pub open spec fn not_found_text(label: Seq<char>, name: Option<Seq<char>>) -> Seq<char> {
    "type not registered: "@ + label + match name {
        Some(n) => " (name: "@ + n + ")"@,
        None => Seq::empty(),
    }
}

/// The text of a `BuildFailed` error.
pub open spec fn build_failed_text(label: Seq<char>, source: Seq<char>) -> Seq<char> {
    "failed to build "@ + label + ": "@ + source
}

/// The text of a `DowncastFailed` error.
pub open spec fn downcast_failed_text(label: Seq<char>) -> Seq<char> {
    "registered value for "@ + label + " could not be downcast (bug in rudi or type collision)"@
}

/// The text of a `CircularDependency` error.
pub open spec fn circular_text(labels: Seq<Seq<char>>) -> Seq<char> {
    "circular dependency detected: "@ + chain_text(labels)
}

impl RudiError {
    /// The text that describes this error.
    pub open spec fn text(&self) -> Seq<char> {
        match self {
            RudiError::NotFound { type_label, name } => not_found_text(
                type_label@,
                match name {
                    Some(n) => Some(n@),
                    None => None,
                },
            ),
            RudiError::BuildFailed { type_label, source } => build_failed_text(
                type_label@,
                source@,
            ),
            RudiError::DowncastFailed { type_label } => downcast_failed_text(type_label@),
            RudiError::CircularDependency { chain } => circular_text(label_views(chain@)),
        }
    }

    /// Renders the error as text, as its `Display` form does.
    pub fn message(&self) -> (s: String)
        ensures
            s@ == self.text(),
    {
        match self {
            RudiError::NotFound { type_label, name } => {
                let mut s = String::new();
                s.append("type not registered: ");
                s.append(type_label);
                match name {
                    Some(n) => {
                        s.append(" (name: ");
                        s.append(n.as_str());
                        s.append(")");
                    },
                    None => {},
                }
                s
            },
            RudiError::BuildFailed { type_label, source } => {
                let mut s = String::new();
                s.append("failed to build ");
                s.append(type_label);
                s.append(": ");
                s.append(source.as_str());
                s
            },
            RudiError::DowncastFailed { type_label } => {
                let mut s = String::new();
                s.append("registered value for ");
                s.append(type_label);
                s.append(" could not be downcast (bug in rudi or type collision)");
                s
            },
            RudiError::CircularDependency { chain } => {
                let mut s = String::new();
                s.append("circular dependency detected: ");
                let joined = join_chain(chain);
                s.append(joined.as_str());
                s
            },
        }
    }

    /// Whether this is a `NotFound` error.
    pub fn is_not_found(&self) -> (r: bool)
        ensures
            r == (self is NotFound),
    {
        match self {
            RudiError::NotFound { .. } => true,
            _ => false,
        }
    }
}

/// The labels of `chain` joined by `" -> "`.
pub fn join_chain(chain: &Vec<&'static str>) -> (s: String)
    ensures
        s@ == chain_text(label_views(chain@)),
{
    let ghost labels = label_views(chain@);
    let mut s = String::new();
    let n = chain.len();
    let mut i: usize = 0;
    assert(labels.take(0) =~= Seq::<Seq<char>>::empty());
    while i < n
        invariant
            n == chain@.len(),
            labels == label_views(chain@),
            0 <= i <= n,
            s@ == chain_text(labels.take(i as int)),
        decreases n - i,
    {
        let ghost before = s@;
        if i > 0 {
            s.append(" -> ");
        }
        s.append(chain[i]);
        assert(labels.take(i + 1).drop_last() =~= labels.take(i as int));
        assert(labels.take(i + 1).last() == chain@[i as int]@);
        if i == 0 {
            assert(labels.take(1).len() == 1);
            assert(s@ =~= chain_text(labels.take(1)));
        } else {
            assert(s@ =~= chain_text(labels.take(i + 1)));
        }
        i = i + 1;
    }
    assert(labels.take(n as int) =~= labels);
    s
}

/// Turns a resolution result into an optional one: a `NotFound` error becomes
/// `Ok(None)`, a value `v` becomes `Ok(Some(v))`, and every other error is kept.
pub fn optional_from<T>(result: Result<T, RudiError>) -> (r: Result<Option<T>, RudiError>)
    ensures
        match result {
            Ok(v) => r == Ok::<Option<T>, RudiError>(Some(v)),
            Err(e) => if e is NotFound {
                r == Ok::<Option<T>, RudiError>(None)
            } else {
                r == Err::<Option<T>, RudiError>(e)
            },
        },
{
    match result {
        Ok(v) => Ok(Some(v)),
        Err(RudiError::NotFound { .. }) => Ok(None),
        Err(e) => Err(e),
    }
}

} // verus!
