//! The decode failures that can bubble to the top-level parse: the input text
//! was not well-formed, a required field was absent, or a field declared with
//! a hard structural kind had an incompatible shape. Content-level invalidity
//! is never an error; it degrades to a raw representation instead.
use vstd::prelude::*;

verus! {

/// A fatal decode failure. The path names the offending node, segment by
/// segment from the root.
#[derive(Debug, PartialEq)]
pub enum DecodeError {
    /// The input text is not well-formed in the tree grammar.
    Syntax,
    /// A field declared required by its record's schema is absent.
    MissingRequiredField(Vec<String>),
    /// A field with no lenient fallback has an incompatible shape; the second
    /// part names the shape that was expected.
    StructuralTypeMismatch(Vec<String>, String),
}

/// The mathematical model of a [`DecodeError`].
#[verifier::ext_equal]
pub ghost enum ErrV {
    Syntax,
    Missing(Seq<Seq<char>>),
    Mismatch(Seq<Seq<char>>, Seq<char>),
}

pub open spec fn path_view(p: Seq<String>) -> Seq<Seq<char>> {
    p.map_values(|s: String| s@)
}

impl View for DecodeError {
    type V = ErrV;

    open spec fn view(&self) -> ErrV {
        match self {
            DecodeError::Syntax => ErrV::Syntax,
            DecodeError::MissingRequiredField(p) => ErrV::Missing(path_view(p@)),
            DecodeError::StructuralTypeMismatch(p, t) => ErrV::Mismatch(path_view(p@), t@),
        }
    }
}

/// The same failure, one level further from the root.
pub open spec fn prefixed(seg: Seq<char>, e: ErrV) -> ErrV {
    match e {
        ErrV::Syntax => ErrV::Syntax,
        ErrV::Missing(p) => ErrV::Missing(seq![seg] + p),
        ErrV::Mismatch(p, t) => ErrV::Mismatch(seq![seg] + p, t),
    }
}

impl DecodeError {
    /// A required field of the node under decode is absent.
    pub fn missing_here(name: &str) -> (e: DecodeError)
        ensures
            e@ == ErrV::Missing(seq![name@]),
    {
        let mut path: Vec<String> = Vec::new();
        path.push(name.to_owned());
        proof {
            assert(path_view(path@) =~= seq![name@]);
        }
        DecodeError::MissingRequiredField(path)
    }

    /// A field of the node under decode has the wrong shape.
    pub fn mismatch_here(name: &str, expected: &str) -> (e: DecodeError)
        ensures
            e@ == ErrV::Mismatch(seq![name@], expected@),
    {
        let mut path: Vec<String> = Vec::new();
        path.push(name.to_owned());
        proof {
            assert(path_view(path@) =~= seq![name@]);
        }
        DecodeError::StructuralTypeMismatch(path, expected.to_owned())
    }

    /// The node under decode itself has the wrong shape.
    pub fn mismatch_node(expected: &str) -> (e: DecodeError)
        ensures
            e@ == ErrV::Mismatch(Seq::empty(), expected@),
    {
        let path: Vec<String> = Vec::new();
        proof {
            assert(path_view(path@) =~= Seq::<Seq<char>>::empty());
        }
        DecodeError::StructuralTypeMismatch(path, expected.to_owned())
    }

    /// Re-roots a failure of a child node under the field that holds it.
    pub fn under(self, seg: &str) -> (r: DecodeError)
        ensures
            r@ == prefixed(seg@, self@),
    {
        match self {
            DecodeError::Syntax => DecodeError::Syntax,
            DecodeError::MissingRequiredField(p) => {
                let mut p = p;
                p.insert(0, seg.to_owned());
                proof {
                    assert(path_view(p@) =~= seq![seg@] + path_view(p@.drop_first()));
                }
                DecodeError::MissingRequiredField(p)
            },
            DecodeError::StructuralTypeMismatch(p, t) => {
                let mut p = p;
                p.insert(0, seg.to_owned());
                proof {
                    assert(path_view(p@) =~= seq![seg@] + path_view(p@.drop_first()));
                }
                DecodeError::StructuralTypeMismatch(p, t)
            },
        }
    }
}

} // verus!
