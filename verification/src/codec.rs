//! The boundary to the textual codec: parsing text into the generic tree
//! value and serializing a tree value back to text. The grammar itself is an
//! external collaborator; this module holds the trusted shims around it and
//! the verified drivers that the rest of the library goes through. Both
//! directions are deterministic functions of their argument alone, so each
//! direction's result carries a name that the contracts downstream speak of.
use vstd::prelude::*;

use crate::error::{DecodeError, ErrV};
use crate::openapiv3::{OpenAPIV3, root_fail, root_matches, root_ok};
use crate::value::{Any, Val};

verus! {

/// Whether a text is well-formed in the tree grammar.
pub uninterp spec fn json_syntax_ok(s: Seq<char>) -> bool;

/// The tree a well-formed text parses to, in the library's value model.
pub uninterp spec fn json_tree_of(s: Seq<char>) -> Val;

/// The textual form a tree value serializes to.
pub uninterp spec fn json_text_of(v: Val) -> Seq<char>;

/// Relies on serde_json::from_str: whether a text parses, and the tree it
/// parses to, depend on its characters alone. The conversion beside it is a
/// fixed variant-by-variant translation, so the composition is deterministic
/// and its result is named `json_tree_of`.
#[verifier::external_body]
fn json_parse_tree(s: &str) -> (r: Option<Any>)
    ensures
        r is Some <==> json_syntax_ok(s@),
        r matches Some(a) ==> a@ == json_tree_of(s@),
{
    serde_json::from_str::<serde_json::Value>(s).ok().map(value_of_json)
}

/// Relies on serde_json::Value: converts each node of a parsed tree to the
/// library's value form, variant by variant; a number becomes its decimal
/// literal.
#[verifier::external_body]
fn value_of_json(j: serde_json::Value) -> Any {
    match j {
        serde_json::Value::Null => Any::Null,
        serde_json::Value::Bool(b) => Any::Bool(b),
        serde_json::Value::Number(n) => Any::Num(n.to_string()),
        serde_json::Value::String(s) => Any::Str(s),
        serde_json::Value::Array(a) => Any::Arr(a.into_iter().map(value_of_json).collect()),
        serde_json::Value::Object(m) => Any::Obj(
            m.into_iter().map(|p| (p.0, value_of_json(p.1))).collect(),
        ),
    }
}

/// Relies on serde_json::to_string: the serialization of a tree depends on
/// the tree alone and cannot fail, and the conversion beside it is a fixed
/// variant-by-variant translation, so the composition is deterministic and
/// its result is named `json_text_of`.
#[verifier::external_body]
fn json_write_tree(v: &Any) -> (r: String)
    ensures
        r@ == json_text_of(v@),
{
    serde_json::to_string(&json_of_value(v)).unwrap_or(String::new())
}

/// Relies on serde_json::Value: rebuilds the outside tree, variant by
/// variant. A number literal that the grammar does not accept is emitted as
/// a string rather than dropped.
#[verifier::external_body]
fn json_of_value(v: &Any) -> serde_json::Value {
    match v {
        Any::Null => serde_json::Value::Null,
        Any::Bool(b) => serde_json::Value::Bool(*b),
        Any::Num(s) => match serde_json::from_str::<serde_json::Number>(s) {
            Ok(n) => serde_json::Value::Number(n),
            Err(_) => serde_json::Value::String(s.clone()),
        },
        Any::Str(s) => serde_json::Value::String(s.clone()),
        Any::Arr(a) => serde_json::Value::Array(a.iter().map(json_of_value).collect()),
        Any::Obj(o) => serde_json::Value::Object(
            o.iter().map(|p| (p.0.clone(), json_of_value(&p.1))).collect(),
        ),
    }
}

/// Reads a tree value out of its textual form: exactly the parse of the
/// text where it is well-formed in the tree grammar, nothing otherwise.
pub fn text_to_value(s: &str) -> (r: Option<Any>)
    ensures
        r is Some <==> json_syntax_ok(s@),
        r matches Some(a) ==> a@ == json_tree_of(s@),
{
    json_parse_tree(s)
}

/// Writes a tree value in textual form. Total: any tree serializes, to
/// exactly the codec's serialization of it.
pub fn value_to_text(v: &Any) -> (r: String)
    ensures
        r@ == json_text_of(v@),
{
    json_write_tree(v)
}

/// Parses a document from its textual form: a syntax failure where the text
/// is not well-formed in the tree grammar; otherwise exactly the decode of
/// the tree the text parses to, per `root_matches` and `root_fail`.
pub fn parse(s: &str) -> (r: Result<OpenAPIV3, DecodeError>)
    ensures
        match r {
            Ok(x) => json_syntax_ok(s@) && root_ok(json_tree_of(s@)) && root_matches(
                json_tree_of(s@),
                x,
            ) && x.wf(),
            Err(e) => {
                if json_syntax_ok(s@) {
                    !root_ok(json_tree_of(s@)) && e@ == root_fail(json_tree_of(s@))
                } else {
                    e@ == ErrV::Syntax
                }
            },
        },
{
    match text_to_value(s) {
        None => Err(DecodeError::Syntax),
        Some(v) => OpenAPIV3::from_value(v),
    }
}

impl OpenAPIV3 {
    /// The document in textual form: the serialization of its encoding.
    /// Total: every constructed document serializes.
    pub fn to_string(&self) -> (r: String)
        ensures
            r@ == json_text_of(self.enc()),
    {
        value_to_text(&self.to_value())
    }
}

impl crate::info::Info {
    /// This record in textual form: the serialization of its encoding.
    pub fn to_string(&self) -> (r: String)
        ensures
            r@ == json_text_of(self.enc()),
    {
        value_to_text(&self.to_value())
    }
}

impl crate::contact::Contact {
    /// This record in textual form: the serialization of its encoding.
    pub fn to_string(&self) -> (r: String)
        ensures
            r@ == json_text_of(self.enc()),
    {
        value_to_text(&self.to_value())
    }
}

impl crate::license::License {
    /// This record in textual form: the serialization of its encoding.
    pub fn to_string(&self) -> (r: String)
        ensures
            r@ == json_text_of(self.enc()),
    {
        value_to_text(&self.to_value())
    }
}

impl crate::server::Server {
    /// This record in textual form: the serialization of its encoding.
    pub fn to_string(&self) -> (r: String)
        ensures
            r@ == json_text_of(self.enc()),
    {
        value_to_text(&self.to_value())
    }
}

impl crate::server::ServerVariable {
    /// This record in textual form: the serialization of its encoding.
    pub fn to_string(&self) -> (r: String)
        ensures
            r@ == json_text_of(self.enc()),
    {
        value_to_text(&self.to_value())
    }
}

impl crate::shared::Tag {
    /// This record in textual form: the serialization of its encoding.
    pub fn to_string(&self) -> (r: String)
        ensures
            r@ == json_text_of(self.enc()),
    {
        value_to_text(&self.to_value())
    }
}

impl crate::shared::ExternalDocumentation {
    /// This record in textual form: the serialization of its encoding.
    pub fn to_string(&self) -> (r: String)
        ensures
            r@ == json_text_of(self.enc()),
    {
        value_to_text(&self.to_value())
    }
}

} // verus!
