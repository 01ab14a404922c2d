//! A single operation parameter — whose location's document name `in`
//! collides with a reserved word and is aliased at the boundary — its
//! serialization style, and the header object that shares its shape.
use vstd::prelude::*;

use crate::error::{DecodeError, ErrV, prefixed};
use crate::record::{extras_wf, lemma_split_extras_wf, opt_view, split_fields, take_opt_bool,
    take_opt_string, take_req_string};
use crate::schema::{Schema, schema_fail, schema_slot_matches, schema_slot_ok};
use crate::shared::Referenceable;
use crate::value::{Any, Val, entries_view, lemma_entries_view, lookup, sift, str_eq};

verus! {

/// The location of a parameter: a closed vocabulary, so an unknown literal
/// is a structural mismatch, not a fallback.
#[derive(Debug, PartialEq, Clone)]
pub enum ParameterIn {
    Query,
    Header,
    Path,
    Cookie,
}

impl ParameterIn {
    /// The exact lowercase literal this value encodes as.
    pub open spec fn lit(self) -> Seq<char> {
        match self {
            ParameterIn::Query => "query"@,
            ParameterIn::Header => "header"@,
            ParameterIn::Path => "path"@,
            ParameterIn::Cookie => "cookie"@,
        }
    }

    /// The location a literal decodes to, if it is in the vocabulary.
    pub open spec fn of_lit(s: Seq<char>) -> Option<ParameterIn> {
        if s == "query"@ {
            Some(ParameterIn::Query)
        } else if s == "header"@ {
            Some(ParameterIn::Header)
        } else if s == "path"@ {
            Some(ParameterIn::Path)
        } else if s == "cookie"@ {
            Some(ParameterIn::Cookie)
        } else {
            None
        }
    }

    /// Decodes a location literal.
    pub fn from_text(s: &str) -> (r: Option<ParameterIn>)
        ensures
            r == ParameterIn::of_lit(s@),
    {
        if str_eq(s, "query") {
            Some(ParameterIn::Query)
        } else if str_eq(s, "header") {
            Some(ParameterIn::Header)
        } else if str_eq(s, "path") {
            Some(ParameterIn::Path)
        } else if str_eq(s, "cookie") {
            Some(ParameterIn::Cookie)
        } else {
            None
        }
    }

    /// Encodes this value as its exact literal.
    pub fn text(&self) -> (r: String)
        ensures
            r@ == self.lit(),
    {
        match self {
            ParameterIn::Query => "query".to_owned(),
            ParameterIn::Header => "header".to_owned(),
            ParameterIn::Path => "path".to_owned(),
            ParameterIn::Cookie => "cookie".to_owned(),
        }
    }
}

/// Closed-vocabulary round trip: encoding a location and decoding the
/// literal restores it.
pub proof fn lemma_parameter_in_round_trip(p: ParameterIn)
    ensures
        ParameterIn::of_lit(p.lit()) == Some(p),
{
    reveal_strlit("query");
    reveal_strlit("header");
    reveal_strlit("path");
    reveal_strlit("cookie");
    assert("query"@.len() == 5);
    assert("header"@.len() == 6);
    assert("path"@.len() == 4);
    assert("cookie"@.len() == 6);
    assert("query"@[0] == 'q');
    assert("header"@[0] == 'h');
    assert("path"@[0] == 'p');
    assert("cookie"@[0] == 'c');
}

/// How a parameter value is serialized: a closed vocabulary.
#[derive(Debug, PartialEq, Clone)]
pub enum Style {
    Matrix,
    Label,
    Form,
    Simple,
    SpaceDelimited,
    PipeDelimited,
    DeepObject,
}

impl Style {
    /// The exact literal this value encodes as.
    pub open spec fn lit(self) -> Seq<char> {
        match self {
            Style::Matrix => "matrix"@,
            Style::Label => "label"@,
            Style::Form => "form"@,
            Style::Simple => "simple"@,
            Style::SpaceDelimited => "spaceDelimited"@,
            Style::PipeDelimited => "pipeDelimited"@,
            Style::DeepObject => "deepObject"@,
        }
    }

    /// The style a literal decodes to, if it is in the vocabulary.
    pub open spec fn of_lit(s: Seq<char>) -> Option<Style> {
        if s == "matrix"@ {
            Some(Style::Matrix)
        } else if s == "label"@ {
            Some(Style::Label)
        } else if s == "form"@ {
            Some(Style::Form)
        } else if s == "simple"@ {
            Some(Style::Simple)
        } else if s == "spaceDelimited"@ {
            Some(Style::SpaceDelimited)
        } else if s == "pipeDelimited"@ {
            Some(Style::PipeDelimited)
        } else if s == "deepObject"@ {
            Some(Style::DeepObject)
        } else {
            None
        }
    }

    /// Decodes a style literal.
    pub fn from_text(s: &str) -> (r: Option<Style>)
        ensures
            r == Style::of_lit(s@),
    {
        if str_eq(s, "matrix") {
            Some(Style::Matrix)
        } else if str_eq(s, "label") {
            Some(Style::Label)
        } else if str_eq(s, "form") {
            Some(Style::Form)
        } else if str_eq(s, "simple") {
            Some(Style::Simple)
        } else if str_eq(s, "spaceDelimited") {
            Some(Style::SpaceDelimited)
        } else if str_eq(s, "pipeDelimited") {
            Some(Style::PipeDelimited)
        } else if str_eq(s, "deepObject") {
            Some(Style::DeepObject)
        } else {
            None
        }
    }

    /// Encodes this value as its exact literal.
    pub fn text(&self) -> (r: String)
        ensures
            r@ == self.lit(),
    {
        match self {
            Style::Matrix => "matrix".to_owned(),
            Style::Label => "label".to_owned(),
            Style::Form => "form".to_owned(),
            Style::Simple => "simple".to_owned(),
            Style::SpaceDelimited => "spaceDelimited".to_owned(),
            Style::PipeDelimited => "pipeDelimited".to_owned(),
            Style::DeepObject => "deepObject".to_owned(),
        }
    }
}

/// Closed-vocabulary round trip for styles.
pub proof fn lemma_style_round_trip(p: Style)
    ensures
        Style::of_lit(p.lit()) == Some(p),
{
    reveal_strlit("matrix");
    reveal_strlit("label");
    reveal_strlit("form");
    reveal_strlit("simple");
    reveal_strlit("spaceDelimited");
    reveal_strlit("pipeDelimited");
    reveal_strlit("deepObject");
    assert("matrix"@.len() == 6);
    assert("label"@.len() == 5);
    assert("form"@.len() == 4);
    assert("simple"@.len() == 6);
    assert("spaceDelimited"@.len() == 14);
    assert("pipeDelimited"@.len() == 13);
    assert("deepObject"@.len() == 10);
    assert("matrix"@[0] == 'm');
    assert("label"@[0] == 'l');
    assert("form"@[0] == 'f');
    assert("simple"@[0] == 's');
}

/// Describes a single operation parameter. A unique parameter is defined by
/// a combination of a name and location. The richer `examples` and `content`
/// mappings are outside this record's schema: they ride along verbatim in
/// extras, carried but not validated.
#[derive(Debug, PartialEq)]
pub struct Parameter {
    /// The name of the parameter.
    pub name: String,
    /// The location of the parameter; exposed in the document under its `in`
    /// name, which a host-language reserved word keeps off the field itself.
    pub _in: ParameterIn,
    /// A brief description of the parameter.
    pub description: Option<String>,
    /// Whether this parameter is mandatory.
    pub required: Option<bool>,
    /// Whether the parameter is deprecated.
    pub deprecated: Option<bool>,
    /// Whether empty values are accepted; exposed in the document under its
    /// `allowEmptyValue` name.
    pub allow_empty_value: Option<bool>,
    /// How the parameter value will be serialized.
    pub style: Option<Style>,
    pub explode: Option<bool>,
    pub allow_reserved: Option<bool>,
    /// The schema defining the type used for the parameter, inline or by
    /// reference.
    pub schema: Option<Referenceable<Schema>>,
    /// An example of the parameter's potential value, carried verbatim.
    pub example: Option<Any>,
    /// Every field of the source mapping outside this record's schema,
    /// retained verbatim.
    pub extras: Vec<(String, Any)>,
}

pub open spec fn parameter_keys() -> Seq<Seq<char>> {
    seq![
        "name"@,
        "in"@,
        "description"@,
        "required"@,
        "deprecated"@,
        "allowEmptyValue"@,
        "style"@,
        "explode"@,
        "allowReserved"@,
        "schema"@,
        "example"@,
    ]
}

pub open spec fn parameter_ok(v: Val) -> bool {
    &&& v matches Val::Obj(o)
    &&& lookup(o, "name"@) matches Some(Val::Str(_))
    &&& lookup(o, "in"@) matches Some(Val::Str(t)) && ParameterIn::of_lit(t) is Some
    &&& match lookup(o, "description"@) {
        None => true,
        Some(d) => d is Str,
    }
    &&& match lookup(o, "required"@) {
        None => true,
        Some(b) => b is Bool,
    }
    &&& match lookup(o, "deprecated"@) {
        None => true,
        Some(b) => b is Bool,
    }
    &&& match lookup(o, "allowEmptyValue"@) {
        None => true,
        Some(b) => b is Bool,
    }
    &&& match lookup(o, "style"@) {
        None => true,
        Some(s) => s matches Val::Str(t) && Style::of_lit(t) is Some,
    }
    &&& match lookup(o, "explode"@) {
        None => true,
        Some(b) => b is Bool,
    }
    &&& match lookup(o, "allowReserved"@) {
        None => true,
        Some(b) => b is Bool,
    }
    &&& match lookup(o, "schema"@) {
        None => true,
        Some(sv) => schema_slot_ok(sv),
    }
}

pub open spec fn parameter_matches(v: Val, x: Parameter) -> bool {
    &&& v matches Val::Obj(o)
    &&& lookup(o, "name"@) == Some(Val::Str(x.name@))
    &&& lookup(o, "in"@) matches Some(Val::Str(t)) && ParameterIn::of_lit(t) == Some(x._in)
    &&& match lookup(o, "description"@) {
        None => x.description is None,
        Some(d) => x.description matches Some(t) && d == Val::Str(t@),
    }
    &&& match lookup(o, "required"@) {
        None => x.required is None,
        Some(b) => x.required matches Some(n) && b == Val::Bool(n),
    }
    &&& match lookup(o, "deprecated"@) {
        None => x.deprecated is None,
        Some(b) => x.deprecated matches Some(n) && b == Val::Bool(n),
    }
    &&& match lookup(o, "allowEmptyValue"@) {
        None => x.allow_empty_value is None,
        Some(b) => x.allow_empty_value matches Some(n) && b == Val::Bool(n),
    }
    &&& match lookup(o, "style"@) {
        None => x.style is None,
        Some(s) => s matches Val::Str(t) && x.style matches Some(st) && Style::of_lit(t) == Some(
            st,
        ),
    }
    &&& match lookup(o, "explode"@) {
        None => x.explode is None,
        Some(b) => x.explode matches Some(n) && b == Val::Bool(n),
    }
    &&& match lookup(o, "allowReserved"@) {
        None => x.allow_reserved is None,
        Some(b) => x.allow_reserved matches Some(n) && b == Val::Bool(n),
    }
    &&& match lookup(o, "schema"@) {
        None => x.schema is None,
        Some(sv) => x.schema matches Some(sl) && schema_slot_matches(sv, sl),
    }
    &&& match lookup(o, "example"@) {
        None => x.example is None,
        Some(ev) => x.example matches Some(e) && e@ == ev,
    }
    &&& entries_view(x.extras@) == sift(o, parameter_keys())
}

/// The failure a non-decoding parameter reports: the first offense in schema
/// order.
pub open spec fn parameter_fail(v: Val) -> ErrV {
    match v {
        Val::Obj(o) => {
            if lookup(o, "name"@) is None {
                ErrV::Missing(seq!["name"@])
            } else if !(lookup(o, "name"@) matches Some(Val::Str(_))) {
                ErrV::Mismatch(seq!["name"@], "string"@)
            } else if lookup(o, "in"@) is None {
                ErrV::Missing(seq!["in"@])
            } else if !(lookup(o, "in"@) matches Some(Val::Str(t))
                && ParameterIn::of_lit(t) is Some) {
                ErrV::Mismatch(seq!["in"@], "parameter location"@)
            } else if !(match lookup(o, "description"@) {
                None => true,
                Some(d) => d is Str,
            }) {
                ErrV::Mismatch(seq!["description"@], "string"@)
            } else if !(match lookup(o, "required"@) {
                None => true,
                Some(b) => b is Bool,
            }) {
                ErrV::Mismatch(seq!["required"@], "boolean"@)
            } else if !(match lookup(o, "deprecated"@) {
                None => true,
                Some(b) => b is Bool,
            }) {
                ErrV::Mismatch(seq!["deprecated"@], "boolean"@)
            } else if !(match lookup(o, "allowEmptyValue"@) {
                None => true,
                Some(b) => b is Bool,
            }) {
                ErrV::Mismatch(seq!["allowEmptyValue"@], "boolean"@)
            } else if !(match lookup(o, "style"@) {
                None => true,
                Some(s) => s matches Val::Str(t) && Style::of_lit(t) is Some,
            }) {
                ErrV::Mismatch(seq!["style"@], "style"@)
            } else if !(match lookup(o, "explode"@) {
                None => true,
                Some(b) => b is Bool,
            }) {
                ErrV::Mismatch(seq!["explode"@], "boolean"@)
            } else if !(match lookup(o, "allowReserved"@) {
                None => true,
                Some(b) => b is Bool,
            }) {
                ErrV::Mismatch(seq!["allowReserved"@], "boolean"@)
            } else {
                match lookup(o, "schema"@) {
                    Some(sv) => prefixed("schema"@, schema_fail(sv)),
                    None => arbitrary(),
                }
            }
        },
        _ => ErrV::Mismatch(Seq::empty(), "object"@),
    }
}

impl Parameter {
    pub open spec fn wf(self) -> bool {
        &&& match self.schema {
            None => true,
            Some(sl) => sl.wf(),
        }
        &&& extras_wf(self.extras@, parameter_keys())
    }

    /// Decodes a parameter from a tree value. The location and style come
    /// from closed vocabularies: an unknown literal there is a structural
    /// mismatch, unlike the open type and format tags.
    pub fn from_value(v: Any) -> (r: Result<Parameter, DecodeError>)
        ensures
            match r {
                Ok(x) => parameter_ok(v@) && parameter_matches(v@, x) && x.wf(),
                Err(e) => !parameter_ok(v@) && e@ == parameter_fail(v@),
            },
    {
        let entries: Vec<(String, Any)> = match v {
            Any::Obj(o) => o,
            _ => {
                return Err(DecodeError::mismatch_node("object"));
            },
        };
        let mut known: Vec<&str> = Vec::new();
        known.push("name");
        known.push("in");
        known.push("description");
        known.push("required");
        known.push("deprecated");
        known.push("allowEmptyValue");
        known.push("style");
        known.push("explode");
        known.push("allowReserved");
        known.push("schema");
        known.push("example");
        proof {
            reveal_strlit("name");
            reveal_strlit("in");
            reveal_strlit("description");
            reveal_strlit("required");
            reveal_strlit("deprecated");
            reveal_strlit("allowEmptyValue");
            reveal_strlit("style");
            reveal_strlit("explode");
            reveal_strlit("allowReserved");
            reveal_strlit("schema");
            reveal_strlit("example");
            assert("name"@.len() == 4);
            assert("in"@.len() == 2);
            assert("description"@.len() == 11);
            assert("required"@.len() == 8);
            assert("deprecated"@.len() == 10);
            assert("allowEmptyValue"@.len() == 15);
            assert("style"@.len() == 5);
            assert("explode"@.len() == 7);
            assert("allowReserved"@.len() == 13);
            assert("schema"@.len() == 6);
            assert("example"@.len() == 7);
            assert("required"@[0] == 'r');
            assert("deprecated"@[0] == 'd');
            assert("description"@[0] == 'd');
            assert("explode"@[0] == 'e');
            assert("example"@[0] == 'e');
            assert("example"@[2] == 'a');
            assert("explode"@[2] == 'p');
            assert("description"@[1] == 'e');
            assert("deprecated"@[1] == 'e');
            assert("description"@[2] == 's');
            assert("deprecated"@[2] == 'p');
            assert(known@[0]@ == "name"@);
            assert(known@[1]@ == "in"@);
            assert(known@[2]@ == "description"@);
            assert(known@[3]@ == "required"@);
            assert(known@[4]@ == "deprecated"@);
            assert(known@[5]@ == "allowEmptyValue"@);
            assert(known@[6]@ == "style"@);
            assert(known@[7]@ == "explode"@);
            assert(known@[8]@ == "allowReserved"@);
            assert(known@[9]@ == "schema"@);
            assert(known@[10]@ == "example"@);
            assert(crate::record::names_view(known@) =~= parameter_keys());
        }
        let (mut slots, extras) = split_fields(entries, &known);
        proof {
            lemma_split_extras_wf(extras@, entries_view(entries@), parameter_keys());
        }
        let s_name = slots.remove(0);
        let s_in = slots.remove(0);
        let s_desc = slots.remove(0);
        let s_required = slots.remove(0);
        let s_deprecated = slots.remove(0);
        let s_empty = slots.remove(0);
        let s_style = slots.remove(0);
        let s_explode = slots.remove(0);
        let s_reserved = slots.remove(0);
        let s_schema = slots.remove(0);
        let s_example = slots.remove(0);
        let name = match take_req_string(s_name, "name") {
            Ok(t) => t,
            Err(e) => {
                return Err(e);
            },
        };
        let _in = match s_in {
            None => {
                return Err(DecodeError::missing_here("in"));
            },
            Some(Any::Str(t)) => match ParameterIn::from_text(t.as_str()) {
                Some(p) => p,
                None => {
                    return Err(DecodeError::mismatch_here("in", "parameter location"));
                },
            },
            Some(_) => {
                return Err(DecodeError::mismatch_here("in", "parameter location"));
            },
        };
        let description = match take_opt_string(s_desc, "description") {
            Ok(d) => d,
            Err(e) => {
                return Err(e);
            },
        };
        let required = match take_opt_bool(s_required, "required") {
            Ok(b) => b,
            Err(e) => {
                return Err(e);
            },
        };
        let deprecated = match take_opt_bool(s_deprecated, "deprecated") {
            Ok(b) => b,
            Err(e) => {
                return Err(e);
            },
        };
        let allow_empty_value = match take_opt_bool(s_empty, "allowEmptyValue") {
            Ok(b) => b,
            Err(e) => {
                return Err(e);
            },
        };
        let style = match s_style {
            None => None,
            Some(Any::Str(t)) => match Style::from_text(t.as_str()) {
                Some(st) => Some(st),
                None => {
                    return Err(DecodeError::mismatch_here("style", "style"));
                },
            },
            Some(_) => {
                return Err(DecodeError::mismatch_here("style", "style"));
            },
        };
        let explode = match take_opt_bool(s_explode, "explode") {
            Ok(b) => b,
            Err(e) => {
                return Err(e);
            },
        };
        let allow_reserved = match take_opt_bool(s_reserved, "allowReserved") {
            Ok(b) => b,
            Err(e) => {
                return Err(e);
            },
        };
        let schema = match s_schema {
            None => None,
            Some(sv) => match Referenceable::<Schema>::from_value(sv) {
                Ok(sl) => Some(sl),
                Err(e) => {
                    return Err(e.under("schema"));
                },
            },
        };
        let example = match s_example {
            None => None,
            Some(ev) => Some(ev),
        };
        Ok(
            Parameter {
                name,
                _in,
                description,
                required,
                deprecated,
                allow_empty_value,
                style,
                explode,
                allow_reserved,
                schema,
                example,
                extras,
            },
        )
    }

    /// The model of this record's encoding: known fields in schema order
    /// under their document names — `in` restored at the boundary — then
    /// every extra entry unchanged.
    pub open spec fn enc(self) -> Val {
        Val::Obj(
            seq![("name"@, Val::Str(self.name@)), ("in"@, Val::Str(self._in.lit()))] + (
            match self.description {
                Some(d) => seq![("description"@, Val::Str(d@))],
                None => Seq::empty(),
            }) + (match self.required {
                Some(b) => seq![("required"@, Val::Bool(b))],
                None => Seq::empty(),
            }) + (match self.deprecated {
                Some(b) => seq![("deprecated"@, Val::Bool(b))],
                None => Seq::empty(),
            }) + (match self.allow_empty_value {
                Some(b) => seq![("allowEmptyValue"@, Val::Bool(b))],
                None => Seq::empty(),
            }) + (match self.style {
                Some(st) => seq![("style"@, Val::Str(st.lit()))],
                None => Seq::empty(),
            }) + (match self.explode {
                Some(b) => seq![("explode"@, Val::Bool(b))],
                None => Seq::empty(),
            }) + (match self.allow_reserved {
                Some(b) => seq![("allowReserved"@, Val::Bool(b))],
                None => Seq::empty(),
            }) + (match self.schema {
                Some(sl) => seq![("schema"@, sl.enc())],
                None => Seq::empty(),
            }) + (match self.example {
                Some(e) => seq![("example"@, e@)],
                None => Seq::empty(),
            }) + entries_view(self.extras@),
        )
    }

    /// Encodes this record back to a tree value.
    pub fn to_value(&self) -> (r: Any)
        ensures
            r@ == self.enc(),
    {
        let mut out: Vec<(String, Any)> = Vec::new();
        crate::record::push_field(&mut out, "name", Any::Str(self.name.clone()));
        crate::record::push_field(&mut out, "in", Any::Str(self._in.text()));
        proof {
            assert(entries_view(out@) =~= seq![
                ("name"@, Val::Str(self.name@)),
                ("in"@, Val::Str(self._in.lit())),
            ]);
        }
        crate::record::push_opt_string(&mut out, "description", &self.description);
        crate::record::push_opt_bool(&mut out, "required", &self.required);
        crate::record::push_opt_bool(&mut out, "deprecated", &self.deprecated);
        crate::record::push_opt_bool(&mut out, "allowEmptyValue", &self.allow_empty_value);
        match &self.style {
            Some(st) => {
                crate::record::push_field(&mut out, "style", Any::Str(st.text()));
            },
            None => {
                proof {
                    assert(entries_view(out@) + Seq::<(Seq<char>, Val)>::empty() =~= entries_view(
                        out@,
                    ));
                }
            },
        }
        crate::record::push_opt_bool(&mut out, "explode", &self.explode);
        crate::record::push_opt_bool(&mut out, "allowReserved", &self.allow_reserved);
        match &self.schema {
            Some(sl) => {
                crate::record::push_field(&mut out, "schema", sl.to_value());
            },
            None => {
                proof {
                    assert(entries_view(out@) + Seq::<(Seq<char>, Val)>::empty() =~= entries_view(
                        out@,
                    ));
                }
            },
        }
        match &self.example {
            Some(e) => {
                crate::record::push_field(&mut out, "example", e.duplicate());
            },
            None => {
                proof {
                    assert(entries_view(out@) + Seq::<(Seq<char>, Val)>::empty() =~= entries_view(
                        out@,
                    ));
                }
            },
        }
        crate::record::push_extras(&mut out, &self.extras);
        proof {
            assert(entries_view(out@) == (match self.enc() {
                Val::Obj(o) => o,
                _ => Seq::empty(),
            }));
        }
        Any::Obj(out)
    }

    /// This record in textual form: the serialization of its encoding.
    pub fn to_string(&self) -> (r: String)
        ensures
            r@ == crate::codec::json_text_of(self.enc()),
    {
        crate::codec::value_to_text(&self.to_value())
    }
}

/// A response or encoding header: a parameter without a name or location of
/// its own. As with a parameter, the richer `examples` and `content`
/// mappings are outside this record's schema and ride along verbatim in
/// extras, carried but not validated.
#[derive(Debug, PartialEq)]
pub struct Header {
    /// A brief description of the header.
    pub description: Option<String>,
    /// Whether this header is mandatory.
    pub required: Option<bool>,
    /// Whether the header is deprecated.
    pub deprecated: Option<bool>,
    /// Whether empty values are accepted; exposed in the document under its
    /// `allowEmptyValue` name.
    pub allow_empty_value: Option<bool>,
    /// How the header value will be serialized.
    pub style: Option<Style>,
    pub explode: Option<bool>,
    pub allow_reserved: Option<bool>,
    /// The schema defining the type used for the header, inline or by
    /// reference.
    pub schema: Option<Referenceable<Schema>>,
    /// An example of the header's potential value, carried verbatim.
    pub example: Option<Any>,
    /// Every field of the source mapping outside this record's schema,
    /// retained verbatim.
    pub extras: Vec<(String, Any)>,
}

pub open spec fn header_keys() -> Seq<Seq<char>> {
    seq![
        "description"@,
        "required"@,
        "deprecated"@,
        "allowEmptyValue"@,
        "style"@,
        "explode"@,
        "allowReserved"@,
        "schema"@,
        "example"@,
    ]
}

pub open spec fn header_ok(v: Val) -> bool {
    &&& v matches Val::Obj(o)
    &&& match lookup(o, "description"@) {
        None => true,
        Some(d) => d is Str,
    }
    &&& match lookup(o, "required"@) {
        None => true,
        Some(b) => b is Bool,
    }
    &&& match lookup(o, "deprecated"@) {
        None => true,
        Some(b) => b is Bool,
    }
    &&& match lookup(o, "allowEmptyValue"@) {
        None => true,
        Some(b) => b is Bool,
    }
    &&& match lookup(o, "style"@) {
        None => true,
        Some(s) => s matches Val::Str(t) && Style::of_lit(t) is Some,
    }
    &&& match lookup(o, "explode"@) {
        None => true,
        Some(b) => b is Bool,
    }
    &&& match lookup(o, "allowReserved"@) {
        None => true,
        Some(b) => b is Bool,
    }
    &&& match lookup(o, "schema"@) {
        None => true,
        Some(sv) => schema_slot_ok(sv),
    }
}

pub open spec fn header_matches(v: Val, x: Header) -> bool {
    &&& v matches Val::Obj(o)
    &&& match lookup(o, "description"@) {
        None => x.description is None,
        Some(d) => x.description matches Some(t) && d == Val::Str(t@),
    }
    &&& match lookup(o, "required"@) {
        None => x.required is None,
        Some(b) => x.required matches Some(n) && b == Val::Bool(n),
    }
    &&& match lookup(o, "deprecated"@) {
        None => x.deprecated is None,
        Some(b) => x.deprecated matches Some(n) && b == Val::Bool(n),
    }
    &&& match lookup(o, "allowEmptyValue"@) {
        None => x.allow_empty_value is None,
        Some(b) => x.allow_empty_value matches Some(n) && b == Val::Bool(n),
    }
    &&& match lookup(o, "style"@) {
        None => x.style is None,
        Some(s) => s matches Val::Str(t) && x.style matches Some(st) && Style::of_lit(t) == Some(
            st,
        ),
    }
    &&& match lookup(o, "explode"@) {
        None => x.explode is None,
        Some(b) => x.explode matches Some(n) && b == Val::Bool(n),
    }
    &&& match lookup(o, "allowReserved"@) {
        None => x.allow_reserved is None,
        Some(b) => x.allow_reserved matches Some(n) && b == Val::Bool(n),
    }
    &&& match lookup(o, "schema"@) {
        None => x.schema is None,
        Some(sv) => x.schema matches Some(sl) && schema_slot_matches(sv, sl),
    }
    &&& match lookup(o, "example"@) {
        None => x.example is None,
        Some(ev) => x.example matches Some(e) && e@ == ev,
    }
    &&& entries_view(x.extras@) == sift(o, header_keys())
}

pub open spec fn header_fail(v: Val) -> ErrV {
    match v {
        Val::Obj(o) => {
            if !(match lookup(o, "description"@) {
                None => true,
                Some(d) => d is Str,
            }) {
                ErrV::Mismatch(seq!["description"@], "string"@)
            } else if !(match lookup(o, "required"@) {
                None => true,
                Some(b) => b is Bool,
            }) {
                ErrV::Mismatch(seq!["required"@], "boolean"@)
            } else if !(match lookup(o, "deprecated"@) {
                None => true,
                Some(b) => b is Bool,
            }) {
                ErrV::Mismatch(seq!["deprecated"@], "boolean"@)
            } else if !(match lookup(o, "allowEmptyValue"@) {
                None => true,
                Some(b) => b is Bool,
            }) {
                ErrV::Mismatch(seq!["allowEmptyValue"@], "boolean"@)
            } else if !(match lookup(o, "style"@) {
                None => true,
                Some(s) => s matches Val::Str(t) && Style::of_lit(t) is Some,
            }) {
                ErrV::Mismatch(seq!["style"@], "style"@)
            } else if !(match lookup(o, "explode"@) {
                None => true,
                Some(b) => b is Bool,
            }) {
                ErrV::Mismatch(seq!["explode"@], "boolean"@)
            } else if !(match lookup(o, "allowReserved"@) {
                None => true,
                Some(b) => b is Bool,
            }) {
                ErrV::Mismatch(seq!["allowReserved"@], "boolean"@)
            } else {
                match lookup(o, "schema"@) {
                    Some(sv) => prefixed("schema"@, schema_fail(sv)),
                    None => arbitrary(),
                }
            }
        },
        _ => ErrV::Mismatch(Seq::empty(), "object"@),
    }
}

impl Header {
    pub open spec fn wf(self) -> bool {
        &&& match self.schema {
            None => true,
            Some(sl) => sl.wf(),
        }
        &&& extras_wf(self.extras@, header_keys())
    }

    /// Decodes a header from a tree value.
    pub fn from_value(v: Any) -> (r: Result<Header, DecodeError>)
        ensures
            match r {
                Ok(x) => header_ok(v@) && header_matches(v@, x) && x.wf(),
                Err(e) => !header_ok(v@) && e@ == header_fail(v@),
            },
    {
        let entries: Vec<(String, Any)> = match v {
            Any::Obj(o) => o,
            _ => {
                return Err(DecodeError::mismatch_node("object"));
            },
        };
        let mut known: Vec<&str> = Vec::new();
        known.push("description");
        known.push("required");
        known.push("deprecated");
        known.push("allowEmptyValue");
        known.push("style");
        known.push("explode");
        known.push("allowReserved");
        known.push("schema");
        known.push("example");
        proof {
            reveal_strlit("description");
            reveal_strlit("required");
            reveal_strlit("deprecated");
            reveal_strlit("allowEmptyValue");
            reveal_strlit("style");
            reveal_strlit("explode");
            reveal_strlit("allowReserved");
            reveal_strlit("schema");
            reveal_strlit("example");
            assert("description"@.len() == 11);
            assert("required"@.len() == 8);
            assert("deprecated"@.len() == 10);
            assert("allowEmptyValue"@.len() == 15);
            assert("style"@.len() == 5);
            assert("explode"@.len() == 7);
            assert("allowReserved"@.len() == 13);
            assert("schema"@.len() == 6);
            assert("example"@.len() == 7);
            assert("description"@[0] == 'd');
            assert("deprecated"@[0] == 'd');
            assert("description"@[1] == 'e');
            assert("deprecated"@[1] == 'e');
            assert("description"@[2] == 's');
            assert("deprecated"@[2] == 'p');
            assert("explode"@[0] == 'e');
            assert("example"@[0] == 'e');
            assert("explode"@[2] == 'p');
            assert("example"@[2] == 'a');
            assert(known@[0]@ == "description"@);
            assert(known@[1]@ == "required"@);
            assert(known@[2]@ == "deprecated"@);
            assert(known@[3]@ == "allowEmptyValue"@);
            assert(known@[4]@ == "style"@);
            assert(known@[5]@ == "explode"@);
            assert(known@[6]@ == "allowReserved"@);
            assert(known@[7]@ == "schema"@);
            assert(known@[8]@ == "example"@);
            assert(crate::record::names_view(known@) =~= header_keys());
        }
        let (mut slots, extras) = split_fields(entries, &known);
        proof {
            lemma_split_extras_wf(extras@, entries_view(entries@), header_keys());
        }
        let s_desc = slots.remove(0);
        let s_required = slots.remove(0);
        let s_deprecated = slots.remove(0);
        let s_empty = slots.remove(0);
        let s_style = slots.remove(0);
        let s_explode = slots.remove(0);
        let s_reserved = slots.remove(0);
        let s_schema = slots.remove(0);
        let s_example = slots.remove(0);
        let description = match take_opt_string(s_desc, "description") {
            Ok(d) => d,
            Err(e) => {
                return Err(e);
            },
        };
        let required = match take_opt_bool(s_required, "required") {
            Ok(b) => b,
            Err(e) => {
                return Err(e);
            },
        };
        let deprecated = match take_opt_bool(s_deprecated, "deprecated") {
            Ok(b) => b,
            Err(e) => {
                return Err(e);
            },
        };
        let allow_empty_value = match take_opt_bool(s_empty, "allowEmptyValue") {
            Ok(b) => b,
            Err(e) => {
                return Err(e);
            },
        };
        let style = match s_style {
            None => None,
            Some(Any::Str(t)) => match Style::from_text(t.as_str()) {
                Some(st) => Some(st),
                None => {
                    return Err(DecodeError::mismatch_here("style", "style"));
                },
            },
            Some(_) => {
                return Err(DecodeError::mismatch_here("style", "style"));
            },
        };
        let explode = match take_opt_bool(s_explode, "explode") {
            Ok(b) => b,
            Err(e) => {
                return Err(e);
            },
        };
        let allow_reserved = match take_opt_bool(s_reserved, "allowReserved") {
            Ok(b) => b,
            Err(e) => {
                return Err(e);
            },
        };
        let schema = match s_schema {
            None => None,
            Some(sv) => match Referenceable::<Schema>::from_value(sv) {
                Ok(sl) => Some(sl),
                Err(e) => {
                    return Err(e.under("schema"));
                },
            },
        };
        let example = s_example;
        Ok(
            Header {
                description,
                required,
                deprecated,
                allow_empty_value,
                style,
                explode,
                allow_reserved,
                schema,
                example,
                extras,
            },
        )
    }

    /// The model of this record's encoding.
    pub open spec fn enc(self) -> Val {
        Val::Obj(
            (match self.description {
                Some(d) => seq![("description"@, Val::Str(d@))],
                None => Seq::empty(),
            }) + (match self.required {
                Some(b) => seq![("required"@, Val::Bool(b))],
                None => Seq::empty(),
            }) + (match self.deprecated {
                Some(b) => seq![("deprecated"@, Val::Bool(b))],
                None => Seq::empty(),
            }) + (match self.allow_empty_value {
                Some(b) => seq![("allowEmptyValue"@, Val::Bool(b))],
                None => Seq::empty(),
            }) + (match self.style {
                Some(st) => seq![("style"@, Val::Str(st.lit()))],
                None => Seq::empty(),
            }) + (match self.explode {
                Some(b) => seq![("explode"@, Val::Bool(b))],
                None => Seq::empty(),
            }) + (match self.allow_reserved {
                Some(b) => seq![("allowReserved"@, Val::Bool(b))],
                None => Seq::empty(),
            }) + (match self.schema {
                Some(sl) => seq![("schema"@, sl.enc())],
                None => Seq::empty(),
            }) + (match self.example {
                Some(e) => seq![("example"@, e@)],
                None => Seq::empty(),
            }) + entries_view(self.extras@),
        )
    }

    /// Encodes this record back to a tree value.
    pub fn to_value(&self) -> (r: Any)
        ensures
            r@ == self.enc(),
    {
        let mut out: Vec<(String, Any)> = Vec::new();
        proof {
            assert(entries_view(out@) =~= Seq::<(Seq<char>, Val)>::empty());
        }
        crate::record::push_opt_string(&mut out, "description", &self.description);
        proof {
            assert(Seq::<(Seq<char>, Val)>::empty() + (match self.description {
                Some(d) => seq![("description"@, Val::Str(d@))],
                None => Seq::<(Seq<char>, Val)>::empty(),
            }) =~= (match self.description {
                Some(d) => seq![("description"@, Val::Str(d@))],
                None => Seq::<(Seq<char>, Val)>::empty(),
            }));
        }
        crate::record::push_opt_bool(&mut out, "required", &self.required);
        crate::record::push_opt_bool(&mut out, "deprecated", &self.deprecated);
        crate::record::push_opt_bool(&mut out, "allowEmptyValue", &self.allow_empty_value);
        match &self.style {
            Some(st) => {
                crate::record::push_field(&mut out, "style", Any::Str(st.text()));
            },
            None => {
                proof {
                    assert(entries_view(out@) + Seq::<(Seq<char>, Val)>::empty() =~= entries_view(
                        out@,
                    ));
                }
            },
        }
        crate::record::push_opt_bool(&mut out, "explode", &self.explode);
        crate::record::push_opt_bool(&mut out, "allowReserved", &self.allow_reserved);
        match &self.schema {
            Some(sl) => {
                crate::record::push_field(&mut out, "schema", sl.to_value());
            },
            None => {
                proof {
                    assert(entries_view(out@) + Seq::<(Seq<char>, Val)>::empty() =~= entries_view(
                        out@,
                    ));
                }
            },
        }
        match &self.example {
            Some(e) => {
                crate::record::push_field(&mut out, "example", e.duplicate());
            },
            None => {
                proof {
                    assert(entries_view(out@) + Seq::<(Seq<char>, Val)>::empty() =~= entries_view(
                        out@,
                    ));
                }
            },
        }
        crate::record::push_extras(&mut out, &self.extras);
        proof {
            assert(entries_view(out@) =~= (match self.enc() {
                Val::Obj(o) => o,
                _ => Seq::empty(),
            }));
        }
        Any::Obj(out)
    }

    /// This record in textual form: the serialization of its encoding.
    pub fn to_string(&self) -> (r: String)
        ensures
            r@ == crate::codec::json_text_of(self.enc()),
    {
        crate::codec::value_to_text(&self.to_value())
    }
}

} // verus!
