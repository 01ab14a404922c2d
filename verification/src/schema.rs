//! The schema object, reduced to its tagged scalars, and the slot that holds
//! either an inline schema or a reference to one defined elsewhere.
use vstd::prelude::*;

use crate::error::{DecodeError, ErrV};
use crate::record::{extras_wf, lemma_split_extras_wf, opt_view, split_fields, take_opt_bool};
use crate::shared::{Format, Reference, Referenceable, Type, ref_token_of, find_ref_token,
    take_opt_format, take_opt_type};
use crate::value::{Any, Val, entries_view, lemma_entries_view, lemma_lookup_absent,
    lemma_lookup_concat, lemma_lookup_single, lemma_sift_all_known, lemma_sift_concat,
    lemma_sift_none_known, lookup, sift};

verus! {

/// The schema object: its structural type and format as open enumerations,
/// its nullability, and everything else verbatim in extras.
#[derive(Debug, PartialEq)]
pub struct Schema {
    /// The structural type; exposed in the document under its `type` name.
    pub _type: Option<Type>,
    /// The format qualifier.
    pub format: Option<Format>,
    /// Whether null is an accepted value.
    pub nullable: Option<bool>,
    /// Every field of the source mapping outside this record's schema,
    /// retained verbatim.
    pub extras: Vec<(String, Any)>,
}

pub open spec fn schema_keys() -> Seq<Seq<char>> {
    seq!["type"@, "format"@, "nullable"@]
}

pub open spec fn schema_ok(v: Val) -> bool {
    &&& v matches Val::Obj(o)
    &&& match lookup(o, "type"@) {
        None => true,
        Some(t) => t is Str,
    }
    &&& match lookup(o, "format"@) {
        None => true,
        Some(f) => f is Str,
    }
    &&& match lookup(o, "nullable"@) {
        None => true,
        Some(b) => b is Bool,
    }
}

pub open spec fn schema_matches(v: Val, x: Schema) -> bool {
    &&& v matches Val::Obj(o)
    &&& match lookup(o, "type"@) {
        None => x._type is None,
        Some(s) => s matches Val::Str(t) && x._type matches Some(ty) && ty.lit() == t && ty.wf(),
    }
    &&& match lookup(o, "format"@) {
        None => x.format is None,
        Some(s) => s matches Val::Str(t) && x.format matches Some(f) && f.lit() == t && f.wf(),
    }
    &&& match lookup(o, "nullable"@) {
        None => x.nullable is None,
        Some(b) => x.nullable matches Some(n) && b == Val::Bool(n),
    }
    &&& entries_view(x.extras@) == sift(o, schema_keys())
}

pub open spec fn schema_fail(v: Val) -> ErrV {
    match v {
        Val::Obj(o) => {
            if !(match lookup(o, "type"@) {
                None => true,
                Some(t) => t is Str,
            }) {
                ErrV::Mismatch(seq!["type"@], "string"@)
            } else if !(match lookup(o, "format"@) {
                None => true,
                Some(f) => f is Str,
            }) {
                ErrV::Mismatch(seq!["format"@], "string"@)
            } else {
                ErrV::Mismatch(seq!["nullable"@], "boolean"@)
            }
        },
        _ => ErrV::Mismatch(Seq::empty(), "object"@),
    }
}

impl Schema {
    pub open spec fn wf(self) -> bool {
        &&& match self._type {
            None => true,
            Some(t) => t.wf(),
        }
        &&& match self.format {
            None => true,
            Some(f) => f.wf(),
        }
        &&& extras_wf(self.extras@, schema_keys())
    }

    /// Decodes a schema from a tree value. An unknown type or format literal
    /// is kept verbatim in its fallback variant, never rejected.
    pub fn from_value(v: Any) -> (r: Result<Schema, DecodeError>)
        ensures
            match r {
                Ok(x) => schema_ok(v@) && schema_matches(v@, x) && x.wf(),
                Err(e) => !schema_ok(v@) && e@ == schema_fail(v@),
            },
    {
        let entries: Vec<(String, Any)> = match v {
            Any::Obj(o) => o,
            _ => {
                return Err(DecodeError::mismatch_node("object"));
            },
        };
        let mut known: Vec<&str> = Vec::new();
        known.push("type");
        known.push("format");
        known.push("nullable");
        proof {
            reveal_strlit("type");
            reveal_strlit("format");
            reveal_strlit("nullable");
            assert("type"@.len() == 4);
            assert("format"@.len() == 6);
            assert("nullable"@.len() == 8);
            assert(known@[0]@ == "type"@);
            assert(known@[1]@ == "format"@);
            assert(known@[2]@ == "nullable"@);
            assert(crate::record::names_view(known@) =~= schema_keys());
        }
        let (mut slots, extras) = split_fields(entries, &known);
        proof {
            lemma_split_extras_wf(extras@, entries_view(entries@), schema_keys());
        }
        let s_type = slots.remove(0);
        let s_format = slots.remove(0);
        let s_nullable = slots.remove(0);
        let _type = match take_opt_type(s_type, "type") {
            Ok(t) => t,
            Err(e) => {
                return Err(e);
            },
        };
        let format = match take_opt_format(s_format, "format") {
            Ok(f) => f,
            Err(e) => {
                return Err(e);
            },
        };
        let nullable = match take_opt_bool(s_nullable, "nullable") {
            Ok(b) => b,
            Err(e) => {
                return Err(e);
            },
        };
        Ok(Schema { _type, format, nullable, extras })
    }

    /// The model of this record's encoding.
    pub open spec fn enc(self) -> Val {
        Val::Obj(
            (match self._type {
                Some(t) => seq![("type"@, Val::Str(t.lit()))],
                None => Seq::empty(),
            }) + (match self.format {
                Some(f) => seq![("format"@, Val::Str(f.lit()))],
                None => Seq::empty(),
            }) + (match self.nullable {
                Some(b) => seq![("nullable"@, Val::Bool(b))],
                None => Seq::empty(),
            }) + entries_view(self.extras@),
        )
    }

    /// Encodes this record back to a tree value.
    pub fn to_value(&self) -> (r: Any)
        ensures
            r@ == self.enc(),
    {
        let mut out: Vec<(String, Any)> = Vec::new();
        match &self._type {
            Some(t) => {
                out.push(("type".to_owned(), Any::Str(t.text())));
            },
            None => {},
        }
        match &self.format {
            Some(f) => {
                out.push(("format".to_owned(), Any::Str(f.text())));
            },
            None => {},
        }
        match &self.nullable {
            Some(b) => {
                out.push(("nullable".to_owned(), Any::Bool(*b)));
            },
            None => {},
        }
        let mut ex = crate::value::duplicate_entries(&self.extras);
        let ghost gex = ex@;
        out.append(&mut ex);
        proof {
            lemma_entries_view(out@);
            lemma_entries_view(gex);
            lemma_entries_view(self.extras@);
            assert forall|t: int|
                0 <= t < gex.len() implies (gex[t].0@, gex[t].1@) == entries_view(
                self.extras@,
            )[t] by {
                assert(entries_view(gex)[t] == (gex[t].0@, gex[t].1@));
            }
            assert(entries_view(out@) =~= (match self.enc() {
                Val::Obj(o) => o,
                _ => Seq::empty(),
            }));
        }
        Any::Obj(out)
    }

    /// This record in textual form: the serialization of its encoding.
    pub fn to_string(&self) -> (r: String)
        ensures
            r@ == crate::codec::json_text_of(self.enc()),
    {
        crate::codec::value_to_text(&self.to_value())
    }
}

pub open spec fn schema_eqv(a: Schema, b: Schema) -> bool {
    &&& match (a._type, b._type) {
        (None, None) => true,
        (Some(x), Some(y)) => x.lit() == y.lit() && (x is Other <==> y is Other),
        _ => false,
    }
    &&& match (a.format, b.format) {
        (None, None) => true,
        (Some(x), Some(y)) => x.lit() == y.lit() && (x is Other <==> y is Other),
        _ => false,
    }
    &&& a.nullable == b.nullable
    &&& entries_view(a.extras@) == entries_view(b.extras@)
}

/// A well-formed schema's encoding decodes, and its fields look up to
/// exactly what was encoded.
pub proof fn lemma_schema_enc_ok(x: Schema)
    requires
        x.wf(),
    ensures
        schema_ok(x.enc()),
        schema_matches(x.enc(), x),
        x.enc() matches Val::Obj(o) && lookup(o, "$ref"@) == lookup(
            entries_view(x.extras@),
            "$ref"@,
        ),
{
    reveal_strlit("type");
    reveal_strlit("format");
    reveal_strlit("nullable");
    reveal_strlit("$ref");
    assert("type"@.len() == 4);
    assert("format"@.len() == 6);
    assert("nullable"@.len() == 8);
    assert("$ref"@.len() == 4);
    assert("$ref"@[0] == '$');
    let ks = schema_keys();
    let f1: Seq<(Seq<char>, Val)> = match x._type {
        Some(t) => seq![("type"@, Val::Str(t.lit()))],
        None => Seq::empty(),
    };
    let f2: Seq<(Seq<char>, Val)> = match x.format {
        Some(f) => seq![("format"@, Val::Str(f.lit()))],
        None => Seq::empty(),
    };
    let f3: Seq<(Seq<char>, Val)> = match x.nullable {
        Some(b) => seq![("nullable"@, Val::Bool(b))],
        None => Seq::empty(),
    };
    let ex = entries_view(x.extras@);
    let o = f1 + f2 + f3 + ex;
    lemma_entries_view(x.extras@);
    assert(ks.contains("type"@)) by {
        assert(ks[0] == "type"@);
    }
    assert(ks.contains("format"@)) by {
        assert(ks[1] == "format"@);
    }
    assert(ks.contains("nullable"@)) by {
        assert(ks[2] == "nullable"@);
    }
    assert forall|i: int| 0 <= i < ex.len() implies !ks.contains((#[trigger] ex[i]).0) by {
        assert(ex[i] == (x.extras@[i].0@, x.extras@[i].1@));
    }
    lemma_lookup_absent(ex, "type"@);
    lemma_lookup_absent(ex, "format"@);
    lemma_lookup_absent(ex, "nullable"@);
    match x._type {
        Some(t) => {
            lemma_lookup_single(("type"@, Val::Str(t.lit())), "type"@);
            lemma_lookup_single(("type"@, Val::Str(t.lit())), "format"@);
            lemma_lookup_single(("type"@, Val::Str(t.lit())), "nullable"@);
            lemma_lookup_single(("type"@, Val::Str(t.lit())), "$ref"@);
        },
        None => {
            assert(f1.len() == 0);
        },
    }
    match x.format {
        Some(f) => {
            lemma_lookup_single(("format"@, Val::Str(f.lit())), "type"@);
            lemma_lookup_single(("format"@, Val::Str(f.lit())), "format"@);
            lemma_lookup_single(("format"@, Val::Str(f.lit())), "nullable"@);
            lemma_lookup_single(("format"@, Val::Str(f.lit())), "$ref"@);
        },
        None => {
            assert(f2.len() == 0);
        },
    }
    match x.nullable {
        Some(b) => {
            lemma_lookup_single(("nullable"@, Val::Bool(b)), "type"@);
            lemma_lookup_single(("nullable"@, Val::Bool(b)), "format"@);
            lemma_lookup_single(("nullable"@, Val::Bool(b)), "nullable"@);
            lemma_lookup_single(("nullable"@, Val::Bool(b)), "$ref"@);
        },
        None => {
            assert(f3.len() == 0);
        },
    }
    lemma_lookup_concat(f1 + f2 + f3, ex, "type"@);
    lemma_lookup_concat(f1 + f2 + f3, ex, "format"@);
    lemma_lookup_concat(f1 + f2 + f3, ex, "nullable"@);
    lemma_lookup_concat(f1 + f2 + f3, ex, "$ref"@);
    lemma_lookup_concat(f1 + f2, f3, "type"@);
    lemma_lookup_concat(f1 + f2, f3, "format"@);
    lemma_lookup_concat(f1 + f2, f3, "nullable"@);
    lemma_lookup_concat(f1 + f2, f3, "$ref"@);
    lemma_lookup_concat(f1, f2, "type"@);
    lemma_lookup_concat(f1, f2, "format"@);
    lemma_lookup_concat(f1, f2, "nullable"@);
    lemma_lookup_concat(f1, f2, "$ref"@);
    lemma_sift_concat(f1 + f2 + f3, ex, ks);
    lemma_sift_concat(f1 + f2, f3, ks);
    lemma_sift_concat(f1, f2, ks);
    assert forall|i: int| 0 <= i < f1.len() implies ks.contains(#[trigger] f1[i].0) by {
        assert(f1[i] == f1[0]);
    }
    assert forall|i: int| 0 <= i < f2.len() implies ks.contains(#[trigger] f2[i].0) by {
        assert(f2[i] == f2[0]);
    }
    assert forall|i: int| 0 <= i < f3.len() implies ks.contains(#[trigger] f3[i].0) by {
        assert(f3[i] == f3[0]);
    }
    lemma_sift_all_known(f1, ks);
    lemma_sift_all_known(f2, ks);
    lemma_sift_all_known(f3, ks);
    lemma_sift_none_known(ex, ks);
    assert(sift(o, ks) =~= ex);
}

/// Decoding what a well-formed schema encodes to reproduces the record.
pub proof fn lemma_schema_round_trip(x: Schema, y: Schema)
    requires
        x.wf(),
        schema_matches(x.enc(), y),
    ensures
        schema_eqv(y, x),
{
    lemma_schema_enc_ok(x);
}

/// How a decoded schema slot relates to its source: the reference marker
/// takes unconditional precedence over any inline interpretation.
pub open spec fn schema_slot_matches(v: Val, r: Referenceable<Schema>) -> bool {
    match ref_token_of(v) {
        Some(t) => r matches Referenceable::Reference(rf) && rf@ == t,
        None => r matches Referenceable::Data(s) && schema_matches(v, s),
    }
}

pub open spec fn schema_slot_ok(v: Val) -> bool {
    ref_token_of(v) is Some || schema_ok(v)
}

/// Slot precedence: a node that carries the reference marker always decodes
/// as a reference, never as inline data, whatever its sibling keys would
/// parse as.
pub proof fn lemma_slot_precedence(v: Val, tok: Seq<char>, r: Referenceable<Schema>)
    requires
        ref_token_of(v) == Some(tok),
        schema_slot_matches(v, r),
    ensures
        r matches Referenceable::Reference(rf) && rf@ == tok,
        r !is Data,
{
}

impl Referenceable<Schema> {
    /// A decoded slot never hides a string reference marker inside inline
    /// data's extras.
    pub open spec fn wf(self) -> bool {
        match self {
            Referenceable::Data(s) => s.wf() && !(lookup(entries_view(s.extras@), "$ref"@)
                matches Some(Val::Str(_))),
            Referenceable::Reference(_) => true,
        }
    }

    /// Decodes a slot: a mapping with a string under the `$ref` key is a
    /// reference; any other value is decoded as an inline schema.
    pub fn from_value(v: Any) -> (r: Result<Referenceable<Schema>, DecodeError>)
        ensures
            match r {
                Ok(x) => schema_slot_ok(v@) && schema_slot_matches(v@, x) && x.wf(),
                Err(e) => !schema_slot_ok(v@) && e@ == schema_fail(v@),
            },
    {
        if let Any::Obj(entries) = &v {
            match find_ref_token(entries) {
                Some(tok) => {
                    return Ok(Referenceable::Reference(Reference { _ref: tok }));
                },
                None => {},
            }
        }
        let ghost gv = v@;
        match Schema::from_value(v) {
            Ok(s) => {
                proof {
                    assert(ref_token_of(gv) is None);
                    match gv {
                        Val::Obj(o) => {
                            assert(entries_view(s.extras@) == sift(o, schema_keys()));
                            assert(!(lookup(entries_view(s.extras@), "$ref"@) matches Some(
                                Val::Str(_),
                            ))) by {
                                lemma_sift_ref(o, s.extras@);
                            }
                        },
                        _ => {},
                    }
                }
                Ok(Referenceable::Data(s))
            },
            Err(e) => Err(e),
        }
    }

    /// The model of this slot's encoding: the reference-marker mapping, or
    /// the inline schema's own encoding, never both.
    pub open spec fn enc(self) -> Val {
        match self {
            Referenceable::Reference(rf) => Val::Obj(seq![("$ref"@, Val::Str(rf@))]),
            Referenceable::Data(s) => s.enc(),
        }
    }

    /// Encodes this slot back to a tree value.
    pub fn to_value(&self) -> (r: Any)
        ensures
            r@ == self.enc(),
    {
        match self {
            Referenceable::Reference(rf) => {
                let mut out: Vec<(String, Any)> = Vec::new();
                out.push(("$ref".to_owned(), Any::Str(rf._ref.clone())));
                proof {
                    lemma_entries_view(out@);
                    assert(entries_view(out@) =~= seq![("$ref"@, Val::Str(rf@))]);
                }
                Any::Obj(out)
            },
            Referenceable::Data(s) => s.to_value(),
        }
    }
}

/// The reference marker is no known schema field, so the extras keep its
/// first match as the source had it: a source without a string marker
/// decodes to inline data whose extras hold no string marker either.
proof fn lemma_sift_ref(o: Seq<(Seq<char>, Val)>, extras: Seq<(String, Any)>)
    requires
        entries_view(extras) == sift(o, schema_keys()),
        !(lookup(o, "$ref"@) matches Some(Val::Str(_))),
    ensures
        !(lookup(entries_view(extras), "$ref"@) matches Some(Val::Str(_))),
{
    reveal_strlit("type");
    reveal_strlit("format");
    reveal_strlit("nullable");
    reveal_strlit("$ref");
    assert("$ref"@.len() == 4);
    assert("$ref"@[0] == '$');
    assert("type"@.len() == 4);
    assert("format"@.len() == 6);
    assert("nullable"@.len() == 8);
    assert("type"@[0] == 't');
    assert(!schema_keys().contains("$ref"@)) by {
        if schema_keys().contains("$ref"@) {
            let i = choose|i: int|
                0 <= i < schema_keys().len() && schema_keys()[i] == "$ref"@;
            assert(schema_keys()[0] == "type"@);
            assert(schema_keys()[1] == "format"@);
            assert(schema_keys()[2] == "nullable"@);
        }
    }
    crate::value::lemma_lookup_sift(o, schema_keys(), "$ref"@);
}

} // verus!
