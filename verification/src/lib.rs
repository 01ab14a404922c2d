//! An OpenAPI v3 document model that survives round trips through its textual
//! form without losing information, even where the source strays from the
//! nominal schema: invalid scalars degrade to raw text, unknown enum literals
//! are kept verbatim, nodes may hold inline data or a `$ref` token, and every
//! unrecognized field is retained in a record's extras map.
mod codec;
mod contact;
mod error;
mod info;
mod jsontree;
mod license;
mod openapiv3;
mod parameter;
mod record;
mod schema;
mod server;
mod shared;
mod value;

pub use codec::{json_syntax_ok, json_tree_of, json_text_of, text_to_value, value_to_text, parse};
pub use contact::{Contact, contact_keys, contact_ok, contact_matches, contact_fail, contact_eqv,
    lemma_contact_enc_ok, lemma_contact_round_trip};
pub use info::{Info, info_keys, info_ok, info_matches, info_fail, info_eqv, lemma_info_enc_ok,
    lemma_info_round_trip};
pub use openapiv3::{OpenAPIV3, root_keys, root_ok, root_matches, root_fail, root_eqv,
    lemma_root_enc_ok, lemma_root_round_trip, servers_enc, tags_enc, servers_list_ok,
    tags_list_ok, servers_list_match, tags_list_match, servers_list_fail, tags_list_fail,
    lemma_server_eqv_enc, lemma_tag_eqv_enc};
pub use license::{License, license_keys, license_ok, license_matches, license_fail, license_eqv,
    lemma_license_enc_ok, lemma_license_round_trip, lemma_license_extras_fidelity,
    lemma_license_key_set};
pub use server::{Server, server_keys, server_ok, server_matches, server_fail, server_eqv,
    lemma_server_enc_ok, lemma_server_round_trip, vars_ok, vars_match, vars_fail, vars_enc};
pub use server::{ServerVariable, server_variable_keys, server_variable_ok,
    server_variable_matches, server_variable_fail, server_variable_eqv,
    lemma_server_variable_enc_ok, lemma_server_variable_round_trip, str_list_ok,
    str_list_matches, str_list_enc};

pub use record::{opt_view, names_view, split_fields, take_req_string, take_opt_string,
    take_opt_bool};

pub use error::{DecodeError, ErrV, prefixed};
pub use shared::{Parseable, LenV, lenient_text, url_norm, semver_norm, email_ok};
pub use shared::{lenient_url, lenient_semver, lenient_email};
pub use shared::{lenient_url_spec, lenient_semver_spec, lenient_email_spec};
pub use shared::{url_lenv_wf, semver_lenv_wf, email_lenv_wf};
pub use shared::{Reference, Referenceable, ref_token_of, find_ref_token, lemma_lookup_take_one};
pub use shared::{lemma_lenient_fallback, lemma_lenient_url_round_trip};
pub use shared::{lemma_lenient_semver_round_trip, lemma_lenient_email_round_trip};
pub use parameter::{Header, header_keys, header_ok, header_matches, header_fail};
pub use parameter::{Parameter, ParameterIn, Style, parameter_keys, parameter_ok,
    parameter_matches, parameter_fail, lemma_parameter_in_round_trip, lemma_style_round_trip};
pub use schema::{Schema, schema_keys, schema_ok, schema_matches, schema_fail, schema_eqv,
    lemma_schema_enc_ok, lemma_schema_round_trip, schema_slot_ok, schema_slot_matches,
    lemma_slot_precedence};
pub use shared::{Type, Format, known_type_lit, known_format_lit, type_of_text, format_of_text,
    lemma_type_round_trip, lemma_type_fallback, lemma_format_round_trip, lemma_format_fallback};
pub use shared::{ExternalDocumentation, extdoc_keys, extdoc_ok, extdoc_matches, extdoc_fail,
    extdoc_eqv, lemma_extdoc_enc_ok, lemma_extdoc_round_trip, lemma_extdoc_eqv_enc};
pub use shared::{Example, example_keys, example_ok, example_matches, example_fail};
pub use shared::{Link, link_keys, link_ok, link_matches, link_fail};
pub use shared::{Discriminator, discriminator_keys, discriminator_ok, discriminator_matches,
    discriminator_fail};
pub use shared::{Tag, tag_keys, tag_ok, tag_matches, tag_fail, tag_eqv, lemma_tag_enc_ok,
    lemma_tag_round_trip};
pub use value::{Any, Val, seq_view, entries_view, lemma_seq_view, lemma_entries_view};
pub use value::{lemma_lookup_sift, lemma_lookup_absent, lemma_lookup_single, lemma_lookup_concat};
pub use value::{lemma_sift_concat, lemma_sift_all_known, lemma_sift_none_known, duplicate_entries};
pub use value::{lookup, sift, lemma_lookup_push, lemma_sift_push, lemma_sift_members, str_eq};

