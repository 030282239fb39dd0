//! `_field_extra.toml`: the keys a template set accepts in `fields[].extra`
//! of an entity JSON, their value types, and the field types that require
//! them. Without the file, extra keys are unconstrained.

use vstd::prelude::*;

use crate::error::{Detail, ErrorEnvelope, Kind};
use crate::gen_input::FieldSpec;
use crate::i18n::{CatalogMessage, MessageView, arg_views, message_views};
use crate::paths::{join_path, path_join};
use crate::strmap::StrMap;
use crate::text::{to_chars, trim, trim_range, owned, concat2, str_eq, string_views};

verus! {

/// File name of the field-extra schema, relative to a template bundle root.
pub const SCHEMA_FILE_NAME: &'static str = "_field_extra.toml";

/// Allowed value types for an extra key.
#[derive(Debug, Clone, Copy, PartialEq, Eq, Structural)]
pub enum ExtraValueType {
    Text,
    Number,
    Bool,
    Array,
    Object,
}

impl ExtraValueType {
    /// The lowercase name used in `_field_extra.toml`.
    pub fn as_str(self) -> (s: &'static str)
        ensures
            s@ == extra_type_name(self),
    {
        match self {
            ExtraValueType::Text => "string",
            ExtraValueType::Number => "number",
            ExtraValueType::Bool => "bool",
            ExtraValueType::Array => "array",
            ExtraValueType::Object => "object",
        }
    }
}

pub open spec fn extra_type_name(t: ExtraValueType) -> Seq<char> {
    match t {
        ExtraValueType::Text => "string"@,
        ExtraValueType::Number => "number"@,
        ExtraValueType::Bool => "bool"@,
        ExtraValueType::Array => "array"@,
        ExtraValueType::Object => "object"@,
    }
}

/// Declaration of one extra key.
pub struct FieldExtraDef {
    pub description: String,
    pub ty: ExtraValueType,
    /// Field types for which the key is required (empty: always optional).
    pub required_for: Vec<String>,
}

/// Extra key name to declaration, in ascending key order.
pub struct FieldExtraSchema(pub StrMap<FieldExtraDef>);

impl FieldExtraSchema {
    /// The schema of a template set without `_field_extra.toml`.
    pub fn empty() -> (s: FieldExtraSchema)
        ensures
            s.0@.dom().len() == 0,
    {
        FieldExtraSchema(StrMap::new())
    }

    /// No key is declared.
    pub fn is_empty(&self) -> (b: bool)
        ensures
            b == (self.0@.dom().len() == 0),
    {
        self.0.is_empty()
    }
}

/// `<templates_root>/_field_extra.toml`.
pub fn schema_path(templates_root: &str) -> (r: String)
    ensures
        r@ == join_path(templates_root@, "_field_extra.toml"@),
{
    path_join(templates_root, SCHEMA_FILE_NAME)
}

/// An extra-schema error with `reason` in its details.
pub fn schema_error(msg: String, reason: &str) -> (e: ErrorEnvelope)
    ensures
        e.is_kind(Kind::TemplateError),
        e.msg@ == msg@,
        e.hint@ == "error.field_extra.schema_fix"@,
        e.hint_args@.len() == 0,
        e.has_reason(reason@),
        e.details@.dom() == set!["reason"@],
{
    let mut details: StrMap<Detail> = StrMap::new();
    details.insert(owned("reason"), Detail::Text(owned(reason)));
    assert(details@.dom() =~= set!["reason"@]);
    ErrorEnvelope::template_error_with_reason(msg, details, owned("error.field_extra.schema_fix"))
}

/// Some `required_for` entry is blank.
pub open spec fn has_blank(v: Seq<Seq<char>>) -> bool {
    exists|j: int| 0 <= j < v.len() && trim(#[trigger] v[j]).len() == 0
}

/// The first problem of the declarations in key order: message and reason.
pub open spec fn extra_schema_issue(names: Seq<Seq<char>>, defs: Seq<FieldExtraDef>) -> Option<
    (Seq<char>, Seq<char>),
>
    decreases names.len(),
{
    if names.len() == 0 {
        None
    } else {
        let k = names[0];
        if trim(k).len() == 0 {
            Some(("extra key name must not be empty"@, "schema_empty_key"@))
        } else if trim(defs[0].description@).len() == 0 {
            Some(
                (
                    "extra key `"@ + k + "`: description must not be empty"@,
                    "schema_missing_description"@,
                ),
            )
        } else if has_blank(string_views(defs[0].required_for@)) {
            Some(
                (
                    "extra key `"@ + k + "`: required_for entry must not be empty"@,
                    "schema_empty_required_for"@,
                ),
            )
        } else {
            extra_schema_issue(names.drop_first(), defs.drop_first())
        }
    }
}

fn blank(s: &str) -> (b: bool)
    ensures
        b == (trim(s@).len() == 0),
{
    let v = to_chars(s);
    let (lo, hi) = trim_range(&v, 0, v.len());
    assert(v@.subrange(0, v@.len() as int) =~= s@);
    lo == hi
}

fn any_blank(v: &Vec<String>) -> (b: bool)
    ensures
        b == has_blank(string_views(v@)),
{
    let mut i: usize = 0;
    while i < v.len()
        invariant
            i <= v@.len(),
            forall|j: int| 0 <= j < i ==> trim(#[trigger] string_views(v@)[j]).len() != 0,
        decreases v@.len() - i,
    {
        if blank(v[i].as_str()) {
            assert(trim(string_views(v@)[i as int]).len() == 0);
            return true;
        }
        i = i + 1;
    }
    false
}

/// Validates a parsed `_field_extra.toml`: key names, descriptions and
/// `required_for` entries must not be blank (first problem in key order).
pub fn validate_schema(parsed: StrMap<FieldExtraDef>) -> (r: Result<FieldExtraSchema, ErrorEnvelope>)
    ensures
        match extra_schema_issue(parsed.key_seq(), parsed.val_seq()) {
            None => r matches Ok(s) && s.0@ == parsed@,
            Some((msg, reason)) => r matches Err(e) && e.is_kind(Kind::TemplateError) && e.msg@
                == msg && e.has_reason(reason) && e.hint@ == "error.field_extra.schema_fix"@
                && e.details@.dom() == set!["reason"@],
        },
{
    parsed.wf_facts();
    let ghost names = parsed.key_seq();
    let ghost defs = parsed.val_seq();
    let mut i: usize = 0;
    assert(names.skip(0) =~= names);
    assert(defs.skip(0) =~= defs);
    while i < parsed.len()
        invariant
            names == parsed.key_seq(),
            defs == parsed.val_seq(),
            names.len() == defs.len(),
            i <= names.len(),
            extra_schema_issue(names, defs) == extra_schema_issue(
                names.skip(i as int),
                defs.skip(i as int),
            ),
        decreases names.len() - i,
    {
        let k = parsed.key_at(i);
        let d = parsed.value_at(i);
        let ghost rn = names.skip(i as int);
        let ghost rd = defs.skip(i as int);
        assert(rn[0] == k@);
        assert(rd[0] == *d);
        assert(rn.drop_first() =~= names.skip(i + 1));
        assert(rd.drop_first() =~= defs.skip(i + 1));
        if blank(k.as_str()) {
            return Err(schema_error(owned("extra key name must not be empty"), "schema_empty_key"));
        }
        if blank(d.description.as_str()) {
            let head = concat2("extra key `", k.as_str());
            return Err(
                schema_error(
                    concat2(head.as_str(), "`: description must not be empty"),
                    "schema_missing_description",
                ),
            );
        }
        if any_blank(&d.required_for) {
            let head = concat2("extra key `", k.as_str());
            return Err(
                schema_error(
                    concat2(head.as_str(), "`: required_for entry must not be empty"),
                    "schema_empty_required_for",
                ),
            );
        }
        i = i + 1;
    }
    assert(names.skip(i as int) =~= Seq::<Seq<char>>::empty());
    Ok(FieldExtraSchema(parsed))
}

// ---------------------------------------------------------------------------
// Checking entity fields
// ---------------------------------------------------------------------------

/// Messages for the extra keys of field `field` the schema does not declare.
pub open spec fn unknown_key_msgs(
    declared: Set<Seq<char>>,
    field: Seq<char>,
    keys: Seq<Seq<char>>,
) -> Seq<MessageView>
    decreases keys.len(),
{
    if keys.len() == 0 {
        Seq::<MessageView>::empty()
    } else {
        let r = unknown_key_msgs(declared, field, keys.drop_last());
        if declared.contains(keys.last()) {
            r
        } else {
            r.push(
                (
                    "error.field_extra.unknown_key"@,
                    seq![("field"@, field), ("key"@, keys.last())],
                ),
            )
        }
    }
}

/// Messages for the declared keys that field `field` of type `ty` requires
/// but does not carry.
pub open spec fn missing_required_msgs(
    names: Seq<Seq<char>>,
    defs: Seq<FieldExtraDef>,
    field: Seq<char>,
    ty: Seq<char>,
    present: Set<Seq<char>>,
) -> Seq<MessageView>
    decreases names.len(),
{
    if names.len() == 0 || defs.len() == 0 {
        Seq::<MessageView>::empty()
    } else {
        let r = missing_required_msgs(names.drop_last(), defs.drop_last(), field, ty, present);
        let k = names.last();
        if string_views(defs.last().required_for@).contains(ty) && !present.contains(k) {
            r.push(
                (
                    "error.field_extra.missing_required"@,
                    seq![("field"@, field), ("key"@, k), ("field_type"@, ty)],
                ),
            )
        } else {
            r
        }
    }
}

/// All problems of the field specs, field by field: unknown keys (in key
/// order), then missing required keys (in schema order).
pub open spec fn extra_problems(schema: FieldExtraSchema, specs: Seq<FieldSpec>) -> Seq<MessageView>
    decreases specs.len(),
{
    if specs.len() == 0 {
        Seq::<MessageView>::empty()
    } else {
        let s = specs.last();
        extra_problems(schema, specs.drop_last()) + unknown_key_msgs(
            schema.0@.dom(),
            s.name@,
            s.extra.key_seq(),
        ) + missing_required_msgs(
            schema.0.key_seq(),
            schema.0.val_seq(),
            s.name@,
            s.ty@,
            s.extra@.dom(),
        )
    }
}

fn contains_string(v: &Vec<String>, s: &str) -> (b: bool)
    ensures
        b == string_views(v@).contains(s@),
{
    let mut i: usize = 0;
    while i < v.len()
        invariant
            i <= v@.len(),
            forall|j: int| 0 <= j < i ==> #[trigger] string_views(v@)[j] != s@,
        decreases v@.len() - i,
    {
        if str_eq(v[i].as_str(), s) {
            assert(string_views(v@)[i as int] == s@);
            return true;
        }
        i = i + 1;
    }
    false
}

fn message2(key: &str, n1: &str, v1: &str, n2: &str, v2: &str) -> (m: CatalogMessage)
    ensures
        m@ == (key@, seq![(n1@, v1@), (n2@, v2@)]),
{
    let m = CatalogMessage {
        key: owned(key),
        args: vec![(owned(n1), owned(v1)), (owned(n2), owned(v2))],
    };
    assert(arg_views(m.args@) =~= seq![(n1@, v1@), (n2@, v2@)]);
    m
}

fn message3(key: &str, n1: &str, v1: &str, n2: &str, v2: &str, n3: &str, v3: &str) -> (m:
    CatalogMessage)
    ensures
        m@ == (key@, seq![(n1@, v1@), (n2@, v2@), (n3@, v3@)]),
{
    let m = CatalogMessage {
        key: owned(key),
        args: vec![(owned(n1), owned(v1)), (owned(n2), owned(v2)), (owned(n3), owned(v3))],
    };
    assert(arg_views(m.args@) =~= seq![(n1@, v1@), (n2@, v2@), (n3@, v3@)]);
    m
}

fn push_unknown_keys(schema: &FieldExtraSchema, spec: &FieldSpec, out: &mut Vec<CatalogMessage>)
    ensures
        message_views(final(out)@) == message_views(old(out)@) + unknown_key_msgs(
            schema.0@.dom(),
            spec.name@,
            spec.extra.key_seq(),
        ),
{
    let ghost start = message_views(out@);
    let ghost ks = spec.extra.key_seq();
    let mut i: usize = 0;
    assert(ks.take(0) =~= Seq::<Seq<char>>::empty());
    assert(message_views(out@) =~= start + unknown_key_msgs(schema.0@.dom(), spec.name@, ks.take(0)));
    while i < spec.extra.len()
        invariant
            ks == spec.extra.key_seq(),
            i <= ks.len(),
            message_views(out@) == start + unknown_key_msgs(
                schema.0@.dom(),
                spec.name@,
                ks.take(i as int),
            ),
        decreases ks.len() - i,
    {
        let k = spec.extra.key_at(i);
        assert(ks.take(i + 1).drop_last() =~= ks.take(i as int));
        assert(ks.take(i + 1).last() == k@);
        if !schema.0.contains_key(k.as_str()) {
            let m = message2(
                "error.field_extra.unknown_key",
                "field",
                spec.name.as_str(),
                "key",
                k.as_str(),
            );
            let ghost before = out@;
            out.push(m);
            assert(message_views(out@) =~= message_views(before).push(m@));
        }
        i = i + 1;
    }
    assert(ks.take(i as int) =~= ks);
}

fn push_missing_required(schema: &FieldExtraSchema, spec: &FieldSpec, out: &mut Vec<CatalogMessage>)
    ensures
        message_views(final(out)@) == message_views(old(out)@) + missing_required_msgs(
            schema.0.key_seq(),
            schema.0.val_seq(),
            spec.name@,
            spec.ty@,
            spec.extra@.dom(),
        ),
{
    schema.0.wf_facts();
    let ghost start = message_views(out@);
    let ghost ks = schema.0.key_seq();
    let ghost ds = schema.0.val_seq();
    let mut i: usize = 0;
    assert(message_views(out@) =~= start + missing_required_msgs(
        ks.take(0),
        ds.take(0),
        spec.name@,
        spec.ty@,
        spec.extra@.dom(),
    ));
    while i < schema.0.len()
        invariant
            ks == schema.0.key_seq(),
            ds == schema.0.val_seq(),
            ks.len() == ds.len(),
            i <= ks.len(),
            message_views(out@) == start + missing_required_msgs(
                ks.take(i as int),
                ds.take(i as int),
                spec.name@,
                spec.ty@,
                spec.extra@.dom(),
            ),
        decreases ks.len() - i,
    {
        let k = schema.0.key_at(i);
        let d = schema.0.value_at(i);
        assert(ks.take(i + 1).drop_last() =~= ks.take(i as int));
        assert(ds.take(i + 1).drop_last() =~= ds.take(i as int));
        assert(ks.take(i + 1).last() == k@);
        assert(ds.take(i + 1).last() == *d);
        if contains_string(&d.required_for, spec.ty.as_str()) && !spec.extra.contains_key(
            k.as_str(),
        ) {
            let m = message3(
                "error.field_extra.missing_required",
                "field",
                spec.name.as_str(),
                "key",
                k.as_str(),
                "field_type",
                spec.ty.as_str(),
            );
            let ghost before = out@;
            out.push(m);
            assert(message_views(out@) =~= message_views(before).push(m@));
        }
        i = i + 1;
    }
    assert(ks.take(i as int) =~= ks);
    assert(ds.take(i as int) =~= ds);
}

/// Checks each field spec's `extra` keys against the schema: undeclared
/// keys, and declared keys its field type requires but it lacks. Nothing is
/// checked when the schema is empty.
pub fn validate_extra_keys(schema: &FieldExtraSchema, specs: &Vec<FieldSpec>) -> (r: Vec<
    CatalogMessage,
>)
    ensures
        schema.0@.dom().len() == 0 ==> r@.len() == 0,
        schema.0@.dom().len() > 0 ==> message_views(r@) == extra_problems(*schema, specs@),
{
    let mut out: Vec<CatalogMessage> = Vec::new();
    if schema.is_empty() {
        return out;
    }
    let mut i: usize = 0;
    assert(specs@.take(0) =~= Seq::<FieldSpec>::empty());
    assert(message_views(out@) =~= extra_problems(*schema, specs@.take(0)));
    while i < specs.len()
        invariant
            i <= specs@.len(),
            message_views(out@) == extra_problems(*schema, specs@.take(i as int)),
        decreases specs@.len() - i,
    {
        assert(specs@.take(i + 1).drop_last() =~= specs@.take(i as int));
        assert(specs@.take(i + 1).last() == specs@[i as int]);
        push_unknown_keys(schema, &specs[i], &mut out);
        push_missing_required(schema, &specs[i], &mut out);
        i = i + 1;
    }
    assert(specs@.take(i as int) =~= specs@);
    out
}

} // verus!
