//! `_variables.toml`: the per-call variables a template set declares, and
//! the resolution of their values (CLI over JSON over declared default).

use vstd::prelude::*;

use crate::error::{Detail, ErrorEnvelope, Kind, detail_is_text};
use crate::field_dsl::{is_reserved_variable, is_reserved_variable_name};
use crate::paths::{join_path, path_join};
use crate::strmap::StrMap;
use crate::text::{to_chars, trim, trim_range, owned, concat2, string_of_range, find_first_in, find_first};
use crate::value::DataValue;
use crate::template_meta_global::{digits_value, all_digits, is_digit, digit_of, lemma_digits_value_prefix};

verus! {

/// File name of the schema, relative to a template bundle root.
pub const SCHEMA_FILE_NAME: &'static str = "_variables.toml";

/// Declared type of a schema variable.
#[derive(Debug, Clone, Copy, PartialEq, Eq, Structural)]
pub enum VarType {
    Bool,
    Text,
    Number,
}

pub open spec fn var_type_name(t: VarType) -> Seq<char> {
    match t {
        VarType::Bool => "bool"@,
        VarType::Text => "string"@,
        VarType::Number => "number"@,
    }
}

impl VarType {
    /// The name used in `_variables.toml`.
    pub fn as_str(self) -> (s: &'static str)
        ensures
            s@ == var_type_name(self),
    {
        match self {
            VarType::Bool => "bool",
            VarType::Text => "string",
            VarType::Number => "number",
        }
    }
}

/// A TOML default value, as far as the schema reads it. Numbers keep their
/// text; a float that JSON cannot represent has none; arrays and tables keep
/// their JSON rendering.
pub enum TomlValue {
    Text(String),
    Integer(String),
    Float(Option<String>),
    Boolean(bool),
    Datetime(String),
    Array(String),
    Table(String),
}

/// One declared variable.
pub struct VariableDef {
    pub description: String,
    pub ty: VarType,
    pub required: bool,
    pub default: Option<TomlValue>,
}

/// Variable name to declaration, in ascending name order.
pub struct VariableSchema(pub StrMap<VariableDef>);

impl VariableSchema {
    /// The schema of a template set without `_variables.toml`.
    pub fn empty() -> (s: VariableSchema)
        ensures
            s.0@.dom().len() == 0,
    {
        VariableSchema(StrMap::new())
    }

    /// The declared names, in ascending order.
    pub fn names(&self) -> (r: Vec<String>)
        ensures
            r@.map_values(|k: String| k@) == self.0.key_seq(),
    {
        self.0.keys()
    }
}

/// `<templates_root>/_variables.toml`.
pub fn schema_path(templates_root: &str) -> (r: String)
    ensures
        r@ == join_path(templates_root@, "_variables.toml"@),
{
    path_join(templates_root, SCHEMA_FILE_NAME)
}

// ---------------------------------------------------------------------------
// Schema validation
// ---------------------------------------------------------------------------

/// A TOML default has the declared type.
pub open spec fn toml_matches(ty: VarType, v: TomlValue) -> bool {
    match (ty, v) {
        (VarType::Bool, TomlValue::Boolean(_)) => true,
        (VarType::Text, TomlValue::Text(_)) => true,
        (VarType::Number, TomlValue::Integer(_)) => true,
        (VarType::Number, TomlValue::Float(_)) => true,
        _ => false,
    }
}

/// The first problem of the declarations in name order: message and reason.
pub open spec fn variable_schema_issue(names: Seq<Seq<char>>, defs: Seq<VariableDef>) -> Option<
    (Seq<char>, Seq<char>),
>
    decreases names.len(),
{
    if names.len() == 0 {
        None
    } else {
        let n = names[0];
        let d = defs[0];
        if trim(n).len() == 0 {
            Some(("variable name must not be empty"@, "schema_empty_name"@))
        } else if is_reserved_variable(n) {
            Some(("variable "@ + n + " shadows a built-in"@, "schema_reserved_name"@))
        } else if trim(d.description@).len() == 0 {
            Some(
                (
                    "variable "@ + n + ": description must not be empty"@,
                    "schema_missing_description"@,
                ),
            )
        } else if (match d.default {
            Some(dv) => !toml_matches(d.ty, dv),
            None => false,
        }) {
            Some(
                (
                    "variable "@ + n + ": default value type does not match declared type `"@
                        + var_type_name(d.ty) + "`"@,
                    "schema_default_type_mismatch"@,
                ),
            )
        } else {
            variable_schema_issue(names.drop_first(), defs.drop_first())
        }
    }
}

/// A variable-schema error with `reason` in its details.
pub fn schema_error(msg: String, reason: &str) -> (e: ErrorEnvelope)
    ensures
        e.is_kind(Kind::TemplateError),
        e.msg@ == msg@,
        e.hint@ == "error.variable.schema_fix"@,
        e.hint_args@.len() == 0,
        e.has_reason(reason@),
        e.details@.dom() == set!["reason"@],
{
    let mut details: StrMap<Detail> = StrMap::new();
    details.insert(owned("reason"), Detail::Text(owned(reason)));
    assert(details@.dom() =~= set!["reason"@]);
    ErrorEnvelope::template_error_with_reason(msg, details, owned("error.variable.schema_fix"))
}

fn blank(s: &str) -> (b: bool)
    ensures
        b == (trim(s@).len() == 0),
{
    let v = to_chars(s);
    let (lo, hi) = trim_range(&v, 0, v.len());
    assert(v@.subrange(0, v@.len() as int) =~= s@);
    lo == hi
}

fn concat3(a: &str, b: &str, c: &str) -> (r: String)
    ensures
        r@ == a@ + b@ + c@,
{
    let ab = concat2(a, b);
    concat2(ab.as_str(), c)
}

fn toml_matches_exec(ty: VarType, v: &TomlValue) -> (b: bool)
    ensures
        b == toml_matches(ty, *v),
{
    match (ty, v) {
        (VarType::Bool, TomlValue::Boolean(_)) => true,
        (VarType::Text, TomlValue::Text(_)) => true,
        (VarType::Number, TomlValue::Integer(_)) => true,
        (VarType::Number, TomlValue::Float(_)) => true,
        _ => false,
    }
}

/// Validates a parsed `_variables.toml`: names must be non-blank and not
/// reserved, descriptions non-blank, and defaults of the declared type
/// (first problem in name order).
pub fn validate_schema(parsed: StrMap<VariableDef>) -> (r: Result<VariableSchema, ErrorEnvelope>)
    ensures
        match variable_schema_issue(parsed.key_seq(), parsed.val_seq()) {
            None => r matches Ok(s) && s.0@ == parsed@,
            Some((msg, reason)) => r matches Err(e) && e.is_kind(Kind::TemplateError) && e.msg@
                == msg && e.has_reason(reason) && e.hint@ == "error.variable.schema_fix"@
                && e.details@.dom() == set!["reason"@],
        },
{
    parsed.wf_facts();
    let ghost names = parsed.key_seq();
    let ghost defs = parsed.val_seq();
    let mut i: usize = 0;
    assert(names.skip(0) =~= names);
    assert(defs.skip(0) =~= defs);
    while i < parsed.len()
        invariant
            names == parsed.key_seq(),
            defs == parsed.val_seq(),
            names.len() == defs.len(),
            i <= names.len(),
            variable_schema_issue(names, defs) == variable_schema_issue(
                names.skip(i as int),
                defs.skip(i as int),
            ),
        decreases names.len() - i,
    {
        let n = parsed.key_at(i);
        let d = parsed.value_at(i);
        let ghost rn = names.skip(i as int);
        let ghost rd = defs.skip(i as int);
        assert(rn[0] == n@);
        assert(rd[0] == *d);
        assert(rn.drop_first() =~= names.skip(i + 1));
        assert(rd.drop_first() =~= defs.skip(i + 1));
        if blank(n.as_str()) {
            return Err(schema_error(owned("variable name must not be empty"), "schema_empty_name"));
        }
        if is_reserved_variable_name(n.as_str()) {
            return Err(
                schema_error(
                    concat3("variable ", n.as_str(), " shadows a built-in"),
                    "schema_reserved_name",
                ),
            );
        }
        if blank(d.description.as_str()) {
            return Err(
                schema_error(
                    concat3("variable ", n.as_str(), ": description must not be empty"),
                    "schema_missing_description",
                ),
            );
        }
        match &d.default {
            Some(dv) => {
                if !toml_matches_exec(d.ty, dv) {
                    let head = concat3(
                        "variable ",
                        n.as_str(),
                        ": default value type does not match declared type `",
                    );
                    return Err(
                        schema_error(
                            concat3(head.as_str(), d.ty.as_str(), "`"),
                            "schema_default_type_mismatch",
                        ),
                    );
                }
            },
            None => {},
        }
        i = i + 1;
    }
    assert(names.skip(i as int) =~= Seq::<Seq<char>>::empty());
    Ok(VariableSchema(parsed))
}

// ---------------------------------------------------------------------------
// DataValue resolution
// ---------------------------------------------------------------------------

/// A TOML default as the JSON value it is used as.
pub open spec fn toml_json(v: TomlValue) -> DataValue {
    match v {
        TomlValue::Text(s) => DataValue::Text(s),
        TomlValue::Integer(s) => DataValue::Number(s),
        TomlValue::Float(Some(s)) => DataValue::Number(s),
        TomlValue::Float(None) => DataValue::Null,
        TomlValue::Boolean(b) => DataValue::Bool(b),
        TomlValue::Datetime(s) => DataValue::Text(s),
        TomlValue::Array(s) => DataValue::Composite(s),
        TomlValue::Table(s) => DataValue::Composite(s),
    }
}

/// Converts a TOML default to the JSON value it is used as.
pub fn toml_to_json(v: &TomlValue) -> (r: DataValue)
    ensures
        r == toml_json(*v),
{
    match v {
        TomlValue::Text(s) => DataValue::Text(s.clone()),
        TomlValue::Integer(s) => DataValue::Number(s.clone()),
        TomlValue::Float(Some(s)) => DataValue::Number(s.clone()),
        TomlValue::Float(None) => DataValue::Null,
        TomlValue::Boolean(b) => DataValue::Bool(*b),
        TomlValue::Datetime(s) => DataValue::Text(s.clone()),
        TomlValue::Array(s) => DataValue::Composite(s.clone()),
        TomlValue::Table(s) => DataValue::Composite(s.clone()),
    }
}

/// A JSON value has the declared type.
pub open spec fn json_matches(ty: VarType, v: DataValue) -> bool {
    match (ty, v) {
        (VarType::Bool, DataValue::Bool(_)) => true,
        (VarType::Text, DataValue::Text(_)) => true,
        (VarType::Number, DataValue::Number(_)) => true,
        _ => false,
    }
}

/// Why the variable values of a gen run were refused.
pub enum MergeIssue {
    Undeclared(Seq<char>),
    Missing(Seq<char>),
    Mismatch(Seq<char>, VarType, Seq<char>),
}

/// The first key, in order, that the schema does not declare.
pub open spec fn first_undeclared(declared: Set<Seq<char>>, keys: Seq<Seq<char>>) -> Option<
    Seq<char>,
>
    decreases keys.len(),
{
    if keys.len() == 0 {
        None
    } else if !declared.contains(keys[0]) {
        Some(keys[0])
    } else {
        first_undeclared(declared, keys.drop_first())
    }
}

/// The value of each declared variable in name order: CLI, else JSON, else
/// the declared default (each type-checked), else null unless required.
pub open spec fn merge_entries(
    names: Seq<Seq<char>>,
    defs: Seq<VariableDef>,
    cli: Map<Seq<char>, DataValue>,
    json: Map<Seq<char>, DataValue>,
    acc: Map<Seq<char>, DataValue>,
) -> Result<Map<Seq<char>, DataValue>, MergeIssue>
    decreases names.len(),
{
    if names.len() == 0 || defs.len() == 0 {
        Ok(acc)
    } else {
        let n = names[0];
        let d = defs[0];
        let chosen: Option<(DataValue, Seq<char>)> = if cli.contains_key(n) {
            Some((cli[n], "cli"@))
        } else if json.contains_key(n) {
            Some((json[n], "json"@))
        } else {
            match d.default {
                Some(dv) => Some((toml_json(dv), "default"@)),
                None => None,
            }
        };
        match chosen {
            Some((v, source)) => if json_matches(d.ty, v) {
                merge_entries(names.drop_first(), defs.drop_first(), cli, json, acc.insert(n, v))
            } else {
                Err(MergeIssue::Mismatch(n, d.ty, source))
            },
            None => if d.required {
                Err(MergeIssue::Missing(n))
            } else {
                merge_entries(
                    names.drop_first(),
                    defs.drop_first(),
                    cli,
                    json,
                    acc.insert(n, DataValue::Null),
                )
            },
        }
    }
}

/// The resolved variable values of a gen run, or the first problem:
/// undeclared CLI keys, then undeclared JSON keys, then per variable.
pub open spec fn merge_outcome(
    schema: VariableSchema,
    cli: StrMap<DataValue>,
    json: StrMap<DataValue>,
) -> Result<Map<Seq<char>, DataValue>, MergeIssue> {
    match first_undeclared(schema.0@.dom(), cli.key_seq() + json.key_seq()) {
        Some(k) => Err(MergeIssue::Undeclared(k)),
        None => merge_entries(schema.0.key_seq(), schema.0.val_seq(), cli@, json@, Map::empty()),
    }
}

/// `args` holds `(name, value)` at position `i`.
pub open spec fn arg_at(args: Seq<(String, String)>, i: int, name: Seq<char>, value: Seq<char>) -> bool {
    args[i].0@ == name && args[i].1@ == value
}

/// `e` is the user error that reports merge issue `i`.
pub open spec fn is_merge_error(e: ErrorEnvelope, i: MergeIssue) -> bool {
    &&& e.is_kind(Kind::UserError)
    &&& match i {
        MergeIssue::Undeclared(k) => {
            &&& e.msg@ == "undeclared variable: "@ + k
            &&& e.has_reason("undeclared_variable"@)
            &&& e.details@.dom() == set!["variable"@, "reason"@]
            &&& detail_is_text(e.details@["variable"@], k)
            &&& e.hint@ == "error.variable.undeclared"@
            &&& e.hint_args@.len() == 2
            &&& arg_at(e.hint_args@, 0, "key"@, k)
            &&& arg_at(e.hint_args@, 1, "schema_file"@, "_variables.toml"@)
        },
        MergeIssue::Missing(n) => {
            &&& e.msg@ == "missing required variable: "@ + n
            &&& e.has_reason("missing_required_variable"@)
            &&& e.details@.dom() == set!["variable"@, "reason"@]
            &&& detail_is_text(e.details@["variable"@], n)
            &&& e.hint@ == "error.variable.missing_required"@
            &&& e.hint_args@.len() == 1
            &&& arg_at(e.hint_args@, 0, "name"@, n)
        },
        MergeIssue::Mismatch(n, ty, source) => {
            &&& e.msg@ == "variable "@ + n + ": expected "@ + var_type_name(ty) + " from "@ + source
            &&& e.has_reason("variable_type_mismatch"@)
            &&& e.details@.dom() == set!["variable"@, "expected"@, "source"@, "reason"@]
            &&& detail_is_text(e.details@["variable"@], n)
            &&& detail_is_text(e.details@["expected"@], var_type_name(ty))
            &&& detail_is_text(e.details@["source"@], source)
            &&& e.hint@ == "error.variable.type_mismatch"@
            &&& e.hint_args@.len() == 2
            &&& arg_at(e.hint_args@, 0, "expected"@, var_type_name(ty))
            &&& arg_at(e.hint_args@, 1, "name"@, n)
        },
    }
}

proof fn lemma_merge_keys_distinct()
    ensures
        "variable"@ != "reason"@,
        "variable"@ != "expected"@,
        "variable"@ != "source"@,
        "expected"@ != "source"@,
        "expected"@ != "reason"@,
        "source"@ != "reason"@,
{
    reveal_strlit("variable");
    reveal_strlit("reason");
    reveal_strlit("expected");
    reveal_strlit("source");
    assert("variable"@[0] != "reason"@[0]);
    assert("variable"@[0] != "expected"@[0]);
    assert("variable"@[0] != "source"@[0]);
    assert("expected"@[0] != "source"@[0]);
    assert("expected"@[0] != "reason"@[0]);
    assert("source"@[1] != "reason"@[1]);
}

fn undeclared_error(key: &str) -> (e: ErrorEnvelope)
    ensures
        is_merge_error(e, MergeIssue::Undeclared(key@)),
{
    proof {
        lemma_merge_keys_distinct();
    }
    let mut details: StrMap<Detail> = StrMap::new();
    details.insert(owned("variable"), Detail::Text(owned(key)));
    let e = ErrorEnvelope::user_error_with_reason(
        concat2("undeclared variable: ", key),
        "undeclared_variable",
        details,
        owned("error.variable.undeclared"),
    );
    let e = e.with_hint_args(
        vec![(owned("key"), owned(key)), (owned("schema_file"), owned(SCHEMA_FILE_NAME))],
    );
    assert(e.details@.dom() =~= set!["variable"@, "reason"@]);
    e
}

fn missing_required_error(name: &str) -> (e: ErrorEnvelope)
    ensures
        is_merge_error(e, MergeIssue::Missing(name@)),
{
    proof {
        lemma_merge_keys_distinct();
    }
    let mut details: StrMap<Detail> = StrMap::new();
    details.insert(owned("variable"), Detail::Text(owned(name)));
    let e = ErrorEnvelope::user_error_with_reason(
        concat2("missing required variable: ", name),
        "missing_required_variable",
        details,
        owned("error.variable.missing_required"),
    );
    let e = e.with_hint_args(vec![(owned("name"), owned(name))]);
    assert(e.details@.dom() =~= set!["variable"@, "reason"@]);
    e
}

fn mismatch_error(name: &str, ty: VarType, source: &str) -> (e: ErrorEnvelope)
    ensures
        is_merge_error(e, MergeIssue::Mismatch(name@, ty, source@)),
{
    proof {
        lemma_merge_keys_distinct();
    }
    let mut details: StrMap<Detail> = StrMap::new();
    details.insert(owned("variable"), Detail::Text(owned(name)));
    details.insert(owned("expected"), Detail::Text(owned(ty.as_str())));
    details.insert(owned("source"), Detail::Text(owned(source)));
    let head = concat3("variable ", name, ": expected ");
    let mid = concat3(head.as_str(), ty.as_str(), " from ");
    let e = ErrorEnvelope::user_error_with_reason(
        concat2(mid.as_str(), source),
        "variable_type_mismatch",
        details,
        owned("error.variable.type_mismatch"),
    );
    let e = e.with_hint_args(vec![(owned("expected"), owned(ty.as_str())), (owned("name"), owned(name))]);
    assert(e.details@.dom() =~= set!["variable"@, "expected"@, "source"@, "reason"@]);
    e
}

fn json_matches_exec(ty: VarType, v: &DataValue) -> (b: bool)
    ensures
        b == json_matches(ty, *v),
{
    match (ty, v) {
        (VarType::Bool, DataValue::Bool(_)) => true,
        (VarType::Text, DataValue::Text(_)) => true,
        (VarType::Number, DataValue::Number(_)) => true,
        _ => false,
    }
}

fn check_declared(schema: &VariableSchema, m: &StrMap<DataValue>) -> (r: Option<usize>)
    ensures
        match first_undeclared(schema.0@.dom(), m.key_seq()) {
            Some(k) => r matches Some(i) && i < m.key_seq().len() && m.key_seq()[i as int] == k,
            None => r is None,
        },
{
    let ghost ks = m.key_seq();
    let mut i: usize = 0;
    assert(ks.skip(0) =~= ks);
    while i < m.len()
        invariant
            ks == m.key_seq(),
            i <= ks.len(),
            first_undeclared(schema.0@.dom(), ks) == first_undeclared(
                schema.0@.dom(),
                ks.skip(i as int),
            ),
        decreases ks.len() - i,
    {
        let k = m.key_at(i);
        assert(ks.skip(i as int)[0] == k@);
        assert(ks.skip(i as int).drop_first() =~= ks.skip(i + 1));
        if !schema.0.contains_key(k.as_str()) {
            return Some(i);
        }
        i = i + 1;
    }
    None
}

proof fn lemma_first_undeclared_concat(d: Set<Seq<char>>, a: Seq<Seq<char>>, b: Seq<Seq<char>>)
    ensures
        first_undeclared(d, a + b) == match first_undeclared(d, a) {
            Some(k) => Some(k),
            None => first_undeclared(d, b),
        },
    decreases a.len(),
{
    if a.len() == 0 {
        assert(a + b =~= b);
    } else {
        assert((a + b)[0] == a[0]);
        assert((a + b).drop_first() =~= a.drop_first() + b);
        lemma_first_undeclared_concat(d, a.drop_first(), b);
    }
}

/// Resolves the variable values of a gen run. Undeclared CLI keys, then
/// undeclared JSON keys, are refused first; then each declared variable, in
/// name order, takes the CLI value, else the JSON value, else its default
/// (each checked against the declared type), else null, or is refused when
/// required.
pub fn merge_values(schema: &VariableSchema, cli: &StrMap<DataValue>, json: &StrMap<DataValue>) -> (r:
    Result<StrMap<DataValue>, ErrorEnvelope>)
    ensures
        match merge_outcome(*schema, *cli, *json) {
            Ok(m) => r matches Ok(out) && out@ == m,
            Err(i) => r matches Err(e) && is_merge_error(e, i),
        },
{
    proof {
        lemma_first_undeclared_concat(schema.0@.dom(), cli.key_seq(), json.key_seq());
    }
    match check_declared(schema, cli) {
        Some(i) => {
            return Err(undeclared_error(cli.key_at(i).as_str()));
        },
        None => {},
    }
    match check_declared(schema, json) {
        Some(i) => {
            return Err(undeclared_error(json.key_at(i).as_str()));
        },
        None => {},
    }
    schema.0.wf_facts();
    let ghost names = schema.0.key_seq();
    let ghost defs = schema.0.val_seq();
    let mut out: StrMap<DataValue> = StrMap::new();
    let mut i: usize = 0;
    assert(names.skip(0) =~= names);
    assert(defs.skip(0) =~= defs);
    while i < schema.0.len()
        invariant
            names == schema.0.key_seq(),
            defs == schema.0.val_seq(),
            names.len() == defs.len(),
            i <= names.len(),
            merge_outcome(*schema, *cli, *json) == merge_entries(
                names.skip(i as int),
                defs.skip(i as int),
                cli@,
                json@,
                out@,
            ),
        decreases names.len() - i,
    {
        let n = schema.0.key_at(i);
        let d = schema.0.value_at(i);
        let ghost rn = names.skip(i as int);
        let ghost rd = defs.skip(i as int);
        assert(rn[0] == n@);
        assert(rd[0] == *d);
        assert(rn.drop_first() =~= names.skip(i + 1));
        assert(rd.drop_first() =~= defs.skip(i + 1));
        let chosen: Option<(DataValue, &str)> = match cli.get(n.as_str()) {
            Some(v) => Some((v.dup(), "cli")),
            None => match json.get(n.as_str()) {
                Some(v) => Some((v.dup(), "json")),
                None => match &d.default {
                    Some(dv) => Some((toml_to_json(dv), "default")),
                    None => None,
                },
            },
        };
        match chosen {
            Some((v, source)) => {
                if !json_matches_exec(d.ty, &v) {
                    return Err(mismatch_error(n.as_str(), d.ty, source));
                }
                out.insert(n.clone(), v);
            },
            None => {
                if d.required {
                    return Err(missing_required_error(n.as_str()));
                }
                out.insert(n.clone(), DataValue::Null);
            },
        }
        i = i + 1;
    }
    assert(names.skip(i as int) =~= Seq::<Seq<char>>::empty());
    Ok(out)
}


/// The value a declared variable takes: CLI, else JSON, else its default,
/// else null.
pub open spec fn priority_value(
    n: Seq<char>,
    d: VariableDef,
    cli: Map<Seq<char>, DataValue>,
    json: Map<Seq<char>, DataValue>,
) -> DataValue {
    if cli.contains_key(n) {
        cli[n]
    } else if json.contains_key(n) {
        json[n]
    } else {
        match d.default {
            Some(dv) => toml_json(dv),
            None => DataValue::Null,
        }
    }
}

proof fn lemma_merge_entries_priority(
    names: Seq<Seq<char>>,
    defs: Seq<VariableDef>,
    cli: Map<Seq<char>, DataValue>,
    json: Map<Seq<char>, DataValue>,
    acc: Map<Seq<char>, DataValue>,
)
    requires
        names.no_duplicates(),
        names.len() == defs.len(),
        forall|i: int| 0 <= i < names.len() ==> !acc.contains_key(#[trigger] names[i]),
    ensures
        merge_entries(names, defs, cli, json, acc) matches Ok(m) ==> {
            &&& m.dom() == acc.dom() + names.to_set()
            &&& forall|k: Seq<char>| #[trigger] acc.contains_key(k) ==> m[k] == acc[k]
            &&& forall|i: int|
                0 <= i < names.len() ==> m[#[trigger] names[i]] == priority_value(
                    names[i],
                    defs[i],
                    cli,
                    json,
                )
        },
    decreases names.len(),
{
    if names.len() == 0 {
        assert(names.to_set() =~= Set::<Seq<char>>::empty());
        assert(acc.dom() + names.to_set() =~= acc.dom());
    } else {
        let n = names[0];
        let d = defs[0];
        let v = priority_value(n, d, cli, json);
        let next = acc.insert(n, v);
        let rest = names.drop_first();
        assert forall|i: int| 0 <= i < rest.len() implies !next.contains_key(#[trigger] rest[i]) by {
            assert(rest[i] == names[i + 1]);
            assert(names[i + 1] != names[0]);
        }
        assert(rest.no_duplicates()) by {
            assert forall|i: int, j: int| 0 <= i < rest.len() && 0 <= j < rest.len() && i != j implies rest[i] != rest[j] by {
                assert(rest[i] == names[i + 1]);
                assert(rest[j] == names[j + 1]);
            }
        }
        lemma_merge_entries_priority(rest, defs.drop_first(), cli, json, next);
        match merge_entries(names, defs, cli, json, acc) {
            Ok(m) => {
                assert(merge_entries(rest, defs.drop_first(), cli, json, next) == Ok::<Map<Seq<char>, DataValue>, MergeIssue>(m));
                assert(names =~= seq![n] + rest);
                assert(names.to_set() =~= rest.to_set().insert(n)) by {
                    assert forall|k: Seq<char>| names.to_set().contains(k) <==> rest.to_set().insert(n).contains(k) by {
                        if names.to_set().contains(k) {
                            let i = names.index_of(k);
                            if i > 0 {
                                assert(rest[i - 1] == k);
                            }
                        }
                        if rest.to_set().contains(k) {
                            let j = rest.index_of(k);
                            assert(names[j + 1] == k);
                        }
                    }
                }
                assert(m.dom() =~= acc.dom() + names.to_set());
                assert(next.contains_key(n));
                assert(m[n] == next[n]);
                assert forall|k: Seq<char>| #[trigger] acc.contains_key(k) implies m[k] == acc[k] by {
                    assert(next.contains_key(k));
                }
                assert forall|i: int| 0 <= i < names.len() implies m[#[trigger] names[i]] == priority_value(
                    names[i],
                    defs[i],
                    cli,
                    json,
                ) by {
                    if i > 0 {
                        assert(rest[i - 1] == names[i]);
                        assert(defs.drop_first()[i - 1] == defs[i]);
                    }
                }
            },
            Err(_) => {},
        }
    }
}

/// When the values resolve, every declared variable has exactly one: the
/// CLI value, else the JSON value, else its default, else null.
pub proof fn lemma_merge_priority(schema: VariableSchema, cli: StrMap<DataValue>, json: StrMap<DataValue>)
    requires
        schema.0.sorted(),
    ensures
        merge_outcome(schema, cli, json) matches Ok(m) ==> {
            &&& m.dom() == schema.0@.dom()
            &&& forall|n: Seq<char>|
                #[trigger] schema.0@.contains_key(n) ==> m[n] == priority_value(
                    n,
                    schema.0@[n],
                    cli@,
                    json@,
                )
        },
{
    schema.0.lemma_sorted_facts();
    let names = schema.0.key_seq();
    let defs = schema.0.val_seq();
    if first_undeclared(schema.0@.dom(), cli.key_seq() + json.key_seq()) is None {
        lemma_merge_entries_priority(names, defs, cli@, json@, Map::empty());
        match merge_outcome(schema, cli, json) {
            Ok(m) => {
                assert(m.dom() =~= schema.0@.dom());
                assert forall|n: Seq<char>| #[trigger] schema.0@.contains_key(n) implies m[n]
                    == priority_value(n, schema.0@[n], cli@, json@) by {
                    assert(names.to_set().contains(n));
                    let i = names.index_of(n);
                    assert(names[i] == n);
                }
            },
            Err(_) => {},
        }
    }
}


// ---------------------------------------------------------------------------
// `--var key=value`
// ---------------------------------------------------------------------------

/// `str::parse::<i64>`: an optional sign, then one or more ASCII digits
/// whose value fits in an `i64`.
pub open spec fn parse_i64(s: Seq<char>) -> Option<int> {
    let neg = s.len() > 0 && s[0] == '-';
    let d = if s.len() > 0 && (s[0] == '-' || s[0] == '+') {
        s.drop_first()
    } else {
        s
    };
    let v: int = if neg {
        -digits_value(d)
    } else {
        digits_value(d) as int
    };
    if d.len() > 0 && all_digits(d) && i64::MIN <= v <= i64::MAX {
        Some(v)
    } else {
        None
    }
}

/// `str::parse::<i64>` on `v[lo..hi]`.
pub fn parse_i64_range(v: &Vec<char>, lo: usize, hi: usize) -> (r: Option<i64>)
    requires
        lo <= hi <= v@.len(),
    ensures
        match parse_i64(v@.subrange(lo as int, hi as int)) {
            Some(n) => r matches Some(x) && x == n,
            None => r is None,
        },
{
    let ghost s = v@.subrange(lo as int, hi as int);
    let neg = lo < hi && v[lo] == '-';
    let signed = lo < hi && (v[lo] == '-' || v[lo] == '+');
    let start = if signed {
        lo + 1
    } else {
        lo
    };
    let ghost d = v@.subrange(start as int, hi as int);
    assert(d =~= if s.len() > 0 && (s[0] == '-' || s[0] == '+') {
        s.drop_first()
    } else {
        s
    });
    if start == hi {
        return None;
    }
    let limit: u64 = if neg {
        9223372036854775808
    } else {
        9223372036854775807
    };
    let mut acc: u64 = 0;
    let mut i: usize = start;
    while i < hi
        invariant
            start <= i <= hi,
            hi <= v@.len(),
            d == v@.subrange(start as int, hi as int),
            s == v@.subrange(lo as int, hi as int),
            neg == (s.len() > 0 && s[0] == '-'),
            d == (if s.len() > 0 && (s[0] == '-' || s[0] == '+') {
                s.drop_first()
            } else {
                s
            }),
            limit == (if neg {
                9223372036854775808u64
            } else {
                9223372036854775807u64
            }),
            acc == digits_value(d.take(i - start)),
            acc <= limit,
            all_digits(d.take(i - start)),
        decreases hi - i,
    {
        let c = v[i];
        assert(d[i - start] == c);
        if !('0' <= c && c <= '9') {
            assert(!is_digit(d[i - start]));
            assert(!all_digits(d));
            return None;
        }
        let dv = digit_of(c);
        assert(d.take(i - start + 1).drop_last() =~= d.take(i - start));
        assert(d.take(i - start + 1).last() == c);
        assert(digits_value(d.take(i - start + 1)) == acc * 10 + dv);
        if acc > (limit - dv) / 10 {
            proof {
                assert(acc * 10 + dv > limit) by (nonlinear_arith)
                    requires
                        acc > (limit - dv) / 10,
                        dv <= 9,
                        dv <= limit,
                ;
                lemma_digits_value_prefix(d, i - start + 1);
            }
            return None;
        }
        acc = acc * 10 + dv;
        i = i + 1;
        assert(all_digits(d.take(i - start))) by {
            assert forall|k: int| 0 <= k < i - start implies is_digit(#[trigger] d.take(
                i - start,
            )[k]) by {
                if k < i - start - 1 {
                    assert(d.take(i - start)[k] == d.take(i - start - 1)[k]);
                }
            }
        }
    }
    assert(d.take(i - start) =~= d);
    if neg {
        if acc == 9223372036854775808 {
            Some(i64::MIN)
        } else {
            let m: i64 = acc as i64;
            Some(-m)
        }
    } else {
        Some(acc as i64)
    }
}

/// A `--var` value before it becomes JSON: a boolean, an integer, a quoted
/// JSON string (its decoded text), or other text (which the caller reads as
/// a float when it is one, else a string).
pub enum VarLiteral {
    Bool(bool),
    Integer(i64),
    Text(String),
    Other(String),
}

/// A `--var` literal as plain values.
pub enum VarLiteralView {
    Bool(bool),
    Integer(int),
    Text(Seq<char>),
    Other(Seq<char>),
}

impl View for VarLiteral {
    type V = VarLiteralView;

    open spec fn view(&self) -> VarLiteralView {
        match self {
            VarLiteral::Bool(b) => VarLiteralView::Bool(*b),
            VarLiteral::Integer(n) => VarLiteralView::Integer(*n as int),
            VarLiteral::Text(s) => VarLiteralView::Text(s@),
            VarLiteral::Other(s) => VarLiteralView::Other(s@),
        }
    }
}

/// The literal a trimmed `--var` value denotes: `true`, `false`, an `i64`,
/// a quoted JSON string's text, or the text itself.
pub open spec fn var_value_literal(val: Seq<char>) -> VarLiteralView {
    if val == "true"@ {
        VarLiteralView::Bool(true)
    } else if val == "false"@ {
        VarLiteralView::Bool(false)
    } else {
        match parse_i64(val) {
            Some(n) => VarLiteralView::Integer(n),
            None => match json_string_text(val) {
                Some(t) => VarLiteralView::Text(t),
                None => VarLiteralView::Other(val),
            },
        }
    }
}

/// The trimmed key of a `--var key=value` argument.
pub open spec fn var_key(raw: Seq<char>) -> Seq<char> {
    match find_first(raw, '=') {
        Some(i) => trim(raw.take(i)),
        None => raw,
    }
}

/// The trimmed value of a `--var key=value` argument.
pub open spec fn var_val(raw: Seq<char>) -> Seq<char> {
    match find_first(raw, '=') {
        Some(i) => trim(raw.skip(i + 1)),
        None => Seq::<char>::empty(),
    }
}

/// The value of a hex digit character.
pub open spec fn hex_char_value(c: char) -> Option<nat> {
    if '0' <= c && c <= '9' {
        Some((c as nat - '0' as nat) as nat)
    } else if 'a' <= c && c <= 'f' {
        Some((c as nat - 'a' as nat + 10) as nat)
    } else if 'A' <= c && c <= 'F' {
        Some((c as nat - 'A' as nat + 10) as nat)
    } else {
        None
    }
}

/// The value of four hex digits.
pub open spec fn hex4_value(s: Seq<char>) -> Option<nat> {
    if s.len() == 4 && hex_char_value(s[0]) is Some && hex_char_value(s[1]) is Some
        && hex_char_value(s[2]) is Some && hex_char_value(s[3]) is Some {
        Some(
            hex_char_value(s[0]).unwrap() * 4096 + hex_char_value(s[1]).unwrap() * 256
                + hex_char_value(s[2]).unwrap() * 16 + hex_char_value(s[3]).unwrap(),
        )
    } else {
        None
    }
}

/// The character a one-letter JSON escape (`\x`) stands for.
pub open spec fn json_escape(c: char) -> Option<char> {
    if c == '"' {
        Some('"')
    } else if c == '\\' {
        Some('\\')
    } else if c == '/' {
        Some('/')
    } else if c == 'b' {
        Some('\u{8}')
    } else if c == 'f' {
        Some('\u{c}')
    } else if c == 'n' {
        Some('\n')
    } else if c == 'r' {
        Some('\r')
    } else if c == 't' {
        Some('\t')
    } else {
        None
    }
}

/// `t` prefixed to the decoded text, when there is one.
pub open spec fn prefixed(t: Seq<char>, o: Option<Seq<char>>) -> Option<Seq<char>> {
    match o {
        Some(x) => Some(t + x),
        None => None,
    }
}

/// The decoded body of a JSON string (the text between its quotes): escapes
/// `\" \\ \/ \b \f \n \r \t` and `\uXXXX` for a code point outside the
/// surrogate range; `None` for a bare `"`, a control character or any other
/// escape.
pub open spec fn json_string_body(s: Seq<char>) -> Option<Seq<char>>
    decreases s.len(),
{
    if s.len() == 0 {
        Some(Seq::<char>::empty())
    } else if s[0] == '"' || (s[0] as u32) < 0x20 {
        None
    } else if s[0] == '\\' {
        if s.len() < 2 {
            None
        } else if json_escape(s[1]) is Some {
            prefixed(seq![json_escape(s[1]).unwrap()], json_string_body(s.skip(2)))
        } else if s[1] == 'u' && s.len() >= 6 && hex4_value(s.subrange(2, 6)) is Some && !(
        0xD800 <= hex4_value(s.subrange(2, 6)).unwrap() <= 0xDFFF) {
            prefixed(
                seq![char_of(hex4_value(s.subrange(2, 6)).unwrap())],
                json_string_body(s.skip(6)),
            )
        } else {
            None
        }
    } else {
        prefixed(seq![s[0]], json_string_body(s.drop_first()))
    }
}

/// The text a quoted JSON string literal `t` denotes, if `t` is one.
pub open spec fn json_string_text(t: Seq<char>) -> Option<Seq<char>> {
    if t.len() >= 2 && t[0] == '"' && t[t.len() - 1] == '"' {
        json_string_body(t.subrange(1, t.len() - 1))
    } else {
        None
    }
}

fn hex_char_exec(c: char) -> (r: Option<u32>)
    ensures
        match hex_char_value(c) {
            Some(v) => r == Some(v as u32),
            None => r is None,
        },
{
    if '0' <= c && c <= '9' {
        Some((c as u32) - ('0' as u32))
    } else if 'a' <= c && c <= 'f' {
        Some((c as u32) - ('a' as u32) + 10)
    } else if 'A' <= c && c <= 'F' {
        Some((c as u32) - ('A' as u32) + 10)
    } else {
        None
    }
}

fn json_escape_exec(c: char) -> (r: Option<char>)
    ensures
        r == json_escape(c),
{
    if c == '"' {
        Some('"')
    } else if c == '\\' {
        Some('\\')
    } else if c == '/' {
        Some('/')
    } else if c == 'b' {
        Some('\u{8}')
    } else if c == 'f' {
        Some('\u{c}')
    } else if c == 'n' {
        Some('\n')
    } else if c == 'r' {
        Some('\r')
    } else if c == 't' {
        Some('\t')
    } else {
        None
    }
}

proof fn lemma_code_injective(a: char, b: char)
    requires
        code_of(a) == code_of(b),
    ensures
        a == b,
{
    assert(a as u32 == b as u32);
}

/// The code point of a character.
pub open spec fn code_of(c: char) -> nat {
    (c as u32) as nat
}

/// The character with code point `v`.
pub open spec fn char_of(v: nat) -> char {
    choose|c: char| #[trigger] code_of(c) == v
}

proof fn lemma_prefixed_push(out: Seq<char>, c: char, rest: Option<Seq<char>>)
    ensures
        prefixed(out, prefixed(seq![c], rest)) == prefixed(out.push(c), rest),
{
    assert(out + seq![c] =~= out.push(c));
    match rest {
        Some(x) => {
            assert(out + (seq![c] + x) =~= out.push(c) + x);
        },
        None => {},
    }
}

/// One step of decoding `v[i..hi]`: the next decoded character and where
/// the rest starts, or `None` when the body is not valid.
fn decode_step(v: &Vec<char>, i: usize, hi: usize) -> (r: Option<(char, usize)>)
    requires
        i < hi <= v@.len(),
    ensures
        r is None ==> json_string_body(v@.subrange(i as int, hi as int)) is None,
        r matches Some((c, j)) ==> i < j <= hi && json_string_body(v@.subrange(i as int, hi as int))
            == prefixed(seq![c], json_string_body(v@.subrange(j as int, hi as int))),
{
    let ghost s = v@.subrange(i as int, hi as int);
    let c = v[i];
    assert(s[0] == c);
    if c == '"' || (c as u32) < 0x20 {
        return None;
    }
    if c != '\\' {
        assert(s.drop_first() =~= v@.subrange(i + 1, hi as int));
        return Some((c, i + 1));
    }
    if hi - i < 2 {
        return None;
    }
    let d = v[i + 1];
    assert(s[1] == d);
    match json_escape_exec(d) {
        Some(e) => {
            assert(s.skip(2) =~= v@.subrange(i + 2, hi as int));
            Some((e, i + 2))
        },
        None => {
            if d != 'u' || hi - i < 6 {
                return None;
            }
            let ghost q = s.subrange(2, 6);
            assert(q[0] == v@[i + 2] && q[1] == v@[i + 3] && q[2] == v@[i + 4] && q[3] == v@[i + 5]);
            let h0 = hex_char_exec(v[i + 2]);
            let h1 = hex_char_exec(v[i + 3]);
            let h2 = hex_char_exec(v[i + 4]);
            let h3 = hex_char_exec(v[i + 5]);
            if h0.is_none() || h1.is_none() || h2.is_none() || h3.is_none() {
                return None;
            }
            let code = h0.unwrap() * 4096 + h1.unwrap() * 256 + h2.unwrap() * 16 + h3.unwrap();
            assert(hex4_value(q) == Some(code as nat));
            if 0xD800 <= code && code <= 0xDFFF {
                return None;
            }
            match core::char::from_u32(code) {
                Some(ch) => {
                    assert(s.skip(6) =~= v@.subrange(i + 6, hi as int));
                    assert(code_of(ch) == code as nat);
                    proof {
                        let c0 = char_of(code as nat);
                        assert(code_of(c0) == code as nat);
                        lemma_code_injective(c0, ch);
                    }
                    Some((ch, i + 6))
                },
                None => None,
            }
        },
    }
}

/// Decodes the JSON string body `v[lo..hi]`.
fn decode_json_body(v: &Vec<char>, lo: usize, hi: usize) -> (r: Option<Vec<char>>)
    requires
        lo <= hi <= v@.len(),
    ensures
        match json_string_body(v@.subrange(lo as int, hi as int)) {
            Some(t) => r matches Some(out) && out@ == t,
            None => r is None,
        },
{
    let mut out: Vec<char> = Vec::new();
    let mut i = lo;
    assert(out@ + Seq::<char>::empty() =~= out@);
    while i < hi
        invariant
            lo <= i <= hi <= v@.len(),
            json_string_body(v@.subrange(lo as int, hi as int)) == prefixed(
                out@,
                json_string_body(v@.subrange(i as int, hi as int)),
            ),
        decreases hi - i,
    {
        match decode_step(v, i, hi) {
            None => {
                return None;
            },
            Some((c, j)) => {
                proof {
                    lemma_prefixed_push(out@, c, json_string_body(v@.subrange(j as int, hi as int)));
                }
                out.push(c);
                i = j;
            },
        }
    }
    assert(v@.subrange(i as int, hi as int) =~= Seq::<char>::empty());
    assert(out@ + Seq::<char>::empty() =~= out@);
    Some(out)
}

/// The literal of a value text `v[lo..hi]` that is no boolean or integer:
/// a quoted JSON string's decoded text, else the text itself.
fn text_literal(v: &Vec<char>, lo: usize, hi: usize) -> (r: VarLiteral)
    requires
        lo <= hi <= v@.len(),
    ensures
        match json_string_text(v@.subrange(lo as int, hi as int)) {
            Some(t) => r matches VarLiteral::Text(x) && x@ == t,
            None => r matches VarLiteral::Other(x) && x@ == v@.subrange(lo as int, hi as int),
        },
{
    let ghost t = v@.subrange(lo as int, hi as int);
    if hi - lo >= 2 && v[lo] == '"' && v[hi - 1] == '"' {
        assert(t[0] == v@[lo as int] && t[t.len() - 1] == v@[hi - 1]);
        assert(t.subrange(1, t.len() - 1) =~= v@.subrange(lo + 1, hi - 1));
        match decode_json_body(v, lo + 1, hi - 1) {
            Some(out) => VarLiteral::Text(crate::text::string_of(&out)),
            None => VarLiteral::Other(string_of_range(v, lo, hi)),
        }
    } else {
        proof {
            if t.len() >= 2 {
                assert(t[0] == v@[lo as int] && t[t.len() - 1] == v@[hi - 1]);
            }
        }
        VarLiteral::Other(string_of_range(v, lo, hi))
    }
}

/// `e` reports a malformed `--var` argument `raw`.
pub open spec fn is_bad_var_arg(e: ErrorEnvelope, raw: Seq<char>) -> bool {
    &&& e.is_kind(Kind::UserError)
    &&& e.msg@ == "invalid --var: "@ + raw
    &&& e.has_reason("invalid_var_arg"@)
    &&& e.hint@ == "error.variable.invalid_var_arg"@
    &&& e.hint_args@.len() == 0
    &&& e.details@.dom() == set!["input"@, "reason"@]
    &&& detail_is_text(e.details@["input"@], raw)
}

fn bad_var_arg(raw: &str) -> (e: ErrorEnvelope)
    ensures
        is_bad_var_arg(e, raw@),
{
    proof {
        reveal_strlit("input");
        reveal_strlit("reason");
        assert("input"@[0] != "reason"@[0]);
    }
    let mut details: StrMap<Detail> = StrMap::new();
    details.insert(owned("input"), Detail::Text(owned(raw)));
    let e = ErrorEnvelope::user_error_with_reason(
        concat2("invalid --var: ", raw),
        "invalid_var_arg",
        details,
        owned("error.variable.invalid_var_arg"),
    );
    assert(e.details@.dom() =~= set!["input"@, "reason"@]);
    e
}

/// Parses a `--var key=value` argument: the key is the trimmed text before
/// the first `=` and must not be empty; the trimmed value is `true`,
/// `false`, an `i64`, a quoted JSON string (decoded), or other text.
pub fn parse_var_arg(raw: &str) -> (r: Result<(String, VarLiteral), ErrorEnvelope>)
    ensures
        match find_first(raw@, '=') {
            None => r matches Err(e) && is_bad_var_arg(e, raw@),
            Some(i) => {
                let key = trim(raw@.take(i));
                let val = trim(raw@.skip(i + 1));
                if key.len() == 0 {
                    r matches Err(e) && is_bad_var_arg(e, raw@)
                } else {
                    r matches Ok((k, lit)) && k@ == key && match lit {
                        VarLiteral::Bool(b) => val == (if b {
                            "true"@
                        } else {
                            "false"@
                        }),
                        VarLiteral::Integer(n) => val != "true"@ && val != "false"@ && parse_i64(val)
                            == Some(n as int),
                        VarLiteral::Text(s) => val != "true"@ && val != "false"@ && parse_i64(val)
                            is None && json_string_text(val) == Some(s@),
                        VarLiteral::Other(s) => s@ == val && val != "true"@ && val != "false"@
                            && parse_i64(val) is None && json_string_text(val) is None,
                    } && k@ == var_key(raw@) && lit@ == var_value_literal(var_val(raw@))
                }
            },
        },
{
    let v = to_chars(raw);
    assert(v@.subrange(0, v@.len() as int) =~= raw@);
    match find_first_in(&v, 0, v.len(), '=') {
        None => Err(bad_var_arg(raw)),
        Some(i) => {
            assert(raw@.take(i as int) =~= v@.subrange(0, i as int));
            assert(raw@.skip(i + 1) =~= v@.subrange(i + 1, v@.len() as int));
            let (klo, khi) = trim_range(&v, 0, i);
            if klo == khi {
                return Err(bad_var_arg(raw));
            }
            let key = string_of_range(&v, klo, khi);
            let (vlo, vhi) = trim_range(&v, i + 1, v.len());
            let is_true = crate::text::range_eq(&v, vlo, vhi, "true");
            let is_false = crate::text::range_eq(&v, vlo, vhi, "false");
            let lit = if is_true {
                VarLiteral::Bool(true)
            } else if is_false {
                VarLiteral::Bool(false)
            } else {
                match parse_i64_range(&v, vlo, vhi) {
                    Some(n) => VarLiteral::Integer(n),
                    None => text_literal(&v, vlo, vhi),
                }
            };
            Ok((key, lit))
        },
    }
}

} // verus!
