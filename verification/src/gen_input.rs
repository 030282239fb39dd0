//! Generation input: the JSON `--file` entity model, CLI overrides, and the
//! mapping of JSON loading failures to user errors.

use vstd::prelude::*;

use crate::error::{Detail, ErrorEnvelope, Kind, detail_is_text};
use crate::field_dsl::{Field, FieldView, field_views};
use crate::strmap::StrMap;
use crate::suggest::{closest_candidate, distances, is_closest, none_close};
use crate::text::{
    to_chars, trim, trim_range, find_first, find_first_in, string_of_range, owned, concat2,
    contains_seq, contains_str, string_views,
};
use crate::value::DataValue;

verus! {

/// Entity input consumed by context building and the generation pipeline.
pub struct GenInput {
    pub name: String,
    pub table: String,
    pub package: String,
    /// Business description of the table/entity.
    pub table_comment: String,
    pub fields: Vec<Field>,
}

/// One field of the JSON entity file.
pub struct FieldSpec {
    pub name: String,
    pub ty: String,
    pub is_pk: bool,
    pub nullable: bool,
    pub length: Option<u32>,
    pub unique: bool,
    pub default: Option<DataValue>,
    pub comment: String,
    pub extra: StrMap<DataValue>,
}

/// The JSON entity file as read from disk.
pub struct JsonInputFile {
    pub name: String,
    pub table: String,
    pub package: String,
    pub table_comment: String,
    pub fields: Vec<FieldSpec>,
    /// Per-call values of the variables a template set declares.
    pub variables: StrMap<DataValue>,
}

/// CLI overrides for JSON input; the CLI wins over file values.
pub struct GenCliOverrides {
    pub name: Option<String>,
    pub package: Option<String>,
    pub table: Option<String>,
    pub table_comment: Option<String>,
}

/// A loaded JSON entity: the canonical input plus the rich field specs.
pub struct JsonLoadResult {
    pub input: GenInput,
    pub field_specs: Vec<FieldSpec>,
    pub variables: StrMap<DataValue>,
}

/// The keys a JSON field object may carry.
pub open spec fn field_spec_keys() -> Seq<Seq<char>> {
    seq![
        "name"@,
        "type"@,
        "is_pk"@,
        "nullable"@,
        "length"@,
        "unique"@,
        "default"@,
        "comment"@,
        "extra"@,
    ]
}

/// The keys a JSON field object may carry, as owned strings.
pub fn field_spec_key_list() -> (r: Vec<String>)
    ensures
        string_views(r@) == field_spec_keys(),
{
    let r = vec![
        owned("name"),
        owned("type"),
        owned("is_pk"),
        owned("nullable"),
        owned("length"),
        owned("unique"),
        owned("default"),
        owned("comment"),
        owned("extra"),
    ];
    assert(string_views(r@) =~= field_spec_keys());
    r
}

// ---------------------------------------------------------------------------
// Overrides and conversion
// ---------------------------------------------------------------------------

/// The CLI value when given, else the file's.
pub open spec fn chosen(cli: Option<String>, file: String) -> Seq<char> {
    match cli {
        Some(c) => c@,
        None => file@,
    }
}

/// The `reason` of a blank required scalar.
pub open spec fn missing_reason(field: Seq<char>) -> Seq<char> {
    if field == "name"@ {
        "missing_name"@
    } else if field == "package"@ {
        "missing_package"@
    } else if field == "table"@ {
        "missing_table"@
    } else {
        "missing_field"@
    }
}

/// The hint key of a blank required scalar.
pub open spec fn missing_hint(field: Seq<char>) -> Seq<char> {
    if field == "package"@ {
        "error.json.missing_package"@
    } else if field == "table"@ {
        "error.json.missing_table"@
    } else {
        "error.json.missing_name"@
    }
}

/// `e` reports the required scalar `field` as blank.
pub open spec fn is_missing_scalar(e: ErrorEnvelope, field: Seq<char>) -> bool {
    &&& e.is_kind(Kind::UserError)
    &&& e.msg@ == "missing "@ + field
    &&& e.has_reason(missing_reason(field))
    &&& e.hint@ == missing_hint(field)
    &&& e.hint_args@.len() == 0
    &&& e.details@.dom() == set!["field"@, "reason"@]
    &&& detail_is_text(e.details@["field"@], field)
}

/// Picks the CLI value over the file value; a blank result is refused.
pub fn resolve_scalar(cli: Option<String>, from_json: String, field: &str) -> (r: Result<
    String,
    ErrorEnvelope,
>)
    ensures
        trim(chosen(cli, from_json)).len() == 0 ==> (r matches Err(e) && is_missing_scalar(
            e,
            field@,
        )),
        trim(chosen(cli, from_json)).len() > 0 ==> (r matches Ok(s) && s@ == chosen(
            cli,
            from_json,
        )),
{
    let ghost want = chosen(cli, from_json);
    let value = match cli {
        Some(c) => c,
        None => from_json,
    };
    let v = to_chars(value.as_str());
    let (lo, hi) = trim_range(&v, 0, v.len());
    assert(v@.subrange(0, v@.len() as int) =~= want);
    if lo == hi {
        proof {
            reveal_strlit("field");
            reveal_strlit("reason");
            assert("field"@[0] != "reason"@[0]);
        }
        let is_name = crate::text::str_eq(field, "name");
        let is_package = crate::text::str_eq(field, "package");
        let is_table = crate::text::str_eq(field, "table");
        let reason = if is_name {
            "missing_name"
        } else if is_package {
            "missing_package"
        } else if is_table {
            "missing_table"
        } else {
            "missing_field"
        };
        let hint = if is_package {
            "error.json.missing_package"
        } else if is_table {
            "error.json.missing_table"
        } else {
            "error.json.missing_name"
        };
        let mut details: StrMap<Detail> = StrMap::new();
        details.insert(owned("field"), Detail::Text(owned(field)));
        let e = ErrorEnvelope::user_error_with_reason(
            concat2("missing ", field),
            reason,
            details,
            owned(hint),
        );
        assert(e.details@.dom() =~= set!["field"@, "reason"@]);
        return Err(e);
    }
    Ok(value)
}

/// The canonical field of a JSON field spec.
pub fn field_spec_to_field(spec: &FieldSpec) -> (f: Field)
    ensures
        f@ == (spec.name@, spec.ty@, spec.is_pk, spec.nullable),
{
    Field { name: spec.name.clone(), ty: spec.ty.clone(), is_pk: spec.is_pk, nullable: spec.nullable }
}

/// The canonical fields of a list of JSON field specs.
pub open spec fn spec_fields(specs: Seq<FieldSpec>) -> Seq<FieldView> {
    specs.map_values(|s: FieldSpec| (s.name@, s.ty@, s.is_pk, s.nullable))
}

/// `e` reports a JSON entity without fields.
pub open spec fn is_no_fields_error(e: ErrorEnvelope) -> bool {
    &&& e.is_kind(Kind::UserError)
    &&& e.msg@ == "no fields in JSON"@
    &&& e.has_reason("no_fields"@)
    &&& e.hint@ == "error.json.no_fields"@
    &&& e.hint_args@.len() == 0
    &&& e.details@.dom() == set!["reason"@]
}

/// Applies the CLI overrides to a parsed JSON entity file and keeps its
/// field specs and variables. `name`, `package` and `table` must not be
/// blank (checked in that order) and at least one field is required.
pub fn load_gen_input_with_specs_from_json(parsed: JsonInputFile, overrides: GenCliOverrides) -> (r:
    Result<JsonLoadResult, ErrorEnvelope>)
    ensures
        ({
            let name = chosen(overrides.name, parsed.name);
            let package = chosen(overrides.package, parsed.package);
            let table = chosen(overrides.table, parsed.table);
            if trim(name).len() == 0 {
                r matches Err(e) && is_missing_scalar(e, "name"@)
            } else if trim(package).len() == 0 {
                r matches Err(e) && is_missing_scalar(e, "package"@)
            } else if trim(table).len() == 0 {
                r matches Err(e) && is_missing_scalar(e, "table"@)
            } else if parsed.fields@.len() == 0 {
                r matches Err(e) && is_no_fields_error(e)
            } else {
                r matches Ok(res) && res.input.name@ == name && res.input.package@ == package
                    && res.input.table@ == table && res.input.table_comment@ == chosen(
                    overrides.table_comment,
                    parsed.table_comment,
                ) && field_views(res.input.fields@) == spec_fields(parsed.fields@)
                    && res.field_specs@ == parsed.fields@ && res.variables@ == parsed.variables@
            }
        }),
{
    let JsonInputFile { name, table, package, table_comment, fields: specs, variables } = parsed;
    let GenCliOverrides {
        name: o_name,
        package: o_package,
        table: o_table,
        table_comment: o_comment,
    } = overrides;
    let name = match resolve_scalar(o_name, name, "name") {
        Ok(v) => v,
        Err(e) => return Err(e),
    };
    let package = match resolve_scalar(o_package, package, "package") {
        Ok(v) => v,
        Err(e) => return Err(e),
    };
    let table = match resolve_scalar(o_table, table, "table") {
        Ok(v) => v,
        Err(e) => return Err(e),
    };
    let table_comment = match o_comment {
        Some(c) => c,
        None => table_comment,
    };
    if specs.len() == 0 {
        let e = ErrorEnvelope::user_error_with_reason(
            owned("no fields in JSON"),
            "no_fields",
            StrMap::new(),
            owned("error.json.no_fields"),
        );
        assert(e.details@.dom() =~= set!["reason"@]);
        return Err(e);
    }
    let mut fields: Vec<Field> = Vec::new();
    let mut i: usize = 0;
    while i < specs.len()
        invariant
            i <= specs@.len(),
            field_views(fields@) =~= spec_fields(specs@).take(i as int),
        decreases specs@.len() - i,
    {
        let f = field_spec_to_field(&specs[i]);
        let ghost before = fields@;
        fields.push(f);
        assert(field_views(fields@) =~= field_views(before).push(f@));
        i = i + 1;
    }
    assert(field_views(fields@) =~= spec_fields(specs@));
    Ok(
        JsonLoadResult {
            input: GenInput { name, table, package, table_comment, fields },
            field_specs: specs,
            variables,
        },
    )
}

/// The canonical input of a parsed JSON entity file with CLI overrides.
pub fn load_gen_input_from_json(parsed: JsonInputFile, overrides: GenCliOverrides) -> (r: Result<
    GenInput,
    ErrorEnvelope,
>)
    ensures
        ({
            let name = chosen(overrides.name, parsed.name);
            let package = chosen(overrides.package, parsed.package);
            let table = chosen(overrides.table, parsed.table);
            if trim(name).len() == 0 {
                r matches Err(e) && is_missing_scalar(e, "name"@)
            } else if trim(package).len() == 0 {
                r matches Err(e) && is_missing_scalar(e, "package"@)
            } else if trim(table).len() == 0 {
                r matches Err(e) && is_missing_scalar(e, "table"@)
            } else if parsed.fields@.len() == 0 {
                r matches Err(e) && is_no_fields_error(e)
            } else {
                r matches Ok(inp) && inp.name@ == name && inp.package@ == package && inp.table@
                    == table && inp.table_comment@ == chosen(
                    overrides.table_comment,
                    parsed.table_comment,
                ) && field_views(inp.fields@) == spec_fields(parsed.fields@)
            }
        }),
{
    match load_gen_input_with_specs_from_json(parsed, overrides) {
        Ok(res) => Ok(res.input),
        Err(e) => Err(e),
    }
}

// ---------------------------------------------------------------------------
// Loading failures
// ---------------------------------------------------------------------------

/// The text between the first two backticks of `msg`.
pub open spec fn quoted_token(msg: Seq<char>) -> Option<Seq<char>> {
    match find_first(msg, '`') {
        None => None,
        Some(i) => {
            let rest = msg.skip(i + 1);
            match find_first(rest, '`') {
                None => None,
                Some(j) => Some(rest.take(j)),
            }
        },
    }
}

/// The text between the first two backticks of `msg`, if any.
pub fn extract_quoted_token(msg: &str) -> (r: Option<String>)
    ensures
        match quoted_token(msg@) {
            Some(t) => r matches Some(s) && s@ == t,
            None => r is None,
        },
{
    let v = to_chars(msg);
    assert(v@.subrange(0, v@.len() as int) =~= msg@);
    match find_first_in(&v, 0, v.len(), '`') {
        None => None,
        Some(i) => {
            assert(msg@.skip(i + 1) =~= v@.subrange(i + 1, v@.len() as int));
            match find_first_in(&v, i + 1, v.len(), '`') {
                None => None,
                Some(j) => {
                    assert(msg@.skip(i + 1).take(j - (i + 1)) =~= v@.subrange(i + 1, j as int));
                    Some(string_of_range(&v, i + 1, j))
                },
            }
        },
    }
}

/// The JSON type a serde message says it got: `string` or `bool`.
pub open spec fn got_type(msg: Seq<char>) -> Option<Seq<char>> {
    if contains_seq(msg, "string"@) {
        Some("string"@)
    } else if contains_seq(msg, "boolean"@) {
        Some("bool"@)
    } else {
        None
    }
}

/// The JSON type named in a serde type-mismatch message, if recognized.
pub fn extract_got_type(msg: &str) -> (r: Option<String>)
    ensures
        match got_type(msg@) {
            Some(t) => r matches Some(s) && s@ == t,
            None => r is None,
        },
{
    let v = to_chars(msg);
    if contains_str(&v, "string") {
        return Some(owned("string"));
    }
    if contains_str(&v, "boolean") {
        return Some(owned("bool"));
    }
    None
}

/// Which kind of JSON loading failure a serde message describes.
pub enum JsonFailure {
    Syntax,
    UnknownField,
    MissingField,
    TypeMismatch,
    InvalidValue,
}

pub open spec fn classify_json_failure(syntax_or_eof: bool, msg: Seq<char>) -> JsonFailure {
    if syntax_or_eof {
        JsonFailure::Syntax
    } else if contains_seq(msg, "unknown field"@) {
        JsonFailure::UnknownField
    } else if contains_seq(msg, "missing field"@) {
        JsonFailure::MissingField
    } else if contains_seq(msg, "invalid type"@) || contains_seq(msg, "expected"@) {
        JsonFailure::TypeMismatch
    } else {
        JsonFailure::InvalidValue
    }
}

/// `keys` plus `path` when the path is not empty.
pub open spec fn with_path(path: Seq<char>, keys: Set<Seq<char>>) -> Set<Seq<char>> {
    if path.len() > 0 {
        keys.insert("path"@)
    } else {
        keys
    }
}

/// A non-empty `path` is reported under the `path` detail.
pub open spec fn path_reported(e: ErrorEnvelope, path: Seq<char>) -> bool {
    path.len() > 0 ==> detail_is_text(e.details@["path"@], path)
}

/// `d` lists exactly the strings `items`.
pub open spec fn detail_is_list(d: Detail, items: Seq<Seq<char>>) -> bool {
    d matches Detail::List(v) && string_views(v@) == items
}

/// The hint of an unknown field key: the closest allowed key within edit
/// distance 2 as a suggestion, else the generic unknown-field hint.
pub open spec fn unknown_field_hint(e: ErrorEnvelope, got: Seq<char>) -> bool {
    let ds = distances(got, field_spec_keys());
    ||| exists|k: int|
        #[trigger] is_closest(ds, k) && e.hint@ == "error.json.did_you_mean"@ && e.hint_args@.len()
            == 1 && e.hint_args@[0].0@ == "candidate"@ && e.hint_args@[0].1@ == field_spec_keys()[k]
    ||| none_close(ds) && e.hint@ == "error.json.unknown_field"@ && e.hint_args@.len() == 0
}

/// The user error for a JSON entity that failed to deserialize, from the
/// failure's path, whether it was a syntax or end-of-input error, and its
/// message.
pub open spec fn is_json_failure_error(
    e: ErrorEnvelope,
    path: Seq<char>,
    syntax_or_eof: bool,
    msg: Seq<char>,
) -> bool {
    &&& e.is_kind(Kind::UserError)
    &&& path_reported(e, path)
    &&& match classify_json_failure(syntax_or_eof, msg) {
        JsonFailure::Syntax => {
            &&& e.msg@ == msg
            &&& e.has_reason("invalid_json"@)
            &&& e.hint@ == "error.json.invalid_syntax"@
            &&& e.hint_args@.len() == 0
            &&& e.details@.dom() == with_path(path, set!["reason"@])
        },
        JsonFailure::UnknownField => {
            let got = match quoted_token(msg) {
                Some(t) => t,
                None => Seq::<char>::empty(),
            };
            &&& e.msg@ == "unknown field `"@ + got + "`"@
            &&& e.has_reason("unknown_field"@)
            &&& e.details@.dom() == with_path(path, set!["got"@, "expected"@, "reason"@])
            &&& detail_is_text(e.details@["got"@], got)
            &&& detail_is_list(e.details@["expected"@], field_spec_keys())
            &&& unknown_field_hint(e, got)
        },
        JsonFailure::MissingField => {
            let field = match quoted_token(msg) {
                Some(t) => t,
                None => "field"@,
            };
            &&& e.msg@ == msg
            &&& e.has_reason("missing_field"@)
            &&& e.hint@ == "error.json.missing_property"@
            &&& e.hint_args@.len() == 0
            &&& e.details@.dom() == with_path(path, set!["field"@, "reason"@])
            &&& detail_is_text(e.details@["field"@], field)
        },
        JsonFailure::TypeMismatch => {
            &&& e.msg@ == msg
            &&& e.has_reason("type_mismatch"@)
            &&& e.hint@ == "error.json.type_mismatch"@
            &&& e.hint_args@.len() == 0
            &&& detail_is_text(e.details@["expected"@], "see serde message"@)
            &&& match got_type(msg) {
                Some(g) => e.details@.dom() == with_path(path, set!["got"@, "expected"@, "reason"@])
                    && detail_is_text(e.details@["got"@], g),
                None => e.details@.dom() == with_path(path, set!["expected"@, "reason"@]),
            }
        },
        JsonFailure::InvalidValue => {
            &&& e.msg@ == msg
            &&& e.has_reason("invalid_value"@)
            &&& e.hint@ == "error.json.invalid_value"@
            &&& e.hint_args@.len() == 0
            &&& e.details@.dom() == with_path(path, set!["reason"@])
        },
    }
}

proof fn lemma_detail_keys_distinct()
    ensures
        "path"@ != "reason"@,
        "path"@ != "got"@,
        "path"@ != "expected"@,
        "path"@ != "field"@,
        "got"@ != "reason"@,
        "got"@ != "expected"@,
        "expected"@ != "reason"@,
        "field"@ != "reason"@,
{
    reveal_strlit("path");
    reveal_strlit("reason");
    reveal_strlit("got");
    reveal_strlit("expected");
    reveal_strlit("field");
    assert("path"@[0] != "reason"@[0]);
    assert("path"@[0] != "got"@[0]);
    assert("path"@[0] != "expected"@[0]);
    assert("path"@[0] != "field"@[0]);
    assert("got"@[0] != "reason"@[0]);
    assert("got"@[0] != "expected"@[0]);
    assert("expected"@[0] != "reason"@[0]);
    assert("field"@[0] != "reason"@[0]);
}

/// Details holding `path` when it is not empty.
fn path_details(path: &str) -> (d: StrMap<Detail>)
    ensures
        d@.dom() == with_path(path@, Set::<Seq<char>>::empty()),
        path@.len() > 0 ==> detail_is_text(d@["path"@], path@),
{
    let mut d: StrMap<Detail> = StrMap::new();
    if path.unicode_len() > 0 {
        d.insert(owned("path"), Detail::Text(owned(path)));
    }
    assert(d@.dom() =~= with_path(path@, Set::<Seq<char>>::empty()));
    d
}

/// A JSON loading error with only a `reason` and the optional `path`.
fn json_error(reason: &str, path: &str, msg: &str, hint: &str) -> (e: ErrorEnvelope)
    ensures
        e.is_kind(Kind::UserError),
        e.msg@ == msg@,
        e.has_reason(reason@),
        e.hint@ == hint@,
        e.hint_args@.len() == 0,
        e.details@.dom() == with_path(path@, set!["reason"@]),
        path_reported(e, path@),
{
    proof {
        lemma_detail_keys_distinct();
    }
    let d = path_details(path);
    let e = ErrorEnvelope::user_error_with_reason(owned(msg), reason, d, owned(hint));
    assert(e.details@.dom() =~= with_path(path@, set!["reason"@]));
    e
}

/// The hint for an unknown field key `got`.
fn unknown_field_hint_of(got: &str) -> (r: (String, Vec<(String, String)>))
    ensures
        ({
            let ds = distances(got@, field_spec_keys());
            ||| exists|k: int|
                #[trigger] is_closest(ds, k) && r.0@ == "error.json.did_you_mean"@ && r.1@.len()
                    == 1 && r.1@[0].0@ == "candidate"@ && r.1@[0].1@ == field_spec_keys()[k]
            ||| none_close(ds) && r.0@ == "error.json.unknown_field"@ && r.1@.len() == 0
        }),
{
    let keys = field_spec_key_list();
    match closest_candidate(got, &keys) {
        Some(k) => {
            let cand = keys[k].clone();
            let args = vec![(owned("candidate"), cand)];
            assert(string_views(keys@)[k as int] == keys@[k as int]@);
            (owned("error.json.did_you_mean"), args)
        },
        None => (owned("error.json.unknown_field"), Vec::new()),
    }
}

/// Maps a JSON deserialization failure (its path, whether it was a syntax or
/// end-of-input error, and serde's message) to a user error.
pub fn map_json_deser_error(path: &str, syntax_or_eof: bool, msg: &str) -> (e: ErrorEnvelope)
    ensures
        is_json_failure_error(e, path@, syntax_or_eof, msg@),
{
    proof {
        lemma_detail_keys_distinct();
    }
    if syntax_or_eof {
        return json_error("invalid_json", path, msg, "error.json.invalid_syntax");
    }
    let v = to_chars(msg);
    if contains_str(&v, "unknown field") {
        let got = match extract_quoted_token(msg) {
            Some(t) => t,
            None => String::new(),
        };
        let mut details = path_details(path);
        details.insert(owned("got"), Detail::Text(got.clone()));
        details.insert(owned("expected"), Detail::List(field_spec_key_list()));
        let (hint, args) = unknown_field_hint_of(got.as_str());
        let head = concat2("unknown field `", got.as_str());
        let text = concat2(head.as_str(), "`");
        let e = ErrorEnvelope::user_error_with_reason(text, "unknown_field", details, hint);
        let e = e.with_hint_args(args);
        assert(e.details@.dom() =~= with_path(path@, set!["got"@, "expected"@, "reason"@]));
        return e;
    }
    if contains_str(&v, "missing field") {
        let field = match extract_quoted_token(msg) {
            Some(t) => t,
            None => owned("field"),
        };
        let mut details = path_details(path);
        details.insert(owned("field"), Detail::Text(field));
        let e = ErrorEnvelope::user_error_with_reason(
            owned(msg),
            "missing_field",
            details,
            owned("error.json.missing_property"),
        );
        assert(e.details@.dom() =~= with_path(path@, set!["field"@, "reason"@]));
        return e;
    }
    if contains_str(&v, "invalid type") || contains_str(&v, "expected") {
        let mut details = path_details(path);
        let got = extract_got_type(msg);
        let has_got = got.is_some();
        match got {
            Some(g) => details.insert(owned("got"), Detail::Text(g)),
            None => {},
        }
        details.insert(owned("expected"), Detail::Text(owned("see serde message")));
        let e = ErrorEnvelope::user_error_with_reason(
            owned(msg),
            "type_mismatch",
            details,
            owned("error.json.type_mismatch"),
        );
        if has_got {
            assert(e.details@.dom() =~= with_path(path@, set!["got"@, "expected"@, "reason"@]));
        } else {
            assert(e.details@.dom() =~= with_path(path@, set!["expected"@, "reason"@]));
        }
        return e;
    }
    json_error("invalid_value", path, msg, "error.json.invalid_value")
}

/// The user error for an entity file that could not be read: a missing
/// file, or any other read failure with its message.
pub fn read_failure(not_found: bool, path: &str, msg: &str) -> (e: ErrorEnvelope)
    ensures
        e.is_kind(Kind::UserError),
        not_found ==> e.msg@ == "file not found: "@ + path@ && e.has_reason("file_not_found"@)
            && e.hint@ == "error.json.file_not_found"@ && e.details@.dom() == set![
            "path"@,
            "reason"@,
        ] && detail_is_text(e.details@["path"@], path@),
        !not_found ==> e.msg@ == msg@ && e.has_reason("invalid_json"@) && e.hint@
            == "error.json.invalid_syntax"@ && e.details@.dom() == set!["reason"@],
        e.hint_args@.len() == 0,
{
    proof {
        lemma_detail_keys_distinct();
    }
    if not_found {
        let mut details: StrMap<Detail> = StrMap::new();
        details.insert(owned("path"), Detail::Text(owned(path)));
        let e = ErrorEnvelope::user_error_with_reason(
            concat2("file not found: ", path),
            "file_not_found",
            details,
            owned("error.json.file_not_found"),
        );
        assert(e.details@.dom() =~= set!["path"@, "reason"@]);
        e
    } else {
        proof {
            reveal_strlit("");
        }
        let e = json_error("invalid_json", "", msg, "error.json.invalid_syntax");
        assert(e.details@.dom() =~= set!["reason"@]);
        e
    }
}

} // verus!
