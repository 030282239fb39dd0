//! The template render context: model names in every case, table and
//! package, the field list, primary-key and sub-table builtins, identity,
//! dates, and the project's `[variables]`.

use vstd::prelude::*;

use crate::casing::{camel_case, kebab_case, pascal_case, snake_case, to_camel, to_kebab, to_pascal, to_snake};
use crate::error::{Detail, ErrorEnvelope, Kind, detail_is_text};
use crate::field_dsl::{Field, is_reserved_variable, is_reserved_variable_name};
use crate::gen_input::{FieldSpec, GenInput};
use crate::git_info::GitInfo;
use crate::strmap::StrMap;
use crate::text::{append_str, decimal, decimal_text, owned, concat2, trim, trim_range, to_chars};
use crate::value::{DataValue, ValueView, value_map_view, lemma_value_map_view_insert};

verus! {

broadcast use lemma_value_map_view_insert;

/// User identity surfaced to templates (`user_name` / `user_email`).
pub struct UserIdentity {
    pub name: String,
    pub email: String,
}

/// The field surface a template sees, from the DSL or a JSON field spec.
pub struct ContextField {
    pub name: String,
    pub ty: String,
    pub is_pk: bool,
    pub required: bool,
    pub comment: String,
    pub length: Option<u32>,
    pub unique: bool,
    pub default: Option<DataValue>,
    pub extra: StrMap<DataValue>,
}

impl ContextField {
    /// A DSL field: no comment, length, uniqueness, default or extras.
    pub fn from_field(f: &Field) -> (c: ContextField)
        ensures
            c.name@ == f.name@,
            c.ty@ == f.ty@,
            c.is_pk == f.is_pk,
            !c.required,
            c.comment@.len() == 0,
            c.length is None,
            !c.unique,
            c.default is None,
            c.extra@.dom().len() == 0,
    {
        ContextField {
            name: f.name.clone(),
            ty: f.ty.clone(),
            is_pk: f.is_pk,
            required: false,
            comment: String::new(),
            length: None,
            unique: false,
            default: None,
            extra: StrMap::new(),
        }
    }

    /// A JSON field spec; it is required when its `extra.required` is `true`.
    pub fn from_spec(s: &FieldSpec) -> (c: ContextField)
        ensures
            c.name@ == s.name@,
            c.ty@ == s.ty@,
            c.is_pk == s.is_pk,
            c.required == (s.extra@.contains_key("required"@) && s.extra@["required"@] == DataValue::Bool(
                true,
            )),
            c.comment@ == s.comment@,
            c.length == s.length,
            c.unique == s.unique,
            c.default == s.default,
            c.extra@ == s.extra@,
    {
        let required = match s.extra.get("required") {
            Some(DataValue::Bool(b)) => *b,
            _ => false,
        };
        let default = match &s.default {
            Some(v) => Some(v.dup()),
            None => None,
        };
        ContextField {
            name: s.name.clone(),
            ty: s.ty.clone(),
            is_pk: s.is_pk,
            required,
            comment: s.comment.clone(),
            length: s.length,
            unique: s.unique,
            default,
            extra: dup_values(&s.extra),
        }
    }
}

/// An equal copy of a value map.
pub fn dup_values(m: &StrMap<DataValue>) -> (r: StrMap<DataValue>)
    ensures
        r@ == m@,
{
    m.wf_facts();
    let mut r: StrMap<DataValue> = StrMap::new();
    let mut i: usize = 0;
    while i < m.len()
        invariant
            m.sorted(),
            i <= m.key_seq().len(),
            m.key_seq().len() == m.val_seq().len(),
            r@ == m@.restrict(m.key_seq().take(i as int).to_set()),
        decreases m.key_seq().len() - i,
    {
        proof {
            m.lemma_sorted_facts();
        }
        let k = m.key_at(i).clone();
        let v = m.value_at(i).dup();
        r.insert(k, v);
        proof {
            assert(m.key_seq().take(i + 1) =~= m.key_seq().take(i as int).push(m.key_seq()[i as int]));
            m.key_seq().take(i as int).lemma_push_to_set_commute(m.key_seq()[i as int]);
            assert(r@ =~= m@.restrict(m.key_seq().take(i + 1).to_set()));
        }
        i = i + 1;
    }
    proof {
        m.lemma_sorted_facts();
        assert(m.key_seq().take(i as int) =~= m.key_seq());
        assert(r@ =~= m@);
    }
    r
}

/// The variables a render context is built with: the project's
/// `[variables]`, overridden by the resolved template variables.
pub fn context_variables(project: &StrMap<DataValue>, resolved: &StrMap<DataValue>) -> (r: StrMap<DataValue>)
    ensures
        r@ == project@.union_prefer_right(resolved@),
{
    resolved.wf_facts();
    let mut r = dup_values(project);
    let mut i: usize = 0;
    assert(resolved@.restrict(resolved.key_seq().take(0).to_set()) =~= Map::<Seq<char>, DataValue>::empty());
    assert(r@ =~= project@.union_prefer_right(Map::<Seq<char>, DataValue>::empty()));
    while i < resolved.len()
        invariant
            resolved.sorted(),
            i <= resolved.key_seq().len(),
            resolved.key_seq().len() == resolved.val_seq().len(),
            r@ == project@.union_prefer_right(resolved@.restrict(resolved.key_seq().take(i as int).to_set())),
        decreases resolved.key_seq().len() - i,
    {
        proof {
            resolved.lemma_sorted_facts();
        }
        let k = resolved.key_at(i).clone();
        let v = resolved.value_at(i).dup();
        r.insert(k, v);
        proof {
            let ks = resolved.key_seq();
            assert(ks.take(i + 1) =~= ks.take(i as int).push(ks[i as int]));
            ks.take(i as int).lemma_push_to_set_commute(ks[i as int]);
            assert(r@ =~= project@.union_prefer_right(resolved@.restrict(ks.take(i + 1).to_set())));
        }
        i = i + 1;
    }
    proof {
        resolved.lemma_sorted_facts();
        assert(resolved.key_seq().take(i as int) =~= resolved.key_seq());
        assert(resolved@.restrict(resolved.key_seq().to_set()) =~= resolved@);
    }
    r
}

/// A top-level context entry: one value, or a list of records.
pub enum CtxValue {
    Val(DataValue),
    Records(Vec<StrMap<DataValue>>),
}

/// A context entry as plain data.
pub enum CtxView {
    Scalar(ValueView),
    Records(Seq<Map<Seq<char>, ValueView>>),
}

impl View for CtxValue {
    type V = CtxView;

    open spec fn view(&self) -> CtxView {
        match self {
            CtxValue::Val(v) => CtxView::Scalar(v@),
            CtxValue::Records(rs) => CtxView::Records(record_views(rs@)),
        }
    }
}

/// A list of records as plain data.
pub open spec fn record_views(rs: Seq<StrMap<DataValue>>) -> Seq<Map<Seq<char>, ValueView>> {
    rs.map_values(|r: StrMap<DataValue>| value_map_view(r@))
}

/// The render context: key to entry, in ascending key order.
pub struct RenderContext(pub StrMap<CtxValue>);

/// The context's entries as plain data.
pub open spec fn ctx_view(m: Map<Seq<char>, CtxValue>) -> Map<Seq<char>, CtxView> {
    m.map_values(|c: CtxValue| c@)
}

pub broadcast proof fn lemma_ctx_view_insert(m: Map<Seq<char>, CtxValue>, k: Seq<char>, v: CtxValue)
    ensures
        #[trigger] ctx_view(m.insert(k, v)) == ctx_view(m).insert(k, v@),
{
    assert(ctx_view(m.insert(k, v)) =~= ctx_view(m).insert(k, v@));
}

/// Today's date (`YYYY-MM-DD`), the date and time (`YYYY-MM-DD HH:MM:SS`)
/// and the year, in local time.
pub struct DateStamps {
    pub date: String,
    pub datetime: String,
    pub year: String,
}

/// The calendar parts of a moment.
pub struct DateTimeParts {
    pub year: i32,
    pub month: u8,
    pub day: u8,
    pub hour: u8,
    pub minute: u8,
    pub second: u8,
}

/// The ranges `time` keeps its parts in (years without `large-dates`).
pub open spec fn parts_in_range(p: DateTimeParts) -> bool {
    &&& -9999 <= p.year <= 9999
    &&& 1 <= p.month <= 12
    &&& 1 <= p.day <= 31
    &&& p.hour < 24
    &&& p.minute < 60
    &&& p.second < 60
}

/// The current moment's parts: `time::OffsetDateTime::now_local()`, else
/// `now_utc()` when the local offset is unknown. They depend on the clock
/// and the time zone; only the ranges `time` keeps each part in are stated.
#[verifier::external_body]
fn now_parts() -> (r: DateTimeParts)
    ensures
        parts_in_range(r),
{
    let now = time::OffsetDateTime::now_local().unwrap_or_else(|_| time::OffsetDateTime::now_utc());
    DateTimeParts {
        year: now.year(),
        month: u8::from(now.month()),
        day: now.day(),
        hour: now.hour(),
        minute: now.minute(),
        second: now.second(),
    }
}

/// `s` padded on the left with `0` to at least `w` characters.
pub open spec fn zero_padded(s: Seq<char>, w: nat) -> Seq<char> {
    if s.len() >= w {
        s
    } else {
        Seq::new((w - s.len()) as nat, |i: int| '0') + s
    }
}

/// A number in at least two digits.
pub open spec fn two_digits(n: nat) -> Seq<char> {
    zero_padded(decimal(n), 2)
}

/// A year in at least four digits, with `-` before a negative one.
pub open spec fn year_text(y: int) -> Seq<char> {
    if y < 0 {
        "-"@ + zero_padded(decimal((-y) as nat), 4)
    } else {
        zero_padded(decimal(y as nat), 4)
    }
}

/// `YYYY-MM-DD`.
pub open spec fn date_text(p: DateTimeParts) -> Seq<char> {
    year_text(p.year as int) + "-"@ + two_digits(p.month as nat) + "-"@ + two_digits(p.day as nat)
}

/// `YYYY-MM-DD HH:MM:SS`.
pub open spec fn datetime_text(p: DateTimeParts) -> Seq<char> {
    date_text(p) + " "@ + two_digits(p.hour as nat) + ":"@ + two_digits(p.minute as nat) + ":"@
        + two_digits(p.second as nat)
}

/// `s` holds the stamps of the moment `p`.
pub open spec fn stamps_hold(s: DateStamps, p: DateTimeParts) -> bool {
    &&& s.date@ == date_text(p)
    &&& s.datetime@ == datetime_text(p)
    &&& s.year@ == year_text(p.year as int)
}

fn padded(n: u64, w: usize) -> (r: String)
    ensures
        r@ == zero_padded(decimal(n as nat), w as nat),
{
    let d = decimal_text(n);
    let len = d.unicode_len();
    if len >= w {
        return d;
    }
    let mut out = String::new();
    let mut k: usize = 0;
    while k < w - len
        invariant
            k <= w - len,
            out@ =~= Seq::new(k as nat, |i: int| '0'),
        decreases w - len - k,
    {
        out.push('0');
        k = k + 1;
    }
    append_str(&mut out, d.as_str());
    assert(out@ =~= Seq::new((w - len) as nat, |i: int| '0') + decimal(n as nat));
    out
}

fn year_string(y: i32) -> (r: String)
    ensures
        r@ == year_text(y as int),
{
    if y < 0 {
        let a = (-(y as i64)) as u64;
        let p = padded(a, 4);
        concat2("-", p.as_str())
    } else {
        padded(y as u64, 4)
    }
}

/// The date stamps of a moment.
pub fn stamps_of(p: &DateTimeParts) -> (s: DateStamps)
    ensures
        stamps_hold(s, *p),
{
    let year = year_string(p.year);
    let mut date = owned(year.as_str());
    append_str(&mut date, "-");
    append_str(&mut date, padded(p.month as u64, 2).as_str());
    append_str(&mut date, "-");
    append_str(&mut date, padded(p.day as u64, 2).as_str());
    let mut datetime = owned(date.as_str());
    append_str(&mut datetime, " ");
    append_str(&mut datetime, padded(p.hour as u64, 2).as_str());
    append_str(&mut datetime, ":");
    append_str(&mut datetime, padded(p.minute as u64, 2).as_str());
    append_str(&mut datetime, ":");
    append_str(&mut datetime, padded(p.second as u64, 2).as_str());
    DateStamps { date, datetime, year }
}

/// The date stamps of now (see [`now_parts`]).
fn now_stamps() -> (r: (DateStamps, Ghost<DateTimeParts>))
    ensures
        parts_in_range(r.1@),
        stamps_hold(r.0, r.1@),
{
    let p = now_parts();
    let s = stamps_of(&p);
    (s, Ghost(p))
}

// ---------------------------------------------------------------------------
// Specification
// ---------------------------------------------------------------------------

/// `m` with each `ks[i] -> vs[i]` inserted in order.
pub open spec fn insert_values(
    m: Map<Seq<char>, ValueView>,
    ks: Seq<Seq<char>>,
    vs: Seq<DataValue>,
) -> Map<Seq<char>, ValueView>
    decreases ks.len(),
{
    if ks.len() == 0 || vs.len() == 0 {
        m
    } else {
        insert_values(m.insert(ks[0], vs[0]@), ks.drop_first(), vs.drop_first())
    }
}

/// `s` with every `.` replaced by `/`.
pub open spec fn dots_to_slashes(s: Seq<char>) -> Seq<char> {
    s.map_values(|c: char| if c == '.' {
        '/'
    } else {
        c
    })
}

/// One field as a template record: name in every case, type, flags,
/// comment, length, default, then its extra keys (which win on clashes).
pub open spec fn field_record(f: ContextField) -> Map<Seq<char>, ValueView> {
    let base = Map::<Seq<char>, ValueView>::empty().insert("name"@, ValueView::Text(f.name@)).insert(
        "name_pascal"@,
        ValueView::Text(pascal_case(f.name@)),
    ).insert("name_snake"@, ValueView::Text(snake_case(f.name@))).insert(
        "name_camel"@,
        ValueView::Text(camel_case(f.name@)),
    ).insert("name_kebab"@, ValueView::Text(kebab_case(f.name@))).insert(
        "type"@,
        ValueView::Text(f.ty@),
    ).insert("is_pk"@, ValueView::Bool(f.is_pk)).insert("required"@, ValueView::Bool(f.required)).insert(
        "comment"@,
        ValueView::Text(f.comment@),
    ).insert(
        "length"@,
        match f.length {
            Some(l) => ValueView::Number(decimal(l as nat)),
            None => ValueView::Null,
        },
    ).insert("unique"@, ValueView::Bool(f.unique)).insert(
        "default"@,
        match f.default {
            Some(v) => v@,
            None => ValueView::Null,
        },
    );
    insert_values(base, f.extra.key_seq(), f.extra.val_seq())
}

/// The records of a field list.
pub open spec fn field_records(fs: Seq<ContextField>) -> Seq<Map<Seq<char>, ValueView>> {
    fs.map_values(|f: ContextField| field_record(f))
}

/// The first field marked primary key.
pub open spec fn first_pk(fs: Seq<ContextField>) -> Option<ContextField>
    decreases fs.len(),
{
    if fs.len() == 0 {
        None
    } else if fs[0].is_pk {
        Some(fs[0])
    } else {
        first_pk(fs.drop_first())
    }
}

/// Optional sub-table slice of a context.
pub struct SubTableContext {
    pub name: String,
    pub table: String,
    pub table_comment: String,
    pub fk_field: String,
    pub fields: Vec<ContextField>,
}

/// The text `t` unless blank, else `fallback`.
pub open spec fn or_fallback(t: Seq<char>, fallback: Seq<char>) -> Seq<char> {
    if trim(t).len() == 0 {
        fallback
    } else {
        t
    }
}

/// A text entry.
pub open spec fn text_view(s: Seq<char>) -> CtxView {
    CtxView::Scalar(ValueView::Text(s))
}

/// The model, table and package entries and the field records.
pub open spec fn model_entries(
    name: Seq<char>,
    table: Seq<char>,
    package: Seq<char>,
    table_comment: Seq<char>,
    fields: Seq<ContextField>,
) -> Map<Seq<char>, CtxView> {
    Map::<Seq<char>, CtxView>::empty().insert("model"@, text_view(name)).insert(
        "model_pascal"@,
        text_view(pascal_case(name)),
    ).insert("model_snake"@, text_view(snake_case(name))).insert(
        "model_camel"@,
        text_view(camel_case(name)),
    ).insert("model_kebab"@, text_view(kebab_case(name))).insert("table"@, text_view(table)).insert(
        "table_comment"@,
        text_view(table_comment),
    ).insert("package"@, text_view(package)).insert(
        "package_path"@,
        text_view(dots_to_slashes(package)),
    ).insert("fields"@, CtxView::Records(field_records(fields)))
}

/// `m` with the primary-key entries: the first primary key's camelCase
/// name, type and PascalCase name, else `id` / `Long` / `Id`.
pub open spec fn with_pk_entries(m: Map<Seq<char>, CtxView>, fields: Seq<ContextField>) -> Map<
    Seq<char>,
    CtxView,
> {
    match first_pk(fields) {
        Some(pk) => m.insert("pk_field"@, text_view(camel_case(pk.name@))).insert(
            "pk_field_type"@,
            text_view(pk.ty@),
        ).insert("pk_field_pascal"@, text_view(pascal_case(pk.name@))),
        None => m.insert("pk_field"@, text_view("id"@)).insert(
            "pk_field_type"@,
            text_view("Long"@),
        ).insert("pk_field_pascal"@, text_view("Id"@)),
    }
}

/// `m` with the sub-table entries (empty values without a sub-table).
pub open spec fn with_sub_entries(m: Map<Seq<char>, CtxView>, sub: Option<SubTableContext>) -> Map<
    Seq<char>,
    CtxView,
> {
    let e = Seq::<char>::empty();
    match sub {
        None => m.insert("is_sub"@, CtxView::Scalar(ValueView::Bool(false))).insert(
            "sub_table"@,
            text_view(e),
        ).insert("sub_table_comment"@, text_view(e)).insert(
            "sub_fields"@,
            CtxView::Records(Seq::empty()),
        ).insert("sub_model"@, text_view(e)).insert("sub_model_snake"@, text_view(e)).insert(
            "sub_model_pascal"@,
            text_view(e),
        ).insert("sub_model_camel"@, text_view(e)).insert("sub_model_kebab"@, text_view(e)).insert(
            "sub_model_fk"@,
            text_view(e),
        ).insert("sub_model_fk_pascal"@, text_view(e)),
        Some(s) => m.insert("is_sub"@, CtxView::Scalar(ValueView::Bool(true))).insert(
            "sub_table"@,
            text_view(s.table@),
        ).insert("sub_table_comment"@, text_view(s.table_comment@)).insert(
            "sub_fields"@,
            CtxView::Records(field_records(s.fields@)),
        ).insert("sub_model"@, text_view(s.name@)).insert(
            "sub_model_snake"@,
            text_view(snake_case(s.name@)),
        ).insert("sub_model_pascal"@, text_view(pascal_case(s.name@))).insert(
            "sub_model_camel"@,
            text_view(camel_case(s.name@)),
        ).insert("sub_model_kebab"@, text_view(kebab_case(s.name@))).insert(
            "sub_model_fk_pascal"@,
            text_view(pascal_case(camel_case(s.fk_field@))),
        ).insert("sub_model_fk"@, text_view(camel_case(s.fk_field@))),
    }
}

/// `m` with the identity and date entries; a blank user name or email
/// falls back to git's.
pub open spec fn with_identity_entries(
    m: Map<Seq<char>, CtxView>,
    git: GitInfo,
    user: UserIdentity,
    stamps: DateStamps,
) -> Map<Seq<char>, CtxView> {
    m.insert("git_user_name"@, text_view(git.user_name@)).insert(
        "git_user_email"@,
        text_view(git.user_email@),
    ).insert("user_name"@, text_view(or_fallback(user.name@, git.user_name@))).insert(
        "user_email"@,
        text_view(or_fallback(user.email@, git.user_email@)),
    ).insert("date"@, text_view(stamps.date@)).insert("datetime"@, text_view(stamps.datetime@)).insert(
        "year"@,
        text_view(stamps.year@),
    )
}

/// The builtin entries of the context.
pub open spec fn builtin_context(
    name: Seq<char>,
    table: Seq<char>,
    package: Seq<char>,
    table_comment: Seq<char>,
    fields: Seq<ContextField>,
    sub: Option<SubTableContext>,
    git: GitInfo,
    user: UserIdentity,
    stamps: DateStamps,
) -> Map<Seq<char>, CtxView> {
    with_identity_entries(
        with_sub_entries(
            with_pk_entries(model_entries(name, table, package, table_comment, fields), fields),
            sub,
        ),
        git,
        user,
        stamps,
    )
}

/// `m` with each project variable inserted in key order.
pub open spec fn insert_variables(
    m: Map<Seq<char>, CtxView>,
    ks: Seq<Seq<char>>,
    vs: Seq<DataValue>,
) -> Map<Seq<char>, CtxView>
    decreases ks.len(),
{
    if ks.len() == 0 || vs.len() == 0 {
        m
    } else {
        insert_variables(m.insert(ks[0], CtxView::Scalar(vs[0]@)), ks.drop_first(), vs.drop_first())
    }
}

/// The first reserved name among `ks`.
pub open spec fn first_reserved(ks: Seq<Seq<char>>) -> Option<Seq<char>>
    decreases ks.len(),
{
    if ks.len() == 0 {
        None
    } else if is_reserved_variable(ks[0]) {
        Some(ks[0])
    } else {
        first_reserved(ks.drop_first())
    }
}

/// The sub-table a context is built with, if any.
pub open spec fn sub_of(sub: Option<&SubTableContext>) -> Option<SubTableContext> {
    match sub {
        Some(s) => Some(*s),
        None => None,
    }
}

/// `e` reports that the project variable `key` shadows a builtin.
pub open spec fn is_shadow_error(e: ErrorEnvelope, key: Seq<char>) -> bool {
    &&& e.is_kind(Kind::TemplateError)
    &&& e.msg@ == "variable shadows built-in: "@ + key
    &&& e.has_reason("variable_shadows_builtin"@)
    &&& e.details@.dom() == set!["variable"@, "reason"@]
    &&& detail_is_text(e.details@["variable"@], key)
    &&& e.hint@ == "error.variable.shadows_builtin"@
    &&& e.hint_args@.len() == 0
}

// ---------------------------------------------------------------------------
// Building
// ---------------------------------------------------------------------------

fn insert_text(m: &mut StrMap<CtxValue>, key: &str, s: String)
    ensures
        final(m)@ == old(m)@.insert(key@, CtxValue::Val(DataValue::Text(s))),
{
    m.insert(owned(key), CtxValue::Val(DataValue::Text(s)));
}

/// `s` with every `.` replaced by `/`.
pub fn replace_dots(s: &str) -> (r: String)
    ensures
        r@ == dots_to_slashes(s@),
{
    let v = to_chars(s);
    let mut r = String::new();
    let mut i: usize = 0;
    while i < v.len()
        invariant
            v@ == s@,
            i <= v@.len(),
            r@ == dots_to_slashes(s@).take(i as int),
        decreases v@.len() - i,
    {
        if v[i] == '.' {
            r.push('/');
        } else {
            r.push(v[i]);
        }
        i = i + 1;
        assert(r@ =~= dots_to_slashes(s@).take(i as int));
    }
    assert(dots_to_slashes(s@).take(i as int) =~= dots_to_slashes(s@));
    r
}

/// The template record of one field.
pub fn field_to_record(f: &ContextField) -> (r: StrMap<DataValue>)
    ensures
        value_map_view(r@) == field_record(*f),
{
    let mut m: StrMap<DataValue> = StrMap::new();
    let ghost e = Map::<Seq<char>, DataValue>::empty();
    assert(value_map_view(e) =~= Map::<Seq<char>, ValueView>::empty());
    m.insert(owned("name"), DataValue::Text(f.name.clone()));
    m.insert(owned("name_pascal"), DataValue::Text(to_pascal(f.name.as_str())));
    m.insert(owned("name_snake"), DataValue::Text(to_snake(f.name.as_str())));
    m.insert(owned("name_camel"), DataValue::Text(to_camel(f.name.as_str())));
    m.insert(owned("name_kebab"), DataValue::Text(to_kebab(f.name.as_str())));
    m.insert(owned("type"), DataValue::Text(f.ty.clone()));
    m.insert(owned("is_pk"), DataValue::Bool(f.is_pk));
    m.insert(owned("required"), DataValue::Bool(f.required));
    m.insert(owned("comment"), DataValue::Text(f.comment.clone()));
    let length = match f.length {
        Some(l) => DataValue::Number(decimal_text(l as u64)),
        None => DataValue::Null,
    };
    m.insert(owned("length"), length);
    m.insert(owned("unique"), DataValue::Bool(f.unique));
    let default = match &f.default {
        Some(v) => v.dup(),
        None => DataValue::Null,
    };
    m.insert(owned("default"), default);
    let ghost base = value_map_view(m@);
    f.extra.wf_facts();
    let ghost ks = f.extra.key_seq();
    let ghost vs = f.extra.val_seq();
    let mut i: usize = 0;
    assert(ks.skip(0) =~= ks);
    assert(vs.skip(0) =~= vs);
    while i < f.extra.len()
        invariant
            ks == f.extra.key_seq(),
            vs == f.extra.val_seq(),
            ks.len() == vs.len(),
            i <= ks.len(),
            insert_values(base, ks, vs) == insert_values(
                value_map_view(m@),
                ks.skip(i as int),
                vs.skip(i as int),
            ),
        decreases ks.len() - i,
    {
        let k = f.extra.key_at(i).clone();
        let v = f.extra.value_at(i).dup();
        assert(ks.skip(i as int)[0] == k@);
        assert(vs.skip(i as int)[0] == v);
        assert(ks.skip(i as int).drop_first() =~= ks.skip(i + 1));
        assert(vs.skip(i as int).drop_first() =~= vs.skip(i + 1));
        m.insert(k, v);
        i = i + 1;
    }
    assert(ks.skip(i as int) =~= Seq::<Seq<char>>::empty());
    m
}

/// The records of a field list.
pub fn fields_to_records(fs: &Vec<ContextField>) -> (r: Vec<StrMap<DataValue>>)
    ensures
        record_views(r@) == field_records(fs@),
{
    let mut out: Vec<StrMap<DataValue>> = Vec::new();
    let mut i: usize = 0;
    while i < fs.len()
        invariant
            i <= fs@.len(),
            record_views(out@) =~= field_records(fs@).take(i as int),
        decreases fs@.len() - i,
    {
        let rec = field_to_record(&fs[i]);
        let ghost before = out@;
        out.push(rec);
        assert(record_views(out@) =~= record_views(before).push(field_records(fs@)[i as int]));
        i = i + 1;
    }
    assert(field_records(fs@).take(i as int) =~= field_records(fs@));
    out
}

fn first_pk_index(fs: &Vec<ContextField>) -> (r: Option<usize>)
    ensures
        match first_pk(fs@) {
            Some(f) => r matches Some(i) && i < fs@.len() && fs@[i as int] == f,
            None => r is None,
        },
{
    let mut i: usize = 0;
    assert(fs@.skip(0) =~= fs@);
    while i < fs.len()
        invariant
            i <= fs@.len(),
            first_pk(fs@) == first_pk(fs@.skip(i as int)),
        decreases fs@.len() - i,
    {
        assert(fs@.skip(i as int)[0] == fs@[i as int]);
        assert(fs@.skip(i as int).drop_first() =~= fs@.skip(i + 1));
        if fs[i].is_pk {
            return Some(i);
        }
        i = i + 1;
    }
    None
}

fn blank(s: &str) -> (b: bool)
    ensures
        b == (trim(s@).len() == 0),
{
    let v = to_chars(s);
    let (lo, hi) = trim_range(&v, 0, v.len());
    assert(v@.subrange(0, v@.len() as int) =~= s@);
    lo == hi
}

fn shadow_error(key: &str) -> (e: ErrorEnvelope)
    ensures
        is_shadow_error(e, key@),
{
    proof {
        reveal_strlit("variable");
        reveal_strlit("reason");
        assert("variable"@[0] != "reason"@[0]);
    }
    let mut details: StrMap<Detail> = StrMap::new();
    details.insert(owned("variable"), Detail::Text(owned(key)));
    details.insert(owned("reason"), Detail::Text(owned("variable_shadows_builtin")));
    let e = ErrorEnvelope::template_error_with_reason(
        concat2("variable shadows built-in: ", key),
        details,
        owned("error.variable.shadows_builtin"),
    );
    assert(e.details@.dom() =~= set!["variable"@, "reason"@]);
    e
}

/// Builds the render context with the given date stamps. Project variables
/// are added last, in key order; one that takes a builtin's name is refused
/// (the first such in key order).
pub fn build_context_at(
    name: &str,
    table: &str,
    package: &str,
    table_comment: &str,
    fields: &Vec<ContextField>,
    sub: Option<&SubTableContext>,
    variables: &StrMap<DataValue>,
    git: &GitInfo,
    user: &UserIdentity,
    stamps: &DateStamps,
) -> (r: Result<RenderContext, ErrorEnvelope>)
    ensures
        match first_reserved(variables.key_seq()) {
            Some(k) => r matches Err(e) && is_shadow_error(e, k),
            None => r matches Ok(c) && ctx_view(c.0@) == insert_variables(
                builtin_context(
                    name@,
                    table@,
                    package@,
                    table_comment@,
                    fields@,
                    sub_of(sub),
                    *git,
                    *user,
                    *stamps,
                ),
                variables.key_seq(),
                variables.val_seq(),
            ),
        },
{
    broadcast use lemma_ctx_view_insert;

    let mut m: StrMap<CtxValue> = StrMap::new();
    assert(ctx_view(m@) =~= Map::<Seq<char>, CtxView>::empty());
    insert_text(&mut m, "model", owned(name));
    insert_text(&mut m, "model_pascal", to_pascal(name));
    insert_text(&mut m, "model_snake", to_snake(name));
    insert_text(&mut m, "model_camel", to_camel(name));
    insert_text(&mut m, "model_kebab", to_kebab(name));
    insert_text(&mut m, "table", owned(table));
    insert_text(&mut m, "table_comment", owned(table_comment));
    insert_text(&mut m, "package", owned(package));
    insert_text(&mut m, "package_path", replace_dots(package));
    m.insert(owned("fields"), CtxValue::Records(fields_to_records(fields)));
    assert(ctx_view(m@) == model_entries(name@, table@, package@, table_comment@, fields@));
    let ghost stage1 = ctx_view(m@);
    match first_pk_index(fields) {
        Some(i) => {
            insert_text(&mut m, "pk_field", to_camel(fields[i].name.as_str()));
            insert_text(&mut m, "pk_field_type", fields[i].ty.clone());
            insert_text(&mut m, "pk_field_pascal", to_pascal(fields[i].name.as_str()));
        },
        None => {
            insert_text(&mut m, "pk_field", owned("id"));
            insert_text(&mut m, "pk_field_type", owned("Long"));
            insert_text(&mut m, "pk_field_pascal", owned("Id"));
        },
    }
    assert(ctx_view(m@) == with_pk_entries(stage1, fields@));
    let ghost stage2 = ctx_view(m@);
    match sub {
        None => {
            m.insert(owned("is_sub"), CtxValue::Val(DataValue::Bool(false)));
            insert_text(&mut m, "sub_table", String::new());
            insert_text(&mut m, "sub_table_comment", String::new());
            m.insert(owned("sub_fields"), CtxValue::Records(Vec::new()));
            assert(record_views(Seq::<StrMap<DataValue>>::empty()) =~= Seq::<
                Map<Seq<char>, ValueView>,
            >::empty());
            insert_text(&mut m, "sub_model", String::new());
            insert_text(&mut m, "sub_model_snake", String::new());
            insert_text(&mut m, "sub_model_pascal", String::new());
            insert_text(&mut m, "sub_model_camel", String::new());
            insert_text(&mut m, "sub_model_kebab", String::new());
            insert_text(&mut m, "sub_model_fk", String::new());
            insert_text(&mut m, "sub_model_fk_pascal", String::new());
        },
        Some(s) => {
            m.insert(owned("is_sub"), CtxValue::Val(DataValue::Bool(true)));
            insert_text(&mut m, "sub_table", s.table.clone());
            insert_text(&mut m, "sub_table_comment", s.table_comment.clone());
            m.insert(owned("sub_fields"), CtxValue::Records(fields_to_records(&s.fields)));
            insert_text(&mut m, "sub_model", s.name.clone());
            insert_text(&mut m, "sub_model_snake", to_snake(s.name.as_str()));
            insert_text(&mut m, "sub_model_pascal", to_pascal(s.name.as_str()));
            insert_text(&mut m, "sub_model_camel", to_camel(s.name.as_str()));
            insert_text(&mut m, "sub_model_kebab", to_kebab(s.name.as_str()));
            let fk_camel = to_camel(s.fk_field.as_str());
            insert_text(&mut m, "sub_model_fk_pascal", to_pascal(fk_camel.as_str()));
            insert_text(&mut m, "sub_model_fk", fk_camel);
        },
    }
    assert(ctx_view(m@) == with_sub_entries(
        stage2,
        match sub {
            Some(s) => Some(*s),
            None => None,
        },
    ));
    insert_text(&mut m, "git_user_name", git.user_name.clone());
    insert_text(&mut m, "git_user_email", git.user_email.clone());
    let user_name = if blank(user.name.as_str()) {
        git.user_name.clone()
    } else {
        user.name.clone()
    };
    let user_email = if blank(user.email.as_str()) {
        git.user_email.clone()
    } else {
        user.email.clone()
    };
    insert_text(&mut m, "user_name", user_name);
    insert_text(&mut m, "user_email", user_email);
    insert_text(&mut m, "date", stamps.date.clone());
    insert_text(&mut m, "datetime", stamps.datetime.clone());
    insert_text(&mut m, "year", stamps.year.clone());
    let ghost base = ctx_view(m@);
    assert(base == builtin_context(
        name@,
        table@,
        package@,
        table_comment@,
        fields@,
        match sub {
            Some(s) => Some(*s),
            None => None,
        },
        *git,
        *user,
        *stamps,
    ));
    variables.wf_facts();
    let ghost ks = variables.key_seq();
    let ghost vs = variables.val_seq();
    let mut i: usize = 0;
    assert(ks.skip(0) =~= ks);
    assert(vs.skip(0) =~= vs);
    while i < variables.len()
        invariant
            ks == variables.key_seq(),
            vs == variables.val_seq(),
            ks.len() == vs.len(),
            i <= ks.len(),
            first_reserved(ks) == first_reserved(ks.skip(i as int)),
            insert_variables(base, ks, vs) == insert_variables(
                ctx_view(m@),
                ks.skip(i as int),
                vs.skip(i as int),
            ),
        decreases ks.len() - i,
    {
        let k = variables.key_at(i);
        let v = variables.value_at(i);
        assert(ks.skip(i as int)[0] == k@);
        assert(vs.skip(i as int)[0] == *v);
        assert(ks.skip(i as int).drop_first() =~= ks.skip(i + 1));
        assert(vs.skip(i as int).drop_first() =~= vs.skip(i + 1));
        if is_reserved_variable_name(k.as_str()) {
            return Err(shadow_error(k.as_str()));
        }
        let d = v.dup();
        let ghost before = m@;
        m.insert(k.clone(), CtxValue::Val(d));
        assert(ctx_view(m@) == ctx_view(before).insert(k@, CtxView::Scalar(vs.skip(i as int)[0]@)));
        i = i + 1;
    }
    assert(ks.skip(i as int) =~= Seq::<Seq<char>>::empty());
    Ok(RenderContext(m))
}


/// Builds the render context stamped with the current local date and time;
/// everything else is exactly as `build_context_at` describes.
pub fn build_context(
    name: &str,
    table: &str,
    package: &str,
    table_comment: &str,
    fields: &Vec<ContextField>,
    sub: Option<&SubTableContext>,
    variables: &StrMap<DataValue>,
    git: &GitInfo,
    user: &UserIdentity,
) -> (r: Result<RenderContext, ErrorEnvelope>)
    ensures
        match first_reserved(variables.key_seq()) {
            Some(k) => r matches Err(e) && is_shadow_error(e, k),
            None => r matches Ok(c) && exists|stamps: DateStamps, p: DateTimeParts|
                parts_in_range(p) && #[trigger] stamps_hold(stamps, p) && ctx_view(c.0@)
                    == #[trigger] insert_variables(
                    builtin_context(
                        name@,
                        table@,
                        package@,
                        table_comment@,
                        fields@,
                        sub_of(sub),
                        *git,
                        *user,
                        stamps,
                    ),
                    variables.key_seq(),
                    variables.val_seq(),
                ),
        },
{
    let (stamps, parts) = now_stamps();
    let r = build_context_at(
        name,
        table,
        package,
        table_comment,
        fields,
        sub,
        variables,
        git,
        user,
        &stamps,
    );
    proof {
        let sv = sub_of(sub);
        if first_reserved(variables.key_seq()) is None {
            let c = r->Ok_0;
            assert(ctx_view(c.0@) == insert_variables(
                builtin_context(
                    name@,
                    table@,
                    package@,
                    table_comment@,
                    fields@,
                    sv,
                    *git,
                    *user,
                    stamps,
                ),
                variables.key_seq(),
                variables.val_seq(),
            ));
        }
    }
    r
}

/// The context fields of a list of DSL fields.
pub fn context_fields(fs: &Vec<Field>) -> (r: Vec<ContextField>)
    ensures
        r@.len() == fs@.len(),
        forall|i: int|
            0 <= i < r@.len() ==> (#[trigger] r@[i]).name@ == fs@[i].name@ && r@[i].ty@ == fs@[i].ty@
                && r@[i].is_pk == fs@[i].is_pk && !r@[i].required && r@[i].comment@.len() == 0
                && r@[i].length is None && !r@[i].unique && r@[i].default is None
                && r@[i].extra@.dom().len() == 0,
{
    let mut out: Vec<ContextField> = Vec::new();
    let mut i: usize = 0;
    while i < fs.len()
        invariant
            i <= fs@.len(),
            out@.len() == i,
            forall|j: int|
                0 <= j < i ==> (#[trigger] out@[j]).name@ == fs@[j].name@ && out@[j].ty@ == fs@[j].ty@
                    && out@[j].is_pk == fs@[j].is_pk && !out@[j].required && out@[j].comment@.len()
                    == 0 && out@[j].length is None && !out@[j].unique && out@[j].default is None
                    && out@[j].extra@.dom().len() == 0,
        decreases fs@.len() - i,
    {
        out.push(ContextField::from_field(&fs[i]));
        i = i + 1;
    }
    out
}

/// The render context of a DSL input (no sub-table), stamped now.
pub fn build_context_from_input(
    input: &GenInput,
    variables: &StrMap<DataValue>,
    git: &GitInfo,
    user: &UserIdentity,
) -> (r: Result<RenderContext, ErrorEnvelope>)
    ensures
        match first_reserved(variables.key_seq()) {
            Some(k) => r matches Err(e) && is_shadow_error(e, k),
            None => r matches Ok(c) && exists|stamps: DateStamps, p: DateTimeParts, fs: Seq<ContextField>|
                parts_in_range(p) && #[trigger] stamps_hold(stamps, p) && fs.len() == input.fields@.len() && (forall|i: int|
                    0 <= i < fs.len() ==> (#[trigger] fs[i]).name@ == input.fields@[i].name@
                        && fs[i].ty@ == input.fields@[i].ty@ && fs[i].is_pk == input.fields@[i].is_pk
                        && !fs[i].required && fs[i].comment@.len() == 0 && fs[i].length is None
                        && !fs[i].unique && fs[i].default is None && fs[i].extra@.dom().len() == 0)
                    && ctx_view(c.0@) == #[trigger] insert_variables(
                    builtin_context(
                        input.name@,
                        input.table@,
                        input.package@,
                        input.table_comment@,
                        fs,
                        None,
                        *git,
                        *user,
                        stamps,
                    ),
                    variables.key_seq(),
                    variables.val_seq(),
                ),
        },
{
    let fields = context_fields(&input.fields);
    let (stamps, parts) = now_stamps();
    let r = build_context_at(
        input.name.as_str(),
        input.table.as_str(),
        input.package.as_str(),
        input.table_comment.as_str(),
        &fields,
        None,
        variables,
        git,
        user,
        &stamps,
    );
    proof {
        if first_reserved(variables.key_seq()) is None {
            let c = r->Ok_0;
            assert(ctx_view(c.0@) == insert_variables(
                builtin_context(
                    input.name@,
                    input.table@,
                    input.package@,
                    input.table_comment@,
                    fields@,
                    None,
                    *git,
                    *user,
                    stamps,
                ),
                variables.key_seq(),
                variables.val_seq(),
            ));
        }
    }
    r
}


/// The `package_path` entry is the package with every `.` turned into `/`:
/// same length, no `.` left, every other character kept in place.
pub proof fn lemma_package_path_entry(
    name: Seq<char>,
    table: Seq<char>,
    package: Seq<char>,
    table_comment: Seq<char>,
    fields: Seq<ContextField>,
)
    ensures
        exists|q: Seq<char>|
            #[trigger] model_entries(name, table, package, table_comment, fields)["package_path"@] == text_view(q)
                && q.len() == package.len() && !q.contains('.') && forall|i: int|
                0 <= i < q.len() ==> q[i] == (if package[i] == '.' {
                    '/'
                } else {
                    package[i]
                }),
{
    reveal_strlit("package_path");
    reveal_strlit("fields");
    assert("package_path"@ != "fields"@) by {
        assert("package_path"@.len() != "fields"@.len());
    }
    let q = dots_to_slashes(package);
    assert(model_entries(name, table, package, table_comment, fields)["package_path"@] == text_view(q));
    assert(!q.contains('.')) by {
        if q.contains('.') {
            let i = choose|i: int| 0 <= i < q.len() && q[i] == '.';
            assert(q[i] == (if package[i] == '.' { '/' } else { package[i] }));
        }
    }
}

} // verus!
