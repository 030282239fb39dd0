//! The `--fields` micro-DSL: `[*]name:Type[?]`, comma-separated.
//!
//! A leading `*` marks the primary key, a trailing `?` a nullable column.
//! Parsing is fail-fast: the first invalid token decides the error.

use vstd::prelude::*;

use crate::error::{Detail, ErrorEnvelope, Kind, detail_is_text};
use crate::strmap::StrMap;
use crate::text::{
    to_chars, trim, trim_range, find_first, find_first_in, split_char, split_ranges,
    string_of_range, owned, concat2, str_eq, trim_start, trim_end, is_ws, lemma_find_first,
};

verus! {

/// One field from the `--fields` DSL or the JSON loader.
pub struct Field {
    pub name: String,
    pub ty: String,
    pub is_pk: bool,
    pub nullable: bool,
}

/// A field as plain values: name, type, primary key, nullable.
pub type FieldView = (Seq<char>, Seq<char>, bool, bool);

impl View for Field {
    type V = FieldView;

    open spec fn view(&self) -> FieldView {
        (self.name@, self.ty@, self.is_pk, self.nullable)
    }
}

/// The plain values of a list of fields.
pub open spec fn field_views(fs: Seq<Field>) -> Seq<FieldView> {
    fs.map_values(|f: Field| f@)
}

impl Field {
    /// A copy of this field.
    pub fn dup(&self) -> (r: Field)
        ensures
            r@ == self@,
    {
        Field {
            name: self.name.clone(),
            ty: self.ty.clone(),
            is_pk: self.is_pk,
            nullable: self.nullable,
        }
    }
}

// ---------------------------------------------------------------------------
// Identifiers and reserved names
// ---------------------------------------------------------------------------

pub open spec fn is_ascii_alpha(c: char) -> bool {
    ('a' <= c <= 'z') || ('A' <= c <= 'Z')
}

pub open spec fn is_ascii_alnum(c: char) -> bool {
    is_ascii_alpha(c) || ('0' <= c <= '9')
}

/// An ASCII letter followed by ASCII letters, digits or `_`.
pub open spec fn valid_identifier(s: Seq<char>) -> bool {
    &&& s.len() > 0
    &&& is_ascii_alpha(s[0])
    &&& forall|i: int| 1 <= i < s.len() ==> is_ascii_alnum(#[trigger] s[i]) || s[i] == '_'
}

/// `valid_identifier` on `v[lo..hi]`.
pub fn valid_identifier_range(v: &Vec<char>, lo: usize, hi: usize) -> (r: bool)
    requires
        lo <= hi <= v@.len(),
    ensures
        r == valid_identifier(v@.subrange(lo as int, hi as int)),
{
    let ghost s = v@.subrange(lo as int, hi as int);
    if lo == hi {
        return false;
    }
    let c0 = v[lo];
    if !(('a' <= c0 && c0 <= 'z') || ('A' <= c0 && c0 <= 'Z')) {
        return false;
    }
    let mut i: usize = lo + 1;
    while i < hi
        invariant
            lo < i <= hi,
            hi <= v@.len(),
            s == v@.subrange(lo as int, hi as int),
            forall|k: int| 1 <= k < i - lo ==> is_ascii_alnum(#[trigger] s[k]) || s[k] == '_',
        decreases hi - i,
    {
        let c = v[i];
        assert(s[i - lo] == c);
        if !(('a' <= c && c <= 'z') || ('A' <= c && c <= 'Z') || ('0' <= c && c <= '9') || c
            == '_') {
            return false;
        }
        i = i + 1;
    }
    true
}

/// Names the template context defines itself; fields and project variables
/// may not take them.
pub open spec fn is_reserved_variable(s: Seq<char>) -> bool {
    ||| s == "model"@ || s == "table"@ || s == "table_comment"@ || s == "package"@
    ||| s == "package_path"@ || s == "fields"@ || s == "model_snake"@ || s == "model_pascal"@
    ||| s == "model_camel"@ || s == "model_kebab"@ || s == "user_name"@ || s == "user_email"@
    ||| s == "git_user_name"@ || s == "git_user_email"@ || s == "date"@ || s == "datetime"@
    ||| s == "year"@ || s == "is_sub"@ || s == "sub_table"@ || s == "sub_table_comment"@
    ||| s == "sub_fields"@ || s == "sub_model"@ || s == "sub_model_snake"@
    ||| s == "sub_model_pascal"@ || s == "sub_model_camel"@ || s == "sub_model_kebab"@
    ||| s == "sub_model_fk"@ || s == "sub_model_fk_pascal"@ || s == "pk_field"@
    ||| s == "pk_field_type"@ || s == "pk_field_pascal"@
}

/// Whether `name` is one of the reserved context names.
pub fn is_reserved_variable_name(name: &str) -> (r: bool)
    ensures
        r == is_reserved_variable(name@),
{
    str_eq(name, "model") || str_eq(name, "table") || str_eq(name, "table_comment") || str_eq(
        name,
        "package",
    ) || str_eq(name, "package_path") || str_eq(name, "fields") || str_eq(name, "model_snake")
        || str_eq(name, "model_pascal") || str_eq(name, "model_camel") || str_eq(
        name,
        "model_kebab",
    ) || str_eq(name, "user_name") || str_eq(name, "user_email") || str_eq(
        name,
        "git_user_name",
    ) || str_eq(name, "git_user_email") || str_eq(name, "date") || str_eq(name, "datetime")
        || str_eq(name, "year") || str_eq(name, "is_sub") || str_eq(name, "sub_table") || str_eq(
        name,
        "sub_table_comment",
    ) || str_eq(name, "sub_fields") || str_eq(name, "sub_model") || str_eq(
        name,
        "sub_model_snake",
    ) || str_eq(name, "sub_model_pascal") || str_eq(name, "sub_model_camel") || str_eq(
        name,
        "sub_model_kebab",
    ) || str_eq(name, "sub_model_fk") || str_eq(name, "sub_model_fk_pascal") || str_eq(
        name,
        "pk_field",
    ) || str_eq(name, "pk_field_type") || str_eq(name, "pk_field_pascal")
}

// ---------------------------------------------------------------------------
// Errors
// ---------------------------------------------------------------------------

/// Why a `--fields` value was refused.
pub enum FieldIssue {
    EmptyType,
    EmptyName,
    InvalidIdentifier,
    TooManySegments,
    Duplicate,
    NoFields,
    Reserved(Seq<char>),
}

pub open spec fn issue_reason(i: FieldIssue) -> Seq<char> {
    match i {
        FieldIssue::EmptyType => "empty_type"@,
        FieldIssue::EmptyName => "empty_name"@,
        FieldIssue::InvalidIdentifier => "invalid_identifier"@,
        FieldIssue::TooManySegments => "too_many_segments"@,
        FieldIssue::Duplicate => "duplicate_field"@,
        FieldIssue::NoFields => "no_fields"@,
        FieldIssue::Reserved(_) => "reserved_field_name"@,
    }
}

pub open spec fn issue_message(i: FieldIssue) -> Seq<char> {
    match i {
        FieldIssue::EmptyType => "field missing type"@,
        FieldIssue::EmptyName => "field missing name"@,
        FieldIssue::InvalidIdentifier => "invalid field name"@,
        FieldIssue::TooManySegments => "too many colons in field token"@,
        FieldIssue::Duplicate => "duplicate field name"@,
        FieldIssue::NoFields => "no fields provided"@,
        FieldIssue::Reserved(n) => "reserved field name: "@ + n,
    }
}

/// The message-catalog key of each issue's hint.
pub open spec fn issue_hint(i: FieldIssue) -> Seq<char> {
    match i {
        FieldIssue::EmptyType => "error.field.empty_type"@,
        FieldIssue::EmptyName => "error.field.empty_name"@,
        FieldIssue::InvalidIdentifier => "error.field.invalid_identifier"@,
        FieldIssue::TooManySegments => "error.field.too_many_segments"@,
        FieldIssue::Duplicate => "error.field.duplicate"@,
        FieldIssue::NoFields => "error.field.no_fields"@,
        FieldIssue::Reserved(_) => "error.field.reserved"@,
    }
}

/// `e` is the user error that reports issue `i`.
pub open spec fn is_issue_error(e: ErrorEnvelope, i: FieldIssue) -> bool {
    &&& e.is_kind(Kind::UserError)
    &&& e.msg@ == issue_message(i)
    &&& e.hint@ == issue_hint(i)
    &&& e.hint_args@.len() == 0
    &&& e.has_reason(issue_reason(i))
    &&& match i {
        FieldIssue::Reserved(n) => e.details@.dom() == set!["name"@, "reason"@] && detail_is_text(
            e.details@["name"@],
            n,
        ),
        _ => e.details@.dom() == set!["reason"@],
    }
}

fn simple_issue(msg: &str, reason: &str, hint: &str) -> (e: ErrorEnvelope)
    ensures
        e.is_kind(Kind::UserError),
        e.msg@ == msg@,
        e.hint@ == hint@,
        e.hint_args@.len() == 0,
        e.has_reason(reason@),
        e.details@.dom() == set!["reason"@],
{
    let e = ErrorEnvelope::user_error_with_reason(owned(msg), reason, StrMap::new(), owned(hint));
    assert(e.details@.dom() =~= set!["reason"@]);
    e
}

fn err_empty_type() -> (e: ErrorEnvelope)
    ensures
        is_issue_error(e, FieldIssue::EmptyType),
{
    simple_issue("field missing type", "empty_type", "error.field.empty_type")
}

fn err_empty_name() -> (e: ErrorEnvelope)
    ensures
        is_issue_error(e, FieldIssue::EmptyName),
{
    simple_issue("field missing name", "empty_name", "error.field.empty_name")
}

fn err_invalid_identifier() -> (e: ErrorEnvelope)
    ensures
        is_issue_error(e, FieldIssue::InvalidIdentifier),
{
    simple_issue("invalid field name", "invalid_identifier", "error.field.invalid_identifier")
}

fn err_too_many_segments() -> (e: ErrorEnvelope)
    ensures
        is_issue_error(e, FieldIssue::TooManySegments),
{
    simple_issue(
        "too many colons in field token",
        "too_many_segments",
        "error.field.too_many_segments",
    )
}

fn err_duplicate_field() -> (e: ErrorEnvelope)
    ensures
        is_issue_error(e, FieldIssue::Duplicate),
{
    simple_issue("duplicate field name", "duplicate_field", "error.field.duplicate")
}

fn err_no_fields() -> (e: ErrorEnvelope)
    ensures
        is_issue_error(e, FieldIssue::NoFields),
{
    simple_issue("no fields provided", "no_fields", "error.field.no_fields")
}

fn err_reserved_field_name(name: &str) -> (e: ErrorEnvelope)
    ensures
        is_issue_error(e, FieldIssue::Reserved(name@)),
{
    proof {
        reveal_strlit("name");
        reveal_strlit("reason");
        assert("name"@[0] != "reason"@[0]);
    }
    let mut details: StrMap<Detail> = StrMap::new();
    details.insert(owned("name"), Detail::Text(owned(name)));
    let e = ErrorEnvelope::user_error_with_reason(
        concat2("reserved field name: ", name),
        "reserved_field_name",
        details,
        owned("error.field.reserved"),
    );
    assert(e.details@.dom() =~= set!["name"@, "reason"@]);
    e
}

// ---------------------------------------------------------------------------
// Grammar
// ---------------------------------------------------------------------------

/// What one comma-separated token contributes.
pub enum TokenOutcome {
    /// Blank token: ignored.
    Skip,
    Bad(FieldIssue),
    Good(FieldView),
}

/// The meaning of one raw token (before trimming).
pub open spec fn token_outcome(raw: Seq<char>) -> TokenOutcome {
    let token = trim(raw);
    if token.len() == 0 {
        TokenOutcome::Skip
    } else {
        let pk = token[0] == '*';
        let rest = if pk {
            token.drop_first()
        } else {
            token
        };
        match find_first(rest, ':') {
            None => TokenOutcome::Bad(
                if rest.len() == 0 {
                    FieldIssue::EmptyName
                } else {
                    FieldIssue::EmptyType
                },
            ),
            Some(c) => {
                let name = trim(rest.take(c));
                let after = trim(rest.skip(c + 1));
                if find_first(after, ':') is Some {
                    TokenOutcome::Bad(FieldIssue::TooManySegments)
                } else {
                    let nullable = after.len() > 0 && after.last() == '?';
                    let ty = if nullable {
                        trim(after.drop_last())
                    } else {
                        after
                    };
                    if name.len() == 0 {
                        TokenOutcome::Bad(FieldIssue::EmptyName)
                    } else if ty.len() == 0 {
                        TokenOutcome::Bad(FieldIssue::EmptyType)
                    } else if !valid_identifier(name) {
                        TokenOutcome::Bad(FieldIssue::InvalidIdentifier)
                    } else if is_reserved_variable(name) {
                        TokenOutcome::Bad(FieldIssue::Reserved(name))
                    } else {
                        TokenOutcome::Good((name, ty, pk, nullable))
                    }
                }
            },
        }
    }
}

/// Some field in `acc` is named `name`.
pub open spec fn has_field_named(acc: Seq<FieldView>, name: Seq<char>) -> bool {
    exists|j: int| 0 <= j < acc.len() && (#[trigger] acc[j]).0 == name
}

/// Tokens taken left to right after the fields `acc` already accepted.
pub open spec fn parse_tokens(toks: Seq<Seq<char>>, acc: Seq<FieldView>) -> Result<
    Seq<FieldView>,
    FieldIssue,
>
    decreases toks.len(),
{
    if toks.len() == 0 {
        Ok(acc)
    } else {
        match token_outcome(toks[0]) {
            TokenOutcome::Skip => parse_tokens(toks.drop_first(), acc),
            TokenOutcome::Bad(i) => Err(i),
            TokenOutcome::Good(f) => if has_field_named(acc, f.0) {
                Err(FieldIssue::Duplicate)
            } else {
                parse_tokens(toks.drop_first(), acc.push(f))
            },
        }
    }
}

/// The fields a `--fields` value describes, or the first issue in it.
pub open spec fn fields_of(src: Seq<char>) -> Result<Seq<FieldView>, FieldIssue> {
    let t = trim(src);
    if t.len() == 0 {
        Err(FieldIssue::NoFields)
    } else {
        match parse_tokens(split_char(t, ','), seq![]) {
            Ok(fs) => if fs.len() == 0 {
                Err(FieldIssue::NoFields)
            } else {
                Ok(fs)
            },
            Err(i) => Err(i),
        }
    }
}

/// Parses the token `v[a..b]`.
fn parse_token(v: &Vec<char>, a: usize, b: usize) -> (r: Result<Option<Field>, ErrorEnvelope>)
    requires
        a <= b <= v@.len(),
    ensures
        match token_outcome(v@.subrange(a as int, b as int)) {
            TokenOutcome::Skip => r matches Ok(None),
            TokenOutcome::Good(f) => r matches Ok(Some(x)) && x@ == f,
            TokenOutcome::Bad(i) => r matches Err(e) && is_issue_error(e, i),
        },
{
    let (tlo, thi) = trim_range(v, a, b);
    let ghost token = v@.subrange(tlo as int, thi as int);
    if tlo == thi {
        return Ok(None);
    }
    assert(token[0] == v@[tlo as int]);
    let pk = v[tlo] == '*';
    let rlo = if pk {
        tlo + 1
    } else {
        tlo
    };
    let ghost rest = v@.subrange(rlo as int, thi as int);
    assert(rest =~= if pk {
        token.drop_first()
    } else {
        token
    });
    match find_first_in(v, rlo, thi, ':') {
        None => {
            if rlo == thi {
                Err(err_empty_name())
            } else {
                Err(err_empty_type())
            }
        },
        Some(c) => {
            let ghost ci = (c - rlo) as int;
            assert(rest.take(ci) =~= v@.subrange(rlo as int, c as int));
            assert(rest.skip(ci + 1) =~= v@.subrange(c + 1, thi as int));
            let (nlo, nhi) = trim_range(v, rlo, c);
            let (alo, ahi) = trim_range(v, c + 1, thi);
            let ghost after = v@.subrange(alo as int, ahi as int);
            if find_first_in(v, alo, ahi, ':').is_some() {
                return Err(err_too_many_segments());
            }
            let nullable = alo < ahi && v[ahi - 1] == '?';
            if alo < ahi {
                assert(after.last() == v@[ahi - 1]);
            }
            let (tylo, tyhi) = if nullable {
                assert(after.drop_last() =~= v@.subrange(alo as int, ahi - 1));
                trim_range(v, alo, ahi - 1)
            } else {
                (alo, ahi)
            };
            if nlo == nhi {
                return Err(err_empty_name());
            }
            if tylo == tyhi {
                return Err(err_empty_type());
            }
            if !valid_identifier_range(v, nlo, nhi) {
                return Err(err_invalid_identifier());
            }
            let name = string_of_range(v, nlo, nhi);
            if is_reserved_variable_name(name.as_str()) {
                return Err(err_reserved_field_name(name.as_str()));
            }
            let ty = string_of_range(v, tylo, tyhi);
            Ok(Some(Field { name, ty, is_pk: pk, nullable }))
        },
    }
}

/// Whether some field of `fs` is named `name`.
fn contains_field_named(fs: &Vec<Field>, name: &str) -> (r: bool)
    ensures
        r == has_field_named(field_views(fs@), name@),
{
    let mut i: usize = 0;
    while i < fs.len()
        invariant
            i <= fs@.len(),
            forall|j: int| 0 <= j < i ==> (#[trigger] fs@[j]).name@ != name@,
        decreases fs@.len() - i,
    {
        if str_eq(fs[i].name.as_str(), name) {
            assert(field_views(fs@)[i as int].0 == name@);
            return true;
        }
        i = i + 1;
    }
    assert forall|j: int| 0 <= j < field_views(fs@).len() implies (#[trigger] field_views(
        fs@,
    )[j]).0 != name@ by {
        assert(field_views(fs@)[j] == fs@[j]@);
    }
    false
}

/// Parses a `--fields` value (`[*]name:Type[?]`, comma-separated) into
/// fields. Blank tokens are skipped; the first invalid token decides the
/// error.
pub fn parse_fields(src: &str) -> (r: Result<Vec<Field>, ErrorEnvelope>)
    ensures
        match fields_of(src@) {
            Ok(fs) => r matches Ok(v) && field_views(v@) == fs,
            Err(i) => r matches Err(e) && is_issue_error(e, i),
        },
{
    let v = to_chars(src);
    let (lo, hi) = trim_range(&v, 0, v.len());
    assert(v@.subrange(0, v@.len() as int) =~= src@);
    if lo == hi {
        return Err(err_no_fields());
    }
    let toks = split_ranges(&v, lo, hi, ',');
    let ghost ts = split_char(v@.subrange(lo as int, hi as int), ',');
    let mut out: Vec<Field> = Vec::new();
    let mut k: usize = 0;
    assert(ts.skip(0) =~= ts);
    assert(field_views(out@) =~= Seq::<FieldView>::empty());
    while k < toks.len()
        invariant
            lo < hi <= v@.len(),
            v@.subrange(lo as int, hi as int) == trim(src@),
            ts == split_char(v@.subrange(lo as int, hi as int), ','),
            toks@.len() == ts.len(),
            forall|j: int|
                0 <= j < toks@.len() ==> lo <= (#[trigger] toks@[j]).0 <= toks@[j].1 <= hi
                    && v@.subrange(toks@[j].0 as int, toks@[j].1 as int) == ts[j],
            k <= ts.len(),
            parse_tokens(ts, seq![]) == parse_tokens(ts.skip(k as int), field_views(out@)),
        decreases ts.len() - k,
    {
        let (a, b) = toks[k];
        let ghost rest = ts.skip(k as int);
        assert(rest[0] == ts[k as int]);
        assert(rest.drop_first() =~= ts.skip(k + 1));
        assert(toks@[k as int] == (a, b));
        match parse_token(&v, a, b) {
            Err(e) => {
                return Err(e);
            },
            Ok(None) => {},
            Ok(Some(f)) => {
                if contains_field_named(&out, f.name.as_str()) {
                    return Err(err_duplicate_field());
                }
                let ghost before = out@;
                out.push(f);
                assert(field_views(out@) =~= field_views(before).push(f@));
            },
        }
        k = k + 1;
    }
    assert(ts.skip(k as int) =~= Seq::<Seq<char>>::empty());
    if out.len() == 0 {
        return Err(err_no_fields());
    }
    Ok(out)
}


/// Every field is a non-reserved identifier with a non-empty type, and no
/// two fields share a name.
pub open spec fn well_formed_fields(fs: Seq<FieldView>) -> bool {
    &&& forall|i: int|
        0 <= i < fs.len() ==> valid_identifier((#[trigger] fs[i]).0) && fs[i].1.len() > 0
            && !is_reserved_variable(fs[i].0)
    &&& forall|i: int, j: int| 0 <= i < j < fs.len() ==> (#[trigger] fs[i]).0 != (#[trigger] fs[j]).0
}

proof fn lemma_token_good(raw: Seq<char>)
    ensures
        token_outcome(raw) matches TokenOutcome::Good(f) ==> valid_identifier(f.0) && f.1.len() > 0
            && !is_reserved_variable(f.0),
{
}

proof fn lemma_parse_tokens_well_formed(toks: Seq<Seq<char>>, acc: Seq<FieldView>)
    requires
        well_formed_fields(acc),
    ensures
        parse_tokens(toks, acc) matches Ok(fs) ==> well_formed_fields(fs),
    decreases toks.len(),
{
    if toks.len() > 0 {
        lemma_token_good(toks[0]);
        match token_outcome(toks[0]) {
            TokenOutcome::Skip => lemma_parse_tokens_well_formed(toks.drop_first(), acc),
            TokenOutcome::Bad(_) => {},
            TokenOutcome::Good(f) => {
                if !has_field_named(acc, f.0) {
                    let next = acc.push(f);
                    assert forall|i: int, j: int| 0 <= i < j < next.len() implies (#[trigger] next[i]).0
                        != (#[trigger] next[j]).0 by {
                        if j == acc.len() {
                            assert(acc[i] == next[i]);
                            if acc[i].0 == f.0 {
                                assert(has_field_named(acc, f.0));
                            }
                        }
                    }
                    lemma_parse_tokens_well_formed(toks.drop_first(), next);
                }
            },
        }
    }
}

/// Whatever `parse_fields` accepts is a list of distinct, non-reserved
/// identifiers, each with a non-empty type.
pub proof fn lemma_parsed_fields_well_formed(src: Seq<char>)
    ensures
        fields_of(src) matches Ok(fs) ==> well_formed_fields(fs),
{
    lemma_parse_tokens_well_formed(split_char(trim(src), ','), seq![]);
}


/// A field token marks a primary key exactly when it starts with `*`: a
/// token that parses gives a field whose `is_pk` says whether its trimmed
/// text starts with `*`.
pub proof fn lemma_pk_marker(raw: Seq<char>)
    ensures
        token_outcome(raw) matches TokenOutcome::Good(f) ==> trim(raw).len() > 0 && f.2 == (trim(raw)[0]
            == '*'),
{
}


proof fn lemma_trim_end_last(y: Seq<char>)
    ensures
        trim_end(y).len() > 0 ==> !is_ws(trim_end(y).last()),
        y.len() > 0 && !is_ws(y.last()) ==> trim_end(y) == y,
    decreases y.len(),
{
    if y.len() > 0 && is_ws(y.last()) {
        lemma_trim_end_last(y.drop_last());
    }
}

proof fn lemma_trim_start_last(x: Seq<char>)
    requires
        x.len() > 0,
        !is_ws(x.last()),
    ensures
        trim_start(x).len() > 0,
        trim_start(x).last() == x.last(),
    decreases x.len(),
{
    if is_ws(x[0]) {
        assert(x.len() > 1);
        assert(x.drop_first().last() == x.last());
        lemma_trim_start_last(x.drop_first());
    }
}

/// Trimming keeps a last character that is not whitespace.
proof fn lemma_trim_keeps_last(x: Seq<char>)
    requires
        x.len() > 0,
        !is_ws(x.last()),
    ensures
        trim(x).len() > 0,
        trim(x).last() == x.last(),
{
    lemma_trim_start_last(x);
    lemma_trim_end_last(trim_start(x));
}

/// A field token marks its field nullable exactly when it ends with `?`.
pub proof fn lemma_nullable_marker(raw: Seq<char>)
    ensures
        token_outcome(raw) matches TokenOutcome::Good(f) ==> f.3 == (trim(raw).last() == '?'),
{
    let token = trim(raw);
    if token_outcome(raw) is Good {
        lemma_trim_end_last(trim_start(raw));
        let pk = token[0] == '*';
        let rest = if pk {
            token.drop_first()
        } else {
            token
        };
        lemma_find_first(rest, ':');
        let c = find_first(rest, ':')->0;
        let x = rest.skip(c + 1);
        if x.len() > 0 {
            assert(x.last() == token.last());
            lemma_trim_keeps_last(x);
        }
    }
}

} // verus!
