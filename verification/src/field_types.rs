//! `_field_types.toml`: the field types a template set accepts, with
//! aliases that normalize to canonical names before rendering.

use vstd::prelude::*;

use crate::error::{Detail, ErrorEnvelope, Kind, detail_is_text};
use crate::field_dsl::{Field, FieldView, field_views, is_reserved_variable, is_reserved_variable_name};
use crate::i18n::CatalogMessage;
use crate::paths::{join_path, path_join};
use crate::strmap::{StrMap, text_view, lemma_text_view_insert, lemma_text_view_empty, strictly_sorted};
use crate::suggest::{closest_candidate, distances, is_closest, none_close};
use crate::text::{to_chars, trim, trim_range, owned, concat2, join_strings, join_with, string_views};

verus! {

broadcast use lemma_text_view_insert, lemma_text_view_empty;

/// File name of the field-type schema, relative to a template bundle root.
pub const SCHEMA_FILE_NAME: &'static str = "_field_types.toml";

/// One declared field type.
pub struct FieldTypeDef {
    pub description: String,
    pub aliases: Vec<String>,
}

/// Canonical type name to declaration, with the alias lookup built from it.
pub struct FieldTypeSchema {
    pub types: StrMap<FieldTypeDef>,
    pub alias_to_canonical: StrMap<String>,
}

impl FieldTypeSchema {
    /// Alias to canonical name.
    pub open spec fn alias_map(&self) -> Map<Seq<char>, Seq<char>> {
        text_view(self.alias_to_canonical@)
    }

    /// The schema of a template set without `_field_types.toml`.
    pub fn empty() -> (s: FieldTypeSchema)
        ensures
            s.types@.dom().len() == 0,
            s.alias_map() == Map::<Seq<char>, Seq<char>>::empty(),
    {
        FieldTypeSchema { types: StrMap::new(), alias_to_canonical: StrMap::new() }
    }

    /// No type is declared.
    pub fn is_empty(&self) -> (b: bool)
        ensures
            b == (self.types@.dom().len() == 0),
    {
        self.types.is_empty()
    }

    /// The canonical type names, in ascending order.
    pub fn canonical_names(&self) -> (r: Vec<String>)
        ensures
            string_views(r@) == self.types.key_seq(),
    {
        let r = self.types.keys();
        assert(string_views(r@) =~= r@.map_values(|k: String| k@));
        r
    }
}

/// `<templates_root>/_field_types.toml`.
pub fn schema_path(templates_root: &str) -> (r: String)
    ensures
        r@ == join_path(templates_root@, "_field_types.toml"@),
{
    path_join(templates_root, SCHEMA_FILE_NAME)
}

// ---------------------------------------------------------------------------
// Building the schema
// ---------------------------------------------------------------------------

/// Why a `_field_types.toml` was refused.
pub enum SchemaIssue {
    EmptyName,
    ReservedName(Seq<char>),
    MissingDescription(Seq<char>),
    EmptyAlias(Seq<char>),
    AliasIsCanonical(Seq<char>),
    AliasCollides(Seq<char>, Seq<char>),
    AliasTwice(Seq<char>, Seq<char>, Seq<char>),
}

pub open spec fn schema_issue_message(i: SchemaIssue) -> Seq<char> {
    match i {
        SchemaIssue::EmptyName => "field type name must not be empty"@,
        SchemaIssue::ReservedName(c) => "field type "@ + c + " shadows a built-in variable"@,
        SchemaIssue::MissingDescription(c) => "field type "@ + c
            + ": description must not be empty"@,
        SchemaIssue::EmptyAlias(c) => "field type "@ + c + ": alias must not be empty"@,
        SchemaIssue::AliasIsCanonical(c) => "field type "@ + c
            + ": alias must differ from canonical name"@,
        SchemaIssue::AliasCollides(c, a) => "field type "@ + c + ": alias `"@ + a
            + "` collides with a canonical name"@,
        SchemaIssue::AliasTwice(a, prev, c) => "alias `"@ + a + "` is declared for both "@ + prev
            + " and "@ + c,
    }
}

pub open spec fn schema_issue_reason(i: SchemaIssue) -> Seq<char> {
    match i {
        SchemaIssue::EmptyName => "schema_empty_name"@,
        SchemaIssue::ReservedName(_) => "schema_reserved_name"@,
        SchemaIssue::MissingDescription(_) => "schema_missing_description"@,
        SchemaIssue::EmptyAlias(_) => "schema_empty_alias"@,
        SchemaIssue::AliasIsCanonical(_) => "schema_alias_equals_canonical"@,
        SchemaIssue::AliasCollides(_, _) => "schema_duplicate_alias"@,
        SchemaIssue::AliasTwice(_, _, _) => "schema_duplicate_alias"@,
    }
}

/// `e` is the template error that reports schema issue `i`.
pub open spec fn is_schema_error(e: ErrorEnvelope, i: SchemaIssue) -> bool {
    &&& e.is_kind(Kind::TemplateError)
    &&& e.msg@ == schema_issue_message(i)
    &&& e.hint@ == "error.field_type.schema_fix"@
    &&& e.hint_args@.len() == 0
    &&& e.has_reason(schema_issue_reason(i))
    &&& e.details@.dom() == set!["reason"@]
}

/// Registers the aliases `als` of canonical type `c` on top of `acc`.
pub open spec fn check_aliases(
    canon: Set<Seq<char>>,
    c: Seq<char>,
    als: Seq<Seq<char>>,
    acc: Map<Seq<char>, Seq<char>>,
) -> Result<Map<Seq<char>, Seq<char>>, SchemaIssue>
    decreases als.len(),
{
    if als.len() == 0 {
        Ok(acc)
    } else {
        let a = als[0];
        if trim(a).len() == 0 {
            Err(SchemaIssue::EmptyAlias(c))
        } else if a == c {
            Err(SchemaIssue::AliasIsCanonical(c))
        } else if canon.contains(a) {
            Err(SchemaIssue::AliasCollides(c, a))
        } else if acc.contains_key(a) {
            Err(SchemaIssue::AliasTwice(a, acc[a], c))
        } else {
            check_aliases(canon, c, als.drop_first(), acc.insert(a, c))
        }
    }
}

/// Checks the declarations in key order and builds the alias map.
pub open spec fn check_entries(
    canon: Set<Seq<char>>,
    names: Seq<Seq<char>>,
    defs: Seq<FieldTypeDef>,
    acc: Map<Seq<char>, Seq<char>>,
) -> Result<Map<Seq<char>, Seq<char>>, SchemaIssue>
    decreases names.len(),
{
    if names.len() == 0 {
        Ok(acc)
    } else {
        let c = names[0];
        if trim(c).len() == 0 {
            Err(SchemaIssue::EmptyName)
        } else if is_reserved_variable(c) {
            Err(SchemaIssue::ReservedName(c))
        } else if trim(defs[0].description@).len() == 0 {
            Err(SchemaIssue::MissingDescription(c))
        } else {
            match check_aliases(canon, c, string_views(defs[0].aliases@), acc) {
                Ok(m) => check_entries(canon, names.drop_first(), defs.drop_first(), m),
                Err(i) => Err(i),
            }
        }
    }
}

/// The alias map a parsed `_field_types.toml` yields, or its first issue.
pub open spec fn schema_outcome(parsed: StrMap<FieldTypeDef>) -> Result<
    Map<Seq<char>, Seq<char>>,
    SchemaIssue,
> {
    check_entries(parsed@.dom(), parsed.key_seq(), parsed.val_seq(), Map::empty())
}

/// A schema error with `reason` in its details.
pub fn schema_error(msg: String, reason: &str) -> (e: ErrorEnvelope)
    ensures
        e.is_kind(Kind::TemplateError),
        e.msg@ == msg@,
        e.hint@ == "error.field_type.schema_fix"@,
        e.hint_args@.len() == 0,
        e.has_reason(reason@),
        e.details@.dom() == set!["reason"@],
{
    let mut details: StrMap<Detail> = StrMap::new();
    details.insert(owned("reason"), Detail::Text(owned(reason)));
    assert(details@.dom() =~= set!["reason"@]);
    ErrorEnvelope::template_error_with_reason(msg, details, owned("error.field_type.schema_fix"))
}

/// `a ++ b ++ c` as a new string.
fn concat3(a: &str, b: &str, c: &str) -> (r: String)
    ensures
        r@ == a@ + b@ + c@,
{
    let ab = concat2(a, b);
    concat2(ab.as_str(), c)
}

fn blank(s: &str) -> (b: bool)
    ensures
        b == (trim(s@).len() == 0),
{
    let v = to_chars(s);
    let (lo, hi) = trim_range(&v, 0, v.len());
    assert(v@.subrange(0, v@.len() as int) =~= s@);
    lo == hi
}

fn add_aliases(
    parsed: &StrMap<FieldTypeDef>,
    c: &str,
    als: &Vec<String>,
    acc: &mut StrMap<String>,
) -> (r: Result<(), ErrorEnvelope>)
    ensures
        match check_aliases(parsed@.dom(), c@, string_views(als@), text_view(old(acc)@)) {
            Ok(m) => r is Ok && text_view(final(acc)@) == m,
            Err(i) => r matches Err(e) && is_schema_error(e, i),
        },
{
    let ghost all = string_views(als@);
    let mut j: usize = 0;
    assert(all.skip(0) =~= all);
    while j < als.len()
        invariant
            all == string_views(als@),
            j <= als@.len(),
            check_aliases(parsed@.dom(), c@, all, text_view(old(acc)@)) == check_aliases(
                parsed@.dom(),
                c@,
                all.skip(j as int),
                text_view(acc@),
            ),
        decreases als@.len() - j,
    {
        let a = &als[j];
        let ghost rest = all.skip(j as int);
        assert(rest[0] == a@);
        assert(rest.drop_first() =~= all.skip(j + 1));
        if blank(a.as_str()) {
            return Err(
                schema_error(concat3("field type ", c, ": alias must not be empty"), "schema_empty_alias"),
            );
        }
        if crate::text::str_eq(a.as_str(), c) {
            return Err(
                schema_error(
                    concat3("field type ", c, ": alias must differ from canonical name"),
                    "schema_alias_equals_canonical",
                ),
            );
        }
        if parsed.contains_key(a.as_str()) {
            let head = concat3("field type ", c, ": alias `");
            return Err(
                schema_error(
                    concat3(head.as_str(), a.as_str(), "` collides with a canonical name"),
                    "schema_duplicate_alias",
                ),
            );
        }
        match acc.get(a.as_str()) {
            Some(prev) => {
                let head = concat3("alias `", a.as_str(), "` is declared for both ");
                let mid = concat3(head.as_str(), prev.as_str(), " and ");
                return Err(schema_error(concat2(mid.as_str(), c), "schema_duplicate_alias"));
            },
            None => {},
        }
        acc.insert(a.clone(), owned(c));
        j = j + 1;
    }
    assert(all.skip(j as int) =~= Seq::<Seq<char>>::empty());
    Ok(())
}

/// Validates a parsed `_field_types.toml` (canonical name to declaration)
/// and builds its alias lookup. Declarations are checked in ascending name
/// order; the first issue is reported.
pub fn build_schema(parsed: StrMap<FieldTypeDef>) -> (r: Result<FieldTypeSchema, ErrorEnvelope>)
    ensures
        match schema_outcome(parsed) {
            Ok(m) => r matches Ok(s) && s.types@ == parsed@ && s.alias_map() == m,
            Err(i) => r matches Err(e) && is_schema_error(e, i),
        },
{
    parsed.wf_facts();
    let ghost names = parsed.key_seq();
    let ghost defs = parsed.val_seq();
    let mut acc: StrMap<String> = StrMap::new();
    let mut i: usize = 0;
    assert(names.skip(0) =~= names);
    assert(defs.skip(0) =~= defs);
    while i < parsed.len()
        invariant
            names == parsed.key_seq(),
            defs == parsed.val_seq(),
            names.len() == defs.len(),
            i <= names.len(),
            schema_outcome(parsed) == check_entries(
                parsed@.dom(),
                names.skip(i as int),
                defs.skip(i as int),
                text_view(acc@),
            ),
        decreases names.len() - i,
    {
        let c = parsed.key_at(i);
        let d = parsed.value_at(i);
        let ghost rn = names.skip(i as int);
        let ghost rd = defs.skip(i as int);
        assert(rn[0] == c@);
        assert(rd[0] == *d);
        assert(rn.drop_first() =~= names.skip(i + 1));
        assert(rd.drop_first() =~= defs.skip(i + 1));
        if blank(c.as_str()) {
            return Err(schema_error(owned("field type name must not be empty"), "schema_empty_name"));
        }
        if is_reserved_variable_name(c.as_str()) {
            return Err(
                schema_error(
                    concat3("field type ", c.as_str(), " shadows a built-in variable"),
                    "schema_reserved_name",
                ),
            );
        }
        if blank(d.description.as_str()) {
            return Err(
                schema_error(
                    concat3("field type ", c.as_str(), ": description must not be empty"),
                    "schema_missing_description",
                ),
            );
        }
        match add_aliases(&parsed, c.as_str(), &d.aliases, &mut acc) {
            Ok(()) => {},
            Err(e) => {
                return Err(e);
            },
        }
        i = i + 1;
    }
    Ok(FieldTypeSchema { types: parsed, alias_to_canonical: acc })
}


/// Every alias names a declared canonical type and is not itself one.
pub open spec fn aliases_resolve(canon: Set<Seq<char>>, m: Map<Seq<char>, Seq<char>>) -> bool {
    forall|a: Seq<char>| #[trigger] m.contains_key(a) ==> canon.contains(m[a]) && !canon.contains(a)
}

proof fn lemma_check_aliases_resolve(
    canon: Set<Seq<char>>,
    c: Seq<char>,
    als: Seq<Seq<char>>,
    acc: Map<Seq<char>, Seq<char>>,
)
    requires
        canon.contains(c),
        aliases_resolve(canon, acc),
    ensures
        check_aliases(canon, c, als, acc) matches Ok(m) ==> aliases_resolve(canon, m),
    decreases als.len(),
{
    if als.len() > 0 {
        let a = als[0];
        if trim(a).len() != 0 && a != c && !canon.contains(a) && !acc.contains_key(a) {
            let next = acc.insert(a, c);
            assert(aliases_resolve(canon, next));
            lemma_check_aliases_resolve(canon, c, als.drop_first(), next);
        }
    }
}

proof fn lemma_check_entries_resolve(
    canon: Set<Seq<char>>,
    names: Seq<Seq<char>>,
    defs: Seq<FieldTypeDef>,
    acc: Map<Seq<char>, Seq<char>>,
)
    requires
        forall|i: int| 0 <= i < names.len() ==> canon.contains(#[trigger] names[i]),
        aliases_resolve(canon, acc),
    ensures
        check_entries(canon, names, defs, acc) matches Ok(m) ==> aliases_resolve(canon, m),
    decreases names.len(),
{
    if names.len() > 0 {
        let c = names[0];
        assert(canon.contains(c));
        lemma_check_aliases_resolve(canon, c, string_views(defs[0].aliases@), acc);
        match check_aliases(canon, c, string_views(defs[0].aliases@), acc) {
            Ok(m) => {
                assert forall|i: int| 0 <= i < names.drop_first().len() implies canon.contains(
                    #[trigger] names.drop_first()[i],
                ) by {
                    assert(names.drop_first()[i] == names[i + 1]);
                }
                lemma_check_entries_resolve(canon, names.drop_first(), defs.drop_first(), m);
            },
            Err(_) => {},
        }
    }
}

/// In every schema `build_schema` accepts, each alias resolves to a declared
/// canonical type, and no alias is itself a canonical name.
pub proof fn lemma_schema_aliases_resolve(parsed: StrMap<FieldTypeDef>)
    requires
        parsed@.dom() == parsed.key_seq().to_set(),
    ensures
        schema_outcome(parsed) matches Ok(m) ==> aliases_resolve(parsed@.dom(), m),
{
    let names = parsed.key_seq();
    assert forall|i: int| 0 <= i < names.len() implies parsed@.dom().contains(#[trigger] names[i]) by {
        assert(names.to_set().contains(names[i]));
    }
    lemma_check_entries_resolve(parsed@.dom(), names, parsed.val_seq(), Map::empty());
}

// ---------------------------------------------------------------------------
// Normalizing field types
// ---------------------------------------------------------------------------

/// The canonical name of `ty`: itself when declared, else its alias target.
pub open spec fn resolve_type(s: FieldTypeSchema, ty: Seq<char>) -> Option<Seq<char>> {
    if s.types@.contains_key(ty) {
        Some(ty)
    } else if s.alias_map().contains_key(ty) {
        Some(s.alias_map()[ty])
    } else {
        None
    }
}

impl FieldTypeSchema {
    /// The canonical name of `ty`, if it is declared or an alias.
    pub fn resolve_canonical(&self, ty: &str) -> (r: Option<String>)
        ensures
            match resolve_type(*self, ty@) {
                Some(c) => r matches Some(x) && x@ == c,
                None => r is None,
            },
    {
        if self.types.contains_key(ty) {
            return Some(owned(ty));
        }
        match self.alias_to_canonical.get(ty) {
            Some(c) => Some(c.clone()),
            None => None,
        }
    }
}

/// The field with its type replaced by the canonical name.
pub open spec fn normalized(s: FieldTypeSchema, f: FieldView) -> FieldView {
    (f.0, resolve_type(s, f.1).unwrap(), f.2, f.3)
}

/// `args` holds `(name, value)` at position `i`.
pub open spec fn arg_at(args: Seq<(String, String)>, i: int, name: Seq<char>, value: Seq<char>) -> bool {
    args[i].0@ == name && args[i].1@ == value
}

/// `e` reports that field `name` has the undeclared type `ty`, listing the
/// `allowed` canonical names and suggesting the closest one within edit
/// distance 2.
pub open spec fn is_unsupported_error(
    e: ErrorEnvelope,
    name: Seq<char>,
    ty: Seq<char>,
    allowed: Seq<Seq<char>>,
) -> bool {
    let ds = distances(ty, allowed);
    let joined = join_with(allowed, ", "@);
    &&& e.is_kind(Kind::UserError)
    &&& e.msg@ == "unsupported field type: "@ + ty + " on field "@ + name
    &&& e.has_reason("unsupported_field_type"@)
    &&& e.details@.dom() == set!["field"@, "type"@, "allowed"@, "schema_file"@, "reason"@]
    &&& detail_is_text(e.details@["field"@], name)
    &&& detail_is_text(e.details@["type"@], ty)
    &&& (e.details@["allowed"@] matches Detail::List(v) && string_views(v@) == allowed)
    &&& detail_is_text(e.details@["schema_file"@], "_field_types.toml"@)
    &&& ({
        ||| exists|k: int|
            #[trigger] is_closest(ds, k) && e.hint@ == "error.field_type.unsupported_did_you_mean"@
                && e.hint_args@.len() == 4 && arg_at(e.hint_args@, 0, "name"@, name) && arg_at(
                e.hint_args@,
                1,
                "type"@,
                ty,
            ) && arg_at(e.hint_args@, 2, "candidate"@, allowed[k]) && arg_at(
                e.hint_args@,
                3,
                "allowed"@,
                joined,
            )
        ||| none_close(ds) && e.hint@ == "error.field_type.unsupported"@ && e.hint_args@.len() == 3
            && arg_at(e.hint_args@, 0, "name"@, name) && arg_at(e.hint_args@, 1, "type"@, ty)
            && arg_at(e.hint_args@, 2, "allowed"@, joined)
    })
}

proof fn lemma_unsupported_keys_distinct()
    ensures
        "field"@ != "type"@,
        "field"@ != "allowed"@,
        "field"@ != "schema_file"@,
        "field"@ != "reason"@,
        "type"@ != "allowed"@,
        "type"@ != "schema_file"@,
        "type"@ != "reason"@,
        "allowed"@ != "schema_file"@,
        "allowed"@ != "reason"@,
        "schema_file"@ != "reason"@,
{
    reveal_strlit("field");
    reveal_strlit("type");
    reveal_strlit("allowed");
    reveal_strlit("schema_file");
    reveal_strlit("reason");
    assert("field"@[0] != "type"@[0]);
    assert("field"@[0] != "allowed"@[0]);
    assert("field"@[0] != "schema_file"@[0]);
    assert("field"@[0] != "reason"@[0]);
    assert("type"@[0] != "allowed"@[0]);
    assert("type"@[0] != "schema_file"@[0]);
    assert("type"@[0] != "reason"@[0]);
    assert("allowed"@[0] != "schema_file"@[0]);
    assert("allowed"@[0] != "reason"@[0]);
    assert("schema_file"@[0] != "reason"@[0]);
}

/// The copy of each string.
pub(crate) fn dup_strings(v: &Vec<String>) -> (r: Vec<String>)
    ensures
        string_views(r@) == string_views(v@),
{
    let mut r: Vec<String> = Vec::new();
    let mut i: usize = 0;
    while i < v.len()
        invariant
            i <= v@.len(),
            string_views(r@) =~= string_views(v@).take(i as int),
        decreases v@.len() - i,
    {
        let ghost before = r@;
        r.push(v[i].clone());
        assert(string_views(r@) =~= string_views(before).push(v@[i as int]@));
        i = i + 1;
    }
    assert(string_views(v@).take(i as int) =~= string_views(v@));
    r
}

fn unsupported_type_error(field_name: &str, ty: &str, allowed: &Vec<String>) -> (e: ErrorEnvelope)
    ensures
        is_unsupported_error(e, field_name@, ty@, string_views(allowed@)),
{
    proof {
        lemma_unsupported_keys_distinct();
    }
    let mut details: StrMap<Detail> = StrMap::new();
    details.insert(owned("field"), Detail::Text(owned(field_name)));
    details.insert(owned("type"), Detail::Text(owned(ty)));
    details.insert(owned("allowed"), Detail::List(dup_strings(allowed)));
    details.insert(owned("schema_file"), Detail::Text(owned(SCHEMA_FILE_NAME)));
    let joined = join_strings(allowed, ", ");
    let (hint, args) = match closest_candidate(ty, allowed) {
        Some(k) => {
            assert(string_views(allowed@)[k as int] == allowed@[k as int]@);
            (
                owned("error.field_type.unsupported_did_you_mean"),
                vec![
                    (owned("name"), owned(field_name)),
                    (owned("type"), owned(ty)),
                    (owned("candidate"), allowed[k].clone()),
                    (owned("allowed"), joined),
                ],
            )
        },
        None => (
            owned("error.field_type.unsupported"),
            vec![
                (owned("name"), owned(field_name)),
                (owned("type"), owned(ty)),
                (owned("allowed"), joined),
            ],
        ),
    };
    let head = concat3("unsupported field type: ", ty, " on field ");
    let e = ErrorEnvelope::user_error_with_reason(
        concat2(head.as_str(), field_name),
        "unsupported_field_type",
        details,
        hint,
    );
    let e = e.with_hint_args(args);
    assert(e.details@.dom() =~= set!["field"@, "type"@, "allowed"@, "schema_file"@, "reason"@]);
    e
}

/// Checks each field type against the schema and replaces aliases by their
/// canonical names, in order; the first undeclared type is refused (fields
/// before it are already normalized, the rest untouched). An empty schema
/// accepts everything unchanged.
pub fn normalize_and_validate(schema: &FieldTypeSchema, fields: &mut Vec<Field>) -> (r: Result<
    (),
    ErrorEnvelope,
>)
    ensures
        field_views(final(fields)@).len() == field_views(old(fields)@).len(),
        schema.types@.dom().len() == 0 ==> r is Ok && field_views(final(fields)@) == field_views(
            old(fields)@,
        ),
        schema.types@.dom().len() > 0 ==> ((r is Ok <==> forall|j: int|
            0 <= j < old(fields)@.len() ==> resolve_type(*schema, (#[trigger] old(fields)@[j]).ty@)
                is Some)),
        schema.types@.dom().len() > 0 && r is Ok ==> forall|j: int|
            0 <= j < old(fields)@.len() ==> (#[trigger] final(fields)@[j])@ == normalized(
                *schema,
                old(fields)@[j]@,
            ),
        schema.types@.dom().len() > 0 ==> (r matches Err(e) ==> exists|k: int|
            0 <= k < old(fields)@.len() && resolve_type(*schema, old(fields)@[k].ty@) is None && (
            forall|j: int| 0 <= j < k ==> (#[trigger] final(fields)@[j])@ == normalized(
                *schema,
                old(fields)@[j]@,
            )) && (forall|j: int|
                k <= j < old(fields)@.len() ==> (#[trigger] final(fields)@[j])@ == old(
                    fields,
                )@[j]@) && is_unsupported_error(
                e,
                old(fields)@[k].name@,
                old(fields)@[k].ty@,
                schema.types.key_seq(),
            )),
{
    let ghost orig = fields@;
    if schema.is_empty() {
        assert(field_views(fields@) =~= field_views(orig));
        return Ok(());
    }
    let allowed = schema.canonical_names();
    let mut i: usize = 0;
    while i < fields.len()
        invariant
            orig == old(fields)@,
            i <= fields@.len(),
            fields@.len() == orig.len(),
            schema.types@.dom().len() > 0,
            string_views(allowed@) == schema.types.key_seq(),
            forall|j: int| 0 <= j < i ==> resolve_type(*schema, (#[trigger] orig[j]).ty@) is Some,
            forall|j: int| 0 <= j < i ==> (#[trigger] fields@[j])@ == normalized(*schema, orig[j]@),
            forall|j: int| i <= j < fields@.len() ==> (#[trigger] fields@[j])@ == orig[j]@,
        decreases fields@.len() - i,
    {
        let resolved = schema.resolve_canonical(fields[i].ty.as_str());
        match resolved {
            Some(c) => {
                let f = Field {
                    name: fields[i].name.clone(),
                    ty: c,
                    is_pk: fields[i].is_pk,
                    nullable: fields[i].nullable,
                };
                fields.set(i, f);
            },
            None => {
                let e = unsupported_type_error(fields[i].name.as_str(), fields[i].ty.as_str(), &allowed);
                assert(fields@[i as int]@ == orig[i as int]@);
                assert(resolve_type(*schema, orig[i as int].ty@) is None);
                assert(field_views(fields@).len() == field_views(orig).len());
                assert(!(forall|j: int| 0 <= j < orig.len() ==> resolve_type(*schema, (#[trigger] orig[j]).ty@) is Some));
                return Err(e);
            },
        }
        i = i + 1;
    }
    assert(field_views(fields@).len() == field_views(orig).len());
    Ok(())
}


// ---------------------------------------------------------------------------
// Type map coverage
// ---------------------------------------------------------------------------

/// A bundle directory name and its `type_map.toml`, when it has one.
pub type BundleTypeMap = (String, Option<StrMap<String>>);

/// Some bundle's type map maps `c`.
pub open spec fn covered(maps: Seq<BundleTypeMap>, c: Seq<char>) -> bool {
    exists|i: int| 0 <= i < maps.len() && ((#[trigger] maps[i]).1 matches Some(m) && m@.contains_key(c))
}

/// The names no bundle's type map covers, in order.
pub open spec fn uncovered(names: Seq<Seq<char>>, maps: Seq<BundleTypeMap>) -> Seq<Seq<char>>
    decreases names.len(),
{
    if names.len() == 0 {
        Seq::<Seq<char>>::empty()
    } else {
        let r = uncovered(names.drop_last(), maps);
        if covered(maps, names.last()) {
            r
        } else {
            r.push(names.last())
        }
    }
}

/// The bundle names, in order.
pub open spec fn bundle_names(maps: Seq<BundleTypeMap>) -> Seq<Seq<char>> {
    maps.map_values(|b: BundleTypeMap| b.0@)
}

fn is_covered(maps: &Vec<BundleTypeMap>, c: &str) -> (r: bool)
    ensures
        r == covered(maps@, c@),
{
    let mut i: usize = 0;
    while i < maps.len()
        invariant
            i <= maps@.len(),
            forall|j: int|
                0 <= j < i ==> !((#[trigger] maps@[j]).1 matches Some(m) && m@.contains_key(c@)),
        decreases maps@.len() - i,
    {
        match &maps[i].1 {
            Some(m) => {
                if m.contains_key(c) {
                    assert(maps@[i as int].1 matches Some(m) && m@.contains_key(c@));
                    return true;
                }
            },
            None => {},
        }
        i = i + 1;
    }
    false
}

/// For each canonical type that no bundle's `type_map.toml` maps, a
/// message naming it and the bundles (sorted by name by the caller); none
/// when the schema is empty or no bundle has a type map.
pub fn type_map_coverage_issues(schema: &FieldTypeSchema, bundle_maps: &Vec<BundleTypeMap>) -> (r:
    Vec<CatalogMessage>)
    ensures
        schema.types@.dom().len() == 0 || bundle_maps@.len() == 0 ==> r@.len() == 0,
        schema.types@.dom().len() > 0 && bundle_maps@.len() > 0 ==> ({
            let u = uncovered(schema.types.key_seq(), bundle_maps@);
            &&& r@.len() == u.len()
            &&& forall|k: int|
                0 <= k < r@.len() ==> (#[trigger] r@[k]).key@ == "error.field_type.unmapped_in_bundles"@
                    && r@[k].args@.len() == 2 && arg_at(r@[k].args@, 0, "type"@, u[k]) && arg_at(
                    r@[k].args@,
                    1,
                    "bundles"@,
                    join_with(bundle_names(bundle_maps@), ", "@),
                )
        }),
{
    let mut out: Vec<CatalogMessage> = Vec::new();
    if schema.is_empty() || bundle_maps.len() == 0 {
        return out;
    }
    let mut names: Vec<String> = Vec::new();
    let mut b: usize = 0;
    while b < bundle_maps.len()
        invariant
            b <= bundle_maps@.len(),
            string_views(names@) =~= bundle_names(bundle_maps@).take(b as int),
        decreases bundle_maps@.len() - b,
    {
        let ghost before = names@;
        names.push(bundle_maps[b].0.clone());
        assert(string_views(names@) =~= string_views(before).push(bundle_maps@[b as int].0@));
        b = b + 1;
    }
    assert(bundle_names(bundle_maps@).take(b as int) =~= bundle_names(bundle_maps@));
    let joined = join_strings(&names, ", ");
    let canon = schema.canonical_names();
    let ghost ks = schema.types.key_seq();
    let mut i: usize = 0;
    while i < canon.len()
        invariant
            string_views(canon@) == ks,
            i <= canon@.len(),
            joined@ == join_with(bundle_names(bundle_maps@), ", "@),
            out@.len() == uncovered(ks.take(i as int), bundle_maps@).len(),
            forall|k: int|
                0 <= k < out@.len() ==> (#[trigger] out@[k]).key@
                    == "error.field_type.unmapped_in_bundles"@ && out@[k].args@.len() == 2 && arg_at(
                    out@[k].args@,
                    0,
                    "type"@,
                    uncovered(ks.take(i as int), bundle_maps@)[k],
                ) && arg_at(out@[k].args@, 1, "bundles"@, joined@),
        decreases canon@.len() - i,
    {
        let c = &canon[i];
        assert(ks.take(i + 1).drop_last() =~= ks.take(i as int));
        assert(ks.take(i + 1).last() == c@);
        if !is_covered(bundle_maps, c.as_str()) {
            let msg = CatalogMessage {
                key: owned("error.field_type.unmapped_in_bundles"),
                args: vec![(owned("type"), c.clone()), (owned("bundles"), joined.clone())],
            };
            out.push(msg);
        }
        i = i + 1;
    }
    assert(ks.take(i as int) =~= ks);
    out
}

// ---------------------------------------------------------------------------
// Declared names
// ---------------------------------------------------------------------------

/// Every alias some declaration lists.
pub open spec fn declared_aliases(defs: Seq<FieldTypeDef>) -> Set<Seq<char>> {
    Set::new(
        |a: Seq<char>|
            exists|i: int, j: int|
                0 <= i < defs.len() && 0 <= j < defs[i].aliases@.len() && (
                #[trigger] defs[i].aliases@[j])@ == a,
    )
}

/// Every canonical name and alias the schema declares, once each, in
/// ascending order.
pub fn all_declared_names(schema: &FieldTypeSchema) -> (r: Vec<String>)
    ensures
        strictly_sorted(string_views(r@)),
        string_views(r@).to_set() == schema.types@.dom() + declared_aliases(
            schema.types.val_seq(),
        ),
{
    schema.types.wf_facts();
    let ghost ks = schema.types.key_seq();
    let ghost ds = schema.types.val_seq();
    let mut set: StrMap<bool> = StrMap::new();
    let mut i: usize = 0;
    while i < schema.types.len()
        invariant
            ks == schema.types.key_seq(),
            ds == schema.types.val_seq(),
            ks.len() == ds.len(),
            i <= ks.len(),
            set@.dom() == ks.take(i as int).to_set() + declared_aliases(ds.take(i as int)),
        decreases ks.len() - i,
    {
        let c = schema.types.key_at(i);
        let d = schema.types.value_at(i);
        set.insert(c.clone(), true);
        proof {
            assert(ks.take(i + 1) =~= ks.take(i as int).push(ks[i as int]));
            ks.take(i as int).lemma_push_to_set_commute(ks[i as int]);
            assert(string_views(d.aliases@).take(0).to_set() =~= Set::<Seq<char>>::empty());
            assert(set@.dom() =~= ks.take(i + 1).to_set() + declared_aliases(ds.take(i as int))
                + string_views(d.aliases@).take(0).to_set());
        }
        let mut j: usize = 0;
        while j < d.aliases.len()
            invariant
                i < ks.len(),
                ks.len() == ds.len(),
                *d == ds[i as int],
                j <= d.aliases@.len(),
                set@.dom() == ks.take(i + 1).to_set() + declared_aliases(ds.take(i as int))
                    + string_views(d.aliases@).take(j as int).to_set(),
            decreases d.aliases@.len() - j,
        {
            set.insert(d.aliases[j].clone(), true);
            proof {
                let sv = string_views(d.aliases@);
                assert(sv.take(j + 1) =~= sv.take(j as int).push(d.aliases@[j as int]@));
                sv.take(j as int).lemma_push_to_set_commute(d.aliases@[j as int]@);
                assert(set@.dom() =~= ks.take(i + 1).to_set() + declared_aliases(ds.take(i as int))
                    + sv.take(j + 1).to_set());
            }
            j = j + 1;
        }
        proof {
            assert(string_views(d.aliases@).take(j as int) =~= string_views(d.aliases@));
            let prev = ds.take(i as int);
            let next = ds.take(i + 1);
            assert(next =~= prev.push(*d));
            assert(declared_aliases(next) =~= declared_aliases(prev) + string_views(
                d.aliases@,
            ).to_set()) by {
                assert forall|a: Seq<char>| declared_aliases(next).contains(a) implies (
                declared_aliases(prev) + string_views(d.aliases@).to_set()).contains(a) by {
                    let (x, y) = choose|x: int, y: int|
                        0 <= x < next.len() && 0 <= y < next[x].aliases@.len() && (
                        #[trigger] next[x].aliases@[y])@ == a;
                    if x < prev.len() {
                        assert(prev[x] == next[x]);
                        assert(declared_aliases(prev).contains(a));
                    } else {
                        assert(string_views(d.aliases@)[y] == a);
                    }
                }
                assert forall|a: Seq<char>| (declared_aliases(prev) + string_views(
                    d.aliases@,
                ).to_set()).contains(a) implies declared_aliases(next).contains(a) by {
                    if declared_aliases(prev).contains(a) {
                        let (x, y) = choose|x: int, y: int|
                            0 <= x < prev.len() && 0 <= y < prev[x].aliases@.len() && (
                            #[trigger] prev[x].aliases@[y])@ == a;
                        assert(next[x] == prev[x]);
                        assert(next[x].aliases@[y]@ == a);
                    } else {
                        let y = string_views(d.aliases@).index_of(a);
                        assert(next[i as int] == *d);
                        assert(next[i as int].aliases@[y]@ == a);
                    }
                }
            }
            assert(set@.dom() =~= ks.take(i + 1).to_set() + declared_aliases(ds.take(i + 1)));
        }
        i = i + 1;
    }
    proof {
        assert(ks.take(i as int) =~= ks);
        assert(ds.take(i as int) =~= ds);
    }
    set.wf_facts();
    let r = set.keys();
    proof {
        assert(string_views(r@) =~= r@.map_values(|k: String| k@));
    }
    r
}

} // verus!
