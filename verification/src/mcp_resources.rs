//! MCP resources and the entity-schema tool: which resources exist, which
//! body a URI or short name stands for, and which files hold examples.

use vstd::prelude::*;

use crate::strmap::{StrMap, strictly_sorted};
use crate::template_loader::{TemplateEntry, entry_pairs};
use crate::text::{
    concat2, owned, str_eq, string_views, to_chars, range_starts_with, range_ends_with, find_first,
    find_first_in, string_of_range,
};
use crate::gen_pipeline::first_segment;
use crate::field_dsl::is_reserved_variable;

verus! {

/// URI of the entity.json input guide.
pub const URI_ENTITY_GUIDE: &'static str = "crud://schema/entity_guide";
/// URI of the entity.json examples shipped by the template bundle.
pub const URI_ENTITY_EXAMPLE: &'static str = "crud://schema/entity_example";
/// URI of the built-in and reserved template names.
pub const URI_BUILTINS: &'static str = "crud://schema/builtins";

pub const MIME_JSON: &'static str = "application/json";
pub const MIME_MARKDOWN: &'static str = "text/markdown";

/// A resource: `(uri, name, description, mime type)`.
pub type ResourceDescriptor = (&'static str, &'static str, &'static str, &'static str);

/// The resources offered: the guide and the built-in names, and the
/// examples when the template bundle ships any.
pub fn list_resources(has_examples: bool) -> (r: Vec<ResourceDescriptor>)
    ensures
        r@.len() == (if has_examples { 3int } else { 2int }),
        r@[0].0@ == URI_ENTITY_GUIDE@ && r@[0].1@ == "entity_guide"@ && r@[0].3@ == MIME_MARKDOWN@,
        r@[1].0@ == URI_BUILTINS@ && r@[1].1@ == "builtins"@ && r@[1].3@ == MIME_JSON@,
        has_examples ==> r@[2].0@ == URI_ENTITY_EXAMPLE@ && r@[2].1@ == "entity_example"@ && r@[2].3@
            == MIME_JSON@,
{
    let mut list = vec![
        (URI_ENTITY_GUIDE, "entity_guide", "entity.json input specification for code generation", MIME_MARKDOWN),
        (URI_BUILTINS, "builtins", "Built-in template context names and reserved identifiers", MIME_JSON),
    ];
    if has_examples {
        list.push(
            (
                URI_ENTITY_EXAMPLE,
                "entity_example",
                "entity.json examples from the active template bundle (_example*.json)",
                MIME_JSON,
            ),
        );
    }
    list
}

/// The body a resource or entity-schema name stands for.
#[derive(Debug, Clone, Copy, PartialEq, Eq, Structural)]
pub enum SchemaBody {
    /// The entity.json guide (markdown).
    Guide,
    /// The bundle's `_example*.json` files as one JSON array.
    Examples,
    /// The built-in and reserved names (JSON).
    Builtins,
}

/// Which body a resource URI stands for, with its mime type; an unknown URI
/// is refused.
pub fn read_resource(uri: &str) -> (r: Result<(SchemaBody, &'static str), String>)
    ensures
        uri@ == URI_ENTITY_GUIDE@ ==> (r matches Ok(p) && p.0 == SchemaBody::Guide && p.1@ == MIME_MARKDOWN@),
        uri@ == URI_ENTITY_EXAMPLE@ ==> (r matches Ok(p) && p.0 == SchemaBody::Examples && p.1@ == MIME_JSON@),
        uri@ == URI_BUILTINS@ ==> (r matches Ok(p) && p.0 == SchemaBody::Builtins && p.1@ == MIME_JSON@),
        uri@ != URI_ENTITY_GUIDE@ && uri@ != URI_ENTITY_EXAMPLE@ && uri@ != URI_BUILTINS@ ==> (r matches Err(
            m,
        ) && m@ == "unknown resource uri: "@ + uri@),
{
    proof {
        reveal_strlit("crud://schema/entity_guide");
        reveal_strlit("crud://schema/entity_example");
        reveal_strlit("crud://schema/builtins");
        assert(URI_ENTITY_GUIDE@[21] != URI_ENTITY_EXAMPLE@[21]);
        assert(URI_ENTITY_GUIDE@[14] != URI_BUILTINS@[14]);
        assert(URI_ENTITY_EXAMPLE@[14] != URI_BUILTINS@[14]);
    }
    if str_eq(uri, URI_ENTITY_GUIDE) {
        Ok((SchemaBody::Guide, MIME_MARKDOWN))
    } else if str_eq(uri, URI_ENTITY_EXAMPLE) {
        Ok((SchemaBody::Examples, MIME_JSON))
    } else if str_eq(uri, URI_BUILTINS) {
        Ok((SchemaBody::Builtins, MIME_JSON))
    } else {
        Err(concat2("unknown resource uri: ", uri))
    }
}

/// Which body an entity-schema name (`guide`, `example`, `builtins`)
/// stands for; any other name is refused.
pub fn read_entity_schema(name: &str) -> (r: Result<SchemaBody, String>)
    ensures
        name@ == "guide"@ ==> r == Ok::<SchemaBody, String>(SchemaBody::Guide),
        name@ == "example"@ ==> r == Ok::<SchemaBody, String>(SchemaBody::Examples),
        name@ == "builtins"@ ==> r == Ok::<SchemaBody, String>(SchemaBody::Builtins),
        name@ != "guide"@ && name@ != "example"@ && name@ != "builtins"@ ==> (r matches Err(m) && m@
            == "unknown entity schema name: "@ + name@ + " (expected: guide | example | builtins)"@),
{
    proof {
        reveal_strlit("guide");
        reveal_strlit("example");
        reveal_strlit("builtins");
        assert("guide"@[0] != "example"@[0]);
        assert("guide"@[0] != "builtins"@[0]);
        assert("example"@[0] != "builtins"@[0]);
    }
    if str_eq(name, "guide") {
        Ok(SchemaBody::Guide)
    } else if str_eq(name, "example") {
        Ok(SchemaBody::Examples)
    } else if str_eq(name, "builtins") {
        Ok(SchemaBody::Builtins)
    } else {
        let a = concat2("unknown entity schema name: ", name);
        Err(concat2(a.as_str(), " (expected: guide | example | builtins)"))
    }
}

/// A file name of the examples: `_example*.json`.
pub open spec fn is_example_name(name: Seq<char>) -> bool {
    "_example"@.is_prefix_of(name) && ".json"@.is_suffix_of(name)
}

/// Whether a file name is one of the bundle's examples.
pub fn is_example_entry(name: &str) -> (b: bool)
    ensures
        b == is_example_name(name@),
{
    let v = to_chars(name);
    let n = v.len();
    assert(v@.subrange(0, n as int) =~= name@);
    proof {
        reveal_strlit("_example");
        reveal_strlit(".json");
    }
    let a = range_starts_with(&v, 0, n, "_example");
    let b = range_ends_with(&v, 0, n, ".json");
    proof {
        if a {
            assert("_example"@ =~= name@.subrange(0, 8));
        } else if 8 <= n {
            assert(!("_example"@ =~= name@.subrange(0, 8)));
        }
    }
    a && b
}

/// The failure when the bundle ships no example.
pub fn no_examples_error(templates_root: &str) -> (m: String)
    ensures
        m@ == "no _example*.json files under "@ + templates_root@
            + " — this template bundle does not ship examples"@,
{
    let a = concat2("no _example*.json files under ", templates_root);
    concat2(a.as_str(), " — this template bundle does not ship examples")
}

fn first_segment_of(rel: &str) -> (r: String)
    ensures
        r@ == first_segment(rel@),
{
    let v = to_chars(rel);
    let n = v.len();
    assert(v@.subrange(0, n as int) =~= rel@);
    match find_first_in(&v, 0, n, '/') {
        Some(i) => {
            assert(rel@.take(i as int) =~= v@.subrange(0, i as int));
            string_of_range(&v, 0, i)
        },
        None => owned(rel),
    }
}

/// The first path components of the discovered templates, sorted, each
/// once: the `--type` prefixes a bundle offers.
pub fn list_type_prefixes(entries: &Vec<TemplateEntry>) -> (r: Vec<String>)
    ensures
        strictly_sorted(string_views(r@)),
        string_views(r@).to_set() == Set::new(
            |p: Seq<char>| exists|i: int| 0 <= i < entries@.len() && p == first_segment(#[trigger] entries@[i].rel_path@),
        ),
{
    let mut m: StrMap<bool> = StrMap::new();
    let mut i: usize = 0;
    while i < entries.len()
        invariant
            i <= entries@.len(),
            m@.dom() == Set::new(
                |p: Seq<char>| exists|k: int| 0 <= k < i && p == first_segment(#[trigger] entries@[k].rel_path@),
            ),
        decreases entries@.len() - i,
    {
        let seg = first_segment_of(entries[i].rel_path.as_str());
        m.insert(seg, true);
        proof {
            let s_new = Set::new(
                |p: Seq<char>| exists|k: int| 0 <= k < i + 1 && p == first_segment(#[trigger] entries@[k].rel_path@),
            );
            assert forall|p: Seq<char>| m@.dom().contains(p) <==> s_new.contains(p) by {
                if s_new.contains(p) {
                    let k = choose|k: int| 0 <= k < i + 1 && p == first_segment(#[trigger] entries@[k].rel_path@);
                    if k < i {
                        assert(exists|k2: int| 0 <= k2 < i && p == first_segment(#[trigger] entries@[k2].rel_path@));
                    }
                }
                if m@.dom().contains(p) && p != first_segment(entries@[i as int].rel_path@) {
                    let k = choose|k: int| 0 <= k < i && p == first_segment(#[trigger] entries@[k].rel_path@);
                    assert(0 <= k < i + 1);
                }
            }
            assert(m@.dom() =~= s_new);
        }
        i = i + 1;
    }
    m.wf_facts();
    let r = m.keys();
    assert(string_views(r@) =~= r@.map_values(|x: String| x@));
    r
}

} // verus!

verus! {

/// The reserved context names, in the order the builtins resource lists
/// them.
pub open spec fn reserved_names() -> Seq<Seq<char>> {
    seq![
        "model"@, "table"@, "table_comment"@, "package"@, "package_path"@, "fields"@,
        "model_snake"@, "model_pascal"@, "model_camel"@, "model_kebab"@, "user_name"@,
        "user_email"@, "git_user_name"@, "git_user_email"@, "date"@, "datetime"@, "year"@,
        "is_sub"@, "sub_table"@, "sub_table_comment"@, "sub_fields"@, "sub_model"@,
        "sub_model_snake"@, "sub_model_pascal"@, "sub_model_camel"@, "sub_model_kebab"@,
        "sub_model_fk"@, "sub_model_fk_pascal"@, "pk_field"@, "pk_field_type"@,
        "pk_field_pascal"@,
    ]
}

/// The names a field may not take: the entity's own context names.
pub open spec fn field_reserved_names() -> Seq<Seq<char>> {
    seq!["model"@, "table"@, "table_comment"@, "package"@, "package_path"@, "fields"@]
}

/// The listed names are exactly the reserved ones.
pub proof fn lemma_reserved_names_listed(s: Seq<char>)
    ensures
        reserved_names().contains(s) <==> is_reserved_variable(s),
{
    let r = reserved_names();
    if is_reserved_variable(s) {
        if s == "model"@ { assert(r[0] == s); }
        else if s == "table"@ { assert(r[1] == s); }
        else if s == "table_comment"@ { assert(r[2] == s); }
        else if s == "package"@ { assert(r[3] == s); }
        else if s == "package_path"@ { assert(r[4] == s); }
        else if s == "fields"@ { assert(r[5] == s); }
        else if s == "model_snake"@ { assert(r[6] == s); }
        else if s == "model_pascal"@ { assert(r[7] == s); }
        else if s == "model_camel"@ { assert(r[8] == s); }
        else if s == "model_kebab"@ { assert(r[9] == s); }
        else if s == "user_name"@ { assert(r[10] == s); }
        else if s == "user_email"@ { assert(r[11] == s); }
        else if s == "git_user_name"@ { assert(r[12] == s); }
        else if s == "git_user_email"@ { assert(r[13] == s); }
        else if s == "date"@ { assert(r[14] == s); }
        else if s == "datetime"@ { assert(r[15] == s); }
        else if s == "year"@ { assert(r[16] == s); }
        else if s == "is_sub"@ { assert(r[17] == s); }
        else if s == "sub_table"@ { assert(r[18] == s); }
        else if s == "sub_table_comment"@ { assert(r[19] == s); }
        else if s == "sub_fields"@ { assert(r[20] == s); }
        else if s == "sub_model"@ { assert(r[21] == s); }
        else if s == "sub_model_snake"@ { assert(r[22] == s); }
        else if s == "sub_model_pascal"@ { assert(r[23] == s); }
        else if s == "sub_model_camel"@ { assert(r[24] == s); }
        else if s == "sub_model_kebab"@ { assert(r[25] == s); }
        else if s == "sub_model_fk"@ { assert(r[26] == s); }
        else if s == "sub_model_fk_pascal"@ { assert(r[27] == s); }
        else if s == "pk_field"@ { assert(r[28] == s); }
        else if s == "pk_field_type"@ { assert(r[29] == s); }
        else { assert(r[30] == s); }
    }
    if r.contains(s) {
        let i = choose|i: int| 0 <= i < r.len() && r[i] == s;
        assert(0 <= i < 31);
    }
}

/// The body of the builtins resource: the reserved context names, a note
/// on them, and the names a field may not take.
pub struct BuiltinNames {
    pub reserved_variable_names: Vec<&'static str>,
    pub note: &'static str,
    pub field_name_reserved: Vec<&'static str>,
}

/// The builtins resource body.
pub fn builtin_names() -> (b: BuiltinNames)
    ensures
        b.reserved_variable_names@.map_values(|s: &'static str| s@) == reserved_names(),
        b.field_name_reserved@.map_values(|s: &'static str| s@) == field_reserved_names(),
        b.note@ == "Do not declare these in _variables.toml or JSON variables; they are injected by crud-cli at render time."@,
{
    let reserved = vec![
        "model", "table", "table_comment", "package", "package_path", "fields",
        "model_snake", "model_pascal", "model_camel", "model_kebab", "user_name",
        "user_email", "git_user_name", "git_user_email", "date", "datetime", "year",
        "is_sub", "sub_table", "sub_table_comment", "sub_fields", "sub_model",
        "sub_model_snake", "sub_model_pascal", "sub_model_camel", "sub_model_kebab",
        "sub_model_fk", "sub_model_fk_pascal", "pk_field", "pk_field_type",
        "pk_field_pascal",
    ];
    let field = vec!["model", "table", "table_comment", "package", "package_path", "fields"];
    assert(reserved@.map_values(|s: &'static str| s@) =~= reserved_names());
    assert(field@.map_values(|s: &'static str| s@) =~= field_reserved_names());
    BuiltinNames {
        reserved_variable_names: reserved,
        note: "Do not declare these in _variables.toml or JSON variables; they are injected by crud-cli at render time.",
        field_name_reserved: field,
    }
}

} // verus!
