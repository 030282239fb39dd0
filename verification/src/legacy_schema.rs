//! Recognition of the retired `setup.toml` layout (framework names as
//! backends, a component library, `[paths]` `*_base` keys), reported with
//! its fields instead of a confusing parse error.

use vstd::prelude::*;

use crate::error::{Detail, ErrorEnvelope, Kind};
use crate::gen_input::detail_is_list;
use crate::strmap::StrMap;
use crate::text::{concat2, join_strings, join_with, owned, str_eq, string_views};

verus! {

/// A parsed TOML document, as plain values. Floats are held only as such
/// (their value is not needed here).
pub enum TomlTree {
    Table(Vec<(String, TomlTree)>),
    Array(Vec<TomlTree>),
    Text(String),
    Integer(i64),
    Boolean(bool),
    Datetime(String),
    Float,
}

/// A TOML value as plain values.
pub enum TomlTreeView {
    Table(Seq<(Seq<char>, TomlTreeView)>),
    Array(Seq<TomlTreeView>),
    Text(Seq<char>),
    Integer(int),
    Boolean(bool),
    Datetime(Seq<char>),
    Float,
}

/// The plain values of a TOML value.
pub open spec fn tree_view(t: TomlTree) -> TomlTreeView
    decreases t, 1int,
{
    match t {
        TomlTree::Table(kids) => TomlTreeView::Table(table_view(kids@)),
        TomlTree::Array(items) => TomlTreeView::Array(array_view(items@)),
        TomlTree::Text(s) => TomlTreeView::Text(s@),
        TomlTree::Integer(n) => TomlTreeView::Integer(n as int),
        TomlTree::Boolean(b) => TomlTreeView::Boolean(b),
        TomlTree::Datetime(s) => TomlTreeView::Datetime(s@),
        TomlTree::Float => TomlTreeView::Float,
    }
}

/// The plain values of a table's entries.
pub open spec fn table_view(kids: Seq<(String, TomlTree)>) -> Seq<(Seq<char>, TomlTreeView)>
    decreases kids, 0int,
{
    if kids.len() == 0 {
        Seq::empty()
    } else {
        seq![(kids[0].0@, tree_view(kids[0].1))] + table_view(kids.drop_first())
    }
}

/// The plain values of an array's items.
pub open spec fn array_view(items: Seq<TomlTree>) -> Seq<TomlTreeView>
    decreases items, 0int,
{
    if items.len() == 0 {
        Seq::empty()
    } else {
        seq![tree_view(items[0])] + array_view(items.drop_first())
    }
}

#[verifier::external_type_specification]
#[verifier::external_body]
pub struct ExTomlValue(toml::Value);

/// The document `toml::from_str::<toml::Value>` parses from a text (`None`
/// when it does not parse).
pub uninterp spec fn toml_document(raw: Seq<char>) -> Option<TomlTreeView>;

/// `toml::Value` as a plain tree: one arm per variant, fields moved (a
/// float keeps only its kind, a datetime its `Display` text).
#[verifier::external_body]
fn tree_of(v: toml::Value) -> TomlTree {
    match v {
        toml::Value::Table(t) => TomlTree::Table(t.into_iter().map(|(k, v)| (k, tree_of(v))).collect()),
        toml::Value::Array(a) => TomlTree::Array(a.into_iter().map(tree_of).collect()),
        toml::Value::String(s) => TomlTree::Text(s),
        toml::Value::Integer(n) => TomlTree::Integer(n),
        toml::Value::Boolean(b) => TomlTree::Boolean(b),
        toml::Value::Datetime(d) => TomlTree::Datetime(d.to_string()),
        toml::Value::Float(_) => TomlTree::Float,
    }
}

/// `toml::from_str::<toml::Value>`: the parsed document, or `None` when the
/// text is not TOML. Only that this is the parse of `raw` is stated.
#[verifier::external_body]
fn parse_toml(raw: &str) -> (r: Option<TomlTree>)
    ensures
        match r {
            Some(t) => toml_document(raw@) == Some(tree_view(t)),
            None => toml_document(raw@) is None,
        },
{
    toml::from_str::<toml::Value>(raw).ok().map(tree_of)
}

/// The value under `key` in a table's entries (the first such entry).
pub open spec fn entry_of(entries: Seq<(Seq<char>, TomlTreeView)>, key: Seq<char>) -> Option<
    TomlTreeView,
>
    decreases entries.len(),
{
    if entries.len() == 0 {
        None
    } else if entries[0].0 == key {
        Some(entries[0].1)
    } else {
        entry_of(entries.drop_first(), key)
    }
}

/// The entries of a table value.
pub open spec fn table_entries_of(v: Option<TomlTreeView>) -> Option<Seq<(Seq<char>, TomlTreeView)>> {
    match v {
        Some(TomlTreeView::Table(es)) => Some(es),
        _ => None,
    }
}

/// The keys of table entries.
pub open spec fn entry_keys(es: Seq<(Seq<char>, TomlTreeView)>) -> Seq<Seq<char>> {
    es.map_values(|e: (Seq<char>, TomlTreeView)| e.0)
}

/// What the retired-layout check reads of a document: the keys of its
/// `[project]` table, the text of `project.backend`, and the keys of its
/// `[paths]` table (each `None` when the table or text is absent).
pub type LayoutView = (Option<Seq<Seq<char>>>, Option<Seq<char>>, Option<Seq<Seq<char>>>);

/// The layout of a parsed document.
pub open spec fn layout_of(doc: TomlTreeView) -> LayoutView {
    let top = match doc {
        TomlTreeView::Table(es) => es,
        _ => Seq::empty(),
    };
    let project = table_entries_of(entry_of(top, "project"@));
    let paths = table_entries_of(entry_of(top, "paths"@));
    (
        match project {
            Some(es) => Some(entry_keys(es)),
            None => None,
        },
        match project {
            Some(es) => match entry_of(es, "backend"@) {
                Some(TomlTreeView::Text(b)) => Some(b),
                _ => None,
            },
            None => None,
        },
        match paths {
            Some(es) => Some(entry_keys(es)),
            None => None,
        },
    )
}

/// The layout `toml::from_str` finds in a text (`None` when it does not parse).
pub open spec fn toml_layout(raw: Seq<char>) -> Option<LayoutView> {
    match toml_document(raw) {
        Some(d) => Some(layout_of(d)),
        None => None,
    }
}

/// The entry of `key` among table entries.
fn find_entry<'a>(entries: &'a Vec<(String, TomlTree)>, key: &str) -> (r: Option<&'a TomlTree>)
    ensures
        match r {
            Some(t) => entry_of(table_view(entries@), key@) == Some(tree_view(*t)),
            None => entry_of(table_view(entries@), key@) is None,
        },
{
    let mut i: usize = 0;
    assert(entries@.skip(0) =~= entries@);
    while i < entries.len()
        invariant
            i <= entries@.len(),
            entry_of(table_view(entries@), key@) == entry_of(table_view(entries@.skip(i as int)), key@),
        decreases entries@.len() - i,
    {
        proof {
            lemma_table_view_skip(entries@, i as int);
            let x = (entries@[i as int].0@, tree_view(entries@[i as int].1));
            let t = table_view(entries@.skip(i + 1));
            assert((seq![x] + t).drop_first() =~= t);
            assert((seq![x] + t)[0] == x);
        }
        if str_eq(entries[i].0.as_str(), key) {
            return Some(&entries[i].1);
        }
        i = i + 1;
    }
    proof {
        assert(entries@.skip(i as int) =~= Seq::<(String, TomlTree)>::empty());
    }
    None
}

proof fn lemma_table_view_skip(kids: Seq<(String, TomlTree)>, i: int)
    requires
        0 <= i < kids.len(),
    ensures
        table_view(kids.skip(i)) == seq![(kids[i].0@, tree_view(kids[i].1))] + table_view(kids.skip(i + 1)),
{
    assert(kids.skip(i).drop_first() =~= kids.skip(i + 1));
    assert(kids.skip(i)[0] == kids[i]);
}

/// The keys of table entries, as strings.
fn keys_of(entries: &Vec<(String, TomlTree)>) -> (r: Vec<String>)
    ensures
        string_views(r@) == entry_keys(table_view(entries@)),
{
    let mut r: Vec<String> = Vec::new();
    let mut i: usize = 0;
    assert(entries@.skip(0) =~= entries@);
    assert(string_views(r@) + entry_keys(table_view(entries@)) =~= entry_keys(table_view(entries@)));
    while i < entries.len()
        invariant
            i <= entries@.len(),
            string_views(r@) + entry_keys(table_view(entries@.skip(i as int))) == entry_keys(
                table_view(entries@),
            ),
        decreases entries@.len() - i,
    {
        proof {
            lemma_table_view_skip(entries@, i as int);
            let a = table_view(entries@.skip(i as int));
            let b = table_view(entries@.skip(i + 1));
            assert(entry_keys(a) =~= seq![entries@[i as int].0@] + entry_keys(b));
        }
        let ghost before = string_views(r@);
        r.push(entries[i].0.clone());
        proof {
            assert(string_views(r@) =~= before.push(entries@[i as int].0@));
            let b = entry_keys(table_view(entries@.skip(i + 1)));
            assert(before.push(entries@[i as int].0@) + b =~= before + (seq![entries@[i as int].0@] + b));
        }
        i = i + 1;
    }
    proof {
        assert(entries@.skip(i as int) =~= Seq::<(String, TomlTree)>::empty());
        assert(string_views(r@) + Seq::<Seq<char>>::empty() =~= string_views(r@));
    }
    r
}

/// The layout a document shows.
fn layout_exec(doc: &TomlTree) -> (r: (Option<Vec<String>>, Option<String>, Option<Vec<String>>))
    ensures
        (keys_view(r.0), match r.1 {
            Some(b) => Some(b@),
            None => None,
        }, keys_view(r.2)) == layout_of(tree_view(*doc)),
{
    let empty: Vec<(String, TomlTree)> = Vec::new();
    let top = match doc {
        TomlTree::Table(es) => es,
        _ => &empty,
    };
    assert(table_view(empty@) == Seq::<(Seq<char>, TomlTreeView)>::empty());
    let project = match find_entry(top, "project") {
        Some(TomlTree::Table(es)) => Some(es),
        _ => None,
    };
    let paths = match find_entry(top, "paths") {
        Some(TomlTree::Table(es)) => Some(es),
        _ => None,
    };
    let project_keys = match project {
        Some(es) => Some(keys_of(es)),
        None => None,
    };
    let backend = match project {
        Some(es) => match find_entry(es, "backend") {
            Some(TomlTree::Text(b)) => Some(b.clone()),
            _ => None,
        },
        None => None,
    };
    let paths_keys = match paths {
        Some(es) => Some(keys_of(es)),
        None => None,
    };
    (project_keys, backend, paths_keys)
}

/// The view of optional keys.
pub open spec fn keys_view(k: Option<Vec<String>>) -> Option<Seq<Seq<char>>> {
    match k {
        Some(v) => Some(string_views(v@)),
        None => None,
    }
}

/// `[paths]` keys of the retired layout.
pub open spec fn legacy_path_keys() -> Seq<Seq<char>> {
    seq!["java_base"@, "resources_base"@, "doc_base"@, "nest_base"@, "vue_base"@, "react_base"@]
}

/// The retired fields a layout holds, in report order.
pub open spec fn legacy_fields(l: LayoutView) -> Seq<Seq<char>> {
    let a = match l.0 {
        Some(keys) => if keys.contains("component-library"@) || keys.contains("component_library"@) {
            seq!["project.component-library"@]
        } else {
            Seq::<Seq<char>>::empty()
        },
        None => Seq::<Seq<char>>::empty(),
    };
    let b = match (l.0, l.1) {
        (Some(_), Some(backend)) => if backend == "spring-boot"@ || backend == "nest"@ {
            seq!["project.backend (framework name)"@]
        } else {
            Seq::<Seq<char>>::empty()
        },
        _ => Seq::<Seq<char>>::empty(),
    };
    let c = match l.2 {
        Some(keys) => if exists|i: int| 0 <= i < legacy_path_keys().len() && keys.contains(
            #[trigger] legacy_path_keys()[i],
        ) {
            seq!["paths.*_base"@]
        } else {
            Seq::<Seq<char>>::empty()
        },
        None => Seq::<Seq<char>>::empty(),
    };
    a + b + c
}

fn has_key(keys: &Vec<String>, k: &str) -> (b: bool)
    ensures
        b == string_views(keys@).contains(k@),
{
    let mut i: usize = 0;
    while i < keys.len()
        invariant
            i <= keys@.len(),
            forall|j: int| 0 <= j < i ==> string_views(keys@)[j] != k@,
        decreases keys@.len() - i,
    {
        if str_eq(keys[i].as_str(), k) {
            assert(string_views(keys@)[i as int] == k@);
            return true;
        }
        i = i + 1;
    }
    false
}

/// Rejects a `setup.toml` in the retired layout, naming its retired fields;
/// text that does not parse passes (the strict parse reports it better).
pub fn detect_legacy_schema(raw: &str) -> (r: Result<(), ErrorEnvelope>)
    ensures
        match toml_layout(raw@) {
            None => r is Ok,
            Some(l) => if legacy_fields(l).len() == 0 {
                r is Ok
            } else {
                r matches Err(e) && e.is_kind(Kind::ConfigError) && e.msg@ == "legacy setup.toml schema (fields: "@
                    + join_with(legacy_fields(l), ", "@) + ")"@ && e.has_reason("legacy_schema"@)
                    && e.hint@ == "error.config.legacy_schema"@ && e.details@.dom() == set![
                    "legacy_fields"@,
                    "reason"@,
                ] && detail_is_list(e.details@["legacy_fields"@], legacy_fields(l))
            },
        },
{
    let doc = match parse_toml(raw) {
        Some(d) => d,
        None => {
            return Ok(());
        },
    };
    let (project_keys, project_backend, paths_keys) = layout_exec(&doc);
    let ghost lv = layout_of(tree_view(doc));
    let mut legacy: Vec<String> = Vec::new();
    match &project_keys {
        Some(keys) => {
            if has_key(keys, "component-library") || has_key(keys, "component_library") {
                legacy.push(owned("project.component-library"));
            }
            match &project_backend {
                Some(b) => {
                    if str_eq(b.as_str(), "spring-boot") || str_eq(b.as_str(), "nest") {
                        legacy.push(owned("project.backend (framework name)"));
                    }
                },
                None => {},
            }
        },
        None => {},
    }
    match &paths_keys {
        Some(keys) => {
            let found = has_key(keys, "java_base") || has_key(keys, "resources_base") || has_key(
                keys,
                "doc_base",
            ) || has_key(keys, "nest_base") || has_key(keys, "vue_base") || has_key(
                keys,
                "react_base",
            );
            proof {
                let ks = string_views(keys@);
                if found {
                    if ks.contains("java_base"@) {
                        assert(legacy_path_keys()[0] == "java_base"@);
                    } else if ks.contains("resources_base"@) {
                        assert(legacy_path_keys()[1] == "resources_base"@);
                    } else if ks.contains("doc_base"@) {
                        assert(legacy_path_keys()[2] == "doc_base"@);
                    } else if ks.contains("nest_base"@) {
                        assert(legacy_path_keys()[3] == "nest_base"@);
                    } else if ks.contains("vue_base"@) {
                        assert(legacy_path_keys()[4] == "vue_base"@);
                    } else {
                        assert(legacy_path_keys()[5] == "react_base"@);
                    }
                } else {
                    assert forall|i: int| 0 <= i < legacy_path_keys().len() implies !ks.contains(
                        #[trigger] legacy_path_keys()[i],
                    ) by {}
                }
            }
            if found {
                legacy.push(owned("paths.*_base"));
            }
        },
        None => {},
    }
    assert(string_views(legacy@) =~= legacy_fields(lv));
    if legacy.len() == 0 {
        return Ok(());
    }
    let joined = join_strings(&legacy, ", ");
    let a = concat2("legacy setup.toml schema (fields: ", joined.as_str());
    let msg = concat2(a.as_str(), ")");
    let mut details: StrMap<Detail> = StrMap::new();
    proof {
        reveal_strlit("legacy_fields");
        reveal_strlit("reason");
        assert("legacy_fields"@[0] != "reason"@[0]);
    }
    details.insert(owned("legacy_fields"), Detail::List(legacy));
    let e = ErrorEnvelope::config_error_with_reason(msg, "legacy_schema", details, owned("error.config.legacy_schema"));
    assert(e.details@.dom() =~= set!["legacy_fields"@, "reason"@]);
    Err(e)
}

} // verus!
