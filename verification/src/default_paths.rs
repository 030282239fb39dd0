//! Default `[paths]` maps for a fresh project, derived from the chosen
//! backend and frontend. Custom languages contribute no defaults.

use vstd::prelude::*;

use crate::config::{Backend, Frontend, PathsSection};
use crate::strmap::{lemma_text_view_empty, lemma_text_view_insert, text_view};
use crate::text::owned;

verus! {

/// Default `[paths.lang]` entries for the chosen languages.
pub open spec fn default_lang_paths(b: Backend, f: Frontend) -> Map<Seq<char>, Seq<char>> {
    let m = Map::<Seq<char>, Seq<char>>::empty();
    let m = match b {
        Backend::Java => m.insert("java"@, "src/main/java"@),
        Backend::TypeScript => m.insert("ts"@, "src"@),
        Backend::Go => m.insert("go"@, "internal"@),
        Backend::Python => m.insert("python"@, "src"@),
        _ => m,
    };
    match f {
        Frontend::Vue => m.insert("vue"@, "src/views"@),
        Frontend::React => m.insert("react"@, "src/views"@),
        _ => m,
    }
}

/// Default `[paths.aux]` entries: SQL and DDL roots, plus resources and
/// API docs per backend.
pub open spec fn default_aux_paths(b: Backend) -> Map<Seq<char>, Seq<char>> {
    let m = Map::<Seq<char>, Seq<char>>::empty().insert("sql"@, "sql"@).insert("ddl"@, "sql"@);
    match b {
        Backend::Java => m.insert("resources"@, "src/main/resources"@).insert(
            "doc"@,
            "doc/api"@,
        ),
        Backend::TypeScript | Backend::Go | Backend::Python => m.insert("doc"@, "doc/api"@),
        _ => m,
    }
}

/// A `PathsSection` holding the conventional defaults for the chosen
/// languages. `None` and custom languages add nothing beyond SQL/DDL roots.
pub fn paths_for_selections(backend: &Backend, frontend: &Frontend) -> (p: PathsSection)
    ensures
        text_view(p.lang@) == default_lang_paths(*backend, *frontend),
        text_view(p.aux@) == default_aux_paths(*backend),
{
    broadcast use lemma_text_view_insert, lemma_text_view_empty;

    let mut paths = PathsSection::new();
    paths.aux.insert(owned("sql"), owned("sql"));
    paths.aux.insert(owned("ddl"), owned("sql"));
    match backend {
        Backend::Java => {
            paths.lang.insert(owned("java"), owned("src/main/java"));
            paths.aux.insert(owned("resources"), owned("src/main/resources"));
            paths.aux.insert(owned("doc"), owned("doc/api"));
        },
        Backend::TypeScript => {
            paths.lang.insert(owned("ts"), owned("src"));
            paths.aux.insert(owned("doc"), owned("doc/api"));
        },
        Backend::Go => {
            paths.lang.insert(owned("go"), owned("internal"));
            paths.aux.insert(owned("doc"), owned("doc/api"));
        },
        Backend::Python => {
            paths.lang.insert(owned("python"), owned("src"));
            paths.aux.insert(owned("doc"), owned("doc/api"));
        },
        _ => {},
    }
    match frontend {
        Frontend::Vue => {
            paths.lang.insert(owned("vue"), owned("src/views"));
        },
        Frontend::React => {
            paths.lang.insert(owned("react"), owned("src/views"));
        },
        _ => {},
    }
    paths
}

} // verus!
