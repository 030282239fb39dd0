use std::cmp::Ordering;

use crud_cli::config::{PathsSection, TemplateRef};
use crud_cli::i18n::{tf, Catalog, Lang};
use crud_cli::mcp_context::file_uri_to_path;
use crud_cli::strmap::StrMap;
use crud_cli::template_installer::RepoSpec;
use crud_cli::template_meta_global::version_cmp;
use crud_cli::type_map::{resolve, Fallback};

#[test]
fn template_ref_round_trip() {
    let with_v = TemplateRef::parse("ruoyi@1.0.0").expect("ok");
    assert_eq!(with_v.name, "ruoyi");
    assert_eq!(with_v.version.as_deref(), Some("1.0.0"));
    assert_eq!(with_v.to_string(), "ruoyi@1.0.0");

    let no_v = TemplateRef::parse("eladmin").expect("ok");
    assert_eq!(no_v.version, None);
    assert_eq!(no_v.to_string(), "eladmin");
}

#[test]
fn paths_section_lookup_prefers_lang() {
    let mut s = PathsSection::new();
    s.lang.insert("java".into(), "backend".into());
    s.aux.insert("doc".into(), "docs".into());
    assert_eq!(s.lookup("java"), Some("backend"));
    assert_eq!(s.lookup("doc"), Some("docs"));
    assert_eq!(s.lookup("missing"), None);
}

fn english_catalog() -> Catalog {
    let mut c: Catalog = StrMap::new();
    c.insert(
        "gen.success.written".to_string(),
        "{count} file(s) written".to_string(),
    );
    c
}

#[test]
fn interpolation_replaces_named_placeholders() {
    let en = english_catalog();
    let out = tf(
        &en,
        &en,
        "gen.success.written",
        &vec![("count".to_string(), "3".to_string())],
    );
    assert!(out.contains('3'));
    assert!(!out.contains("{count}"));
}

#[test]
fn lang_parse_accepts_common_aliases() {
    assert_eq!(Lang::parse("EN"), Some(Lang::En));
    assert_eq!(Lang::parse("zh-CN"), Some(Lang::Zh));
    assert_eq!(Lang::parse("中文"), Some(Lang::Zh));
    assert_eq!(Lang::parse("fr"), None);
}

#[test]
fn parses_owner_repo() {
    let s = RepoSpec::parse("ttTennessee/crud-templates").expect("ok");
    assert_eq!(s.owner, "ttTennessee");
    assert_eq!(s.repo, "crud-templates");
    assert_eq!(s.git_ref, "HEAD");
    assert_eq!(
        s.tarball_url(),
        "https://codeload.github.com/ttTennessee/crud-templates/tar.gz/HEAD"
    );
}

#[test]
fn parses_owner_repo_with_ref() {
    let s = RepoSpec::parse("ttTennessee/crud-templates@main").expect("ok");
    assert_eq!(s.git_ref, "main");
}

#[test]
fn parses_github_url() {
    let s = RepoSpec::parse("https://github.com/ttTennessee/crud-templates").expect("ok");
    assert_eq!(s.owner, "ttTennessee");
    assert_eq!(s.repo, "crud-templates");
    assert_eq!(s.git_ref, "HEAD");
}

#[test]
fn parses_github_url_with_dot_git() {
    let s = RepoSpec::parse("https://github.com/foo/bar.git").expect("ok");
    assert_eq!(s.repo, "bar");
}

#[test]
fn rejects_empty_and_garbage() {
    assert!(RepoSpec::parse("").is_err());
    assert!(RepoSpec::parse("justone").is_err());
    assert!(RepoSpec::parse("a/b/c").is_err());
    assert!(RepoSpec::parse("foo/bar@").is_err());
}

#[test]
fn version_sort_numeric() {
    assert_eq!(version_cmp("1.10.0", "1.2.0"), Ordering::Greater);
    assert_eq!(version_cmp("0.9.0", "0.10.0"), Ordering::Less);
    assert_eq!(version_cmp("1.0", "1.0.0"), Ordering::Less);
}

#[test]
fn resolve_passthrough_on_miss() {
    let out = resolve(None, None, "Custom", &Fallback::Passthrough).expect("ok");
    assert_eq!(out, "Custom");
}

#[test]
fn resolve_literal_on_miss() {
    let out = resolve(None, None, "Custom", &Fallback::Literal("any".into())).expect("ok");
    assert_eq!(out, "any");
}

#[test]
fn resolve_error_on_miss() {
    let err = resolve(Some("ts"), None, "Custom", &Fallback::Error).expect_err("err");
    let msg = format!("{err:?}");
    assert!(msg.contains("Custom"));
}

#[test]
fn file_uri_to_path_decodes_file_scheme() {
    let p = file_uri_to_path("file:///tmp/foo/bar");
    assert!(p.ends_with("tmp/foo/bar") || p.ends_with("tmp\\foo\\bar"));
}
