use crud_cli::agent_mode::{is_agent_active, is_agent_from_env, resolve_agent_mode};
use crud_cli::commands::{
    confirm_allows, gen_output, overwrite_step, setup_exists_error, GenOutput, OverwriteStep,
};
use crud_cli::config::{Backend, EnabledTypes, Frontend, OverwritePolicy};
use crud_cli::error::{Detail, Kind};
use crud_cli::field_dsl::Field;
use crud_cli::field_extra::{validate_extra_keys, validate_schema, ExtraValueType, FieldExtraDef, FieldExtraSchema};
use crud_cli::field_types::{build_schema, normalize_and_validate, FieldTypeDef, FieldTypeSchema};
use crud_cli::fs_writer::{allows_overwrite, OverwriteContext};
use crud_cli::gen_input::FieldSpec;
use crud_cli::global_config::{resolve_preferred_lang, GlobalConfig, DEFAULT_TEMPLATE_REPO};
use crud_cli::i18n::Lang;
use crud_cli::legacy_schema::detect_legacy_schema;
use crud_cli::mcp_resources::{is_example_entry, list_resources, read_entity_schema, read_resource, SchemaBody};
use crud_cli::output::{contains_ansi, human_failure_lines};
use crud_cli::strmap::StrMap;
use crud_cli::template_command::{list_lines, use_decision, UseDecision};
use crud_cli::template_engine::{
    render_template, render_template_with_type_map, ty_map_value, wrap_mybatis_param, wrap_vue_param, TypeMapBinding,
};
use crud_cli::template_install_meta::{hash_excluded_exec, record_bundle_categories, tree_hash, InstallMeta};
use crud_cli::template_installer::{
    catalog, pick_highest_version, select_install_version, shared_categories, RepoSpec,
};
use crud_cli::template_loader::{discover_templates, scan_available_types, type_not_found_error, SelectError};
use crud_cli::template_meta_global::{find_template_in, list_installed_in, InstalledTemplate, TemplateManifest};
use crud_cli::type_map::{resolve, Fallback};
use crud_cli::validator::{
    extract_helper_name, extract_residue_handle, first_unknown_variable_issue, render_issue, suggestion_pool,
    validate_outcome, Element, HelperCall, IssueKind, Param, PathPart, TemplatePath, ValidateIssue,
};
use crud_cli::value::DataValue;

fn s(x: &str) -> String {
    x.to_string()
}

fn manifest(backend: Backend, frontend: Frontend, description: Option<&str>) -> TemplateManifest {
    TemplateManifest {
        name: None,
        version: None,
        backend,
        frontend,
        description: description.map(s),
    }
}

fn installed(name: &str, version: &str, backend: Backend, frontend: Frontend) -> InstalledTemplate {
    InstalledTemplate::from_manifest(
        s(name),
        s(version),
        format!("/home/u/.crud/templates/{name}/{version}"),
        manifest(backend, frontend, None),
    )
}

fn walked(paths: &[&str]) -> Vec<(String, String)> {
    paths.iter().map(|p| (s(p), format!("/proj/.crud/templates/{p}"))).collect()
}

// ---------------------------------------------------------------------------
// template selection
// ---------------------------------------------------------------------------

#[test]
fn discover_skips_reserved_files_and_sorts_by_path() {
    let w = walked(&[
        "vue/b.hbs",
        "_variables.toml",
        "template.toml",
        "java/type_map.toml",
        "java/a.hbs",
        "nested/_variables.toml",
    ]);
    let got = discover_templates("/proj/.crud/templates", w, None).expect("templates");
    let rels: Vec<&str> = got.iter().map(|e| e.rel_path.as_str()).collect();
    assert_eq!(rels, vec!["java/a.hbs", "nested/_variables.toml", "vue/b.hbs"]);
    assert_eq!(got[0].abs_path, "/proj/.crud/templates/java/a.hbs");
}

#[test]
fn discover_type_filter_matches_prefix_globs() {
    let w = walked(&["java/a.hbs", "javascript/x.hbs", "vue/b.hbs"]);
    let filter = vec![s(" java/ ")];
    let got = discover_templates("/r", w, Some(&filter)).expect("templates");
    let rels: Vec<&str> = got.iter().map(|e| e.rel_path.as_str()).collect();
    // `java*` also matches `javascript/...`.
    assert_eq!(rels, vec!["java/a.hbs", "javascript/x.hbs"]);
}

#[test]
fn discover_reports_unknown_type_and_empty_dir() {
    let filter = vec![s("react")];
    let r = discover_templates("/r", walked(&["vue/b.hbs"]), Some(&filter));
    assert!(matches!(r, Err(SelectError::TypeNotFound)));
    let r = discover_templates("/r", walked(&["template.toml"]), None);
    match r {
        Err(SelectError::Failed(e)) => {
            assert_eq!(e.kind, Kind::UserError);
            assert_eq!(e.msg, "no templates in .crud/templates/");
            assert!(matches!(e.details.get("path"), Some(Detail::Text(p)) if p == "/r"));
        }
        _ => panic!("expected no templates"),
    }
}

#[test]
fn discover_reports_bad_glob() {
    let filter = vec![s("java[")];
    let r = discover_templates("/r", walked(&["java/a.hbs"]), Some(&filter));
    match r {
        Err(SelectError::Failed(e)) => {
            assert!(e.msg.starts_with("invalid --type glob: "));
            assert_eq!(e.hint, "error.template.invalid_type_glob");
        }
        _ => panic!("expected a glob error"),
    }
}

#[test]
fn available_types_are_sorted_and_unique() {
    let listing = vec![
        (s("vue"), vec![s("views")]),
        (s("java"), vec![s("domain"), s("controller")]),
        (s("java"), vec![]),
    ];
    assert_eq!(
        scan_available_types(&listing),
        vec![s("java"), s("java/controller"), s("java/domain"), s("vue"), s("vue/views")]
    );
    let e = type_not_found_error(&vec![s("react")], &vec![s("java"), s("vue")]);
    assert_eq!(e.msg, "template type not found");
    assert_eq!(e.hint_args, vec![(s("available"), s("java, vue"))]);
}

// ---------------------------------------------------------------------------
// registry and installer
// ---------------------------------------------------------------------------

#[test]
fn lists_templates_skipping_missing_manifest() {
    // The registry walk keeps only versions with a readable manifest; here
    // `broken/0.1.0` had none, so the listing holds the two ruoyi versions.
    let found = vec![
        installed("ruoyi", "1.0.0", Backend::Java, Frontend::Vue),
        installed("ruoyi", "1.1.0", Backend::Java, Frontend::Vue),
    ];
    let list = list_installed_in(found);
    assert_eq!(list.len(), 2);
    assert!(list.iter().all(|t| t.name == "ruoyi"));
    assert_eq!(list[0].version, "1.1.0");
}

#[test]
fn listing_orders_by_name_then_highest_version() {
    let found = vec![
        installed("eladmin", "0.9.0", Backend::Go, Frontend::React),
        installed("ruoyi", "1.2.0", Backend::Java, Frontend::Vue),
        installed("eladmin", "0.10.0", Backend::Go, Frontend::React),
        installed("ruoyi", "1.10.0", Backend::Java, Frontend::Vue),
    ];
    let list = list_installed_in(found);
    let got: Vec<(String, String)> = list.iter().map(|t| (t.name.clone(), t.version.clone())).collect();
    assert_eq!(
        got,
        vec![
            (s("eladmin"), s("0.10.0")),
            (s("eladmin"), s("0.9.0")),
            (s("ruoyi"), s("1.10.0")),
            (s("ruoyi"), s("1.2.0")),
        ]
    );
}

#[test]
fn find_template_picks_highest_version_by_default() {
    let list = vec![
        installed("eladmin", "0.9.0", Backend::Go, Frontend::React),
        installed("eladmin", "0.10.0", Backend::Go, Frontend::React),
    ];
    let t = find_template_in(list, "eladmin", None).expect("found");
    assert_eq!(t.version, "0.10.0");
}

#[test]
fn find_template_exact_version() {
    let list = vec![installed("nest-admin", "2.0.0", Backend::TypeScript, Frontend::React)];
    let t = find_template_in(list, "nest-admin", Some("2.0.0")).expect("found");
    assert_eq!(t.version, "2.0.0");
    let list = vec![installed("nest-admin", "2.0.0", Backend::TypeScript, Frontend::React)];
    let err = find_template_in(list, "nest-admin", Some("9.9.9")).expect_err("missing");
    assert_eq!(err.kind, Kind::UserError);
}

#[test]
fn find_template_custom_language_accepted() {
    let backend = Backend::parse("php").expect("custom");
    let list = vec![installed("laravel-vue", "1.0.0", backend, Frontend::Vue)];
    let t = find_template_in(list, "laravel-vue", None).expect("found");
    assert!(matches!(t.manifest.backend, Backend::Custom(ref b) if b == "php"));
}

#[test]
fn catalog_groups_versions_and_filters_shared_doc() {
    let listing = vec![
        (s("ruoyi"), vec![s("1.0.0"), s("1.10.0")]),
        (s("eladmin"), vec![s("2.0.0")]),
        (s("doc"), vec![]),
    ];
    let cat = catalog(listing);
    assert_eq!(cat.len(), 2);
    assert_eq!(cat.get("ruoyi"), Some(&vec![s("1.10.0"), s("1.0.0")]));
    assert_eq!(cat.get("eladmin"), Some(&vec![s("2.0.0")]));
    assert!(!cat.contains_key("doc"));
}

#[test]
fn catalog_filters_sql_bundle_dir() {
    let listing = vec![(s("ruoyi"), vec![s("1.0.0")]), (s("sql"), vec![s("mysql")])];
    let cat = catalog(listing);
    assert!(cat.contains_key("ruoyi"));
    assert!(!cat.contains_key("sql"));
}

#[test]
fn shared_categories_lists_top_level_subdirs() {
    assert_eq!(
        shared_categories(vec![s("markdown"), s("html")]),
        vec![s("html"), s("markdown")]
    );
    assert_eq!(
        shared_categories(vec![s("postgres"), s("mysql")]),
        vec![s("mysql"), s("postgres")]
    );
    assert!(shared_categories(Vec::new()).is_empty());
}

#[test]
fn pick_highest_version_picks_numeric_max() {
    // `9.9.9-broken` has no manifest, so it is not among the candidates.
    let versions = vec![s("1.0.0"), s("1.10.0"), s("1.2.0")];
    assert_eq!(pick_highest_version(&versions).as_deref(), Some("1.10.0"));
    assert_eq!(pick_highest_version(&Vec::new()), None);
}

#[test]
fn install_version_selection_and_failures() {
    let spec = RepoSpec::parse("ttTennessee/crud-templates").expect("spec");
    let vs = vec![s("1.0.0"), s("1.2.0")];
    let e = select_install_version(&spec, "ruoyi", None, false, false, &vs).expect_err("no dir");
    assert_eq!(e.msg, "template not found in repo: ruoyi");
    assert!(matches!(e.details.get("repo"), Some(Detail::Text(r)) if r == "ttTennessee/crud-templates@HEAD"));
    let e = select_install_version(&spec, "ruoyi", Some("9.0.0"), true, false, &vs).expect_err("missing");
    assert_eq!(e.msg, "version not found in repo: ruoyi@9.0.0");
    let e = select_install_version(&spec, "ruoyi", None, true, false, &Vec::new()).expect_err("none");
    assert_eq!(e.msg, "no installable versions for ruoyi in repo");
    assert_eq!(
        select_install_version(&spec, "ruoyi", None, true, false, &vs).expect("ok"),
        "1.2.0"
    );
    assert_eq!(
        select_install_version(&spec, "ruoyi", Some("1.0.0"), true, true, &vs).expect("ok"),
        "1.0.0"
    );
}

#[test]
fn copy_shared_category_rejects_missing_category() {
    let e = crud_cli::template_installer::category_not_in_repo("sql", "nope");
    assert_eq!(e.kind, Kind::UserError);
    assert_eq!(e.msg, "sql category not in repo: nope");
}

// ---------------------------------------------------------------------------
// install record and hash
// ---------------------------------------------------------------------------

fn meta() -> InstallMeta {
    InstallMeta {
        source_hash: s("abc"),
        repo: s("owner/repo"),
        repo_ref: s("HEAD"),
        installed_at: s("2026-05-29T00:00:00Z"),
        doc_categories: Vec::new(),
        ddl_categories: Vec::new(),
        sql_categories: Vec::new(),
    }
}

#[test]
fn record_bundle_categories_routes_by_kind() {
    let m = record_bundle_categories(Some(meta()), "doc", &vec![s("html")]);
    let m = record_bundle_categories(m, "ddl", &vec![s("mysql")]);
    let m = record_bundle_categories(m, "sql", &vec![s("postgres")]).expect("record");
    assert_eq!(m.doc_categories, vec![s("html")]);
    assert_eq!(m.ddl_categories, vec![s("mysql")]);
    assert_eq!(m.sql_categories, vec![s("postgres")]);
    assert!(record_bundle_categories(None, "doc", &vec![s("html")]).is_none());
}

fn files(list: &[(&str, &str)]) -> Vec<(String, Vec<u8>)> {
    list.iter().map(|(p, b)| (s(p), b.as_bytes().to_vec())).collect()
}

#[test]
fn hash_is_stable_across_calls() {
    let f = files(&[("a.txt", "hello"), ("sub/b.txt", "world")]);
    let h1 = tree_hash(f.clone());
    let h2 = tree_hash(f);
    assert_eq!(h1, h2);
    assert_eq!(h1.len(), 64);
}

#[test]
fn hash_changes_when_content_changes() {
    let before = tree_hash(files(&[("a.txt", "hello")]));
    let after = tree_hash(files(&[("a.txt", "hello!")]));
    assert_ne!(before, after);
}

#[test]
fn install_meta_is_excluded_from_hash() {
    let before = tree_hash(files(&[("a.txt", "x")]));
    let after = tree_hash(files(&[("a.txt", "x"), (".install.json", "{}")]));
    assert_eq!(before, after);
}

#[test]
fn top_level_doc_dir_is_excluded_from_hash() {
    let before = tree_hash(files(&[("a.txt", "x")]));
    let after = tree_hash(files(&[("a.txt", "x"), ("doc/markdown/z.hbs", "z")]));
    assert_eq!(before, after);
}

#[test]
fn top_level_sql_dir_is_excluded_from_hash() {
    let before = tree_hash(files(&[("a.txt", "x")]));
    let after = tree_hash(files(&[("sql/mysql/z.hbs", "z"), ("a.txt", "x")]));
    assert_eq!(before, after);
}

#[test]
fn nested_doc_dir_is_not_excluded() {
    assert!(!hash_excluded_exec("src/doc/a.hbs"));
    let before = tree_hash(files(&[("src/doc/a.hbs", "a")]));
    let after = tree_hash(files(&[("src/doc/a.hbs", "b")]));
    assert_ne!(before, after);
}

#[test]
fn hash_is_path_sensitive() {
    assert_ne!(
        tree_hash(files(&[("a.txt", "x")])),
        tree_hash(files(&[("b.txt", "x")]))
    );
}

#[test]
fn hash_of_empty_tree_is_sha256_of_nothing() {
    assert_eq!(
        tree_hash(Vec::new()),
        "e3b0c44298fc1c149afbf4c8996fb92427ae41e4649b934ca495991b7852b855"
    );
}

// ---------------------------------------------------------------------------
// schemas and type maps
// ---------------------------------------------------------------------------

fn spec_with(name: &str, ty: &str, extra: &[(&str, DataValue)]) -> FieldSpec {
    let mut m = StrMap::new();
    for (k, v) in extra {
        m.insert(s(k), v.dup());
    }
    FieldSpec {
        name: s(name),
        ty: s(ty),
        is_pk: false,
        nullable: false,
        length: None,
        unique: false,
        default: None,
        comment: String::new(),
        extra: m,
    }
}

fn options_schema(required_for: &[&str]) -> FieldExtraSchema {
    let mut parsed = StrMap::new();
    parsed.insert(
        s("options"),
        FieldExtraDef {
            description: s("enum options"),
            ty: ExtraValueType::Array,
            required_for: required_for.iter().map(|x| s(x)).collect(),
        },
    );
    validate_schema(parsed).expect("schema")
}

fn mentions(msgs: &[crud_cli::i18n::CatalogMessage], word: &str) -> bool {
    msgs.iter().any(|m| m.args.iter().any(|(_, v)| v.contains(word)))
}

#[test]
fn no_schema_skips_all_checks() {
    let schema = FieldExtraSchema::empty();
    let spec = spec_with("foo", "String", &[("anything", DataValue::Bool(true))]);
    assert!(validate_extra_keys(&schema, &vec![spec]).is_empty());
}

#[test]
fn known_key_passes() {
    let schema = options_schema(&[]);
    let spec = spec_with("status", "enum", &[("options", DataValue::Composite(s("[]")))]);
    assert!(validate_extra_keys(&schema, &vec![spec]).is_empty());
}

#[test]
fn unknown_key_reported() {
    let schema = options_schema(&[]);
    let spec = spec_with("status", "enum", &[("unknown_key", DataValue::Bool(true))]);
    let problems = validate_extra_keys(&schema, &vec![spec]);
    assert_eq!(problems.len(), 1);
    assert!(mentions(&problems, "unknown_key"));
}

#[test]
fn required_for_missing_reported() {
    let schema = options_schema(&["enum"]);
    let spec = spec_with("status", "enum", &[]);
    let problems = validate_extra_keys(&schema, &vec![spec]);
    assert_eq!(problems.len(), 1);
    assert!(mentions(&problems, "options"));
}

#[test]
fn required_for_present_passes() {
    let schema = options_schema(&["enum"]);
    let spec = spec_with("status", "enum", &[("options", DataValue::Composite(s("[]")))]);
    assert!(validate_extra_keys(&schema, &vec![spec]).is_empty());
}

#[test]
fn required_for_other_type_not_enforced() {
    let schema = options_schema(&["enum"]);
    let spec = spec_with("name", "String", &[]);
    assert!(validate_extra_keys(&schema, &vec![spec]).is_empty());
}

#[test]
fn empty_description_rejected() {
    let mut parsed = StrMap::new();
    parsed.insert(
        s("options"),
        FieldExtraDef { description: String::new(), ty: ExtraValueType::Array, required_for: Vec::new() },
    );
    let err = validate_schema(parsed).err().expect("should fail");
    assert!(err.msg.contains("description"));
}

fn type_schema(entries: &[(&str, &str, &[&str])]) -> FieldTypeSchema {
    let mut parsed = StrMap::new();
    for (name, desc, aliases) in entries {
        parsed.insert(
            s(name),
            FieldTypeDef { description: s(desc), aliases: aliases.iter().map(|a| s(a)).collect() },
        );
    }
    build_schema(parsed).ok().expect("schema")
}

fn field(name: &str, ty: &str) -> Field {
    Field { name: s(name), ty: s(ty), is_pk: false, nullable: false }
}

#[test]
fn load_schema_reads_types_and_aliases() {
    let schema = type_schema(&[("Long", "64-bit int", &[]), ("Integer", "32-bit int", &["int"])]);
    assert!(schema.types.contains_key("Long"));
    assert_eq!(schema.alias_to_canonical.get("int").map(String::as_str), Some("Integer"));
}

#[test]
fn normalize_maps_alias_to_canonical() {
    let schema = type_schema(&[("Integer", "32-bit int", &["int"])]);
    let mut fields = vec![field("age", "int")];
    normalize_and_validate(&schema, &mut fields).ok().expect("ok");
    assert_eq!(fields[0].ty, "Integer");
}

#[test]
fn unknown_type_rejected_with_allowed_list() {
    let schema = type_schema(&[("Long", "pk", &[])]);
    let mut fields = vec![field("x", "String")];
    let err = normalize_and_validate(&schema, &mut fields).err().expect("err");
    assert!(matches!(err.details.get("reason"), Some(Detail::Text(r)) if r == "unsupported_field_type"));
    assert!(err.details.get("allowed").is_some());
}

#[test]
fn empty_schema_skips_validation() {
    let schema = FieldTypeSchema::empty();
    let mut fields = vec![field("x", "Anything")];
    normalize_and_validate(&schema, &mut fields).ok().expect("ok");
    assert_eq!(fields[0].ty, "Anything");
}

#[test]
fn resolve_hits_map() {
    let mut m = StrMap::new();
    m.insert(s("int"), s("Integer"));
    let out = resolve(Some("java"), Some(&m), "int", &Fallback::Error).ok().expect("ok");
    assert_eq!(out, "Integer");
}

#[test]
fn mybatis_helper_wraps_hash_placeholder() {
    let out = render_template("WHERE id = {{mybatis_param name_camel}}", r#"{"name_camel":"userId"}"#).expect("render");
    assert_eq!(out, "WHERE id = #{userId}");
    assert_eq!(wrap_mybatis_param("userId"), "#{userId}");
}

#[test]
fn vue_helper_wraps_mustache_interpolation() {
    let out = render_template("<span>{{vue_param name_camel}}</span>", r#"{"name_camel":"userName"}"#).expect("render");
    assert_eq!(out, "<span>{{userName}}</span>");
    assert_eq!(wrap_vue_param("userName"), "{{userName}}");
}

#[test]
fn ty_map_passthrough_when_no_map() {
    let out = render_template("{{ty_map ty}}", r#"{"ty":"Integer"}"#).expect("render");
    assert_eq!(out, "Integer");
    let b = TypeMapBinding::passthrough();
    assert_eq!(ty_map_value(&b, "Integer"), Ok(s("Integer")));
}

#[test]
fn ty_map_resolves_via_bundle_map() {
    let mut m = StrMap::new();
    m.insert(s("int"), s("number"));
    m.insert(s("string"), s("string"));
    let b = TypeMapBinding { bundle: Some(s("ts")), map: Some(m), fallback: Fallback::Passthrough };
    let out = render_template_with_type_map(
        "{{ty_map a}}|{{ty_map b}}|{{ty_map c}}",
        r#"{"a":"int","b":"string","c":"CustomType"}"#,
        &b,
    )
    .expect("render");
    assert_eq!(out, "number|string|CustomType");
}

#[test]
fn ty_map_error_fallback_aborts_render() {
    let b = TypeMapBinding { bundle: Some(s("ts")), map: Some(StrMap::new()), fallback: Fallback::Error };
    let err = render_template_with_type_map("{{ty_map ty}}", r#"{"ty":"Unknown"}"#, &b).expect_err("err");
    assert!(format!("{err:?}").contains("Unknown"));
    assert!(ty_map_value(&b, "Unknown").expect_err("err").contains("Unknown"));
}

#[test]
fn ty_map_literal_fallback() {
    let b = TypeMapBinding { bundle: Some(s("ts")), map: Some(StrMap::new()), fallback: Fallback::Literal(s("any")) };
    let out = render_template_with_type_map("{{ty_map ty}}", r#"{"ty":"Unknown"}"#, &b).expect("render");
    assert_eq!(out, "any");
}

#[test]
fn overwrite_gate_never_denies() {
    assert!(!allows_overwrite(OverwriteContext { policy: OverwritePolicy::Never, force: false }));
}

#[test]
fn backend_round_trip_known() {
    for b in [Backend::Java, Backend::TypeScript, Backend::Go, Backend::Python, Backend::NoLang] {
        let decoded = Backend::parse(b.as_key()).expect("parse");
        assert_eq!(decoded, b);
    }
}

#[test]
fn backend_custom_value() {
    assert_eq!(Backend::parse("php"), Ok(Backend::Custom(s("php"))));
}

#[test]
fn backend_rejects_invalid_identifier() {
    let err = Backend::parse("Spring Boot").expect_err("should reject");
    assert!(err.contains("backend"));
}

#[test]
fn legacy_schema_detected() {
    let raw = "\n[project]\nbackend = \"spring-boot\"\nfrontend = \"vue\"\ncomponent-library = \"element-plus\"\n";
    let err = detect_legacy_schema(raw).err().expect("should reject");
    assert_eq!(err.kind, Kind::ConfigError);
    assert_eq!(
        err.msg,
        "legacy setup.toml schema (fields: project.component-library, project.backend (framework name))"
    );
}

#[test]
fn legacy_paths_keys_detected() {
    let raw = "\n[project]\nbackend = \"java\"\nfrontend = \"vue\"\n\n[paths]\nnest_base = \"src\"\n";
    let err = detect_legacy_schema(raw).err().expect("should reject");
    assert_eq!(err.kind, Kind::ConfigError);
    assert!(detect_legacy_schema("[project]\nbackend = \"java\"\n").is_ok());
    assert!(detect_legacy_schema("not = [toml").is_ok());
}

// ---------------------------------------------------------------------------
// global config, agent mode, output
// ---------------------------------------------------------------------------

#[test]
fn load_missing_returns_default() {
    let cfg = GlobalConfig::load_or_default(Ok(GlobalConfig::default()));
    assert!(cfg.ui.lang.is_none());
    assert_eq!(cfg.lang(), None);
    let cfg = GlobalConfig::load_or_default(Err(crud_cli::global_config::parse_error("bad")));
    assert_eq!(cfg.template_repo(), DEFAULT_TEMPLATE_REPO);
}

#[test]
fn round_trips_lang() {
    let mut cfg = GlobalConfig::default();
    cfg.set_lang(Lang::Zh);
    assert_eq!(cfg.ui.lang.as_deref(), Some("zh"));
    assert_eq!(cfg.lang(), Some(Lang::Zh));
}

#[test]
fn env_language_wins_over_stored() {
    let mut cfg = GlobalConfig::default();
    cfg.set_lang(Lang::Zh);
    assert_eq!(resolve_preferred_lang(Some("en-US"), &cfg), Some(Lang::En));
    assert_eq!(resolve_preferred_lang(Some("klingon"), &cfg), Some(Lang::Zh));
    assert_eq!(resolve_preferred_lang(None, &GlobalConfig::default()), None);
}

#[test]
fn agent_mode_flag_wins_over_env() {
    assert!(is_agent_from_env(Some("1")));
    assert!(!is_agent_from_env(Some("true")));
    assert!(!is_agent_from_env(None));
    assert!(!resolve_agent_mode(Some(false), true));
    assert!(resolve_agent_mode(None, true));
    assert!(is_agent_active(Some(true), false));
}

#[test]
fn ansi_detection_and_human_failure() {
    assert!(contains_ansi("\x1b[31mred"));
    assert!(!contains_ansi("plain [31m"));
    let e = crud_cli::error::ErrorEnvelope::template_error(s("boom"));
    assert_eq!(human_failure_lines(&e, ""), vec![s("error: TemplateError"), s("msg: boom"), s("exit_code: 2")]);
    assert_eq!(human_failure_lines(&e, "fix it").len(), 4);
}

// ---------------------------------------------------------------------------
// validate
// ---------------------------------------------------------------------------

fn path(name: &str) -> Param {
    match name.strip_prefix('@') {
        Some(local) => Param::Path(TemplatePath::Local(s(local))),
        None => Param::Path(TemplatePath::Relative(vec![PathPart::Named(s(name))])),
    }
}

fn var(name: &str) -> Element {
    Element::Expression(HelperCall {
        name: path(name),
        block: false,
        params: Vec::new(),
        hash: Vec::new(),
        template: None,
        inverse: None,
    })
}

fn each(over: &str, body: Vec<Element>) -> Element {
    Element::Block(HelperCall {
        name: Param::Name(s("each")),
        block: true,
        params: vec![path(over)],
        hash: Vec::new(),
        template: Some(body),
        inverse: None,
    })
}

#[test]
fn each_fields_allows_field_names() {
    let vars = StrMap::new();
    let pool = suggestion_pool(&vars);
    let t = vec![var("model"), each("fields", vec![var("name_camel"), var("@index")])];
    assert!(first_unknown_variable_issue(&t, &vars, &pool, "a.hbs").is_none());
    let t = vec![each("items", vec![var("name_camel")])];
    let issue = first_unknown_variable_issue(&t, &vars, &pool, "a.hbs").expect("issue");
    assert_eq!(issue.variable.as_deref(), Some("items"));
    let mut with_items = StrMap::new();
    with_items.insert(s("items"), DataValue::Composite(s("[]")));
    let issue = first_unknown_variable_issue(&t, &with_items, &pool, "a.hbs").expect("issue");
    assert_eq!(issue.kind, IssueKind::UnknownVariable);
    assert_eq!(issue.variable.as_deref(), Some("name_camel"));
}

#[test]
fn unknown_variable_suggests_closest_name() {
    let mut vars = StrMap::new();
    vars.insert(s("author"), DataValue::Text(s("me")));
    let pool = suggestion_pool(&vars);
    let t = vec![var("author"), var("modle")];
    let issue = first_unknown_variable_issue(&t, &vars, &pool, "x/a.hbs").expect("issue");
    assert_eq!(issue.template_path, "x/a.hbs");
    assert_eq!(issue.variable.as_deref(), Some("modle"));
    assert_eq!(issue.suggestion.as_deref(), Some("did you mean 'model'?"));
    let t = vec![var("zzzzzzzz")];
    let issue = first_unknown_variable_issue(&t, &vars, &pool, "a.hbs").expect("issue");
    assert_eq!(issue.suggestion, None);
}

#[test]
fn residue_and_helper_names() {
    assert_eq!(extract_residue_handle("{{#  foo bar}}").as_deref(), Some("foo"));
    assert_eq!(extract_residue_handle("{{/each}}").as_deref(), Some("each"));
    assert_eq!(extract_residue_handle("{{ }}"), None);
    assert_eq!(extract_residue_handle("no braces"), None);
    assert_eq!(extract_helper_name("Helper not defined: 'ty_mapp'").as_deref(), Some("ty_mapp"));
    assert_eq!(extract_helper_name("Helper not found fooBar-1 here").as_deref(), Some("fooBar-1"));
    assert_eq!(extract_helper_name("nothing to see"), None);
}

#[test]
fn render_issues_classify_failures() {
    let i = render_issue(&Ok(s("ok {{leftover}}")), "a.hbs").expect("residue");
    assert_eq!(i.kind, IssueKind::RenderError);
    assert_eq!(i.variable.as_deref(), Some("leftover"));
    assert!(render_issue(&Ok(s("clean")), "a.hbs").is_none());
    let i = render_issue(&Err(s("Helper not found 'nope'")), "a.hbs").expect("err");
    assert_eq!(i.kind, IssueKind::MissingHelper);
    assert_eq!(i.variable.as_deref(), Some("nope"));
    let i = render_issue(&Err(s("broken")), "a.hbs").expect("err");
    assert_eq!(i.kind, IssueKind::RenderError);
}

fn issue(path: &str) -> ValidateIssue {
    ValidateIssue {
        template_path: s(path),
        line: None,
        column: None,
        kind: IssueKind::RenderError,
        variable: None,
        suggestion: None,
    }
}

#[test]
fn validate_summary_counts_distinct_templates() {
    let ok = validate_outcome(3, Vec::new()).expect("ok");
    assert_eq!(ok.templates_checked, 3);
    let f = validate_outcome(3, vec![issue("a"), issue("b"), issue("a")]).err().expect("fail");
    assert_eq!(f.summary.templates_with_issues, 2);
    assert_eq!(f.summary.issue_count, 3);
}

// ---------------------------------------------------------------------------
// commands and resources
// ---------------------------------------------------------------------------

#[test]
fn template_use_needs_confirmation_only_when_languages_change() {
    assert_eq!(use_decision(false, false, false), UseDecision::Apply);
    assert_eq!(use_decision(true, true, false), UseDecision::Apply);
    assert_eq!(use_decision(true, false, true), UseDecision::Ask);
    assert_eq!(use_decision(true, false, false), UseDecision::Refuse);
}

#[test]
fn template_list_lines() {
    let empty = list_lines(&Vec::new());
    assert_eq!(empty.len(), 1);
    assert_eq!(empty[0].key, "template.list.empty");
    let mut t = installed("ruoyi", "1.0.0", Backend::Java, Frontend::Vue);
    t.manifest.description = Some(s("classic"));
    let lines = list_lines(&vec![t]);
    assert_eq!(lines[0].key, "template.list.entry");
    assert_eq!(lines[0].args[2], (s("backend"), s("java")));
    assert_eq!(lines[0].args[4], (s("description"), s("classic")));
}

#[test]
fn setup_overwrite_rules() {
    assert_eq!(overwrite_step(false, false, false), OverwriteStep::Proceed);
    assert_eq!(overwrite_step(true, true, false), OverwriteStep::Proceed);
    assert_eq!(overwrite_step(true, false, true), OverwriteStep::Ask);
    assert_eq!(overwrite_step(true, false, false), OverwriteStep::Block);
    assert!(confirm_allows(Some(true)));
    assert!(!confirm_allows(None));
    let e = setup_exists_error(".crud/setup.toml");
    assert_eq!(e.msg, "file exists: .crud/setup.toml");
    assert_eq!(gen_output(true, true), GenOutput::Preview);
    assert_eq!(gen_output(false, true), GenOutput::DryRun);
}

#[test]
fn resources_and_schema_names() {
    assert_eq!(list_resources(false).len(), 2);
    assert_eq!(list_resources(true)[2].0, "crud://schema/entity_example");
    assert_eq!(read_resource("crud://schema/builtins"), Ok((SchemaBody::Builtins, "application/json")));
    assert_eq!(read_resource("crud://x"), Err(s("unknown resource uri: crud://x")));
    assert_eq!(read_entity_schema("guide"), Ok(SchemaBody::Guide));
    assert!(read_entity_schema("other").is_err());
    assert!(is_example_entry("_example_user.json"));
    assert!(!is_example_entry("example.json"));
    assert!(!is_example_entry("_example.toml"));
}

#[test]
fn enabled_types_selection_maps_to_config() {
    let sel = crud_cli::setup_wizard::user_selections_from_answers(
        s("Alice"),
        s("a@example.com"),
        crud_cli::cli_args::SetupOverwritePolicy::ForceOnly,
        crud_cli::cli_args::SetupEnabledTypes::Backend,
    );
    assert_eq!(sel.overwrite_policy, OverwritePolicy::ForceOnly);
    assert_eq!(sel.enabled_types, EnabledTypes::Backend);
}
