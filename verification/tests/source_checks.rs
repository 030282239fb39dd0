use crud_cli::error::{Detail, Kind};
use crud_cli::gen_context::{stamps_of, DateTimeParts};
use crud_cli::mcp_resources::builtin_names;
use crud_cli::strmap::StrMap;
use crud_cli::template_meta::split_front_matter;
use crud_cli::template_variables::{parse_var_arg, VarLiteral};
use crud_cli::type_map::{resolve, Fallback};
use crud_cli::cli_args::SetupArgs;
use crud_cli::validator::{
    called_helper, did_you_mean, first_segment_of_param, first_segment_of_path, local_path_segment, template_issue,
    validation_failure_envelope, Element, HelperCall, IssueKind, Param, PathPart, Segment, TemplatePath,
    ValidateReport,
};
use crud_cli::value::DataValue;

fn s(x: &str) -> String {
    x.to_string()
}

#[test]
fn quoted_var_value_is_a_json_string() {
    let (k, v) = parse_var_arg("title=\"System User\"").expect("ok");
    assert_eq!(k, "title");
    assert!(matches!(v, VarLiteral::Text(t) if t == "System User"));
    let (_, v) = parse_var_arg("q=\"a\\\"b\\n\\u0041\"").expect("ok");
    assert!(matches!(v, VarLiteral::Text(t) if t == "a\"b\nA"));
    let (_, v) = parse_var_arg("n=42").expect("ok");
    assert!(matches!(v, VarLiteral::Integer(42)));
    let (_, v) = parse_var_arg("b=true").expect("ok");
    assert!(matches!(v, VarLiteral::Bool(true)));
    let (_, v) = parse_var_arg("w=plain").expect("ok");
    assert!(matches!(v, VarLiteral::Other(t) if t == "plain"));
    assert!(parse_var_arg("novalue").is_err());
}

#[test]
fn unmapped_type_error_names_the_bundle() {
    let err = resolve(Some("ts"), None, "Custom", &Fallback::Error).expect_err("err");
    assert_eq!(err.kind, Kind::UserError);
    assert!(matches!(err.details.get("reason"), Some(Detail::Text(v)) if v == "type_map_unmapped"));
    assert!(matches!(err.details.get("type"), Some(Detail::Text(v)) if v == "Custom"));
    assert!(matches!(err.details.get("bundle"), Some(Detail::Text(v)) if v == "ts"));
}

#[test]
fn front_matter_is_split_from_the_body() {
    let (meta, body) = split_front_matter("---\nbasePath: src/main\nfilename: A.java\n---\nhello\n").expect("ok");
    assert_eq!(meta.base_path.as_deref(), Some("src/main"));
    assert_eq!(meta.filename.as_deref(), Some("A.java"));
    assert_eq!(body.trim(), "hello");
    let (meta, body) = split_front_matter("no matter here").expect("ok");
    assert!(meta.base_path.is_none());
    assert_eq!(body, "no matter here");
}

#[test]
fn local_paths_read_with_at_sign() {
    assert_eq!(local_path_segment("index"), "@index");
    assert_eq!(local_path_segment("root"), "@root");
    assert_eq!(local_path_segment("@first"), "@first");
    assert_eq!(local_path_segment("other"), "other");
}

#[test]
fn template_source_issues() {
    let vars: StrMap<DataValue> = StrMap::new();
    let pool = vec![s("model"), s("table")];
    let i = template_issue("{{#if model}}open", &vars, &pool, "a.hbs").expect("syntax issue");
    assert_eq!(i.kind, IssueKind::SyntaxError);
    assert_eq!(i.template_path, "a.hbs");
    let i = template_issue("{{modle}}", &vars, &pool, "b.hbs").expect("unknown");
    assert_eq!(i.kind, IssueKind::UnknownVariable);
    assert_eq!(i.variable.as_deref(), Some("modle"));
    assert!(template_issue("{{model}} {{#each fields}}{{@index}}{{name}}{{/each}}", &vars, &pool, "c.hbs").is_none());
    let i = template_issue("{{ty_map x=zeta y=alpha z=model}}", &vars, &pool, "d.hbs").expect("unknown");
    assert_eq!(i.variable.as_deref(), Some("alpha"));
}

#[test]
fn date_stamps_are_zero_padded() {
    let p = DateTimeParts { year: 2024, month: 3, day: 5, hour: 7, minute: 8, second: 9 };
    let st = stamps_of(&p);
    assert_eq!(st.date, "2024-03-05");
    assert_eq!(st.datetime, "2024-03-05 07:08:09");
    assert_eq!(st.year, "2024");
}

#[test]
fn builtins_list_the_reserved_names() {
    let b = builtin_names();
    assert_eq!(b.reserved_variable_names.len(), 31);
    assert_eq!(b.reserved_variable_names[0], "model");
    assert_eq!(b.reserved_variable_names[30], "pk_field_pascal");
    assert_eq!(b.field_name_reserved, vec!["model", "table", "table_comment", "package", "package_path", "fields"]);
}

#[test]
fn suggestions_use_edit_distance() {
    let pool = vec![s("model"), s("table")];
    assert_eq!(did_you_mean("modle", &pool).as_deref(), Some("did you mean 'model'?"));
    assert_eq!(did_you_mean("zzzzzz", &pool), None);
}

fn plain_call(name: Param) -> HelperCall {
    HelperCall {
        name,
        block: false,
        params: Vec::new(),
        hash: Vec::new(),
        template: None,
        inverse: None,
    }
}

#[test]
fn segment_selection_reads_first_named_segment() {
    let p = TemplatePath::Relative(vec![PathPart::Named(s("a")), PathPart::Named(s("b"))]);
    assert!(matches!(first_segment_of_path(&p), Some(Segment::Named(n)) if n == "a"));
    let p = TemplatePath::Relative(vec![PathPart::Ruled, PathPart::Named(s("b"))]);
    assert!(first_segment_of_path(&p).is_none());
    assert!(first_segment_of_path(&TemplatePath::Relative(Vec::new())).is_none());
    assert!(matches!(first_segment_of_path(&TemplatePath::Local(s("index"))), Some(Segment::Local(n)) if n == "index"));
    assert!(first_segment_of_param(&Param::Literal).is_none());
    assert!(first_segment_of_param(&Param::Name(s("x"))).is_none());
    let inner = Param::Path(TemplatePath::Relative(vec![PathPart::Named(s("x"))]));
    let sub = Param::Subexpression(Box::new(Element::Expression(plain_call(inner))));
    assert!(matches!(first_segment_of_param(&sub), Some(Segment::Named(n)) if n == "x"));
    let html = Param::Subexpression(Box::new(Element::HtmlExpression(plain_call(Param::Literal))));
    assert!(first_segment_of_param(&html).is_none());
    assert!(matches!(called_helper(&plain_call(Param::Name(s("each")))), Some(Segment::Named(n)) if n == "each"));
    assert!(called_helper(&plain_call(Param::Literal)).is_none());
}

#[test]
fn validation_failure_message_counts_issues() {
    let summary = ValidateReport { templates_checked: 5, templates_with_issues: 2, issue_count: 3 };
    let e = validation_failure_envelope(&summary, s("[]"), s("{}"));
    assert_eq!(e.kind, Kind::TemplateError);
    assert_eq!(e.msg, "template validation failed: 3 issue(s) in 2 template(s)");
    assert!(matches!(e.details.get("issues"), Some(Detail::Text(v)) if v == "[]"));
    assert!(matches!(e.details.get("summary"), Some(Detail::Text(v)) if v == "{}"));
}

#[test]
fn user_config_errors_match_selection_errors() {
    let args = SetupArgs {
        project: false,
        backend: None,
        frontend: None,
        template: None,
        lang: Vec::new(),
        aux: Vec::new(),
        overwrite_policy: None,
        enabled_types: None,
        user_name: None,
        user_email: None,
        type_map_fallback: None,
        force: false,
    };
    let a = args.to_user_config().err().expect("missing name");
    let b = args.require_user_non_interactive().err().expect("missing name");
    assert_eq!(a.msg, b.msg);
    assert!(matches!(a.details.get("flag"), Some(Detail::Text(v)) if v == "user-name"));
    assert_eq!(a.details.len(), 1);
}

fn empty_paths() -> crud_cli::config::PathsSection {
    crud_cli::config::PathsSection { lang: StrMap::new(), aux: StrMap::new() }
}

#[test]
fn conditions_render_through_a_probe() {
    use_binding(|b| {
        assert!(matches!(crud_cli::gen_pipeline::condition_truthy("flag", r#"{"flag":true}"#, b), Ok(true)));
        assert!(matches!(crud_cli::gen_pipeline::condition_truthy("flag", r#"{"flag":false}"#, b), Ok(false)));
        assert!(crud_cli::gen_pipeline::condition_truthy("flag", "not json", b).is_err());
    });
}

fn use_binding(f: impl Fn(&crud_cli::template_engine::TypeMapBinding)) {
    f(&crud_cli::template_engine::TypeMapBinding::passthrough());
}

#[test]
fn template_step_renders_location_condition_and_body() {
    use_binding(|b| {
        let outputs = crud_cli::config::OutputsSection(StrMap::new());
        let src = "---\nbasePath: \"src/{{pkg}}\"\nfilename: \"{{pascal_case name}}.java\"\n---\nclass {{pascal_case name}} {}\n";
        let data = r#"{"pkg":"app","name":"user_info","on":false}"#;
        let step = crud_cli::gen_pipeline::template_step("java/Entity.java.hbs", src, &outputs, "/proj", None, &empty_paths(), data, b)
            .expect("step");
        match step {
            crud_cli::gen_pipeline::TemplateStep::Rendered { path, content, overwrite } => {
                assert_eq!(path, "/proj/src/app/UserInfo.java");
                assert_eq!(content.trim(), "class UserInfo {}");
                assert!(overwrite.is_none());
            }
            _ => panic!("expected a rendered template"),
        }
        let skipped = "---\ngenerateWhen: \"on\"\n---\nbody\n";
        let step = crud_cli::gen_pipeline::template_step("x/a.txt.hbs", skipped, &outputs, "/proj", None, &empty_paths(), data, b)
            .expect("step");
        assert!(matches!(step, crud_cli::gen_pipeline::TemplateStep::SkippedByCondition(p) if p == "/proj/x/a.txt"));
        let broken = "{{#if}}";
        assert!(crud_cli::gen_pipeline::template_step("x/b.hbs", broken, &outputs, "/proj", None, &empty_paths(), data, b).is_err());
    });
}
