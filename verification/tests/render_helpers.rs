use crud_cli::template_engine::{apply_text_helper, render_template, text_helpers, TextHelper};

#[test]
fn case_helpers_render() {
    let tpl = "{{pascal_case x}}|{{snake_case x}}|{{camel_case x}}|{{kebab_case x}}";
    let out = render_template(tpl, r#"{"x":"hello_world"}"#).expect("render");
    assert_eq!(out, "HelloWorld|hello_world|helloWorld|hello-world");
    let out = [TextHelper::Pascal, TextHelper::Snake, TextHelper::Camel, TextHelper::Kebab]
        .iter()
        .map(|h| apply_text_helper(*h, "hello_world"))
        .collect::<Vec<_>>()
        .join("|");
    assert_eq!(out, "HelloWorld|hello_world|helloWorld|hello-world");
}

#[test]
fn placeholder_helpers_through_dispatch() {
    assert_eq!(apply_text_helper(TextHelper::MybatisParam, "userId"), "#{userId}");
    assert_eq!(apply_text_helper(TextHelper::VueParam, "userName"), "{{userName}}");
}

#[test]
fn helper_names_in_registration_order() {
    let names: Vec<&str> = text_helpers().into_iter().map(|h| h.name()).collect();
    assert_eq!(
        names,
        vec!["pascal_case", "snake_case", "camel_case", "kebab_case", "mybatis_param", "vue_param"]
    );
}

use crud_cli::i18n::{catalog_from_tree, MessageTree};

fn text(s: &str) -> MessageTree {
    MessageTree::Text(s.to_string())
}

#[test]
fn catalog_flattens_nested_tables_to_dotted_keys() {
    let tree = MessageTree::Table(vec![
        (
            "gen".to_string(),
            MessageTree::Table(vec![(
                "success".to_string(),
                MessageTree::Table(vec![
                    ("written".to_string(), text("Wrote {count} files")),
                    ("dry_run".to_string(), text("Would write {count}")),
                ]),
            )]),
        ),
        ("version".to_string(), MessageTree::Other),
        ("title".to_string(), text("crud-cli")),
    ]);
    let c = catalog_from_tree(&tree);
    assert_eq!(c.len(), 3);
    assert_eq!(c.get("gen.success.written").map(String::as_str), Some("Wrote {count} files"));
    assert_eq!(c.get("gen.success.dry_run").map(String::as_str), Some("Would write {count}"));
    assert_eq!(c.get("title").map(String::as_str), Some("crud-cli"));
    assert!(c.get("version").is_none());
}

#[test]
fn later_catalog_key_replaces_earlier() {
    let tree = MessageTree::Table(vec![
        ("a.b".to_string(), text("first")),
        ("a".to_string(), MessageTree::Table(vec![("b".to_string(), text("second"))])),
    ]);
    let c = catalog_from_tree(&tree);
    assert_eq!(c.len(), 1);
    assert_eq!(c.get("a.b").map(String::as_str), Some("second"));
}

#[test]
fn no_escape_list_generic() {
    assert_eq!(render_template("<List<{{x}}>>", r#"{"x":"T"}"#).expect("render"), "<List<T>>");
}

#[test]
fn text_helper_argument_failures() {
    let err = render_template("{{pascal_case 3}}", "{}").expect_err("err");
    assert!(err.msg.contains("PascalCaseHelper param with name v type mismatch for str"));
    let err = render_template("{{ty_map 3}}", "{}").expect_err("err");
    assert!(err.msg.contains("ty_map: expected string, got 3"));
    assert!(render_template("{{x}}", "not json").is_err());
}
