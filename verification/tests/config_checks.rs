use crud_cli::config::{
    check_setup_variables, check_user_config, Backend, Frontend, OverwritePolicy, RuntimeConfig,
    SetupConfig, SetupSelections, SetupUserConfig, UserSelections, EnabledTypes,
};
use crud_cli::error::{Detail, Kind};
use crud_cli::gen_context::context_variables;
use crud_cli::mcp_context::{find_nearest_crud_root, AscentStep, MAX_ASCENT_DEPTH};
use crud_cli::paths::project_templates_dir;
use crud_cli::strmap::StrMap;
use crud_cli::value::DataValue;

fn project() -> SetupConfig {
    SetupConfig::from_selections(SetupSelections {
        backend: Backend::Java,
        frontend: Frontend::Vue,
        template: None,
    })
}

fn user(name: &str, email: &str) -> SetupUserConfig {
    SetupUserConfig::from_user_selections(UserSelections {
        name: name.to_string(),
        email: email.to_string(),
        overwrite_policy: OverwritePolicy::ForceOnly,
        enabled_types: EnabledTypes::Backend,
    })
}

#[test]
fn setup_variables_without_reserved_names_pass() {
    let mut cfg = project();
    cfg.variables.0.insert("author".to_string(), DataValue::Text("x".to_string()));
    let checked = check_setup_variables(cfg).expect("accepted");
    assert_eq!(checked.variables.0.len(), 1);
}

#[test]
fn reserved_setup_variable_is_refused() {
    let mut cfg = project();
    cfg.variables.0.insert("zeta".to_string(), DataValue::Bool(true));
    cfg.variables.0.insert("model".to_string(), DataValue::Text("x".to_string()));
    cfg.variables.0.insert("date".to_string(), DataValue::Text("y".to_string()));
    let e = check_setup_variables(cfg).err().expect("refused");
    assert_eq!(e.kind, Kind::ConfigError);
    // `date` comes first in key order.
    assert_eq!(e.msg, "reserved variable name: date");
    assert_eq!(e.hint, "error.config.reserved_variable");
    assert!(matches!(e.details.get("variable"), Some(Detail::Text(v)) if v == "date"));
    assert!(matches!(e.details.get("reason"), Some(Detail::Text(v)) if v == "reserved_variable"));
}

#[test]
fn blank_user_name_and_email_are_refused() {
    let e = check_user_config(user("  ", "a@b.c")).err().expect("refused");
    assert_eq!(e.kind, Kind::ConfigError);
    assert_eq!(e.msg, "user.name must not be empty");
    let e = check_user_config(user("Alice", "\t")).err().expect("refused");
    assert_eq!(e.msg, "user.email must not be empty");
    let ok = check_user_config(user("Alice", "a@b.c")).expect("accepted");
    assert_eq!(ok.user.name, "Alice");
}

#[test]
fn runtime_defaults_without_user_file() {
    let rt = RuntimeConfig::from_files(project(), None);
    assert_eq!(rt.overwrite_policy(), OverwritePolicy::Never);
    assert_eq!(rt.enabled_types(), EnabledTypes::All);
    assert!(rt.user.user.name.is_empty());
    let rt = RuntimeConfig::from_files(project(), Some(user("Bob", "b@x.y")));
    assert_eq!(rt.overwrite_policy(), OverwritePolicy::ForceOnly);
    assert_eq!(rt.user.user.email, "b@x.y");
}

#[test]
fn template_variables_override_project_variables() {
    let mut p: StrMap<DataValue> = StrMap::new();
    p.insert("a".to_string(), DataValue::Text("project".to_string()));
    p.insert("b".to_string(), DataValue::Bool(false));
    let mut r: StrMap<DataValue> = StrMap::new();
    r.insert("b".to_string(), DataValue::Bool(true));
    r.insert("c".to_string(), DataValue::Null);
    let m = context_variables(&p, &r);
    assert_eq!(m.len(), 3);
    assert!(matches!(m.get("a"), Some(DataValue::Text(t)) if t == "project"));
    assert!(matches!(m.get("b"), Some(DataValue::Bool(true))));
    assert!(matches!(m.get("c"), Some(DataValue::Null)));
}

#[test]
fn templates_dir_is_under_dot_crud() {
    assert_eq!(project_templates_dir("/work/app"), "/work/app/.crud/templates");
}

fn step(dir: &str, has_setup: bool, within_home: bool) -> AscentStep {
    AscentStep { dir: dir.to_string(), has_setup, within_home }
}

#[test]
fn find_root_in_parent_directory() {
    let steps = vec![
        step("/tmp/x/repo/packages/app", false, false),
        step("/tmp/x/repo/packages", false, false),
        step("/tmp/x/repo", true, false),
        step("/tmp/x", false, false),
        step("/tmp", false, false),
        step("/", false, false),
    ];
    assert_eq!(find_nearest_crud_root(&steps), Some("/tmp/x/repo".to_string()));
}

#[test]
fn find_root_does_not_escape_home_when_start_under_home() {
    let steps = vec![
        step("/home/u/orphan/deep", false, true),
        step("/home/u/orphan", false, true),
        step("/home/u", false, true),
        step("/home", true, false),
        step("/", false, false),
    ];
    assert_eq!(find_nearest_crud_root(&steps), None);
    // The same chain outside the home directory does find it.
    let outside: Vec<_> = steps.iter().map(|s| step(&s.dir, s.has_setup, false)).collect();
    assert_eq!(find_nearest_crud_root(&outside), Some("/home".to_string()));
}

#[test]
fn find_root_stops_after_max_depth() {
    let mut steps: Vec<_> = (0..=MAX_ASCENT_DEPTH).map(|i| step(&format!("/d{i}"), false, false)).collect();
    steps.push(step("/far", true, false));
    assert_eq!(find_nearest_crud_root(&steps), None);
    steps[MAX_ASCENT_DEPTH] = step("/last", true, false);
    assert_eq!(find_nearest_crud_root(&steps), Some("/last".to_string()));
}
