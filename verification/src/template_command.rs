//! `template list` and `template use`: the listing lines, and the switch of
//! a project's template with its confirmation rule.

use vstd::prelude::*;

use crate::config::{Backend, Frontend, ProjectSection, SetupConfig, TemplateRef, backend_key, frontend_key};
use crate::error::{ErrorEnvelope, Kind, detail_is_text};
use crate::i18n::{CatalogMessage, arg_views};
use crate::template_meta_global::InstalledTemplate;
use crate::text::{concat2, owned, str_eq};

verus! {

/// Two backends are the same language.
pub open spec fn same_backend(a: Backend, b: Backend) -> bool {
    backend_key(a) == backend_key(b) && (a is Custom) == (b is Custom)
}

/// Two frontends are the same language.
pub open spec fn same_frontend(a: Frontend, b: Frontend) -> bool {
    frontend_key(a) == frontend_key(b) && (a is Custom) == (b is Custom)
}

fn same_backend_exec(a: &Backend, b: &Backend) -> (r: bool)
    ensures
        r == same_backend(*a, *b),
{
    let ca = match a {
        Backend::Custom(_) => true,
        _ => false,
    };
    let cb = match b {
        Backend::Custom(_) => true,
        _ => false,
    };
    ca == cb && str_eq(a.as_key(), b.as_key())
}

fn same_frontend_exec(a: &Frontend, b: &Frontend) -> (r: bool)
    ensures
        r == same_frontend(*a, *b),
{
    let ca = match a {
        Frontend::Custom(_) => true,
        _ => false,
    };
    let cb = match b {
        Frontend::Custom(_) => true,
        _ => false,
    };
    ca == cb && str_eq(a.as_key(), b.as_key())
}

/// Switching to the template changes the project's languages.
pub open spec fn languages_differ(project: ProjectSection, t: InstalledTemplate) -> bool {
    !same_backend(project.backend, t.manifest.backend) || !same_frontend(
        project.frontend,
        t.manifest.frontend,
    )
}

/// Whether switching to `t` changes the project's backend or frontend.
pub fn backend_or_frontend_differ(project: &ProjectSection, t: &InstalledTemplate) -> (r: bool)
    ensures
        r == languages_differ(*project, *t),
{
    !same_backend_exec(&project.backend, &t.manifest.backend) || !same_frontend_exec(
        &project.frontend,
        &t.manifest.frontend,
    )
}

/// The failure for a `template use` argument that is not `name[@version]`.
pub fn invalid_template_ref(spec: &str, reason: &str) -> (e: ErrorEnvelope)
    ensures
        e.is_kind(Kind::UserError),
        e.msg@ == "invalid template: "@ + reason@,
        e.hint@.len() == 0,
        e.details@.dom() == set!["flag"@, "value"@],
        detail_is_text(e.details@["flag"@], "template"@),
        detail_is_text(e.details@["value"@], spec@),
{
    let e = ErrorEnvelope::user_error(
        concat2("invalid template: ", reason),
        Some("template"),
        Some(spec),
        String::new(),
    );
    assert(e.details@.dom() =~= set!["flag"@, "value"@]);
    e
}

/// The failure when the project has no `setup.toml` at `path`.
pub fn missing_setup_error(path: &str) -> (e: ErrorEnvelope)
    ensures
        e.is_kind(Kind::UserError),
        e.msg@ == "missing "@ + path@,
        e.hint@ == "template.use.missing_setup"@,
        e.details@.dom().len() == 0,
{
    let e = ErrorEnvelope::user_error(
        concat2("missing ", path),
        None,
        None,
        owned("template.use.missing_setup"),
    );
    assert(e.details@.dom() =~= Set::<Seq<char>>::empty());
    e
}

/// The arguments of the switch confirmation.
pub open spec fn confirm_args(project: ProjectSection, t: InstalledTemplate) -> Seq<(Seq<char>, Seq<char>)> {
    seq![
        ("name"@, t.name@),
        ("b"@, backend_key(t.manifest.backend)),
        ("f"@, frontend_key(t.manifest.frontend)),
        ("cb"@, backend_key(project.backend)),
        ("cf"@, frontend_key(project.frontend)),
    ]
}

/// The confirmation asked before switching the project to `t`.
pub fn use_confirm_message(project: &ProjectSection, t: &InstalledTemplate) -> (m: CatalogMessage)
    ensures
        m@ == ("template.use.confirm"@, confirm_args(*project, *t)),
{
    let args = vec![
        (owned("name"), t.name.clone()),
        (owned("b"), owned(t.manifest.backend.as_key())),
        (owned("f"), owned(t.manifest.frontend.as_key())),
        (owned("cb"), owned(project.backend.as_key())),
        (owned("cf"), owned(project.frontend.as_key())),
    ];
    let m = CatalogMessage { key: owned("template.use.confirm"), args };
    assert(arg_views(m.args@) =~= confirm_args(*project, *t));
    m
}

/// What `template use` does before writing the setup.
#[derive(Debug, PartialEq, Eq, Structural)]
pub enum UseDecision {
    /// Switch without asking.
    Apply,
    /// Ask the user; switch only when they agree.
    Ask,
    /// Refuse: a confirmation is needed and nobody can give it.
    Refuse,
}

/// A switch that changes languages needs a confirmation, unless `--yes`;
/// it is asked only when a person can answer (`can_prompt`: an interactive
/// terminal outside agent mode).
pub fn use_decision(needs_confirm: bool, yes: bool, can_prompt: bool) -> (d: UseDecision)
    ensures
        !needs_confirm || yes ==> d == UseDecision::Apply,
        needs_confirm && !yes && can_prompt ==> d == UseDecision::Ask,
        needs_confirm && !yes && !can_prompt ==> d == UseDecision::Refuse,
{
    if !needs_confirm || yes {
        UseDecision::Apply
    } else if can_prompt {
        UseDecision::Ask
    } else {
        UseDecision::Refuse
    }
}

/// The failure when a switch needs a confirmation nobody can give; its hint
/// is the confirmation message.
pub fn confirmation_required_error(confirm: CatalogMessage) -> (e: ErrorEnvelope)
    ensures
        e.is_kind(Kind::UserError),
        e.msg@ == "template switch requires confirmation"@,
        e.hint@ == confirm.key@,
        arg_views(e.hint_args@) == arg_views(confirm.args@),
        e.details@.dom().len() == 0,
{
    let mut e = ErrorEnvelope::user_error(
        owned("template switch requires confirmation"),
        None,
        None,
        confirm.key,
    );
    e.hint_args = confirm.args;
    assert(e.details@.dom() =~= Set::<Seq<char>>::empty());
    e
}

/// The project switched to template `t`: its languages, and a pinned
/// reference `name@version`; everything else kept.
pub fn apply_template(cfg: SetupConfig, t: &InstalledTemplate) -> (r: SetupConfig)
    ensures
        r.project.backend == t.manifest.backend,
        r.project.frontend == t.manifest.frontend,
        r.project.template matches Some(tr) && tr.name@ == t.name@ && (tr.version matches Some(v)
            && v@ == t.version@),
        r.paths == cfg.paths,
        r.variables == cfg.variables,
        r.templates == cfg.templates,
        r.type_map == cfg.type_map,
{
    let mut cfg = cfg;
    cfg.project.backend = t.manifest.backend.dup();
    cfg.project.frontend = t.manifest.frontend.dup();
    cfg.project.template = Some(TemplateRef { name: t.name.clone(), version: Some(t.version.clone()) });
    cfg
}

/// The report after switching: template name, version and the setup file.
pub fn use_applied_message(t: &InstalledTemplate, setup_path: &str) -> (m: CatalogMessage)
    ensures
        m@ == (
            "template.use.applied"@,
            seq![("name"@, t.name@), ("version"@, t.version@), ("path"@, setup_path@)],
        ),
{
    let args = vec![
        (owned("name"), t.name.clone()),
        (owned("version"), t.version.clone()),
        (owned("path"), owned(setup_path)),
    ];
    let m = CatalogMessage { key: owned("template.use.applied"), args };
    assert(arg_views(m.args@) =~= seq![
        ("name"@, t.name@),
        ("version"@, t.version@),
        ("path"@, setup_path@),
    ]);
    m
}

/// The `template list` line of one installed template.
pub open spec fn list_entry_view(t: InstalledTemplate) -> (Seq<char>, Seq<(Seq<char>, Seq<char>)>) {
    (
        "template.list.entry"@,
        seq![
            ("name"@, t.name@),
            ("version"@, t.version@),
            ("backend"@, backend_key(t.manifest.backend)),
            ("frontend"@, frontend_key(t.manifest.frontend)),
            ("description"@, match t.manifest.description {
                Some(d) => d@,
                None => Seq::<char>::empty(),
            }),
        ],
    )
}

/// The lines of `template list`, one per installed template in order; a
/// single "nothing installed" line when there is none.
pub fn list_lines(installed: &Vec<InstalledTemplate>) -> (r: Vec<CatalogMessage>)
    ensures
        installed@.len() == 0 ==> r@.len() == 1 && r@[0]@ == ("template.list.empty"@, Seq::<(Seq<char>, Seq<char>)>::empty()),
        installed@.len() > 0 ==> r@.len() == installed@.len() && forall|i: int|
            0 <= i < r@.len() ==> (#[trigger] r@[i])@ == list_entry_view(installed@[i]),
{
    let mut r: Vec<CatalogMessage> = Vec::new();
    if installed.len() == 0 {
        let m = CatalogMessage { key: owned("template.list.empty"), args: Vec::new() };
        assert(arg_views(m.args@) =~= Seq::<(Seq<char>, Seq<char>)>::empty());
        r.push(m);
        return r;
    }
    let mut i: usize = 0;
    while i < installed.len()
        invariant
            i <= installed@.len(),
            r@.len() == i,
            forall|k: int| 0 <= k < i ==> (#[trigger] r@[k])@ == list_entry_view(installed@[k]),
        decreases installed@.len() - i,
    {
        let t = &installed[i];
        let desc = match &t.manifest.description {
            Some(d) => d.clone(),
            None => String::new(),
        };
        let args = vec![
            (owned("name"), t.name.clone()),
            (owned("version"), t.version.clone()),
            (owned("backend"), owned(t.manifest.backend.as_key())),
            (owned("frontend"), owned(t.manifest.frontend.as_key())),
            (owned("description"), desc),
        ];
        let m = CatalogMessage { key: owned("template.list.entry"), args };
        assert(arg_views(m.args@) =~= list_entry_view(installed@[i as int]).1);
        r.push(m);
        i = i + 1;
    }
    r
}

} // verus!
