//! The command-line surface as plain values (`setup`, `gen`, `validate`,
//! `template`, `mcp`) and the checks and conversions on its flags.

use vstd::prelude::*;

use crate::config::{UserSection, OverwriteSection, ScopeSection, 
    Backend, EnabledTypes, Frontend, OverwritePolicy, SetupConfig, SetupFlagOverlay,
    SetupSelections, SetupUserConfig, TemplateRef, UserSelections, spec_backend_parse,
    spec_frontend_parse, spec_template_ref_parse, backend_key, frontend_key, opt_view,
    parse_type_map_fallback,
};
use crate::error::{ErrorEnvelope, Kind, detail_is_text};
use crate::strmap::{StrMap, text_view};
use crate::template_variables::{
    VarLiteral, VarLiteralView, parse_var_arg, is_bad_var_arg, var_key, var_val, var_value_literal,
};
use crate::text::{
    to_chars, trim, trim_range, owned, concat2, find_first, find_first_in, string_of_range,
    debug_quote, debug_quoted, split_char, split_ranges, string_views,
};
use crate::type_map::Fallback;

verus! {

/// Root command line.
pub struct Cli {
    /// Agent/machine mode: JSON errors on stderr, empty success stdout.
    pub agent: bool,
    pub command: Option<Commands>,
}

pub enum Commands {
    Setup(SetupArgs),
    Gen(GenArgs),
    Validate(ValidateArgs),
    Template(TemplateArgs),
    Mcp(McpArgs),
}

/// `mcp` flags.
pub struct McpArgs {
    /// Project root (overrides the client's workspace roots and the cwd).
    pub path: Option<String>,
}

/// `--overwrite-policy` values.
#[derive(Clone, Copy)]
pub enum SetupOverwritePolicy {
    Never,
    ForceOnly,
    Always,
}

/// `--enabled-types` values.
#[derive(Clone, Copy)]
pub enum SetupEnabledTypes {
    All,
    Backend,
    Frontend,
}

pub open spec fn policy_of(p: SetupOverwritePolicy) -> OverwritePolicy {
    match p {
        SetupOverwritePolicy::Never => OverwritePolicy::Never,
        SetupOverwritePolicy::ForceOnly => OverwritePolicy::ForceOnly,
        SetupOverwritePolicy::Always => OverwritePolicy::Always,
    }
}

pub open spec fn enabled_of(e: SetupEnabledTypes) -> EnabledTypes {
    match e {
        SetupEnabledTypes::All => EnabledTypes::All,
        SetupEnabledTypes::Backend => EnabledTypes::Backend,
        SetupEnabledTypes::Frontend => EnabledTypes::Frontend,
    }
}

impl SetupOverwritePolicy {
    /// The configuration value of the flag.
    pub fn to_policy(self) -> (p: OverwritePolicy)
        ensures
            p == policy_of(self),
    {
        match self {
            SetupOverwritePolicy::Never => OverwritePolicy::Never,
            SetupOverwritePolicy::ForceOnly => OverwritePolicy::ForceOnly,
            SetupOverwritePolicy::Always => OverwritePolicy::Always,
        }
    }
}

impl SetupEnabledTypes {
    /// The configuration value of the flag.
    pub fn to_enabled(self) -> (e: EnabledTypes)
        ensures
            e == enabled_of(self),
    {
        match self {
            SetupEnabledTypes::All => EnabledTypes::All,
            SetupEnabledTypes::Backend => EnabledTypes::Backend,
            SetupEnabledTypes::Frontend => EnabledTypes::Frontend,
        }
    }
}

/// `setup` flags. Default scope: the user file; `--project` switches.
pub struct SetupArgs {
    pub project: bool,
    pub backend: Option<String>,
    pub frontend: Option<String>,
    pub template: Option<String>,
    pub lang: Vec<String>,
    pub aux: Vec<String>,
    pub overwrite_policy: Option<SetupOverwritePolicy>,
    pub enabled_types: Option<SetupEnabledTypes>,
    pub user_name: Option<String>,
    pub user_email: Option<String>,
    pub type_map_fallback: Option<String>,
    pub force: bool,
}

/// `gen` flags.
pub struct GenArgs {
    pub name: Option<String>,
    pub fields: Option<String>,
    pub file: Option<String>,
    pub package: Option<String>,
    pub table: Option<String>,
    pub table_comment: Option<String>,
    pub type_: Option<String>,
    pub dry_run: bool,
    pub stdout: bool,
    pub force: bool,
    pub output: Option<String>,
    pub var: Vec<String>,
}

/// `validate` flags.
pub struct ValidateArgs {
    pub type_: Option<String>,
}

/// `template` subcommands.
pub struct TemplateArgs {
    pub command: TemplateCommand,
}

pub enum TemplateCommand {
    /// Switch the project to an installed template (`name[@version]`).
    Use { name: String, yes: bool },
    /// List installed templates.
    List,
    /// Download a template from a GitHub repository.
    Install { name: Option<String>, repo: Option<String>, force: bool },
}

// ---------------------------------------------------------------------------
// Flag errors
// ---------------------------------------------------------------------------

/// `e` reports a required flag that is missing.
pub open spec fn is_missing_flag(e: ErrorEnvelope, flag: Seq<char>) -> bool {
    &&& e.is_kind(Kind::UserError)
    &&& e.msg@ == "missing required flag --"@ + flag
    &&& e.details@.dom() == set!["flag"@]
    &&& e.details@.contains_key("flag"@)
    &&& detail_is_text(e.details@["flag"@], flag)
    &&& e.hint@ == "error.cli.missing_flag"@
    &&& e.hint_args@.len() == 1
    &&& e.hint_args@[0].0@ == "flag"@
    &&& e.hint_args@[0].1@ == flag
}

/// `e` reports a flag given as a blank value.
pub open spec fn is_empty_flag(e: ErrorEnvelope, flag: Seq<char>) -> bool {
    &&& e.is_kind(Kind::UserError)
    &&& e.msg@ == "--"@ + flag + " must not be empty"@
    &&& e.details@.dom() == set!["flag"@]
    &&& e.details@.contains_key("flag"@)
    &&& detail_is_text(e.details@["flag"@], flag)
    &&& e.hint@ == "error.cli.empty_flag"@
    &&& e.hint_args@.len() == 1
    &&& e.hint_args@[0].0@ == "flag"@
    &&& e.hint_args@[0].1@ == flag
}

/// The user flags are all given, and the name and e-mail are not blank.
pub open spec fn user_flags_ok(a: SetupArgs) -> bool {
    &&& a.user_name matches Some(n) && trim(n@).len() > 0
    &&& a.user_email matches Some(m) && trim(m@).len() > 0
    &&& a.overwrite_policy is Some
}

/// The failure of the user flags: the first one missing (name, e-mail,
/// overwrite policy), else the first one blank (name, e-mail).
pub open spec fn user_flags_error(a: SetupArgs, e: ErrorEnvelope) -> bool {
    match (a.user_name, a.user_email, a.overwrite_policy) {
        (None, _, _) => is_missing_flag(e, "user-name"@),
        (Some(_), None, _) => is_missing_flag(e, "user-email"@),
        (Some(_), Some(_), None) => is_missing_flag(e, "overwrite-policy"@),
        (Some(n), Some(_), Some(_)) => if trim(n@).len() == 0 {
            is_empty_flag(e, "user-name"@)
        } else {
            is_empty_flag(e, "user-email"@)
        },
    }
}

/// `s` holds what the user flags give: the name and e-mail as written, the
/// overwrite policy, and the template scope (all types when not given).
pub open spec fn user_selections_of_flags(a: SetupArgs, s: UserSelections) -> bool {
    &&& a.user_name matches Some(n) && s.name == n
    &&& a.user_email matches Some(m) && s.email == m
    &&& a.overwrite_policy matches Some(p) && s.overwrite_policy == policy_of(p)
    &&& s.enabled_types == (match a.enabled_types {
        Some(e) => enabled_of(e),
        None => EnabledTypes::All,
    })
}

/// The user config built from selections `s`.
pub open spec fn user_config_of(s: UserSelections) -> SetupUserConfig {
    SetupUserConfig {
        user: UserSection { name: s.name, email: s.email },
        overwrite: OverwriteSection { overwrite_policy: s.overwrite_policy },
        scope: ScopeSection { enabled_types: s.enabled_types },
    }
}

/// Converting the user flags into a user config is validating them
/// non-interactively and building the config from the selections: the
/// config `to_user_config` may give is the one built from selections that
/// `require_user_non_interactive` may give, and the two fail on the same
/// flags with the same envelope (both are stated by `user_flags_ok`,
/// `user_selections_of_flags` and `user_flags_error`).
pub proof fn lemma_user_config_from_selections(a: SetupArgs, s: UserSelections, c: SetupUserConfig)
    requires
        user_selections_of_flags(a, s),
    ensures
        (exists|s2: UserSelections| user_selections_of_flags(a, s2) && user_config_of(s2) == c) <==> c
            == user_config_of(s),
{
    if exists|s2: UserSelections| user_selections_of_flags(a, s2) && user_config_of(s2) == c {
        let s2 = choose|s2: UserSelections| user_selections_of_flags(a, s2) && user_config_of(s2) == c;
        assert(s2 == s);
    }
}

/// `e` reports the value `value` of `--flag` as invalid for `reason`.
pub open spec fn is_invalid_value(e: ErrorEnvelope, flag: Seq<char>, value: Seq<char>, reason: Seq<char>) -> bool {
    &&& e.is_kind(Kind::UserError)
    &&& e.msg@ == "--"@ + flag + " "@ + debug_quoted(value) + ": "@ + reason
    &&& e.details@.contains_key("flag"@)
    &&& detail_is_text(e.details@["flag"@], flag)
    &&& e.details@.contains_key("value"@)
    &&& detail_is_text(e.details@["value"@], value)
    &&& e.hint@ == "error.cli.clap_retry"@
}

pub fn missing_flag(flag: &str) -> (e: ErrorEnvelope)
    ensures
        is_missing_flag(e, flag@),
{
    let e = ErrorEnvelope::user_error(
        concat2("missing required flag --", flag),
        Some(flag),
        None,
        owned("error.cli.missing_flag"),
    );
    assert(e.details@.dom() =~= set!["flag"@]);
    e.with_hint_args(vec![(owned("flag"), owned(flag))])
}

pub fn empty_flag(flag: &str) -> (e: ErrorEnvelope)
    ensures
        is_empty_flag(e, flag@),
{
    let head = concat2("--", flag);
    let e = ErrorEnvelope::user_error(
        concat2(head.as_str(), " must not be empty"),
        Some(flag),
        None,
        owned("error.cli.empty_flag"),
    );
    assert(e.details@.dom() =~= set!["flag"@]);
    e.with_hint_args(vec![(owned("flag"), owned(flag))])
}

pub fn invalid_value(flag: &str, value: &str, reason: &str) -> (e: ErrorEnvelope)
    ensures
        is_invalid_value(e, flag@, value@, reason@),
{
    let a = concat2("--", flag);
    let b = concat2(a.as_str(), " ");
    let q = debug_quote(value);
    let c = concat2(b.as_str(), q.as_str());
    let d = concat2(c.as_str(), ": ");
    ErrorEnvelope::user_error(
        concat2(d.as_str(), reason),
        Some(flag),
        Some(value),
        owned("error.cli.clap_retry"),
    )
}

// ---------------------------------------------------------------------------
// setup
// ---------------------------------------------------------------------------

/// `KEY=PATH` entries of a repeatable flag, trimmed, later entries winning;
/// or the first malformed entry with why.
pub open spec fn path_entries(items: Seq<Seq<char>>, acc: Map<Seq<char>, Seq<char>>) -> Result<
    Map<Seq<char>, Seq<char>>,
    (Seq<char>, Seq<char>),
>
    decreases items.len(),
{
    if items.len() == 0 {
        Ok(acc)
    } else {
        let raw = items[0];
        match find_first(raw, '=') {
            None => Err((raw, "expected KEY=PATH"@)),
            Some(i) => {
                let k = trim(raw.take(i));
                let v = trim(raw.skip(i + 1));
                if k.len() == 0 || v.len() == 0 {
                    Err((raw, "KEY and PATH must be non-empty"@))
                } else {
                    path_entries(items.drop_first(), acc.insert(k, v))
                }
            },
        }
    }
}

/// `b` is what `--backend` gives (`flag`: its value, if passed).
pub open spec fn backend_from_flag(b: Option<Backend>, flag: Option<String>) -> bool {
    match flag {
        None => b is None,
        Some(v) => b matches Some(x) && spec_backend_parse(v@) matches Ok((k, c)) && backend_key(x)
            == k && (x is Custom) == c,
    }
}

/// `f` is what `--frontend` gives.
pub open spec fn frontend_from_flag(f: Option<Frontend>, flag: Option<String>) -> bool {
    match flag {
        None => f is None,
        Some(v) => f matches Some(x) && spec_frontend_parse(v@) matches Ok((k, c)) && frontend_key(x)
            == k && (x is Custom) == c,
    }
}

/// `t` is what `--template` gives.
pub open spec fn template_from_flag(t: Option<TemplateRef>, flag: Option<String>) -> bool {
    match flag {
        None => t is None,
        Some(v) => t matches Some(x) && spec_template_ref_parse(v@) matches Ok((n, ver)) && x.name@
            == n && opt_view(x.version) == ver,
    }
}

/// `f` is what `--type-map-fallback` gives: `passthrough`, `error`, or any
/// other text as a literal.
pub open spec fn fallback_from_flag(f: Option<Fallback>, flag: Option<String>) -> bool {
    match flag {
        None => f is None,
        Some(v) => f matches Some(x) && (if v@ == "passthrough"@ {
            x is Passthrough
        } else if v@ == "error"@ {
            x is Error
        } else {
            x matches Fallback::Literal(l) && l@ == v@
        }),
    }
}

impl SetupArgs {
    /// Any project-scope flag is given (the wizard is skipped).
    pub fn is_project_non_interactive(&self) -> (b: bool)
        ensures
            b == (self.backend is Some || self.frontend is Some || self.template is Some
                || self.lang@.len() > 0 || self.aux@.len() > 0),
    {
        self.backend.is_some() || self.frontend.is_some() || self.template.is_some()
            || self.lang.len() > 0 || self.aux.len() > 0
    }

    /// Any user-scope flag is given (the wizard is skipped).
    pub fn is_user_non_interactive(&self) -> (b: bool)
        ensures
            b == (self.user_name is Some || self.user_email is Some || self.overwrite_policy is Some
                || self.enabled_types is Some),
    {
        self.user_name.is_some() || self.user_email.is_some() || self.overwrite_policy.is_some()
            || self.enabled_types.is_some()
    }

    /// `--project` was passed.
    pub fn writes_project(&self) -> (b: bool)
        ensures
            b == self.project,
    {
        self.project
    }

    /// `--backend`, parsed.
    pub fn parse_backend(&self) -> (r: Result<Option<Backend>, ErrorEnvelope>)
        ensures
            match self.backend {
                None => r matches Ok(None),
                Some(v) => match spec_backend_parse(v@) {
                    Ok((k, c)) => r matches Ok(Some(b)) && backend_key(b) == k && (b is Custom) == c,
                    Err(m) => r matches Err(e) && is_invalid_value(e, "backend"@, v@, m),
                },
            },
    {
        match &self.backend {
            None => Ok(None),
            Some(v) => match Backend::parse(v.as_str()) {
                Ok(b) => Ok(Some(b)),
                Err(m) => Err(invalid_value("backend", v.as_str(), m)),
            },
        }
    }

    /// `--frontend`, parsed.
    pub fn parse_frontend(&self) -> (r: Result<Option<Frontend>, ErrorEnvelope>)
        ensures
            match self.frontend {
                None => r matches Ok(None),
                Some(v) => match spec_frontend_parse(v@) {
                    Ok((k, c)) => r matches Ok(Some(f)) && frontend_key(f) == k && (f is Custom) == c,
                    Err(m) => r matches Err(e) && is_invalid_value(e, "frontend"@, v@, m),
                },
            },
    {
        match &self.frontend {
            None => Ok(None),
            Some(v) => match Frontend::parse(v.as_str()) {
                Ok(f) => Ok(Some(f)),
                Err(m) => Err(invalid_value("frontend", v.as_str(), m)),
            },
        }
    }

    /// `--template`, parsed.
    pub fn parse_template(&self) -> (r: Result<Option<TemplateRef>, ErrorEnvelope>)
        ensures
            match self.template {
                None => r matches Ok(None),
                Some(v) => match spec_template_ref_parse(v@) {
                    Ok((n, ver)) => r matches Ok(Some(t)) && t.name@ == n && opt_view(t.version) == ver,
                    Err(m) => r matches Err(e) && is_invalid_value(e, "template"@, v@, m),
                },
            },
    {
        match &self.template {
            None => Ok(None),
            Some(v) => match TemplateRef::parse(v.as_str()) {
                Ok(t) => Ok(Some(t)),
                Err(m) => Err(invalid_value("template", v.as_str(), m)),
            },
        }
    }

    /// The `KEY=PATH` entries of `--lang` / `--aux` (named `flag`).
    pub fn parse_path_kv(flag: &str, items: &Vec<String>) -> (r: Result<StrMap<String>, ErrorEnvelope>)
        ensures
            match path_entries(string_views(items@), Map::empty()) {
                Ok(m) => r matches Ok(out) && text_view(out@) == m,
                Err((raw, why)) => r matches Err(e) && is_invalid_value(e, flag@, raw, why),
            },
    {
        let ghost all = string_views(items@);
        let mut out: StrMap<String> = StrMap::new();
        let mut i: usize = 0;
        assert(all.skip(0) =~= all);
        assert(text_view(out@) =~= Map::<Seq<char>, Seq<char>>::empty());
        while i < items.len()
            invariant
                all == string_views(items@),
                i <= items@.len(),
                path_entries(all, Map::empty()) == path_entries(all.skip(i as int), text_view(out@)),
            decreases items@.len() - i,
        {
            let raw = &items[i];
            let ghost rest = all.skip(i as int);
            assert(rest[0] == raw@);
            assert(rest.drop_first() =~= all.skip(i + 1));
            let v = to_chars(raw.as_str());
            assert(v@.subrange(0, v@.len() as int) =~= raw@);
            match find_first_in(&v, 0, v.len(), '=') {
                None => {
                    return Err(invalid_value(flag, raw.as_str(), "expected KEY=PATH"));
                },
                Some(k) => {
                    assert(raw@.take(k as int) =~= v@.subrange(0, k as int));
                    assert(raw@.skip(k + 1) =~= v@.subrange(k + 1, v@.len() as int));
                    let (klo, khi) = trim_range(&v, 0, k);
                    let (vlo, vhi) = trim_range(&v, k + 1, v.len());
                    if klo == khi || vlo == vhi {
                        return Err(invalid_value(flag, raw.as_str(), "KEY and PATH must be non-empty"));
                    }
                    let key = string_of_range(&v, klo, khi);
                    let val = string_of_range(&v, vlo, vhi);
                    proof {
                        crate::strmap::lemma_text_view_insert(out@, key@, val);
                    }
                    out.insert(key, val);
                },
            }
            i = i + 1;
        }
        assert(all.skip(i as int) =~= Seq::<Seq<char>>::empty());
        Ok(out)
    }

    /// `--type-map-fallback`, parsed, when given.
    pub fn parsed_type_map_fallback(&self) -> (r: Option<Fallback>)
        ensures
            match self.type_map_fallback {
                None => r is None,
                Some(s) => r matches Some(f) && (s@ == "passthrough"@ ==> f is Passthrough) && (s@
                    == "error"@ ==> f is Error) && (s@ != "passthrough"@ && s@ != "error"@ ==> (
                f matches Fallback::Literal(l) && l@ == s@)),
            },
    {
        match &self.type_map_fallback {
            None => None,
            Some(s) => Some(parse_type_map_fallback(s.as_str())),
        }
    }

    /// The flag layer of the setup merge: each flag parsed, in the order
    /// backend, frontend, template, `--lang`, `--aux` (the first error wins).
    pub fn flag_overlay(&self) -> (r: Result<SetupFlagOverlay, ErrorEnvelope>)
        ensures
            r matches Ok(o) ==> o.overwrite_policy == (match self.overwrite_policy {
                Some(p) => Some(policy_of(p)),
                None => None,
            }) && o.enabled_types == (match self.enabled_types {
                Some(e) => Some(enabled_of(e)),
                None => None,
            }) && backend_from_flag(o.backend, self.backend) && frontend_from_flag(
                o.frontend,
                self.frontend,
            ) && template_from_flag(o.template, self.template) && fallback_from_flag(
                o.type_map_fallback,
                self.type_map_fallback,
            ) && path_entries(string_views(self.lang@), Map::empty()) == Ok::<
                Map<Seq<char>, Seq<char>>,
                (Seq<char>, Seq<char>),
            >(text_view(o.paths_lang@)) && path_entries(string_views(self.aux@), Map::empty())
                == Ok::<Map<Seq<char>, Seq<char>>, (Seq<char>, Seq<char>)>(text_view(o.paths_aux@)),
            r is Ok <==> (self.backend matches Some(v) ==> spec_backend_parse(v@) is Ok) && (
            self.frontend matches Some(v) ==> spec_frontend_parse(v@) is Ok) && (
            self.template matches Some(v) ==> spec_template_ref_parse(v@) is Ok) && path_entries(
                string_views(self.lang@),
                Map::empty(),
            ) is Ok && path_entries(string_views(self.aux@), Map::empty()) is Ok,
    {
        let backend = match self.parse_backend() {
            Ok(b) => b,
            Err(e) => {
                return Err(e);
            },
        };
        let frontend = match self.parse_frontend() {
            Ok(f) => f,
            Err(e) => {
                return Err(e);
            },
        };
        let template = match self.parse_template() {
            Ok(t) => t,
            Err(e) => {
                return Err(e);
            },
        };
        let paths_lang = match Self::parse_path_kv("lang", &self.lang) {
            Ok(m) => m,
            Err(e) => {
                return Err(e);
            },
        };
        let paths_aux = match Self::parse_path_kv("aux", &self.aux) {
            Ok(m) => m,
            Err(e) => {
                return Err(e);
            },
        };
        let overwrite_policy = match self.overwrite_policy {
            Some(p) => Some(p.to_policy()),
            None => None,
        };
        let enabled_types = match self.enabled_types {
            Some(e) => Some(e.to_enabled()),
            None => None,
        };
        Ok(
            SetupFlagOverlay {
                backend,
                frontend,
                template,
                overwrite_policy,
                enabled_types,
                type_map_fallback: self.parsed_type_map_fallback(),
                paths_lang,
                paths_aux,
            },
        )
    }

    /// The project selections of flag mode: `--backend` and `--frontend`
    /// are required, `--template` optional.
    pub fn require_project_non_interactive(&self) -> (r: Result<SetupSelections, ErrorEnvelope>)
        ensures
            self.backend is None ==> (r matches Err(e) && is_missing_flag(e, "backend"@)),
            match self.backend {
                Some(v) => match spec_backend_parse(v@) {
                    Err(m) => r matches Err(e) && is_invalid_value(e, "backend"@, v@, m),
                    Ok(_) => self.frontend is None ==> (r matches Err(e) && is_missing_flag(
                        e,
                        "frontend"@,
                    )),
                },
                None => true,
            },
            r matches Ok(s) ==> backend_from_flag(Some(s.backend), self.backend) && frontend_from_flag(
                Some(s.frontend),
                self.frontend,
            ) && template_from_flag(s.template, self.template),
            r is Ok <==> (self.backend matches Some(v) && spec_backend_parse(v@) is Ok) && (
            self.frontend matches Some(v) && spec_frontend_parse(v@) is Ok) && (
            self.template matches Some(v) ==> spec_template_ref_parse(v@) is Ok),
    {
        let backend = match self.parse_backend() {
            Ok(Some(b)) => b,
            Ok(None) => {
                return Err(missing_flag("backend"));
            },
            Err(e) => {
                return Err(e);
            },
        };
        let frontend = match self.parse_frontend() {
            Ok(Some(f)) => f,
            Ok(None) => {
                return Err(missing_flag("frontend"));
            },
            Err(e) => {
                return Err(e);
            },
        };
        let template = match self.parse_template() {
            Ok(t) => t,
            Err(e) => {
                return Err(e);
            },
        };
        Ok(SetupSelections { backend, frontend, template })
    }

    /// The user selections of flag mode: name, email and overwrite policy
    /// are required; enabled types default to all; name and email must not
    /// be blank.
    pub fn require_user_non_interactive(&self) -> (r: Result<UserSelections, ErrorEnvelope>)
        ensures
            r is Ok <==> user_flags_ok(*self),
            r matches Ok(s) ==> user_selections_of_flags(*self, s),
            r matches Err(e) ==> user_flags_error(*self, e),
            self.user_name is None ==> (r matches Err(e) && is_missing_flag(e, "user-name"@)),
            self.user_name is Some && self.user_email is None ==> (r matches Err(e)
                && is_missing_flag(e, "user-email"@)),
            self.user_name is Some && self.user_email is Some && self.overwrite_policy is None ==> (
            r matches Err(e) && is_missing_flag(e, "overwrite-policy"@)),
            match (self.user_name, self.user_email, self.overwrite_policy) {
                (Some(n), Some(m), Some(p)) => if trim(n@).len() == 0 {
                    r matches Err(e) && is_empty_flag(e, "user-name"@)
                } else if trim(m@).len() == 0 {
                    r matches Err(e) && is_empty_flag(e, "user-email"@)
                } else {
                    r matches Ok(s) && s.name == n && s.email == m && s.overwrite_policy == policy_of(
                        p,
                    ) && s.enabled_types == (match self.enabled_types {
                        Some(e) => enabled_of(e),
                        None => EnabledTypes::All,
                    })
                },
                _ => true,
            },
    {
        let name = match &self.user_name {
            Some(n) => n.clone(),
            None => {
                return Err(missing_flag("user-name"));
            },
        };
        let email = match &self.user_email {
            Some(m) => m.clone(),
            None => {
                return Err(missing_flag("user-email"));
            },
        };
        let policy = match self.overwrite_policy {
            Some(p) => p.to_policy(),
            None => {
                return Err(missing_flag("overwrite-policy"));
            },
        };
        let enabled_types = match self.enabled_types {
            Some(e) => e.to_enabled(),
            None => EnabledTypes::All,
        };
        if blank(name.as_str()) {
            return Err(empty_flag("user-name"));
        }
        if blank(email.as_str()) {
            return Err(empty_flag("user-email"));
        }
        Ok(UserSelections { name, email, overwrite_policy: policy, enabled_types })
    }

    /// The user configuration of flag mode.
    pub fn to_user_config(&self) -> (r: Result<SetupUserConfig, ErrorEnvelope>)
        ensures
            r matches Ok(c) ==> exists|s: UserSelections| user_selections_of_flags(*self, s) && user_config_of(s)
                == c,
            r matches Err(e) ==> user_flags_error(*self, e),
            r is Ok <==> (self.user_name matches Some(n) && trim(n@).len() > 0) && (
            self.user_email matches Some(m) && trim(m@).len() > 0) && self.overwrite_policy is Some,
            self.user_name is None ==> (r matches Err(e) && is_missing_flag(e, "user-name"@)),
            self.user_name is Some && self.user_email is None ==> (r matches Err(e)
                && is_missing_flag(e, "user-email"@)),
            self.user_name is Some && self.user_email is Some && self.overwrite_policy is None ==> (
            r matches Err(e) && is_missing_flag(e, "overwrite-policy"@)),
            (self.user_name matches Some(n) && trim(n@).len() == 0) && self.user_email is Some
                && self.overwrite_policy is Some ==> (r matches Err(e) && is_empty_flag(e, "user-name"@)),
            (self.user_name matches Some(n) && trim(n@).len() > 0) && (self.user_email matches Some(
                m,
            ) && trim(m@).len() == 0) && self.overwrite_policy is Some ==> (r matches Err(e)
                && is_empty_flag(e, "user-email"@)),
            r matches Ok(c) ==> (self.user_name matches Some(n) && c.user.name == n) && (
            self.user_email matches Some(m) && c.user.email == m) && (self.overwrite_policy matches Some(p)
                && c.overwrite.overwrite_policy == policy_of(p)) && c.scope.enabled_types == (
            match self.enabled_types {
                Some(e) => enabled_of(e),
                None => EnabledTypes::All,
            }),
    {
        match self.require_user_non_interactive() {
            Ok(s) => {
                let c = SetupUserConfig::from_user_selections(s);
                assert(user_config_of(s) == c);
                Ok(c)
            },
            Err(e) => Err(e),
        }
    }
}

fn blank(s: &str) -> (b: bool)
    ensures
        b == (trim(s@).len() == 0),
{
    let v = to_chars(s);
    let (lo, hi) = trim_range(&v, 0, v.len());
    assert(v@.subrange(0, v@.len() as int) =~= s@);
    lo == hi
}


impl SetupArgs {
    /// The project configuration of flag mode: selections with their seeded
    /// paths, `--lang` / `--aux` entries layered over them, and the type-map
    /// fallback when given.
    pub fn to_setup_config(&self) -> (r: Result<SetupConfig, ErrorEnvelope>)
        ensures
            r is Ok <==> (self.backend matches Some(v) && spec_backend_parse(v@) is Ok) && (
            self.frontend matches Some(v) && spec_frontend_parse(v@) is Ok) && (
            self.template matches Some(v) ==> spec_template_ref_parse(v@) is Ok) && path_entries(
                string_views(self.lang@),
                Map::empty(),
            ) is Ok && path_entries(string_views(self.aux@), Map::empty()) is Ok,
            r matches Ok(c) ==> (self.backend matches Some(v) && spec_backend_parse(v@) matches Ok(
                (k, _),
            ) && backend_key(c.project.backend) == k) && (self.frontend matches Some(v)
                && spec_frontend_parse(v@) matches Ok((k, _)) && frontend_key(c.project.frontend)
                == k) && (path_entries(string_views(self.lang@), Map::empty()) matches Ok(l)
                && text_view(c.paths.lang@) == crate::default_paths::default_lang_paths(
                c.project.backend,
                c.project.frontend,
            ).union_prefer_right(l)) && (path_entries(string_views(self.aux@), Map::empty()) matches Ok(
                a,
            ) && text_view(c.paths.aux@) == crate::default_paths::default_aux_paths(
                c.project.backend,
            ).union_prefer_right(a)),
    {
        let selections = match self.require_project_non_interactive() {
            Ok(s) => s,
            Err(e) => {
                return Err(e);
            },
        };
        let lang = match Self::parse_path_kv("lang", &self.lang) {
            Ok(m) => m,
            Err(e) => {
                return Err(e);
            },
        };
        let aux = match Self::parse_path_kv("aux", &self.aux) {
            Ok(m) => m,
            Err(e) => {
                return Err(e);
            },
        };
        let mut cfg = SetupConfig::from_selections(selections);
        proof {
            crate::strmap::lemma_text_view_union(cfg.paths.lang@, lang@);
            crate::strmap::lemma_text_view_union(cfg.paths.aux@, aux@);
        }
        cfg.paths.lang.extend_from(&lang);
        cfg.paths.aux.extend_from(&aux);
        match self.parsed_type_map_fallback() {
            Some(fb) => {
                cfg.type_map.fallback = fb;
            },
            None => {},
        }
        Ok(cfg)
    }
}

/// The error for `--fields` together with `--file`.
pub open spec fn is_fields_file_mutex(e: ErrorEnvelope) -> bool {
    &&& e.is_kind(Kind::UserError)
    &&& e.msg@ == "cannot use --fields and --file together"@
    &&& e.has_reason("fields_file_mutex"@)
    &&& e.hint@ == "error.cli.fields_file_mutex"@
}

/// The trimmed, non-blank comma-separated items of a `--type` value.
pub open spec fn type_items(pieces: Seq<Seq<char>>) -> Seq<Seq<char>>
    decreases pieces.len(),
{
    if pieces.len() == 0 {
        Seq::<Seq<char>>::empty()
    } else {
        let r = type_items(pieces.drop_last());
        if trim(pieces.last()).len() == 0 {
            r
        } else {
            r.push(trim(pieces.last()))
        }
    }
}

/// The type filter a `--type a,b` value names.
pub fn parse_type_filter(raw: &str) -> (r: Vec<String>)
    ensures
        string_views(r@) == type_items(split_char(raw@, ',')),
{
    let v = to_chars(raw);
    assert(v@.subrange(0, v@.len() as int) =~= raw@);
    let parts = split_ranges(&v, 0, v.len(), ',');
    let ghost ps = split_char(raw@, ',');
    let mut out: Vec<String> = Vec::new();
    let mut i: usize = 0;
    while i < parts.len()
        invariant
            ps == split_char(v@.subrange(0, v@.len() as int), ','),
            parts@.len() == ps.len(),
            forall|k: int|
                0 <= k < parts@.len() ==> 0 <= (#[trigger] parts@[k]).0 <= parts@[k].1 <= v@.len()
                    && v@.subrange(parts@[k].0 as int, parts@[k].1 as int) == ps[k],
            i <= parts@.len(),
            string_views(out@) == type_items(ps.take(i as int)),
        decreases parts@.len() - i,
    {
        let (a, b) = parts[i];
        assert(parts@[i as int] == (a, b));
        assert(ps.take(i + 1).drop_last() =~= ps.take(i as int));
        assert(ps.take(i + 1).last() == ps[i as int]);
        let (lo, hi) = trim_range(&v, a, b);
        if lo < hi {
            let ghost before = out@;
            out.push(string_of_range(&v, lo, hi));
            assert(string_views(out@) =~= string_views(before).push(v@.subrange(lo as int, hi as int)));
        }
        i = i + 1;
    }
    assert(ps.take(i as int) =~= ps);
    out
}

impl GenArgs {
    /// `--fields` and `--file` exclude each other.
    pub fn validate_inputs(&self) -> (r: Result<(), ErrorEnvelope>)
        ensures
            (self.fields is Some && self.file is Some) ==> (r matches Err(e) && is_fields_file_mutex(e)),
            !(self.fields is Some && self.file is Some) ==> r is Ok,
    {
        if self.fields.is_some() && self.file.is_some() {
            return Err(
                ErrorEnvelope::user_error_with_reason(
                    owned("cannot use --fields and --file together"),
                    "fields_file_mutex",
                    StrMap::new(),
                    owned("error.cli.fields_file_mutex"),
                ),
            );
        }
        Ok(())
    }
}

/// `validate` inputs.
pub struct ValidateParams {
    pub type_filter: Option<Vec<String>>,
}

impl ValidateArgs {
    /// The validate inputs of the flags.
    pub fn to_params(&self) -> (p: ValidateParams)
        ensures
            match self.type_ {
                Some(t) => p.type_filter matches Some(v) && string_views(v@) == type_items(
                    split_char(t@, ','),
                ),
                None => p.type_filter is None,
            },
    {
        match &self.type_ {
            Some(t) => ValidateParams { type_filter: Some(parse_type_filter(t.as_str())) },
            None => ValidateParams { type_filter: None },
        }
    }
}

/// Inputs of a generation run, independent of the command line.
pub struct GenRunParams {
    pub name: Option<String>,
    pub fields_src: Option<String>,
    pub package: Option<String>,
    pub table: Option<String>,
    pub table_comment: Option<String>,
    pub file: Option<String>,
    pub type_filter: Option<Vec<String>>,
    pub dry_run: bool,
    /// Render to stdout instead of writing (preview mode).
    pub stdout: bool,
    pub force: bool,
    pub output_dir: Option<String>,
    /// Parsed `--var key=value` entries, later ones winning.
    pub cli_vars: StrMap<VarLiteral>,
}

/// `e` reports a `gen` flag that is required without `--file`.
pub open spec fn is_missing_gen_flag(e: ErrorEnvelope, flag: Seq<char>, reason: Seq<char>) -> bool {
    &&& e.is_kind(Kind::UserError)
    &&& e.msg@ == "missing required --"@ + flag
    &&& e.has_reason(reason)
    &&& e.details@.contains_key("flag"@)
    &&& detail_is_text(e.details@["flag"@], flag)
    &&& e.hint@ == "error.gen.missing_flag"@
    &&& e.hint_args@.len() == 1
    &&& e.hint_args@[0].0@ == "flag"@
    &&& e.hint_args@[0].1@ == flag
}

pub fn missing_gen_flag(flag: &str, reason: &str) -> (e: ErrorEnvelope)
    ensures
        is_missing_gen_flag(e, flag@, reason@),
{
    proof {
        reveal_strlit("flag");
        reveal_strlit("reason");
        assert("flag"@[0] != "reason"@[0]);
    }
    let mut details: StrMap<crate::error::Detail> = StrMap::new();
    details.insert(owned("flag"), crate::error::Detail::Text(owned(flag)));
    let e = ErrorEnvelope::user_error_with_reason(
        concat2("missing required --", flag),
        reason,
        details,
        owned("error.gen.missing_flag"),
    );
    e.with_hint_args(vec![(owned("flag"), owned(flag))])
}

/// The first `--var` value that is malformed.
pub open spec fn first_bad_var(vars: Seq<Seq<char>>) -> Option<Seq<char>>
    decreases vars.len(),
{
    if vars.len() == 0 {
        None
    } else {
        let raw = vars[0];
        let bad = match find_first(raw, '=') {
            None => true,
            Some(i) => trim(raw.take(i)).len() == 0,
        };
        if bad {
            Some(raw)
        } else {
            first_bad_var(vars.drop_first())
        }
    }
}

/// The `--var` entries as a map: each argument's key to its literal, in
/// order, a later key replacing an earlier one.
pub open spec fn var_map(vars: Seq<Seq<char>>) -> Map<Seq<char>, VarLiteralView>
    decreases vars.len(),
{
    if vars.len() == 0 {
        Map::empty()
    } else {
        var_map(vars.drop_last()).insert(var_key(vars.last()), var_value_literal(var_val(vars.last())))
    }
}

/// A map of literals as plain values.
pub open spec fn literal_views(m: Map<Seq<char>, VarLiteral>) -> Map<Seq<char>, VarLiteralView> {
    m.map_values(|l: VarLiteral| l@)
}

/// The generation inputs of the `gen` flags: the `--type` items and the
/// parsed `--var` entries; with `--file` the other inputs are optional,
/// without it `--name`, `--fields`, `--package` and `--table` are required
/// (checked in that order).
pub fn gen_run_params_from_args(args: GenArgs) -> (r: Result<GenRunParams, ErrorEnvelope>)
    ensures
        match first_bad_var(string_views(args.var@)) {
            Some(raw) => r matches Err(e) && is_bad_var_arg(e, raw),
            None => if args.file is Some {
                r matches Ok(p) && p.file == args.file && p.fields_src is None && p.name == args.name
                    && p.package == args.package && p.table == args.table
            } else if args.name is None {
                r matches Err(e) && is_missing_gen_flag(e, "name"@, "missing_name"@)
            } else if args.fields is None {
                r matches Err(e) && is_missing_gen_flag(e, "fields"@, "missing_fields"@)
            } else if args.package is None {
                r matches Err(e) && is_missing_gen_flag(e, "package"@, "missing_package"@)
            } else if args.table is None {
                r matches Err(e) && is_missing_gen_flag(e, "table"@, "missing_table"@)
            } else {
                r matches Ok(p) && p.file is None && p.name == args.name && p.fields_src
                    == args.fields && p.package == args.package && p.table == args.table
            },
        },
        r matches Ok(p) ==> literal_views(p.cli_vars@) == var_map(string_views(args.var@)),
        r matches Ok(p) ==> p.dry_run == args.dry_run && p.stdout == args.stdout && p.force
            == args.force && p.output_dir == args.output && p.table_comment == args.table_comment
            && match args.type_ {
            Some(t) => p.type_filter matches Some(v) && string_views(v@) == type_items(
                split_char(t@, ','),
            ),
            None => p.type_filter is None,
        },
{
    let type_filter = match &args.type_ {
        Some(t) => Some(parse_type_filter(t.as_str())),
        None => None,
    };
    let ghost all = string_views(args.var@);
    let mut cli_vars: StrMap<VarLiteral> = StrMap::new();
    let mut i: usize = 0;
    assert(all.skip(0) =~= all);
    assert(all.take(0) =~= Seq::<Seq<char>>::empty());
    assert(literal_views(cli_vars@) =~= Map::<Seq<char>, VarLiteralView>::empty());
    while i < args.var.len()
        invariant
            all == string_views(args.var@),
            i <= args.var@.len(),
            first_bad_var(all) == first_bad_var(all.skip(i as int)),
            literal_views(cli_vars@) == var_map(all.take(i as int)),
        decreases args.var@.len() - i,
    {
        let raw = &args.var[i];
        assert(all.skip(i as int)[0] == raw@);
        assert(all.skip(i as int).drop_first() =~= all.skip(i + 1));
        match parse_var_arg(raw.as_str()) {
            Ok((k, v)) => {
                let ghost before = cli_vars@;
                let ghost lv = v@;
                cli_vars.insert(k, v);
                proof {
                    assert(all.take(i + 1).drop_last() =~= all.take(i as int));
                    assert(all.take(i + 1).last() == raw@);
                    assert(literal_views(cli_vars@) =~= literal_views(before).insert(var_key(raw@), lv));
                }
            },
            Err(e) => {
                return Err(e);
            },
        }
        i = i + 1;
    }
    assert(all.skip(i as int) =~= Seq::<Seq<char>>::empty());
    assert(all.take(i as int) =~= all);
    let GenArgs { name, fields, file, package, table, table_comment, type_: _, dry_run, stdout, force, output, var: _ } = args;
    if file.is_some() {
        return Ok(
            GenRunParams {
                name,
                fields_src: None,
                package,
                table,
                table_comment,
                file,
                type_filter,
                dry_run,
                stdout,
                force,
                output_dir: output,
                cli_vars,
            },
        );
    }
    if name.is_none() {
        return Err(missing_gen_flag("name", "missing_name"));
    }
    if fields.is_none() {
        return Err(missing_gen_flag("fields", "missing_fields"));
    }
    if package.is_none() {
        return Err(missing_gen_flag("package", "missing_package"));
    }
    if table.is_none() {
        return Err(missing_gen_flag("table", "missing_table"));
    }
    Ok(
        GenRunParams {
            name,
            fields_src: fields,
            package,
            table,
            table_comment,
            file: None,
            type_filter,
            dry_run,
            stdout,
            force,
            output_dir: output,
            cli_vars,
        },
    )
}

} // verus!
