//! What the interactive `setup` wizards decide: the answers they turn into
//! selections, the labels they offer, and how edited paths are kept.

use vstd::prelude::*;

use crate::cli_args::{SetupEnabledTypes, SetupOverwritePolicy, enabled_of, policy_of};
use crate::config::{
    Backend, EnabledTypes, Frontend, OverwritePolicy, PathsSection, SetupSelections, TemplateRef,
    UserSelections, backend_key, frontend_key,
};
use crate::error::{Detail, ErrorEnvelope, Kind, detail_is_text};
use crate::i18n::Lang;
use crate::strmap::StrMap;
use crate::template_meta_global::InstalledTemplate;
use crate::text::{append_str, concat2, debug_quote, debug_quoted, owned, trim, trimmed, string_of};

verus! {

/// The user wizard's answers as selections.
pub fn user_selections_from_answers(
    name: String,
    email: String,
    overwrite_policy: SetupOverwritePolicy,
    enabled_types: SetupEnabledTypes,
) -> (s: UserSelections)
    ensures
        s.name == name,
        s.email == email,
        s.overwrite_policy == policy_of(overwrite_policy),
        s.enabled_types == enabled_of(enabled_types),
{
    UserSelections {
        name,
        email,
        overwrite_policy: overwrite_policy.to_policy(),
        enabled_types: enabled_types.to_enabled(),
    }
}

/// The project selections of a picked installed template: its languages
/// and a pinned `name@version` reference.
pub fn selections_from_template(t: &InstalledTemplate) -> (s: SetupSelections)
    ensures
        s.backend == t.manifest.backend,
        s.frontend == t.manifest.frontend,
        s.template matches Some(tr) && tr.name@ == t.name@ && (tr.version matches Some(v) && v@
            == t.version@),
{
    SetupSelections {
        backend: t.manifest.backend.dup(),
        frontend: t.manifest.frontend.dup(),
        template: Some(TemplateRef { name: t.name.clone(), version: Some(t.version.clone()) }),
    }
}

/// The choice label of an installed template:
/// `name@version  (backend + frontend)`.
pub open spec fn template_label(t: InstalledTemplate) -> Seq<char> {
    t.name@ + "@"@ + t.version@ + "  ("@ + backend_key(t.manifest.backend) + " + "@ + frontend_key(
        t.manifest.frontend,
    ) + ")"@
}

/// The labels of the installed templates, in order.
pub fn template_choice_labels(installed: &Vec<InstalledTemplate>) -> (r: Vec<String>)
    ensures
        r@.len() == installed@.len(),
        forall|i: int| 0 <= i < r@.len() ==> (#[trigger] r@[i])@ == template_label(installed@[i]),
{
    let mut r: Vec<String> = Vec::new();
    let mut i: usize = 0;
    while i < installed.len()
        invariant
            i <= installed@.len(),
            r@.len() == i,
            forall|k: int| 0 <= k < i ==> (#[trigger] r@[k])@ == template_label(installed@[k]),
        decreases installed@.len() - i,
    {
        let t = &installed[i];
        let mut l = t.name.clone();
        append_str(&mut l, "@");
        append_str(&mut l, t.version.as_str());
        append_str(&mut l, "  (");
        append_str(&mut l, t.manifest.backend.as_key());
        append_str(&mut l, " + ");
        append_str(&mut l, t.manifest.frontend.as_key());
        append_str(&mut l, ")");
        r.push(l);
        i = i + 1;
    }
    r
}

/// The label of an overwrite policy choice.
pub fn overwrite_policy_label(p: SetupOverwritePolicy) -> (l: &'static str)
    ensures
        l@ == (match p {
            SetupOverwritePolicy::Never => "never"@,
            SetupOverwritePolicy::ForceOnly => "force-only"@,
            SetupOverwritePolicy::Always => "always"@,
        }),
{
    match p {
        SetupOverwritePolicy::Never => "never",
        SetupOverwritePolicy::ForceOnly => "force-only",
        SetupOverwritePolicy::Always => "always",
    }
}

/// The label of an enabled-types choice.
pub fn enabled_types_label(t: SetupEnabledTypes) -> (l: &'static str)
    ensures
        l@ == (match t {
            SetupEnabledTypes::All => "all"@,
            SetupEnabledTypes::Backend => "backend"@,
            SetupEnabledTypes::Frontend => "frontend"@,
        }),
{
    match t {
        SetupEnabledTypes::All => "all",
        SetupEnabledTypes::Backend => "backend",
        SetupEnabledTypes::Frontend => "frontend",
    }
}

/// The failure of a custom language name that is not a valid identifier.
pub fn invalid_lang_name(value: &str) -> (e: ErrorEnvelope)
    ensures
        e.is_kind(Kind::UserError),
        e.msg@ == "invalid language identifier: "@ + debug_quoted(value@),
        e.hint@ == "wizard.template.invalid_lang_name"@,
        e.has_reason("invalid_lang_id"@),
        e.details@.dom() == set!["value"@, "reason"@],
        detail_is_text(e.details@["value"@], value@),
{
    proof {
        reveal_strlit("value");
        reveal_strlit("reason");
        assert("value"@[0] != "reason"@[0]);
    }
    let mut details: StrMap<Detail> = StrMap::new();
    details.insert(owned("value"), Detail::Text(owned(value)));
    let q = debug_quote(value);
    let e = ErrorEnvelope::user_error_with_reason(
        concat2("invalid language identifier: ", q.as_str()),
        "invalid_lang_id",
        details,
        owned("wizard.template.invalid_lang_name"),
    );
    assert(e.details@.dom() =~= set!["value"@, "reason"@]);
    e
}

/// The failure of a choice that is not among the offered labels (`msg`:
/// the rendered "invalid selection" message).
pub fn invalid_selection(msg: String, choice: Option<&str>) -> (e: ErrorEnvelope)
    ensures
        e.is_kind(Kind::UserError),
        e.msg@ == msg@,
        e.hint@ == "wizard.invalid_selection_hint"@,
        match choice {
            Some(c) => e.details@.dom() == set!["value"@] && detail_is_text(e.details@["value"@], c@),
            None => e.details@.dom().len() == 0,
        },
{
    let e = ErrorEnvelope::user_error(
        msg,
        None,
        choice,
        owned("wizard.invalid_selection_hint"),
    );
    proof {
        match choice {
            Some(c) => {
                assert(e.details@.dom() =~= set!["value"@]);
            },
            None => {
                assert(e.details@.dom() =~= Set::<Seq<char>>::empty());
            },
        }
    }
    e
}

/// What an edited path prompt answer keeps: the trimmed text, or nothing
/// (the entry is removed) when it is blank.
pub fn optional_path_answer(answer: &str) -> (r: Option<String>)
    ensures
        trim(answer@).len() == 0 ==> r is None,
        trim(answer@).len() > 0 ==> (r matches Some(s) && s@ == trim(answer@)),
{
    let t = trimmed(answer);
    if t.len() == 0 {
        None
    } else {
        Some(string_of(&t))
    }
}

/// A map with one key updated from an edited path answer: set to the new
/// value, or removed when the answer is blank.
pub fn apply_path_answer(m: &mut StrMap<String>, key: String, answer: Option<String>)
    ensures
        match answer {
            Some(v) => final(m)@ == old(m)@.insert(key@, v),
            None => final(m)@ == old(m)@.remove(key@),
        },
{
    match answer {
        Some(v) => m.insert(key, v),
        None => m.remove(key.as_str()),
    }
}

/// The language picked in the first-run prompt: Chinese for its label,
/// English otherwise.
pub fn language_from_label(choice: &str) -> (l: Lang)
    ensures
        choice@ == "中文"@ ==> l == Lang::Zh,
        choice@ != "中文"@ ==> l == Lang::En,
{
    if crate::text::str_eq(choice, "中文") {
        Lang::Zh
    } else {
        Lang::En
    }
}

/// What the first-run language step does.
#[derive(Debug, Clone, Copy, PartialEq, Eq, Structural)]
pub enum LanguageStep {
    /// Nothing: agent mode or no terminal to ask on.
    Skip,
    /// Use this language for the run (from `CRUD_LANG` or the stored
    /// preference) without storing anything.
    Use(Lang),
    /// Ask, then use and store the answer.
    Ask,
}

/// The first-run language step: skipped in agent mode or without a
/// terminal; otherwise `CRUD_LANG`, then the stored preference, else ask.
pub fn language_step(agent: bool, is_terminal: bool, env: Option<Lang>, stored: Option<Lang>) -> (s:
    LanguageStep)
    ensures
        agent || !is_terminal ==> s == LanguageStep::Skip,
        !agent && is_terminal ==> s == (match env {
            Some(l) => LanguageStep::Use(l),
            None => match stored {
                Some(l) => LanguageStep::Use(l),
                None => LanguageStep::Ask,
            },
        }),
{
    if agent || !is_terminal {
        return LanguageStep::Skip;
    }
    match env {
        Some(l) => LanguageStep::Use(l),
        None => match stored {
            Some(l) => LanguageStep::Use(l),
            None => LanguageStep::Ask,
        },
    }
}

} // verus!
