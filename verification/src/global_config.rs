//! Per-user CLI preferences kept in `~/.crud/config.toml`: the UI language
//! and the repository `template install` downloads from.

use vstd::prelude::*;

use crate::error::{ErrorEnvelope, Kind};
use crate::i18n::{Lang, lang_code, spec_lang_parse};
use crate::strmap::StrMap;
use crate::text::{concat2, owned, trim, trim_start, trim_end, is_ws};
use crate::i18n::{ascii_lower, ascii_lower_seq};

verus! {

/// `[ui]`: the preferred UI language code, absent until first chosen.
#[derive(Debug, Clone)]
pub struct UiSection {
    pub lang: Option<String>,
}

impl UiSection {
    /// Nothing is stored (the section is left out when written).
    pub fn is_empty(&self) -> (b: bool)
        ensures
            b == (self.lang is None),
    {
        self.lang.is_none()
    }
}

impl Default for UiSection {
    fn default() -> (s: Self)
        ensures
            s.lang is None,
    {
        UiSection { lang: None }
    }
}

/// `[templates]`: the repository `template install` downloads from.
#[derive(Debug, Clone)]
pub struct TemplatesRegistrySection {
    pub repo: Option<String>,
}

impl TemplatesRegistrySection {
    /// Nothing is stored (the section is left out when written).
    pub fn is_empty(&self) -> (b: bool)
        ensures
            b == (self.repo is None),
    {
        self.repo.is_none()
    }
}

impl Default for TemplatesRegistrySection {
    fn default() -> (s: Self)
        ensures
            s.repo is None,
    {
        TemplatesRegistrySection { repo: None }
    }
}

/// Repository used by `template install` when neither `--repo` nor
/// `[templates].repo` names one.
pub const DEFAULT_TEMPLATE_REPO: &'static str = "ttTennessee/crud-templates";

/// Environment variable that overrides the UI language.
pub const LANG_ENV: &'static str = "CRUD_LANG";

/// Root of `~/.crud/config.toml`.
#[derive(Debug, Clone)]
pub struct GlobalConfig {
    pub ui: UiSection,
    pub templates: TemplatesRegistrySection,
}

impl Default for GlobalConfig {
    fn default() -> (c: Self)
        ensures
            c.ui.lang is None,
            c.templates.repo is None,
    {
        GlobalConfig { ui: UiSection { lang: None }, templates: TemplatesRegistrySection { repo: None } }
    }
}

/// The language a stored code names, if it is recognised.
pub open spec fn stored_lang(code: Option<String>) -> Option<Lang> {
    match code {
        Some(c) => spec_lang_parse(c@),
        None => None,
    }
}

impl GlobalConfig {
    /// The configuration as loaded, or the defaults when loading failed
    /// (a missing file loads as the defaults too).
    pub fn load_or_default(loaded: Result<GlobalConfig, ErrorEnvelope>) -> (c: GlobalConfig)
        ensures
            loaded matches Ok(l) ==> c == l,
            loaded is Err ==> c.ui.lang is None && c.templates.repo is None,
    {
        match loaded {
            Ok(c) => c,
            Err(_) => GlobalConfig::default(),
        }
    }

    /// The stored language preference, when it names a known language.
    pub fn lang(&self) -> (l: Option<Lang>)
        ensures
            l == stored_lang(self.ui.lang),
    {
        match &self.ui.lang {
            Some(c) => Lang::parse(c.as_str()),
            None => None,
        }
    }

    /// Records the chosen language by its code.
    pub fn set_lang(&mut self, lang: Lang)
        ensures
            final(self).ui.lang matches Some(c) && c@ == lang_code(lang),
            final(self).templates == old(self).templates,
    {
        self.ui.lang = Some(owned(lang.code()));
    }

    /// The configured template repository, else [`DEFAULT_TEMPLATE_REPO`].
    pub fn template_repo(&self) -> (r: &str)
        ensures
            r@ == (match self.templates.repo {
                Some(s) => s@,
                None => DEFAULT_TEMPLATE_REPO@,
            }),
    {
        match &self.templates.repo {
            Some(s) => s.as_str(),
            None => DEFAULT_TEMPLATE_REPO,
        }
    }
}

/// The language `CRUD_LANG` selects (`env_value`: its value, when set).
pub fn lang_env_override(env_value: Option<&str>) -> (l: Option<Lang>)
    ensures
        l == (match env_value {
            Some(v) => spec_lang_parse(v@),
            None => None,
        }),
{
    match env_value {
        Some(v) => Lang::parse(v),
        None => None,
    }
}

/// The preferred language without prompting: a recognised `CRUD_LANG`
/// wins, then the stored preference.
pub fn resolve_preferred_lang(env_value: Option<&str>, cfg: &GlobalConfig) -> (l: Option<Lang>)
    ensures
        l == (match env_value {
            Some(v) => match spec_lang_parse(v@) {
                Some(x) => Some(x),
                None => stored_lang(cfg.ui.lang),
            },
            None => stored_lang(cfg.ui.lang),
        }),
{
    match lang_env_override(env_value) {
        Some(l) => Some(l),
        None => cfg.lang(),
    }
}

/// A failure reading, parsing or writing the global configuration.
pub fn config_error(msg: String) -> (e: ErrorEnvelope)
    ensures
        e.is_kind(Kind::ConfigError),
        e.msg@ == msg@,
        e.hint@ == "error.global_config.check"@,
        e.hint_args@.len() == 0,
        e.details@.dom().len() == 0,
{
    let e = ErrorEnvelope {
        kind: Kind::ConfigError,
        msg,
        exit_code: Kind::ConfigError.exit_code(),
        hint: owned("error.global_config.check"),
        hint_args: Vec::new(),
        details: StrMap::new(),
    };
    assert(e.details@.dom() =~= Set::<Seq<char>>::empty());
    e
}

/// The failure reading the file at `path`.
pub fn read_error(path: &str, error: &str) -> (e: ErrorEnvelope)
    ensures
        e.is_kind(Kind::ConfigError),
        e.msg@ == "read "@ + path@ + ": "@ + error@,
        e.hint@ == "error.global_config.check"@,
{
    let a = concat2("read ", path);
    let b = concat2(a.as_str(), ": ");
    config_error(concat2(b.as_str(), error))
}

/// The failure parsing the file.
pub fn parse_error(error: &str) -> (e: ErrorEnvelope)
    ensures
        e.is_kind(Kind::ConfigError),
        e.msg@ == "parse global config: "@ + error@,
        e.hint@ == "error.global_config.check"@,
{
    config_error(concat2("parse global config: ", error))
}

/// The UI locale for this process: agent mode pins English; otherwise the
/// preferred language, when there is one (else the locale stays English).
pub fn init_locale(agent: bool, preferred: Option<Lang>) -> (l: Option<Lang>)
    ensures
        agent ==> l == Some(Lang::En),
        !agent ==> l == preferred,
{
    if agent {
        Some(Lang::En)
    } else {
        preferred
    }
}

/// A stored language code reads back as the language it was stored for:
/// after `set_lang(l)`, `lang()` is `Some(l)`.
pub proof fn lemma_lang_code_round_trip(l: Lang)
    ensures
        spec_lang_parse(lang_code(l)) == Some(l),
{
    reveal_strlit("en");
    reveal_strlit("zh");
    reveal_strlit("en-us");
    reveal_strlit("en_us");
    reveal_strlit("english");
    let c = lang_code(l);
    assert(c.len() == 2);
    assert(!is_ws(c[0]) && !is_ws(c[1]));
    assert(trim_start(c) == c);
    assert(trim_end(c) == c);
    assert(trim(c) == c);
    assert(ascii_lower(c[0]) == c[0]);
    assert(ascii_lower(c[1]) == c[1]);
    assert(ascii_lower_seq(c) =~= c);
    match l {
        Lang::En => {
            assert(ascii_lower_seq(trim(c)) == "en"@);
        },
        Lang::Zh => {
            assert(ascii_lower_seq(trim(c)) == "zh"@);
            assert("zh"@ != "en"@);
            assert("zh"@.len() != "en-us"@.len());
            assert("zh"@.len() != "en_us"@.len());
            assert("zh"@.len() != "english"@.len());
        },
    }
}

} // verus!
