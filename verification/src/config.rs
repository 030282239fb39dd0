//! Project setup (`.crud/setup.toml`) and per-developer setup
//! (`.crud/setup.user.toml`): languages, template reference, path maps,
//! overwrite policy and merge precedence.

use vstd::prelude::*;

use crate::default_paths::paths_for_selections;
use crate::strmap::{
    StrMap, lemma_text_view_empty, lemma_text_view_union, strictly_sorted, text_view,
};
use crate::text::{
    concat2, find_last, find_last_in, is_ws, lemma_find_last, owned, range_eq, string_of_range,
    to_chars, trim, trim_end, trim_range, trim_start,
};
use crate::error::{Detail, ErrorEnvelope, Kind, detail_is_text};
use crate::field_dsl::is_reserved_variable_name;
use crate::gen_context::first_reserved;
use crate::text::trimmed;
use crate::type_map::Fallback;
use crate::value::DataValue;

verus! {

/// Parses the `--type-map-fallback` value: `passthrough`, `error`, or any
/// other text as a literal replacement.
pub fn parse_type_map_fallback(s: &str) -> (f: Fallback)
    ensures
        s@ == "passthrough"@ ==> f is Passthrough,
        s@ == "error"@ ==> f is Error,
        s@ != "passthrough"@ && s@ != "error"@ ==> (f matches Fallback::Literal(l) && l@ == s@),
{
    let v = to_chars(s);
    assert(v@.subrange(0, v@.len() as int) =~= v@);
    proof {
        reveal_strlit("passthrough");
        reveal_strlit("error");
    }
    if range_eq(&v, 0, v.len(), "passthrough") {
        Fallback::Passthrough
    } else if range_eq(&v, 0, v.len(), "error") {
        Fallback::Error
    } else {
        Fallback::Literal(owned(s))
    }
}

/// A character allowed after the first in a language identifier.
pub open spec fn lang_id_char(c: char) -> bool {
    ('a' <= c <= 'z') || ('0' <= c <= '9') || c == '-'
}

/// `[a-z0-9][a-z0-9-]*`: stable under TOML and in template path joins.
pub open spec fn is_lang_id(s: Seq<char>) -> bool {
    &&& s.len() > 0
    &&& ('a' <= s[0] <= 'z') || ('0' <= s[0] <= '9')
    &&& forall|i: int| 1 <= i < s.len() ==> lang_id_char(#[trigger] s[i])
}

/// Allowed characters for a custom language identifier.
pub fn is_valid_lang_id(s: &str) -> (b: bool)
    ensures
        b == is_lang_id(s@),
{
    let v = to_chars(s);
    if v.len() == 0 {
        return false;
    }
    let first = v[0];
    if !(('a' <= first && first <= 'z') || ('0' <= first && first <= '9')) {
        return false;
    }
    let mut i: usize = 1;
    while i < v.len()
        invariant
            v@ == s@,
            1 <= i <= v@.len(),
            forall|k: int| 1 <= k < i ==> lang_id_char(#[trigger] v@[k]),
        decreases v@.len() - i,
    {
        let c = v[i];
        if !(('a' <= c && c <= 'z') || ('0' <= c && c <= '9') || c == '-') {
            assert(!lang_id_char(s@[i as int]));
            return false;
        }
        i = i + 1;
    }
    true
}

/// Backend language; open-ended via `Custom`.
#[derive(Debug, Clone, PartialEq, Eq)]
pub enum Backend {
    Java,
    TypeScript,
    Go,
    Python,
    NoLang,
    Custom(String),
}

/// Frontend framework / language; open-ended via `Custom`.
#[derive(Debug, Clone, PartialEq, Eq)]
pub enum Frontend {
    Vue,
    React,
    NoLang,
    Custom(String),
}

/// Canonical lowercase identifier of a backend.
pub open spec fn backend_key(b: Backend) -> Seq<char> {
    match b {
        Backend::Java => "java"@,
        Backend::TypeScript => "typescript"@,
        Backend::Go => "go"@,
        Backend::Python => "python"@,
        Backend::NoLang => "none"@,
        Backend::Custom(s) => s@,
    }
}

/// Canonical lowercase identifier of a frontend.
pub open spec fn frontend_key(f: Frontend) -> Seq<char> {
    match f {
        Frontend::Vue => "vue"@,
        Frontend::React => "react"@,
        Frontend::NoLang => "none"@,
        Frontend::Custom(s) => s@,
    }
}

/// Known backend spellings and their canonical key.
pub open spec fn backend_alias(v: Seq<char>) -> Option<Seq<char>> {
    if v == "java"@ {
        Some("java"@)
    } else if v == "typescript"@ || v == "ts"@ {
        Some("typescript"@)
    } else if v == "go"@ {
        Some("go"@)
    } else if v == "python"@ || v == "py"@ {
        Some("python"@)
    } else if v == "none"@ {
        Some("none"@)
    } else {
        None
    }
}

/// Known frontend spellings.
pub open spec fn frontend_alias(v: Seq<char>) -> Option<Seq<char>> {
    if v == "vue"@ {
        Some("vue"@)
    } else if v == "react"@ {
        Some("react"@)
    } else if v == "none"@ {
        Some("none"@)
    } else {
        None
    }
}

/// Outcome of parsing a backend value: `(key, is_custom)` or the message.
pub open spec fn spec_backend_parse(value: Seq<char>) -> Result<(Seq<char>, bool), Seq<char>> {
    let v = trim(value);
    if v.len() == 0 {
        Err("backend value must not be empty"@)
    } else {
        match backend_alias(v) {
            Some(k) => Ok((k, false)),
            None => if is_lang_id(v) {
                Ok((v, true))
            } else {
                Err("backend must match [a-z0-9][a-z0-9-]*"@)
            },
        }
    }
}

/// Outcome of parsing a frontend value: `(key, is_custom)` or the message.
pub open spec fn spec_frontend_parse(value: Seq<char>) -> Result<(Seq<char>, bool), Seq<char>> {
    let v = trim(value);
    if v.len() == 0 {
        Err("frontend value must not be empty"@)
    } else {
        match frontend_alias(v) {
            Some(k) => Ok((k, false)),
            None => if is_lang_id(v) {
                Ok((v, true))
            } else {
                Err("frontend must match [a-z0-9][a-z0-9-]*"@)
            },
        }
    }
}

fn vec_is(v: &Vec<char>, s: &str) -> (r: bool)
    ensures
        r == (v@ == s@),
{
    let r = range_eq(v, 0, v.len(), s);
    assert(v@.subrange(0, v@.len() as int) =~= v@);
    r
}

impl Backend {
    /// Canonical lowercase identifier (the serialized form and the
    /// `[paths.lang]` key).
    pub fn as_key(&self) -> (k: &str)
        ensures
            k@ == backend_key(*self),
    {
        match self {
            Backend::Java => "java",
            Backend::TypeScript => "typescript",
            Backend::Go => "go",
            Backend::Python => "python",
            Backend::NoLang => "none",
            Backend::Custom(s) => s.as_str(),
        }
    }

    /// Parses an identifier into a known variant or `Custom`; empty and
    /// malformed identifiers are rejected.
    pub fn parse(value: &str) -> (r: Result<Backend, &'static str>)
        ensures
            match spec_backend_parse(value@) {
                Ok((k, c)) => r matches Ok(b) && backend_key(b) == k && (b is Custom) == c,
                Err(m) => r matches Err(e) && e@ == m,
            },
    {
        let v0 = to_chars(value);
        let (a, b) = trim_range(&v0, 0, v0.len());
        assert(v0@.subrange(0, v0@.len() as int) =~= value@);
        let v = to_chars(string_of_range(&v0, a, b).as_str());
        if v.len() == 0 {
            return Err("backend value must not be empty");
        }
        if vec_is(&v, "java") {
            Ok(Backend::Java)
        } else if vec_is(&v, "typescript") || vec_is(&v, "ts") {
            Ok(Backend::TypeScript)
        } else if vec_is(&v, "go") {
            Ok(Backend::Go)
        } else if vec_is(&v, "python") || vec_is(&v, "py") {
            Ok(Backend::Python)
        } else if vec_is(&v, "none") {
            Ok(Backend::NoLang)
        } else {
            let s = string_of_range(&v0, a, b);
            if is_valid_lang_id(s.as_str()) {
                Ok(Backend::Custom(s))
            } else {
                Err("backend must match [a-z0-9][a-z0-9-]*")
            }
        }
    }

    /// True iff this backend is `None`.
    pub fn is_none(&self) -> (b: bool)
        ensures
            b == (*self is NoLang),
    {
        match self {
            Backend::NoLang => true,
            _ => false,
        }
    }

    /// A copy of this backend.
    pub fn dup(&self) -> (b: Backend)
        ensures
            b == *self,
    {
        match self {
            Backend::Java => Backend::Java,
            Backend::TypeScript => Backend::TypeScript,
            Backend::Go => Backend::Go,
            Backend::Python => Backend::Python,
            Backend::NoLang => Backend::NoLang,
            Backend::Custom(s) => Backend::Custom(s.clone()),
        }
    }
}

impl Frontend {
    /// Canonical lowercase identifier.
    pub fn as_key(&self) -> (k: &str)
        ensures
            k@ == frontend_key(*self),
    {
        match self {
            Frontend::Vue => "vue",
            Frontend::React => "react",
            Frontend::NoLang => "none",
            Frontend::Custom(s) => s.as_str(),
        }
    }

    /// Parses an identifier into a known variant or `Custom`.
    pub fn parse(value: &str) -> (r: Result<Frontend, &'static str>)
        ensures
            match spec_frontend_parse(value@) {
                Ok((k, c)) => r matches Ok(f) && frontend_key(f) == k && (f is Custom) == c,
                Err(m) => r matches Err(e) && e@ == m,
            },
    {
        let v0 = to_chars(value);
        let (a, b) = trim_range(&v0, 0, v0.len());
        assert(v0@.subrange(0, v0@.len() as int) =~= value@);
        let v = to_chars(string_of_range(&v0, a, b).as_str());
        if v.len() == 0 {
            return Err("frontend value must not be empty");
        }
        if vec_is(&v, "vue") {
            Ok(Frontend::Vue)
        } else if vec_is(&v, "react") {
            Ok(Frontend::React)
        } else if vec_is(&v, "none") {
            Ok(Frontend::NoLang)
        } else {
            let s = string_of_range(&v0, a, b);
            if is_valid_lang_id(s.as_str()) {
                Ok(Frontend::Custom(s))
            } else {
                Err("frontend must match [a-z0-9][a-z0-9-]*")
            }
        }
    }

    /// True iff this frontend is `None`.
    pub fn is_none(&self) -> (b: bool)
        ensures
            b == (*self is NoLang),
    {
        match self {
            Frontend::NoLang => true,
            _ => false,
        }
    }

    /// A copy of this frontend.
    pub fn dup(&self) -> (f: Frontend)
        ensures
            f == *self,
    {
        match self {
            Frontend::Vue => Frontend::Vue,
            Frontend::React => Frontend::React,
            Frontend::NoLang => Frontend::NoLang,
            Frontend::Custom(s) => Frontend::Custom(s.clone()),
        }
    }
}

/// A language identifier has no surrounding whitespace.
proof fn lemma_lang_id_trimmed(s: Seq<char>)
    requires
        is_lang_id(s),
    ensures
        trim(s) == s,
{
    assert(!is_ws(s[0]));
    assert(trim_start(s) == s);
    if s.len() > 1 {
        assert(lang_id_char(s[s.len() - 1]));
    }
    assert(!is_ws(s.last()));
}

/// Serializing a backend as its key and parsing the key gives back the same
/// backend (same key, same custom flag) — for every backend whose custom text
/// is a language identifier that does not spell a known backend.
pub proof fn lemma_backend_key_round_trip(b: Backend)
    requires
        b matches Backend::Custom(s) ==> is_lang_id(s@) && backend_alias(s@) is None,
    ensures
        spec_backend_parse(backend_key(b)) == Ok::<_, Seq<char>>((backend_key(b), b is Custom)),
{
    reveal_strlit("java");
    reveal_strlit("typescript");
    reveal_strlit("ts");
    reveal_strlit("go");
    reveal_strlit("python");
    reveal_strlit("py");
    reveal_strlit("none");
    match b {
        Backend::Custom(s) => lemma_lang_id_trimmed(s@),
        _ => lemma_lang_id_trimmed(backend_key(b)),
    }
}

/// Serializing a frontend as its key and parsing the key gives back the same
/// frontend — for every frontend whose custom text is a language identifier
/// that does not spell a known frontend.
pub proof fn lemma_frontend_key_round_trip(f: Frontend)
    requires
        f matches Frontend::Custom(s) ==> is_lang_id(s@) && frontend_alias(s@) is None,
    ensures
        spec_frontend_parse(frontend_key(f)) == Ok::<_, Seq<char>>((frontend_key(f), f is Custom)),
{
    reveal_strlit("vue");
    reveal_strlit("react");
    reveal_strlit("none");
    match f {
        Frontend::Custom(s) => lemma_lang_id_trimmed(s@),
        _ => lemma_lang_id_trimmed(frontend_key(f)),
    }
}

/// `[project].template = "name[@version]"` reference.
#[derive(Debug, Clone, PartialEq, Eq)]
pub struct TemplateRef {
    pub name: String,
    pub version: Option<String>,
}

/// Outcome of parsing a template reference: `(name, version)` or the message.
pub open spec fn spec_template_ref_parse(input: Seq<char>) -> Result<
    (Seq<char>, Option<Seq<char>>),
    Seq<char>,
> {
    let t = trim(input);
    if t.len() == 0 {
        Err("template ref must not be empty"@)
    } else {
        let (n, v) = match find_last(t, '@') {
            Some(i) => (t.take(i), Some(t.skip(i + 1))),
            None => (t, None::<Seq<char>>),
        };
        if n.len() == 0 {
            Err("template name must not be empty"@)
        } else {
            Ok((n, v))
        }
    }
}

/// Display form: `name@version`, or `name` alone.
pub open spec fn template_ref_text(name: Seq<char>, version: Option<Seq<char>>) -> Seq<char> {
    match version {
        Some(v) => name + "@"@ + v,
        None => name,
    }
}

/// The optional string's characters.
pub open spec fn opt_view(o: Option<String>) -> Option<Seq<char>> {
    match o {
        Some(s) => Some(s@),
        None => None,
    }
}

impl TemplateRef {
    /// Parses `name[@version]`, splitting at the last `@`.
    pub fn parse(input: &str) -> (r: Result<TemplateRef, &'static str>)
        ensures
            match spec_template_ref_parse(input@) {
                Ok((n, v)) => r matches Ok(t) && t.name@ == n && opt_view(t.version) == v,
                Err(m) => r matches Err(e) && e@ == m,
            },
    {
        let v = to_chars(input);
        let (a, b) = trim_range(&v, 0, v.len());
        assert(v@.subrange(0, v@.len() as int) =~= input@);
        let ghost t = v@.subrange(a as int, b as int);
        if a == b {
            return Err("template ref must not be empty");
        }
        let (name_end, version) = match find_last_in(&v, a, b, '@') {
            Some(i) => {
                proof {
                    assert(t.take(i - a) =~= v@.subrange(a as int, i as int));
                    assert(t.skip(i - a + 1) =~= v@.subrange(i + 1, b as int));
                }
                (i, Some(string_of_range(&v, i + 1, b)))
            },
            None => (b, None),
        };
        if name_end == a {
            return Err("template name must not be empty");
        }
        Ok(TemplateRef { name: string_of_range(&v, a, name_end), version })
    }

    /// `name@version`, or `name` when no version is pinned.
    pub fn to_string(&self) -> (s: String)
        ensures
            s@ == template_ref_text(self.name@, opt_view(self.version)),
    {
        match &self.version {
            Some(v) => {
                let with_at = concat2(self.name.as_str(), "@");
                concat2(with_at.as_str(), v.as_str())
            },
            None => self.name.clone(),
        }
    }

    /// A copy of this reference.
    pub fn dup(&self) -> (t: TemplateRef)
        ensures
            t == *self,
    {
        TemplateRef {
            name: self.name.clone(),
            version: match &self.version {
                Some(v) => Some(v.clone()),
                None => None,
            },
        }
    }
}

/// A reference's text parses back to the same name and version, whenever the
/// text is already trimmed, the name is non-empty and the last `@` is the
/// separator.
pub proof fn lemma_template_ref_round_trip(name: Seq<char>, version: Option<Seq<char>>)
    requires
        name.len() > 0,
        trim(template_ref_text(name, version)) == template_ref_text(name, version),
        match version {
            Some(v) => !v.contains('@'),
            None => !name.contains('@'),
        },
    ensures
        spec_template_ref_parse(template_ref_text(name, version)) == Ok::<_, Seq<char>>(
            (name, version),
        ),
{
    let s = template_ref_text(name, version);
    reveal_strlit("@");
    lemma_find_last(s, '@');
    match version {
        Some(v) => {
            let at = name.len() as int;
            assert(s[at] == '@');
            match find_last(s, '@') {
                Some(j) => {
                    if j > at {
                        assert(s.len() == at + 1 + v.len());
                        assert(v[j - at - 1] == s[j]);
                        assert(v.contains('@'));
                    }
                    if j < at {
                        assert(s[at] != '@');
                    }
                },
                None => {
                    assert(s[at] != '@');
                },
            }
            assert(s.take(at) =~= name);
            assert(s.skip(at + 1) =~= v);
        },
        None => {
            match find_last(s, '@') {
                Some(j) => {
                    assert(name.contains('@'));
                },
                None => {},
            }
        },
    }
}

/// Overwrite policy (user-level).
#[derive(Debug, Clone, Copy, PartialEq, Eq, Structural)]
pub enum OverwritePolicy {
    Never,
    ForceOnly,
    Always,
}

/// Which template subset renders unless `--type` overrides.
#[derive(Debug, Clone, Copy, PartialEq, Eq, Structural)]
pub enum EnabledTypes {
    All,
    Backend,
    Frontend,
}

impl EnabledTypes {
    /// The default scope: all templates.
    pub fn default_value() -> (e: EnabledTypes)
        ensures
            e == EnabledTypes::All,
    {
        EnabledTypes::All
    }
}

/// Whether the scope is the default (omitted when serializing).
pub fn is_default_enabled_types(v: &EnabledTypes) -> (b: bool)
    ensures
        b == (*v == EnabledTypes::All),
{
    match v {
        EnabledTypes::All => true,
        _ => false,
    }
}

/// Project wizard answers.
#[derive(Debug, Clone, PartialEq, Eq)]
pub struct SetupSelections {
    pub backend: Backend,
    pub frontend: Frontend,
    pub template: Option<TemplateRef>,
}

/// User wizard answers.
#[derive(Debug, Clone, PartialEq, Eq)]
pub struct UserSelections {
    pub name: String,
    pub email: String,
    pub overwrite_policy: OverwritePolicy,
    pub enabled_types: EnabledTypes,
}

/// `[paths]`: one map keyed by language identifier, one for auxiliary roots.
pub struct PathsSection {
    pub lang: StrMap<String>,
    pub aux: StrMap<String>,
}

impl PathsSection {
    /// Empty path maps.
    pub fn new() -> (p: PathsSection)
        ensures
            p.lang@ == Map::<Seq<char>, String>::empty(),
            p.aux@ == Map::<Seq<char>, String>::empty(),
    {
        PathsSection { lang: StrMap::new(), aux: StrMap::new() }
    }

    /// Path for a bundle prefix: `lang` first, then `aux`.
    pub fn lookup(&self, key: &str) -> (r: Option<&str>)
        ensures
            self.lang@.contains_key(key@) ==> (r matches Some(s) && s@ == self.lang@[key@]@),
            !self.lang@.contains_key(key@) && self.aux@.contains_key(key@) ==> (r matches Some(s)
                && s@ == self.aux@[key@]@),
            !self.lang@.contains_key(key@) && !self.aux@.contains_key(key@) ==> r is None,
    {
        match self.lang.get(key) {
            Some(v) => Some(v.as_str()),
            None => match self.aux.get(key) {
                Some(v) => Some(v.as_str()),
                None => None,
            },
        }
    }

    /// Bundle prefixes the project enables: the union of both maps' keys,
    /// ascending, without duplicates.
    pub fn enabled_prefixes(&self) -> (r: Vec<String>)
        ensures
            strictly_sorted(r@.map_values(|k: String| k@)),
            r@.map_values(|k: String| k@).to_set() == self.lang@.dom() + self.aux@.dom(),
    {
        let mut all: StrMap<()> = StrMap::new();
        let mut i: usize = 0;
        self.lang.wf_facts();
        self.aux.wf_facts();
        while i < self.lang.len()
            invariant
                i <= self.lang.key_seq().len(),
                all@.dom() == self.lang.key_seq().take(i as int).to_set(),
            decreases self.lang.key_seq().len() - i,
        {
            all.insert(self.lang.key_at(i).clone(), ());
            i = i + 1;
            proof {
                assert(self.lang.key_seq().take(i as int) =~= self.lang.key_seq().take(i - 1).push(self.lang.key_seq()[i - 1]));
                self.lang.key_seq().take(i - 1).lemma_push_to_set_commute(self.lang.key_seq()[i - 1]);
            }
        }
        assert(self.lang.key_seq().take(i as int) =~= self.lang.key_seq());
        let mut j: usize = 0;
        while j < self.aux.len()
            invariant
                j <= self.aux.key_seq().len(),
                all@.dom() == self.lang.key_seq().to_set() + self.aux.key_seq().take(
                    j as int,
                ).to_set(),
            decreases self.aux.key_seq().len() - j,
        {
            all.insert(self.aux.key_at(j).clone(), ());
            j = j + 1;
            proof {
                assert(self.aux.key_seq().take(j as int) =~= self.aux.key_seq().take(j - 1).push(self.aux.key_seq()[j - 1]));
                self.aux.key_seq().take(j - 1).lemma_push_to_set_commute(self.aux.key_seq()[j - 1]);
                assert(all@.dom() =~= self.lang.key_seq().to_set() + self.aux.key_seq().take(
                    j as int,
                ).to_set());
            }
        }
        assert(self.aux.key_seq().take(j as int) =~= self.aux.key_seq());
        all.wf_facts();
        all.keys()
    }

    /// A copy of both maps.
    pub fn dup(&self) -> (p: PathsSection)
        ensures
            p.lang@ == self.lang@,
            p.aux@ == self.aux@,
    {
        PathsSection { lang: self.lang.dup(), aux: self.aux.dup() }
    }
}

/// `[project]`: languages and optional pinned template.
pub struct ProjectSection {
    pub backend: Backend,
    pub frontend: Frontend,
    pub template: Option<TemplateRef>,
}

/// `[overwrite]` of the user file.
pub struct OverwriteSection {
    pub overwrite_policy: OverwritePolicy,
}

/// `[user]` of the user file.
pub struct UserSection {
    pub name: String,
    pub email: String,
}

/// `[scope]` of the user file.
pub struct ScopeSection {
    pub enabled_types: EnabledTypes,
}

/// Free-form `[variables]` table.
pub struct VariablesSection(pub StrMap<DataValue>);

/// `[templates.outputs]` keyed on template `rel_path`.
pub struct OutputsSection(pub StrMap<String>);

/// `[templates]` parent table.
pub struct TemplatesParent {
    pub outputs: OutputsSection,
}

/// `[type_map]`: global fallback policy for unknown types.
pub struct TypeMapSection {
    pub fallback: Fallback,
}

/// Whether `[templates.outputs]` is empty (omitted when serializing).
pub fn is_empty_outputs(s: &OutputsSection) -> (b: bool)
    ensures
        b == (s.0@.dom().len() == 0),
{
    s.0.is_empty()
}

/// Whether `[templates]` carries nothing (omitted when serializing).
pub fn is_empty_templates_parent(t: &TemplatesParent) -> (b: bool)
    ensures
        b == (t.outputs.0@.dom().len() == 0),
{
    t.outputs.0.is_empty()
}

/// Whether `[type_map]` holds the default policy (omitted when serializing).
pub fn is_default_type_map(t: &TypeMapSection) -> (b: bool)
    ensures
        b == (t.fallback is Passthrough),
{
    match t.fallback {
        Fallback::Passthrough => true,
        _ => false,
    }
}

/// Project `setup.toml` (checked in).
pub struct SetupConfig {
    pub project: ProjectSection,
    pub paths: PathsSection,
    pub variables: VariablesSection,
    pub templates: TemplatesParent,
    pub type_map: TypeMapSection,
}

/// Per-developer `setup.user.toml` (gitignored).
pub struct SetupUserConfig {
    pub user: UserSection,
    pub overwrite: OverwriteSection,
    pub scope: ScopeSection,
}

/// Flag layer applied after defaults and the optional file.
pub struct SetupFlagOverlay {
    pub backend: Option<Backend>,
    pub frontend: Option<Frontend>,
    pub template: Option<TemplateRef>,
    pub overwrite_policy: Option<OverwritePolicy>,
    pub enabled_types: Option<EnabledTypes>,
    pub type_map_fallback: Option<Fallback>,
    pub paths_lang: StrMap<String>,
    pub paths_aux: StrMap<String>,
}

impl SetupConfig {
    /// Default project selections: no languages, no template.
    pub fn default_selections() -> (s: SetupSelections)
        ensures
            s.backend is NoLang,
            s.frontend is NoLang,
            s.template is None,
    {
        SetupSelections { backend: Backend::NoLang, frontend: Frontend::NoLang, template: None }
    }

    /// Builds the project config from selections, seeding the default paths.
    pub fn from_selections(selections: SetupSelections) -> (c: SetupConfig)
        ensures
            c.project.backend == selections.backend,
            c.project.frontend == selections.frontend,
            c.project.template == selections.template,
            text_view(c.paths.lang@) == crate::default_paths::default_lang_paths(
                selections.backend,
                selections.frontend,
            ),
            text_view(c.paths.aux@) == crate::default_paths::default_aux_paths(selections.backend),
            c.variables.0@ == Map::<Seq<char>, DataValue>::empty(),
            c.templates.outputs.0@ == Map::<Seq<char>, String>::empty(),
            c.type_map.fallback is Passthrough,
    {
        let paths = paths_for_selections(&selections.backend, &selections.frontend);
        SetupConfig {
            project: ProjectSection {
                backend: selections.backend,
                frontend: selections.frontend,
                template: selections.template,
            },
            paths,
            variables: VariablesSection(StrMap::new()),
            templates: TemplatesParent { outputs: OutputsSection(StrMap::new()) },
            type_map: TypeMapSection { fallback: Fallback::Passthrough },
        }
    }

    /// Merge precedence for project fields: defaults, then file, then flags;
    /// flag path entries are layered over the seeded paths.
    pub fn merge(defaults: SetupSelections, file: Option<&SetupConfig>, flags: SetupFlagOverlay) -> (c:
        SetupConfig)
        ensures
            ({
                let b = match flags.backend {
                    Some(v) => v,
                    None => match file {
                        Some(f) => f.project.backend,
                        None => defaults.backend,
                    },
                };
                let fe = match flags.frontend {
                    Some(v) => v,
                    None => match file {
                        Some(f) => f.project.frontend,
                        None => defaults.frontend,
                    },
                };
                &&& c.project.backend == b
                &&& c.project.frontend == fe
                &&& c.project.template == match flags.template {
                    Some(v) => Some(v),
                    None => match file {
                        Some(f) => f.project.template,
                        None => defaults.template,
                    },
                }
                &&& text_view(c.paths.lang@) == crate::default_paths::default_lang_paths(
                    b,
                    fe,
                ).union_prefer_right(text_view(flags.paths_lang@))
                &&& text_view(c.paths.aux@) == crate::default_paths::default_aux_paths(
                    b,
                ).union_prefer_right(text_view(flags.paths_aux@))
                &&& c.variables.0@ == Map::<Seq<char>, DataValue>::empty()
                &&& match flags.type_map_fallback {
                    Some(f) => c.type_map.fallback == f,
                    None => c.type_map.fallback is Passthrough,
                }
            }),
    {
        let mut sel = defaults;
        match file {
            Some(cfg) => {
                sel.backend = cfg.project.backend.dup();
                sel.frontend = cfg.project.frontend.dup();
                sel.template = match &cfg.project.template {
                    Some(t) => Some(t.dup()),
                    None => None,
                };
            },
            None => {},
        }
        let SetupFlagOverlay {
            backend,
            frontend,
            template,
            overwrite_policy: _,
            enabled_types: _,
            type_map_fallback,
            paths_lang,
            paths_aux,
        } = flags;
        match backend {
            Some(v) => {
                sel.backend = v;
            },
            None => {},
        }
        match frontend {
            Some(v) => {
                sel.frontend = v;
            },
            None => {},
        }
        match template {
            Some(v) => {
                sel.template = Some(v);
            },
            None => {},
        }
        let mut cfg = SetupConfig::from_selections(sel);
        broadcast use lemma_text_view_union;

        cfg.paths.lang.extend_from(&paths_lang);
        cfg.paths.aux.extend_from(&paths_aux);
        match type_map_fallback {
            Some(fb) => {
                cfg.type_map.fallback = fb;
            },
            None => {},
        }
        cfg
    }
}

impl SetupUserConfig {
    /// Default user selections: empty identity, never overwrite, all types.
    pub fn default_user_selections() -> (s: UserSelections)
        ensures
            s.name@.len() == 0,
            s.email@.len() == 0,
            s.overwrite_policy == OverwritePolicy::Never,
            s.enabled_types == EnabledTypes::All,
    {
        UserSelections {
            name: String::new(),
            email: String::new(),
            overwrite_policy: OverwritePolicy::Never,
            enabled_types: EnabledTypes::All,
        }
    }

    /// Builds the user config from selections.
    pub fn from_user_selections(selections: UserSelections) -> (c: SetupUserConfig)
        ensures
            c.user.name == selections.name,
            c.user.email == selections.email,
            c.overwrite.overwrite_policy == selections.overwrite_policy,
            c.scope.enabled_types == selections.enabled_types,
    {
        SetupUserConfig {
            user: UserSection { name: selections.name, email: selections.email },
            overwrite: OverwriteSection { overwrite_policy: selections.overwrite_policy },
            scope: ScopeSection { enabled_types: selections.enabled_types },
        }
    }

    /// Merges the user file with the flag overlay (flags win).
    pub fn merge_user(
        defaults: UserSelections,
        file: Option<&SetupUserConfig>,
        flags: SetupFlagOverlay,
    ) -> (c: SetupUserConfig)
        ensures
            c.user.name == match file {
                Some(f) => f.user.name,
                None => defaults.name,
            },
            c.user.email == match file {
                Some(f) => f.user.email,
                None => defaults.email,
            },
            c.overwrite.overwrite_policy == match flags.overwrite_policy {
                Some(p) => p,
                None => match file {
                    Some(f) => f.overwrite.overwrite_policy,
                    None => defaults.overwrite_policy,
                },
            },
            c.scope.enabled_types == match flags.enabled_types {
                Some(e) => e,
                None => match file {
                    Some(f) => f.scope.enabled_types,
                    None => defaults.enabled_types,
                },
            },
    {
        let mut sel = defaults;
        match file {
            Some(cfg) => {
                sel.name = cfg.user.name.clone();
                sel.email = cfg.user.email.clone();
                sel.overwrite_policy = cfg.overwrite.overwrite_policy;
                sel.enabled_types = cfg.scope.enabled_types;
            },
            None => {},
        }
        match flags.overwrite_policy {
            Some(v) => {
                sel.overwrite_policy = v;
            },
            None => {},
        }
        match flags.enabled_types {
            Some(v) => {
                sel.enabled_types = v;
            },
            None => {},
        }
        SetupUserConfig::from_user_selections(sel)
    }
}

/// Combined runtime view consumed by gen and validate.
pub struct RuntimeConfig {
    pub project: SetupConfig,
    pub user: SetupUserConfig,
}

impl RuntimeConfig {
    /// The user's overwrite policy.
    pub fn overwrite_policy(&self) -> (p: OverwritePolicy)
        ensures
            p == self.user.overwrite.overwrite_policy,
    {
        self.user.overwrite.overwrite_policy
    }

    /// The user's enabled template scope.
    pub fn enabled_types(&self) -> (e: EnabledTypes)
        ensures
            e == self.user.scope.enabled_types,
    {
        self.user.scope.enabled_types
    }
}

// ---------------------------------------------------------------------------
// Checks on loaded files
// ---------------------------------------------------------------------------

/// `e` reports the project variable `key`, whose name the template context
/// defines itself.
pub open spec fn is_reserved_variable_error(e: ErrorEnvelope, key: Seq<char>) -> bool {
    &&& e.is_kind(Kind::ConfigError)
    &&& e.msg@ == "reserved variable name: "@ + key
    &&& e.has_reason("reserved_variable"@)
    &&& e.details@.contains_key("variable"@)
    &&& detail_is_text(e.details@["variable"@], key)
    &&& e.hint@ == "error.config.reserved_variable"@
}

fn reserved_variable_error(key: &str) -> (e: ErrorEnvelope)
    ensures
        is_reserved_variable_error(e, key@),
{
    proof {
        reveal_strlit("variable");
        reveal_strlit("reason");
        assert("variable"@[0] != "reason"@[0]);
    }
    let mut details: StrMap<Detail> = StrMap::new();
    details.insert(owned("variable"), Detail::Text(owned(key)));
    ErrorEnvelope::config_error_with_reason(
        concat2("reserved variable name: ", key),
        "reserved_variable",
        details,
        owned("error.config.reserved_variable"),
    )
}

/// A parsed `setup.toml` is accepted unless one of its `[variables]` takes a
/// name the template context defines itself; the first such name in key
/// order is reported.
pub fn check_setup_variables(cfg: SetupConfig) -> (r: Result<SetupConfig, ErrorEnvelope>)
    ensures
        match first_reserved(cfg.variables.0.key_seq()) {
            Some(k) => r matches Err(e) && is_reserved_variable_error(e, k),
            None => r matches Ok(c) && c == cfg,
        },
{
    let ghost ks = cfg.variables.0.key_seq();
    let mut i: usize = 0;
    assert(ks.skip(0) =~= ks);
    while i < cfg.variables.0.len()
        invariant
            ks == cfg.variables.0.key_seq(),
            i <= ks.len(),
            first_reserved(ks) == first_reserved(ks.skip(i as int)),
        decreases ks.len() - i,
    {
        let k = cfg.variables.0.key_at(i);
        assert(ks.skip(i as int)[0] == k@);
        assert(ks.skip(i as int).drop_first() =~= ks.skip(i + 1));
        if is_reserved_variable_name(k.as_str()) {
            return Err(reserved_variable_error(k.as_str()));
        }
        i = i + 1;
    }
    assert(ks.skip(i as int) =~= Seq::<Seq<char>>::empty());
    Ok(cfg)
}

/// `e` is the configuration failure with message `msg` and nothing else.
pub open spec fn is_plain_config_error(e: ErrorEnvelope, msg: Seq<char>) -> bool {
    &&& e.is_kind(Kind::ConfigError)
    &&& e.msg@ == msg
    &&& e.has_reason("config_error"@)
    &&& e.details@.dom() =~= set!["reason"@]
    &&& e.hint@.len() == 0
}

/// The configuration failure with message `msg`.
pub fn plain_config_error(msg: String) -> (e: ErrorEnvelope)
    ensures
        is_plain_config_error(e, msg@),
{
    let e = ErrorEnvelope::config_error_with_reason(msg, "config_error", StrMap::new(), String::new());
    assert(e.details@.dom() =~= set!["reason"@]);
    e
}

/// A parsed `setup.user.toml` is accepted unless its name or email is blank.
pub fn check_user_config(cfg: SetupUserConfig) -> (r: Result<SetupUserConfig, ErrorEnvelope>)
    ensures
        trim(cfg.user.name@).len() == 0 ==> (r matches Err(e) && is_plain_config_error(
            e,
            "user.name must not be empty"@,
        )),
        trim(cfg.user.name@).len() > 0 && trim(cfg.user.email@).len() == 0 ==> (r matches Err(e)
            && is_plain_config_error(e, "user.email must not be empty"@)),
        trim(cfg.user.name@).len() > 0 && trim(cfg.user.email@).len() > 0 ==> (r matches Ok(c)
            && c == cfg),
{
    if trimmed(cfg.user.name.as_str()).len() == 0 {
        return Err(plain_config_error(owned("user.name must not be empty")));
    }
    if trimmed(cfg.user.email.as_str()).len() == 0 {
        return Err(plain_config_error(owned("user.email must not be empty")));
    }
    Ok(cfg)
}

impl RuntimeConfig {
    /// The runtime view of the loaded files: the user file's settings when
    /// it exists, else the default user settings.
    pub fn from_files(project: SetupConfig, user: Option<SetupUserConfig>) -> (r: RuntimeConfig)
        ensures
            r.project == project,
            user matches Some(u) ==> r.user == u,
            user is None ==> r.user.user.name@.len() == 0 && r.user.user.email@.len() == 0
                && r.user.overwrite.overwrite_policy == OverwritePolicy::Never
                && r.user.scope.enabled_types == EnabledTypes::All,
    {
        let user = match user {
            Some(u) => u,
            None => SetupUserConfig::from_user_selections(SetupUserConfig::default_user_selections()),
        };
        RuntimeConfig { project, user }
    }
}

} // verus!
