//! `gen` decisions: where each rendered template lands (front-matter,
//! `[templates.outputs]`, or a mirror of the source tree rebased through
//! `[paths]`), the traversal guard, the overwrite rule, and the report.

use vstd::prelude::*;

use crate::config::{Backend, EnabledTypes, Frontend, OutputsSection, OverwritePolicy, PathsSection};
use crate::error::{Detail, ErrorEnvelope, Kind, detail_is_text};
use crate::fs_writer::{WriteTarget, policy_allows, is_conflict_error, conflict_error};
use crate::gen_report::{DryRunLine, GenReport, RenderedFile};
use crate::paths::{join_path, path_join};
use crate::strmap::StrMap;
use crate::template_meta::{TemplateMeta, split_front_matter, split_outcome, yaml_body, yaml_data};
use crate::template_engine::{BindingView, TypeMapBinding, binding_view, hbs_render, is_render_failure, render_template_with_type_map};
use crate::text::{
    to_chars, owned, concat2, find_first, find_last, find_first_in, find_last_in, split_char,
    split_ranges, range_eq, strip_prefix, strip_suffix, strip_suffix_range, string_of_range,
    trim_start_char, trim_start_char_range, replace_char, replace_char_exec, append_str,
    contains_char,
};

verus! {

// ---------------------------------------------------------------------------
// Relative paths
// ---------------------------------------------------------------------------

/// A relative path with `\` separators turned into `/`.
pub open spec fn normalized(rel: Seq<char>) -> Seq<char> {
    replace_char(rel, '\\', '/')
}

/// `rel` with `\` separators turned into `/`.
pub fn normalize_rel_path(rel: &str) -> (r: String)
    ensures
        r@ == normalized(rel@),
{
    replace_char_exec(rel, '\\', '/')
}

/// The path is absolute or climbs out through a `..` component.
pub open spec fn escapes_root(rel: Seq<char>) -> bool {
    (rel.len() > 0 && rel[0] == '/') || split_char(rel, '/').contains(".."@)
}

/// Whether `rel` is absolute or has a `..` component.
pub fn escapes_root_exec(rel: &str) -> (b: bool)
    ensures
        b == escapes_root(rel@),
{
    let v = to_chars(rel);
    if v.len() > 0 && v[0] == '/' {
        return true;
    }
    assert(v@.subrange(0, v@.len() as int) =~= rel@);
    let parts = split_ranges(&v, 0, v.len(), '/');
    let ghost segs = split_char(rel@, '/');
    let mut i: usize = 0;
    while i < parts.len()
        invariant
            v@ == rel@,
            segs == split_char(rel@, '/'),
            segs == split_char(v@.subrange(0, v@.len() as int), '/'),
            parts@.len() == segs.len(),
            forall|k: int|
                0 <= k < parts@.len() ==> 0 <= (#[trigger] parts@[k]).0 <= parts@[k].1 <= v@.len()
                    && v@.subrange(parts@[k].0 as int, parts@[k].1 as int) == segs[k],
            i <= parts@.len(),
            forall|k: int| 0 <= k < i ==> segs[k] != ".."@,
        decreases parts@.len() - i,
    {
        let (a, b) = parts[i];
        assert(parts@[i as int] == (a, b));
        if range_eq(&v, a, b, "..") {
            assert(segs[i as int] == ".."@);
            assert(segs.contains(".."@));
            return true;
        }
        i = i + 1;
    }
    assert(!segs.contains(".."@));
    false
}

/// The directory part of a `/`-separated path (empty when there is none).
pub open spec fn parent_of(rel: Seq<char>) -> Seq<char> {
    match find_last(rel, '/') {
        Some(i) => rel.take(i),
        None => Seq::<char>::empty(),
    }
}

/// The last component of a `/`-separated path.
pub open spec fn file_of(rel: Seq<char>) -> Seq<char> {
    match find_last(rel, '/') {
        Some(i) => rel.skip(i + 1),
        None => rel,
    }
}

/// A file name without its `.hbs` suffix.
pub open spec fn strip_hbs(name: Seq<char>) -> Seq<char> {
    match strip_suffix(name, ".hbs"@) {
        Some(t) => t,
        None => name,
    }
}

/// Where a template lands when only its source location decides: the same
/// relative path without `.hbs` (empty for a path that escapes the root).
pub open spec fn mirror_rel(rel: Seq<char>) -> Seq<char> {
    if escapes_root(rel) {
        Seq::<char>::empty()
    } else {
        join_path(parent_of(rel), strip_hbs(file_of(rel)))
    }
}

pub(crate) fn parent_and_file(rel: &str) -> (r: (String, String))
    ensures
        r.0@ == parent_of(rel@),
        r.1@ == file_of(rel@),
{
    let v = to_chars(rel);
    assert(v@.subrange(0, v@.len() as int) =~= rel@);
    match find_last_in(&v, 0, v.len(), '/') {
        Some(i) => {
            assert(rel@.take(i as int) =~= v@.subrange(0, i as int));
            assert(rel@.skip(i + 1) =~= v@.subrange(i + 1, v@.len() as int));
            (string_of_range(&v, 0, i), string_of_range(&v, i + 1, v.len()))
        },
        None => (String::new(), owned(rel)),
    }
}

/// `name` without a trailing `.hbs`.
pub fn strip_hbs_exec(name: &str) -> (r: String)
    ensures
        r@ == strip_hbs(name@),
{
    let v = to_chars(name);
    assert(v@.subrange(0, v@.len() as int) =~= name@);
    match strip_suffix_range(&v, 0, v.len(), ".hbs") {
        Some(k) => string_of_range(&v, 0, k),
        None => owned(name),
    }
}

/// The source-mirror output path of a template.
pub fn source_mirror_rel(rel: &str) -> (r: String)
    ensures
        r@ == mirror_rel(rel@),
{
    if escapes_root_exec(rel) {
        return String::new();
    }
    let (parent, file) = parent_and_file(rel);
    let stripped = strip_hbs_exec(file.as_str());
    path_join(parent.as_str(), stripped.as_str())
}

// ---------------------------------------------------------------------------
// Rebasing through [paths]
// ---------------------------------------------------------------------------

/// The first component of a `/`-separated path.
pub open spec fn first_segment(rel: Seq<char>) -> Seq<char> {
    match find_first(rel, '/') {
        Some(i) => rel.take(i),
        None => rel,
    }
}

/// The configured directory of a prefix: `[paths.lang]`, then `[paths.aux]`.
pub open spec fn lookup_path(paths: PathsSection, key: Seq<char>) -> Option<Seq<char>> {
    if paths.lang@.contains_key(key) {
        Some(paths.lang@[key]@)
    } else if paths.aux@.contains_key(key) {
        Some(paths.aux@[key]@)
    } else {
        None
    }
}

/// `base` followed by what remains of `rel` after `prefix` and any `/`.
pub open spec fn join_base_strip_prefix(base: Seq<char>, rel: Seq<char>, prefix: Seq<char>) -> Seq<
    char,
> {
    let rest = trim_start_char(
        match strip_prefix(rel, prefix) {
            Some(t) => t,
            None => rel,
        },
        '/',
    );
    if rest.len() == 0 {
        base
    } else {
        base + "/"@ + rest
    }
}

/// `rel` with its first component replaced by the directory `[paths]`
/// configures for it; `None` when that prefix is not configured.
pub open spec fn rebase_prefix(rel: Seq<char>, paths: PathsSection) -> Option<Seq<char>> {
    let seg = first_segment(rel);
    match lookup_path(paths, seg) {
        None => None,
        Some(b) => if find_first(rel, '/') is None {
            Some(b)
        } else {
            Some(join_base_strip_prefix(b, rel, seg + "/"@))
        },
    }
}

fn lookup_exec(paths: &PathsSection, key: &str) -> (r: Option<String>)
    ensures
        match lookup_path(*paths, key@) {
            Some(p) => r matches Some(s) && s@ == p,
            None => r is None,
        },
{
    match paths.lookup(key) {
        Some(s) => Some(owned(s)),
        None => None,
    }
}

/// `base` joined with the rest of `rel` after `prefix`.
pub fn join_base_strip_prefix_exec(base: &str, rel: &str, prefix: &str) -> (r: String)
    ensures
        r@ == join_base_strip_prefix(base@, rel@, prefix@),
{
    let v = to_chars(rel);
    assert(v@.subrange(0, v@.len() as int) =~= rel@);
    let start = match crate::text::strip_prefix_range(&v, 0, v.len(), prefix) {
        Some(k) => k,
        None => 0,
    };
    let k = trim_start_char_range(&v, start, v.len(), '/');
    if k == v.len() {
        owned(base)
    } else {
        let mut r = owned(base);
        append_str(&mut r, "/");
        let rest = string_of_range(&v, k, v.len());
        append_str(&mut r, rest.as_str());
        r
    }
}

/// `rebase_prefix` on text.
pub fn rebase_framework_prefix(rel: &str, paths: &PathsSection) -> (r: Option<String>)
    ensures
        match rebase_prefix(rel@, *paths) {
            Some(p) => r matches Some(s) && s@ == p,
            None => r is None,
        },
{
    let v = to_chars(rel);
    assert(v@.subrange(0, v@.len() as int) =~= rel@);
    match find_first_in(&v, 0, v.len(), '/') {
        None => lookup_exec(paths, rel),
        Some(i) => {
            assert(rel@.take(i as int) =~= v@.subrange(0, i as int));
            let seg = string_of_range(&v, 0, i);
            match lookup_exec(paths, seg.as_str()) {
                None => None,
                Some(b) => {
                    let prefix = concat2(seg.as_str(), "/");
                    Some(join_base_strip_prefix_exec(b.as_str(), rel, prefix.as_str()))
                },
            }
        },
    }
}

/// Where a mirrored template lands: under `--output` when given, else
/// rebased through `[paths]` when its first directory is configured, else
/// as it is.
pub open spec fn mirror_output(rel: Seq<char>, output_override: Option<Seq<char>>, paths: PathsSection) -> Seq<
    char,
> {
    let m = mirror_rel(rel);
    match output_override {
        Some(root) => {
            let rr = normalized(root);
            if m.len() == 0 {
                rr
            } else {
                rr + "/"@ + m
            }
        },
        None => match find_first(m, '/') {
            Some(i) => match lookup_path(paths, m.take(i)) {
                Some(b) => join_base_strip_prefix(b, m, m.take(i) + "/"@),
                None => m,
            },
            None => m,
        },
    }
}

fn mirror_output_exec(rel: &str, output_override: Option<&str>, paths: &PathsSection) -> (r: String)
    ensures
        r@ == mirror_output(
            rel@,
            match output_override {
                Some(o) => Some(o@),
                None => None,
            },
            *paths,
        ),
{
    let m = source_mirror_rel(rel);
    match output_override {
        Some(root) => {
            let rr = normalize_rel_path(root);
            if m.unicode_len() == 0 {
                rr
            } else {
                let mut r = rr;
                append_str(&mut r, "/");
                append_str(&mut r, m.as_str());
                r
            }
        },
        None => {
            let v = to_chars(m.as_str());
            assert(v@.subrange(0, v@.len() as int) =~= m@);
            match find_first_in(&v, 0, v.len(), '/') {
                Some(i) => {
                    assert(m@.take(i as int) =~= v@.subrange(0, i as int));
                    let seg = string_of_range(&v, 0, i);
                    match lookup_exec(paths, seg.as_str()) {
                        Some(b) => {
                            let prefix = concat2(seg.as_str(), "/");
                            join_base_strip_prefix_exec(b.as_str(), m.as_str(), prefix.as_str())
                        },
                        None => m,
                    }
                },
                None => m,
            }
        },
    }
}

// ---------------------------------------------------------------------------
// Output location
// ---------------------------------------------------------------------------

/// Which rule places a template's output.
pub enum OutputLayer {
    /// Front-matter `basePath` / `filename`.
    FrontMatter,
    /// A `[templates.outputs]` entry for the template.
    Outputs,
    /// The template's own location, mirrored.
    Mirror,
}

/// The rule that places the template at `rel` with meta `meta`.
pub open spec fn output_layer_of(rel: Seq<char>, meta: TemplateMeta, outputs: OutputsSection) -> OutputLayer {
    if meta.base_path is Some || meta.filename is Some {
        OutputLayer::FrontMatter
    } else if outputs.0@.contains_key(normalized(rel)) {
        OutputLayer::Outputs
    } else {
        OutputLayer::Mirror
    }
}

/// `e` reports an output path that escapes the project.
pub open spec fn is_traversal_error(e: ErrorEnvelope, rel_hint: Option<Seq<char>>) -> bool {
    &&& e.is_kind(Kind::UserError)
    &&& e.msg@ == "path traversal in template output"@
    &&& e.has_reason("path_traversal"@)
    &&& e.hint@ == "remove .. or absolute path from template location or front-matter"@
    &&& match rel_hint {
        Some(r) => e.details@.dom() == set!["rel_path"@, "reason"@] && detail_is_text(
            e.details@["rel_path"@],
            r,
        ),
        None => e.details@.dom() == set!["reason"@],
    }
}

/// The traversal error, naming the template location when known.
pub fn path_traversal_error(rel_hint: Option<&str>) -> (e: ErrorEnvelope)
    ensures
        is_traversal_error(
            e,
            match rel_hint {
                Some(r) => Some(r@),
                None => None,
            },
        ),
{
    proof {
        reveal_strlit("rel_path");
        reveal_strlit("reason");
        assert("rel_path"@[2] != "reason"@[2]);
    }
    let mut details: StrMap<Detail> = StrMap::new();
    match rel_hint {
        Some(r) => details.insert(owned("rel_path"), Detail::Text(owned(r))),
        None => {},
    }
    let e = ErrorEnvelope::user_error_with_reason(
        owned("path traversal in template output"),
        "path_traversal",
        details,
        owned("remove .. or absolute path from template location or front-matter"),
    );
    match rel_hint {
        Some(_) => {
            assert(e.details@.dom() =~= set!["rel_path"@, "reason"@]);
        },
        None => {
            assert(e.details@.dom() =~= set!["reason"@]);
        },
    }
    e
}

/// `e` reports a front-matter filename with a path separator.
pub open spec fn is_filename_slash_error(e: ErrorEnvelope) -> bool {
    &&& e.is_kind(Kind::UserError)
    &&& e.msg@ == "filename contains path separator"@
    &&& e.has_reason("filename_has_slash"@)
    &&& e.hint@ == "use basePath for directories; filename must be a single segment"@
    &&& e.details@.dom() == set!["reason"@]
}

/// The front-matter filename holds `/` or `\`.
pub open spec fn filename_has_separator(meta: TemplateMeta) -> bool {
    meta.filename matches Some(f) && (f@.contains('/') || f@.contains('\\'))
}

/// Checks a template's location and front-matter before anything is
/// rendered, and tells which rule places its output (so the caller knows
/// which front-matter or `[templates.outputs]` texts to render).
pub fn output_layer(rel: &str, meta: &TemplateMeta, outputs: &OutputsSection) -> (r: Result<
    OutputLayer,
    ErrorEnvelope,
>)
    ensures
        filename_has_separator(*meta) ==> (r matches Err(e) && is_filename_slash_error(e)),
        !filename_has_separator(*meta) && escapes_root(normalized(rel@)) ==> (r matches Err(e)
            && is_traversal_error(e, Some(normalized(rel@)))),
        !filename_has_separator(*meta) && !escapes_root(normalized(rel@)) ==> (r matches Ok(l)
            && l == output_layer_of(rel@, *meta, *outputs)),
{
    match &meta.filename {
        Some(f) => {
            if crate::text::contains_char(f.as_str(), '/') || crate::text::contains_char(
                f.as_str(),
                '\\',
            ) {
                let e = ErrorEnvelope::user_error_with_reason(
                    owned("filename contains path separator"),
                    "filename_has_slash",
                    StrMap::new(),
                    owned("use basePath for directories; filename must be a single segment"),
                );
                assert(e.details@.dom() =~= set!["reason"@]);
                return Err(e);
            }
        },
        None => {},
    }
    let key = normalize_rel_path(rel);
    if escapes_root_exec(key.as_str()) {
        return Err(path_traversal_error(Some(key.as_str())));
    }
    if meta.base_path.is_some() || meta.filename.is_some() {
        Ok(OutputLayer::FrontMatter)
    } else if outputs.0.contains_key(key.as_str()) {
        Ok(OutputLayer::Outputs)
    } else {
        Ok(OutputLayer::Mirror)
    }
}

/// The texts rendered for a template's output location: its front-matter
/// `basePath` and `filename`, or its `[templates.outputs]` entry.
pub struct RenderedLocation {
    pub base: Option<String>,
    pub filename: Option<String>,
    pub output: Option<String>,
}

pub open spec fn text_or_empty(o: Option<String>) -> Seq<char> {
    match o {
        Some(s) => s@,
        None => Seq::<char>::empty(),
    }
}

/// The output path relative to the project, before the traversal guard.
pub open spec fn output_rel(
    rel: Seq<char>,
    meta: TemplateMeta,
    outputs: OutputsSection,
    rendered: RenderedLocation,
    output_override: Option<Seq<char>>,
    paths: PathsSection,
) -> Seq<char> {
    let key = normalized(rel);
    match output_layer_of(rel, meta, outputs) {
        OutputLayer::FrontMatter => {
            let raw_base = if meta.base_path is Some {
                text_or_empty(rendered.base)
            } else {
                parent_of(key)
            };
            let base = match rebase_prefix(raw_base, paths) {
                Some(b) => b,
                None => raw_base,
            };
            let file = if meta.filename is Some {
                text_or_empty(rendered.filename)
            } else {
                strip_hbs(file_of(key))
            };
            if base.len() == 0 {
                file
            } else {
                base + "/"@ + file
            }
        },
        OutputLayer::Outputs => text_or_empty(rendered.output),
        OutputLayer::Mirror => mirror_output(key, output_override, paths),
    }
}

/// Resolves where the template at `rel` is written: front-matter
/// `basePath`/`filename` (the base rebased through `[paths]`), else its
/// `[templates.outputs]` entry, else its mirrored location (under
/// `--output` when given). `rendered` holds the rendered texts the chosen
/// rule uses. A result that is absolute or climbs out with `..` is refused.
pub fn resolve_output_path(
    rel: &str,
    meta: &TemplateMeta,
    outputs: &OutputsSection,
    rendered: &RenderedLocation,
    project_root: &str,
    output_override: Option<&str>,
    paths: &PathsSection,
) -> (r: Result<String, ErrorEnvelope>)
    ensures
        filename_has_separator(*meta) ==> (r matches Err(e) && is_filename_slash_error(e)),
        !filename_has_separator(*meta) && escapes_root(normalized(rel@)) ==> (r matches Err(e)
            && is_traversal_error(e, Some(normalized(rel@)))),
        !filename_has_separator(*meta) && !escapes_root(normalized(rel@)) ==> ({
            let out = output_rel(
                rel@,
                *meta,
                *outputs,
                *rendered,
                match output_override {
                    Some(o) => Some(o@),
                    None => None,
                },
                *paths,
            );
            if escapes_root(out) {
                r matches Err(e) && is_traversal_error(e, Some(normalized(rel@)))
            } else {
                r matches Ok(p) && p@ == join_path(project_root@, out)
            }
        }),
{
    let layer = match output_layer(rel, meta, outputs) {
        Ok(l) => l,
        Err(e) => {
            return Err(e);
        },
    };
    let key = normalize_rel_path(rel);
    let out = match layer {
        OutputLayer::FrontMatter => {
            let raw_base = if meta.base_path.is_some() {
                match &rendered.base {
                    Some(b) => b.clone(),
                    None => String::new(),
                }
            } else {
                parent_and_file(key.as_str()).0
            };
            let base = match rebase_framework_prefix(raw_base.as_str(), paths) {
                Some(b) => b,
                None => raw_base,
            };
            let file = if meta.filename.is_some() {
                match &rendered.filename {
                    Some(f) => f.clone(),
                    None => String::new(),
                }
            } else {
                let (_, f) = parent_and_file(key.as_str());
                strip_hbs_exec(f.as_str())
            };
            if base.unicode_len() == 0 {
                file
            } else {
                let mut s = base;
                append_str(&mut s, "/");
                append_str(&mut s, file.as_str());
                s
            }
        },
        OutputLayer::Outputs => match &rendered.output {
            Some(o) => o.clone(),
            None => String::new(),
        },
        OutputLayer::Mirror => mirror_output_exec(key.as_str(), output_override, paths),
    };
    if escapes_root_exec(out.as_str()) {
        return Err(path_traversal_error(Some(key.as_str())));
    }
    Ok(path_join(project_root, out.as_str()))
}

/// Checks an explicit `--output` directory the same way.
pub fn assert_safe_output_path(rel: &str, project_root: &str, rel_hint: Option<&str>) -> (r: Result<
    String,
    ErrorEnvelope,
>)
    ensures
        escapes_root(rel@) ==> (r matches Err(e) && is_traversal_error(
            e,
            match rel_hint {
                Some(h) => Some(h@),
                None => None,
            },
        )),
        !escapes_root(rel@) ==> (r matches Ok(p) && p@ == join_path(project_root@, rel@)),
{
    if escapes_root_exec(rel) {
        return Err(path_traversal_error(rel_hint));
    }
    Ok(path_join(project_root, rel))
}


// ---------------------------------------------------------------------------
// Overwrite rule, template selection, report
// ---------------------------------------------------------------------------

/// The template's own `overwrite` policy, else the user's.
pub open spec fn effective_policy_of(meta: TemplateMeta, overwrite: OverwritePolicy) -> OverwritePolicy {
    match meta.overwrite {
        Some(p) => p,
        None => overwrite,
    }
}

/// The overwrite policy that applies to a template.
pub fn effective_policy(meta: &TemplateMeta, overwrite: OverwritePolicy) -> (p: OverwritePolicy)
    ensures
        p == effective_policy_of(*meta, overwrite),
{
    match meta.overwrite {
        Some(p) => p,
        None => overwrite,
    }
}

/// A target may be written: its file does not exist yet, or the policy
/// (with `--force`) lets it be replaced.
pub open spec fn may_write(policy: OverwritePolicy, force: bool, present: bool) -> bool {
    !present || policy_allows(policy, force)
}

/// Whether a target may be written.
pub fn allows_overwrite(policy: OverwritePolicy, force: bool, present: bool) -> (b: bool)
    ensures
        b == may_write(policy, force, present),
{
    if !present {
        return true;
    }
    match policy {
        OverwritePolicy::Never => false,
        OverwritePolicy::ForceOnly => force,
        OverwritePolicy::Always => true,
    }
}

/// The template directory of a backend language.
pub open spec fn backend_prefix(b: Backend) -> Option<Seq<char>> {
    match b {
        Backend::Java => Some("java"@),
        Backend::TypeScript => Some("ts"@),
        Backend::Go => Some("go"@),
        Backend::Python => Some("python"@),
        Backend::NoLang => None,
        Backend::Custom(s) => Some(s@),
    }
}

/// The template directory of a frontend language.
pub open spec fn frontend_prefix(f: Frontend) -> Option<Seq<char>> {
    match f {
        Frontend::Vue => Some("vue"@),
        Frontend::React => Some("react"@),
        Frontend::NoLang => None,
        Frontend::Custom(s) => Some(s@),
    }
}

fn backend_prefix_exec(b: &Backend) -> (r: Option<String>)
    ensures
        match backend_prefix(*b) {
            Some(p) => r matches Some(s) && s@ == p,
            None => r is None,
        },
{
    match b {
        Backend::Java => Some(owned("java")),
        Backend::TypeScript => Some(owned("ts")),
        Backend::Go => Some(owned("go")),
        Backend::Python => Some(owned("python")),
        Backend::NoLang => None,
        Backend::Custom(s) => Some(s.clone()),
    }
}

fn frontend_prefix_exec(f: &Frontend) -> (r: Option<String>)
    ensures
        match frontend_prefix(*f) {
            Some(p) => r matches Some(s) && s@ == p,
            None => r is None,
        },
{
    match f {
        Frontend::Vue => Some(owned("vue")),
        Frontend::React => Some(owned("react")),
        Frontend::NoLang => None,
        Frontend::Custom(s) => Some(s.clone()),
    }
}

/// The `--type` prefixes implied by the user's enabled types when none is
/// given: the backend's directory and the auxiliary roots, or the
/// frontend's directory; `None` (no filter) for all types or when nothing
/// applies.
pub open spec fn implicit_prefixes(
    backend: Backend,
    frontend: Frontend,
    aux_keys: Seq<Seq<char>>,
    enabled: EnabledTypes,
) -> Option<Seq<Seq<char>>> {
    let ps = match enabled {
        EnabledTypes::All => Seq::<Seq<char>>::empty(),
        EnabledTypes::Backend => match backend_prefix(backend) {
            Some(p) => seq![p] + aux_keys,
            None => Seq::<Seq<char>>::empty(),
        },
        EnabledTypes::Frontend => match frontend_prefix(frontend) {
            Some(p) => seq![p],
            None => Seq::<Seq<char>>::empty(),
        },
    };
    if ps.len() == 0 {
        None
    } else {
        Some(ps)
    }
}

/// The implied `--type` prefixes of a project (see `implicit_prefixes`).
pub fn implicit_type_prefixes(
    backend: &Backend,
    frontend: &Frontend,
    paths: &PathsSection,
    enabled: EnabledTypes,
) -> (r: Option<Vec<String>>)
    ensures
        match implicit_prefixes(*backend, *frontend, paths.aux.key_seq(), enabled) {
            Some(ps) => r matches Some(v) && crate::text::string_views(v@) == ps,
            None => r is None,
        },
{
    let mut out: Vec<String> = Vec::new();
    match enabled {
        EnabledTypes::All => {
            return None;
        },
        EnabledTypes::Backend => match backend_prefix_exec(backend) {
            Some(p) => {
                out.push(p);
                let keys = paths.aux.keys();
                let mut i: usize = 0;
                while i < keys.len()
                    invariant
                        i <= keys@.len(),
                        keys@.map_values(|k: String| k@) == paths.aux.key_seq(),
                        out@.len() == i + 1,
                        crate::text::string_views(out@) =~= seq![out@[0]@] + paths.aux.key_seq().take(i as int),
                        backend_prefix(*backend) == Some(out@[0]@),
                    decreases keys@.len() - i,
                {
                    let ghost before = out@;
                    out.push(keys[i].clone());
                    assert(crate::text::string_views(out@) =~= crate::text::string_views(before).push(keys@[i as int]@));
                    assert(keys@.map_values(|k: String| k@)[i as int] == keys@[i as int]@);
                    i = i + 1;
                }
                assert(paths.aux.key_seq().take(i as int) =~= paths.aux.key_seq());
            },
            None => {
                return None;
            },
        },
        EnabledTypes::Frontend => match frontend_prefix_exec(frontend) {
            Some(p) => {
                out.push(p);
                assert(crate::text::string_views(out@) =~= seq![out@[0]@]);
            },
            None => {
                return None;
            },
        },
    }
    Some(out)
}

/// Whether a template with these conditions is generated, given whether
/// its condition rendered truthy: `generateWhen` requires it, `skipWhen`
/// forbids it, no condition always generates.
pub open spec fn generated(meta: TemplateMeta, truthy: bool) -> bool {
    if meta.generate_when is Some {
        truthy
    } else if meta.skip_when is Some {
        !truthy
    } else {
        true
    }
}

/// `generated` for a template's meta.
pub fn should_generate(meta: &TemplateMeta, truthy: bool) -> (b: bool)
    ensures
        b == generated(*meta, truthy),
{
    if meta.generate_when.is_some() {
        truthy
    } else if meta.skip_when.is_some() {
        !truthy
    } else {
        true
    }
}

/// The number of `c` in `s`.
pub open spec fn count_char(s: Seq<char>, c: char) -> nat
    decreases s.len(),
{
    if s.len() == 0 {
        0
    } else {
        count_char(s.drop_last(), c) + if s.last() == c {
            1nat
        } else {
            0nat
        }
    }
}

/// The number of lines a dry run reports: line breaks plus one.
pub fn line_count(content: &str) -> (n: usize)
    requires
        content@.len() < usize::MAX,
    ensures
        n == count_char(content@, '\n') + 1,
{
    let v = to_chars(content);
    let mut n: usize = 1;
    let mut i: usize = 0;
    while i < v.len()
        invariant
            v@ == content@,
            v@.len() < usize::MAX,
            i <= v@.len(),
            n == count_char(v@.take(i as int), '\n') + 1,
            n <= i + 1,
        decreases v@.len() - i,
    {
        assert(v@.take(i + 1).drop_last() =~= v@.take(i as int));
        if v[i] == '\n' {
            n = n + 1;
        }
        i = i + 1;
    }
    assert(v@.take(i as int) =~= v@);
    n
}

/// A rendered template with its resolved output path, its overwrite policy
/// and whether the file exists.
pub struct ResolvedTarget {
    pub path: String,
    pub content: String,
    pub overwrite: Option<OverwritePolicy>,
    pub exists: bool,
}

/// The policy that applies to a resolved target.
pub open spec fn target_policy(t: ResolvedTarget, policy: OverwritePolicy) -> OverwritePolicy {
    match t.overwrite {
        Some(p) => p,
        None => policy,
    }
}

/// The resolved target at `i` may be written.
pub open spec fn target_ok(ts: Seq<ResolvedTarget>, i: int, policy: OverwritePolicy, force: bool) -> bool {
    may_write(target_policy(ts[i], policy), force, ts[i].exists)
}

/// The paths of the targets.
pub open spec fn target_paths(ts: Seq<ResolvedTarget>) -> Seq<Seq<char>> {
    ts.map_values(|t: ResolvedTarget| t.path@)
}

/// What a `gen` run produces from its rendered targets: in preview mode
/// (`--stdout`) the rendered files; in dry-run mode every path as skipped,
/// the ones the overwrite rule refuses as conflicts, and one listing line
/// each; otherwise the writes to perform, refused as a whole when any target
/// may not be written. Condition-skipped outputs are reported in every mode.
pub fn gen_outcome(
    resolved: Vec<ResolvedTarget>,
    skipped_by_condition: Vec<String>,
    policy: OverwritePolicy,
    force: bool,
    dry_run: bool,
    preview: bool,
) -> (r: Result<(GenReport, Vec<WriteTarget>), ErrorEnvelope>)
    requires
        forall|i: int| 0 <= i < resolved@.len() ==> (#[trigger] resolved@[i]).content@.len() < usize::MAX,
    ensures
        r matches Ok((rep, _)) ==> rep.skipped_by_condition@ == skipped_by_condition@,
        preview ==> (r matches Ok((rep, _)) && rep.skipped@.len() == 0 && rep.conflicts@.len() == 0
            && rep.dry_run_lines@.len() == 0),
        !preview && dry_run ==> (r matches Ok((rep, _)) && rep.rendered@.len() == 0),
        !preview && !dry_run ==> (r matches Ok((rep, _)) ==> rep.skipped@.len() == 0
            && rep.conflicts@.len() == 0 && rep.dry_run_lines@.len() == 0 && rep.rendered@.len() == 0),
        preview ==> (r matches Ok((rep, writes)) && writes@.len() == 0 && rep.written@.len() == 0
            && rep.rendered@.len() == resolved@.len() && (forall|i: int|
            0 <= i < resolved@.len() ==> (#[trigger] rep.rendered@[i]).path@ == resolved@[i].path@
                && rep.rendered@[i].content@ == resolved@[i].content@)),
        !preview && dry_run ==> (r matches Ok((rep, writes)) && writes@.len() == 0
            && rep.written@.len() == 0 && crate::text::string_views(rep.skipped@) == target_paths(
            resolved@,
        ) && rep.dry_run_lines@.len() == resolved@.len() && (forall|i: int|
            0 <= i < resolved@.len() ==> (#[trigger] rep.dry_run_lines@[i]).path@
                == resolved@[i].path@ && rep.dry_run_lines@[i].line_count == count_char(
                resolved@[i].content@,
                '\n',
            ) + 1 && rep.dry_run_lines@[i].conflict == !target_ok(resolved@, i, policy, force))
            && crate::text::string_views(rep.conflicts@) == target_paths(
            resolved@.filter(|t: ResolvedTarget| !may_write(target_policy(t, policy), force, t.exists)),
        )),
        !preview && !dry_run && (forall|i: int|
            0 <= i < resolved@.len() ==> target_ok(resolved@, i, policy, force)) ==> (r matches Ok(
            (rep, writes),
        ) && crate::text::string_views(rep.written@) == target_paths(resolved@) && writes@.len()
            == resolved@.len() && (forall|i: int|
            0 <= i < resolved@.len() ==> (#[trigger] writes@[i]).path@ == resolved@[i].path@
                && writes@[i].content@ == vstd::utf8::encode_utf8(resolved@[i].content@))),
        !preview && !dry_run && !(forall|i: int|
            0 <= i < resolved@.len() ==> target_ok(resolved@, i, policy, force)) ==> (r matches Err(
            e,
        ) && exists|i: int|
            0 <= i < resolved@.len() && !target_ok(resolved@, i, policy, force) && (forall|j: int|
                0 <= j < i ==> target_ok(resolved@, j, policy, force)) && is_conflict_error(
                e,
                resolved@[i].path@,
            )),
{
    let mut rep = GenReport::empty();
    rep.skipped_by_condition = skipped_by_condition;
    let mut writes: Vec<WriteTarget> = Vec::new();
    if preview {
        let mut i: usize = 0;
        while i < resolved.len()
            invariant
                i <= resolved@.len(),
                rep.rendered@.len() == i,
                rep.written@.len() == 0,
                rep.skipped@.len() == 0,
                rep.conflicts@.len() == 0,
                rep.dry_run_lines@.len() == 0,
                writes@.len() == 0,
                rep.skipped_by_condition@ == skipped_by_condition@,
                forall|j: int|
                    0 <= j < i ==> (#[trigger] rep.rendered@[j]).path@ == resolved@[j].path@
                        && rep.rendered@[j].content@ == resolved@[j].content@,
            decreases resolved@.len() - i,
        {
            rep.rendered.push(
                RenderedFile { path: resolved[i].path.clone(), content: resolved[i].content.clone() },
            );
            i = i + 1;
        }
        return Ok((rep, writes));
    }
    if dry_run {
        let ghost bad = resolved@.filter(
            |t: ResolvedTarget| !may_write(target_policy(t, policy), force, t.exists),
        );
        let mut i: usize = 0;
        while i < resolved.len()
            invariant
                i <= resolved@.len(),
                forall|k: int| 0 <= k < resolved@.len() ==> (#[trigger] resolved@[k]).content@.len() < usize::MAX,
                rep.written@.len() == 0,
                rep.rendered@.len() == 0,
                writes@.len() == 0,
                rep.skipped_by_condition@ == skipped_by_condition@,
                crate::text::string_views(rep.skipped@) == target_paths(resolved@.take(i as int)),
                rep.dry_run_lines@.len() == i,
                forall|j: int|
                    0 <= j < i ==> (#[trigger] rep.dry_run_lines@[j]).path@ == resolved@[j].path@
                        && rep.dry_run_lines@[j].line_count == count_char(resolved@[j].content@, '\n') + 1
                        && rep.dry_run_lines@[j].conflict == !target_ok(resolved@, j, policy, force),
                crate::text::string_views(rep.conflicts@) == target_paths(
                    resolved@.take(i as int).filter(
                        |t: ResolvedTarget| !may_write(target_policy(t, policy), force, t.exists),
                    ),
                ),
            decreases resolved@.len() - i,
        {
            let t = &resolved[i];
            let p = match t.overwrite {
                Some(p) => p,
                None => policy,
            };
            let conflict = !allows_overwrite(p, force, t.exists);
            let ghost sk = rep.skipped@;
            rep.skipped.push(t.path.clone());
            let ghost cf = rep.conflicts@;
            if conflict {
                rep.conflicts.push(t.path.clone());
            }
            rep.dry_run_lines.push(
                DryRunLine { path: t.path.clone(), line_count: line_count(t.content.as_str()), conflict },
            );
            proof {
                let f = |t: ResolvedTarget| !may_write(target_policy(t, policy), force, t.exists);
                assert(resolved@.take(i + 1) =~= resolved@.take(i as int).push(resolved@[i as int]));
                reveal(Seq::filter);
                assert(resolved@.take(i + 1).drop_last() =~= resolved@.take(i as int));
                assert(crate::text::string_views(rep.skipped@) =~= crate::text::string_views(sk).push(t.path@));
                assert(target_paths(resolved@.take(i + 1)) =~= target_paths(resolved@.take(i as int)).push(t.path@));
                if conflict {
                    assert(resolved@.take(i + 1).filter(f) == resolved@.take(i as int).filter(f).push(resolved@[i as int]));
                    assert(crate::text::string_views(rep.conflicts@) =~= crate::text::string_views(cf).push(t.path@));
                    assert(target_paths(resolved@.take(i as int).filter(f).push(resolved@[i as int])) =~= target_paths(resolved@.take(i as int).filter(f)).push(t.path@));
                } else {
                    assert(resolved@.take(i + 1).filter(f) == resolved@.take(i as int).filter(f));
                }
            }
            i = i + 1;
        }
        assert(resolved@.take(i as int) =~= resolved@);
        return Ok((rep, writes));
    }
    let mut i: usize = 0;
    while i < resolved.len()
        invariant
            !preview,
            !dry_run,
            i <= resolved@.len(),
            forall|j: int| 0 <= j < i ==> target_ok(resolved@, j, policy, force),
        decreases resolved@.len() - i,
    {
        let t = &resolved[i];
        let p = match t.overwrite {
            Some(p) => p,
            None => policy,
        };
        if !allows_overwrite(p, force, t.exists) {
            assert(p == target_policy(resolved@[i as int], policy));
            assert(!target_ok(resolved@, i as int, policy, force));
            let e = conflict_error(t.path.as_str());
            assert(is_conflict_error(e, resolved@[i as int].path@));
            return Err(e);
        }
        i = i + 1;
    }
    let mut k: usize = 0;
    while k < resolved.len()
        invariant
            !preview,
            !dry_run,
            k <= resolved@.len(),
            forall|j: int| 0 <= j < resolved@.len() ==> target_ok(resolved@, j, policy, force),
            writes@.len() == k,
            rep.skipped@.len() == 0,
            rep.conflicts@.len() == 0,
            rep.dry_run_lines@.len() == 0,
            rep.rendered@.len() == 0,
            crate::text::string_views(rep.written@) == target_paths(resolved@.take(k as int)),
            rep.skipped_by_condition@ == skipped_by_condition@,
            forall|j: int|
                0 <= j < k ==> (#[trigger] writes@[j]).path@ == resolved@[j].path@
                    && writes@[j].content@ == vstd::utf8::encode_utf8(resolved@[j].content@),
        decreases resolved@.len() - k,
    {
        let t = &resolved[k];
        let bytes = t.content.as_str().as_bytes_vec();
        writes.push(WriteTarget { path: t.path.clone(), content: bytes });
        let ghost w = rep.written@;
        rep.written.push(t.path.clone());
        assert(crate::text::string_views(rep.written@) =~= crate::text::string_views(w).push(t.path@));
        assert(target_paths(resolved@.take(k + 1)) =~= target_paths(resolved@.take(k as int)).push(t.path@));
        k = k + 1;
    }
    assert(resolved@.take(k as int) =~= resolved@);
    Ok((rep, writes))
}

/// `e` reports a generation input that is missing.
pub open spec fn is_missing_input(e: ErrorEnvelope, flag: Seq<char>) -> bool {
    &&& e.is_kind(Kind::UserError)
    &&& e.msg@ == "missing "@ + flag + " for generation"@
    &&& e.has_reason("missing_field"@)
    &&& e.hint@ == "provide --"@ + flag
    &&& e.details@.dom() == set!["flag"@, "reason"@]
    &&& detail_is_text(e.details@["flag"@], flag)
}

/// The error for a generation input (`fields`, `name`, `table`, `package`)
/// that is missing.
pub fn missing_pipeline_input(flag: &str) -> (e: ErrorEnvelope)
    ensures
        is_missing_input(e, flag@),
{
    proof {
        reveal_strlit("flag");
        reveal_strlit("reason");
        assert("flag"@[0] != "reason"@[0]);
    }
    let mut details: StrMap<Detail> = StrMap::new();
    details.insert(owned("flag"), Detail::Text(owned(flag)));
    let head = concat2("missing ", flag);
    let e = ErrorEnvelope::user_error_with_reason(
        concat2(head.as_str(), " for generation"),
        "missing_field",
        details,
        concat2("provide --", flag),
    );
    assert(e.details@.dom() =~= set!["flag"@, "reason"@]);
    e
}


// ---------------------------------------------------------------------------
// Rendering one template
// ---------------------------------------------------------------------------

/// The template that renders `1` exactly when the condition `cond` holds.
pub open spec fn condition_probe(cond: Seq<char>) -> Seq<char> {
    "{{#if "@ + cond + "}}1{{/if}}"@
}

/// `r` is what evaluating the condition `cond` gives: whether the probe
/// renders anything, or the render failure.
pub open spec fn condition_result(cond: Seq<char>, data: Seq<char>, b: BindingView, r: Result<bool, ErrorEnvelope>) -> bool {
    match hbs_render(condition_probe(cond), data, b) {
        Ok(s) => r == Ok::<bool, ErrorEnvelope>(s.len() > 0),
        Err(m) => r matches Err(e) && is_render_failure(e, m),
    }
}

/// Whether a `generateWhen` / `skipWhen` condition holds for the data.
pub fn condition_truthy(cond: &str, data_json: &str, binding: &TypeMapBinding) -> (r: Result<bool, ErrorEnvelope>)
    ensures
        condition_result(cond@, data_json@, binding_view(*binding), r),
{
    let a = concat2("{{#if ", cond);
    let probe = concat2(a.as_str(), "}}1{{/if}}");
    match render_template_with_type_map(probe.as_str(), data_json, binding) {
        Ok(s) => Ok(s.unicode_len() > 0),
        Err(e) => Err(e),
    }
}

/// The optional rendered text as plain values.
pub open spec fn opt_view(o: Option<String>) -> Option<Seq<char>> {
    match o {
        Some(s) => Some(s@),
        None => None,
    }
}

/// The render of an optional text.
pub open spec fn render_opt(t: Option<String>, data: Seq<char>, b: BindingView) -> Option<Result<Seq<char>, Seq<char>>> {
    match t {
        Some(x) => Some(hbs_render(x@, data, b)),
        None => None,
    }
}

/// The text of a successful optional render.
pub open spec fn ok_text(o: Option<Result<Seq<char>, Seq<char>>>) -> Option<Seq<char>> {
    match o {
        Some(Ok(s)) => Some(s),
        _ => None,
    }
}

/// `r` is what `rendered_location` gives: the checks of `output_layer`
/// first; then, for front-matter, the rendered `basePath` then `filename`
/// (each when given); for a `[templates.outputs]` entry, the rendered entry;
/// for a mirrored template, nothing.
pub open spec fn location_result(
    rel: Seq<char>,
    meta: TemplateMeta,
    outputs: OutputsSection,
    data: Seq<char>,
    b: BindingView,
    r: Result<RenderedLocation, ErrorEnvelope>,
) -> bool {
    if filename_has_separator(meta) {
        r matches Err(e) && is_filename_slash_error(e)
    } else if escapes_root(normalized(rel)) {
        r matches Err(e) && is_traversal_error(e, Some(normalized(rel)))
    } else {
        match output_layer_of(rel, meta, outputs) {
            OutputLayer::FrontMatter => {
                let base = render_opt(meta.base_path, data, b);
                let file = render_opt(meta.filename, data, b);
                match base {
                    Some(Err(m)) => r matches Err(e) && is_render_failure(e, m),
                    _ => match file {
                        Some(Err(m)) => r matches Err(e) && is_render_failure(e, m),
                        _ => r matches Ok(loc) && opt_view(loc.base) == ok_text(base) && opt_view(loc.filename)
                            == ok_text(file) && loc.output is None,
                    },
                }
            },
            OutputLayer::Outputs => match hbs_render(outputs.0@[normalized(rel)]@, data, b) {
                Ok(s) => r matches Ok(loc) && loc.base is None && loc.filename is None && opt_view(loc.output)
                    == Some(s),
                Err(m) => r matches Err(e) && is_render_failure(e, m),
            },
            OutputLayer::Mirror => r matches Ok(loc) && loc.base is None && loc.filename is None
                && loc.output is None,
        }
    }
}

fn render_opt_exec(t: &Option<String>, data_json: &str, binding: &TypeMapBinding) -> (r: Result<Option<String>, ErrorEnvelope>)
    ensures
        match render_opt(*t, data_json@, binding_view(*binding)) {
            None => r matches Ok(o) && o is None,
            Some(Ok(s)) => r matches Ok(o) && opt_view(o) == Some(s),
            Some(Err(m)) => r matches Err(e) && is_render_failure(e, m),
        },
{
    match t {
        Some(x) => match render_template_with_type_map(x.as_str(), data_json, binding) {
            Ok(s) => Ok(Some(s)),
            Err(e) => Err(e),
        },
        None => Ok(None),
    }
}

/// The texts the chosen output rule of the template at `rel` needs,
/// rendered with the data: front-matter `basePath` / `filename`, or its
/// `[templates.outputs]` entry; none for a mirrored template.
pub fn rendered_location(
    rel: &str,
    meta: &TemplateMeta,
    outputs: &OutputsSection,
    data_json: &str,
    binding: &TypeMapBinding,
) -> (r: Result<RenderedLocation, ErrorEnvelope>)
    ensures
        location_result(rel@, *meta, *outputs, data_json@, binding_view(*binding), r),
{
    let layer = match output_layer(rel, meta, outputs) {
        Ok(l) => l,
        Err(e) => {
            return Err(e);
        },
    };
    match layer {
        OutputLayer::FrontMatter => {
            let base = match render_opt_exec(&meta.base_path, data_json, binding) {
                Ok(b) => b,
                Err(e) => {
                    return Err(e);
                },
            };
            let filename = match render_opt_exec(&meta.filename, data_json, binding) {
                Ok(f) => f,
                Err(e) => {
                    return Err(e);
                },
            };
            Ok(RenderedLocation { base, filename, output: None })
        },
        OutputLayer::Outputs => {
            let key = normalize_rel_path(rel);
            match outputs.0.get(key.as_str()) {
                Some(t) => match render_template_with_type_map(t.as_str(), data_json, binding) {
                    Ok(s) => Ok(RenderedLocation { base: None, filename: None, output: Some(s) }),
                    Err(e) => Err(e),
                },
                None => Ok(RenderedLocation { base: None, filename: None, output: None }),
            }
        },
        OutputLayer::Mirror => Ok(RenderedLocation { base: None, filename: None, output: None }),
    }
}

/// What rendering one template gives: it is skipped by its condition (at
/// its output path), or rendered (path, text, its own overwrite policy).
pub enum TemplateStep {
    SkippedByCondition(String),
    Rendered { path: String, content: String, overwrite: Option<OverwritePolicy> },
}

/// The condition a template's front-matter sets, if any.
pub open spec fn condition_of(meta: TemplateMeta) -> Option<String> {
    match meta.generate_when {
        Some(c) => Some(c),
        None => meta.skip_when,
    }
}

/// `r` is the body's render at `path`, with the template's policy.
pub open spec fn body_result(
    meta: TemplateMeta,
    body: Seq<char>,
    path: Seq<char>,
    data: Seq<char>,
    b: BindingView,
    r: Result<TemplateStep, ErrorEnvelope>,
) -> bool {
    match hbs_render(body, data, b) {
        Ok(s) => r matches Ok(TemplateStep::Rendered { path: p, content: c, overwrite: o }) && p@ == path
            && c@ == s && o == meta.overwrite,
        Err(m) => r matches Err(e) && is_render_failure(e, m),
    }
}

/// `r` is what `render_step` gives once the location rendered as `loc`:
/// the output path (refused when it escapes the project), then the
/// condition (when set), then the body.
pub open spec fn step_after_location(
    rel: Seq<char>,
    meta: TemplateMeta,
    body: Seq<char>,
    outputs: OutputsSection,
    loc: RenderedLocation,
    root: Seq<char>,
    output_override: Option<Seq<char>>,
    paths: PathsSection,
    data: Seq<char>,
    b: BindingView,
    r: Result<TemplateStep, ErrorEnvelope>,
) -> bool {
    let out = output_rel(rel, meta, outputs, loc, output_override, paths);
    if escapes_root(out) {
        r matches Err(e) && is_traversal_error(e, Some(normalized(rel)))
    } else {
        let path = join_path(root, out);
        match condition_of(meta) {
            Some(c) => match hbs_render(condition_probe(c@), data, b) {
                Err(m) => r matches Err(e) && is_render_failure(e, m),
                Ok(s) => if !generated(meta, s.len() > 0) {
                    r matches Ok(TemplateStep::SkippedByCondition(p)) && p@ == path
                } else {
                    body_result(meta, body, path, data, b, r)
                },
            },
            None => body_result(meta, body, path, data, b, r),
        }
    }
}

/// `r` is what `render_step` gives: the location's failure, or what follows
/// the rendered location.
pub open spec fn step_result(
    rel: Seq<char>,
    meta: TemplateMeta,
    body: Seq<char>,
    outputs: OutputsSection,
    root: Seq<char>,
    output_override: Option<Seq<char>>,
    paths: PathsSection,
    data: Seq<char>,
    b: BindingView,
    r: Result<TemplateStep, ErrorEnvelope>,
) -> bool {
    exists|loc: Result<RenderedLocation, ErrorEnvelope>|
        #[trigger] location_result(rel, meta, outputs, data, b, loc) && match loc {
            Err(e) => r == Err::<TemplateStep, ErrorEnvelope>(e),
            Ok(l) => step_after_location(rel, meta, body, outputs, l, root, output_override, paths, data, b, r),
        }
}

/// Renders one template (at `rel`, front-matter `meta`, body `body`): its
/// location texts, its output path, its condition, then its body. The
/// first failure ends the step.
pub fn render_step(
    rel: &str,
    meta: &TemplateMeta,
    body: &str,
    outputs: &OutputsSection,
    project_root: &str,
    output_override: Option<&str>,
    paths: &PathsSection,
    data_json: &str,
    binding: &TypeMapBinding,
) -> (r: Result<TemplateStep, ErrorEnvelope>)
    ensures
        step_result(
            rel@,
            *meta,
            body@,
            *outputs,
            project_root@,
            match output_override {
                Some(o) => Some(o@),
                None => None,
            },
            *paths,
            data_json@,
            binding_view(*binding),
            r,
        ),
{
    let loc = rendered_location(rel, meta, outputs, data_json, binding);
    let ghost gloc = loc;
    let l = match loc {
        Ok(l) => l,
        Err(e) => {
            assert(location_result(rel@, *meta, *outputs, data_json@, binding_view(*binding), gloc));
            return Err(e);
        },
    };
    let path = match resolve_output_path(rel, meta, outputs, &l, project_root, output_override, paths) {
        Ok(p) => p,
        Err(e) => {
            assert(location_result(rel@, *meta, *outputs, data_json@, binding_view(*binding), gloc));
            return Err(e);
        },
    };
    let cond = match &meta.generate_when {
        Some(c) => Some(c),
        None => match &meta.skip_when {
            Some(c) => Some(c),
            None => None,
        },
    };
    match cond {
        Some(c) => {
            let truthy = match condition_truthy(c.as_str(), data_json, binding) {
                Ok(t) => t,
                Err(e) => {
                    assert(location_result(rel@, *meta, *outputs, data_json@, binding_view(*binding), gloc));
                    return Err(e);
                },
            };
            if !should_generate(meta, truthy) {
                assert(location_result(rel@, *meta, *outputs, data_json@, binding_view(*binding), gloc));
                return Ok(TemplateStep::SkippedByCondition(path));
            }
        },
        None => {},
    }
    let r = match render_template_with_type_map(body, data_json, binding) {
        Ok(content) => Ok(TemplateStep::Rendered { path, content, overwrite: meta.overwrite }),
        Err(e) => Err(e),
    };
    assert(location_result(rel@, *meta, *outputs, data_json@, binding_view(*binding), gloc));
    r
}


/// Renders one template from its source text `src`: the front-matter split
/// first (its failure ends the step), then `render_step` on the meta and
/// body it gives.
pub fn template_step(
    rel: &str,
    src: &str,
    outputs: &OutputsSection,
    project_root: &str,
    output_override: Option<&str>,
    paths: &PathsSection,
    data_json: &str,
    binding: &TypeMapBinding,
) -> (r: Result<TemplateStep, ErrorEnvelope>)
    ensures
        exists|sp: Result<(TemplateMeta, String), ErrorEnvelope>|
            #[trigger] split_outcome(src@, yaml_data(src@), yaml_body(src@), sp) && match sp {
                Err(e) => r == Err::<TemplateStep, ErrorEnvelope>(e),
                Ok((meta, body)) => step_result(
                    rel@,
                    meta,
                    body@,
                    *outputs,
                    project_root@,
                    match output_override {
                        Some(o) => Some(o@),
                        None => None,
                    },
                    *paths,
                    data_json@,
                    binding_view(*binding),
                    r,
                ),
            },
{
    let sp = split_front_matter(src);
    let ghost gsp = sp;
    match sp {
        Err(e) => {
            assert(split_outcome(src@, yaml_data(src@), yaml_body(src@), gsp));
            Err(e)
        },
        Ok((meta, body)) => {
            let r = render_step(rel, &meta, body.as_str(), outputs, project_root, output_override, paths, data_json, binding);
            assert(split_outcome(src@, yaml_data(src@), yaml_body(src@), gsp));
            r
        },
    }
}


/// `generateWhen` generates a template exactly when its condition holds,
/// `skipWhen` exactly when its condition does not hold, and a template with
/// neither is always generated.
pub proof fn lemma_generation_conditions(meta: TemplateMeta, truthy: bool)
    ensures
        meta.generate_when is Some ==> generated(meta, truthy) == truthy,
        meta.generate_when is None && meta.skip_when is Some ==> generated(meta, truthy) == !truthy,
        meta.generate_when is None && meta.skip_when is None ==> generated(meta, truthy),
{
}

/// On the same condition value, a `skipWhen` template and a `generateWhen`
/// template get opposite answers.
pub proof fn lemma_skip_when_negates_generate_when(g: TemplateMeta, s: TemplateMeta, truthy: bool)
    requires
        g.generate_when is Some,
        s.generate_when is None,
        s.skip_when is Some,
    ensures
        generated(s, truthy) == !generated(g, truthy),
{
}

} // verus!
