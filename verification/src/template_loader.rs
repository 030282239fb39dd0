//! Which template files a `gen` run renders: the files found under the
//! templates directory, without the reserved schema files, narrowed by
//! `--type` globs and ordered by path.

use vstd::prelude::*;

use crate::error::{Detail, ErrorEnvelope, Kind, detail_is_text};
use crate::gen_pipeline::{file_of, normalized, normalize_rel_path, parent_and_file, parent_of};
use crate::sorting::{no_inversions, path_sorted, sort_by_path, insert_by_path};
use crate::strmap::{StrMap, strictly_sorted};
use crate::field_types::dup_strings;
use crate::gen_input::detail_is_list;
use crate::i18n::arg_views;
use crate::text::{
    owned, concat2, str_eq, to_chars, string_of_range, trim, trim_end_char, trim_start_char,
    trim_range, trim_end_char_range, trim_start_char_range, string_views, find_last, lemma_find_last, contains_char, join_strings, join_with,
};
use crate::template_variables::SCHEMA_FILE_NAME;
use crate::type_map::TYPE_MAP_FILE_NAME;

verus! {

// ---------------------------------------------------------------------------
// globset
// ---------------------------------------------------------------------------

#[verifier::external_type_specification]
#[verifier::external_body]
pub struct ExGlobSetBuilder(globset::GlobSetBuilder);

#[verifier::external_type_specification]
#[verifier::external_body]
pub struct ExGlobSet(globset::GlobSet);

/// The patterns added to a glob-set builder, in the order they were added.
pub uninterp spec fn builder_patterns(b: globset::GlobSetBuilder) -> Seq<Seq<char>>;

/// The patterns a glob set was built from, in order.
pub uninterp spec fn set_patterns(s: globset::GlobSet) -> Seq<Seq<char>>;

/// What `Glob::new` says of a pattern: `None` when it parses, else the
/// text of its error. The answer is fixed per build target: globset lets
/// `\` escape only where it is not a path separator.
pub uninterp spec fn glob_error(pattern: Seq<char>) -> Option<Seq<char>>;

/// What `GlobSetBuilder::build` says of these patterns: `None` when the set
/// builds, else the text of its error.
pub uninterp spec fn glob_set_error(patterns: Seq<Seq<char>>) -> Option<Seq<char>>;

/// What `GlobSet::is_match` answers for a set of these patterns and a path.
/// The answer is fixed per build target: globset lets `\` escape only where
/// it is not a path separator, and normalizes separators off Unix.
pub uninterp spec fn glob_set_match(patterns: Seq<Seq<char>>, path: Seq<char>) -> bool;

/// `GlobSetBuilder::new`: a builder that holds no pattern.
#[verifier::external_body]
fn new_glob_builder() -> (b: globset::GlobSetBuilder)
    ensures
        builder_patterns(b) == Seq::<Seq<char>>::empty(),
{
    globset::GlobSetBuilder::new()
}

/// `Glob::new(pattern)`, and `GlobSetBuilder::add` of the glob when it
/// parses. Claims: the pattern is added exactly when it parses; otherwise
/// the builder is unchanged and the error's text comes back.
#[verifier::external_body]
fn add_glob(b: &mut globset::GlobSetBuilder, pattern: &str) -> (r: Option<String>)
    ensures
        match r {
            None => glob_error(pattern@) is None && builder_patterns(*final(b)) == builder_patterns(
                *old(b),
            ).push(pattern@),
            Some(m) => glob_error(pattern@) == Some(m@) && builder_patterns(*final(b))
                == builder_patterns(*old(b)),
        },
{
    match globset::Glob::new(pattern) {
        Ok(g) => {
            b.add(g);
            None
        },
        Err(e) => Some(e.to_string()),
    }
}

/// `GlobSetBuilder::build`. Claims: on success the set holds the builder's
/// patterns; on failure the error's text comes back.
#[verifier::external_body]
fn build_glob_set(b: &globset::GlobSetBuilder) -> (r: Result<globset::GlobSet, String>)
    ensures
        match r {
            Ok(s) => glob_set_error(builder_patterns(*b)) is None && set_patterns(s)
                == builder_patterns(*b),
            Err(m) => glob_set_error(builder_patterns(*b)) == Some(m@),
        },
{
    match b.build() {
        Ok(s) => Ok(s),
        Err(e) => Err(e.to_string()),
    }
}

/// `GlobSet::is_match` on a path.
#[verifier::external_body]
fn glob_set_is_match(s: &globset::GlobSet, path: &str) -> (r: bool)
    ensures
        r == glob_set_match(set_patterns(*s), path@),
{
    s.is_match(path)
}

// ---------------------------------------------------------------------------
// --type prefixes
// ---------------------------------------------------------------------------

/// A `--type` value cleaned of surrounding whitespace and slashes.
pub open spec fn clean_prefix(p: Seq<char>) -> Seq<char> {
    trim_start_char(trim_end_char(trim(p), '/'), '/')
}

/// The globs of a list of `--type` values: `p/**` and `p*` for each
/// non-empty cleaned value `p`, in order.
pub open spec fn type_patterns(ps: Seq<Seq<char>>) -> Seq<Seq<char>>
    decreases ps.len(),
{
    if ps.len() == 0 {
        Seq::<Seq<char>>::empty()
    } else {
        let rest = type_patterns(ps.drop_last());
        let p = clean_prefix(ps.last());
        if p.len() == 0 {
            rest
        } else {
            rest.push(p + "/**"@).push(p + "*"@)
        }
    }
}

/// The error of the first pattern that does not parse.
pub open spec fn first_glob_error(pats: Seq<Seq<char>>) -> Option<Seq<char>>
    decreases pats.len(),
{
    if pats.len() == 0 {
        None
    } else {
        match first_glob_error(pats.drop_last()) {
            Some(m) => Some(m),
            None => glob_error(pats.last()),
        }
    }
}

proof fn lemma_first_glob_error_prefix(a: Seq<Seq<char>>, b: Seq<Seq<char>>)
    requires
        first_glob_error(a) is Some,
    ensures
        first_glob_error(a + b) == first_glob_error(a),
    decreases b.len(),
{
    if b.len() == 0 {
        assert(a + b =~= a);
    } else {
        lemma_first_glob_error_prefix(a, b.drop_last());
        assert((a + b).drop_last() =~= a + b.drop_last());
    }
}

proof fn lemma_type_patterns_concat(a: Seq<Seq<char>>, b: Seq<Seq<char>>)
    ensures
        type_patterns(a + b) == type_patterns(a) + type_patterns(b),
    decreases b.len(),
{
    if b.len() == 0 {
        assert(a + b =~= a);
        assert(type_patterns(a) + type_patterns(b) =~= type_patterns(a));
    } else {
        lemma_type_patterns_concat(a, b.drop_last());
        assert((a + b).drop_last() =~= a + b.drop_last());
        let p = clean_prefix(b.last());
        if p.len() > 0 {
            assert(type_patterns(a + b) =~= type_patterns(a) + type_patterns(b));
        }
    }
}

/// The cleaned form of a `--type` value.
fn clean_prefix_exec(p: &str) -> (r: Vec<char>)
    ensures
        r@ == clean_prefix(p@),
{
    let v = to_chars(p);
    assert(v@.subrange(0, v@.len() as int) =~= p@);
    let (a, b) = trim_range(&v, 0, v.len());
    let e = trim_end_char_range(&v, a, b, '/');
    let s = trim_start_char_range(&v, a, e, '/');
    let mut r: Vec<char> = Vec::new();
    let mut i = s;
    while i < e
        invariant
            s <= i <= e,
            e <= v@.len(),
            r@ == v@.subrange(s as int, i as int),
        decreases e - i,
    {
        r.push(v[i]);
        i = i + 1;
        assert(r@ =~= v@.subrange(s as int, i as int));
    }
    r
}

/// Compiles the globs of the `--type` values into one set.
fn compile_type_globs(prefixes: &Vec<String>) -> (r: Result<globset::GlobSet, String>)
    ensures
        ({
            let pats = type_patterns(string_views(prefixes@));
            match first_glob_error(pats) {
                Some(m) => r matches Err(e) && e@ == m,
                None => match glob_set_error(pats) {
                    Some(m) => r matches Err(e) && e@ == m,
                    None => r matches Ok(s) && set_patterns(s) == pats,
                },
            }
        }),
{
    let ghost sv = string_views(prefixes@);
    let mut b = new_glob_builder();
    let mut i: usize = 0;
    assert(sv.take(0) =~= Seq::<Seq<char>>::empty());
    while i < prefixes.len()
        invariant
            sv == string_views(prefixes@),
            i <= prefixes@.len(),
            builder_patterns(b) == type_patterns(sv.take(i as int)),
            first_glob_error(type_patterns(sv.take(i as int))) is None,
        decreases prefixes@.len() - i,
    {
        let ghost before = type_patterns(sv.take(i as int));
        let ghost whole = type_patterns(sv);
        proof {
            assert(sv.take(i + 1).drop_last() =~= sv.take(i as int));
            assert(sv.take(i + 1).last() == prefixes@[i as int]@);
            assert(sv =~= sv.take(i + 1) + sv.skip(i + 1));
            lemma_type_patterns_concat(sv.take(i + 1), sv.skip(i + 1));
        }
        let p = clean_prefix_exec(prefixes[i].as_str());
        if p.len() > 0 {
            let ps = string_of_range(&p, 0, p.len());
            assert(p@.subrange(0, p@.len() as int) =~= p@);
            let pat1 = concat2(ps.as_str(), "/**");
            match add_glob(&mut b, pat1.as_str()) {
                Some(m) => {
                    proof {
                        let t = type_patterns(sv.skip(i + 1));
                        assert(type_patterns(sv.take(i + 1)) == before.push(pat1@).push(ps@ + "*"@));
                        assert(before.push(pat1@).drop_last() =~= before);
                        assert(first_glob_error(before.push(pat1@)) == Some(m@));
                        assert(whole =~= before.push(pat1@) + (seq![ps@ + "*"@] + t));
                        lemma_first_glob_error_prefix(before.push(pat1@), seq![ps@ + "*"@] + t);
                    }
                    return Err(m);
                },
                None => {},
            }
            let pat2 = concat2(ps.as_str(), "*");
            match add_glob(&mut b, pat2.as_str()) {
                Some(m) => {
                    proof {
                        let t = type_patterns(sv.skip(i + 1));
                        assert(type_patterns(sv.take(i + 1)) == before.push(pat1@).push(pat2@));
                        assert(before.push(pat1@).drop_last() =~= before);
                        assert(before.push(pat1@).push(pat2@).drop_last() =~= before.push(pat1@));
                        assert(first_glob_error(before.push(pat1@).push(pat2@)) == Some(m@));
                        assert(whole =~= before.push(pat1@).push(pat2@) + t);
                        lemma_first_glob_error_prefix(before.push(pat1@).push(pat2@), t);
                    }
                    return Err(m);
                },
                None => {},
            }
        }
        proof {
            if p@.len() > 0 {
                assert(before.push(p@ + "/**"@).drop_last() =~= before);
                assert(before.push(p@ + "/**"@).push(p@ + "*"@).drop_last() =~= before.push(
                    p@ + "/**"@,
                ));
            }
        }
        i = i + 1;
    }
    assert(sv.take(i as int) =~= sv);
    build_glob_set(&b)
}

// ---------------------------------------------------------------------------
// The walk
// ---------------------------------------------------------------------------

/// One template file under the templates directory.
#[derive(Debug, Clone)]
pub struct TemplateEntry {
    /// Path relative to the templates directory.
    pub rel_path: String,
    /// Absolute path on disk.
    pub abs_path: String,
}

/// The (relative, absolute) path pairs of a list of entries.
pub open spec fn entry_pairs(s: Seq<TemplateEntry>) -> Seq<(String, String)> {
    s.map_values(|e: TemplateEntry| (e.rel_path, e.abs_path))
}

/// The path sits directly in the templates directory.
pub open spec fn is_top_level(rel: Seq<char>) -> bool {
    find_last(rel, '/') is None
}

/// Files of the templates directory that are configuration, not templates:
/// the variable schema and `template.toml` at the top, any `type_map.toml`.
pub open spec fn reserved_file(rel: Seq<char>) -> bool {
    let name = file_of(rel);
    ||| name == SCHEMA_FILE_NAME@ && is_top_level(rel)
    ||| name == TYPE_MAP_FILE_NAME@
    ||| name == "template.toml"@ && is_top_level(rel)
}

/// The walked files that are templates, in walk order.
pub open spec fn walk_kept(ws: Seq<(String, String)>) -> Seq<(String, String)>
    decreases ws.len(),
{
    if ws.len() == 0 {
        ws
    } else {
        let rest = walk_kept(ws.drop_last());
        if reserved_file(ws.last().0@) {
            rest
        } else {
            rest.push(ws.last())
        }
    }
}

/// The entries whose normalized relative path one of the globs matches.
pub open spec fn type_kept(ws: Seq<(String, String)>, pats: Seq<Seq<char>>) -> Seq<(String, String)>
    decreases ws.len(),
{
    if ws.len() == 0 {
        ws
    } else {
        let rest = type_kept(ws.drop_last(), pats);
        if glob_set_match(pats, normalized(ws.last().0@)) {
            rest.push(ws.last())
        } else {
            rest
        }
    }
}

fn is_reserved(rel: &str) -> (b: bool)
    ensures
        b == reserved_file(rel@),
{
    let (_parent, file) = parent_and_file(rel);
    let has_slash = contains_char(rel, '/');
    proof {
        lemma_find_last(rel@, '/');
        if find_last(rel@, '/') is Some {
            let i = find_last(rel@, '/')->0;
            assert(rel@[i] == '/');
        }
        assert(is_top_level(rel@) == !has_slash);
    }
    if str_eq(file.as_str(), TYPE_MAP_FILE_NAME) {
        return true;
    }
    !has_slash && (str_eq(file.as_str(), SCHEMA_FILE_NAME) || str_eq(file.as_str(), "template.toml"))
}

/// The walked files without the reserved ones, in walk order.
fn drop_reserved(walked: Vec<(String, String)>) -> (r: Vec<(String, String)>)
    ensures
        r@ == walk_kept(walked@),
{
    let ghost orig = walked@;
    let mut rest = walked;
    let mut out: Vec<(String, String)> = Vec::new();
    assert(orig.take(0) =~= Seq::<(String, String)>::empty());
    assert(orig.skip(0) =~= orig);
    while rest.len() > 0
        invariant
            rest@.len() <= orig.len(),
            rest@ == orig.skip(orig.len() - rest@.len()),
            out@ == walk_kept(orig.take(orig.len() - rest@.len())),
        decreases rest@.len(),
    {
        let ghost k = orig.len() - rest@.len();
        let e = rest.remove(0);
        proof {
            assert(e == orig[k]);
            assert(rest@ =~= orig.skip(k + 1));
            assert(orig.take(k + 1).drop_last() =~= orig.take(k));
            assert(orig.take(k + 1).last() == orig[k]);
        }
        if !is_reserved(e.0.as_str()) {
            out.push(e);
        }
    }
    assert(orig.take(orig.len() as int) =~= orig);
    out
}

/// The entries that the glob set matches, in order.
fn keep_matching(set: &globset::GlobSet, entries: Vec<(String, String)>) -> (r: Vec<(String, String)>)
    ensures
        r@ == type_kept(entries@, set_patterns(*set)),
{
    let ghost orig = entries@;
    let ghost pats = set_patterns(*set);
    let mut rest = entries;
    let mut out: Vec<(String, String)> = Vec::new();
    assert(orig.take(0) =~= Seq::<(String, String)>::empty());
    assert(orig.skip(0) =~= orig);
    while rest.len() > 0
        invariant
            pats == set_patterns(*set),
            rest@.len() <= orig.len(),
            rest@ == orig.skip(orig.len() - rest@.len()),
            out@ == type_kept(orig.take(orig.len() - rest@.len()), pats),
        decreases rest@.len(),
    {
        let ghost k = orig.len() - rest@.len();
        let e = rest.remove(0);
        proof {
            assert(e == orig[k]);
            assert(rest@ =~= orig.skip(k + 1));
            assert(orig.take(k + 1).drop_last() =~= orig.take(k));
            assert(orig.take(k + 1).last() == orig[k]);
        }
        let n = normalize_rel_path(e.0.as_str());
        if glob_set_is_match(set, n.as_str()) {
            out.push(e);
        }
    }
    assert(orig.take(orig.len() as int) =~= orig);
    out
}

/// Builds entries from sorted path pairs, keeping their order.
fn into_entries(pairs: Vec<(String, String)>) -> (r: Vec<TemplateEntry>)
    ensures
        entry_pairs(r@) == pairs@,
{
    let ghost orig = pairs@;
    let mut rest = pairs;
    let mut out: Vec<TemplateEntry> = Vec::new();
    assert(orig.skip(0) =~= orig);
    assert(entry_pairs(out@) =~= orig.take(0));
    while rest.len() > 0
        invariant
            rest@.len() <= orig.len(),
            rest@ == orig.skip(orig.len() - rest@.len()),
            entry_pairs(out@) == orig.take(orig.len() - rest@.len()),
        decreases rest@.len(),
    {
        let ghost k = orig.len() - rest@.len();
        let (rel, abs) = rest.remove(0);
        let ghost before = out@;
        out.push(TemplateEntry { rel_path: rel, abs_path: abs });
        proof {
            assert(rest@ =~= orig.skip(k + 1));
            assert(entry_pairs(out@) =~= entry_pairs(before).push((rel, abs)));
            assert(orig.take(k + 1) =~= orig.take(k).push(orig[k]));
        }
    }
    assert(orig.take(orig.len() as int) =~= orig);
    out
}

// ---------------------------------------------------------------------------
// Selection
// ---------------------------------------------------------------------------

/// Why no list of templates came out.
#[derive(Debug)]
pub enum SelectError {
    /// The `--type` globs matched no template; the caller lists the types
    /// that exist (see [`scan_available_types`]) and reports
    /// [`type_not_found_error`].
    TypeNotFound,
    /// Any other failure, ready to report.
    Failed(ErrorEnvelope),
}

/// The `--type` values as plain text, when there are any.
pub open spec fn active_filter(type_filter: Option<&Vec<String>>) -> Option<Seq<Seq<char>>> {
    match type_filter {
        Some(ps) => if ps@.len() > 0 {
            Some(string_views(ps@))
        } else {
            None
        },
        None => None,
    }
}

/// The glob error that stops a selection, if any.
pub open spec fn filter_failure(filter: Option<Seq<Seq<char>>>) -> Option<Seq<char>> {
    match filter {
        Some(ps) => match first_glob_error(type_patterns(ps)) {
            Some(m) => Some(m),
            None => glob_set_error(type_patterns(ps)),
        },
        None => None,
    }
}

/// The selected walk entries, in walk order.
pub open spec fn selected(walked: Seq<(String, String)>, filter: Option<Seq<Seq<char>>>) -> Seq<
    (String, String),
> {
    match filter {
        Some(ps) => type_kept(walk_kept(walked), type_patterns(ps)),
        None => walk_kept(walked),
    }
}

/// The message of a `--type` glob that does not compile.
pub open spec fn glob_error_message(m: Seq<char>) -> Seq<char> {
    "invalid --type glob: "@ + m
}

/// `e` reports a `--type` glob that does not compile with error text `m`.
pub open spec fn is_glob_compile_error(e: ErrorEnvelope, m: Seq<char>) -> bool {
    &&& e.is_kind(Kind::UserError)
    &&& e.msg@ == glob_error_message(m)
    &&& e.hint@ == "error.template.invalid_type_glob"@
    &&& e.details@.dom() == set!["flag"@]
    &&& detail_is_text(e.details@["flag"@], "type"@)
}

/// `e` reports an empty templates directory at `root`.
pub open spec fn is_no_templates_error(e: ErrorEnvelope, root: Seq<char>) -> bool {
    &&& e.is_kind(Kind::UserError)
    &&& e.msg@ == "no templates in .crud/templates/"@
    &&& e.hint@ == "error.template.no_templates"@
    &&& e.has_reason("no_templates_found"@)
    &&& e.details@.dom() == set!["path"@, "reason"@]
    &&& detail_is_text(e.details@["path"@], root)
}

fn glob_compile_error(m: String) -> (e: ErrorEnvelope)
    ensures
        is_glob_compile_error(e, m@),
{
    let msg = concat2("invalid --type glob: ", m.as_str());
    let e = ErrorEnvelope::user_error(msg, Some("type"), None, owned("error.template.invalid_type_glob"));
    proof {
        reveal_strlit("flag");
        reveal_strlit("value");
    }
    assert(e.details@.dom() =~= set!["flag"@]);
    e
}

/// The failure reported when the templates directory holds no template.
pub fn no_templates_found(root: &str) -> (e: ErrorEnvelope)
    ensures
        is_no_templates_error(e, root@),
{
    let mut details: crate::strmap::StrMap<Detail> = crate::strmap::StrMap::new();
    details.insert(owned("path"), Detail::Text(owned(root)));
    let e = ErrorEnvelope::user_error_with_reason(
        owned("no templates in .crud/templates/"),
        "no_templates_found",
        details,
        owned("error.template.no_templates"),
    );
    proof {
        reveal_strlit("path");
        reveal_strlit("reason");
        assert("path"@[0] != "reason"@[0]);
    }
    assert(e.details@.dom() =~= set!["path"@, "reason"@]);
    e
}

/// The failure reported when walking the templates directory fails.
pub fn walk_error(root: &str, msg: &str) -> (e: ErrorEnvelope)
    ensures
        e.is_kind(Kind::UserError),
        e.msg@ == "failed to walk templates directory"@,
        e.hint@ == "error.template.walk_error"@,
        e.has_reason("template_walk_error"@),
        e.details@.dom() == set!["path"@, "error"@, "reason"@],
        detail_is_text(e.details@["path"@], root@),
        detail_is_text(e.details@["error"@], msg@),
{
    proof {
        reveal_strlit("path");
        reveal_strlit("error");
        reveal_strlit("reason");
        assert("path"@[0] != "reason"@[0]);
        assert("path"@[0] != "error"@[0]);
        assert("error"@[0] != "reason"@[0]);
    }
    let mut details: crate::strmap::StrMap<Detail> = crate::strmap::StrMap::new();
    details.insert(owned("path"), Detail::Text(owned(root)));
    details.insert(owned("error"), Detail::Text(owned(msg)));
    let e = ErrorEnvelope::user_error_with_reason(
        owned("failed to walk templates directory"),
        "template_walk_error",
        details,
        owned("error.template.walk_error"),
    );
    assert(e.details@.dom() =~= set!["path"@, "error"@, "reason"@]);
    e
}

/// Chooses the templates to render from the files found under `root`
/// (`walked`: relative and absolute path of each file, in walk order):
/// reserved files are left out, `--type` globs (`p/**` and `p*` for each
/// value) narrow the rest, and the result is ordered by relative path.
pub fn discover_templates(
    root: &str,
    walked: Vec<(String, String)>,
    type_filter: Option<&Vec<String>>,
) -> (r: Result<Vec<TemplateEntry>, SelectError>)
    ensures
        ({
            let f = active_filter(type_filter);
            let sel = selected(walked@, f);
            match filter_failure(f) {
                Some(m) => r matches Err(SelectError::Failed(e)) && is_glob_compile_error(e, m),
                None => if f is Some && sel.len() == 0 {
                    r matches Err(SelectError::TypeNotFound)
                } else if sel.len() == 0 {
                    r matches Err(SelectError::Failed(e)) && is_no_templates_error(e, root@)
                } else {
                    r matches Ok(v) && entry_pairs(v@) == path_sorted(sel) && no_inversions(
                        entry_pairs(v@),
                    )
                },
            }
        }),
{
    let ghost f = active_filter(type_filter);
    let mut chosen = drop_reserved(walked);
    match type_filter {
        Some(ps) => {
            if ps.len() > 0 {
                match compile_type_globs(ps) {
                    Err(m) => {
                        assert(f == Some(string_views(ps@)));
                        return Err(SelectError::Failed(glob_compile_error(m)));
                    },
                    Ok(set) => {
                        assert(f == Some(string_views(ps@)));
                        assert(set_patterns(set) == type_patterns(string_views(ps@)));
                        chosen = keep_matching(&set, chosen);
                        assert(chosen@ == selected(walked@, f));
                        if chosen.len() == 0 {
                            return Err(SelectError::TypeNotFound);
                        }
                    },
                }
            }
        },
        None => {},
    }
    assert(chosen@ == selected(walked@, f));
    if chosen.len() == 0 {
        return Err(SelectError::Failed(no_templates_found(root)));
    }
    let sorted = sort_by_path(chosen);
    Ok(into_entries(sorted))
}

// ---------------------------------------------------------------------------
// Available types
// ---------------------------------------------------------------------------

/// `t` is the type a directory entry offers: its name, or `name/sub` for
/// one of the first `n` directories below it.
pub open spec fn offers_upto(e: (String, Vec<String>), t: Seq<char>, n: int) -> bool {
    ||| t == e.0@
    ||| exists|j: int| 0 <= j < n && j < e.1@.len() && t == e.0@ + "/"@ + (#[trigger] e.1@[j])@
}

/// The types offered by the first `n` entries of a directory listing.
pub open spec fn offered_by(listing: Seq<(String, Vec<String>)>, n: int) -> Set<Seq<char>> {
    Set::new(
        |t: Seq<char>|
            exists|i: int|
                0 <= i < n && i < listing.len() && offers_upto(#[trigger] listing[i], t, listing[i].1@.len() as int),
    )
}

/// The type names a listing of the templates directory offers (each
/// top-level directory with the names of the directories inside it),
/// sorted, each once.
pub fn scan_available_types(listing: &Vec<(String, Vec<String>)>) -> (r: Vec<String>)
    ensures
        strictly_sorted(string_views(r@)),
        string_views(r@).to_set() == offered_by(listing@, listing@.len() as int),
{
    let mut m: StrMap<bool> = StrMap::new();
    let mut i: usize = 0;
    assert(m@.dom() =~= offered_by(listing@, 0));
    while i < listing.len()
        invariant
            i <= listing@.len(),
            m@.dom() == offered_by(listing@, i as int),
        decreases listing@.len() - i,
    {
        let name = &listing[i].0;
        let subs = &listing[i].1;
        m.insert(name.clone(), true);
        let mut j: usize = 0;
        proof {
            assert(m@.dom() =~= offered_by(listing@, i as int).union(
                Set::new(|t: Seq<char>| offers_upto(listing@[i as int], t, 0)),
            ));
        }
        while j < subs.len()
            invariant
                i < listing@.len(),
                name == &listing@[i as int].0,
                subs == &listing@[i as int].1,
                j <= subs@.len(),
                m@.dom() == offered_by(listing@, i as int).union(
                    Set::new(|t: Seq<char>| offers_upto(listing@[i as int], t, j as int)),
                ),
            decreases subs@.len() - j,
        {
            let key = concat2(concat2(name.as_str(), "/").as_str(), subs[j].as_str());
            m.insert(key, true);
            proof {
                let e = listing@[i as int];
                assert forall|t: Seq<char>| offers_upto(e, t, j + 1) <== (offers_upto(e, t, j as int) || t == key@) by {
                    if t == key@ {
                        assert(t == e.0@ + "/"@ + e.1@[j as int]@);
                    }
                }
                assert forall|t: Seq<char>| offers_upto(e, t, j + 1) ==> (offers_upto(e, t, j as int) || t == key@) by {
                    if offers_upto(e, t, j + 1) && t != e.0@ {
                        let jj = choose|jj: int| 0 <= jj < j + 1 && jj < e.1@.len() && t == e.0@ + "/"@ + (#[trigger] e.1@[jj])@;
                        if jj < j {
                            assert(offers_upto(e, t, j as int));
                        }
                    }
                }
                assert(m@.dom() =~= offered_by(listing@, i as int).union(
                    Set::new(|t: Seq<char>| offers_upto(listing@[i as int], t, j + 1)),
                ));
            }
            j = j + 1;
        }
        proof {
            let e = listing@[i as int];
            assert forall|t: Seq<char>| offered_by(listing@, i + 1).contains(t) <==> (offered_by(listing@, i as int).contains(t) || offers_upto(e, t, e.1@.len() as int)) by {
                if offered_by(listing@, i + 1).contains(t) {
                    let ii = choose|ii: int| 0 <= ii < i + 1 && ii < listing@.len() && offers_upto(#[trigger] listing@[ii], t, listing@[ii].1@.len() as int);
                    if ii < i {
                        assert(offered_by(listing@, i as int).contains(t));
                    }
                }
                if offered_by(listing@, i as int).contains(t) {
                    let ii = choose|ii: int| 0 <= ii < i && ii < listing@.len() && offers_upto(#[trigger] listing@[ii], t, listing@[ii].1@.len() as int);
                    assert(offered_by(listing@, i + 1).contains(t));
                }
                if offers_upto(e, t, e.1@.len() as int) {
                    assert(offers_upto(listing@[i as int], t, listing@[i as int].1@.len() as int));
                }
            }
            assert(m@.dom() =~= offered_by(listing@, i + 1));
        }
        i = i + 1;
    }
    m.wf_facts();
    let r = m.keys();
    assert(string_views(r@) =~= r@.map_values(|k: String| k@));
    r
}

/// `e` reports `--type` values that match no template, listing the types
/// that exist.
pub open spec fn is_type_not_found_error(
    e: ErrorEnvelope,
    requested: Seq<Seq<char>>,
    available: Seq<Seq<char>>,
) -> bool {
    &&& e.is_kind(Kind::UserError)
    &&& e.msg@ == "template type not found"@
    &&& e.hint@ == "error.template.type_not_found"@
    &&& arg_views(e.hint_args@) == seq![("available"@, join_with(available, ", "@))]
    &&& e.has_reason("template_type_not_found"@)
    &&& e.details@.dom() == set!["requested"@, "available_types"@, "reason"@]
    &&& detail_is_list(e.details@["requested"@], requested)
    &&& detail_is_list(e.details@["available_types"@], available)
}

/// The failure reported when the `--type` values match no template.
pub fn type_not_found_error(requested: &Vec<String>, available: &Vec<String>) -> (e: ErrorEnvelope)
    ensures
        is_type_not_found_error(e, string_views(requested@), string_views(available@)),
{
    proof {
        reveal_strlit("requested");
        reveal_strlit("available_types");
        reveal_strlit("reason");
        assert("requested"@[0] != "available_types"@[0]);
        assert("requested"@[2] != "reason"@[2]);
        assert("available_types"@[0] != "reason"@[0]);
    }
    let mut details: StrMap<Detail> = StrMap::new();
    details.insert(owned("requested"), Detail::List(dup_strings(requested)));
    details.insert(owned("available_types"), Detail::List(dup_strings(available)));
    let mut e = ErrorEnvelope::user_error_with_reason(
        owned("template type not found"),
        "template_type_not_found",
        details,
        owned("error.template.type_not_found"),
    );
    let joined = join_strings(available, ", ");
    e.hint_args = vec![(owned("available"), joined)];
    assert(e.details@.dom() =~= set!["requested"@, "available_types"@, "reason"@]);
    assert(arg_views(e.hint_args@) =~= seq![("available"@, join_with(string_views(available@), ", "@))]);
    e
}

/// No entry is a reserved configuration file.
pub open spec fn no_reserved(s: Seq<(String, String)>) -> bool {
    forall|i: int| 0 <= i < s.len() ==> !reserved_file(#[trigger] s[i].0@)
}

proof fn lemma_walk_kept_no_reserved(ws: Seq<(String, String)>)
    ensures
        no_reserved(walk_kept(ws)),
    decreases ws.len(),
{
    if ws.len() > 0 {
        lemma_walk_kept_no_reserved(ws.drop_last());
    }
}

proof fn lemma_type_kept_no_reserved(ws: Seq<(String, String)>, pats: Seq<Seq<char>>)
    requires
        no_reserved(ws),
    ensures
        no_reserved(type_kept(ws, pats)),
    decreases ws.len(),
{
    if ws.len() > 0 {
        assert(no_reserved(ws.drop_last())) by {
            assert forall|i: int| 0 <= i < ws.drop_last().len() implies !reserved_file(
                #[trigger] ws.drop_last()[i].0@,
            ) by {
                assert(ws.drop_last()[i] == ws[i]);
            }
        }
        lemma_type_kept_no_reserved(ws.drop_last(), pats);
        assert(!reserved_file(ws[ws.len() - 1].0@));
    }
}

proof fn lemma_insert_no_reserved(s: Seq<(String, String)>, x: (String, String))
    requires
        no_reserved(s),
        !reserved_file(x.0@),
    ensures
        no_reserved(insert_by_path(s, x)),
    decreases s.len(),
{
    if s.len() > 0 && !crate::sorting::path_lt(x.0@, s[0].0@) {
        assert(no_reserved(s.drop_first())) by {
            assert forall|i: int| 0 <= i < s.drop_first().len() implies !reserved_file(
                #[trigger] s.drop_first()[i].0@,
            ) by {
                assert(s.drop_first()[i] == s[i + 1]);
            }
        }
        lemma_insert_no_reserved(s.drop_first(), x);
        let t = insert_by_path(s.drop_first(), x);
        assert forall|i: int| 0 <= i < (seq![s[0]] + t).len() implies !reserved_file(
            #[trigger] (seq![s[0]] + t)[i].0@,
        ) by {
            if i > 0 {
                assert((seq![s[0]] + t)[i] == t[i - 1]);
            }
        }
    } else if s.len() > 0 {
        assert forall|i: int| 0 <= i < (seq![x] + s).len() implies !reserved_file(
            #[trigger] (seq![x] + s)[i].0@,
        ) by {
            if i > 0 {
                assert((seq![x] + s)[i] == s[i - 1]);
            }
        }
    }
}

proof fn lemma_sorted_no_reserved(s: Seq<(String, String)>)
    requires
        no_reserved(s),
    ensures
        no_reserved(path_sorted(s)),
    decreases s.len(),
{
    if s.len() > 0 {
        assert(no_reserved(s.drop_last())) by {
            assert forall|i: int| 0 <= i < s.drop_last().len() implies !reserved_file(
                #[trigger] s.drop_last()[i].0@,
            ) by {
                assert(s.drop_last()[i] == s[i]);
            }
        }
        lemma_sorted_no_reserved(s.drop_last());
        assert(!reserved_file(s[s.len() - 1].0@));
        lemma_insert_no_reserved(path_sorted(s.drop_last()), s.last());
    }
}

/// The variable schema and `template.toml` at the top of the templates
/// directory, and any `type_map.toml`, are never selected for rendering,
/// whatever the walk found and whatever `--type` asked for.
pub proof fn lemma_reserved_never_selected(walked: Seq<(String, String)>, filter: Option<Seq<Seq<char>>>)
    ensures
        no_reserved(path_sorted(selected(walked, filter))),
{
    lemma_walk_kept_no_reserved(walked);
    match filter {
        Some(ps) => {
            lemma_type_kept_no_reserved(walk_kept(walked), type_patterns(ps));
        },
        None => {},
    }
    lemma_sorted_no_reserved(selected(walked, filter));
}

} // verus!
