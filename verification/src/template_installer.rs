//! Remote template repository specs (`owner/repo[@ref]` or a GitHub URL)
//! and version selection for installs.

use vstd::prelude::*;

use crate::text::{
    append_str, concat2, debug_quote, debug_quoted, find_first, find_first_in, find_last,
    find_last_in, lemma_find_first, owned, range_starts_with, string_of_range, strip_prefix,
    strip_prefix_range, strip_suffix, strip_suffix_range, to_chars, trim, trim_end_char,
    trim_end_char_range, trim_range,
};

use crate::error::{Detail, ErrorEnvelope, Kind, detail_is_text};
use crate::paths::{join_path, path_join};
use crate::strmap::{StrMap, lex_lt, lex_order, lemma_lex_asym, lemma_lex_irrefl};
use crate::template_install_meta::{InstallMeta, InstallMetaView};
use crate::template_meta_global::{
    TemplateManifest, compare_versions, version_order, lemma_version_order_antisymmetric,
    lemma_version_order_reflexive,
};
use crate::text::{str_eq, string_views};

verus! {

broadcast use vstd::seq_lib::group_to_multiset_ensures;

/// Top-level repo directory holding API-doc bundles shared by all templates.
pub const SHARED_DOC_DIR: &'static str = "doc";

/// Git ref used when callers don't specify one.
pub const DEFAULT_GIT_REF: &'static str = "HEAD";

/// Parsed remote repository spec.
#[derive(Debug, Clone)]
pub struct RepoSpec {
    pub owner: String,
    pub repo: String,
    pub git_ref: String,
}

/// Why a repo spec was rejected.
#[derive(PartialEq, Eq, Structural)]
pub enum RepoSpecError {
    Empty,
    EmptyRef,
    NotOwnerRepo,
    Invalid,
}

/// The input names a full URL (the `@ref` suffix is then not recognised).
pub open spec fn is_url(t: Seq<char>) -> bool {
    "https://"@.is_prefix_of(t) || "http://"@.is_prefix_of(t)
}

/// `owner/repo` part after dropping a GitHub URL prefix, trailing `/` and `.git`.
pub open spec fn repo_path(base: Seq<char>) -> Seq<char> {
    let a = match strip_prefix(base, "https://github.com/"@) {
        Some(x) => x,
        None => match strip_prefix(base, "http://github.com/"@) {
            Some(x) => x,
            None => base,
        },
    };
    let b = trim_end_char(a, '/');
    match strip_suffix(b, ".git"@) {
        Some(x) => x,
        None => b,
    }
}

/// Splits the `owner/repo` path at its first `/`.
pub open spec fn split_owner_repo(p: Seq<char>) -> Result<(Seq<char>, Seq<char>), RepoSpecError> {
    match find_first(p, '/') {
        None => Err(RepoSpecError::NotOwnerRepo),
        Some(i) => {
            let owner = p.take(i);
            let repo = p.skip(i + 1);
            if repo.contains('/') {
                Err(RepoSpecError::NotOwnerRepo)
            } else if owner.len() == 0 || repo.len() == 0 {
                Err(RepoSpecError::Invalid)
            } else {
                Ok((owner, repo))
            }
        },
    }
}

/// Splits a trimmed spec into its base and git ref.
pub open spec fn split_ref(t: Seq<char>) -> Result<(Seq<char>, Seq<char>), RepoSpecError> {
    if is_url(t) {
        Ok((t, "HEAD"@))
    } else {
        match find_last(t, '@') {
            Some(i) => if i + 1 == t.len() {
                Err(RepoSpecError::EmptyRef)
            } else {
                Ok((t.take(i), t.skip(i + 1)))
            },
            None => Ok((t, "HEAD"@)),
        }
    }
}

/// `(owner, repo, git_ref)` that `input` denotes, or why it is rejected.
pub open spec fn spec_repo_parse(input: Seq<char>) -> Result<
    (Seq<char>, Seq<char>, Seq<char>),
    RepoSpecError,
> {
    let t = trim(input);
    if t.len() == 0 {
        Err(RepoSpecError::Empty)
    } else {
        match split_ref(t) {
            Err(e) => Err(e),
            Ok((base, git_ref)) => match split_owner_repo(repo_path(base)) {
                Err(e) => Err(e),
                Ok((owner, repo)) => Ok((owner, repo, git_ref)),
            },
        }
    }
}

/// Message reported for each rejection.
pub open spec fn repo_error_message(e: RepoSpecError, input: Seq<char>) -> Seq<char> {
    match e {
        RepoSpecError::Empty => "repo spec must not be empty"@,
        RepoSpecError::EmptyRef => "empty git ref after '@'"@,
        RepoSpecError::NotOwnerRepo => "expected owner/repo, got "@ + debug_quoted(input),
        RepoSpecError::Invalid => "invalid repo spec: "@ + debug_quoted(input),
    }
}

/// Base bounds `v[a..hi]` and git ref of the trimmed spec `v[a..b]`.
fn split_ref_range(v: &Vec<char>, a: usize, b: usize) -> (r: Result<(usize, String), RepoSpecError>)
    requires
        a < b <= v@.len(),
    ensures
        match split_ref(v@.subrange(a as int, b as int)) {
            Ok((base, g)) => r matches Ok((hi, gr)) && a <= hi <= b && base == v@.subrange(
                a as int,
                hi as int,
            ) && gr@ == g,
            Err(e) => r matches Err(e2) && e2 == e,
        },
{
    let ghost t = v@.subrange(a as int, b as int);
    let url = range_starts_with(v, a, b, "https://") || range_starts_with(v, a, b, "http://");
    proof {
        if "https://"@.len() <= t.len() {
            assert(t.subrange(0, "https://"@.len() as int) =~= v@.subrange(
                a as int,
                a + "https://"@.len(),
            ));
        }
        if "http://"@.len() <= t.len() {
            assert(t.subrange(0, "http://"@.len() as int) =~= v@.subrange(
                a as int,
                a + "http://"@.len(),
            ));
        }
    }
    if url {
        return Ok((b, owned("HEAD")));
    }
    match find_last_in(v, a, b, '@') {
        Some(i) => {
            if i + 1 == b {
                return Err(RepoSpecError::EmptyRef);
            }
            proof {
                assert(t.take(i - a) =~= v@.subrange(a as int, i as int));
                assert(t.skip(i - a + 1) =~= v@.subrange(i + 1, b as int));
            }
            Ok((i, string_of_range(v, i + 1, b)))
        },
        None => Ok((b, owned("HEAD"))),
    }
}

/// Bounds of owner `v[lo..i]` and repo `v[i+1..hi]` in the base `v[a..b]`.
fn owner_repo_ranges(v: &Vec<char>, a: usize, b: usize) -> (r: Result<
    (usize, usize, usize),
    RepoSpecError,
>)
    requires
        a <= b <= v@.len(),
    ensures
        match split_owner_repo(repo_path(v@.subrange(a as int, b as int))) {
            Ok((o, p)) => r matches Ok((lo, i, hi)) && lo <= i && i + 1 <= hi && hi <= v@.len()
                && o == v@.subrange(lo as int, i as int) && p == v@.subrange(i + 1, hi as int),
            Err(e) => r matches Err(e2) && e2 == e,
        },
{
    let ghost base = v@.subrange(a as int, b as int);
    let mut lo = a;
    match strip_prefix_range(v, lo, b, "https://github.com/") {
        Some(k) => {
            lo = k;
        },
        None => {
            match strip_prefix_range(v, lo, b, "http://github.com/") {
                Some(k) => {
                    lo = k;
                },
                None => {},
            }
        },
    }
    let hi2 = trim_end_char_range(v, lo, b, '/');
    let hi3 = match strip_suffix_range(v, lo, hi2, ".git") {
        Some(k) => k,
        None => hi2,
    };
    let ghost path = v@.subrange(lo as int, hi3 as int);
    assert(path == repo_path(base));
    match find_first_in(v, lo, hi3, '/') {
        None => Err(RepoSpecError::NotOwnerRepo),
        Some(i) => {
            proof {
                assert(path.take(i - lo) =~= v@.subrange(lo as int, i as int));
                assert(path.skip(i - lo + 1) =~= v@.subrange(i + 1, hi3 as int));
            }
            let more = find_first_in(v, i + 1, hi3, '/');
            proof {
                let rp = v@.subrange(i + 1, hi3 as int);
                lemma_find_first(rp, '/');
                if rp.contains('/') {
                    let j = choose|j: int| 0 <= j < rp.len() && rp[j] == '/';
                    assert(rp[j] == '/');
                }
                if let Some(k) = more {
                    assert(rp[k - (i + 1)] == '/');
                    assert(rp.contains('/'));
                }
                assert(path.skip(i - lo + 1) == rp);
            }
            let ghost rel = find_first(path, '/');
            assert(rel == Some(i - lo));
            if more.is_some() {
                assert(split_owner_repo(path) == Err::<(Seq<char>, Seq<char>), _>(
                    RepoSpecError::NotOwnerRepo,
                ));
                return Err(RepoSpecError::NotOwnerRepo);
            }
            if i == lo || i + 1 == hi3 {
                return Err(RepoSpecError::Invalid);
            }
            assert(split_owner_repo(path) == Ok::<_, RepoSpecError>(
                (v@.subrange(lo as int, i as int), v@.subrange(i + 1, hi3 as int)),
            ));
            Ok((lo, i, hi3))
        },
    }
}

/// The message for a rejected spec.
fn repo_error_text(e: RepoSpecError, input: &str) -> (m: String)
    ensures
        m@ == repo_error_message(e, input@),
{
    match e {
        RepoSpecError::Empty => owned("repo spec must not be empty"),
        RepoSpecError::EmptyRef => owned("empty git ref after '@'"),
        RepoSpecError::NotOwnerRepo => {
            let q = debug_quote(input);
            concat2("expected owner/repo, got ", q.as_str())
        },
        RepoSpecError::Invalid => {
            let q = debug_quote(input);
            concat2("invalid repo spec: ", q.as_str())
        },
    }
}

impl RepoSpec {
    /// Accepts `owner/repo`, `owner/repo@ref`, `https://github.com/owner/repo`
    /// and `https://github.com/owner/repo.git`. `@ref` is only recognised in
    /// the bare form; full URLs always use `HEAD`.
    pub fn parse(input: &str) -> (r: Result<Self, String>)
        ensures
            match spec_repo_parse(input@) {
                Ok((o, p, g)) => r matches Ok(s) && s.owner@ == o && s.repo@ == p && s.git_ref@
                    == g,
                Err(e) => r matches Err(m) && m@ == repo_error_message(e, input@),
            },
    {
        let v = to_chars(input);
        let (a, b) = trim_range(&v, 0, v.len());
        assert(v@.subrange(0, v@.len() as int) =~= input@);
        let res = if a == b {
            Err(RepoSpecError::Empty)
        } else {
            match split_ref_range(&v, a, b) {
                Err(e) => Err(e),
                Ok((hi, git_ref)) => match owner_repo_ranges(&v, a, hi) {
                    Err(e) => Err(e),
                    Ok((lo, i, hi3)) => Ok(
                        RepoSpec {
                            owner: string_of_range(&v, lo, i),
                            repo: string_of_range(&v, i + 1, hi3),
                            git_ref,
                        },
                    ),
                },
            }
        };
        match res {
            Ok(spec) => Ok(spec),
            Err(e) => Err(repo_error_text(e, input)),
        }
    }

    /// `https://codeload.github.com/{owner}/{repo}/tar.gz/{ref}`.
    pub fn tarball_url(&self) -> (u: String)
        ensures
            u@ == "https://codeload.github.com/"@ + self.owner@ + "/"@ + self.repo@ + "/tar.gz/"@
                + self.git_ref@,
    {
        let mut u = owned("https://codeload.github.com/");
        append_str(&mut u, self.owner.as_str());
        append_str(&mut u, "/");
        append_str(&mut u, self.repo.as_str());
        append_str(&mut u, "/tar.gz/");
        append_str(&mut u, self.git_ref.as_str());
        u
    }

    /// Human-friendly form, e.g. `owner/repo@HEAD`.
    pub fn display(&self) -> (d: String)
        ensures
            d@ == self.owner@ + "/"@ + self.repo@ + "@"@ + self.git_ref@,
    {
        let mut d = self.owner.clone();
        append_str(&mut d, "/");
        append_str(&mut d, self.repo.as_str());
        append_str(&mut d, "@");
        append_str(&mut d, self.git_ref.as_str());
        d
    }
}


// ---------------------------------------------------------------------------
// Version ordering
// ---------------------------------------------------------------------------

/// Each version sorts no higher than the one before it.
pub open spec fn versions_descending(vs: Seq<Seq<char>>) -> bool {
    forall|i: int| 1 <= i < vs.len() ==> version_order(#[trigger] vs[i], vs[i - 1]) <= 0
}

/// The version order is transitive on these versions.
pub open spec fn versions_transitive(vs: Seq<Seq<char>>) -> bool {
    forall|i: int, j: int, k: int|
        0 <= i < vs.len() && 0 <= j < vs.len() && 0 <= k < vs.len() && version_order(
            #[trigger] vs[i],
            #[trigger] vs[j],
        ) <= 0 && version_order(vs[j], #[trigger] vs[k]) <= 0 ==> version_order(vs[i], vs[k]) <= 0
}

/// `vs[k]` is the first of the highest versions.
pub open spec fn is_first_max(vs: Seq<Seq<char>>, k: int) -> bool {
    &&& 0 <= k < vs.len()
    &&& forall|j: int| 0 <= j < vs.len() ==> version_order(#[trigger] vs[j], vs[k]) <= 0
    &&& forall|j: int| 0 <= j < k ==> version_order(#[trigger] vs[j], vs[k]) < 0
}

/// Orders version names from the highest down; versions that tie keep
/// their order.
pub fn sort_versions_desc(v: Vec<String>) -> (r: Vec<String>)
    ensures
        r@.to_multiset() == v@.to_multiset(),
        versions_descending(string_views(r@)),
{
    let mut out: Vec<String> = Vec::new();
    let mut rest = v;
    let ghost orig = rest@;
    proof {
        assert(orig.to_multiset() =~= rest@.to_multiset().add(out@.to_multiset()));
    }
    while rest.len() > 0
        invariant
            orig.to_multiset() == rest@.to_multiset().add(out@.to_multiset()),
            versions_descending(string_views(out@)),
        decreases rest@.len(),
    {
        let x = rest.remove(0);
        let mut p: usize = 0;
        while p < out.len() && compare_versions(x.as_str(), out[p].as_str()) <= 0
            invariant
                p <= out@.len(),
                forall|k: int| 0 <= k < p ==> version_order(x@, (#[trigger] out@[k])@) <= 0,
            decreases out@.len() - p,
        {
            p = p + 1;
        }
        let ghost before = out@;
        proof {
            if p < out@.len() {
                lemma_version_order_antisymmetric(x@, out@[p as int]@);
            }
            if p > 0 {
                lemma_version_order_antisymmetric(x@, out@[p - 1]@);
            }
        }
        out.insert(p, x);
        proof {
            assert(out@ == before.insert(p as int, x));
            let sv = string_views(out@);
            assert forall|i: int| 1 <= i < sv.len() implies version_order(#[trigger] sv[i], sv[i - 1]) <= 0 by {
                if i < p {
                    assert(out@[i] == before[i]);
                    assert(out@[i - 1] == before[i - 1]);
                    assert(string_views(before)[i] == before[i]@);
                } else if i == p {
                    assert(out@[i - 1] == before[i - 1]);
                } else if i == p + 1 {
                    assert(out@[i] == before[p as int]);
                } else {
                    assert(out@[i - 1] == before[i - 2]);
                    assert(out@[i] == before[i - 1]);
                    assert(string_views(before)[i - 1] == before[i - 1]@);
                }
            }
        }
    }
    proof {
        assert(rest@.to_multiset() =~= vstd::multiset::Multiset::empty());
        assert(orig.to_multiset() =~= out@.to_multiset());
    }
    out
}

/// The highest of the version names (the first of them on a tie).
pub fn pick_highest_version(versions: &Vec<String>) -> (r: Option<String>)
    ensures
        versions@.len() == 0 <==> r is None,
        r matches Some(v) ==> exists|k: int|
            0 <= k < versions@.len() && (#[trigger] versions@[k])@ == v@ && (versions_transitive(
                string_views(versions@),
            ) ==> is_first_max(string_views(versions@), k)),
{
    if versions.len() == 0 {
        return None;
    }
    let ghost vs = string_views(versions@);
    let mut b: usize = 0;
    let mut i: usize = 1;
    proof {
        lemma_version_order_reflexive(vs[0]);
    }
    while i < versions.len()
        invariant
            vs == string_views(versions@),
            0 <= b < i <= versions@.len(),
            versions_transitive(vs) ==> (forall|j: int| 0 <= j < i ==> version_order(#[trigger] vs[j], vs[b as int]) <= 0),
            versions_transitive(vs) ==> (forall|j: int| 0 <= j < b ==> version_order(#[trigger] vs[j], vs[b as int]) < 0),
        decreases versions@.len() - i,
    {
        let c = compare_versions(versions[i].as_str(), versions[b].as_str());
        assert(vs[i as int] == versions@[i as int]@);
        assert(vs[b as int] == versions@[b as int]@);
        if c > 0 {
            proof {
                lemma_version_order_antisymmetric(vs[i as int], vs[b as int]);
                lemma_version_order_reflexive(vs[i as int]);
                if versions_transitive(vs) {
                    assert forall|j: int| 0 <= j < i + 1 implies version_order(#[trigger] vs[j], vs[i as int]) <= 0 by {
                        if j < i {
                            assert(version_order(vs[j], vs[b as int]) <= 0);
                        }
                    }
                    assert forall|j: int| 0 <= j < i implies version_order(#[trigger] vs[j], vs[i as int]) < 0 by {
                        assert(version_order(vs[j], vs[b as int]) <= 0);
                        lemma_version_order_antisymmetric(vs[j], vs[i as int]);
                        if version_order(vs[j], vs[i as int]) == 0 {
                            assert(version_order(vs[i as int], vs[j]) <= 0);
                            assert(version_order(vs[i as int], vs[b as int]) <= 0);
                        }
                    }
                }
            }
            b = i;
        } else {
            proof {
                if versions_transitive(vs) {
                    assert forall|j: int| 0 <= j < i + 1 implies version_order(#[trigger] vs[j], vs[b as int]) <= 0 by {
                        if j == i {
                            assert(version_order(vs[i as int], vs[b as int]) <= 0);
                        }
                    }
                }
            }
        }
        i = i + 1;
    }
    assert(versions@[b as int]@ == vs[b as int]);
    Some(versions[b].clone())
}

// ---------------------------------------------------------------------------
// Repository catalog
// ---------------------------------------------------------------------------

/// Top-level repo directories holding shared "pick-one" bundles; they are
/// never template names.
pub open spec fn is_shared_bundle_kind(name: Seq<char>) -> bool {
    name == "doc"@ || name == "sql"@
}

/// A top-level repo directory that names a template: not a shared bundle,
/// with at least one version holding a manifest.
pub open spec fn catalog_entry_kept(e: (String, Vec<String>)) -> bool {
    !is_shared_bundle_kind(e.0@) && e.1@.len() > 0
}

/// Each template name of the listing with its versions (a later entry of
/// the same name wins).
pub open spec fn catalog_versions(listing: Seq<(String, Vec<String>)>) -> Map<Seq<char>, Seq<String>>
    decreases listing.len(),
{
    if listing.len() == 0 {
        Map::<Seq<char>, Seq<String>>::empty()
    } else {
        let m = catalog_versions(listing.drop_last());
        if catalog_entry_kept(listing.last()) {
            m.insert(listing.last().0@, listing.last().1@)
        } else {
            m
        }
    }
}

fn is_shared_bundle_kind_exec(name: &str) -> (b: bool)
    ensures
        b == is_shared_bundle_kind(name@),
{
    str_eq(name, "doc") || str_eq(name, "sql")
}

/// The templates of a repository snapshot from its listing (each top-level
/// directory with its version directories that hold a manifest): shared
/// bundle directories and directories without versions are left out, and
/// each template's versions run from the highest down.
pub fn catalog(listing: Vec<(String, Vec<String>)>) -> (r: StrMap<Vec<String>>)
    ensures
        r@.dom() == catalog_versions(listing@).dom(),
        forall|k: Seq<char>| #[trigger]
            r@.contains_key(k) ==> r@[k]@.to_multiset() == catalog_versions(listing@)[k].to_multiset()
                && versions_descending(string_views(r@[k]@)),
{
    let ghost orig = listing@;
    let mut rest = listing;
    let mut out: StrMap<Vec<String>> = StrMap::new();
    assert(orig.take(0) =~= Seq::<(String, Vec<String>)>::empty());
    assert(orig.skip(0) =~= orig);
    assert(out@ =~= Map::<Seq<char>, Vec<String>>::empty());
    while rest.len() > 0
        invariant
            rest@.len() <= orig.len(),
            rest@ == orig.skip(orig.len() - rest@.len()),
            out@.dom() == catalog_versions(orig.take(orig.len() - rest@.len())).dom(),
            forall|k: Seq<char>| #[trigger]
                out@.contains_key(k) ==> out@[k]@.to_multiset() == catalog_versions(
                    orig.take(orig.len() - rest@.len()),
                )[k].to_multiset() && versions_descending(string_views(out@[k]@)),
        decreases rest@.len(),
    {
        let ghost k0 = orig.len() - rest@.len();
        let (name, versions) = rest.remove(0);
        proof {
            assert(rest@ =~= orig.skip(k0 + 1));
            assert(orig.take(k0 + 1).drop_last() =~= orig.take(k0));
            assert(orig.take(k0 + 1).last() == (name, versions));
        }
        if !is_shared_bundle_kind_exec(name.as_str()) && versions.len() > 0 {
            let ghost vs = versions@;
            let sorted = sort_versions_desc(versions);
            let ghost nm = name@;
            out.insert(name, sorted);
            proof {
                let c = catalog_versions(orig.take(k0 + 1));
                assert(c == catalog_versions(orig.take(k0)).insert(nm, vs));
                assert(out@.dom() =~= c.dom());
            }
        }
    }
    assert(orig.take(orig.len() as int) =~= orig);
    out
}

/// Each string sorts no lower than the one before it.
pub open spec fn strings_ascending(s: Seq<Seq<char>>) -> bool {
    forall|i: int| 1 <= i < s.len() ==> !lex_lt(#[trigger] s[i], s[i - 1])
}

/// The names of a shared bundle's category directories, in ascending
/// order.
pub fn shared_categories(names: Vec<String>) -> (r: Vec<String>)
    ensures
        r@.to_multiset() == names@.to_multiset(),
        strings_ascending(string_views(r@)),
{
    let mut out: Vec<String> = Vec::new();
    let mut rest = names;
    let ghost orig = rest@;
    proof {
        assert(orig.to_multiset() =~= rest@.to_multiset().add(out@.to_multiset()));
    }
    while rest.len() > 0
        invariant
            orig.to_multiset() == rest@.to_multiset().add(out@.to_multiset()),
            strings_ascending(string_views(out@)),
        decreases rest@.len(),
    {
        let x = rest.remove(0);
        let mut p: usize = 0;
        while p < out.len() && lex_order(x.as_str(), out[p].as_str()) >= 0
            invariant
                p <= out@.len(),
                forall|k: int| 0 <= k < p ==> !lex_lt(x@, (#[trigger] out@[k])@),
            decreases out@.len() - p,
        {
            p = p + 1;
        }
        let ghost before = out@;
        proof {
            if p < out@.len() {
                lemma_lex_asym(x@, out@[p as int]@);
            }
        }
        out.insert(p, x);
        proof {
            assert(out@ == before.insert(p as int, x));
            let sv = string_views(out@);
            assert forall|i: int| 1 <= i < sv.len() implies !lex_lt(#[trigger] sv[i], sv[i - 1]) by {
                if i < p {
                    assert(out@[i] == before[i]);
                    assert(out@[i - 1] == before[i - 1]);
                    assert(string_views(before)[i] == before[i]@);
                } else if i == p {
                    assert(out@[i - 1] == before[i - 1]);
                } else if i == p + 1 {
                    assert(out@[i] == before[p as int]);
                } else {
                    assert(out@[i - 1] == before[i - 2]);
                    assert(out@[i] == before[i - 1]);
                    assert(string_views(before)[i - 1] == before[i - 1]@);
                }
            }
        }
    }
    proof {
        assert(rest@.to_multiset() =~= vstd::multiset::Multiset::empty());
        assert(orig.to_multiset() =~= out@.to_multiset());
    }
    out
}


// ---------------------------------------------------------------------------
// Install failures
// ---------------------------------------------------------------------------

/// `e` is of kind `k`, says `msg`, has no hint, and carries exactly the
/// text details `details`.
pub open spec fn is_plain_error(
    e: ErrorEnvelope,
    k: Kind,
    msg: Seq<char>,
    details: Map<Seq<char>, Seq<char>>,
) -> bool {
    &&& e.is_kind(k)
    &&& e.msg@ == msg
    &&& e.hint@.len() == 0
    &&& e.hint_args@.len() == 0
    &&& e.details@.dom() == details.dom()
    &&& forall|key: Seq<char>| #[trigger]
        details.contains_key(key) ==> detail_is_text(e.details@[key], details[key])
}

fn plain_error(k: Kind, msg: String, details: StrMap<Detail>) -> (e: ErrorEnvelope)
    ensures
        e.is_kind(k),
        e.msg@ == msg@,
        e.hint@.len() == 0,
        e.hint_args@.len() == 0,
        e.details@ == details@,
{
    ErrorEnvelope {
        kind: k,
        msg,
        exit_code: k.exit_code(),
        hint: String::new(),
        hint_args: Vec::new(),
        details,
    }
}

/// `name@version`.
pub open spec fn at_version(name: Seq<char>, version: Seq<char>) -> Seq<char> {
    name + "@"@ + version
}

fn at_version_exec(name: &str, version: &str) -> (r: String)
    ensures
        r@ == at_version(name@, version@),
{
    let a = concat2(name, "@");
    concat2(a.as_str(), version)
}

/// `owner/repo@ref` of a repo spec.
pub open spec fn repo_display(spec: RepoSpec) -> Seq<char> {
    spec.owner@ + "/"@ + spec.repo@ + "@"@ + spec.git_ref@
}

/// The details of a failure about template `t` in repo `spec`.
pub open spec fn repo_details(t: Seq<char>, spec: RepoSpec) -> Map<Seq<char>, Seq<char>> {
    map!["template"@ => t, "repo"@ => repo_display(spec)]
}

fn repo_error(msg: String, t: String, spec: &RepoSpec) -> (e: ErrorEnvelope)
    ensures
        is_plain_error(e, Kind::UserError, msg@, repo_details(t@, *spec)),
{
    proof {
        reveal_strlit("template");
        reveal_strlit("repo");
        assert("template"@[0] != "repo"@[0]);
    }
    let ghost tv = t@;
    let mut details: StrMap<Detail> = StrMap::new();
    details.insert(owned("template"), Detail::Text(t));
    details.insert(owned("repo"), Detail::Text(spec.display()));
    let e = plain_error(Kind::UserError, msg, details);
    assert(e.details@.dom() =~= repo_details(tv, *spec).dom());
    e
}

/// The failure when the repo has no directory for the template.
pub fn template_not_in_repo(name: &str, spec: &RepoSpec) -> (e: ErrorEnvelope)
    ensures
        is_plain_error(
            e,
            Kind::UserError,
            "template not found in repo: "@ + name@,
            repo_details(name@, *spec),
        ),
{
    repo_error(concat2("template not found in repo: ", name), owned(name), spec)
}

/// The failure when the requested version has no manifest in the repo.
pub fn version_not_in_repo(name: &str, version: &str, spec: &RepoSpec) -> (e: ErrorEnvelope)
    ensures
        is_plain_error(
            e,
            Kind::UserError,
            "version not found in repo: "@ + at_version(name@, version@),
            repo_details(at_version(name@, version@), *spec),
        ),
{
    let t = at_version_exec(name, version);
    repo_error(concat2("version not found in repo: ", t.as_str()), t, spec)
}

/// The failure when no version of the template holds a manifest.
pub fn no_version_in_repo(name: &str, spec: &RepoSpec) -> (e: ErrorEnvelope)
    ensures
        is_plain_error(
            e,
            Kind::UserError,
            "no installable versions for "@ + name@ + " in repo"@,
            repo_details(name@, *spec),
        ),
{
    let a = concat2("no installable versions for ", name);
    repo_error(concat2(a.as_str(), " in repo"), owned(name), spec)
}

/// The failure when the destination already holds this template version.
pub fn already_installed(name: &str, version: &str, dest: &str) -> (e: ErrorEnvelope)
    ensures
        is_plain_error(
            e,
            Kind::FileConflict,
            at_version(name@, version@) + " already installed at "@ + dest@,
            map!["template"@ => at_version(name@, version@), "path"@ => dest@],
        ),
{
    proof {
        reveal_strlit("template");
        reveal_strlit("path");
        assert("template"@[0] != "path"@[0]);
    }
    let t = at_version_exec(name, version);
    let a = concat2(t.as_str(), " already installed at ");
    let msg = concat2(a.as_str(), dest);
    let mut details: StrMap<Detail> = StrMap::new();
    details.insert(owned("template"), Detail::Text(t));
    details.insert(owned("path"), Detail::Text(owned(dest)));
    let e = plain_error(Kind::FileConflict, msg, details);
    assert(e.details@.dom() =~= map!["template"@ => at_version(name@, version@), "path"@ => dest@].dom());
    e
}

/// The failure when the chosen version's manifest cannot be read.
pub fn manifest_unreadable(name: &str, version: &str, src: &str, reason: &str) -> (e: ErrorEnvelope)
    ensures
        is_plain_error(
            e,
            Kind::ConfigError,
            at_version(name@, version@) + " has invalid template.toml: "@ + reason@,
            map!["template"@ => at_version(name@, version@), "path"@ => src@, "reason"@ => reason@],
        ),
{
    proof {
        reveal_strlit("template");
        reveal_strlit("path");
        reveal_strlit("reason");
        assert("template"@[0] != "path"@[0]);
        assert("template"@[0] != "reason"@[0]);
        assert("path"@[0] != "reason"@[0]);
    }
    let t = at_version_exec(name, version);
    let a = concat2(t.as_str(), " has invalid template.toml: ");
    let msg = concat2(a.as_str(), reason);
    let mut details: StrMap<Detail> = StrMap::new();
    details.insert(owned("template"), Detail::Text(t));
    details.insert(owned("path"), Detail::Text(owned(src)));
    details.insert(owned("reason"), Detail::Text(owned(reason)));
    let e = plain_error(Kind::ConfigError, msg, details);
    assert(e.details@.dom() =~= map![
        "template"@ => at_version(name@, version@),
        "path"@ => src@,
        "reason"@ => reason@
    ].dom());
    e
}

/// A file-system failure during install: `"{context}: {error}"`.
pub fn io_error(context: &str, error: &str) -> (e: ErrorEnvelope)
    ensures
        is_plain_error(e, Kind::ConfigError, context@ + ": "@ + error@, Map::empty()),
{
    let a = concat2(context, ": ");
    let e = plain_error(Kind::ConfigError, concat2(a.as_str(), error), StrMap::new());
    assert(e.details@.dom() =~= Map::<Seq<char>, Seq<char>>::empty().dom());
    e
}

/// A download failure.
pub fn network_error(msg: &str) -> (e: ErrorEnvelope)
    ensures
        is_plain_error(e, Kind::NetworkError, msg@, Map::empty()),
{
    let e = plain_error(Kind::NetworkError, owned(msg), StrMap::new());
    assert(e.details@.dom() =~= Map::<Seq<char>, Seq<char>>::empty().dom());
    e
}

/// The failure for an HTTP status of 400 or more when downloading `url`
/// (`shown`: the status as displayed); `None` for a successful status.
pub fn download_status_error(url: &str, status: u16, shown: &str) -> (r: Option<ErrorEnvelope>)
    ensures
        status < 400 <==> r is None,
        r matches Some(e) ==> is_plain_error(
            e,
            Kind::NetworkError,
            "GET "@ + url@ + ": status "@ + shown@,
            Map::empty(),
        ),
{
    if status < 400 {
        None
    } else {
        let a = concat2("GET ", url);
        let b = concat2(a.as_str(), ": status ");
        let m = concat2(b.as_str(), shown);
        Some(network_error(m.as_str()))
    }
}

/// The failure when a shared bundle has no such category.
pub fn category_not_in_repo(kind: &str, category: &str) -> (e: ErrorEnvelope)
    ensures
        e.is_kind(Kind::UserError),
        e.msg@ == kind@ + " category not in repo: "@ + category@,
        e.hint@.len() == 0,
        e.details@.dom() == set!["value"@],
        detail_is_text(e.details@["value"@], category@),
{
    let a = concat2(kind, " category not in repo: ");
    let msg = concat2(a.as_str(), category);
    let e = ErrorEnvelope::user_error(msg, None, Some(category), String::new());
    proof {
        reveal_strlit("flag");
        reveal_strlit("value");
    }
    assert(e.details@.dom() =~= set!["value"@]);
    e
}

// ---------------------------------------------------------------------------
// Install decisions
// ---------------------------------------------------------------------------

/// Chooses the version directory to install from: the requested one when
/// it holds a manifest, else the highest version that does.
/// (`template_dir_exists`: the repo has a directory for `name`;
/// `requested_has_manifest`: the requested version's manifest exists;
/// `versions_with_manifest`: the version directories that hold one.)
pub fn select_install_version(
    spec: &RepoSpec,
    name: &str,
    version: Option<&str>,
    template_dir_exists: bool,
    requested_has_manifest: bool,
    versions_with_manifest: &Vec<String>,
) -> (r: Result<String, ErrorEnvelope>)
    ensures
        !template_dir_exists ==> (r matches Err(e) && is_plain_error(
            e,
            Kind::UserError,
            "template not found in repo: "@ + name@,
            repo_details(name@, *spec),
        )),
        template_dir_exists ==> match version {
            Some(v) => if requested_has_manifest {
                r matches Ok(s) && s@ == v@
            } else {
                r matches Err(e) && is_plain_error(
                    e,
                    Kind::UserError,
                    "version not found in repo: "@ + at_version(name@, v@),
                    repo_details(at_version(name@, v@), *spec),
                )
            },
            None => if versions_with_manifest@.len() == 0 {
                r matches Err(e) && is_plain_error(
                    e,
                    Kind::UserError,
                    "no installable versions for "@ + name@ + " in repo"@,
                    repo_details(name@, *spec),
                )
            } else {
                r matches Ok(s) && exists|k: int|
                    0 <= k < versions_with_manifest@.len() && (#[trigger] versions_with_manifest@[k])@
                        == s@ && (versions_transitive(string_views(versions_with_manifest@))
                        ==> is_first_max(string_views(versions_with_manifest@), k))
            },
        },
{
    if !template_dir_exists {
        return Err(template_not_in_repo(name, spec));
    }
    match version {
        Some(v) => {
            if requested_has_manifest {
                Ok(owned(v))
            } else {
                Err(version_not_in_repo(name, v, spec))
            }
        },
        None => match pick_highest_version(versions_with_manifest) {
            Some(s) => Ok(s),
            None => Err(no_version_in_repo(name, spec)),
        },
    }
}

/// The name and version a template installs under (the manifest's own, else
/// the directory names) and its destination `dest_root/name/version`.
pub fn install_target(
    dest_root: &str,
    dir_name: &str,
    src_version: &str,
    manifest: &TemplateManifest,
) -> (r: (String, String, String))
    ensures
        r.0@ == (match manifest.name {
            Some(n) => n@,
            None => dir_name@,
        }),
        r.1@ == (match manifest.version {
            Some(v) => v@,
            None => src_version@,
        }),
        r.2@ == join_path(join_path(dest_root@, r.0@), r.1@),
{
    let name = match &manifest.name {
        Some(n) => n.clone(),
        None => owned(dir_name),
    };
    let version = match &manifest.version {
        Some(v) => v.clone(),
        None => owned(src_version),
    };
    let base = path_join(dest_root, name.as_str());
    let dest = path_join(base.as_str(), version.as_str());
    (name, version, dest)
}

/// Whether the install may proceed into `dest`: with `Ok(true)` the old copy
/// is removed first; an existing copy without `force` is a conflict.
pub fn check_install_destination(
    name: &str,
    version: &str,
    dest: &str,
    exists: bool,
    force: bool,
) -> (r: Result<bool, ErrorEnvelope>)
    ensures
        exists && !force ==> (r matches Err(e) && is_plain_error(
            e,
            Kind::FileConflict,
            at_version(name@, version@) + " already installed at "@ + dest@,
            map!["template"@ => at_version(name@, version@), "path"@ => dest@],
        )),
        !(exists && !force) ==> r == Ok::<bool, ErrorEnvelope>(exists),
{
    if exists && !force {
        Err(already_installed(name, version, dest))
    } else {
        Ok(exists)
    }
}

/// The install record written after copying: the tree's hash, the
/// `owner/repo` and ref it came from, the time, and no layered bundle yet.
pub fn install_meta_for(spec: &RepoSpec, source_hash: String, installed_at: String) -> (m: InstallMeta)
    ensures
        m@.source_hash == source_hash@,
        m@.repo == spec.owner@ + "/"@ + spec.repo@,
        m@.repo_ref == spec.git_ref@,
        m@.installed_at == installed_at@,
        m@.doc_categories.len() == 0,
        m@.ddl_categories.len() == 0,
        m@.sql_categories.len() == 0,
{
    let a = concat2(spec.owner.as_str(), "/");
    let repo = concat2(a.as_str(), spec.repo.as_str());
    InstallMeta {
        source_hash,
        repo,
        repo_ref: spec.git_ref.clone(),
        installed_at,
        doc_categories: Vec::new(),
        ddl_categories: Vec::new(),
        sql_categories: Vec::new(),
    }
}

} // verus!
