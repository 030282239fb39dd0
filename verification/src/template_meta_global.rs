//! Installed template registry: version ordering, manifest resolution and
//! lookup of `~/.crud/templates/<name>/<version>/` entries.

use vstd::prelude::*;

use crate::config::{Backend, Frontend};
use crate::error::{Detail, ErrorEnvelope, Kind, spec_exit_code, detail_is_text};
use crate::strmap::{StrMap, lex_lt, lex_order, lex_order_chars, lemma_lex_irrefl, lemma_lex_asym, lemma_lex_total};
use crate::text::{to_chars, owned, concat2, str_eq, split_char, split_char_exec};

verus! {

/// File name of the per-template manifest.
pub const MANIFEST_FILENAME: &'static str = "template.toml";

/// Parsed `template.toml` payload.
#[derive(Debug)]
pub struct TemplateManifest {
    pub name: Option<String>,
    pub version: Option<String>,
    pub backend: Backend,
    pub frontend: Frontend,
    pub description: Option<String>,
}

/// A successfully-loaded installed template.
#[derive(Debug)]
pub struct InstalledTemplate {
    /// Resolved name (manifest > directory name).
    pub name: String,
    /// Resolved version (manifest > version directory name).
    pub version: String,
    /// Path of the `<version>/` directory.
    pub path: String,
    pub manifest: TemplateManifest,
}

// ---------------------------------------------------------------------------
// Version ordering
// ---------------------------------------------------------------------------

pub open spec fn is_digit(c: char) -> bool {
    '0' <= c <= '9'
}

pub open spec fn digit_val(c: char) -> nat {
    match c {
        '1' => 1,
        '2' => 2,
        '3' => 3,
        '4' => 4,
        '5' => 5,
        '6' => 6,
        '7' => 7,
        '8' => 8,
        '9' => 9,
        _ => 0,
    }
}

/// Decimal value of a digit string.
pub open spec fn digits_value(s: Seq<char>) -> nat
    decreases s.len(),
{
    if s.len() == 0 {
        0
    } else {
        digits_value(s.drop_last()) * 10 + digit_val(s.last())
    }
}

pub open spec fn all_digits(s: Seq<char>) -> bool {
    forall|i: int| 0 <= i < s.len() ==> is_digit(#[trigger] s[i])
}

/// `str::parse::<u64>`: an optional `+`, then one or more ASCII digits whose
/// value fits in a `u64`.
pub open spec fn parse_u64(s: Seq<char>) -> Option<nat> {
    let d = if s.len() > 0 && s[0] == '+' {
        s.drop_first()
    } else {
        s
    };
    if d.len() > 0 && all_digits(d) && digits_value(d) <= u64::MAX {
        Some(digits_value(d))
    } else {
        None
    }
}

/// Three-way lexicographic comparison (`str::cmp`) as -1, 0 or 1.
pub open spec fn lex_sign(x: Seq<char>, y: Seq<char>) -> int {
    if lex_lt(x, y) {
        -1
    } else if x == y {
        0
    } else {
        1
    }
}

/// One version segment against another: as integers when both parse as
/// `u64`, lexicographically otherwise.
pub open spec fn segment_order(x: Seq<char>, y: Seq<char>) -> int {
    match (parse_u64(x), parse_u64(y)) {
        (Some(a), Some(b)) => if a < b {
            -1
        } else if a == b {
            0
        } else {
            1
        },
        _ => lex_sign(x, y),
    }
}

/// Segment lists compared pairwise; a list that runs out first is smaller.
pub open spec fn segments_order(a: Seq<Seq<char>>, b: Seq<Seq<char>>) -> int
    decreases a.len(),
{
    if a.len() == 0 && b.len() == 0 {
        0
    } else if a.len() == 0 {
        -1
    } else if b.len() == 0 {
        1
    } else {
        let o = segment_order(a[0], b[0]);
        if o != 0 {
            o
        } else {
            segments_order(a.drop_first(), b.drop_first())
        }
    }
}

/// Component-wise version order of `a` against `b`: -1, 0 or 1.
pub open spec fn version_order(a: Seq<char>, b: Seq<char>) -> int {
    segments_order(split_char(a, '.'), split_char(b, '.'))
}

proof fn lemma_segment_order_antisym(x: Seq<char>, y: Seq<char>)
    ensures
        segment_order(x, y) == -segment_order(y, x),
        segment_order(x, x) == 0,
        -1 <= segment_order(x, y) <= 1,
{
    lemma_lex_irrefl(x);
    lemma_lex_asym(x, y);
    lemma_lex_asym(y, x);
    lemma_lex_total(x, y);
}

proof fn lemma_segments_order_antisym(a: Seq<Seq<char>>, b: Seq<Seq<char>>)
    ensures
        segments_order(a, b) == -segments_order(b, a),
        segments_order(a, a) == 0,
        -1 <= segments_order(a, b) <= 1,
    decreases a.len(),
{
    if a.len() > 0 {
        lemma_segment_order_antisym(a[0], a[0]);
        if b.len() > 0 {
            lemma_segment_order_antisym(a[0], b[0]);
            lemma_segments_order_antisym(a.drop_first(), b.drop_first());
        }
        lemma_segments_order_antisym(a.drop_first(), a.drop_first());
    }
}

/// Every version equals itself in the order.
pub proof fn lemma_version_order_reflexive(a: Seq<char>)
    ensures
        version_order(a, a) == 0,
{
    lemma_segments_order_antisym(split_char(a, '.'), split_char(a, '.'));
}

/// Swapping the operands negates the order; it is always -1, 0 or 1.
pub proof fn lemma_version_order_antisymmetric(a: Seq<char>, b: Seq<char>)
    ensures
        version_order(a, b) == -version_order(b, a),
        -1 <= version_order(a, b) <= 1,
{
    lemma_segments_order_antisym(split_char(a, '.'), split_char(b, '.'));
}

/// The value of a decimal digit.
pub fn digit_of(c: char) -> (d: u64)
    ensures
        d == digit_val(c),
        d <= 9,
{
    match c {
        '1' => 1,
        '2' => 2,
        '3' => 3,
        '4' => 4,
        '5' => 5,
        '6' => 6,
        '7' => 7,
        '8' => 8,
        '9' => 9,
        _ => 0,
    }
}

pub proof fn lemma_digits_value_prefix(s: Seq<char>, i: int)
    requires
        0 <= i <= s.len(),
    ensures
        digits_value(s.take(i)) <= digits_value(s),
    decreases s.len() - i,
{
    if i < s.len() {
        lemma_digits_value_prefix(s, i + 1);
        assert(s.take(i + 1).drop_last() =~= s.take(i));
    } else {
        assert(s.take(i) =~= s);
    }
}

/// `str::parse::<u64>` on a character vector.
fn parse_u64_chars(v: &Vec<char>) -> (r: Option<u64>)
    ensures
        match parse_u64(v@) {
            Some(n) => r matches Some(x) && x == n,
            None => r is None,
        },
{
    let start: usize = if v.len() > 0 && v[0] == '+' {
        1
    } else {
        0
    };
    let ghost d = v@.skip(start as int);
    assert(d =~= if v@.len() > 0 && v@[0] == '+' {
        v@.drop_first()
    } else {
        v@
    });
    if start == v.len() {
        return None;
    }
    let mut acc: u64 = 0;
    let mut i: usize = start;
    while i < v.len()
        invariant
            start <= i <= v@.len(),
            d == v@.skip(start as int),
            d == (if v@.len() > 0 && v@[0] == '+' {
                v@.drop_first()
            } else {
                v@
            }),
            acc == digits_value(d.take(i - start)),
            all_digits(d.take(i - start)),
        decreases v@.len() - i,
    {
        let c = v[i];
        assert(d[i - start] == c);
        if !('0' <= c && c <= '9') {
            assert(!is_digit(d[i - start]));
            assert(!all_digits(d));
            return None;
        }
        let dv = digit_of(c);
        assert(d.take(i - start + 1).drop_last() =~= d.take(i - start));
        assert(d.take(i - start + 1).last() == c);
        assert(digits_value(d.take(i - start + 1)) == acc * 10 + dv);
        if acc > (u64::MAX - dv) / 10 {
            proof {
                assert(acc * 10 + dv > u64::MAX) by (nonlinear_arith)
                    requires
                        acc > (u64::MAX - dv) / 10,
                        dv <= 9,
                ;
                lemma_digits_value_prefix(d, i - start + 1);
            }
            return None;
        }
        acc = acc * 10 + dv;
        i = i + 1;
        assert(all_digits(d.take(i - start))) by {
            assert forall|k: int| 0 <= k < i - start implies is_digit(#[trigger] d.take(
                i - start,
            )[k]) by {
                if k < i - start - 1 {
                    assert(d.take(i - start)[k] == d.take(i - start - 1)[k]);
                }
            }
        }
    }
    assert(d.take(i - start) =~= d);
    Some(acc)
}

/// `segment_order` on character vectors.
fn segment_order_exec(x: &Vec<char>, y: &Vec<char>) -> (r: i8)
    ensures
        r == segment_order(x@, y@),
{
    let px = parse_u64_chars(x);
    let py = parse_u64_chars(y);
    match (px, py) {
        (Some(a), Some(b)) => {
            if a < b {
                -1
            } else if a == b {
                0
            } else {
                1
            }
        },
        _ => {
            let o = lex_order_chars(x, y);
            if o < 0 {
                -1
            } else if o == 0 {
                0
            } else {
                1
            }
        },
    }
}

/// Component-wise version comparison: numeric segments compared as
/// integers, other segments lexicographically. Negative, zero or positive.
pub fn compare_versions(a: &str, b: &str) -> (r: i8)
    ensures
        r == version_order(a@, b@),
{
    let av = to_chars(a);
    let bv = to_chars(b);
    let sa = split_char_exec(&av, '.');
    let sb = split_char_exec(&bv, '.');
    let ghost ga = split_char(a@, '.');
    let ghost gb = split_char(b@, '.');
    let mut i: usize = 0;
    assert(ga.skip(0) =~= ga);
    assert(gb.skip(0) =~= gb);
    while i < sa.len() && i < sb.len()
        invariant
            ga == split_char(a@, '.'),
            gb == split_char(b@, '.'),
            sa@.len() == ga.len(),
            sb@.len() == gb.len(),
            forall|k: int| 0 <= k < sa@.len() ==> #[trigger] sa@[k]@ == ga[k],
            forall|k: int| 0 <= k < sb@.len() ==> #[trigger] sb@[k]@ == gb[k],
            i <= ga.len(),
            i <= gb.len(),
            segments_order(ga, gb) == segments_order(ga.skip(i as int), gb.skip(i as int)),
        decreases ga.len() - i,
    {
        let o = segment_order_exec(&sa[i], &sb[i]);
        let ghost ra = ga.skip(i as int);
        let ghost rb = gb.skip(i as int);
        assert(ra.len() > 0 && rb.len() > 0);
        assert(sa@[i as int]@ == ga[i as int]);
        assert(sb@[i as int]@ == gb[i as int]);
        assert(ra[0] == ga[i as int]);
        assert(rb[0] == gb[i as int]);
        assert(o == segment_order(ra[0], rb[0]));
        if o != 0 {
            assert(segments_order(ra, rb) == o as int);
            return o;
        }
        assert(ra.drop_first() =~= ga.skip(i + 1));
        assert(rb.drop_first() =~= gb.skip(i + 1));
        i = i + 1;
    }
    let ghost ra = ga.skip(i as int);
    let ghost rb = gb.skip(i as int);
    if i < sa.len() {
        1
    } else if i < sb.len() {
        -1
    } else {
        assert(ra.len() == 0 && rb.len() == 0);
        0
    }
}

/// `compare_versions` as a `std::cmp::Ordering`.
pub fn version_cmp(a: &str, b: &str) -> (r: std::cmp::Ordering)
    ensures
        (r == std::cmp::Ordering::Less) == (version_order(a@, b@) < 0),
        (r == std::cmp::Ordering::Equal) == (version_order(a@, b@) == 0),
        (r == std::cmp::Ordering::Greater) == (version_order(a@, b@) > 0),
{
    let o = compare_versions(a, b);
    if o < 0 {
        std::cmp::Ordering::Less
    } else if o == 0 {
        std::cmp::Ordering::Equal
    } else {
        std::cmp::Ordering::Greater
    }
}


// ---------------------------------------------------------------------------
// Registry lookup
// ---------------------------------------------------------------------------

impl InstalledTemplate {
    /// An installed template found in `<dir_name>/<dir_version>/`: the
    /// manifest's `name` and `version` win over the directory names.
    pub fn from_manifest(
        dir_name: String,
        dir_version: String,
        path: String,
        manifest: TemplateManifest,
    ) -> (t: InstalledTemplate)
        ensures
            t.name@ == (match manifest.name {
                Some(n) => n@,
                None => dir_name@,
            }),
            t.version@ == (match manifest.version {
                Some(v) => v@,
                None => dir_version@,
            }),
            t.path == path,
            t.manifest == manifest,
    {
        let name = match &manifest.name {
            Some(n) => n.clone(),
            None => dir_name,
        };
        let version = match &manifest.version {
            Some(v) => v.clone(),
            None => dir_version,
        };
        InstalledTemplate { name, version, path, manifest }
    }
}

/// The entry at `i` is named `name`.
pub open spec fn named(s: Seq<InstalledTemplate>, i: int, name: Seq<char>) -> bool {
    s[i].name@ == name
}

/// The entry at `i` is `name` at version `v`.
pub open spec fn named_version(s: Seq<InstalledTemplate>, i: int, name: Seq<char>, v: Seq<char>) -> bool {
    s[i].name@ == name && s[i].version@ == v
}

/// The version order is transitive on the entries named `name`.
pub open spec fn versions_transitive(s: Seq<InstalledTemplate>, name: Seq<char>) -> bool {
    forall|i: int, j: int, k: int|
        0 <= i < s.len() && 0 <= j < s.len() && 0 <= k < s.len() && #[trigger] named(s, i, name)
            && #[trigger] named(s, j, name) && #[trigger] named(s, k, name) && version_order(
            s[i].version@,
            s[j].version@,
        ) <= 0 && version_order(s[j].version@, s[k].version@) <= 0 ==> version_order(
            s[i].version@,
            s[k].version@,
        ) <= 0
}

/// Entry `k` is named `name` and no other entry so named has a higher
/// version; every earlier one has a strictly lower version.
pub open spec fn is_first_highest(s: Seq<InstalledTemplate>, k: int, name: Seq<char>) -> bool {
    &&& 0 <= k < s.len()
    &&& named(s, k, name)
    &&& forall|j: int| 0 <= j < s.len() && #[trigger] named(s, j, name) ==> version_order(
        s[j].version@,
        s[k].version@,
    ) <= 0
    &&& forall|j: int| 0 <= j < k && #[trigger] named(s, j, name) ==> version_order(
        s[j].version@,
        s[k].version@,
    ) < 0
}

/// The text naming a missing template: `name` or `name@version`.
pub open spec fn not_found_detail(name: Seq<char>, version: Option<Seq<char>>) -> Seq<char> {
    match version {
        Some(v) => name + "@"@ + v,
        None => name,
    }
}

/// `e` reports that the template `detail` is not installed.
pub open spec fn is_not_found(e: ErrorEnvelope, detail: Seq<char>) -> bool {
    &&& e.is_kind(Kind::UserError)
    &&& e.msg@ == "template not installed: "@ + detail
    &&& e.hint@.len() == 0
    &&& e.hint_args@.len() == 0
    &&& e.details@.dom() == set!["template"@]
    &&& detail_is_text(e.details@["template"@], detail)
}

fn not_found_error(name: &str, version: Option<&str>) -> (e: ErrorEnvelope)
    ensures
        is_not_found(
            e,
            not_found_detail(
                name@,
                match version {
                    Some(v) => Some(v@),
                    None => None,
                },
            ),
        ),
{
    let detail = match version {
        Some(v) => {
            let with_at = concat2(name, "@");
            concat2(with_at.as_str(), v)
        },
        None => owned(name),
    };
    let msg = concat2("template not installed: ", detail.as_str());
    let mut details: StrMap<Detail> = StrMap::new();
    details.insert(owned("template"), Detail::Text(detail));
    assert(details@.dom() =~= set!["template"@]);
    ErrorEnvelope {
        kind: Kind::UserError,
        msg,
        exit_code: Kind::UserError.exit_code(),
        hint: String::new(),
        hint_args: Vec::new(),
        details,
    }
}

/// Index of the first entry that is `name` at version `v`.
fn first_exact_index(s: &Vec<InstalledTemplate>, name: &str, v: &str) -> (r: Option<usize>)
    ensures
        match r {
            Some(k) => k < s@.len() && named_version(s@, k as int, name@, v@) && forall|j: int|
                0 <= j < k ==> !#[trigger] named_version(s@, j, name@, v@),
            None => forall|j: int| 0 <= j < s@.len() ==> !#[trigger] named_version(s@, j, name@, v@),
        },
{
    let mut i: usize = 0;
    while i < s.len()
        invariant
            i <= s@.len(),
            forall|j: int| 0 <= j < i ==> !#[trigger] named_version(s@, j, name@, v@),
        decreases s@.len() - i,
    {
        if str_eq(s[i].name.as_str(), name) && str_eq(s[i].version.as_str(), v) {
            return Some(i);
        }
        i = i + 1;
    }
    None
}

/// Index of the first entry named `name` with the highest version.
fn highest_index(s: &Vec<InstalledTemplate>, name: &str) -> (r: Option<usize>)
    ensures
        match r {
            Some(k) => k < s@.len() && named(s@, k as int, name@) && (versions_transitive(
                s@,
                name@,
            ) ==> is_first_highest(s@, k as int, name@)),
            None => forall|j: int| 0 <= j < s@.len() ==> !#[trigger] named(s@, j, name@),
        },
{
    let mut best: Option<usize> = None;
    let mut i: usize = 0;
    while i < s.len()
        invariant
            i <= s@.len(),
            match best {
                Some(b) => b < i && named(s@, b as int, name@) && (versions_transitive(s@, name@)
                    ==> (forall|j: int| 0 <= j < i && #[trigger] named(s@, j, name@) ==> version_order(
                    s@[j].version@,
                    s@[b as int].version@,
                ) <= 0) && (forall|j: int| 0 <= j < b && #[trigger] named(s@, j, name@) ==> version_order(
                    s@[j].version@,
                    s@[b as int].version@,
                ) < 0)),
                None => forall|j: int| 0 <= j < i ==> !#[trigger] named(s@, j, name@),
            },
        decreases s@.len() - i,
    {
        if str_eq(s[i].name.as_str(), name) {
            match best {
                None => {
                    best = Some(i);
                    proof {
                        assert forall|j: int| 0 <= j < i + 1 && #[trigger] named(s@, j, name@) implies version_order(
                            s@[j].version@,
                            s@[i as int].version@,
                        ) <= 0 by {
                            lemma_version_order_reflexive(s@[i as int].version@);
                        }
                    }
                },
                Some(b) => {
                    let o = compare_versions(s[i].version.as_str(), s[b].version.as_str());
                    if o > 0 {
                        best = Some(i);
                        proof {
                            lemma_version_order_antisymmetric(
                                s@[i as int].version@,
                                s@[b as int].version@,
                            );
                            lemma_version_order_reflexive(s@[i as int].version@);
                            if versions_transitive(s@, name@) {
                                assert forall|j: int| 0 <= j < i + 1 && #[trigger] named(s@, j, name@) implies version_order(
                                    s@[j].version@,
                                    s@[i as int].version@,
                                ) <= 0 by {
                                    if j < i {
                                        lemma_version_order_antisymmetric(
                                            s@[j].version@,
                                            s@[i as int].version@,
                                        );
                                        assert(named(s@, b as int, name@));
                                        assert(named(s@, i as int, name@));
                                    }
                                }
                                assert forall|j: int| 0 <= j < i && #[trigger] named(s@, j, name@) implies version_order(
                                    s@[j].version@,
                                    s@[i as int].version@,
                                ) < 0 by {
                                    lemma_version_order_antisymmetric(
                                        s@[j].version@,
                                        s@[i as int].version@,
                                    );
                                    assert(named(s@, b as int, name@));
                                    assert(named(s@, i as int, name@));
                                    if version_order(s@[j].version@, s@[i as int].version@) == 0 {
                                        assert(version_order(s@[i as int].version@, s@[j].version@) <= 0);
                                        assert(version_order(s@[i as int].version@, s@[b as int].version@) <= 0);
                                    }
                                }
                            }
                        }
                    }
                },
            }
        }
        i = i + 1;
    }
    best
}

/// Locates an installed template by name (and optional version) in the
/// registry listing `installed`.
///
/// With a version, the first entry of that name and version; without, the
/// first entry of that name with the highest version (numeric segments
/// compared as integers, others lexicographically).
pub fn find_template_in(installed: Vec<InstalledTemplate>, name: &str, version: Option<&str>) -> (r:
    Result<InstalledTemplate, ErrorEnvelope>)
    ensures
        match version {
            Some(v) => match r {
                Ok(t) => exists|k: int|
                    0 <= k < installed@.len() && installed@[k] == t && named_version(
                        installed@,
                        k,
                        name@,
                        v@,
                    ) && forall|j: int| 0 <= j < k ==> !#[trigger] named_version(installed@, j, name@, v@),
                Err(e) => (forall|j: int|
                    0 <= j < installed@.len() ==> !#[trigger] named_version(installed@, j, name@, v@))
                    && is_not_found(e, not_found_detail(name@, Some(v@))),
            },
            None => match r {
                Ok(t) => exists|k: int|
                    0 <= k < installed@.len() && installed@[k] == t && named(installed@, k, name@) && (
                    versions_transitive(installed@, name@) ==> is_first_highest(installed@, k, name@)),
                Err(e) => (forall|j: int| 0 <= j < installed@.len() ==> !#[trigger] named(installed@, j, name@))
                    && is_not_found(e, not_found_detail(name@, None)),
            },
        },
{
    let ghost s = installed@;
    let mut installed = installed;
    match version {
        Some(v) => match first_exact_index(&installed, name, v) {
            Some(k) => {
                let t = installed.remove(k);
                Ok(t)
            },
            None => Err(not_found_error(name, Some(v))),
        },
        None => match highest_index(&installed, name) {
            Some(k) => {
                let t = installed.remove(k);
                Ok(t)
            },
            None => Err(not_found_error(name, None)),
        },
    }
}

/// `find_template_in` over the registry listing, where `None` means the
/// registry root (the home directory) could not be resolved.
pub fn find_template(installed: Option<Vec<InstalledTemplate>>, name: &str, version: Option<&str>) -> (r:
    Result<InstalledTemplate, ErrorEnvelope>)
    ensures
        installed is None ==> (r matches Err(e) && e.is_kind(Kind::ConfigError) && e.msg@
            == "cannot resolve ~/.crud/templates (home directory unavailable)"@ && e.details@.dom().len() == 0),
        installed matches Some(list) ==> (r matches Ok(t) <==> (match version {
            Some(v) => exists|k: int| 0 <= k < list@.len() && #[trigger] named_version(list@, k, name@, v@),
            None => exists|k: int| 0 <= k < list@.len() && #[trigger] named(list@, k, name@),
        })),
{
    match installed {
        None => {
            let e = ErrorEnvelope {
                kind: Kind::ConfigError,
                msg: owned("cannot resolve ~/.crud/templates (home directory unavailable)"),
                exit_code: Kind::ConfigError.exit_code(),
                hint: String::new(),
                hint_args: Vec::new(),
                details: StrMap::new(),
            };
            Err(e)
        },
        Some(list) => find_template_in(list, name, version),
    }
}


// ---------------------------------------------------------------------------
// Registry listing order
// ---------------------------------------------------------------------------

broadcast use vstd::seq_lib::group_to_multiset_ensures;

/// `a` is listed before `b`: by name, then from the higher version down.
pub open spec fn listed_before(a: InstalledTemplate, b: InstalledTemplate) -> bool {
    lex_lt(a.name@, b.name@) || (a.name@ == b.name@ && version_order(a.version@, b.version@) > 0)
}

/// No entry of the listing belongs before the one ahead of it.
pub open spec fn listing_ordered(s: Seq<InstalledTemplate>) -> bool {
    forall|i: int| 1 <= i < s.len() ==> !listed_before(#[trigger] s[i], s[i - 1])
}

proof fn lemma_listed_before_asym(a: InstalledTemplate, b: InstalledTemplate)
    ensures
        listed_before(a, b) ==> !listed_before(b, a),
{
    lemma_lex_asym(a.name@, b.name@);
    lemma_lex_irrefl(a.name@);
    lemma_version_order_antisymmetric(a.version@, b.version@);
}

fn listed_before_exec(a: &InstalledTemplate, b: &InstalledTemplate) -> (r: bool)
    ensures
        r == listed_before(*a, *b),
{
    let o = lex_order(a.name.as_str(), b.name.as_str());
    if o < 0 {
        true
    } else if o > 0 {
        proof {
            lemma_lex_asym(b.name@, a.name@);
        }
        false
    } else {
        compare_versions(a.version.as_str(), b.version.as_str()) > 0
    }
}

/// Orders the installed templates found in the registry by name, then from
/// the highest version down; entries that tie keep their order.
pub fn list_installed_in(found: Vec<InstalledTemplate>) -> (r: Vec<InstalledTemplate>)
    ensures
        r@.to_multiset() == found@.to_multiset(),
        listing_ordered(r@),
{
    let mut out: Vec<InstalledTemplate> = Vec::new();
    let mut rest = found;
    let ghost orig = rest@;
    proof {
        assert(orig.to_multiset() =~= rest@.to_multiset().add(out@.to_multiset()));
    }
    while rest.len() > 0
        invariant
            orig.to_multiset() == rest@.to_multiset().add(out@.to_multiset()),
            listing_ordered(out@),
        decreases rest@.len(),
    {
        let x = rest.remove(0);
        let mut p: usize = 0;
        while p < out.len() && !listed_before_exec(&x, &out[p])
            invariant
                p <= out@.len(),
                forall|k: int| 0 <= k < p ==> !listed_before(x, #[trigger] out@[k]),
            decreases out@.len() - p,
        {
            p = p + 1;
        }
        let ghost before = out@;
        proof {
            if p < out@.len() {
                lemma_listed_before_asym(x, out@[p as int]);
            }
        }
        out.insert(p, x);
        proof {
            assert(out@ == before.insert(p as int, x));
            assert forall|i: int| 1 <= i < out@.len() implies !listed_before(
                #[trigger] out@[i],
                out@[i - 1],
            ) by {
                if i < p {
                    assert(out@[i] == before[i]);
                    assert(out@[i - 1] == before[i - 1]);
                } else if i == p {
                    assert(out@[i - 1] == before[i - 1]);
                } else if i == p + 1 {
                    assert(out@[i] == before[p as int]);
                } else {
                    assert(out@[i - 1] == before[i - 2]);
                    assert(out@[i] == before[i - 1]);
                }
            }
        }
    }
    proof {
        assert(rest@.to_multiset() =~= vstd::multiset::Multiset::empty());
        assert(orig.to_multiset() =~= out@.to_multiset());
    }
    out
}


/// Two version segments that do not both parse as integers compare as
/// text, in `String` order.
pub proof fn lemma_text_segments_in_string_order(x: Seq<char>, y: Seq<char>)
    requires
        parse_u64(x) is None || parse_u64(y) is None,
    ensures
        segment_order(x, y) < 0 <==> lex_lt(x, y),
        segment_order(x, y) > 0 <==> lex_lt(y, x),
        segment_order(x, y) == 0 <==> x == y,
{
    lemma_lex_irrefl(x);
    lemma_lex_asym(x, y);
    lemma_lex_total(x, y);
}

/// Two version segments that both parse as integers compare by value.
pub proof fn lemma_numeric_segments_by_value(x: Seq<char>, y: Seq<char>)
    requires
        parse_u64(x) is Some,
        parse_u64(y) is Some,
    ensures
        segment_order(x, y) < 0 <==> parse_u64(x)->0 < parse_u64(y)->0,
        segment_order(x, y) == 0 <==> parse_u64(x)->0 == parse_u64(y)->0,
{
}

/// Versions whose first segments differ, one of them not a number, are
/// ordered by those segments as text (`v1.2.0` before `v2.0.0`).
pub proof fn lemma_version_first_text_segment(a: Seq<char>, b: Seq<char>)
    requires
        split_char(a, '.').len() > 0,
        split_char(b, '.').len() > 0,
        split_char(a, '.')[0] != split_char(b, '.')[0],
        parse_u64(split_char(a, '.')[0]) is None || parse_u64(split_char(b, '.')[0]) is None,
    ensures
        version_order(a, b) < 0 <==> lex_lt(split_char(a, '.')[0], split_char(b, '.')[0]),
        version_order(a, b) > 0 <==> lex_lt(split_char(b, '.')[0], split_char(a, '.')[0]),
{
    lemma_text_segments_in_string_order(split_char(a, '.')[0], split_char(b, '.')[0]);
}

} // verus!
