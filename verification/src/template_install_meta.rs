//! The `.install.json` record kept inside each installed `<version>/`
//! directory: the content hash of the template tree at install time, where
//! it came from, and which shared bundles were layered on top.

use vstd::prelude::*;

use crate::text::{owned, str_eq, string_views, split_char, split_char_exec, to_chars};
use crate::field_types::dup_strings;
use crate::sorting::{path_sorted, sort_by_path};
use vstd::string::StrSliceExecFns;
use vstd::utf8::encode_utf8;

verus! {

/// File name of the record under `<name>/<version>/`.
pub const INSTALL_META_FILENAME: &'static str = ".install.json";

/// Persisted install metadata.
#[derive(Debug, Clone)]
pub struct InstallMeta {
    /// SHA-256 (hex) of the template tree at install time.
    pub source_hash: String,
    /// `owner/repo` the template was installed from.
    pub repo: String,
    /// Git ref the snapshot was downloaded at.
    pub repo_ref: String,
    /// RFC-3339 UTC timestamp of the install.
    pub installed_at: String,
    /// Doc category layered at install time (at most one).
    pub doc_categories: Vec<String>,
    /// DDL category layered at install time.
    pub ddl_categories: Vec<String>,
    /// SQL category layered at install time.
    pub sql_categories: Vec<String>,
}

/// The plain values of an install record.
pub struct InstallMetaView {
    pub source_hash: Seq<char>,
    pub repo: Seq<char>,
    pub repo_ref: Seq<char>,
    pub installed_at: Seq<char>,
    pub doc_categories: Seq<Seq<char>>,
    pub ddl_categories: Seq<Seq<char>>,
    pub sql_categories: Seq<Seq<char>>,
}

impl View for InstallMeta {
    type V = InstallMetaView;

    open spec fn view(&self) -> InstallMetaView {
        InstallMetaView {
            source_hash: self.source_hash@,
            repo: self.repo@,
            repo_ref: self.repo_ref@,
            installed_at: self.installed_at@,
            doc_categories: string_views(self.doc_categories@),
            ddl_categories: string_views(self.ddl_categories@),
            sql_categories: string_views(self.sql_categories@),
        }
    }
}

/// The record after layering `categories` of bundle `kind`: `sql` and `ddl`
/// fill their own lists, any other kind the doc list.
pub open spec fn with_bundle_categories(
    m: InstallMetaView,
    kind: Seq<char>,
    categories: Seq<Seq<char>>,
) -> InstallMetaView {
    if kind == "sql"@ {
        InstallMetaView { sql_categories: categories, ..m }
    } else if kind == "ddl"@ {
        InstallMetaView { ddl_categories: categories, ..m }
    } else {
        InstallMetaView { doc_categories: categories, ..m }
    }
}

/// Records the categories of bundle `kind` layered onto an installed
/// template. `None` when the template has no install record yet (the record
/// is only updated, never created, here).
pub fn record_bundle_categories(
    meta: Option<InstallMeta>,
    kind: &str,
    categories: &Vec<String>,
) -> (r: Option<InstallMeta>)
    ensures
        meta is None <==> r is None,
        meta matches Some(m) ==> (r matches Some(n) && n@ == with_bundle_categories(
            m@,
            kind@,
            string_views(categories@),
        )),
{
    match meta {
        None => None,
        Some(mut m) => {
            if str_eq(kind, "sql") {
                m.sql_categories = dup_strings(categories);
            } else if str_eq(kind, "ddl") {
                m.ddl_categories = dup_strings(categories);
            } else {
                m.doc_categories = dup_strings(categories);
            }
            Some(m)
        },
    }
}

// ---------------------------------------------------------------------------
// Content hash
// ---------------------------------------------------------------------------

/// `Sha256::digest` of a byte string.
pub uninterp spec fn sha256(data: Seq<u8>) -> Seq<u8>;

/// `sha2::Sha256::digest`: the SHA-256 digest of `data`, 32 bytes long.
#[verifier::external_body]
fn sha256_digest(data: &Vec<u8>) -> (r: Vec<u8>)
    ensures
        r@ == sha256(data@),
        r@.len() == 32,
{
    <sha2::Sha256 as sha2::Digest>::digest(data.as_slice()).to_vec()
}

/// Top-level directories of shared bundles, layered after install.
pub open spec fn is_shared_bundle_dir(name: Seq<char>) -> bool {
    name == "doc"@ || name == "ddl"@ || name == "sql"@
}

/// Files that do not count toward the template hash: the install record
/// (or anything under a directory so named) at any depth, and everything
/// under a top-level shared-bundle directory.
pub open spec fn hash_excluded(rel: Seq<char>) -> bool {
    let comps = split_char(rel, '/');
    comps.contains(INSTALL_META_FILENAME@) || (comps.len() > 1 && is_shared_bundle_dir(comps[0]))
}

/// The files that count toward the hash, in their given order.
pub open spec fn hash_kept(files: Seq<(String, Vec<u8>)>) -> Seq<(String, Vec<u8>)>
    decreases files.len(),
{
    if files.len() == 0 {
        files
    } else {
        let rest = hash_kept(files.drop_last());
        if hash_excluded(files.last().0@) {
            rest
        } else {
            rest.push(files.last())
        }
    }
}

/// The `k` low bytes of `n`, least significant first.
pub open spec fn le_bytes(n: nat, k: nat) -> Seq<u8>
    decreases k,
{
    if k == 0 {
        Seq::<u8>::empty()
    } else {
        seq![(n % 256) as u8] + le_bytes(n / 256, (k - 1) as nat)
    }
}

/// One file's contribution to the hashed stream:
/// `len(rel) | rel | 0 | len(body) | body | 0`, lengths as 8 bytes
/// little-endian, the path in UTF-8.
pub open spec fn file_frame(rel: Seq<char>, body: Seq<u8>) -> Seq<u8> {
    let rb = encode_utf8(rel);
    le_bytes(rb.len(), 8) + rb + seq![0u8] + le_bytes(body.len(), 8) + body + seq![0u8]
}

/// The hashed stream of a list of files, in order.
pub open spec fn frames(files: Seq<(String, Vec<u8>)>) -> Seq<u8>
    decreases files.len(),
{
    if files.len() == 0 {
        Seq::<u8>::empty()
    } else {
        frames(files.drop_last()) + file_frame(files.last().0@, files.last().1@)
    }
}

/// The stream hashed for a template tree: the counted files ordered by
/// relative path.
pub open spec fn hash_input(files: Seq<(String, Vec<u8>)>) -> Seq<u8> {
    frames(path_sorted(hash_kept(files)))
}

/// The lowercase hexadecimal digit of `n < 16`.
pub open spec fn hex_digit(n: u8) -> char {
    if n < 10 {
        (('0' as u8) + n) as char
    } else {
        (('a' as u8) + (n - 10)) as char
    }
}

/// Lowercase hexadecimal text of a byte string, two digits per byte.
pub open spec fn hex_text(bytes: Seq<u8>) -> Seq<char>
    decreases bytes.len(),
{
    if bytes.len() == 0 {
        Seq::<char>::empty()
    } else {
        hex_text(bytes.drop_last()) + seq![hex_digit(bytes.last() / 16), hex_digit(bytes.last() % 16)]
    }
}

fn hex_digit_exec(n: u8) -> (c: char)
    requires
        n < 16,
    ensures
        c == hex_digit(n),
{
    if n < 10 {
        ((48u8 + n) as char)
    } else {
        ((97u8 + (n - 10)) as char)
    }
}

/// Lowercase hexadecimal text of `bytes`.
pub fn hex(bytes: &Vec<u8>) -> (s: String)
    ensures
        s@ == hex_text(bytes@),
        s@.len() == 2 * bytes@.len(),
{
    let mut s = String::new();
    let mut i: usize = 0;
    while i < bytes.len()
        invariant
            i <= bytes@.len(),
            s@ == hex_text(bytes@.take(i as int)),
            s@.len() == 2 * i,
        decreases bytes@.len() - i,
    {
        let b = bytes[i];
        s.push(hex_digit_exec(b / 16));
        s.push(hex_digit_exec(b % 16));
        proof {
            assert(bytes@.take(i + 1).drop_last() =~= bytes@.take(i as int));
            assert(bytes@.take(i + 1).last() == b);
        }
        i = i + 1;
    }
    assert(bytes@.take(i as int) =~= bytes@);
    s
}

/// The 8 little-endian bytes of `n`.
fn le_bytes_exec(n: u64) -> (v: Vec<u8>)
    ensures
        v@ == le_bytes(n as nat, 8),
{
    let mut v: Vec<u8> = Vec::new();
    let mut x: u64 = n;
    let mut i: u64 = 0;
    assert(v@ + le_bytes(x as nat, 8) =~= le_bytes(n as nat, 8));
    while i < 8
        invariant
            i <= 8,
            v@ + le_bytes(x as nat, (8 - i) as nat) == le_bytes(n as nat, 8),
        decreases 8 - i,
    {
        let ghost before = v@;
        let ghost m = (8 - i) as nat;
        v.push((x % 256) as u8);
        proof {
            assert(le_bytes(x as nat, m) == seq![(x % 256) as u8] + le_bytes((x / 256) as nat, (m - 1) as nat));
            assert(v@ + le_bytes((x / 256) as nat, (m - 1) as nat) =~= before + le_bytes(x as nat, m));
        }
        x = x / 256;
        i = i + 1;
    }
    assert(v@ + le_bytes(x as nat, 0) =~= v@);
    v
}

/// Whether a file counts toward the template hash.
pub fn hash_excluded_exec(rel: &str) -> (b: bool)
    ensures
        b == hash_excluded(rel@),
{
    let v = to_chars(rel);
    let comps = split_char_exec(&v, '/');
    let ghost cs = split_char(rel@, '/');
    assert(comps@.map_values(|c: Vec<char>| c@) =~= cs);
    proof {
        reveal_strlit(".install.json");
        reveal_strlit("doc");
        reveal_strlit("ddl");
        reveal_strlit("sql");
    }
    let mut i: usize = 0;
    while i < comps.len()
        invariant
            i <= comps@.len(),
            cs == comps@.map_values(|c: Vec<char>| c@),
            cs == split_char(rel@, '/'),
            forall|k: int| 0 <= k < i ==> cs[k] != INSTALL_META_FILENAME@,
        decreases comps@.len() - i,
    {
        let c = &comps[i];
        assert(cs[i as int] == c@);
        if chars_are(c, INSTALL_META_FILENAME) {
            assert(cs.contains(INSTALL_META_FILENAME@));
            return true;
        }
        i = i + 1;
    }
    assert(!cs.contains(INSTALL_META_FILENAME@));
    if comps.len() > 1 {
        let first = &comps[0];
        assert(cs[0] == first@);
        chars_are(first, "doc") || chars_are(first, "ddl") || chars_are(first, "sql")
    } else {
        false
    }
}

fn chars_are(c: &Vec<char>, s: &str) -> (b: bool)
    ensures
        b == (c@ == s@),
{
    let r = crate::text::range_eq(c, 0, c.len(), s);
    assert(c@.subrange(0, c@.len() as int) =~= c@);
    r
}

/// The files that count toward the hash, in order.
fn keep_hashed(files: Vec<(String, Vec<u8>)>) -> (r: Vec<(String, Vec<u8>)>)
    ensures
        r@ == hash_kept(files@),
{
    let ghost orig = files@;
    let mut rest = files;
    let mut out: Vec<(String, Vec<u8>)> = Vec::new();
    assert(orig.take(0) =~= Seq::<(String, Vec<u8>)>::empty());
    assert(orig.skip(0) =~= orig);
    while rest.len() > 0
        invariant
            rest@.len() <= orig.len(),
            rest@ == orig.skip(orig.len() - rest@.len()),
            out@ == hash_kept(orig.take(orig.len() - rest@.len())),
        decreases rest@.len(),
    {
        let ghost k = orig.len() - rest@.len();
        let e = rest.remove(0);
        proof {
            assert(e == orig[k]);
            assert(rest@ =~= orig.skip(k + 1));
            assert(orig.take(k + 1).drop_last() =~= orig.take(k));
            assert(orig.take(k + 1).last() == orig[k]);
        }
        if !hash_excluded_exec(e.0.as_str()) {
            out.push(e);
        }
    }
    assert(orig.take(orig.len() as int) =~= orig);
    out
}

/// The hashed stream of `files`, in order.
fn frame_all(files: &Vec<(String, Vec<u8>)>) -> (r: Vec<u8>)
    ensures
        r@ == frames(files@),
{
    let mut out: Vec<u8> = Vec::new();
    let mut i: usize = 0;
    while i < files.len()
        invariant
            i <= files@.len(),
            out@ == frames(files@.take(i as int)),
        decreases files@.len() - i,
    {
        let rel = files[i].0.as_str().as_bytes_vec();
        let body = &files[i].1;
        let ghost before = out@;
        let mut lr = le_bytes_exec(rel.len() as u64);
        out.append(&mut lr);
        let mut rc = rel.clone();
        out.append(&mut rc);
        out.push(0u8);
        let mut lb = le_bytes_exec(body.len() as u64);
        out.append(&mut lb);
        let mut bc = body.clone();
        out.append(&mut bc);
        out.push(0u8);
        proof {
            assert(files@.take(i + 1).drop_last() =~= files@.take(i as int));
            assert(files@.take(i + 1).last() == files@[i as int]);
            assert(out@ =~= before + file_frame(files@[i as int].0@, files@[i as int].1@));
        }
        i = i + 1;
    }
    assert(files@.take(i as int) =~= files@);
    out
}

/// The content hash of a template tree from its files (relative path and
/// bytes of each): SHA-256, as lowercase hex, of the counted files ordered
/// by path, each framed by its lengths.
pub fn tree_hash(files: Vec<(String, Vec<u8>)>) -> (r: String)
    ensures
        r@ == hex_text(sha256(hash_input(files@))),
        r@.len() == 64,
{
    let kept = keep_hashed(files);
    let sorted = sort_by_path(kept);
    let stream = frame_all(&sorted);
    let digest = sha256_digest(&stream);
    hex(&digest)
}

proof fn lemma_hash_kept_insert_excluded(files: Seq<(String, Vec<u8>)>, i: int, x: (String, Vec<u8>))
    requires
        0 <= i <= files.len(),
        hash_excluded(x.0@),
    ensures
        hash_kept(files.insert(i, x)) == hash_kept(files),
    decreases files.len(),
{
    let f2 = files.insert(i, x);
    if i == files.len() {
        assert(f2.drop_last() =~= files);
    } else {
        assert(f2.drop_last() =~= files.drop_last().insert(i, x));
        assert(f2.last() == files.last());
        lemma_hash_kept_insert_excluded(files.drop_last(), i, x);
    }
}

/// Adding the install record, or any file under a top-level shared-bundle
/// directory, anywhere in a template tree leaves its hashed stream (and so
/// its hash) unchanged.
pub proof fn lemma_excluded_file_keeps_hash(files: Seq<(String, Vec<u8>)>, i: int, x: (String, Vec<u8>))
    requires
        0 <= i <= files.len(),
        hash_excluded(x.0@),
    ensures
        hash_input(files.insert(i, x)) == hash_input(files),
        hex_text(sha256(hash_input(files.insert(i, x)))) == hex_text(sha256(hash_input(files))),
{
    lemma_hash_kept_insert_excluded(files, i, x);
}

} // verus!
