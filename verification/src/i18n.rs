//! UI languages, message-catalog lookup and `{name}` placeholder
//! interpolation.
//!
//! A catalog maps dotted message keys to text. Lookups fall back from the
//! active language to English, then to the key itself.

use vstd::prelude::*;

use crate::strmap::{StrMap, lemma_text_view_insert, text_view};
use crate::text::{owned, range_eq, to_chars, trim, trimmed};

verus! {

/// Supported UI languages.
#[derive(Debug, Clone, Copy, PartialEq, Eq, Structural)]
pub enum Lang {
    En,
    Zh,
}

/// ASCII lowercase of one character (`char::to_ascii_lowercase`).
pub open spec fn ascii_lower(c: char) -> char {
    if 'A' <= c <= 'Z' {
        ((c as u32) + 32) as char
    } else {
        c
    }
}

/// ASCII lowercase of a character sequence.
pub open spec fn ascii_lower_seq(s: Seq<char>) -> Seq<char> {
    s.map_values(|c: char| ascii_lower(c))
}

/// The language a user/config/env string names, if any.
pub open spec fn spec_lang_parse(s: Seq<char>) -> Option<Lang> {
    let l = ascii_lower_seq(trim(s));
    if l == "en"@ || l == "en-us"@ || l == "en_us"@ || l == "english"@ {
        Some(Lang::En)
    } else if l == "zh"@ || l == "zh-cn"@ || l == "zh_cn"@ || l == "zh-hans"@ || l == "chinese"@ {
        Some(Lang::Zh)
    } else if trim(s) == "中文"@ || trim(s) == "简体中文"@ {
        Some(Lang::Zh)
    } else {
        None
    }
}

fn lower_char(c: char) -> (r: char)
    ensures
        r == ascii_lower(c),
{
    if 'A' <= c && c <= 'Z' {
        let b = (c as u8) + 32;
        b as char
    } else {
        c
    }
}

fn lower_all(v: &Vec<char>) -> (r: Vec<char>)
    ensures
        r@ == ascii_lower_seq(v@),
{
    let mut r: Vec<char> = Vec::new();
    let mut i: usize = 0;
    while i < v.len()
        invariant
            i <= v@.len(),
            r@ == ascii_lower_seq(v@.take(i as int)),
        decreases v@.len() - i,
    {
        r.push(lower_char(v[i]));
        i = i + 1;
        assert(r@ =~= ascii_lower_seq(v@.take(i as int)));
    }
    assert(v@.take(i as int) =~= v@);
    r
}

fn vec_is(v: &Vec<char>, s: &str) -> (r: bool)
    ensures
        r == (v@ == s@),
{
    let r = range_eq(v, 0, v.len(), s);
    assert(v@.subrange(0, v@.len() as int) =~= v@);
    r
}

impl Lang {
    /// Short code persisted to config (`en` / `zh`).
    pub fn code(self) -> (c: &'static str)
        ensures
            c@ == lang_code(self),
    {
        match self {
            Lang::En => "en",
            Lang::Zh => "zh",
        }
    }

    /// Parses a user/config/env string; `None` when unrecognized.
    pub fn parse(s: &str) -> (r: Option<Lang>)
        ensures
            r == spec_lang_parse(s@),
    {
        let t = trimmed(s);
        let l = lower_all(&t);
        if vec_is(&l, "en") || vec_is(&l, "en-us") || vec_is(&l, "en_us") || vec_is(&l, "english") {
            Some(Lang::En)
        } else if vec_is(&l, "zh") || vec_is(&l, "zh-cn") || vec_is(&l, "zh_cn") || vec_is(
            &l,
            "zh-hans",
        ) || vec_is(&l, "chinese") {
            Some(Lang::Zh)
        } else if vec_is(&t, "中文") || vec_is(&t, "简体中文") {
            Some(Lang::Zh)
        } else {
            None
        }
    }
}

/// The persisted code of each language.
pub open spec fn lang_code(l: Lang) -> Seq<char> {
    match l {
        Lang::En => "en"@,
        Lang::Zh => "zh"@,
    }
}

/// A message catalog: dotted key to message text.
pub type Catalog = StrMap<String>;

/// A catalog message to render: its key and `{name}` arguments.
pub struct CatalogMessage {
    pub key: String,
    pub args: Vec<(String, String)>,
}

/// A message as plain values: key and `(name, value)` arguments.
pub type MessageView = (Seq<char>, Seq<(Seq<char>, Seq<char>)>);

/// The plain values of message arguments.
pub open spec fn arg_views(args: Seq<(String, String)>) -> Seq<(Seq<char>, Seq<char>)> {
    args.map_values(|p: (String, String)| (p.0@, p.1@))
}

impl View for CatalogMessage {
    type V = MessageView;

    open spec fn view(&self) -> MessageView {
        (self.key@, arg_views(self.args@))
    }
}

/// The plain values of a list of messages.
pub open spec fn message_views(ms: Seq<CatalogMessage>) -> Seq<MessageView> {
    ms.map_values(|m: CatalogMessage| m@)
}

/// Text for `key`: active catalog, then English, then the key itself.
pub open spec fn spec_lookup(
    active: Map<Seq<char>, String>,
    english: Map<Seq<char>, String>,
    key: Seq<char>,
) -> Seq<char> {
    if active.contains_key(key) {
        active[key]@
    } else if english.contains_key(key) {
        english[key]@
    } else {
        key
    }
}

/// Looks up `key` in the active catalog, falling back to English, then to
/// the key itself.
pub fn t(active: &Catalog, english: &Catalog, key: &str) -> (r: String)
    ensures
        r@ == spec_lookup(active@, english@, key@),
{
    match active.get(key) {
        Some(s) => s.clone(),
        None => match english.get(key) {
            Some(s) => s.clone(),
            None => owned(key),
        },
    }
}

/// `s` with every non-overlapping occurrence of `p` (leftmost first)
/// replaced by `r` (`str::replace`, for a non-empty pattern).
pub open spec fn replace_all(s: Seq<char>, p: Seq<char>, r: Seq<char>) -> Seq<char>
    decreases s.len(),
{
    if p.len() == 0 || s.len() < p.len() {
        s
    } else if s.take(p.len() as int) == p {
        r + replace_all(s.skip(p.len() as int), p, r)
    } else {
        seq![s[0]] + replace_all(s.drop_first(), p, r)
    }
}

/// The `{name}` placeholder for an argument name.
pub open spec fn placeholder(name: Seq<char>) -> Seq<char> {
    seq!['{'] + name + seq!['}']
}

/// Applies each `(name, value)` in order: `{name}` becomes `value`.
pub open spec fn interpolate(s: Seq<char>, args: Seq<(String, String)>) -> Seq<char>
    decreases args.len(),
{
    if args.len() == 0 {
        s
    } else {
        interpolate(
            replace_all(s, placeholder(args[0].0@), args[0].1@),
            args.drop_first(),
        )
    }
}

/// `s` with every `p` replaced by `r` (`str::replace`).
pub fn replace_str(s: &Vec<char>, p: &Vec<char>, r: &Vec<char>) -> (out: Vec<char>)
    requires
        p@.len() > 0,
    ensures
        out@ == replace_all(s@, p@, r@),
{
    let mut out: Vec<char> = Vec::new();
    let mut i: usize = 0;
    let n = p.len();
    assert(s@.skip(0) =~= s@);
    assert(out@ + s@ =~= s@);
    while i < s.len()
        invariant
            p@.len() == n,
            n > 0,
            i <= s@.len(),
            replace_all(s@, p@, r@) == out@ + replace_all(s@.skip(i as int), p@, r@),
        decreases s@.len() - i,
    {
        let ghost rest = s@.skip(i as int);
        if n <= s.len() - i && seq_matches(s, i, p) {
            assert(rest.take(n as int) =~= s@.subrange(i as int, i + n));
            assert(rest.skip(n as int) =~= s@.skip(i + n));
            let mut k: usize = 0;
            let ghost before = out@;
            while k < r.len()
                invariant
                    k <= r@.len(),
                    out@ == before + r@.take(k as int),
                decreases r@.len() - k,
            {
                out.push(r[k]);
                k = k + 1;
                assert(out@ =~= before + r@.take(k as int));
            }
            assert(r@.take(k as int) =~= r@);
            assert(out@ == before + r@);
            i = i + n;
            assert(replace_all(s@, p@, r@) == out@ + replace_all(s@.skip(i as int), p@, r@)) by {
                assert(before + (r@ + replace_all(s@.skip(i as int), p@, r@)) =~= (before + r@)
                    + replace_all(s@.skip(i as int), p@, r@));
            }
        } else {
            if n <= s.len() - i {
                assert(rest.take(n as int) =~= s@.subrange(i as int, i + n));
            }
            assert(rest.drop_first() =~= s@.skip(i + 1));
            let ghost before = out@;
            out.push(s[i]);
            i = i + 1;
            assert(replace_all(s@, p@, r@) == out@ + replace_all(s@.skip(i as int), p@, r@)) by {
                assert(before + (seq![s@[i - 1]] + replace_all(s@.skip(i as int), p@, r@))
                    =~= before.push(s@[i - 1]) + replace_all(s@.skip(i as int), p@, r@));
            }
        }
    }
    assert(s@.skip(i as int) =~= Seq::<char>::empty());
    assert(out@ + Seq::<char>::empty() =~= out@);
    out
}

/// Whether `p` occurs in `s` at position `i`.
fn seq_matches(s: &Vec<char>, i: usize, p: &Vec<char>) -> (b: bool)
    requires
        i + p@.len() <= s@.len(),
    ensures
        b == (s@.subrange(i as int, i + p@.len()) == p@),
{
    let mut k: usize = 0;
    let sl = s.len();
    while k < p.len()
        invariant
            sl == s@.len(),
            i + p@.len() <= s@.len(),
            k <= p@.len(),
            forall|j: int| 0 <= j < k ==> s@[i + j] == p@[j],
        decreases p@.len() - k,
    {
        assert(i + k < s@.len());
        if s[i + k] != p[k] {
            assert(s@.subrange(i as int, i + p@.len())[k as int] != p@[k as int]);
            return false;
        }
        k = k + 1;
    }
    assert(s@.subrange(i as int, i + p@.len()) =~= p@);
    true
}

/// Like [`t`] but interpolates `{name}` placeholders from `args`.
pub fn tf(active: &Catalog, english: &Catalog, key: &str, args: &Vec<(String, String)>) -> (r:
    String)
    ensures
        r@ == interpolate(spec_lookup(active@, english@, key@), args@),
{
    let base = t(active, english, key);
    let mut cur = to_chars(base.as_str());
    let mut i: usize = 0;
    assert(args@.skip(0) =~= args@);
    while i < args.len()
        invariant
            i <= args@.len(),
            interpolate(spec_lookup(active@, english@, key@), args@) == interpolate(
                cur@,
                args@.skip(i as int),
            ),
        decreases args@.len() - i,
    {
        let mut p: Vec<char> = Vec::new();
        p.push('{');
        let name = to_chars(args[i].0.as_str());
        let mut k: usize = 0;
        while k < name.len()
            invariant
                k <= name@.len(),
                p@ == seq!['{'] + name@.take(k as int),
            decreases name@.len() - k,
        {
            p.push(name[k]);
            k = k + 1;
            assert(p@ =~= seq!['{'] + name@.take(k as int));
        }
        p.push('}');
        assert(name@.take(k as int) =~= name@);
        assert(p@ =~= placeholder(args@[i as int].0@));
        let value = to_chars(args[i].1.as_str());
        cur = replace_str(&cur, &p, &value);
        assert(args@.skip(i as int).drop_first() =~= args@.skip(i + 1));
        i = i + 1;
    }
    crate::text::string_of(&cur)
}

// ---------------------------------------------------------------------------
// Catalog files
// ---------------------------------------------------------------------------

/// A parsed catalog file: nested tables whose text leaves are messages.
pub enum MessageTree {
    Text(String),
    Table(Vec<(String, MessageTree)>),
    /// Any other value; it holds no message.
    Other,
}

/// `prefix.key`, or `key` at the top level.
pub open spec fn dotted(prefix: Seq<char>, key: Seq<char>) -> Seq<char> {
    if prefix.len() == 0 {
        key
    } else {
        prefix + "."@ + key
    }
}

/// The (dotted key, message) entries under `t`, in file order.
pub open spec fn tree_entries(prefix: Seq<char>, t: MessageTree) -> Seq<(Seq<char>, Seq<char>)>
    decreases t, 1int,
{
    match t {
        MessageTree::Text(s) => seq![(prefix, s@)],
        MessageTree::Table(kids) => table_entries(prefix, kids@),
        MessageTree::Other => Seq::<(Seq<char>, Seq<char>)>::empty(),
    }
}

/// The entries of the members of a table, in order.
pub open spec fn table_entries(prefix: Seq<char>, kids: Seq<(String, MessageTree)>) -> Seq<
    (Seq<char>, Seq<char>),
>
    decreases kids, 0int,
{
    if kids.len() == 0 {
        Seq::<(Seq<char>, Seq<char>)>::empty()
    } else {
        tree_entries(dotted(prefix, kids[0].0@), kids[0].1) + table_entries(prefix, kids.drop_first())
    }
}

/// `m` with each entry inserted in turn (a later key replaces an earlier).
pub open spec fn insert_entries(
    m: Map<Seq<char>, Seq<char>>,
    es: Seq<(Seq<char>, Seq<char>)>,
) -> Map<Seq<char>, Seq<char>>
    decreases es.len(),
{
    if es.len() == 0 {
        m
    } else {
        insert_entries(m.insert(es[0].0, es[0].1), es.drop_first())
    }
}

proof fn lemma_insert_entries_concat(
    m: Map<Seq<char>, Seq<char>>,
    a: Seq<(Seq<char>, Seq<char>)>,
    b: Seq<(Seq<char>, Seq<char>)>,
)
    ensures
        insert_entries(m, a + b) == insert_entries(insert_entries(m, a), b),
    decreases a.len(),
{
    if a.len() > 0 {
        assert((a + b).drop_first() =~= a.drop_first() + b);
        assert((a + b)[0] == a[0]);
        lemma_insert_entries_concat(m.insert(a[0].0, a[0].1), a.drop_first(), b);
    } else {
        assert(a + b =~= b);
    }
}

proof fn lemma_table_entries_take(prefix: Seq<char>, kids: Seq<(String, MessageTree)>, i: int)
    requires
        0 <= i < kids.len(),
    ensures
        table_entries(prefix, kids.take(i + 1)) == table_entries(prefix, kids.take(i)) + tree_entries(
            dotted(prefix, kids[i].0@),
            kids[i].1,
        ),
    decreases i,
{
    if i == 0 {
        let k1 = kids.take(1);
        assert(k1.drop_first() =~= Seq::<(String, MessageTree)>::empty());
        assert(kids.take(0) =~= Seq::<(String, MessageTree)>::empty());
        assert(tree_entries(dotted(prefix, kids[0].0@), kids[0].1) + Seq::<(Seq<char>, Seq<char>)>::empty()
            =~= tree_entries(dotted(prefix, kids[0].0@), kids[0].1));
    } else {
        let rest = kids.drop_first();
        lemma_table_entries_take(prefix, rest, i - 1);
        assert(kids.take(i + 1).drop_first() =~= rest.take(i));
        assert(kids.take(i).drop_first() =~= rest.take(i - 1));
        assert(rest[i - 1] == kids[i]);
        assert(kids.take(i + 1)[0] == kids[0]);
        assert(kids.take(i)[0] == kids[0]);
        let head = tree_entries(dotted(prefix, kids[0].0@), kids[0].1);
        let mid = table_entries(prefix, rest.take(i - 1));
        let last = tree_entries(dotted(prefix, kids[i].0@), kids[i].1);
        assert(head + (mid + last) =~= (head + mid) + last);
    }
}

fn dotted_exec(prefix: &str, key: &str) -> (r: String)
    ensures
        r@ == dotted(prefix@, key@),
{
    if prefix.unicode_len() == 0 {
        owned(key)
    } else {
        let a = crate::text::concat2(prefix, ".");
        crate::text::concat2(a.as_str(), key)
    }
}

fn add_tree(out: &mut Catalog, prefix: &str, t: &MessageTree)
    ensures
        text_view(final(out)@) == insert_entries(text_view(old(out)@), tree_entries(prefix@, *t)),
    decreases t,
{
    broadcast use lemma_text_view_insert;

    match t {
        MessageTree::Text(s) => {
            out.insert(owned(prefix), s.clone());
            assert(insert_entries(text_view(old(out)@), seq![(prefix@, s@)]) == insert_entries(
                text_view(old(out)@).insert(prefix@, s@),
                seq![(prefix@, s@)].drop_first(),
            ));
            assert(seq![(prefix@, s@)].drop_first() =~= Seq::<(Seq<char>, Seq<char>)>::empty());
        },
        MessageTree::Table(kids) => {
            let ghost start = text_view(out@);
            let mut i: usize = 0;
            assert(kids@.take(0) =~= Seq::<(String, MessageTree)>::empty());
            while i < kids.len()
                invariant
                    i <= kids@.len(),
                    *t == MessageTree::Table(*kids),
                    start == text_view(old(out)@),
                    text_view(out@) == insert_entries(start, table_entries(prefix@, kids@.take(i as int))),
                decreases kids@.len() - i,
            {
                let key = dotted_exec(prefix, kids[i].0.as_str());
                proof {
                    vstd::std_specs::vec::axiom_vec_index_decreases(*kids, i as int);
                    assert(decreases_to!(*t => (*t)->Table_0));
                    assert(decreases_to!(*kids => kids[i as int]));
                    assert(decreases_to!(kids[i as int] => kids[i as int].1));
                }
                add_tree(out, key.as_str(), &kids[i].1);
                proof {
                    lemma_table_entries_take(prefix@, kids@, i as int);
                    lemma_insert_entries_concat(
                        start,
                        table_entries(prefix@, kids@.take(i as int)),
                        tree_entries(dotted(prefix@, kids@[i as int].0@), kids@[i as int].1),
                    );
                }
                i = i + 1;
            }
            assert(kids@.take(i as int) =~= kids@);
        },
        MessageTree::Other => {},
    }
}

/// The catalog of a parsed catalog file: every text leaf under its dotted
/// key path (`a.b.c`); other values are ignored, and a later key replaces
/// an earlier one.
pub fn catalog_from_tree(t: &MessageTree) -> (c: Catalog)
    ensures
        text_view(c@) == insert_entries(Map::empty(), tree_entries(Seq::<char>::empty(), *t)),
{
    let mut c: Catalog = StrMap::new();
    assert(text_view(c@) =~= Map::<Seq<char>, Seq<char>>::empty());
    let top = "";
    proof {
        reveal_strlit("");
    }
    assert(top@ =~= Seq::<char>::empty());
    add_tree(&mut c, top, t);
    c
}

} // verus!
