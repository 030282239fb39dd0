//! Character-level string helpers shared by every parser in the crate.
//!
//! All string logic works on `Seq<char>` views; owned strings are converted
//! to `Vec<char>` and back so that each step can be specified.

use vstd::prelude::*;

verus! {

/// `String::push` appends one character to the end of the string.
pub assume_specification[ std::string::String::push ](s: &mut std::string::String, ch: char)
    ensures
        final(s)@ == old(s)@.push(ch),
;

/// `core::char::from_u32`: the character with code point `i`, when `i` is
/// one (at most `0x10FFFF` and not a surrogate).
pub assume_specification[ core::char::from_u32 ](i: u32) -> (r: Option<char>)
    ensures
        (i <= 0x10FFFF && !(0xD800 <= i <= 0xDFFF)) <==> r is Some,
        r matches Some(c) ==> c as u32 == i,
;

/// The characters of `s`, in order.
pub fn to_chars(s: &str) -> (v: Vec<char>)
    ensures
        v@ == s@,
{
    let n = s.unicode_len();
    let mut v: Vec<char> = Vec::new();
    let mut i: usize = 0;
    while i < n
        invariant
            n == s@.len(),
            i <= n,
            v@ == s@.take(i as int),
        decreases n - i,
    {
        let c = s.get_char(i);
        v.push(c);
        i = i + 1;
        assert(v@ =~= s@.take(i as int));
    }
    assert(v@ =~= s@);
    v
}

/// Builds an owned string holding exactly `v[lo..hi]`.
pub fn string_of_range(v: &Vec<char>, lo: usize, hi: usize) -> (s: String)
    requires
        lo <= hi <= v@.len(),
    ensures
        s@ == v@.subrange(lo as int, hi as int),
{
    let mut s = String::new();
    let mut i: usize = lo;
    while i < hi
        invariant
            lo <= i <= hi,
            hi <= v@.len(),
            s@ == v@.subrange(lo as int, i as int),
        decreases hi - i,
    {
        s.push(v[i]);
        i = i + 1;
        assert(s@ =~= v@.subrange(lo as int, i as int));
    }
    s
}

/// Builds an owned string holding exactly the characters of `v`.
pub fn string_of(v: &Vec<char>) -> (s: String)
    ensures
        s@ == v@,
{
    let s = string_of_range(v, 0, v.len());
    assert(v@.subrange(0, v@.len() as int) =~= v@);
    s
}

/// Copies a string slice into an owned string.
pub fn owned(s: &str) -> (r: String)
    ensures
        r@ == s@,
{
    s.to_owned()
}

/// Character-wise equality of two string slices.
pub fn str_eq(a: &str, b: &str) -> (r: bool)
    ensures
        r == (a@ == b@),
{
    let x = a.to_owned();
    let y = b.to_owned();
    x == y
}


/// Unicode `White_Space` characters: the set `char::is_whitespace` and
/// `str::trim` use.
pub open spec fn is_ws(c: char) -> bool {
    ||| c == '\t' || c == '\n' || c == '\u{0B}' || c == '\u{0C}' || c == '\r'
    ||| c == ' ' || c == '\u{85}' || c == '\u{A0}' || c == '\u{1680}'
    ||| '\u{2000}' <= c <= '\u{200A}'
    ||| c == '\u{2028}' || c == '\u{2029}' || c == '\u{202F}' || c == '\u{205F}'
    ||| c == '\u{3000}'
}

/// Executable whitespace test.
pub fn is_ws_char(c: char) -> (r: bool)
    ensures
        r == is_ws(c),
{
    c == '\t' || c == '\n' || c == '\u{0B}' || c == '\u{0C}' || c == '\r' || c == ' '
        || c == '\u{85}' || c == '\u{A0}' || c == '\u{1680}' || ('\u{2000}' <= c && c
        <= '\u{200A}') || c == '\u{2028}' || c == '\u{2029}' || c == '\u{202F}' || c
        == '\u{205F}' || c == '\u{3000}'
}

/// `s` without leading whitespace.
pub open spec fn trim_start(s: Seq<char>) -> Seq<char>
    decreases s.len(),
{
    if s.len() > 0 && is_ws(s[0]) {
        trim_start(s.drop_first())
    } else {
        s
    }
}

/// `s` without trailing whitespace.
pub open spec fn trim_end(s: Seq<char>) -> Seq<char>
    decreases s.len(),
{
    if s.len() > 0 && is_ws(s.last()) {
        trim_end(s.drop_last())
    } else {
        s
    }
}

/// `s` without leading and trailing whitespace (`str::trim`).
pub open spec fn trim(s: Seq<char>) -> Seq<char> {
    trim_end(trim_start(s))
}

/// Skipping a whitespace-only prefix does not change `trim_start`.
pub proof fn lemma_trim_start_skip(s: Seq<char>, i: int)
    requires
        0 <= i <= s.len(),
        forall|k: int| 0 <= k < i ==> is_ws(#[trigger] s[k]),
    ensures
        trim_start(s) == trim_start(s.skip(i)),
    decreases i,
{
    if i > 0 {
        lemma_trim_start_skip(s.drop_first(), i - 1);
        assert(s.drop_first().skip(i - 1) =~= s.skip(i));
    } else {
        assert(s.skip(0) =~= s);
    }
}

/// Dropping a whitespace-only suffix does not change `trim_end`.
pub proof fn lemma_trim_end_take(s: Seq<char>, j: int)
    requires
        0 <= j <= s.len(),
        forall|k: int| j <= k < s.len() ==> is_ws(#[trigger] s[k]),
    ensures
        trim_end(s) == trim_end(s.take(j)),
    decreases s.len() - j,
{
    if j < s.len() {
        lemma_trim_end_take(s.drop_last(), j);
        assert(s.drop_last().take(j) =~= s.take(j));
    } else {
        assert(s.take(j) =~= s);
    }
}

/// Bounds of the trimmed part of `v[lo..hi]`.
pub fn trim_range(v: &Vec<char>, lo: usize, hi: usize) -> (r: (usize, usize))
    requires
        lo <= hi <= v@.len(),
    ensures
        lo <= r.0 <= r.1 <= hi,
        v@.subrange(r.0 as int, r.1 as int) == trim(v@.subrange(lo as int, hi as int)),
{
    let ghost s = v@.subrange(lo as int, hi as int);
    let mut i = lo;
    while i < hi && is_ws_char(v[i])
        invariant
            lo <= i <= hi,
            hi <= v@.len(),
            s == v@.subrange(lo as int, hi as int),
            forall|k: int| lo <= k < i ==> is_ws(#[trigger] v@[k]),
        decreases hi - i,
    {
        i = i + 1;
    }
    proof {
        assert forall|k: int| 0 <= k < i - lo implies is_ws(#[trigger] s[k]) by {
            assert(s[k] == v@[lo + k]);
        }
        lemma_trim_start_skip(s, i - lo);
        assert(s.skip(i - lo) =~= v@.subrange(i as int, hi as int));
    }
    let mut j = hi;
    while j > i && is_ws_char(v[j - 1])
        invariant
            lo <= i <= j <= hi,
            hi <= v@.len(),
            forall|k: int| j <= k < hi ==> is_ws(#[trigger] v@[k]),
        decreases j - i,
    {
        j = j - 1;
    }
    proof {
        let t = v@.subrange(i as int, hi as int);
        assert(trim_start(t) == t) by {
            if t.len() > 0 {
                assert(t[0] == v@[i as int]);
            }
        }
        assert forall|k: int| j - i <= k < t.len() implies is_ws(#[trigger] t[k]) by {
            assert(t[k] == v@[i + k]);
        }
        lemma_trim_end_take(t, j - i);
        let u = t.take(j - i);
        assert(u =~= v@.subrange(i as int, j as int));
        if u.len() > 0 {
            assert(u.last() == v@[j - 1]);
        }
        assert(trim_end(u) == u);
    }
    (i, j)
}

/// The trimmed characters of `s`.
pub fn trimmed(s: &str) -> (r: Vec<char>)
    ensures
        r@ == trim(s@),
{
    let v = to_chars(s);
    let (a, b) = trim_range(&v, 0, v.len());
    assert(v@.subrange(0, v@.len() as int) =~= v@);
    let mut r: Vec<char> = Vec::new();
    let mut i = a;
    while i < b
        invariant
            a <= i <= b,
            b <= v@.len(),
            r@ == v@.subrange(a as int, i as int),
        decreases b - i,
    {
        r.push(v[i]);
        i = i + 1;
        assert(r@ =~= v@.subrange(a as int, i as int));
    }
    r
}

/// First position of `c` in `v[lo..hi]`.
pub fn find_char(v: &Vec<char>, lo: usize, hi: usize, c: char) -> (r: Option<usize>)
    requires
        lo <= hi <= v@.len(),
    ensures
        match r {
            Some(i) => lo <= i < hi && v@[i as int] == c && forall|k: int|
                lo <= k < i ==> v@[k] != c,
            None => forall|k: int| lo <= k < hi ==> v@[k] != c,
        },
{
    let mut i = lo;
    while i < hi
        invariant
            lo <= i <= hi,
            hi <= v@.len(),
            forall|k: int| lo <= k < i ==> v@[k] != c,
        decreases hi - i,
    {
        if v[i] == c {
            return Some(i);
        }
        i = i + 1;
    }
    None
}

/// Last position of `c` in `v[lo..hi]`.
pub fn rfind_char(v: &Vec<char>, lo: usize, hi: usize, c: char) -> (r: Option<usize>)
    requires
        lo <= hi <= v@.len(),
    ensures
        match r {
            Some(i) => lo <= i < hi && v@[i as int] == c && forall|k: int|
                i < k < hi ==> v@[k] != c,
            None => forall|k: int| lo <= k < hi ==> v@[k] != c,
        },
{
    let mut j = hi;
    while j > lo
        invariant
            lo <= j <= hi,
            hi <= v@.len(),
            forall|k: int| j <= k < hi ==> v@[k] != c,
        decreases j - lo,
    {
        if v[j - 1] == c {
            return Some(j - 1);
        }
        j = j - 1;
    }
    None
}

/// Whether `v[lo..hi]` spells exactly `s`.
pub fn range_eq(v: &Vec<char>, lo: usize, hi: usize, s: &str) -> (r: bool)
    requires
        lo <= hi <= v@.len(),
    ensures
        r == (v@.subrange(lo as int, hi as int) == s@),
{
    let w = to_chars(s);
    if hi - lo != w.len() {
        assert(v@.subrange(lo as int, hi as int).len() != s@.len());
        return false;
    }
    let mut i: usize = 0;
    while i < w.len()
        invariant
            lo <= hi <= v@.len(),
            w@ == s@,
            hi - lo == w@.len(),
            i <= w@.len(),
            forall|k: int| 0 <= k < i ==> v@[lo + k] == w@[k],
        decreases w@.len() - i,
    {
        if v[lo + i] != w[i] {
            assert(v@.subrange(lo as int, hi as int)[i as int] != s@[i as int]);
            return false;
        }
        i = i + 1;
    }
    assert(v@.subrange(lo as int, hi as int) =~= s@);
    true
}

/// Whether `v[lo..hi]` begins with `p`.
pub fn range_starts_with(v: &Vec<char>, lo: usize, hi: usize, p: &str) -> (r: bool)
    requires
        lo <= hi <= v@.len(),
    ensures
        r == (p@.len() <= hi - lo && v@.subrange(lo as int, lo + p@.len()) == p@),
{
    let n = p.unicode_len();
    if n > hi - lo {
        return false;
    }
    range_eq(v, lo, lo + n, p)
}

/// Whether `v[lo..hi]` ends with `p`.
pub fn range_ends_with(v: &Vec<char>, lo: usize, hi: usize, p: &str) -> (r: bool)
    requires
        lo <= hi <= v@.len(),
    ensures
        r == (p@.len() <= hi - lo && v@.subrange(hi - p@.len(), hi as int) == p@),
{
    let n = p.unicode_len();
    if n > hi - lo {
        return false;
    }
    range_eq(v, hi - n, hi, p)
}

/// Whether the character sequence `s` holds `c`.
pub fn contains_char(s: &str, c: char) -> (r: bool)
    ensures
        r == s@.contains(c),
{
    let v = to_chars(s);
    match find_char(&v, 0, v.len(), c) {
        Some(i) => {
            assert(s@[i as int] == c);
            true
        },
        None => false,
    }
}


/// Index of the first `c` in `s`.
pub open spec fn find_first(s: Seq<char>, c: char) -> Option<int>
    decreases s.len(),
{
    if s.len() == 0 {
        None
    } else if s[0] == c {
        Some(0)
    } else {
        match find_first(s.drop_first(), c) {
            Some(i) => Some(i + 1),
            None => None,
        }
    }
}

/// Index of the last `c` in `s`.
pub open spec fn find_last(s: Seq<char>, c: char) -> Option<int>
    decreases s.len(),
{
    if s.len() == 0 {
        None
    } else if s.last() == c {
        Some(s.len() - 1)
    } else {
        find_last(s.drop_last(), c)
    }
}

pub proof fn lemma_find_first(s: Seq<char>, c: char)
    ensures
        match find_first(s, c) {
            Some(i) => 0 <= i < s.len() && s[i] == c && forall|k: int| 0 <= k < i ==> s[k] != c,
            None => forall|k: int| 0 <= k < s.len() ==> s[k] != c,
        },
    decreases s.len(),
{
    if s.len() > 0 && s[0] != c {
        lemma_find_first(s.drop_first(), c);
        match find_first(s.drop_first(), c) {
            Some(i) => {
                assert forall|k: int| 0 <= k < i + 1 implies s[k] != c by {
                    if k > 0 {
                        assert(s[k] == s.drop_first()[k - 1]);
                    }
                }
            },
            None => {
                assert forall|k: int| 0 <= k < s.len() implies s[k] != c by {
                    if k > 0 {
                        assert(s[k] == s.drop_first()[k - 1]);
                    }
                }
            },
        }
    }
}

pub proof fn lemma_find_last(s: Seq<char>, c: char)
    ensures
        match find_last(s, c) {
            Some(i) => 0 <= i < s.len() && s[i] == c && forall|k: int| i < k < s.len() ==> s[k]
                != c,
            None => forall|k: int| 0 <= k < s.len() ==> s[k] != c,
        },
    decreases s.len(),
{
    if s.len() > 0 && s.last() != c {
        lemma_find_last(s.drop_last(), c);
        assert forall|k: int| 0 <= k < s.len() - 1 implies s[k] == s.drop_last()[k] by {}
        match find_last(s.drop_last(), c) {
            Some(i) => {
                assert forall|k: int| i < k < s.len() implies s[k] != c by {
                    if k < s.len() - 1 {
                        assert(s[k] == s.drop_last()[k]);
                    }
                }
            },
            None => {
                assert forall|k: int| 0 <= k < s.len() implies s[k] != c by {
                    if k < s.len() - 1 {
                        assert(s[k] == s.drop_last()[k]);
                    }
                }
            },
        }
    }
}

/// `find_char` on a whole vector, in terms of `find_first`.
pub fn find_first_in(v: &Vec<char>, lo: usize, hi: usize, c: char) -> (r: Option<usize>)
    requires
        lo <= hi <= v@.len(),
    ensures
        r matches Some(k) ==> lo <= k < hi && v@[k as int] == c,
        match find_first(v@.subrange(lo as int, hi as int), c) {
            Some(i) => r matches Some(k) && k == lo + i,
            None => r is None,
        },
{
    let r = find_char(v, lo, hi, c);
    proof {
        let s = v@.subrange(lo as int, hi as int);
        lemma_find_first(s, c);
        match find_first(s, c) {
            Some(i) => {
                assert(s[i] == v@[lo + i]);
                match r {
                    Some(j) => {
                        if j < lo + i {
                            assert(s[j - lo] == v@[j as int]);
                        }
                        if j > lo + i {
                            assert(v@[lo + i] != c);
                        }
                    },
                    None => {
                        assert(v@[lo + i] != c);
                    },
                }
            },
            None => {
                if let Some(j) = r {
                    assert(s[j - lo] == v@[j as int]);
                }
            },
        }
    }
    r
}

/// `rfind_char` in terms of `find_last`.
pub fn find_last_in(v: &Vec<char>, lo: usize, hi: usize, c: char) -> (r: Option<usize>)
    requires
        lo <= hi <= v@.len(),
    ensures
        r matches Some(k) ==> lo <= k < hi && v@[k as int] == c,
        match find_last(v@.subrange(lo as int, hi as int), c) {
            Some(i) => r matches Some(k) && k == lo + i,
            None => r is None,
        },
{
    let r = rfind_char(v, lo, hi, c);
    proof {
        let s = v@.subrange(lo as int, hi as int);
        lemma_find_last(s, c);
        match find_last(s, c) {
            Some(i) => {
                assert(s[i] == v@[lo + i]);
                match r {
                    Some(j) => {
                        if j > lo + i {
                            assert(s[j - lo] == v@[j as int]);
                        }
                        if j < lo + i {
                            assert(v@[lo + i] != c);
                        }
                    },
                    None => {
                        assert(v@[lo + i] != c);
                    },
                }
            },
            None => {
                if let Some(j) = r {
                    assert(s[j - lo] == v@[j as int]);
                }
            },
        }
    }
    r
}

/// Appends the characters of `t` to `s`.
pub fn append_str(s: &mut String, t: &str)
    ensures
        final(s)@ == old(s)@ + t@,
{
    let v = to_chars(t);
    let ghost start = s@;
    let mut i: usize = 0;
    while i < v.len()
        invariant
            v@ == t@,
            i <= v@.len(),
            s@ == start + v@.take(i as int),
        decreases v@.len() - i,
    {
        s.push(v[i]);
        i = i + 1;
        assert(s@ =~= start + v@.take(i as int));
    }
    assert(v@.take(i as int) =~= t@);
}

/// `s` followed by `t`, as a new string.
pub fn concat2(s: &str, t: &str) -> (r: String)
    ensures
        r@ == s@ + t@,
{
    let mut r = owned(s);
    append_str(&mut r, t);
    r
}

/// `s` with every trailing `c` removed (`trim_end_matches(c)`).
pub open spec fn trim_end_char(s: Seq<char>, c: char) -> Seq<char>
    decreases s.len(),
{
    if s.len() > 0 && s.last() == c {
        trim_end_char(s.drop_last(), c)
    } else {
        s
    }
}

/// Bounds after removing trailing `c` from `v[lo..hi]`.
pub fn trim_end_char_range(v: &Vec<char>, lo: usize, hi: usize, c: char) -> (j: usize)
    requires
        lo <= hi <= v@.len(),
    ensures
        lo <= j <= hi,
        v@.subrange(lo as int, j as int) == trim_end_char(v@.subrange(lo as int, hi as int), c),
{
    let mut j = hi;
    while j > lo && v[j - 1] == c
        invariant
            lo <= j <= hi,
            hi <= v@.len(),
            trim_end_char(v@.subrange(lo as int, j as int), c) == trim_end_char(
                v@.subrange(lo as int, hi as int),
                c,
            ),
        decreases j - lo,
    {
        assert(v@.subrange(lo as int, j as int).drop_last() =~= v@.subrange(
            lo as int,
            j - 1,
        ));
        j = j - 1;
    }
    j
}

/// The Rust `Debug` rendering of a string (quoted and escaped).
pub uninterp spec fn debug_quoted(s: Seq<char>) -> Seq<char>;

/// `format!("{s:?}")`: std's `Debug` rendering of a `str`, a function of its
/// characters only.
#[verifier::external_body]
pub(crate) fn debug_quote(s: &str) -> (r: String)
    ensures
        r@ == debug_quoted(s@),
{
    format!("{s:?}")
}


/// `s` without the prefix `p`, if `s` starts with it (`strip_prefix`).
pub open spec fn strip_prefix(s: Seq<char>, p: Seq<char>) -> Option<Seq<char>> {
    if p.is_prefix_of(s) {
        Some(s.skip(p.len() as int))
    } else {
        None
    }
}

/// `s` without the suffix `p`, if `s` ends with it (`strip_suffix`).
pub open spec fn strip_suffix(s: Seq<char>, p: Seq<char>) -> Option<Seq<char>> {
    if p.is_suffix_of(s) {
        Some(s.take(s.len() - p.len()))
    } else {
        None
    }
}

/// New lower bound after stripping `p` from the front of `v[lo..hi]`.
pub fn strip_prefix_range(v: &Vec<char>, lo: usize, hi: usize, p: &str) -> (r: Option<usize>)
    requires
        lo <= hi <= v@.len(),
    ensures
        match strip_prefix(v@.subrange(lo as int, hi as int), p@) {
            Some(t) => r matches Some(k) && lo <= k <= hi && t == v@.subrange(k as int, hi as int),
            None => r is None,
        },
{
    let n = p.unicode_len();
    let ok = range_starts_with(v, lo, hi, p);
    proof {
        let s = v@.subrange(lo as int, hi as int);
        if n <= hi - lo {
            assert(s.subrange(0, n as int) =~= v@.subrange(lo as int, lo + n));
            assert(s.skip(n as int) =~= v@.subrange(lo + n, hi as int));
        }
    }
    if ok {
        Some(lo + n)
    } else {
        None
    }
}

/// New upper bound after stripping `p` from the end of `v[lo..hi]`.
pub fn strip_suffix_range(v: &Vec<char>, lo: usize, hi: usize, p: &str) -> (r: Option<usize>)
    requires
        lo <= hi <= v@.len(),
    ensures
        match strip_suffix(v@.subrange(lo as int, hi as int), p@) {
            Some(t) => r matches Some(k) && lo <= k <= hi && t == v@.subrange(lo as int, k as int),
            None => r is None,
        },
{
    let n = p.unicode_len();
    let ok = range_ends_with(v, lo, hi, p);
    proof {
        let s = v@.subrange(lo as int, hi as int);
        if n <= hi - lo {
            assert(s.subrange(s.len() - n, s.len() as int) =~= v@.subrange(hi - n, hi as int));
            assert(s.take(s.len() - n) =~= v@.subrange(lo as int, hi - n));
        }
    }
    if ok {
        Some(hi - n)
    } else {
        None
    }
}


/// `s` split at every `c` (`str::split(c)`): always at least one piece.
pub open spec fn split_char(s: Seq<char>, c: char) -> Seq<Seq<char>>
    decreases s.len(),
{
    if s.len() == 0 {
        seq![Seq::<char>::empty()]
    } else {
        let r = split_char(s.drop_last(), c);
        if s.last() == c {
            r.push(Seq::<char>::empty())
        } else {
            r.update(r.len() - 1, r.last().push(s.last()))
        }
    }
}

pub proof fn lemma_split_char_nonempty(s: Seq<char>, c: char)
    ensures
        split_char(s, c).len() >= 1,
    decreases s.len(),
{
    if s.len() > 0 {
        lemma_split_char_nonempty(s.drop_last(), c);
    }
}

/// Splits `v` at every `c` into owned pieces.
pub fn split_char_exec(v: &Vec<char>, c: char) -> (r: Vec<Vec<char>>)
    ensures
        r@.len() == split_char(v@, c).len(),
        forall|i: int| 0 <= i < r@.len() ==> #[trigger] r@[i]@ == split_char(v@, c)[i],
{
    let mut done: Vec<Vec<char>> = Vec::new();
    let mut cur: Vec<char> = Vec::new();
    let mut i: usize = 0;
    while i < v.len()
        invariant
            i <= v@.len(),
            done@.len() + 1 == split_char(v@.take(i as int), c).len(),
            forall|k: int| 0 <= k < done@.len() ==> #[trigger] done@[k]@ == split_char(
                v@.take(i as int),
                c,
            )[k],
            cur@ == split_char(v@.take(i as int), c).last(),
        decreases v@.len() - i,
    {
        assert(v@.take(i + 1).drop_last() =~= v@.take(i as int));
        assert(v@.take(i + 1).last() == v@[i as int]);
        if v[i] == c {
            done.push(cur);
            cur = Vec::new();
        } else {
            cur.push(v[i]);
        }
        i = i + 1;
    }
    assert(v@.take(i as int) =~= v@);
    done.push(cur);
    done
}

/// Bounds of the pieces of `v[lo..hi]` split at `c`.
pub fn split_ranges(v: &Vec<char>, lo: usize, hi: usize, c: char) -> (r: Vec<(usize, usize)>)
    requires
        lo <= hi <= v@.len(),
    ensures
        r@.len() == split_char(v@.subrange(lo as int, hi as int), c).len(),
        forall|k: int|
            0 <= k < r@.len() ==> lo <= (#[trigger] r@[k]).0 <= r@[k].1 <= hi && v@.subrange(
                r@[k].0 as int,
                r@[k].1 as int,
            ) == split_char(v@.subrange(lo as int, hi as int), c)[k],
{
    let ghost s = v@.subrange(lo as int, hi as int);
    let mut done: Vec<(usize, usize)> = Vec::new();
    let mut start: usize = lo;
    let mut i: usize = lo;
    while i < hi
        invariant
            lo <= start <= i <= hi,
            hi <= v@.len(),
            s == v@.subrange(lo as int, hi as int),
            done@.len() + 1 == split_char(s.take(i - lo), c).len(),
            forall|k: int|
                0 <= k < done@.len() ==> lo <= (#[trigger] done@[k]).0 <= done@[k].1 <= hi
                    && v@.subrange(done@[k].0 as int, done@[k].1 as int) == split_char(
                    s.take(i - lo),
                    c,
                )[k],
            v@.subrange(start as int, i as int) == split_char(s.take(i - lo), c).last(),
        decreases hi - i,
    {
        assert(s.take(i - lo + 1).drop_last() =~= s.take(i - lo));
        assert(s.take(i - lo + 1).last() == v@[i as int]);
        if v[i] == c {
            done.push((start, i));
            start = i + 1;
            assert(v@.subrange(start as int, i + 1) =~= Seq::<char>::empty());
        } else {
            assert(v@.subrange(start as int, i + 1) =~= v@.subrange(start as int, i as int).push(
                v@[i as int],
            ));
        }
        i = i + 1;
    }
    assert(s.take(i - lo) =~= s);
    done.push((start, hi));
    done
}


/// `p` occurs in `s` at position `i`.
pub open spec fn occurs_at(s: Seq<char>, p: Seq<char>, i: int) -> bool {
    0 <= i && i + p.len() <= s.len() && s.subrange(i, i + p.len()) == p
}

/// `p` occurs somewhere in `s` (`str::contains` with a string pattern).
pub open spec fn contains_seq(s: Seq<char>, p: Seq<char>) -> bool {
    exists|i: int| #[trigger] occurs_at(s, p, i)
}

/// Whether `v` holds `p` as a contiguous piece.
pub fn contains_str(v: &Vec<char>, p: &str) -> (r: bool)
    ensures
        r == contains_seq(v@, p@),
{
    let n = p.unicode_len();
    if n > v.len() {
        assert forall|i: int| !#[trigger] occurs_at(v@, p@, i) by {}
        return false;
    }
    if n == 0 {
        assert(v@.subrange(0, 0) =~= p@);
        assert(occurs_at(v@, p@, 0));
        return true;
    }
    let mut i: usize = 0;
    let last = v.len() - n;
    while i <= last
        invariant
            n == p@.len(),
            0 < n <= v@.len(),
            v@.len() <= usize::MAX,
            last == v@.len() - n,
            i <= last + 1,
            forall|k: int| 0 <= k < i ==> !#[trigger] occurs_at(v@, p@, k),
        decreases last + 1 - i,
    {
        if range_eq(v, i, i + n, p) {
            assert(occurs_at(v@, p@, i as int));
            return true;
        }
        i = i + 1;
    }
    assert forall|k: int| !#[trigger] occurs_at(v@, p@, k) by {
        if 0 <= k < i {
        }
    }
    false
}


/// The characters of each string.
pub open spec fn string_views(v: Seq<String>) -> Seq<Seq<char>> {
    v.map_values(|s: String| s@)
}


/// The pieces joined with `sep` between neighbours (`slice::join`).
pub open spec fn join_with(pieces: Seq<Seq<char>>, sep: Seq<char>) -> Seq<char>
    decreases pieces.len(),
{
    if pieces.len() == 0 {
        Seq::<char>::empty()
    } else if pieces.len() == 1 {
        pieces[0]
    } else {
        join_with(pieces.drop_last(), sep) + sep + pieces.last()
    }
}

/// Joins the strings with `sep` between neighbours.
pub fn join_strings(v: &Vec<String>, sep: &str) -> (r: String)
    ensures
        r@ == join_with(string_views(v@), sep@),
{
    let mut r = String::new();
    let mut i: usize = 0;
    while i < v.len()
        invariant
            i <= v@.len(),
            r@ == join_with(string_views(v@).take(i as int), sep@),
        decreases v@.len() - i,
    {
        let ghost before = string_views(v@).take(i as int);
        assert(string_views(v@).take(i + 1).drop_last() =~= before);
        assert(string_views(v@).take(i + 1).last() == v@[i as int]@);
        if i > 0 {
            append_str(&mut r, sep);
        } else {
            assert(before.len() == 0);
            assert(r@ =~= Seq::<char>::empty());
        }
        append_str(&mut r, v[i].as_str());
        i = i + 1;
        proof {
            if i == 1 {
                assert(r@ =~= string_views(v@).take(1)[0]);
            }
        }
    }
    assert(string_views(v@).take(i as int) =~= string_views(v@));
    r
}


/// A piece without `c` splits into itself.
pub proof fn lemma_split_char_single(s: Seq<char>, c: char)
    requires
        !s.contains(c),
    ensures
        split_char(s, c) == seq![s],
    decreases s.len(),
{
    if s.len() > 0 {
        assert(!s.drop_last().contains(c)) by {
            if s.drop_last().contains(c) {
                let k = choose|k: int| 0 <= k < s.drop_last().len() && s.drop_last()[k] == c;
                assert(s[k] == c);
            }
        }
        lemma_split_char_single(s.drop_last(), c);
        assert(s.last() != c) by {
            assert(s[s.len() - 1] == s.last());
        }
        assert(s.drop_last().push(s.last()) =~= s);
        assert(seq![s.drop_last()].update(0, s.drop_last().push(s.last())) =~= seq![s]);
    } else {
        assert(s =~= Seq::<char>::empty());
    }
}

/// Splitting around one separator splits each side.
pub proof fn lemma_split_char_concat(a: Seq<char>, b: Seq<char>, c: char)
    ensures
        split_char(a + seq![c] + b, c) == split_char(a, c) + split_char(b, c),
    decreases b.len(),
{
    let s = a + seq![c] + b;
    if b.len() == 0 {
        assert(s =~= a.push(c));
        assert(s.drop_last() =~= a);
        assert(split_char(b, c) =~= seq![Seq::<char>::empty()]);
        assert(split_char(a, c).push(Seq::<char>::empty()) =~= split_char(a, c) + split_char(b, c));
    } else {
        let b2 = b.drop_last();
        assert(s.drop_last() =~= a + seq![c] + b2);
        assert(s.last() == b.last());
        lemma_split_char_concat(a, b2, c);
        lemma_split_char_nonempty(b2, c);
        lemma_split_char_nonempty(a, c);
        let l = split_char(a, c);
        let r = split_char(b2, c);
        if b.last() == c {
            assert((l + r).push(Seq::<char>::empty()) =~= l + r.push(Seq::<char>::empty()));
        } else {
            assert((l + r).last() == r.last());
            assert((l + r).update((l + r).len() - 1, r.last().push(b.last())) =~= l + r.update(
                r.len() - 1,
                r.last().push(b.last()),
            ));
        }
    }
}


/// The decimal digit for `d < 10`.
pub open spec fn digit_char(d: nat) -> char {
    if d == 0 {
        '0'
    } else if d == 1 {
        '1'
    } else if d == 2 {
        '2'
    } else if d == 3 {
        '3'
    } else if d == 4 {
        '4'
    } else if d == 5 {
        '5'
    } else if d == 6 {
        '6'
    } else if d == 7 {
        '7'
    } else if d == 8 {
        '8'
    } else {
        '9'
    }
}

/// The decimal text of `n`, without leading zeros (`0` for zero).
pub open spec fn decimal(n: nat) -> Seq<char>
    decreases n,
{
    if n < 10 {
        seq![digit_char(n)]
    } else {
        decimal(n / 10).push(digit_char(n % 10))
    }
}

fn digit_char_exec(d: u64) -> (c: char)
    requires
        d < 10,
    ensures
        c == digit_char(d as nat),
{
    if d == 0 {
        '0'
    } else if d == 1 {
        '1'
    } else if d == 2 {
        '2'
    } else if d == 3 {
        '3'
    } else if d == 4 {
        '4'
    } else if d == 5 {
        '5'
    } else if d == 6 {
        '6'
    } else if d == 7 {
        '7'
    } else if d == 8 {
        '8'
    } else {
        '9'
    }
}

/// The decimal text of `n`.
pub fn decimal_text(n: u64) -> (r: String)
    ensures
        r@ == decimal(n as nat),
    decreases n,
{
    if n < 10 {
        let mut s = String::new();
        s.push(digit_char_exec(n));
        assert(s@ =~= seq![digit_char(n as nat)]);
        s
    } else {
        let mut s = decimal_text(n / 10);
        s.push(digit_char_exec(n % 10));
        s
    }
}


/// `s` with every leading `c` removed (`trim_start_matches(c)`).
pub open spec fn trim_start_char(s: Seq<char>, c: char) -> Seq<char>
    decreases s.len(),
{
    if s.len() > 0 && s[0] == c {
        trim_start_char(s.drop_first(), c)
    } else {
        s
    }
}

/// New lower bound after removing leading `c` from `v[lo..hi]`.
pub fn trim_start_char_range(v: &Vec<char>, lo: usize, hi: usize, c: char) -> (j: usize)
    requires
        lo <= hi <= v@.len(),
    ensures
        lo <= j <= hi,
        v@.subrange(j as int, hi as int) == trim_start_char(v@.subrange(lo as int, hi as int), c),
{
    let mut j = lo;
    while j < hi && v[j] == c
        invariant
            lo <= j <= hi,
            hi <= v@.len(),
            trim_start_char(v@.subrange(j as int, hi as int), c) == trim_start_char(
                v@.subrange(lo as int, hi as int),
                c,
            ),
        decreases hi - j,
    {
        assert(v@.subrange(j as int, hi as int).drop_first() =~= v@.subrange(j + 1, hi as int));
        j = j + 1;
    }
    j
}

/// `s` with every `a` replaced by `b`.
pub open spec fn replace_char(s: Seq<char>, a: char, b: char) -> Seq<char> {
    s.map_values(|x: char| if x == a {
        b
    } else {
        x
    })
}

/// Replaces every `a` in `s` by `b`.
pub fn replace_char_exec(s: &str, a: char, b: char) -> (r: String)
    ensures
        r@ == replace_char(s@, a, b),
{
    let v = to_chars(s);
    let mut r = String::new();
    let mut i: usize = 0;
    while i < v.len()
        invariant
            v@ == s@,
            i <= v@.len(),
            r@ == replace_char(s@, a, b).take(i as int),
        decreases v@.len() - i,
    {
        if v[i] == a {
            r.push(b);
        } else {
            r.push(v[i]);
        }
        i = i + 1;
        assert(r@ =~= replace_char(s@, a, b).take(i as int));
    }
    assert(replace_char(s@, a, b).take(i as int) =~= replace_char(s@, a, b));
    r
}

} // verus!
