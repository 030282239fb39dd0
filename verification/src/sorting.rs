//! Ordering of `/`-separated relative paths the way `Path` compares them:
//! component by component, each compared as text.

use vstd::prelude::*;

use crate::strmap::{lex_lt, lex_order_chars, lemma_lex_asym, lemma_lex_irrefl};
use crate::text::{split_char, split_char_exec, to_chars};

verus! {

broadcast use vstd::seq_lib::group_to_multiset_ensures;

/// Lexicographic order of component lists, components compared as text.
pub open spec fn components_lt(a: Seq<Seq<char>>, b: Seq<Seq<char>>) -> bool
    decreases a.len(),
{
    if a.len() == 0 {
        b.len() > 0
    } else if b.len() == 0 {
        false
    } else if a[0] != b[0] {
        lex_lt(a[0], b[0])
    } else {
        components_lt(a.drop_first(), b.drop_first())
    }
}

/// `a` sorts before `b` as a path.
pub open spec fn path_lt(a: Seq<char>, b: Seq<char>) -> bool {
    components_lt(split_char(a, '/'), split_char(b, '/'))
}

pub proof fn lemma_components_asym(a: Seq<Seq<char>>, b: Seq<Seq<char>>)
    ensures
        components_lt(a, b) ==> !components_lt(b, a),
    decreases a.len(),
{
    if a.len() > 0 && b.len() > 0 {
        if a[0] != b[0] {
            lemma_lex_asym(a[0], b[0]);
        } else {
            lemma_components_asym(a.drop_first(), b.drop_first());
        }
    }
}

/// Compares two component lists: negative, zero or positive.
fn components_order(a: &Vec<Vec<char>>, b: &Vec<Vec<char>>) -> (r: i8)
    ensures
        (r < 0) ==> components_lt(a@.map_values(|c: Vec<char>| c@), b@.map_values(|c: Vec<char>| c@)),
        (r >= 0) ==> !components_lt(a@.map_values(|c: Vec<char>| c@), b@.map_values(|c: Vec<char>| c@)),
{
    let ghost av = a@.map_values(|c: Vec<char>| c@);
    let ghost bv = b@.map_values(|c: Vec<char>| c@);
    let mut i: usize = 0;
    assert(av.skip(0) =~= av);
    assert(bv.skip(0) =~= bv);
    while i < a.len() && i < b.len()
        invariant
            av == a@.map_values(|c: Vec<char>| c@),
            bv == b@.map_values(|c: Vec<char>| c@),
            i <= a@.len(),
            i <= b@.len(),
            components_lt(av, bv) == components_lt(av.skip(i as int), bv.skip(i as int)),
        decreases a@.len() - i,
    {
        let o = lex_order_chars(&a[i], &b[i]);
        let ghost ra = av.skip(i as int);
        let ghost rb = bv.skip(i as int);
        assert(ra[0] == a@[i as int]@);
        assert(rb[0] == b@[i as int]@);
        if o < 0 {
            return -1;
        }
        if o > 0 {
            proof {
                lemma_lex_asym(rb[0], ra[0]);
            }
            return 1;
        }
        assert(ra.drop_first() =~= av.skip(i + 1));
        assert(rb.drop_first() =~= bv.skip(i + 1));
        i = i + 1;
    }
    if i < b.len() {
        -1
    } else {
        0
    }
}

/// No entry sorts strictly before the one ahead of it.
pub open spec fn no_inversions<T>(s: Seq<(String, T)>) -> bool {
    forall|i: int| 1 <= i < s.len() ==> !path_lt(#[trigger] s[i].0@, s[i - 1].0@)
}

fn components_of(s: &String) -> (r: Vec<Vec<char>>)
    ensures
        r@.map_values(|c: Vec<char>| c@) == split_char(s@, '/'),
{
    let v = to_chars(s.as_str());
    let r = split_char_exec(&v, '/');
    assert(r@.map_values(|c: Vec<char>| c@) =~= split_char(s@, '/'));
    r
}

/// `x` placed before the first entry of `s` whose path it precedes.
pub open spec fn insert_by_path<T>(s: Seq<(String, T)>, x: (String, T)) -> Seq<(String, T)>
    decreases s.len(),
{
    if s.len() == 0 {
        seq![x]
    } else if path_lt(x.0@, s[0].0@) {
        seq![x] + s
    } else {
        seq![s[0]] + insert_by_path(s.drop_first(), x)
    }
}

/// The entries ordered by path, each inserted in turn after those it does
/// not precede (so entries that tie keep their order).
pub open spec fn path_sorted<T>(s: Seq<(String, T)>) -> Seq<(String, T)>
    decreases s.len(),
{
    if s.len() == 0 {
        s
    } else {
        insert_by_path(path_sorted(s.drop_last()), s.last())
    }
}

proof fn lemma_insert_by_path_at<T>(s: Seq<(String, T)>, x: (String, T), p: int)
    requires
        0 <= p <= s.len(),
        forall|k: int| 0 <= k < p ==> !path_lt(x.0@, #[trigger] s[k].0@),
        p < s.len() ==> path_lt(x.0@, s[p].0@),
    ensures
        insert_by_path(s, x) == s.insert(p, x),
    decreases p,
{
    if s.len() == 0 {
        assert(s.insert(p, x) =~= seq![x]);
    } else if p == 0 {
        assert(s.insert(0, x) =~= seq![x] + s);
    } else {
        assert(!path_lt(x.0@, s[0].0@));
        lemma_insert_by_path_at(s.drop_first(), x, p - 1);
        assert(s.insert(p, x) =~= seq![s[0]] + s.drop_first().insert(p - 1, x));
    }
}

/// Sorts entries by their path key (stable: equal keys keep their order).
pub fn sort_by_path<T>(v: Vec<(String, T)>) -> (r: Vec<(String, T)>)
    ensures
        r@.to_multiset() == v@.to_multiset(),
        no_inversions(r@),
        r@ == path_sorted(v@),
{
    let mut out: Vec<(String, T)> = Vec::new();
    let mut keys: Vec<Vec<Vec<char>>> = Vec::new();
    let mut rest = v;
    let ghost orig = rest@;
    proof {
        assert(orig.to_multiset() =~= rest@.to_multiset().add(out@.to_multiset()));
        assert(orig.skip(0) =~= orig);
        assert(orig.take(0) =~= Seq::<(String, T)>::empty());
    }
    while rest.len() > 0
        invariant
            orig.to_multiset() == rest@.to_multiset().add(out@.to_multiset()),
            rest@.len() <= orig.len(),
            rest@ == orig.skip(orig.len() - rest@.len()),
            out@ == path_sorted(orig.take(orig.len() - rest@.len())),
            keys@.len() == out@.len(),
            forall|k: int| 0 <= k < out@.len() ==> (#[trigger] keys@[k])@.map_values(|c: Vec<char>| c@) == split_char(out@[k].0@, '/'),
            no_inversions(out@),
        decreases rest@.len(),
    {
        let ghost k0 = orig.len() - rest@.len();
        let x = rest.remove(0);
        proof {
            assert(x == orig[k0]);
            assert(rest@ =~= orig.skip(k0 + 1));
            assert(orig.take(k0 + 1).drop_last() =~= orig.take(k0));
            assert(orig.take(k0 + 1).last() == orig[k0]);
        }
        let kx = components_of(&x.0);
        let mut p: usize = 0;
        while p < out.len() && components_order(&kx, &keys[p]) >= 0
            invariant
                p <= out@.len(),
                keys@.len() == out@.len(),
                forall|k: int| 0 <= k < out@.len() ==> (#[trigger] keys@[k])@.map_values(|c: Vec<char>| c@) == split_char(out@[k].0@, '/'),
                kx@.map_values(|c: Vec<char>| c@) == split_char(x.0@, '/'),
                forall|k: int| 0 <= k < p ==> !path_lt(x.0@, #[trigger] out@[k].0@),
            decreases out@.len() - p,
        {
            p = p + 1;
        }
        let ghost before = out@;
        proof {
            if p > 0 {
                assert(!path_lt(x.0@, before[p - 1].0@));
            }
            if p < out@.len() {
                assert(path_lt(x.0@, out@[p as int].0@));
                lemma_components_asym(split_char(x.0@, '/'), split_char(out@[p as int].0@, '/'));
            }
        }
        proof {
            lemma_insert_by_path_at(before, x, p as int);
        }
        out.insert(p, x);
        keys.insert(p, kx);
        proof {
            assert(out@ == before.insert(p as int, x));
            assert forall|i: int| 1 <= i < out@.len() implies !path_lt(#[trigger] out@[i].0@, out@[i - 1].0@) by {
                if i < p {
                    assert(out@[i] == before[i]);
                    assert(out@[i - 1] == before[i - 1]);
                    assert(!path_lt(before[i].0@, before[i - 1].0@));
                } else if i == p {
                    assert(out@[i - 1] == before[i - 1]);
                    assert(out@[i] == x);
                } else if i == p + 1 {
                    assert(out@[i - 1] == x);
                    assert(out@[i] == before[p as int]);
                } else {
                    assert(out@[i - 1] == before[i - 2]);
                    assert(out@[i] == before[i - 1]);
                    assert(!path_lt(before[i - 1].0@, before[i - 2].0@));
                }
            }
            assert forall|k: int| 0 <= k < out@.len() implies (#[trigger] keys@[k])@.map_values(|c: Vec<char>| c@) == split_char(out@[k].0@, '/') by {
                if k < p {
                } else if k == p {
                } else {
                    assert(out@[k] == before[k - 1]);
                }
            }
        }
    }
    proof {
        assert(rest@.to_multiset() =~= vstd::multiset::Multiset::empty());
        assert(orig.to_multiset() =~= out@.to_multiset());
        assert(orig.take(orig.len() as int) =~= orig);
    }
    out
}

} // verus!
