//! A string-keyed map kept in ascending key order, so that iteration is
//! deterministic (the order a `BTreeMap<String, _>` gives).

use vstd::prelude::*;

use crate::text::to_chars;

verus! {

/// Lexicographic order on character sequences (the order of `String`'s `Ord`).
pub open spec fn lex_lt(a: Seq<char>, b: Seq<char>) -> bool
    decreases a.len(),
{
    if a.len() == 0 {
        b.len() > 0
    } else if b.len() == 0 {
        false
    } else if a[0] != b[0] {
        a[0] < b[0]
    } else {
        lex_lt(a.drop_first(), b.drop_first())
    }
}

pub proof fn lemma_lex_irrefl(a: Seq<char>)
    ensures
        !lex_lt(a, a),
    decreases a.len(),
{
    if a.len() > 0 {
        lemma_lex_irrefl(a.drop_first());
    }
}

pub proof fn lemma_lex_asym(a: Seq<char>, b: Seq<char>)
    ensures
        lex_lt(a, b) ==> !lex_lt(b, a),
    decreases a.len(),
{
    if a.len() > 0 && b.len() > 0 && a[0] == b[0] {
        lemma_lex_asym(a.drop_first(), b.drop_first());
    }
}

pub proof fn lemma_lex_trans(a: Seq<char>, b: Seq<char>, c: Seq<char>)
    ensures
        lex_lt(a, b) && lex_lt(b, c) ==> lex_lt(a, c),
    decreases a.len(),
{
    if a.len() > 0 && b.len() > 0 && c.len() > 0 {
        lemma_lex_trans(a.drop_first(), b.drop_first(), c.drop_first());
    }
}

pub proof fn lemma_lex_total(a: Seq<char>, b: Seq<char>)
    ensures
        a != b ==> lex_lt(a, b) || lex_lt(b, a),
    decreases a.len(),
{
    if a.len() > 0 && b.len() > 0 && a[0] == b[0] {
        lemma_lex_total(a.drop_first(), b.drop_first());
        if a.drop_first() == b.drop_first() {
            assert(a =~= seq![a[0]] + a.drop_first());
            assert(b =~= seq![b[0]] + b.drop_first());
        }
    } else if a.len() == 0 && b.len() == 0 {
        assert(a =~= b);
    }
}

/// Compares `a` and `b` lexicographically: negative, zero or positive.
pub fn lex_order(a: &str, b: &str) -> (r: i8)
    ensures
        (r < 0) == lex_lt(a@, b@),
        (r == 0) == (a@ == b@),
        (r > 0) == lex_lt(b@, a@),
{
    let x = to_chars(a);
    let y = to_chars(b);
    lex_order_chars(&x, &y)
}

/// `lex_order` on character vectors.
pub fn lex_order_chars(x: &Vec<char>, y: &Vec<char>) -> (r: i8)
    ensures
        (r < 0) == lex_lt(x@, y@),
        (r == 0) == (x@ == y@),
        (r > 0) == lex_lt(y@, x@),
{
    let mut i: usize = 0;
    while i < x.len() && i < y.len() && x[i] == y[i]
        invariant
            i <= x@.len(),
            i <= y@.len(),
            x@.take(i as int) == y@.take(i as int),
        decreases x@.len() - i,
    {
        assert(x@.take(i + 1) =~= x@.take(i as int).push(x@[i as int]));
        assert(y@.take(i + 1) =~= y@.take(i as int).push(y@[i as int]));
        i = i + 1;
    }
    proof {
        lemma_lex_prefix(x@, y@, i as int);
        lemma_lex_irrefl(x@);
        lemma_lex_asym(x@, y@);
        lemma_lex_total(x@, y@);
    }
    if i < x.len() && i < y.len() {
        if x[i] < y[i] {
            -1
        } else {
            assert(x@[i as int] != y@[i as int]);
            assert(x@ != y@);
            1
        }
    } else if i < x.len() {
        assert(x@ != y@);
        1
    } else if i < y.len() {
        assert(x@ != y@);
        -1
    } else {
        assert(x@ =~= x@.take(i as int));
        assert(y@ =~= y@.take(i as int));
        0
    }
}

/// With a common prefix of length `i`, the order is decided after it.
proof fn lemma_lex_prefix(a: Seq<char>, b: Seq<char>, i: int)
    requires
        0 <= i <= a.len(),
        i <= b.len(),
        a.take(i) == b.take(i),
    ensures
        lex_lt(a, b) == lex_lt(a.skip(i), b.skip(i)),
    decreases i,
{
    if i > 0 {
        assert(a[0] == a.take(i)[0]);
        assert(b[0] == b.take(i)[0]);
        assert(a.drop_first().take(i - 1) =~= a.take(i).drop_first());
        assert(b.drop_first().take(i - 1) =~= b.take(i).drop_first());
        lemma_lex_prefix(a.drop_first(), b.drop_first(), i - 1);
        assert(a.drop_first().skip(i - 1) =~= a.skip(i));
        assert(b.drop_first().skip(i - 1) =~= b.skip(i));
    } else {
        assert(a.skip(0) =~= a);
        assert(b.skip(0) =~= b);
    }
}

/// A string-valued map seen through its values' characters.
pub open spec fn text_view(m: Map<Seq<char>, String>) -> Map<Seq<char>, Seq<char>> {
    m.map_values(|s: String| s@)
}

pub broadcast proof fn lemma_text_view_insert(m: Map<Seq<char>, String>, k: Seq<char>, v: String)
    ensures
        #[trigger] text_view(m.insert(k, v)) == text_view(m).insert(k, v@),
{
    assert(text_view(m.insert(k, v)) =~= text_view(m).insert(k, v@));
}

pub broadcast proof fn lemma_text_view_union(a: Map<Seq<char>, String>, b: Map<Seq<char>, String>)
    ensures
        #[trigger] text_view(a.union_prefer_right(b)) == text_view(a).union_prefer_right(
            text_view(b),
        ),
{
    assert(text_view(a.union_prefer_right(b)) =~= text_view(a).union_prefer_right(text_view(b)));
}

pub broadcast proof fn lemma_text_view_empty()
    ensures
        #[trigger] text_view(Map::<Seq<char>, String>::empty()) == Map::<Seq<char>, Seq<char>>::empty(),
{
    assert(text_view(Map::<Seq<char>, String>::empty()) =~= Map::<Seq<char>, Seq<char>>::empty());
}

/// Keys in strictly ascending order.
pub open spec fn strictly_sorted(ks: Seq<Seq<char>>) -> bool {
    forall|i: int, j: int| 0 <= i < j < ks.len() ==> lex_lt(#[trigger] ks[i], #[trigger] ks[j])
}

/// A map from strings to `V` whose entries are kept in ascending key order.
#[derive(Debug)]
pub struct StrMap<V> {
    entries: Vec<(String, V)>,
}

impl<V> StrMap<V> {
    /// The keys in iteration (ascending) order.
    pub closed spec fn key_seq(&self) -> Seq<Seq<char>> {
        self.entries@.map_values(|e: (String, V)| e.0@)
    }

    /// The values, aligned with [`Self::key_seq`].
    pub closed spec fn val_seq(&self) -> Seq<V> {
        self.entries@.map_values(|e: (String, V)| e.1)
    }

    #[verifier::type_invariant]
    closed spec fn inv(self) -> bool {
        strictly_sorted(self.key_seq())
    }

    /// The map from keys to values.
    pub open spec fn view(&self) -> Map<Seq<char>, V> {
        Map::new(
            |k: Seq<char>| self.key_seq().contains(k),
            |k: Seq<char>| self.val_seq()[self.key_seq().index_of(k)],
        )
    }

    /// Keys ascend strictly (the type's invariant, as a predicate).
    pub open spec fn sorted(&self) -> bool {
        strictly_sorted(self.key_seq())
    }

    /// What follows from ascending keys: values align with keys, each key
    /// once, and the domain is the key set.
    pub proof fn lemma_sorted_facts(&self)
        requires
            self.sorted(),
        ensures
            self.key_seq().len() == self.val_seq().len(),
            self.key_seq().no_duplicates(),
            forall|i: int|
                0 <= i < self.key_seq().len() ==> #[trigger] self@.contains_key(
                    self.key_seq()[i],
                ) && self@[self.key_seq()[i]] == self.val_seq()[i],
            self@.dom() == self.key_seq().to_set(),
    {
        self.lemma_keys();
    }

    /// Facts that every map satisfies: keys ascend, values align with keys.
    /// (Runs no code; brings the type's invariant into the caller's proof.)
    pub fn wf_facts(&self)
        ensures
            self.sorted(),
            strictly_sorted(self.key_seq()),
            self.key_seq().len() == self.val_seq().len(),
            self.key_seq().no_duplicates(),
            forall|i: int|
                0 <= i < self.key_seq().len() ==> #[trigger] self@.contains_key(
                    self.key_seq()[i],
                ) && self@[self.key_seq()[i]] == self.val_seq()[i],
            self@.dom() == self.key_seq().to_set(),
    {
        proof {
            use_type_invariant(self);
            self.lemma_keys(); 
        }
    }

    proof fn lemma_keys(&self)
        requires
            strictly_sorted(self.key_seq()),
        ensures
            self.key_seq().len() == self.val_seq().len(),
            self.key_seq().no_duplicates(),
            forall|i: int|
                0 <= i < self.key_seq().len() ==> #[trigger] self@.contains_key(
                    self.key_seq()[i],
                ) && self@[self.key_seq()[i]] == self.val_seq()[i],
            self@.dom() == self.key_seq().to_set(),
    {
        let ks = self.key_seq();
        assert forall|i: int, j: int| 0 <= i < ks.len() && 0 <= j < ks.len() && i != j implies ks[i]
            != ks[j] by {
            if i < j {
                assert(lex_lt(ks[i], ks[j]));
            } else {
                assert(lex_lt(ks[j], ks[i]));
            }
            lemma_lex_irrefl(ks[i]);
        }
        assert forall|i: int| 0 <= i < ks.len() implies #[trigger] self@.contains_key(ks[i])
            && self@[ks[i]] == self.val_seq()[i] by {
            assert(ks.contains(ks[i]));
            let j = ks.index_of(ks[i]);
            assert(ks[j] == ks[i]);
        }
        assert(self@.dom() =~= ks.to_set());
    }

    pub fn new() -> (m: Self)
        ensures
            m@ == Map::<Seq<char>, V>::empty(),
            m.key_seq().len() == 0,
    {
        let m = StrMap { entries: Vec::new() };
        assert(m@ =~= Map::<Seq<char>, V>::empty());
        m
    }

    pub fn len(&self) -> (n: usize)
        ensures
            n == self.key_seq().len(),
            n == self.val_seq().len(),
    {
        self.entries.len()
    }

    pub fn is_empty(&self) -> (b: bool)
        ensures
            b == (self@.dom().len() == 0),
            b == (self.key_seq().len() == 0),
    {
        self.wf_facts();
        proof {
            self.key_seq().unique_seq_to_set();
        }
        self.entries.len() == 0
    }

    /// The key at position `i` in ascending order.
    pub fn key_at(&self, i: usize) -> (k: &String)
        requires
            i < self.key_seq().len(),
        ensures
            k@ == self.key_seq()[i as int],
    {
        &self.entries[i].0
    }

    /// The value at position `i` in ascending key order.
    pub fn value_at(&self, i: usize) -> (v: &V)
        requires
            i < self.key_seq().len(),
        ensures
            *v == self.val_seq()[i as int],
    {
        &self.entries[i].1
    }

    /// Position of `key`, if present.
    pub fn position(&self, key: &str) -> (r: Option<usize>)
        ensures
            match r {
                Some(i) => i < self.key_seq().len() && self.key_seq()[i as int] == key@,
                None => !self@.contains_key(key@),
            },
    {
        let mut i: usize = 0;
        while i < self.entries.len()
            invariant
                i <= self.entries@.len(),
                forall|k: int| 0 <= k < i ==> self.key_seq()[k] != key@,
            decreases self.entries@.len() - i,
        {
            if lex_order(self.entries[i].0.as_str(), key) == 0 {
                return Some(i);
            }
            i = i + 1;
        }
        proof {
            if self.key_seq().contains(key@) {
                let j = self.key_seq().index_of(key@);
                assert(self.key_seq()[j] == key@);
            }
        }
        None
    }

    pub fn contains_key(&self, key: &str) -> (b: bool)
        ensures
            b == self@.contains_key(key@),
    {
        match self.position(key) {
            Some(i) => {
                assert(self.key_seq().contains(self.key_seq()[i as int]));
                true
            },
            None => false,
        }
    }

    pub fn get(&self, key: &str) -> (r: Option<&V>)
        ensures
            match r {
                Some(v) => self@.contains_key(key@) && *v == self@[key@],
                None => !self@.contains_key(key@),
            },
    {
        match self.position(key) {
            Some(i) => {
                self.wf_facts();
                Some(&self.entries[i].1)
            },
            None => None,
        }
    }

    /// Where `key` sits: its position, or the position it would take.
    fn locate(&self, key: &str) -> (r: (usize, bool))
        ensures
            r.0 <= self.key_seq().len(),
            forall|k: int| 0 <= k < r.0 ==> lex_lt(#[trigger] self.key_seq()[k], key@),
            r.1 ==> r.0 < self.key_seq().len() && self.key_seq()[r.0 as int] == key@,
            !r.1 ==> r.0 == self.key_seq().len() || lex_lt(key@, self.key_seq()[r.0 as int]),
    {
        let mut i: usize = 0;
        while i < self.entries.len()
            invariant
                i <= self.entries@.len(),
                forall|k: int| 0 <= k < i ==> lex_lt(#[trigger] self.key_seq()[k], key@),
            decreases self.entries@.len() - i,
        {
            let c = lex_order(self.entries[i].0.as_str(), key);
            if c == 0 {
                return (i, true);
            }
            if c > 0 {
                return (i, false);
            }
            i = i + 1;
        }
        (i, false)
    }

    /// Inserts or replaces the value under `key`.
    pub fn insert(&mut self, key: String, value: V)
        ensures
            final(self)@ == old(self)@.insert(key@, value),
    {
        proof {
            use_type_invariant(&*self);
            self.lemma_keys();
        }
        let ghost ks = self.key_seq();
        let ghost vs = self.val_seq();
        let ghost kk = key@;
        let (i, found) = self.locate(key.as_str());
        let mut entries = Vec::new();
        std::mem::swap(&mut entries, &mut self.entries);
        assert(entries@.map_values(|e: (String, V)| e.0@) == ks);
        if found {
            entries.set(i, (key, value));
            let ghost nk = entries@.map_values(|e: (String, V)| e.0@);
            assert(nk =~= ks);
            *self = StrMap { entries };
            proof {
                assert(self.val_seq() =~= vs.update(i as int, value));
                self.lemma_keys();
                assert(self@ =~= old(self)@.insert(kk, value));
            }
        } else {
            entries.insert(i, (key, value));
            let ghost nk = entries@.map_values(|e: (String, V)| e.0@);
            proof {
                assert(nk =~= ks.insert(i as int, kk));
                assert forall|a: int, b: int| 0 <= a < b < nk.len() implies lex_lt(
                    #[trigger] nk[a],
                    #[trigger] nk[b],
                ) by {
                    if b < i {
                    } else if a < i && b == i {
                    } else if a < i && b > i {
                        lemma_lex_trans(ks[a], kk, ks[b - 1]);
                    } else if a == i {
                        if b - 1 > i {
                            lemma_lex_trans(kk, ks[i as int], ks[b - 1]);
                        }
                    } else {
                    }
                }
            }
            *self = StrMap { entries };
            proof {
                assert(self.key_seq() =~= nk);
                assert(self.val_seq() =~= vs.insert(i as int, value));
                self.lemma_keys();
                assert(!ks.contains(kk)) by {
                    if ks.contains(kk) {
                        let j = ks.index_of(kk);
                        if j < i {
                            lemma_lex_irrefl(kk);
                        } else if j == i {
                            lemma_lex_irrefl(kk);
                        } else {
                            lemma_lex_trans(kk, ks[i as int], ks[j]);
                            lemma_lex_irrefl(kk);
                        }
                    }
                }
                assert(self@ =~= old(self)@.insert(kk, value)) by {
                    assert forall|k: Seq<char>| #[trigger] self@.contains_key(k) implies old(
                        self,
                    )@.insert(kk, value).contains_key(k) && self@[k] == old(self)@.insert(
                        kk,
                        value,
                    )[k] by {
                        let j = nk.index_of(k);
                        if j < i {
                            assert(ks[j] == k);
                        } else if j > i {
                            assert(ks[j - 1] == k);
                        }
                    }
                    assert forall|k: Seq<char>|
                        old(self)@.insert(kk, value).contains_key(k) implies #[trigger] self@.contains_key(k) by {
                        if k != kk {
                            let j = ks.index_of(k);
                            if j < i {
                                assert(nk[j] == k);
                            } else {
                                assert(nk[j + 1] == k);
                            }
                        } else {
                            assert(nk[i as int] == kk);
                        }
                    }
                }
            }
        }
    }

    /// Removes the entry under `key`, if there is one.
    pub fn remove(&mut self, key: &str)
        ensures
            final(self)@ == old(self)@.remove(key@),
    {
        proof {
            use_type_invariant(&*self);
            self.lemma_keys();
        }
        let ghost ks = self.key_seq();
        let ghost vs = self.val_seq();
        match self.position(key) {
            None => {
                assert(self@ =~= old(self)@.remove(key@));
            },
            Some(i) => {
                let mut entries = Vec::new();
                std::mem::swap(&mut entries, &mut self.entries);
                assert(entries@.map_values(|e: (String, V)| e.0@) == ks);
                let _ = entries.remove(i);
                let ghost nk = entries@.map_values(|e: (String, V)| e.0@);
                proof {
                    assert(nk =~= ks.remove(i as int));
                    assert forall|a: int, b: int| 0 <= a < b < nk.len() implies lex_lt(
                        #[trigger] nk[a],
                        #[trigger] nk[b],
                    ) by {
                        if b < i {
                        } else if a < i {
                            assert(nk[b] == ks[b + 1]);
                        } else {
                            assert(nk[a] == ks[a + 1]);
                            assert(nk[b] == ks[b + 1]);
                        }
                    }
                }
                *self = StrMap { entries };
                proof {
                    assert(self.key_seq() =~= nk);
                    assert(self.val_seq() =~= vs.remove(i as int));
                    self.lemma_keys();
                    assert(self@ =~= old(self)@.remove(key@)) by {
                        assert forall|k: Seq<char>| #[trigger] self@.contains_key(k) implies old(
                            self,
                        )@.remove(key@).contains_key(k) && self@[k] == old(self)@.remove(key@)[k] by {
                            let j = nk.index_of(k);
                            if j < i {
                                assert(ks[j] == k);
                            } else {
                                assert(ks[j + 1] == k);
                            }
                        }
                        assert forall|k: Seq<char>|
                            old(self)@.remove(key@).contains_key(k) implies #[trigger] self@.contains_key(k) by {
                            let j = ks.index_of(k);
                            if j < i {
                                assert(nk[j] == k);
                            } else {
                                assert(j != i);
                                assert(nk[j - 1] == k);
                            }
                        }
                    }
                }
            },
        }
    }

    /// The keys, in ascending order.
    pub fn keys(&self) -> (r: Vec<String>)
        ensures
            r@.map_values(|k: String| k@) == self.key_seq(),
    {
        let mut r: Vec<String> = Vec::new();
        let mut i: usize = 0;
        while i < self.entries.len()
            invariant
                i <= self.entries@.len(),
                r@.map_values(|k: String| k@) == self.key_seq().take(i as int),
            decreases self.entries@.len() - i,
        {
            let k = self.entries[i].0.clone();
            assert(k@ == self.key_seq()[i as int]);
            let ghost before = r@;
            r.push(k);
            proof {
                assert(r@ == before.push(k));
                assert(r@.map_values(|k: String| k@) =~= before.map_values(|k: String| k@).push(
                    k@,
                ));
                assert(self.key_seq().take(i + 1) =~= self.key_seq().take(i as int).push(
                    self.key_seq()[i as int],
                ));
            }
            i = i + 1;
        }
        assert(self.key_seq().take(i as int) =~= self.key_seq());
        r
    }

}

impl StrMap<String> {
    /// Inserts every entry of `other`, whose values win on shared keys.
    pub fn extend_from(&mut self, other: &StrMap<String>)
        ensures
            final(self)@ == old(self)@.union_prefer_right(other@),
    {
        other.wf_facts();
        let mut i: usize = 0;
        let ghost start = self@;
        while i < other.len()
            invariant
                i <= other.key_seq().len(),
                other.key_seq().len() == other.val_seq().len(),
                forall|j: int|
                    0 <= j < other.key_seq().len() ==> #[trigger] other@.contains_key(
                        other.key_seq()[j],
                    ) && other@[other.key_seq()[j]] == other.val_seq()[j],
                self@ == start.union_prefer_right(
                    other@.restrict(other.key_seq().take(i as int).to_set()),
                ),
            decreases other.key_seq().len() - i,
        {
            let k = other.key_at(i).clone();
            let v = other.value_at(i).clone();
            self.insert(k, v);
            i = i + 1;
            proof {
                assert(other.key_seq().take(i as int) =~= other.key_seq().take(i - 1).push(other.key_seq()[i - 1]));
                other.key_seq().take(i - 1).lemma_push_to_set_commute(other.key_seq()[i - 1]);
                assert(self@ =~= start.union_prefer_right(
                    other@.restrict(other.key_seq().take(i as int).to_set()),
                ));
            }
        }
        proof {
            assert(other.key_seq().take(i as int) =~= other.key_seq());
            assert(other@.dom() =~= other.key_seq().to_set()) by {
                assert forall|k: Seq<char>| other@.dom().contains(k) <==> other.key_seq().to_set().contains(k) by {}
            }
            assert(other@.restrict(other.key_seq().to_set()) =~= other@);
        }
    }

    /// An independent copy with the same entries.
    pub fn dup(&self) -> (r: StrMap<String>)
        ensures
            r@ == self@,
    {
        let mut r: StrMap<String> = StrMap::new();
        r.extend_from(self);
        assert(r@ =~= self@);
        r
    }
}

} // verus!
