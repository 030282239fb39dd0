//! "Did you mean" suggestions: the closest candidate within edit distance 2.

use vstd::prelude::*;

use crate::text::string_views;

verus! {

/// The Levenshtein edit distance between two character sequences: the
/// fewest single-character insertions, deletions and substitutions that turn
/// `a` into `b`.
pub open spec fn levenshtein(a: Seq<char>, b: Seq<char>) -> nat
    decreases a.len() + b.len(),
{
    if a.len() == 0 {
        b.len()
    } else if b.len() == 0 {
        a.len()
    } else {
        let sub = levenshtein(a.drop_last(), b.drop_last()) + if a.last() == b.last() {
            0nat
        } else {
            1nat
        };
        let del = levenshtein(a.drop_last(), b) + 1;
        let ins = levenshtein(a, b.drop_last()) + 1;
        if sub <= del && sub <= ins {
            sub
        } else if del <= ins {
            del
        } else {
            ins
        }
    }
}

/// `strsim::levenshtein`: the Levenshtein distance of the two strings,
/// counted over chars.
#[verifier::external_body]
fn edit_distance(a: &str, b: &str) -> (d: usize)
    ensures
        d == levenshtein(a@, b@),
{
    strsim::levenshtein(a, b)
}

/// The largest distance a suggestion may have.
pub const MAX_SUGGESTION_DISTANCE: usize = 2;

/// Index `k` holds the smallest distance of at most 2, and no earlier index
/// holds a distance that small.
pub open spec fn is_closest(ds: Seq<usize>, k: int) -> bool {
    &&& 0 <= k < ds.len()
    &&& ds[k] <= MAX_SUGGESTION_DISTANCE
    &&& forall|j: int| 0 <= j < ds.len() ==> ds[k] <= #[trigger] ds[j] || ds[j] > MAX_SUGGESTION_DISTANCE
    &&& forall|j: int| 0 <= j < k ==> ds[k] < #[trigger] ds[j]
}

/// No distance is within the suggestion limit.
pub open spec fn none_close(ds: Seq<usize>) -> bool {
    forall|j: int| 0 <= j < ds.len() ==> #[trigger] ds[j] > MAX_SUGGESTION_DISTANCE
}

/// Picks the first index with the smallest distance of at most 2.
pub fn pick_closest(ds: &Vec<usize>) -> (r: Option<usize>)
    ensures
        match r {
            Some(k) => is_closest(ds@, k as int),
            None => none_close(ds@),
        },
{
    let mut best: Option<usize> = None;
    let mut i: usize = 0;
    while i < ds.len()
        invariant
            i <= ds@.len(),
            match best {
                Some(k) => k < i && ds@[k as int] <= MAX_SUGGESTION_DISTANCE && (forall|j: int|
                    0 <= j < i ==> ds@[k as int] <= #[trigger] ds@[j] || ds@[j]
                        > MAX_SUGGESTION_DISTANCE) && (forall|j: int|
                    0 <= j < k ==> ds@[k as int] < #[trigger] ds@[j]),
                None => forall|j: int| 0 <= j < i ==> #[trigger] ds@[j] > MAX_SUGGESTION_DISTANCE,
            },
        decreases ds@.len() - i,
    {
        let d = ds[i];
        if d <= MAX_SUGGESTION_DISTANCE {
            match best {
                Some(k) => {
                    if d < ds[k] {
                        best = Some(i);
                    }
                },
                None => {
                    best = Some(i);
                },
            }
        }
        i = i + 1;
    }
    best
}

/// The edit distances of `got` to each candidate.
pub open spec fn distances(got: Seq<char>, cands: Seq<Seq<char>>) -> Seq<usize> {
    Seq::new(cands.len(), |j: int| levenshtein(got, cands[j]) as usize)
}

/// Index of the first candidate closest to `got` within edit distance 2.
pub fn closest_candidate(got: &str, cands: &Vec<String>) -> (r: Option<usize>)
    ensures
        match r {
            Some(k) => is_closest(distances(got@, string_views(cands@)), k as int),
            None => none_close(distances(got@, string_views(cands@))),
        },
{
    let mut ds: Vec<usize> = Vec::new();
    let mut i: usize = 0;
    while i < cands.len()
        invariant
            i <= cands@.len(),
            ds@ =~= distances(got@, string_views(cands@)).take(i as int),
        decreases cands@.len() - i,
    {
        let d = edit_distance(got, cands[i].as_str());
        ds.push(d);
        i = i + 1;
    }
    assert(ds@ =~= distances(got@, string_views(cands@)));
    pick_closest(&ds)
}

} // verus!
