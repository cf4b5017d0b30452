//! Reliable ranges ("strikes") of a score sequence, and the choice of the
//! best candidate among them.
use vstd::prelude::*;

use std::ops::Range;

use crate::sample::{is_present, rate_of, Sample};

verus! {

/// Index `i` lies in the range, whose end is inclusive.
pub open spec fn in_strike(r: Range<usize>, i: int) -> bool {
    r.start <= i <= r.end
}

/// A range of indices whose scores are all present.
pub open spec fn is_reliable(s: Seq<Sample>, r: Range<usize>) -> bool {
    &&& r.start <= r.end < s.len()
    &&& forall|i: int| #[trigger] in_strike(r, i) ==> is_present(s[i])
}

/// A reliable range that cannot be extended on either side.
pub open spec fn is_strike(s: Seq<Sample>, r: Range<usize>) -> bool {
    &&& is_reliable(s, r)
    &&& (r.start == 0 || !is_present(s[r.start - 1]))
    &&& (r.end + 1 == s.len() || !is_present(s[r.end + 1]))
}

/// `rs` lists, left to right, every maximal run of present scores of `s`.
pub open spec fn strikes_of(s: Seq<Sample>, rs: Seq<Range<usize>>) -> bool {
    &&& forall|k: int| 0 <= k < rs.len() ==> is_strike(s, #[trigger] rs[k])
    &&& forall|j: int, k: int| 0 <= j < k < rs.len() ==> #[trigger] rs[j].end < #[trigger] rs[k].start
    &&& forall|i: int|
        0 <= i < s.len() && is_present(#[trigger] s[i]) ==> exists|k: int|
            0 <= k < rs.len() && in_strike(#[trigger] rs[k], i)
}

/// The maximal runs of present scores of `s`, left to right (unique, see
/// [`lemma_strikes_unique`]).
pub open spec fn strikes(s: Seq<Sample>) -> Seq<Range<usize>> {
    choose|rs: Seq<Range<usize>>| strikes_of(s, rs)
}

/// Finds the maximal ranges of present scores, left to right. Each range
/// holds its first and its last index.
pub fn find_strikes(array: &[Sample]) -> (r: Vec<Range<usize>>)
    ensures
        strikes_of(array@, r@),
        r@ == strikes(array@),
{
    let n = array.len();
    let mut found: Vec<Range<usize>> = Vec::new();
    let mut start: Option<usize> = None;
    let mut index: usize = 0;
    while index < n
        invariant
            n == array@.len(),
            index <= n,
            forall|k: int| 0 <= k < found@.len() ==> is_strike(array@, #[trigger] found@[k]),
            forall|j: int, k: int|
                0 <= j < k < found@.len() ==> #[trigger] found@[j].end < #[trigger] found@[k].start,
            forall|k: int| 0 <= k < found@.len() ==> #[trigger] found@[k].end + 1 < index,
            start matches Some(st) ==> {
                &&& st < index
                &&& (st == 0 || !is_present(array@[st - 1]))
                &&& forall|i: int| st <= i < index ==> is_present(#[trigger] array@[i])
                &&& forall|k: int| 0 <= k < found@.len() ==> #[trigger] found@[k].end + 1 < st
            },
            start is None ==> index == 0 || !is_present(array@[index - 1]),
            forall|i: int|
                0 <= i < index && is_present(#[trigger] array@[i]) ==> (start matches Some(st) && st
                    <= i) || exists|k: int| 0 <= k < found@.len() && in_strike(#[trigger] found@[k], i),
        decreases n - index,
    {
        let ghost before = found@;
        if let Sample::Missing = array[index] {
            if let Some(index_start) = start {
                found.push(Range { start: index_start, end: index - 1 });
                start = None;
                assert forall|i: int|
                    0 <= i < index + 1 && is_present(#[trigger] array@[i]) implies exists|k: int|
                    0 <= k < found@.len() && in_strike(#[trigger] found@[k], i) by {
                    if index_start <= i {
                        assert(in_strike(found@[before.len() as int], i));
                    } else {
                        let k = choose|k: int| 0 <= k < before.len() && in_strike(#[trigger] before[k], i);
                        assert(found@[k] == before[k]);
                    }
                }
            } else {
                assert forall|i: int|
                    0 <= i < index + 1 && is_present(#[trigger] array@[i]) implies exists|k: int|
                    0 <= k < found@.len() && in_strike(#[trigger] found@[k], i) by {
                    let k = choose|k: int| 0 <= k < before.len() && in_strike(#[trigger] before[k], i);
                }
            }
        } else {
            if start.is_none() {
                start = Some(index);
            }
        }
        index = index + 1;
    }
    if let Some(index_start) = start {
        let ghost before = found@;
        found.push(Range { start: index_start, end: n - 1 });
        assert forall|i: int|
            0 <= i < n && is_present(#[trigger] array@[i]) implies exists|k: int|
            0 <= k < found@.len() && in_strike(#[trigger] found@[k], i) by {
            if index_start <= i {
                assert(in_strike(found@[before.len() as int], i));
            } else {
                let k = choose|k: int| 0 <= k < before.len() && in_strike(#[trigger] before[k], i);
                assert(found@[k] == before[k]);
            }
        }
    }
    proof {
        assert(strikes_of(array@, found@));
        lemma_strikes_unique(array@, found@, strikes(array@));
    }
    found
}

/// Two maximal ranges that share an index are the same range.
proof fn lemma_same_strike(s: Seq<Sample>, x: Range<usize>, y: Range<usize>, i: int)
    requires
        is_strike(s, x),
        is_strike(s, y),
        in_strike(x, i),
        in_strike(y, i),
    ensures
        x == y,
{
    if x.start < y.start {
        assert(in_strike(x, y.start - 1));
    }
    if y.start < x.start {
        assert(in_strike(y, x.start - 1));
    }
    if x.end < y.end {
        assert(in_strike(y, x.end + 1));
    }
    if y.end < x.end {
        assert(in_strike(x, y.end + 1));
    }
}

proof fn lemma_strikes_agree(s: Seq<Sample>, a: Seq<Range<usize>>, b: Seq<Range<usize>>, k: int)
    requires
        strikes_of(s, a),
        strikes_of(s, b),
        0 <= k < a.len(),
        k < b.len(),
    ensures
        a[k] == b[k],
    decreases k,
{
    assert forall|j: int| 0 <= j < k implies a[j] == b[j] by {
        lemma_strikes_agree(s, a, b, j);
    }
    let i = a[k].start as int;
    assert(is_strike(s, a[k]));
    assert(in_strike(a[k], i));
    assert(is_present(s[i]));
    let m = choose|m: int| 0 <= m < b.len() && in_strike(#[trigger] b[m], i);
    assert(is_strike(s, b[m]));
    lemma_same_strike(s, a[k], b[m], i);
    if m < k {
        assert(a[m] == b[m]);
        assert(a[m].end < a[k].start);
    } else if m > k {
        let i2 = b[k].start as int;
        assert(is_strike(s, b[k]));
        assert(in_strike(b[k], i2));
        assert(is_present(s[i2]));
        let p = choose|p: int| 0 <= p < a.len() && in_strike(#[trigger] a[p], i2);
        assert(is_strike(s, a[p]));
        lemma_same_strike(s, a[p], b[k], i2);
        if p < k {
            assert(a[p] == b[p]);
            assert(b[p].end < b[k].start);
        } else if p > k {
            assert(a[k].end < a[p].start);
            assert(b[k].end < b[m].start);
        }
    }
}

/// The ranges of a sequence are determined by it: two lists that both
/// describe its maximal runs of present scores are equal.
pub proof fn lemma_strikes_unique(s: Seq<Sample>, a: Seq<Range<usize>>, b: Seq<Range<usize>>)
    requires
        strikes_of(s, a),
        strikes_of(s, b),
    ensures
        a == b,
{
    if a.len() > b.len() {
        let k = b.len() as int;
        let i = a[k].start as int;
        assert(is_strike(s, a[k]));
        assert(in_strike(a[k], i));
        assert(is_present(s[i]));
        let m = choose|m: int| 0 <= m < b.len() && in_strike(#[trigger] b[m], i);
        assert(is_strike(s, b[m]));
        lemma_same_strike(s, a[k], b[m], i);
        lemma_strikes_agree(s, a, b, m);
        assert(a[m].end < a[k].start);
    }
    if b.len() > a.len() {
        let k = a.len() as int;
        let i = b[k].start as int;
        assert(is_strike(s, b[k]));
        assert(in_strike(b[k], i));
        assert(is_present(s[i]));
        let m = choose|m: int| 0 <= m < a.len() && in_strike(#[trigger] a[m], i);
        assert(is_strike(s, a[m]));
        lemma_same_strike(s, b[k], a[m], i);
        lemma_strikes_agree(s, a, b, m);
        assert(b[m].end < b[k].start);
    }
    assert forall|k: int| 0 <= k < a.len() implies a[k] == b[k] by {
        lemma_strikes_agree(s, a, b, k);
    }
    assert(a =~= b);
}

/// The representative of a range: of the two indices nearest its midpoint
/// (the floor and the ceiling of `(start + end) / 2`), the one with the lower
/// score; the ceiling on a tie.
pub open spec fn representative(s: Seq<Sample>, r: Range<usize>) -> int {
    let lo = (r.start + r.end) / 2;
    let hi = (r.start + r.end + 1) / 2;
    if rate_of(s[lo]) < rate_of(s[hi]) {
        lo
    } else {
        hi
    }
}

/// Range `k` of `rs` has the lowest representative score, and every later
/// range a strictly higher one.
pub open spec fn is_best(s: Seq<Sample>, rs: Seq<Range<usize>>, k: int) -> bool {
    &&& 0 <= k < rs.len()
    &&& forall|j: int|
        0 <= j < rs.len() ==> rate_of(s[representative(s, #[trigger] rs[j])]) >= rate_of(
            s[representative(s, rs[k])],
        )
    &&& forall|j: int|
        k < j < rs.len() ==> rate_of(s[representative(s, #[trigger] rs[j])]) > rate_of(
            s[representative(s, rs[k])],
        )
}

/// Picks the representative of a reliable range.
pub fn pick_in_range(scores: &[Sample], range: &Range<usize>) -> (r: usize)
    requires
        is_reliable(scores@, *range),
    ensures
        r == representative(scores@, *range),
        in_strike(*range, r as int),
{
    let lo = range.start + (range.end - range.start) / 2;
    let hi = lo + (range.end - range.start) % 2;
    assert(in_strike(*range, lo as int) && in_strike(*range, hi as int));
    match (scores[lo], scores[hi]) {
        (Sample::Rate(a), Sample::Rate(b)) => if a < b {
            lo
        } else {
            hi
        },
        _ => hi,
    }
}

/// Chooses the best candidate: the representative of each range, ranked by
/// score from worst to best, the last one. Among equal scores the later
/// range wins. `None` when there is no range.
pub fn select_best(scores: &[Sample], strikes: &[Range<usize>]) -> (r: Option<usize>)
    requires
        forall|k: int| 0 <= k < strikes@.len() ==> is_reliable(scores@, #[trigger] strikes@[k]),
    ensures
        r is None <==> strikes@.len() == 0,
        r matches Some(i) ==> exists|k: int|
            is_best(scores@, strikes@, k) && i == representative(scores@, #[trigger] strikes@[k]),
        r matches Some(i) ==> i < scores@.len() && is_present(scores@[i as int]),
{
    if strikes.len() == 0 {
        return None;
    }
    let mut best_k: usize = 0;
    let mut best: usize = pick_in_range(scores, &strikes[0]);
    let mut k: usize = 1;
    while k < strikes.len()
        invariant
            1 <= k <= strikes@.len(),
            best_k < k,
            forall|j: int| 0 <= j < strikes@.len() ==> is_reliable(scores@, #[trigger] strikes@[j]),
            best == representative(scores@, strikes@[best_k as int]),
            in_strike(strikes@[best_k as int], best as int),
            is_best(scores@, strikes@.subrange(0, k as int), best_k as int),
        decreases strikes.len() - k,
    {
        let candidate = pick_in_range(scores, &strikes[k]);
        let ghost prefix = strikes@.subrange(0, k + 1);
        assert(is_present(scores@[best as int]) && is_present(scores@[candidate as int]));
        if rate(scores[candidate]) <= rate(scores[best]) {
            best_k = k;
            best = candidate;
        }
        assert(is_best(scores@, prefix, best_k as int)) by {
            assert forall|j: int| 0 <= j < prefix.len() implies #[trigger] prefix[j] == strikes@[j] by {}
        }
        k = k + 1;
    }
    assert(strikes@.subrange(0, k as int) =~= strikes@);
    Some(best)
}

/// The rate of a present sample.
fn rate(s: Sample) -> (r: u64)
    requires
        is_present(s),
    ensures
        r == rate_of(s),
{
    match s {
        Sample::Rate(v) => v,
        Sample::Missing => 0,
    }
}

/// A sequence with no present score has no range.
pub proof fn lemma_all_missing(s: Seq<Sample>, rs: Seq<Range<usize>>)
    requires
        strikes_of(s, rs),
        forall|i: int| 0 <= i < s.len() ==> !is_present(#[trigger] s[i]),
    ensures
        rs.len() == 0,
{
    if rs.len() > 0 {
        assert(is_strike(s, rs[0]));
        assert(in_strike(rs[0], rs[0].start as int));
    }
}

/// A non-empty sequence with every score present has exactly one range,
/// which spans it.
pub proof fn lemma_none_missing(s: Seq<Sample>, rs: Seq<Range<usize>>)
    requires
        strikes_of(s, rs),
        s.len() > 0,
        forall|i: int| 0 <= i < s.len() ==> is_present(#[trigger] s[i]),
    ensures
        rs.len() == 1,
        rs[0].start == 0,
        rs[0].end == s.len() - 1,
{
    assert(is_present(s[0]));
    let k = choose|k: int| 0 <= k < rs.len() && in_strike(#[trigger] rs[k], 0);
    assert(is_strike(s, rs[k]));
    if rs[k].end + 1 < s.len() {
        assert(is_present(s[rs[k].end + 1]));
    }
    if k > 0 {
        assert(rs[0].end < rs[k].start);
    }
    if rs.len() > k + 1 {
        assert(rs[k].end < rs[k + 1].start);
        assert(is_strike(s, rs[k + 1]));
    }
}

/// A candidate whose score is missing lies in no range and is the
/// representative of none.
pub proof fn lemma_missing_excluded(s: Seq<Sample>, rs: Seq<Range<usize>>, i: int)
    requires
        strikes_of(s, rs),
        0 <= i < s.len(),
        !is_present(s[i]),
    ensures
        forall|k: int| 0 <= k < rs.len() ==> !in_strike(#[trigger] rs[k], i) && representative(s, rs[k]) != i,
{
    assert forall|k: int| 0 <= k < rs.len() implies !in_strike(#[trigger] rs[k], i) && representative(s, rs[k]) != i by {
        assert(is_strike(s, rs[k]));
        let r = rs[k];
        let lo = (r.start + r.end) / 2;
        let hi = (r.start + r.end + 1) / 2;
        assert(in_strike(r, lo) && in_strike(r, hi));
    }
}

} // verus!
