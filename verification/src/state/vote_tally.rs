//! Tally of the participants' votes for the number of winners.
//!
//! Each revealed participant adds a vote weighted by its tickets; the tally
//! also keeps the earliest attestation time behind each count, so that the
//! selected count does not depend on the order or batching of reveals.
use vstd::prelude::*;
use crate::address::Address;

verus! {

/// Weighted votes by winner count.
#[derive(Debug, Clone)]
pub struct VoteTally {
    /// The lottery of the tally.
    pub lottery: Address,
    /// Largest winner count tracked.
    pub max_winners: u64,
    /// Attested participants expected.
    pub total_attested: u64,
    /// Participants processed so far.
    pub processed_count: u64,
    /// Total vote weight of each count `1..=max_winners` (index 0 unused).
    pub weights: Vec<u128>,
    /// Earliest attestation time behind each count (index 0 unused).
    pub first_seen: Vec<i64>,
}

/// `a + b` saturating at `u128::MAX`.
pub open spec fn sat_add_u128(a: u128, b: u128) -> u128 {
    if a + b > u128::MAX {
        u128::MAX
    } else {
        (a + b) as u128
    }
}

/// The weights after a vote for `count` with `weight`: unchanged unless the
/// count is a valid index `1..=max_winners` of the weights.
pub open spec fn weights_after_vote(weights: Seq<u128>, max_winners: u64, count: u64, weight: u128) -> Seq<u128> {
    if count == 0 || count > max_winners || count >= weights.len() {
        weights
    } else {
        weights.update(count as int, sat_add_u128(weights[count as int], weight))
    }
}

/// The earliest-attestation times after a vote for `count` attested at
/// `attested_at`.
pub open spec fn first_seen_after_vote(
    weights: Seq<u128>,
    first_seen: Seq<i64>,
    max_winners: u64,
    count: u64,
    attested_at: i64,
) -> Seq<i64> {
    if count == 0 || count > max_winners || count >= weights.len() {
        first_seen
    } else if attested_at < first_seen[count as int] {
        first_seen.update(count as int, attested_at)
    } else {
        first_seen
    }
}

/// Whether the candidate `(weight, time, count)` beats the current best:
/// more weight, or equal weight and an earlier time, or equal weight and
/// time and a smaller count.
pub open spec fn beats(weight: u128, time: i64, count: u64, best_weight: u128, best_time: i64, best_count: u64) -> bool {
    weight > best_weight || (weight == best_weight && time < best_time) || (weight == best_weight && time
        == best_time && count < best_count)
}

/// The best `(count, weight, time)` among the counts `1..=upto` that have
/// weight, starting from `(1, 0, i64::MAX)`; counts outside the weights are
/// skipped.
pub open spec fn tally_scan(weights: Seq<u128>, first_seen: Seq<i64>, upto: nat) -> (u64, u128, i64)
    decreases upto,
{
    if upto == 0 {
        (1, 0, i64::MAX)
    } else {
        let prev = tally_scan(weights, first_seen, (upto - 1) as nat);
        if upto >= weights.len() || weights[upto as int] == 0 {
            prev
        } else {
            let w = weights[upto as int];
            let t = if upto < first_seen.len() {
                first_seen[upto as int]
            } else {
                i64::MAX
            };
            if beats(w, t, upto as u64, prev.1, prev.2, prev.0) {
                (upto as u64, w, t)
            } else {
                prev
            }
        }
    }
}

/// The selected number of winners: 1 for at most one participant;
/// otherwise the best count up to `min(max_winners, participants_count - 1)`,
/// or 1 when no such count has any weight.
pub open spec fn selected_winners_of(
    weights: Seq<u128>,
    first_seen: Seq<i64>,
    max_winners: u64,
    participants_count: u64,
) -> u64 {
    if participants_count <= 1 {
        1
    } else {
        let max_count: u64 = if max_winners < (participants_count - 1) as u64 {
            max_winners
        } else {
            (participants_count - 1) as u64
        };
        let best = tally_scan(weights, first_seen, max_count as nat);
        if best.1 == 0 {
            1
        } else {
            best.0
        }
    }
}

proof fn lemma_scan_past_end(weights: Seq<u128>, first_seen: Seq<i64>, upto: nat, limit: nat)
    requires
        weights.len() > 0,
        limit == weights.len() - 1,
        upto >= limit,
    ensures
        tally_scan(weights, first_seen, upto) == tally_scan(weights, first_seen, limit),
    decreases upto,
{
    if upto > limit {
        lemma_scan_past_end(weights, first_seen, (upto - 1) as nat, limit);
    }
}

proof fn lemma_scan_empty(weights: Seq<u128>, first_seen: Seq<i64>, upto: nat)
    requires
        weights.len() == 0,
    ensures
        tally_scan(weights, first_seen, upto) == (1u64, 0u128, i64::MAX),
    decreases upto,
{
    if upto > 0 {
        lemma_scan_empty(weights, first_seen, (upto - 1) as nat);
    }
}

/// The scan's best weight is the largest weight among the scanned counts,
/// and it is the weight of the count the scan picked.
pub proof fn lemma_scan_is_max(weights: Seq<u128>, first_seen: Seq<i64>, upto: nat)
    requires
        weights.len() <= u64::MAX,
    ensures
        forall|c: int|
            1 <= c <= upto && c < weights.len() ==> #[trigger] weights[c] <= tally_scan(weights, first_seen, upto).1,
        tally_scan(weights, first_seen, upto).1 > 0 ==> {
            let best = tally_scan(weights, first_seen, upto);
            &&& 1 <= best.0 <= upto
            &&& (best.0 as int) < weights.len()
            &&& weights[best.0 as int] == best.1
        },
    decreases upto,
{
    if upto > 0 {
        lemma_scan_is_max(weights, first_seen, (upto - 1) as nat);
    }
}

/// The earliest attestation time recorded for count `c` (`i64::MAX` when
/// none is).
pub open spec fn time_of(first_seen: Seq<i64>, c: int) -> i64 {
    if c < first_seen.len() {
        first_seen[c]
    } else {
        i64::MAX
    }
}

/// No scanned count with weight beats the scan's pick, and the pick's time
/// is its recorded time.
proof fn lemma_scan_picks_best(weights: Seq<u128>, first_seen: Seq<i64>, upto: nat)
    requires
        weights.len() <= u64::MAX,
    ensures
        ({
            let best = tally_scan(weights, first_seen, upto);
            &&& best.1 > 0 ==> best.2 == time_of(first_seen, best.0 as int)
            &&& forall|c: int|
                1 <= c <= upto && c < weights.len() && #[trigger] weights[c] > 0 ==> !beats(
                    weights[c],
                    time_of(first_seen, c),
                    c as u64,
                    best.1,
                    best.2,
                    best.0,
                )
        }),
    decreases upto,
{
    if upto > 0 {
        lemma_scan_picks_best(weights, first_seen, (upto - 1) as nat);
        lemma_scan_is_max(weights, first_seen, (upto - 1) as nat);
    }
}

/// The selected number of winners is the best count by the vote: among the
/// counts that could be selected and have votes, none has more weight, none
/// with equal weight was attested earlier, and none with equal weight and
/// time is smaller.
pub proof fn lemma_selected_is_best(
    weights: Seq<u128>,
    first_seen: Seq<i64>,
    max_winners: u64,
    participants_count: u64,
    c: u64,
)
    requires
        participants_count > 1,
        1 <= c <= max_winners,
        c <= participants_count - 1,
        c < weights.len(),
        weights.len() <= u64::MAX,
        weights[c as int] > 0,
    ensures
        ({
            let s = selected_winners_of(weights, first_seen, max_winners, participants_count);
            &&& (s as int) < weights.len()
            &&& !beats(
                weights[c as int],
                time_of(first_seen, c as int),
                c,
                weights[s as int],
                time_of(first_seen, s as int),
                s,
            )
        }),
{
    let max_count: u64 = if max_winners < (participants_count - 1) as u64 {
        max_winners
    } else {
        (participants_count - 1) as u64
    };
    lemma_scan_is_max(weights, first_seen, max_count as nat);
    lemma_scan_picks_best(weights, first_seen, max_count as nat);
    assert(weights[c as int] > 0);
}

/// A vote adds its weight to its count: for a count `1..=max_winners`
/// within the weights, the count's weight grows by the vote's weight
/// (saturating at `u128::MAX`) and every other count's weight stays.
pub proof fn lemma_vote_adds_weight(weights: Seq<u128>, max_winners: u64, count: u64, weight: u128)
    requires
        1 <= count <= max_winners,
        count < weights.len(),
    ensures
        weights_after_vote(weights, max_winners, count, weight).len() == weights.len(),
        weights_after_vote(weights, max_winners, count, weight)[count as int] == (if weights[count as int] + weight
            > u128::MAX {
            u128::MAX
        } else {
            (weights[count as int] + weight) as u128
        }),
        forall|c: int|
            0 <= c < weights.len() && c != count ==> #[trigger] weights_after_vote(
                weights,
                max_winners,
                count,
                weight,
            )[c] == weights[c],
{
}

/// A vote keeps the earliest attestation behind its count: for a count
/// `1..=max_winners` within the weights and times, the count's time becomes
/// the earlier of its time and the vote's, and every other time stays.
pub proof fn lemma_vote_keeps_earliest_time(
    weights: Seq<u128>,
    first_seen: Seq<i64>,
    max_winners: u64,
    count: u64,
    attested_at: i64,
)
    requires
        1 <= count <= max_winners,
        count < weights.len(),
        count < first_seen.len(),
    ensures
        first_seen_after_vote(weights, first_seen, max_winners, count, attested_at).len() == first_seen.len(),
        first_seen_after_vote(weights, first_seen, max_winners, count, attested_at)[count as int] == (if attested_at
            < first_seen[count as int] {
            attested_at
        } else {
            first_seen[count as int]
        }),
        forall|c: int|
            0 <= c < first_seen.len() && c != count ==> #[trigger] first_seen_after_vote(
                weights,
                first_seen,
                max_winners,
                count,
                attested_at,
            )[c] == first_seen[c],
{
}

/// The weights after the votes `votes` (count, weight) in turn.
pub open spec fn weights_after_votes(weights: Seq<u128>, max_winners: u64, votes: Seq<(u64, u128)>) -> Seq<u128>
    decreases votes.len(),
{
    if votes.len() == 0 {
        weights
    } else {
        let before = weights_after_votes(weights, max_winners, votes.drop_last());
        weights_after_vote(before, max_winners, votes.last().0, votes.last().1)
    }
}

/// `start` plus the weights of the votes for `count`, saturating at
/// `u128::MAX`.
pub open spec fn votes_total(start: u128, votes: Seq<(u64, u128)>, count: u64) -> u128
    decreases votes.len(),
{
    if votes.len() == 0 {
        start
    } else {
        let before = votes_total(start, votes.drop_last(), count);
        if votes.last().0 == count {
            if before + votes.last().1 > u128::MAX {
                u128::MAX
            } else {
                (before + votes.last().1) as u128
            }
        } else {
            before
        }
    }
}

/// The weight of a count after any votes is the saturated sum of its
/// weight before and the weights of all the votes for it.
pub proof fn lemma_votes_add_up(weights: Seq<u128>, max_winners: u64, votes: Seq<(u64, u128)>, count: u64)
    requires
        1 <= count <= max_winners,
        count < weights.len(),
    ensures
        weights_after_votes(weights, max_winners, votes).len() == weights.len(),
        weights_after_votes(weights, max_winners, votes)[count as int] == votes_total(
            weights[count as int],
            votes,
            count,
        ),
    decreases votes.len(),
{
    if votes.len() > 0 {
        lemma_votes_add_up(weights, max_winners, votes.drop_last(), count);
        let before = weights_after_votes(weights, max_winners, votes.drop_last());
        let (c, w) = votes.last();
        if 1 <= c <= max_winners && c < before.len() {
            lemma_vote_adds_weight(before, max_winners, c, w);
        }
    }
}

impl VoteTally {
    /// Account size for a cap of `max_winners`: the header and one weight
    /// (16 bytes) and one time (8 bytes) for each count `0..=max_winners`.
    pub fn account_size_for(max_winners: usize) -> (r: usize)
        requires
            72 + 24 * (max_winners + 1) <= usize::MAX,
        ensures
            r == 72 + 24 * (max_winners + 1),
    {
        let len: usize = max_winners + 1;
        8 + 32 + 8 + 8 + 8 + 4 + (len * 16) + 4 + (len * 8)
    }

    /// A fresh tally: every weight zero and every time `i64::MAX`, for the
    /// counts `0..=max_winners`.
    pub fn new(lottery: Address, max_winners: u64, total_attested: u64) -> (t: VoteTally)
        requires
            max_winners < usize::MAX,
        ensures
            t.lottery == lottery,
            t.max_winners == max_winners,
            t.total_attested == total_attested,
            t.processed_count == 0,
            t.weights@ == Seq::new((max_winners + 1) as nat, |i: int| 0u128),
            t.first_seen@ == Seq::new((max_winners + 1) as nat, |i: int| i64::MAX),
    {
        let len: usize = max_winners as usize + 1;
        let mut weights: Vec<u128> = Vec::new();
        let mut first_seen: Vec<i64> = Vec::new();
        let mut i: usize = 0;
        while i < len
            invariant
                i <= len,
                weights@ == Seq::new(i as nat, |j: int| 0u128),
                first_seen@ == Seq::new(i as nat, |j: int| i64::MAX),
            decreases len - i,
        {
            weights.push(0u128);
            first_seen.push(i64::MAX);
            i = i + 1;
            proof {
                assert(weights@ =~= Seq::new(i as nat, |j: int| 0u128));
                assert(first_seen@ =~= Seq::new(i as nat, |j: int| i64::MAX));
            }
        }
        VoteTally { lottery, max_winners, total_attested, processed_count: 0, weights, first_seen }
    }

    /// Adds `weight` to the votes for `count` (saturating) and keeps the
    /// earlier of the stored and the given attestation time; ignored for a
    /// count outside `1..=max_winners` or the weights.
    pub fn add_vote(&mut self, count: u64, weight: u128, attested_at: i64)
        requires
            1 <= count <= old(self).max_winners && count < old(self).weights@.len() ==> count < old(
                self,
            ).first_seen@.len(),
        ensures
            final(self).weights@ == weights_after_vote(old(self).weights@, old(self).max_winners, count, weight),
            final(self).first_seen@ == first_seen_after_vote(
                old(self).weights@,
                old(self).first_seen@,
                old(self).max_winners,
                count,
                attested_at,
            ),
            final(self).lottery == old(self).lottery,
            final(self).max_winners == old(self).max_winners,
            final(self).total_attested == old(self).total_attested,
            final(self).processed_count == old(self).processed_count,
            final(self).weights@.len() == old(self).weights@.len(),
            1 <= count <= old(self).max_winners && count < old(self).weights@.len() ==> final(self).weights@[count as int]
                == (if old(self).weights@[count as int] + weight > u128::MAX {
                u128::MAX
            } else {
                (old(self).weights@[count as int] + weight) as u128
            }),
            forall|c: int|
                0 <= c < old(self).weights@.len() && c != count ==> #[trigger] final(self).weights@[c] == old(
                    self,
                ).weights@[c],
    {
        if count == 0 || count > self.max_winners {
            return;
        }
        if count >= self.weights.len() as u64 {
            return;
        }
        let idx: usize = count as usize;
        let w: u128 = self.weights[idx].saturating_add(weight);
        self.weights.set(idx, w);
        if attested_at < self.first_seen[idx] {
            self.first_seen.set(idx, attested_at);
        }
    }

    /// The number of winners the votes select for a lottery with
    /// `participants_count` participants (see `selected_winners_of`).
    pub fn selected_winners(&self, participants_count: u64) -> (r: u64)
        ensures
            r == selected_winners_of(self.weights@, self.first_seen@, self.max_winners, participants_count),
            r >= 1,
            participants_count > 1 && r > 1 ==> r <= self.max_winners && r <= participants_count - 1,
    {
        if participants_count <= 1 {
            return 1;
        }
        let others: u64 = participants_count - 1;
        let max_count: u64 = if self.max_winners < others { self.max_winners } else { others };
        let len: u64 = self.weights.len() as u64;
        proof {
            if len == 0 {
                lemma_scan_empty(self.weights@, self.first_seen@, max_count as nat);
            } else if max_count >= len - 1 {
                lemma_scan_past_end(self.weights@, self.first_seen@, max_count as nat, (len - 1) as nat);
            }
            lemma_scan_is_max(self.weights@, self.first_seen@, max_count as nat);
        }
        let limit: u64 = if len == 0 {
            0
        } else if max_count < len - 1 {
            max_count
        } else {
            len - 1
        };
        let mut best_count: u64 = 1;
        let mut best_weight: u128 = 0;
        let mut best_time: i64 = i64::MAX;
        let mut count: u64 = 1;
        while count <= limit
            invariant
                len == self.weights@.len(),
                self.weights@.len() <= usize::MAX,
                limit < len || (len == 0 && limit == 0),
                1 <= count <= limit + 1,
                (best_count, best_weight, best_time) == tally_scan(
                    self.weights@,
                    self.first_seen@,
                    (count - 1) as nat,
                ),
            decreases limit + 1 - count,
        {
            let idx: usize = count as usize;
            let weight: u128 = self.weights[idx];
            if weight != 0 {
                let time: i64 = if idx < self.first_seen.len() {
                    self.first_seen[idx]
                } else {
                    i64::MAX
                };
                if weight > best_weight || (weight == best_weight && time < best_time) || (weight
                    == best_weight && time == best_time && count < best_count) {
                    best_weight = weight;
                    best_time = time;
                    best_count = count;
                }
            }
            count = count + 1;
        }
        if best_weight == 0 {
            1
        } else {
            best_count
        }
    }
}

/// Votes can be added in any order: adding two votes one way round or the
/// other leaves the same tally.  This is what makes the selected number of
/// winners independent of the order and batching of reveals.
pub proof fn lemma_votes_commute(
    weights: Seq<u128>,
    first_seen: Seq<i64>,
    max_winners: u64,
    c1: u64,
    w1: u128,
    a1: i64,
    c2: u64,
    w2: u128,
    a2: i64,
)
    requires
        weights.len() == first_seen.len(),
    ensures
        ({
            let wa = weights_after_vote(weights, max_winners, c1, w1);
            let fa = first_seen_after_vote(weights, first_seen, max_winners, c1, a1);
            let wb = weights_after_vote(weights, max_winners, c2, w2);
            let fb = first_seen_after_vote(weights, first_seen, max_winners, c2, a2);
            &&& weights_after_vote(wa, max_winners, c2, w2) == weights_after_vote(wb, max_winners, c1, w1)
            &&& first_seen_after_vote(wa, fa, max_winners, c2, a2) == first_seen_after_vote(
                wb,
                fb,
                max_winners,
                c1,
                a1,
            )
        }),
{
    let wa = weights_after_vote(weights, max_winners, c1, w1);
    let wb = weights_after_vote(weights, max_winners, c2, w2);
    let fa = first_seen_after_vote(weights, first_seen, max_winners, c1, a1);
    let fb = first_seen_after_vote(weights, first_seen, max_winners, c2, a2);
    assert(weights_after_vote(wa, max_winners, c2, w2) =~= weights_after_vote(wb, max_winners, c1, w1));
    assert(first_seen_after_vote(wa, fa, max_winners, c2, a2) =~= first_seen_after_vote(
        wb,
        fb,
        max_winners,
        c1,
        a1,
    ));
}

/// The selected count carries the most vote weight among the counts that
/// could be selected.
pub proof fn lemma_selected_has_most_weight(
    weights: Seq<u128>,
    first_seen: Seq<i64>,
    max_winners: u64,
    participants_count: u64,
    c: u64,
)
    requires
        participants_count > 1,
        1 <= c <= max_winners,
        c <= participants_count - 1,
        c < weights.len(),
        weights.len() <= u64::MAX,
        weights[c as int] > 0,
    ensures
        ({
            let s = selected_winners_of(weights, first_seen, max_winners, participants_count);
            (s as int) < weights.len() && weights[c as int] <= weights[s as int]
        }),
{
    let max_count: u64 = if max_winners < (participants_count - 1) as u64 {
        max_winners
    } else {
        (participants_count - 1) as u64
    };
    lemma_scan_is_max(weights, first_seen, max_count as nat);
}

} // verus!
