use vstd::prelude::*;

use vstd::arithmetic::div_mod::lemma_div_is_ordered;
use vstd::arithmetic::div_mod::lemma_div_nonincreasing;
use vstd::arithmetic::mul::lemma_mul_inequality;
use vstd::arithmetic::mul::lemma_mul_upper_bound;

use crate::key::Key;
use crate::org::Org;
use crate::org::group_end;
use crate::org::group_start;

verus! {

/// Per-applicant state: accumulated raw sums and review counts per criterion,
/// the derived per-group averages, and the committed level vector with the
/// time of its last committed change.
pub struct Score {
    pub name: String,
    pub scores: Vec<u128>,
    pub scores_sum: Vec<u64>,
    pub applicant: Key,
    pub mint: Key,
    pub reviews_received: Vec<u16>,
    pub reviews_sent: u16,
    pub levels: Vec<u8>,
    pub last_update: i64,
    pub bump: u8,
}

/// One criterion's contribution to its group's weighted sum: the accumulated
/// raw sum times the rubric weight, averaged over the reviews. A criterion
/// nobody has reviewed contributes nothing.
pub open spec fn criterion_term(sum: u64, weight: u32, reviews: u16) -> nat {
    if reviews == 0 {
        0
    } else {
        (sum * weight) as nat / (reviews as nat)
    }
}

/// Sum of the reviewed criteria's contributions over the index range
/// `[lo, hi)`.
pub open spec fn weighted_sum(
    sums: Seq<u64>,
    weights: Seq<u32>,
    reviews: Seq<u16>,
    lo: int,
    hi: int,
) -> nat
    decreases hi - lo,
{
    if hi <= lo {
        0
    } else {
        weighted_sum(sums, weights, reviews, lo, hi - 1) + criterion_term(
            sums[hi - 1],
            weights[hi - 1],
            reviews[hi - 1],
        )
    }
}

/// Sum of the reviewed criteria's weights over the index range `[lo, hi)`.
pub open spec fn weight_total(weights: Seq<u32>, reviews: Seq<u16>, lo: int, hi: int) -> nat
    decreases hi - lo,
{
    if hi <= lo {
        0
    } else {
        weight_total(weights, reviews, lo, hi - 1) + (
        if reviews[hi - 1] != 0 {
            weights[hi - 1] as nat
        } else {
            0
        })
    }
}

/// Group `g`'s weighted average. A group none of whose criteria has been
/// reviewed has total weight zero; its average is defined as zero rather than
/// left to a division by zero.
pub open spec fn group_score(org: Org, sums: Seq<u64>, reviews: Seq<u16>, g: int) -> nat {
    let lo = group_start(org.ranges@, g);
    let hi = group_end(org.ranges@, org.weights@.len() as int, g);
    let wt = weight_total(org.weights@, reviews, lo, hi);
    if wt == 0 {
        0
    } else {
        weighted_sum(sums, org.weights@, reviews, lo, hi) / wt
    }
}

proof fn lemma_criterion_term_bound(sum: u64, weight: u32, reviews: u16)
    ensures
        criterion_term(sum, weight, reviews) <= (u64::MAX as nat) * (u32::MAX as nat),
{
    if reviews != 0 {
        lemma_mul_upper_bound(sum as int, u64::MAX as int, weight as int, u32::MAX as int);
        lemma_div_is_ordered(
            (sum * weight) as int,
            (u64::MAX as nat * u32::MAX as nat) as int,
            reviews as int,
        );
        lemma_div_nonincreasing((u64::MAX as nat * u32::MAX as nat) as int, reviews as int);
    }
}

proof fn lemma_weighted_sum_bound(sums: Seq<u64>, weights: Seq<u32>, reviews: Seq<u16>, lo: int, hi: int)
    requires
        lo <= hi,
    ensures
        weighted_sum(sums, weights, reviews, lo, hi) <= (hi - lo) * ((u64::MAX as nat) * (u32::MAX as nat)),
    decreases hi - lo,
{
    if lo < hi {
        lemma_weighted_sum_bound(sums, weights, reviews, lo, hi - 1);
        lemma_criterion_term_bound(sums[hi - 1], weights[hi - 1], reviews[hi - 1]);
        assert((hi - lo) * ((u64::MAX as nat) * (u32::MAX as nat)) == (hi - 1 - lo) * ((
        u64::MAX as nat) * (u32::MAX as nat)) + (u64::MAX as nat) * (u32::MAX as nat))
            by (nonlinear_arith);
    }
}

proof fn lemma_weight_total_bound(weights: Seq<u32>, reviews: Seq<u16>, lo: int, hi: int)
    requires
        lo <= hi,
    ensures
        weight_total(weights, reviews, lo, hi) <= (hi - lo) * (u32::MAX as nat),
    decreases hi - lo,
{
    if lo < hi {
        lemma_weight_total_bound(weights, reviews, lo, hi - 1);
        assert((hi - lo) * (u32::MAX as nat) == (hi - 1 - lo) * (u32::MAX as nat) + (
        u32::MAX as nat)) by (nonlinear_arith);
    }
}

/// Levels justified by a group average: the length of the maximal prefix of
/// the ladder whose thresholds the average strictly exceeds.
pub open spec fn potential_of(ladder: Seq<u64>, score: nat) -> nat
    decreases ladder.len(),
{
    if ladder.len() == 0 {
        0
    } else if (ladder[0] as nat) < score {
        1 + potential_of(ladder.skip(1), score)
    } else {
        0
    }
}

proof fn lemma_potential_of_at(ladder: Seq<u64>, score: nat, j: int)
    requires
        0 <= j <= ladder.len(),
        forall|k: int| #![trigger ladder[k]] 0 <= k < j ==> (ladder[k] as nat) < score,
        j < ladder.len() ==> !((ladder[j] as nat) < score),
    ensures
        potential_of(ladder, score) == j,
    decreases j,
{
    if j == 0 {
    } else {
        assert((ladder[0] as nat) < score);
        let tail = ladder.skip(1);
        assert(forall|k: int| #![trigger tail[k]] 0 <= k < j - 1 ==> (tail[k] as nat) < score);
        if j - 1 < tail.len() {
            assert(tail[j - 1] == ladder[j]);
        }
        lemma_potential_of_at(tail, score, j - 1);
    }
}

/// Index of the first group whose committed level differs from its potential,
/// or the group count when none differs.
pub open spec fn first_diff(cur: Seq<u8>, pot: Seq<u8>) -> int
    decreases cur.len(),
{
    if cur.len() == 0 {
        0
    } else if cur[0] != pot[0] {
        0
    } else {
        1 + first_diff(cur.skip(1), pot.skip(1))
    }
}

/// One step toward the potential: up one level when below it, down one when
/// above it.
pub open spec fn step_toward(cur: u8, pot: u8) -> u8 {
    if cur < pot {
        (cur + 1) as u8
    } else if cur > pot {
        (cur - 1) as u8
    } else {
        cur
    }
}

/// The candidate next level vector: unchanged everywhere except at the first
/// group whose committed level differs from its potential, which moves by
/// exactly one step toward the potential.
pub open spec fn next_levels(cur: Seq<u8>, pot: Seq<u8>) -> Seq<u8> {
    let f = first_diff(cur, pot);
    if 0 <= f < cur.len() {
        cur.update(f, step_toward(cur[f], pot[f]))
    } else {
        cur
    }
}

/// Where the first difference sits: everything before it agrees, and the
/// entry there (when inside the vector) disagrees.
pub proof fn lemma_first_diff_props(cur: Seq<u8>, pot: Seq<u8>)
    requires
        cur.len() == pot.len(),
    ensures
        0 <= first_diff(cur, pot) <= cur.len(),
        forall|k: int| #![trigger cur[k]] 0 <= k < first_diff(cur, pot) ==> cur[k] == pot[k],
        first_diff(cur, pot) < cur.len() ==> cur[first_diff(cur, pot)] != pot[first_diff(cur, pot)],
    decreases cur.len(),
{
    if cur.len() > 0 && cur[0] == pot[0] {
        lemma_first_diff_props(cur.skip(1), pot.skip(1));
        assert(forall|k: int| #![trigger cur[k]] 0 < k < cur.len() ==> cur[k] == cur.skip(1)[k - 1]
            && pot[k] == pot.skip(1)[k - 1]);
    }
}

proof fn lemma_first_diff_at(cur: Seq<u8>, pot: Seq<u8>, j: int)
    requires
        cur.len() == pot.len(),
        0 <= j <= cur.len(),
        forall|k: int| #![trigger cur[k]] 0 <= k < j ==> cur[k] == pot[k],
        j < cur.len() ==> cur[j] != pot[j],
    ensures
        first_diff(cur, pot) == j,
    decreases j,
{
    if j == 0 {
    } else {
        let ct = cur.skip(1);
        let pt = pot.skip(1);
        assert(forall|k: int| #![trigger ct[k]] 0 <= k < j - 1 ==> ct[k] == cur[k + 1] && pt[k]
            == pot[k + 1]);
        if j - 1 < ct.len() {
            assert(ct[j - 1] == cur[j] && pt[j - 1] == pot[j]);
        }
        lemma_first_diff_at(ct, pt, j - 1);
    }
}

/// One-step hysteresis: the candidate vector agrees with the committed one
/// everywhere except at the first group whose committed level differs from
/// its potential — all earlier groups agree with their potentials — and
/// there it moves by exactly one level toward the potential. When no group
/// differs the candidate is the committed vector itself.
pub proof fn lemma_next_levels_one_step(cur: Seq<u8>, pot: Seq<u8>)
    requires
        cur.len() == pot.len(),
    ensures
        ({
            let next = next_levels(cur, pot);
            let f = first_diff(cur, pot);
            &&& 0 <= f <= cur.len()
            &&& next.len() == cur.len()
            &&& forall|g: int| #![trigger next[g]] 0 <= g < cur.len() && g != f ==> next[g] == cur[g]
            &&& forall|g: int| #![trigger cur[g]] 0 <= g < f ==> cur[g] == pot[g]
            &&& f < cur.len() ==> cur[f] != pot[f]
            &&& f < cur.len() && cur[f] < pot[f] ==> next[f] == cur[f] + 1
            &&& f < cur.len() && cur[f] > pot[f] ==> next[f] == cur[f] - 1
            &&& f == cur.len() ==> next == cur
        }),
{
    lemma_first_diff_props(cur, pot);
}

/// The potential level of every group, as the engine derives it from the
/// accumulated state.
pub open spec fn potential_levels_of(org: Org, sums: Seq<u64>, reviews: Seq<u16>) -> Seq<u8> {
    Seq::new(
        org.levels@.len(),
        |g: int| potential_of(org.levels@[g]@, group_score(org, sums, reviews, g)) as u8,
    )
}

/// The candidate vector reconciliation yields from the given accumulated
/// state and committed levels.
pub open spec fn candidate_levels(org: Org, sums: Seq<u64>, reviews: Seq<u16>, cur: Seq<u8>) -> Seq<u8> {
    next_levels(cur, potential_levels_of(org, sums, reviews))
}

/// The candidate a record's current state reconciles to.
pub open spec fn candidate_of(org: Org, s: Score) -> Seq<u8> {
    candidate_levels(org, s.scores_sum@, s.reviews_received@, s.levels@)
}

/// Reconciliation is idempotent: the candidate depends only on the
/// accumulated sums, the review counts and the committed levels, none of
/// which reconciliation changes, so reconciling again from the resulting
/// state yields the same candidate.
pub proof fn lemma_reconcile_idempotent(org: Org, before: Score, after: Score)
    requires
        after.scores_sum@ == before.scores_sum@,
        after.reviews_received@ == before.reviews_received@,
        after.levels@ == before.levels@,
    ensures
        candidate_of(org, after) == candidate_of(org, before),
{
}

impl Score {
    /// Length agreement between a record and its organization's registry.
    pub open spec fn wf(&self, org: &Org) -> bool {
        &&& self.scores_sum@.len() == org.weights@.len()
        &&& self.reviews_received@.len() == org.weights@.len()
        &&& self.scores@.len() == org.levels@.len()
        &&& self.levels@.len() == org.levels@.len()
    }

    /// A blank record: every accumulator empty, identity linkage zeroed.
    pub fn new(bump: u8) -> (s: Score)
        ensures
            s.name@ == Seq::<char>::empty(),
            s.scores@ == Seq::<u128>::empty(),
            s.scores_sum@ == Seq::<u64>::empty(),
            s.reviews_received@ == Seq::<u16>::empty(),
            s.levels@ == Seq::<u8>::empty(),
            s.reviews_sent == 0,
            s.last_update == 0,
            s.applicant == (Key { w0: 0, w1: 0, w2: 0, w3: 0 }),
            s.mint == (Key { w0: 0, w1: 0, w2: 0, w3: 0 }),
            s.bump == bump,
    {
        Score {
            name: String::new(),
            scores: Vec::new(),
            scores_sum: Vec::new(),
            applicant: Key::zero(),
            mint: Key::zero(),
            reviews_received: Vec::new(),
            reviews_sent: 0,
            levels: Vec::new(),
            last_update: 0,
            bump,
        }
    }

    /// Recomputes the derived per-group weighted averages from the
    /// accumulated sums and review counts. Nothing else changes.
    pub fn update_scores(&mut self, org: &Org)
        requires
            org.wf(),
            old(self).wf(org),
        ensures
            final(self).wf(org),
            final(self).scores@.len() == org.levels@.len(),
            forall|g: int| #![trigger final(self).scores@[g]] 0 <= g < org.levels@.len()
                ==> final(self).scores@[g] as nat == group_score(*org, final(self).scores_sum@, final(self).reviews_received@, g),
            final(self).name == old(self).name,
            final(self).scores_sum == old(self).scores_sum,
            final(self).applicant == old(self).applicant,
            final(self).mint == old(self).mint,
            final(self).reviews_received == old(self).reviews_received,
            final(self).reviews_sent == old(self).reviews_sent,
            final(self).levels == old(self).levels,
            final(self).last_update == old(self).last_update,
            final(self).bump == old(self).bump,
    {
        let g_count = org.levels.len();
        let w_count = org.weights.len();
        let mut new_scores: Vec<u128> = Vec::new();
        let mut g: usize = 0;
        while g < g_count
            invariant
                org.wf(),
                self.wf(org),
                *self == *old(self),
                g <= g_count,
                g_count == org.levels@.len(),
                w_count == org.weights@.len(),
                new_scores@.len() == g,
                forall|k: int| #![trigger new_scores@[k]] 0 <= k < g
                    ==> new_scores@[k] as nat == group_score(*org, self.scores_sum@, self.reviews_received@, k),
            decreases g_count - g,
        {
            let lo: usize = if g == 0 {
                0
            } else {
                org.ranges[g - 1] as usize
            };
            let hi: usize = if g < org.ranges.len() {
                org.ranges[g] as usize
            } else {
                w_count
            };
            proof {
                assert(lo == group_start(org.ranges@, g as int));
                assert(hi == group_end(org.ranges@, org.weights@.len() as int, g as int));
                if g > 0 {
                    assert(1 <= org.ranges@[g - 1]);
                }
                if g < org.ranges@.len() {
                    assert(org.ranges@[g as int] < org.weights@.len());
                    if g > 0 {
                        assert(org.ranges@[g - 1] < org.ranges@[g as int]);
                    }
                }
            }
            let mut gsum: u128 = 0;
            let mut wtot: u64 = 0;
            let mut i: usize = lo;
            while i < hi
                invariant
                    org.wf(),
                    self.wf(org),
                    lo <= i <= hi <= w_count,
                    w_count == org.weights@.len(),
                    gsum == weighted_sum(self.scores_sum@, org.weights@, self.reviews_received@, lo as int, i as int),
                    wtot == weight_total(org.weights@, self.reviews_received@, lo as int, i as int),
                decreases hi - i,
            {
                let r = self.reviews_received[i];
                if r != 0 {
                    proof {
                        lemma_mul_upper_bound(
                            self.scores_sum@[i as int] as int,
                            u64::MAX as int,
                            org.weights@[i as int] as int,
                            u32::MAX as int,
                        );
                        lemma_weighted_sum_bound(
                            self.scores_sum@,
                            org.weights@,
                            self.reviews_received@,
                            lo as int,
                            i as int,
                        );
                        lemma_criterion_term_bound(
                            self.scores_sum@[i as int],
                            org.weights@[i as int],
                            self.reviews_received@[i as int],
                        );
                        lemma_mul_inequality(
                            i - lo,
                            u32::MAX as int,
                            ((u64::MAX as nat) * (u32::MAX as nat)) as int,
                        );
                        lemma_weight_total_bound(org.weights@, self.reviews_received@, lo as int, i as int);
                        lemma_mul_inequality(i - lo, u32::MAX as int, u32::MAX as int);
                    }
                    let term: u128 = (self.scores_sum[i] as u128) * (org.weights[i] as u128) / (r as u128);
                    gsum = gsum + term;
                    wtot = wtot + org.weights[i] as u64;
                }
                i += 1;
            }
            let s: u128 = if wtot == 0 {
                0
            } else {
                gsum / (wtot as u128)
            };
            new_scores.push(s);
            g += 1;
        }
        self.scores = new_scores;
    }

    /// The level each group's current average would justify if applied
    /// immediately: how many leading ladder thresholds the average strictly
    /// exceeds.
    pub fn calculate_potential_level(&self, org: &Org) -> (r: Vec<u8>)
        requires
            org.wf(),
            self.wf(org),
        ensures
            r@.len() == org.levels@.len(),
            forall|g: int| #![trigger r@[g]] 0 <= g < r@.len()
                ==> r@[g] as nat == potential_of(org.levels@[g]@, self.scores@[g] as nat),
    {
        let g_count = org.levels.len();
        let mut r: Vec<u8> = Vec::new();
        let mut g: usize = 0;
        while g < g_count
            invariant
                org.wf(),
                self.wf(org),
                g <= g_count,
                g_count == org.levels@.len(),
                r@.len() == g,
                forall|k: int| #![trigger r@[k]] 0 <= k < g
                    ==> r@[k] as nat == potential_of(org.levels@[k]@, self.scores@[k] as nat),
            decreases g_count - g,
        {
            let ladder = &org.levels[g];
            let score = self.scores[g];
            let mut j: usize = 0;
            while j < ladder.len() && (ladder[j] as u128) < score
                invariant
                    j <= ladder@.len(),
                    ladder == &org.levels@[g as int],
                    g < org.levels@.len(),
                    score == self.scores@[g as int],
                    forall|k: int| #![trigger ladder@[k]] 0 <= k < j ==> (ladder@[k] as nat) < score as nat,
                decreases ladder@.len() - j,
            {
                j += 1;
            }
            proof {
                lemma_potential_of_at(ladder@, score as nat, j as int);
                assert(ladder@.len() <= u8::MAX);
            }
            r.push(j as u8);
            g += 1;
        }
        r
    }

    /// One-step hysteresis: scans groups in index order and moves the first
    /// group whose committed level differs from its potential by exactly one
    /// step toward it; every other group is left untouched.
    pub fn calculate_next_level(&self, potential_levels: Vec<u8>) -> (r: Vec<u8>)
        requires
            potential_levels@.len() == self.levels@.len(),
        ensures
            r@ == next_levels(self.levels@, potential_levels@),
    {
        let mut levels: Vec<u8> = Vec::new();
        let mut q: usize = 0;
        while q < self.levels.len()
            invariant
                q <= self.levels@.len(),
                levels@ == self.levels@.take(q as int),
            decreases self.levels@.len() - q,
        {
            levels.push(self.levels[q]);
            proof {
                assert(levels@ =~= self.levels@.take(q + 1));
            }
            q += 1;
        }
        proof {
            assert(levels@ =~= self.levels@);
        }
        let mut p: usize = 0;
        loop
            invariant_except_break
                levels@ == self.levels@,
            invariant
                potential_levels@.len() == self.levels@.len(),
                p <= self.levels@.len(),
                forall|k: int| #![trigger self.levels@[k]] 0 <= k < p ==> self.levels@[k] == potential_levels@[k],
            ensures
                levels@ == next_levels(self.levels@, potential_levels@),
            decreases self.levels@.len() - p,
        {
            if p >= levels.len() {
                proof {
                    lemma_first_diff_at(self.levels@, potential_levels@, p as int);
                }
                break;
            }
            let cur = levels[p];
            let pot = potential_levels[p];
            if cur < pot {
                levels[p] = cur + 1;
                proof {
                    lemma_first_diff_at(self.levels@, potential_levels@, p as int);
                }
                break;
            } else if cur > pot {
                levels[p] = cur - 1;
                proof {
                    lemma_first_diff_at(self.levels@, potential_levels@, p as int);
                }
                break;
            }
            p += 1;
        }
        levels
    }

    /// Runs the three reconciliation steps in sequence: recompute the group
    /// averages, derive each group's potential level, and move the committed
    /// vector one step toward the first differing potential. The returned
    /// candidate is not committed; only the derived averages are stored.
    pub fn reconcile(&mut self, org: &Org) -> (r: Vec<u8>)
        requires
            org.wf(),
            old(self).wf(org),
        ensures
            final(self).wf(org),
            r@ == candidate_of(*org, *old(self)),
            forall|g: int| #![trigger final(self).scores@[g]] 0 <= g < org.levels@.len()
                ==> final(self).scores@[g] as nat == group_score(*org, final(self).scores_sum@, final(self).reviews_received@, g),
            final(self).name == old(self).name,
            final(self).scores_sum == old(self).scores_sum,
            final(self).applicant == old(self).applicant,
            final(self).mint == old(self).mint,
            final(self).reviews_received == old(self).reviews_received,
            final(self).reviews_sent == old(self).reviews_sent,
            final(self).levels == old(self).levels,
            final(self).last_update == old(self).last_update,
            final(self).bump == old(self).bump,
    {
        self.update_scores(org);
        let potential_levels = self.calculate_potential_level(org);
        proof {
            assert(potential_levels@ =~= potential_levels_of(*org, self.scores_sum@, self.reviews_received@));
        }
        self.calculate_next_level(potential_levels)
    }
}

} // verus!
