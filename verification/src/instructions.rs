use vstd::prelude::*;

use vstd::string::StrSliceExecFns;

use crate::error::GrowthError;
use crate::key::Key;
use crate::org::Org;
use crate::score::Score;
use crate::score::candidate_levels;
use crate::score::group_score;
use crate::text::badge_uri;
use crate::text::levels_uri;

verus! {

/// The submission timestamp a call works with: the caller-supplied override,
/// or the ambient clock when the override is zero.
pub fn effective_timestamp(timestamp_override: i64, now: i64) -> (r: i64)
    ensures
        r == (if timestamp_override != 0 { timestamp_override } else { now }),
{
    if timestamp_override != 0 {
        timestamp_override
    } else {
        now
    }
}

/// The cooldown window since the last committed change has elapsed at `ts`.
pub open spec fn cooldown_elapsed(last_update: i64, level_wait: i32, ts: i64) -> bool {
    last_update + level_wait < ts
}

/// The largest review count over all criteria (zero when there are none).
pub open spec fn max_reviews(reviews: Seq<u16>) -> u16
    decreases reviews.len(),
{
    if reviews.len() == 0 {
        0
    } else if reviews.last() >= max_reviews(reviews.drop_last()) {
        reviews.last()
    } else {
        max_reviews(reviews.drop_last())
    }
}

/// The review quorum is met: some criterion has gathered at least
/// `min_reviews` reviews.
pub open spec fn quorum_met(reviews: Seq<u16>, min_reviews: u8) -> bool {
    max_reviews(reviews) >= min_reviews
}

fn max_review_count(reviews: &Vec<u16>) -> (r: u16)
    ensures
        r == max_reviews(reviews@),
{
    let mut m: u16 = 0;
    let mut i: usize = 0;
    while i < reviews.len()
        invariant
            i <= reviews@.len(),
            m == max_reviews(reviews@.take(i as int)),
        decreases reviews@.len() - i,
    {
        proof {
            assert(reviews@.take(i + 1).drop_last() =~= reviews@.take(i as int));
            assert(reviews@.take(i + 1).last() == reviews@[i as int]);
        }
        if reviews[i] > m {
            m = reviews[i];
        }
        i += 1;
    }
    proof {
        assert(reviews@.take(reviews@.len() as int) =~= reviews@);
    }
    m
}

fn levels_eq(a: &Vec<u8>, b: &Vec<u8>) -> (r: bool)
    ensures
        r <==> a@ == b@,
{
    if a.len() != b.len() {
        return false;
    }
    let mut i: usize = 0;
    while i < a.len()
        invariant
            i <= a@.len(),
            a@.len() == b@.len(),
            forall|k: int| #![trigger a@[k]] 0 <= k < i ==> a@[k] == b@[k],
        decreases a@.len() - i,
    {
        if a[i] != b[i] {
            return false;
        }
        i += 1;
    }
    proof {
        assert(a@ =~= b@);
    }
    true
}

/// Every incoming submission can be folded into the accumulators without
/// exceeding their carrier types.
pub open spec fn accumulate_ok(sums: Seq<u64>, reviews: Seq<u16>, submitted: Seq<u32>) -> bool {
    forall|i: int| #![trigger submitted[i]] 0 <= i < submitted.len()
        ==> sums[i] + submitted[i] <= u64::MAX && (submitted[i] != 0 ==> reviews[i] < u16::MAX)
}

/// The accumulated sums after folding in a submission.
pub open spec fn added_sums(sums: Seq<u64>, submitted: Seq<u32>) -> Seq<u64> {
    Seq::new(sums.len(), |i: int| (sums[i] + submitted[i]) as u64)
}

/// The review counts after folding in a submission: a nonzero entry counts as
/// one more review of its criterion.
pub open spec fn bumped_reviews(reviews: Seq<u16>, submitted: Seq<u32>) -> Seq<u16> {
    Seq::new(
        reviews.len(),
        |i: int|
            if submitted[i] != 0 {
                (reviews[i] + 1) as u16
            } else {
                reviews[i]
            },
    )
}

/// The submission path: folds an incoming per-criterion submission into the
/// accumulators, reconciles, and commits the candidate level vector only when
/// it differs from the committed one and both the cooldown has elapsed and
/// the review quorum is met. An unchanged candidate only refreshes the record
/// timestamp; a gated-out candidate is discarded entirely. On a commit the
/// new badge URI is returned for publication, but only when the badge is
/// already collection-verified; rejected inputs leave the record untouched.
pub fn receive_score(
    org: &Org,
    score: &mut Score,
    submitted: &Vec<u32>,
    submission_ts: i64,
    collection_verified: bool,
) -> (r: Result<Option<String>, GrowthError>)
    requires
        org.wf(),
        old(score).wf(org),
    ensures
        final(score).wf(org),
        final(score).name == old(score).name,
        final(score).applicant == old(score).applicant,
        final(score).mint == old(score).mint,
        final(score).bump == old(score).bump,
        final(score).reviews_sent == old(score).reviews_sent,
        r is Err ==> *final(score) == *old(score),
        (r == Err::<Option<String>, GrowthError>(GrowthError::LengthMismatch)) <==> submitted@.len()
            != org.weights@.len(),
        (r == Err::<Option<String>, GrowthError>(GrowthError::CounterOverflow)) <==> (submitted@.len()
            == org.weights@.len() && !accumulate_ok(
            old(score).scores_sum@,
            old(score).reviews_received@,
            submitted@,
        )),
        r is Ok <==> (submitted@.len() == org.weights@.len() && accumulate_ok(
            old(score).scores_sum@,
            old(score).reviews_received@,
            submitted@,
        )),
        r is Ok ==> ({
            let new_sums = added_sums(old(score).scores_sum@, submitted@);
            let new_reviews = bumped_reviews(old(score).reviews_received@, submitted@);
            let candidate = candidate_levels(*org, new_sums, new_reviews, old(score).levels@);
            &&& final(score).scores_sum@ == new_sums
            &&& final(score).reviews_received@ == new_reviews
            &&& forall|g: int| #![trigger final(score).scores@[g]] 0 <= g < org.levels@.len()
                ==> final(score).scores@[g] as nat == group_score(*org, new_sums, new_reviews, g)
            &&& if candidate == old(score).levels@ {
                &&& final(score).levels@ == old(score).levels@
                &&& final(score).last_update == submission_ts
                &&& r == Ok::<Option<String>, GrowthError>(None::<String>)
            } else if cooldown_elapsed(old(score).last_update, org.level_wait, submission_ts)
                && quorum_met(new_reviews, org.min_reviews) {
                &&& final(score).levels@ == candidate
                &&& final(score).last_update == submission_ts
                &&& collection_verified ==> (r matches Ok(Some(uri)) && uri@ == badge_uri(
                    org.domain@,
                    candidate,
                ))
                &&& !collection_verified ==> r == Ok::<Option<String>, GrowthError>(None::<String>)
            } else {
                &&& final(score).levels@ == old(score).levels@
                &&& final(score).last_update == old(score).last_update
                &&& r == Ok::<Option<String>, GrowthError>(None::<String>)
            }
        }),
{
    if submitted.len() != org.weights.len() {
        return Err(GrowthError::LengthMismatch);
    }
    let mut i: usize = 0;
    while i < submitted.len()
        invariant
            org.wf(),
            score.wf(org),
            *score == *old(score),
            i <= submitted@.len(),
            submitted@.len() == org.weights@.len(),
            forall|k: int| #![trigger submitted@[k]] 0 <= k < i ==> score.scores_sum@[k]
                + submitted@[k] <= u64::MAX && (submitted@[k] != 0 ==> score.reviews_received@[k]
                < u16::MAX),
        decreases submitted@.len() - i,
    {
        let s = submitted[i];
        if u64::MAX - score.scores_sum[i] < s as u64 {
            proof {
                assert(!(score.scores_sum@[i as int] + submitted@[i as int] <= u64::MAX));
            }
            return Err(GrowthError::CounterOverflow);
        }
        if s != 0 && score.reviews_received[i] == u16::MAX {
            proof {
                assert(!(submitted@[i as int] != 0 ==> score.reviews_received@[i as int] < u16::MAX));
            }
            return Err(GrowthError::CounterOverflow);
        }
        i += 1;
    }
    let ghost old_sums = score.scores_sum@;
    let ghost old_reviews = score.reviews_received@;
    let mut i: usize = 0;
    while i < submitted.len()
        invariant
            org.wf(),
            score.wf(org),
            i <= submitted@.len(),
            submitted@.len() == org.weights@.len(),
            old_sums == old(score).scores_sum@,
            old_reviews == old(score).reviews_received@,
            accumulate_ok(old_sums, old_reviews, submitted@),
            score.name == old(score).name,
            score.scores == old(score).scores,
            score.applicant == old(score).applicant,
            score.mint == old(score).mint,
            score.reviews_sent == old(score).reviews_sent,
            score.levels == old(score).levels,
            score.last_update == old(score).last_update,
            score.bump == old(score).bump,
            score.scores_sum@.len() == old_sums.len(),
            score.reviews_received@.len() == old_reviews.len(),
            forall|k: int| #![trigger score.scores_sum@[k]] 0 <= k < i ==> score.scores_sum@[k]
                == added_sums(old_sums, submitted@)[k],
            forall|k: int| #![trigger score.scores_sum@[k]] i <= k < old_sums.len()
                ==> score.scores_sum@[k] == old_sums[k],
            forall|k: int| #![trigger score.reviews_received@[k]] 0 <= k < i
                ==> score.reviews_received@[k] == bumped_reviews(old_reviews, submitted@)[k],
            forall|k: int| #![trigger score.reviews_received@[k]] i <= k < old_reviews.len()
                ==> score.reviews_received@[k] == old_reviews[k],
        decreases submitted@.len() - i,
    {
        let add = submitted[i];
        let cur = score.scores_sum[i];
        proof {
            assert(old_sums[i as int] + submitted@[i as int] <= u64::MAX);
        }
        score.scores_sum[i] = cur + add as u64;
        if add != 0 {
            let c = score.reviews_received[i];
            score.reviews_received[i] = c + 1;
        }
        i += 1;
    }
    proof {
        assert(score.scores_sum@ =~= added_sums(old_sums, submitted@));
        assert(score.reviews_received@ =~= bumped_reviews(old_reviews, submitted@));
    }
    let candidate = score.reconcile(org);
    if levels_eq(&candidate, &score.levels) {
        score.last_update = submission_ts;
        return Ok(None);
    }
    let top = max_review_count(&score.reviews_received);
    let cooled = (score.last_update as i128) + (org.level_wait as i128) < (submission_ts as i128);
    if cooled && top >= org.min_reviews as u16 {
        score.levels = candidate;
        score.last_update = submission_ts;
        if collection_verified {
            let uri = levels_uri(org.domain.as_str(), &score.levels);
            return Ok(Some(uri));
        }
        return Ok(None);
    }
    Ok(None)
}

/// The administrative override path: replaces the accumulators outright,
/// reconciles, and always commits the candidate — no quorum or cooldown gate
/// — then optionally replaces the committed vector with the caller-supplied
/// one. Always returns the badge URI of the final committed vector for
/// republication. Requires the organization authority.
pub fn update_scores(
    org: &Org,
    score: &mut Score,
    caller: Key,
    scores_sum: Vec<u64>,
    reviews_received: Vec<u16>,
    last_update: i64,
    levels: Vec<u8>,
    override_levels: bool,
) -> (r: Result<String, GrowthError>)
    requires
        org.wf(),
        old(score).wf(org),
    ensures
        final(score).wf(org),
        r is Err ==> *final(score) == *old(score),
        (r matches Err(e) && e == GrowthError::LengthMismatch) <==> (scores_sum@.len()
            != org.weights@.len() || reviews_received@.len() != org.weights@.len() || levels@.len()
            != org.levels@.len()),
        (r matches Err(e) && e == GrowthError::AuthorityMismatch) <==> (scores_sum@.len()
            == org.weights@.len() && reviews_received@.len() == org.weights@.len() && levels@.len()
            == org.levels@.len() && caller != org.authority),
        r is Ok <==> (scores_sum@.len() == org.weights@.len() && reviews_received@.len()
            == org.weights@.len() && levels@.len() == org.levels@.len() && caller == org.authority),
        r is Ok ==> ({
            let candidate = candidate_levels(*org, scores_sum@, reviews_received@, old(score).levels@);
            &&& final(score).scores_sum@ == scores_sum@
            &&& final(score).reviews_received@ == reviews_received@
            &&& final(score).levels@ == (if override_levels { levels@ } else { candidate })
            &&& final(score).last_update == last_update
            &&& forall|g: int| #![trigger final(score).scores@[g]] 0 <= g < org.levels@.len()
                ==> final(score).scores@[g] as nat == group_score(*org, scores_sum@, reviews_received@, g)
            &&& final(score).name == old(score).name
            &&& final(score).applicant == old(score).applicant
            &&& final(score).mint == old(score).mint
            &&& final(score).bump == old(score).bump
            &&& final(score).reviews_sent == old(score).reviews_sent
            &&& r matches Ok(uri) && uri@ == badge_uri(org.domain@, final(score).levels@)
        }),
{
    if scores_sum.len() != org.weights.len() || reviews_received.len() != org.weights.len()
        || levels.len() != org.levels.len() {
        return Err(GrowthError::LengthMismatch);
    }
    if !(caller == org.authority) {
        return Err(GrowthError::AuthorityMismatch);
    }
    score.scores_sum = scores_sum;
    score.reviews_received = reviews_received;
    let candidate = score.reconcile(org);
    score.levels = candidate;
    score.last_update = last_update;
    if override_levels {
        score.levels = levels;
    }
    let uri = levels_uri(org.domain.as_str(), &score.levels);
    Ok(uri)
}

/// Registration: creates the applicant's blank score record — accumulators
/// zeroed, committed levels as supplied — sized to the organization's rubric.
/// Requires the organization authority; a level vector of the wrong length is
/// rejected.
pub fn register(
    org: &Org,
    name: String,
    levels: Vec<u8>,
    last_update: i64,
    caller: Key,
    applicant: Key,
    badge_mint: Key,
    bump: u8,
) -> (r: Result<Score, GrowthError>)
    requires
        org.wf(),
    ensures
        (r == Err::<Score, GrowthError>(GrowthError::AuthorityMismatch)) <==> caller != org.authority,
        (r == Err::<Score, GrowthError>(GrowthError::LengthMismatch)) <==> (caller == org.authority
            && levels@.len() != org.levels@.len()),
        r is Ok <==> (caller == org.authority && levels@.len() == org.levels@.len()),
        r matches Ok(s) ==> ({
            &&& s.wf(org)
            &&& s.name == name
            &&& s.levels == levels
            &&& s.last_update == last_update
            &&& s.applicant == applicant
            &&& s.mint == badge_mint
            &&& s.bump == bump
            &&& s.reviews_sent == 0
            &&& forall|i: int| #![trigger s.scores_sum@[i]] 0 <= i < s.scores_sum@.len()
                ==> s.scores_sum@[i] == 0
            &&& forall|i: int| #![trigger s.reviews_received@[i]] 0 <= i < s.reviews_received@.len()
                ==> s.reviews_received@[i] == 0
            &&& forall|i: int| #![trigger s.scores@[i]] 0 <= i < s.scores@.len() ==> s.scores@[i] == 0
        }),
{
    if !(caller == org.authority) {
        return Err(GrowthError::AuthorityMismatch);
    }
    if levels.len() != org.levels.len() {
        return Err(GrowthError::LengthMismatch);
    }
    let mut s = Score::new(bump);
    s.name = name;
    s.scores = zero_u128_vec(org.levels.len());
    s.scores_sum = zero_u64_vec(org.weights.len());
    s.reviews_received = zero_u16_vec(org.weights.len());
    s.levels = levels;
    s.last_update = last_update;
    s.applicant = applicant;
    s.mint = badge_mint;
    Ok(s)
}

fn zero_u64_vec(n: usize) -> (v: Vec<u64>)
    ensures
        v@.len() == n,
        forall|i: int| #![trigger v@[i]] 0 <= i < n ==> v@[i] == 0,
{
    let mut v: Vec<u64> = Vec::new();
    let mut i: usize = 0;
    while i < n
        invariant
            i <= n,
            v@.len() == i,
            forall|k: int| #![trigger v@[k]] 0 <= k < i ==> v@[k] == 0,
        decreases n - i,
    {
        v.push(0);
        i += 1;
    }
    v
}

fn zero_u16_vec(n: usize) -> (v: Vec<u16>)
    ensures
        v@.len() == n,
        forall|i: int| #![trigger v@[i]] 0 <= i < n ==> v@[i] == 0,
{
    let mut v: Vec<u16> = Vec::new();
    let mut i: usize = 0;
    while i < n
        invariant
            i <= n,
            v@.len() == i,
            forall|k: int| #![trigger v@[k]] 0 <= k < i ==> v@[k] == 0,
        decreases n - i,
    {
        v.push(0);
        i += 1;
    }
    v
}

fn zero_u128_vec(n: usize) -> (v: Vec<u128>)
    ensures
        v@.len() == n,
        forall|i: int| #![trigger v@[i]] 0 <= i < n ==> v@[i] == 0,
{
    let mut v: Vec<u128> = Vec::new();
    let mut i: usize = 0;
    while i < n
        invariant
            i <= n,
            v@.len() == i,
            forall|k: int| #![trigger v@[k]] 0 <= k < i ==> v@[k] == 0,
        decreases n - i,
    {
        v.push(0);
        i += 1;
    }
    v
}

/// Additional record bytes a fresh score record needs for an organization's
/// rubric and the applicant's name.
pub fn register_space_to_add(org: &Org, name: &str) -> (r: usize)
    requires
        4 * (org.ranges@.len() + 1) + 6 * org.weights@.len() + org.levels@.len() + 4 * name@.len()
            <= usize::MAX,
    ensures
        r == 4 * (org.ranges@.len() + 1) + 6 * org.weights@.len() + org.levels@.len() + 4
            * name@.len(),
{
    let n = name.unicode_len();
    4 * (org.ranges.len() + 1) + 4 * org.weights.len() + org.levels.len() + 4 * n + 2
        * org.weights.len()
}

/// The applicant's own submission counter: one more review sent. Requires the
/// organization authority; a saturated counter is rejected.
pub fn send_score(org: &Org, score: &mut Score, caller: Key) -> (r: Result<(), GrowthError>)
    ensures
        (r == Err::<(), GrowthError>(GrowthError::AuthorityMismatch)) <==> caller != org.authority,
        (r == Err::<(), GrowthError>(GrowthError::CounterOverflow)) <==> (caller == org.authority
            && old(score).reviews_sent == u16::MAX),
        r is Ok <==> (caller == org.authority && old(score).reviews_sent < u16::MAX),
        r is Ok ==> final(score).reviews_sent == old(score).reviews_sent + 1,
        r is Err ==> *final(score) == *old(score),
        final(score).name == old(score).name,
        final(score).scores == old(score).scores,
        final(score).scores_sum == old(score).scores_sum,
        final(score).reviews_received == old(score).reviews_received,
        final(score).levels == old(score).levels,
        final(score).last_update == old(score).last_update,
        final(score).applicant == old(score).applicant,
        final(score).mint == old(score).mint,
        final(score).bump == old(score).bump,
{
    if !(caller == org.authority) {
        return Err(GrowthError::AuthorityMismatch);
    }
    if score.reviews_sent == u16::MAX {
        return Err(GrowthError::CounterOverflow);
    }
    score.reviews_sent = score.reviews_sent + 1;
    Ok(())
}

/// The collection-verification decision: whether the badge's collection
/// membership still needs to be attested. Requires the organization
/// authority; an already verified badge needs nothing.
pub fn verify(org: &Org, caller: Key, already_verified: bool) -> (r: Result<bool, GrowthError>)
    ensures
        (r == Err::<bool, GrowthError>(GrowthError::AuthorityMismatch)) <==> caller != org.authority,
        caller == org.authority ==> r == Ok::<bool, GrowthError>(!already_verified),
{
    if !(caller == org.authority) {
        return Err(GrowthError::AuthorityMismatch);
    }
    Ok(!already_verified)
}

} // verus!
