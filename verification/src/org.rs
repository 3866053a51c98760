use vstd::prelude::*;

use crate::error::GrowthError;
use crate::key::Key;

verus! {

/// Per-organization configuration: the rubric weights, the group boundaries,
/// the per-group threshold ladders, the review quorum and the cooldown
/// window. Immutable after creation except for its storage footprint.
///
/// Weights and thresholds are plain integers in units the organization
/// chooses; only their relative magnitudes matter to the engine.
pub struct Org {
    pub name: String,
    pub min_reviews: u8,
    pub weights: Vec<u32>,
    pub ranges: Vec<u8>,
    pub levels: Vec<Vec<u64>>,
    pub mint: Key,
    pub authority: Key,
    pub domain: String,
    pub bump: u8,
    pub level_wait: i32,
}

/// Adjacent entries grow strictly.
pub open spec fn strictly_ascending_u8(s: Seq<u8>) -> bool {
    forall|i: int| #![trigger s[i]] 0 < i < s.len() ==> s[i - 1] < s[i]
}

/// Adjacent entries grow strictly.
pub open spec fn strictly_ascending_u64(s: Seq<u64>) -> bool {
    forall|i: int| #![trigger s[i]] 0 < i < s.len() ==> s[i - 1] < s[i]
}

/// The group boundaries are strictly ascending and each lies inside
/// `[1, criteria - 1]`, so every boundary splits the criteria properly.
pub open spec fn ranges_well_formed(ranges: Seq<u8>, criteria: int) -> bool {
    &&& forall|i: int| #![trigger ranges[i]] 0 <= i < ranges.len() ==> 1 <= ranges[i] && ranges[i] < criteria
    &&& strictly_ascending_u8(ranges)
}

/// Every ladder is short enough for a level to be counted in a `u8`.
pub open spec fn ladders_short_enough(levels: Seq<Vec<u64>>) -> bool {
    forall|g: int| #![trigger levels[g]] 0 <= g < levels.len() ==> levels[g]@.len() <= u8::MAX
}

/// Every ladder is strictly ascending.
pub open spec fn ladders_ascending(levels: Seq<Vec<u64>>) -> bool {
    forall|g: int| #![trigger levels[g]] 0 <= g < levels.len() ==> strictly_ascending_u64(levels[g]@)
}

/// Everything registry creation checks before any state is written.
pub open spec fn org_config_valid(weights: Seq<u32>, ranges: Seq<u8>, levels: Seq<Vec<u64>>) -> bool {
    &&& ranges.len() + 1 == levels.len()
    &&& weights.len() <= u32::MAX
    &&& ranges_well_formed(ranges, weights.len() as int)
    &&& ladders_short_enough(levels)
    &&& ladders_ascending(levels)
}

/// First criterion index of group `g` (inclusive).
pub open spec fn group_start(ranges: Seq<u8>, g: int) -> int {
    if g <= 0 {
        0
    } else {
        ranges[g - 1] as int
    }
}

/// One past the last criterion index of group `g` (exclusive).
pub open spec fn group_end(ranges: Seq<u8>, criteria: int, g: int) -> int {
    if g < ranges.len() {
        ranges[g] as int
    } else {
        criteria
    }
}

impl Org {
    /// The creation-time configuration invariant.
    pub open spec fn wf(&self) -> bool {
        org_config_valid(self.weights@, self.ranges@, self.levels@)
    }

    /// Number of criterion groups.
    pub open spec fn group_count(&self) -> int {
        self.levels@.len() as int
    }
}

/// Validates an organization's configuration and assembles the registry.
///
/// Succeeds exactly when the configuration is well formed: the boundary count
/// matches the ladder count, the boundaries are strictly ascending inside the
/// rubric, and every ladder is strictly ascending and short enough for its
/// levels to be counted in a `u8`. Rejected inputs leave no state behind.
pub fn create_organization(
    weights: Vec<u32>,
    ranges: Vec<u8>,
    levels: Vec<Vec<u64>>,
    name: String,
    min_reviews: u8,
    domain: String,
    level_wait: i32,
    mint: Key,
    authority: Key,
    bump: u8,
) -> (r: Result<Org, GrowthError>)
    ensures
        r is Ok <==> org_config_valid(weights@, ranges@, levels@),
        r matches Ok(org) ==> {
            &&& org.wf()
            &&& org.name == name
            &&& org.min_reviews == min_reviews
            &&& org.weights == weights
            &&& org.ranges == ranges
            &&& org.levels == levels
            &&& org.mint == mint
            &&& org.authority == authority
            &&& org.domain == domain
            &&& org.bump == bump
            &&& org.level_wait == level_wait
        },
        r == Err::<Org, GrowthError>(GrowthError::GroupCountMismatch) <==> ranges@.len() + 1 != levels@.len(),
        r == Err::<Org, GrowthError>(GrowthError::TooManyCriteria) <==> ranges@.len() + 1 == levels@.len() && weights@.len() > u32::MAX,
        r == Err::<Org, GrowthError>(GrowthError::InvalidRanges) <==> {
            &&& ranges@.len() + 1 == levels@.len()
            &&& weights@.len() <= u32::MAX
            &&& !ranges_well_formed(ranges@, weights@.len() as int)
        },
        r == Err::<Org, GrowthError>(GrowthError::LadderTooLong) <==> {
            &&& ranges@.len() + 1 == levels@.len()
            &&& weights@.len() <= u32::MAX
            &&& ranges_well_formed(ranges@, weights@.len() as int)
            &&& !ladders_short_enough(levels@)
        },
        r == Err::<Org, GrowthError>(GrowthError::LadderNotAscending) <==> {
            &&& ranges@.len() + 1 == levels@.len()
            &&& weights@.len() <= u32::MAX
            &&& ranges_well_formed(ranges@, weights@.len() as int)
            &&& ladders_short_enough(levels@)
            &&& !ladders_ascending(levels@)
        },
{
    if levels.len() == 0 || ranges.len() != levels.len() - 1 {
        return Err(GrowthError::GroupCountMismatch);
    }
    if weights.len() > u32::MAX as usize {
        return Err(GrowthError::TooManyCriteria);
    }
    let mut i: usize = 0;
    while i < ranges.len()
        invariant
            i <= ranges@.len(),
            ranges@.len() + 1 == levels@.len(),
            weights@.len() <= u32::MAX,
            forall|k: int| #![trigger ranges@[k]] 0 <= k < i ==> 1 <= ranges@[k] && ranges@[k] < weights@.len(),
            forall|k: int| #![trigger ranges@[k]] 0 < k < i ==> ranges@[k - 1] < ranges@[k],
        decreases ranges@.len() - i,
    {
        let b = ranges[i];
        if b < 1 || b as usize >= weights.len() {
            proof {
                assert(!(1 <= ranges@[i as int] && ranges@[i as int] < weights@.len()));
            }
            return Err(GrowthError::InvalidRanges);
        }
        if i > 0 && ranges[i - 1] >= b {
            proof {
                assert(!(ranges@[i - 1] < ranges@[i as int]));
            }
            return Err(GrowthError::InvalidRanges);
        }
        i += 1;
    }
    let mut g: usize = 0;
    while g < levels.len()
        invariant
            g <= levels@.len(),
            ranges@.len() + 1 == levels@.len(),
            weights@.len() <= u32::MAX,
            ranges_well_formed(ranges@, weights@.len() as int),
            forall|k: int| #![trigger levels@[k]] 0 <= k < g ==> levels@[k]@.len() <= u8::MAX,
        decreases levels@.len() - g,
    {
        if levels[g].len() > u8::MAX as usize {
            proof {
                assert(!(levels@[g as int]@.len() <= u8::MAX));
            }
            return Err(GrowthError::LadderTooLong);
        }
        g += 1;
    }
    let mut g: usize = 0;
    while g < levels.len()
        invariant
            g <= levels@.len(),
            ranges@.len() + 1 == levels@.len(),
            weights@.len() <= u32::MAX,
            ranges_well_formed(ranges@, weights@.len() as int),
            ladders_short_enough(levels@),
            forall|k: int| #![trigger levels@[k]] 0 <= k < g ==> strictly_ascending_u64(levels@[k]@),
        decreases levels@.len() - g,
    {
        let ladder = &levels[g];
        let mut j: usize = 1;
        while j < ladder.len()
            invariant
                1 <= j,
                g < levels@.len(),
                ranges@.len() + 1 == levels@.len(),
                weights@.len() <= u32::MAX,
                ranges_well_formed(ranges@, weights@.len() as int),
                ladders_short_enough(levels@),
                ladder == &levels@[g as int],
                forall|k: int| #![trigger ladder@[k]] 0 < k < j ==> ladder@[k - 1] < ladder@[k],
            decreases ladder@.len() - j,
        {
            if ladder[j - 1] >= ladder[j] {
                proof {
                    assert(!(ladder@[j - 1] < ladder@[j as int]));
                    assert(!strictly_ascending_u64(levels@[g as int]@));
                }
                return Err(GrowthError::LadderNotAscending);
            }
            j += 1;
        }
        g += 1;
    }
    Ok(Org { name, min_reviews, weights, ranges, levels, mint, authority, domain, bump, level_wait })
}

/// Threshold entries over all ladders, for sizing the registry's record.
pub open spec fn total_thresholds(levels: Seq<Vec<u64>>) -> nat
    decreases levels.len(),
{
    if levels.len() == 0 {
        0
    } else {
        total_thresholds(levels.drop_last()) + levels.last()@.len()
    }
}

proof fn lemma_total_thresholds_take_le(levels: Seq<Vec<u64>>, i: int)
    requires
        0 <= i <= levels.len(),
    ensures
        total_thresholds(levels.take(i)) <= total_thresholds(levels),
    decreases levels.len() - i,
{
    if i == levels.len() {
        assert(levels.take(i) =~= levels);
    } else {
        assert(levels.take(i + 1).drop_last() =~= levels.take(i));
        lemma_total_thresholds_take_le(levels, i + 1);
    }
}

/// Additional record bytes the registry needs once its configuration is
/// known: four bytes per threshold, one per group, and a fixed allowance for
/// the name and domain strings.
pub fn organization_space_to_add(org: &Org) -> (r: usize)
    requires
        4 * total_thresholds(org.levels@) + org.levels@.len() + 100 <= usize::MAX,
    ensures
        r == 4 * total_thresholds(org.levels@) + org.levels@.len() + 100,
{
    let mut total: usize = 0;
    let mut g: usize = 0;
    while g < org.levels.len()
        invariant
            g <= org.levels@.len(),
            total == total_thresholds(org.levels@.take(g as int)),
            4 * total_thresholds(org.levels@) + org.levels@.len() + 100 <= usize::MAX,
        decreases org.levels@.len() - g,
    {
        proof {
            assert(org.levels@.take(g + 1).drop_last() =~= org.levels@.take(g as int));
            assert(org.levels@.take(g + 1).last() == org.levels@[g as int]);
            lemma_total_thresholds_take_le(org.levels@, g + 1);
        }
        total = total + org.levels[g].len();
        g += 1;
    }
    proof {
        assert(org.levels@.take(org.levels@.len() as int) =~= org.levels@);
    }
    4 * total + org.levels.len() + 50 + 50
}

} // verus!
