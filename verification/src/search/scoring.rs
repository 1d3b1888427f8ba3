//! Deterministic tiered scoring.
//!
//! # Tiers (highest to lowest)
//!
//! 1. `Name` — exact / prefix / contains on the display name;
//! 2. `Alias` — exact / prefix / contains on an alias;
//! 3. `PinyinEng` — pinyin full / pinyin initials / english initials;
//! 4. `Tags`; 5. `Category`; 6. `Path`; 7. `Note`;
//! 8. `Subsequence` — ordered non-contiguous match on any field;
//! 9. `EditDistance` — typo-tolerant match.
//!
//! A hit in a higher tier always outranks a hit in a lower tier. Within a tier
//! the strategy points decide (exact 7 > prefix 6 > contains 5 > pinyin full 4
//! > pinyin initial 3 = english initials 3 > subsequence 2 > edit distance 1).
//! Neither `manual_weight` nor `pinned` can move a result across a tier: both
//! are bounded values packed into a dedicated low bit range of the score.
//!
//! # Total score layout (u64)
//!
//! ```text
//! bits 56..60  quality index (higher = better), inverted from the tier
//! bits 40..55  per-token strategy points sum (16 bits, saturated)
//! bits 20..37  within-tier bonus = manual-weight bias + pinned (18 bits)
//! bits 0..19   reserved (0)
//! ```

use vstd::prelude::*;

use crate::domain::{MAX_MANUAL_WEIGHT, MIN_MANUAL_WEIGHT};

use super::weights;
use super::matching::{FieldCoin, MatchStrategy};
use super::search_entry::{SearchEntry, SearchField, SearchHit, SearchScore};

verus! {

/// Tier of a (field, strategy) hit, best first.
#[derive(Debug, Clone, Copy, PartialEq, Eq, PartialOrd, Ord, Hash, Structural)]
pub enum Tier {
    Name,
    Alias,
    PinyinEng,
    Tags,
    Category,
    Path,
    Note,
    Subsequence,
    EditDistance,
}

/// Position of a tier in the best-first order (0 = `Name`).
pub open spec fn tier_index(tier: Tier) -> u64 {
    match tier {
        Tier::Name => 0,
        Tier::Alias => 1,
        Tier::PinyinEng => 2,
        Tier::Tags => 3,
        Tier::Category => 4,
        Tier::Path => 5,
        Tier::Note => 6,
        Tier::Subsequence => 7,
        Tier::EditDistance => 8,
    }
}

fn tier_position(tier: Tier) -> (r: u64)
    ensures
        r == tier_index(tier),
{
    match tier {
        Tier::Name => 0,
        Tier::Alias => 1,
        Tier::PinyinEng => 2,
        Tier::Tags => 3,
        Tier::Category => 4,
        Tier::Path => 5,
        Tier::Note => 6,
        Tier::Subsequence => 7,
        Tier::EditDistance => 8,
    }
}

/// Quality index of a tier (higher = better): `8 - tier_index`.
pub open spec fn quality(tier: Tier) -> u64 {
    (8 - tier_index(tier)) as u64
}

/// Quality index of a tier (higher = better) for the score layout.
pub fn quality_index(tier: Tier) -> (r: u64)
    ensures
        r == quality(tier),
{
    8 - tier_position(tier)
}

/// The tier of a (field, strategy) hit.
pub open spec fn tier_spec(field: SearchField, strategy: MatchStrategy) -> Tier {
    match strategy {
        MatchStrategy::Exact | MatchStrategy::Prefix | MatchStrategy::Contains => match field {
            SearchField::Name => Tier::Name,
            SearchField::Alias(_) => Tier::Alias,
            SearchField::Tag(_) => Tier::Tags,
            SearchField::Category => Tier::Category,
            SearchField::Path => Tier::Path,
            SearchField::Note => Tier::Note,
        },
        MatchStrategy::PinyinFull | MatchStrategy::PinyinInitial
        | MatchStrategy::EnglishInitials => Tier::PinyinEng,
        MatchStrategy::Subsequence => Tier::Subsequence,
        MatchStrategy::EditDistance => Tier::EditDistance,
    }
}

/// The tier a (field, strategy) hit belongs to.
pub fn tier_of(field: SearchField, strategy: MatchStrategy) -> (r: Tier)
    ensures
        r == tier_spec(field, strategy),
{
    match strategy {
        MatchStrategy::Exact | MatchStrategy::Prefix | MatchStrategy::Contains => match field {
            SearchField::Name => Tier::Name,
            SearchField::Alias(_) => Tier::Alias,
            SearchField::Tag(_) => Tier::Tags,
            SearchField::Category => Tier::Category,
            SearchField::Path => Tier::Path,
            SearchField::Note => Tier::Note,
        },
        MatchStrategy::PinyinFull | MatchStrategy::PinyinInitial
        | MatchStrategy::EnglishInitials => Tier::PinyinEng,
        MatchStrategy::Subsequence => Tier::Subsequence,
        MatchStrategy::EditDistance => Tier::EditDistance,
    }
}

/// Within-tier strategy points (higher = better).
pub open spec fn points_spec(strategy: MatchStrategy) -> u64 {
    match strategy {
        MatchStrategy::Exact => 7,
        MatchStrategy::Prefix => 6,
        MatchStrategy::Contains => 5,
        MatchStrategy::PinyinFull => 4,
        MatchStrategy::PinyinInitial | MatchStrategy::EnglishInitials => 3,
        MatchStrategy::Subsequence => 2,
        MatchStrategy::EditDistance => 1,
    }
}

/// Within-tier strategy points (higher = better).
pub fn strategy_points(strategy: MatchStrategy) -> (r: u64)
    ensures
        r == points_spec(strategy),
{
    match strategy {
        MatchStrategy::Exact => 7,
        MatchStrategy::Prefix => 6,
        MatchStrategy::Contains => 5,
        MatchStrategy::PinyinFull => 4,
        MatchStrategy::PinyinInitial | MatchStrategy::EnglishInitials => 3,
        MatchStrategy::Subsequence => 2,
        MatchStrategy::EditDistance => 1,
    }
}

/// Bit position of the quality index.
pub const TIER_SHIFT: u64 = 56;
/// Bit position of the points sum.
pub const POINTS_SHIFT: u64 = 40;
/// Bit position of the within-tier bonus.
pub const BONUS_SHIFT: u64 = 20;
/// Largest points sum the layout holds.
pub const POINTS_MAX: u64 = 65535;
/// Largest bonus the layout holds.
pub const BONUS_MAX: u64 = 262143;

/// Manual weight clamped to `[MIN_MANUAL_WEIGHT, MAX_MANUAL_WEIGHT]`.
pub open spec fn clamped_weight(w: i16) -> int {
    if w < MIN_MANUAL_WEIGHT {
        MIN_MANUAL_WEIGHT as int
    } else if w > MAX_MANUAL_WEIGHT {
        MAX_MANUAL_WEIGHT as int
    } else {
        w as int
    }
}

/// Manual-weight bias: `(clamp(w, -100, 100) + 100) * 1000`, in
/// `[0, 200_000]`.
pub open spec fn bias_spec(w: i16) -> u64 {
    ((clamped_weight(w) + 100) * 1000) as u64
}

/// Bounded manual-weight bias (see [`bias_spec`]).
pub fn manual_weight_bias(manual_weight: i16) -> (r: u64)
    ensures
        r == bias_spec(manual_weight),
        r <= weights::MAX_MANUAL_WEIGHT_BIAS,
{
    let w: i32 = if manual_weight < MIN_MANUAL_WEIGHT {
        MIN_MANUAL_WEIGHT as i32
    } else if manual_weight > MAX_MANUAL_WEIGHT {
        MAX_MANUAL_WEIGHT as i32
    } else {
        manual_weight as i32
    };
    ((w + 100) as u64) * 1000
}

/// Secondary order among fields of equal (tier, points).
pub open spec fn origin_spec(field: SearchField) -> u64 {
    match field {
        SearchField::Name => 0,
        SearchField::Alias(index) => (index as u64).wrapping_add(1),
        SearchField::Path => 0,
        SearchField::Category => 1,
        SearchField::Tag(index) => (index as u64).wrapping_add(2),
        SearchField::Note => 0xFF_FFFF_FFFF_FFFF,
    }
}

fn origin_order(field: SearchField) -> (r: u64)
    ensures
        r == origin_spec(field),
{
    match field {
        SearchField::Name => 0,
        SearchField::Alias(index) => (index as u64).wrapping_add(1),
        SearchField::Path => 0,
        SearchField::Category => 1,
        SearchField::Tag(index) => (index as u64).wrapping_add(2),
        SearchField::Note => 0xFF_FFFF_FFFF_FFFF,
    }
}

/// Candidate-sorting key used while picking the best hit for one token
/// (lower is better): `((tier << 8 | (8 - points)) << 16) | origin_order`.
pub open spec fn rank_spec(field: SearchField, strategy: MatchStrategy) -> u64 {
    let within = (8 - points_spec(strategy)) as u64;
    let rank = (tier_index(tier_spec(field, strategy)) << 8u64) | within;
    (rank << 16u64) | origin_spec(field)
}

/// Candidate-sorting key (see [`rank_spec`]).
pub fn candidate_rank(field: SearchField, strategy: MatchStrategy) -> (r: u64)
    ensures
        r == rank_spec(field, strategy),
{
    let within = 8u64 - strategy_points(strategy);
    let rank = (tier_position(tier_of(field, strategy)) << 8u64) | within;
    (rank << 16u64) | origin_order(field)
}

/// Worst (highest) tier index among the hits; `EditDistance` when empty.
pub open spec fn worst_tier_index(hits: Seq<FieldCoin>) -> u64
    decreases hits.len(),
{
    if hits.len() == 0 {
        8
    } else if hits.len() == 1 {
        tier_index(tier_spec(hits[0].field, hits[0].strategy))
    } else {
        let rest = worst_tier_index(hits.drop_last());
        let t = tier_index(tier_spec(hits.last().field, hits.last().strategy));
        if t > rest {
            t
        } else {
            rest
        }
    }
}

/// Sum of the strategy points of the hits.
pub open spec fn points_total(hits: Seq<FieldCoin>) -> nat
    decreases hits.len(),
{
    if hits.len() == 0 {
        0
    } else {
        points_total(hits.drop_last()) + points_spec(hits.last().strategy) as nat
    }
}

/// Within-tier bonus: manual-weight bias plus the pinned bonus, capped at
/// `BONUS_MAX`.
pub open spec fn bonus_spec(manual_weight: i16, pinned: bool) -> u64 {
    let raw = bias_spec(manual_weight) + if pinned {
        weights::PINNED_BONUS
    } else {
        0
    };
    if raw > BONUS_MAX {
        BONUS_MAX
    } else {
        raw as u64
    }
}

/// The packed total score of (quality, points, bonus).
pub open spec fn total_spec(quality: u64, points: nat, bonus: u64) -> u64 {
    let p = if points > POINTS_MAX {
        POINTS_MAX as int
    } else {
        points as int
    };
    (quality * 0x100000000000000 + p * 0x10000000000 + bonus * 0x100000) as u64
}

/// The total score of an entry with the given per-token hits.
pub open spec fn score_total(entry: SearchEntry, hits: Seq<FieldCoin>) -> u64 {
    total_spec(
        (8 - worst_tier_index(hits)) as u64,
        points_total(hits),
        bonus_spec(entry.manual_weight, entry.pinned),
    )
}

/// The hit record of one per-token best hit.
pub open spec fn hit_matches(out: SearchHit, c: FieldCoin) -> bool {
    &&& out.field == c.field
    &&& out.strategy@ == super::matching::strategy_label(c.strategy)
    &&& out.score == points_spec(c.strategy)
    &&& out.range == c.range_chars
}

/// Law: a result whose quality index (inverted tier) is higher always has a
/// larger total score, whatever the points and bonuses.
pub proof fn lemma_tier_dominates(q1: u64, p1: nat, b1: u64, q2: u64, p2: nat, b2: u64)
    requires
        q2 < q1 <= 8,
        b1 <= BONUS_MAX,
        b2 <= BONUS_MAX,
    ensures
        total_spec(q1, p1, b1) > total_spec(q2, p2, b2),
{
}

proof fn lemma_worst_tier_bound(hits: Seq<FieldCoin>)
    ensures
        worst_tier_index(hits) <= 8,
    decreases hits.len(),
{
    if hits.len() > 1 {
        lemma_worst_tier_bound(hits.drop_last());
    }
}

/// Build the `SearchScore` for a per-token best-hit set.
pub fn build_score(entry: &SearchEntry, hits: &Vec<FieldCoin>) -> (r: SearchScore)
    ensures
        r.token_count == hits@.len(),
        r.matched_token_count == hits@.len(),
        r.total_score == score_total(*entry, hits@),
        r.hits@.len() == hits@.len(),
        forall|i: int| 0 <= i < hits@.len() ==> hit_matches(#[trigger] r.hits@[i], hits@[i]),
{
    let token_count = hits.len();
    let mut hits_out: Vec<SearchHit> = Vec::new();
    let mut points_sum: u64 = 0;
    let mut worst: u64 = 8;
    for i in 0..hits.len()
        invariant
            token_count == hits@.len(),
            hits_out@.len() == i,
            forall|j: int| 0 <= j < i ==> hit_matches(#[trigger] hits_out@[j], hits@[j]),
            points_sum == if points_total(hits@.take(i as int)) > u64::MAX {
                u64::MAX as int
            } else {
                points_total(hits@.take(i as int)) as int
            },
            worst == worst_tier_index(hits@.take(i as int)),
    {
        let coin = hits[i];
        let points = strategy_points(coin.strategy);
        hits_out.push(SearchHit {
            field: coin.field,
            strategy: coin.strategy.as_str(),
            score: points,
            range: coin.range_chars,
        });
        let ghost prev = hits@.take(i as int);
        assert(hits@.take(i + 1).drop_last() == prev);
        assert(hits@.take(i + 1).last() == coin);
        points_sum = points_sum.saturating_add(points);
        let t = tier_position(tier_of(coin.field, coin.strategy));
        if i == 0 {
            worst = t;
        } else if t > worst {
            worst = t;
        }
    }
    assert(hits@.take(token_count as int) == hits@);
    proof {
        lemma_worst_tier_bound(hits@);
    }
    let quality = 8 - worst;
    let points = if points_sum > POINTS_MAX {
        POINTS_MAX
    } else {
        points_sum
    };
    let bias = manual_weight_bias(entry.manual_weight);
    let raw = bias + if entry.pinned {
        weights::PINNED_BONUS
    } else {
        0
    };
    let bonus = if raw > BONUS_MAX {
        BONUS_MAX
    } else {
        raw
    };
    assert((quality << 56u64) | (points << 40u64) | (bonus << 20u64) == quality * 0x100000000000000
        + points * 0x10000000000 + bonus * 0x100000) by (bit_vector)
        requires
            quality <= 8,
            points <= 65535,
            bonus <= 262143,
    ;
    let total_score = (quality << 56u64) | (points << 40u64) | (bonus << 20u64);
    SearchScore { matched_token_count: token_count, token_count, total_score, hits: hits_out }
}

} // verus!
