//! Public point weights of the scoring layout (informational; tiers trump
//! them).

use vstd::prelude::*;

verus! {

pub const NAME_EXACT_POINTS: u64 = 7;
pub const NAME_PREFIX_POINTS: u64 = 6;
pub const NAME_CONTAINS_POINTS: u64 = 5;
pub const PINYIN_FULL_POINTS: u64 = 4;
pub const PINYIN_INITIAL_POINTS: u64 = 3;
pub const ENGLISH_INITIALS_POINTS: u64 = 3;
pub const SUBSEQUENCE_POINTS: u64 = 2;
pub const EDIT_DISTANCE_POINTS: u64 = 1;
/// Bounded within-tier bonus for a pinned entry (cannot cross a tier).
pub const PINNED_BONUS: u64 = 10_000;
/// Max reachable within-tier manual-weight bias.
pub const MAX_MANUAL_WEIGHT_BIAS: u64 = 200_000;

} // verus!
