//! Matching strategies.
//!
//! A *strategy* is one way to match a query token against one derived key.
//! The engine tries every applicable strategy on every enabled field and keeps
//! the best hit per token:
//!
//! * `Exact` / `Prefix` / `Contains` — contiguous matches on the case-folded
//!   key (Exact requires the whole key, Prefix a match at the first char).
//! * `PinyinFull` / `PinyinInitial` / `EnglishInitials` — contiguous matches
//!   against the derived keys (names and aliases, Latin tokens only).
//! * `Subsequence` — ordered, non-contiguous characters on the folded key.
//! * `EditDistance` — Levenshtein within `settings.max_edit_distance` of the
//!   whole folded key or of any of its words.
//!
//! Every range is in characters of the original display string; derived keys
//! map back through their `origins`.

use vstd::prelude::*;

use crate::domain::AppSettings;
use crate::text::{chars_of, split_words, words};

use super::keys::{key_wf, DerivedKeys, FieldKeys, FieldKeysView, MappedText, enabled_only};
use super::query::{Query, Token, TokenKind};
use super::scoring::{candidate_rank, rank_spec};
use super::search_entry::SearchField;

verus! {

/// The strategy that produced a hit.
#[derive(Debug, Clone, Copy, PartialEq, Eq, Hash, Structural)]
pub enum MatchStrategy {
    Exact,
    Prefix,
    Contains,
    PinyinFull,
    PinyinInitial,
    EnglishInitials,
    Subsequence,
    EditDistance,
}

/// The stable label of a strategy.
pub open spec fn strategy_label(s: MatchStrategy) -> Seq<char> {
    match s {
        MatchStrategy::Exact => "exact"@,
        MatchStrategy::Prefix => "prefix"@,
        MatchStrategy::Contains => "contains"@,
        MatchStrategy::PinyinFull => "pinyin_full"@,
        MatchStrategy::PinyinInitial => "pinyin_initial"@,
        MatchStrategy::EnglishInitials => "english_initials"@,
        MatchStrategy::Subsequence => "subsequence"@,
        MatchStrategy::EditDistance => "edit_distance"@,
    }
}

impl MatchStrategy {
    /// The stable label of this strategy.
    pub fn as_str(&self) -> (r: &'static str)
        ensures
            r@ == strategy_label(*self),
    {
        match self {
            MatchStrategy::Exact => "exact",
            MatchStrategy::Prefix => "prefix",
            MatchStrategy::Contains => "contains",
            MatchStrategy::PinyinFull => "pinyin_full",
            MatchStrategy::PinyinInitial => "pinyin_initial",
            MatchStrategy::EnglishInitials => "english_initials",
            MatchStrategy::Subsequence => "subsequence",
            MatchStrategy::EditDistance => "edit_distance",
        }
    }
}

/// One field's best hit for one token.
#[derive(Debug, Clone, Copy, PartialEq, Eq)]
pub struct FieldCoin {
    pub field: SearchField,
    pub strategy: MatchStrategy,
    /// Range in the original source string (char indices, half-open); `None`
    /// for edit-distance hits, which have no single span.
    pub range_chars: Option<(usize, usize)>,
}

/// Whether `needle` occurs in `hay` starting at `i`.
pub open spec fn occurs_at(hay: Seq<char>, needle: Seq<char>, i: int) -> bool {
    0 <= i && i + needle.len() <= hay.len() && hay.subrange(i, i + needle.len()) == needle
}

/// The first occurrence of `needle` in `hay` at or after `i`.
pub open spec fn first_occurrence_from(hay: Seq<char>, needle: Seq<char>, i: nat) -> Option<nat>
    decreases hay.len() + 1 - i,
{
    if i + needle.len() > hay.len() {
        None
    } else if occurs_at(hay, needle, i as int) {
        Some(i)
    } else {
        first_occurrence_from(hay, needle, i + 1)
    }
}

/// Char span `(start, end)` of the first occurrence of a non-empty `needle`
/// in a non-empty `hay` (`str::find`, counted in chars).
pub open spec fn find_span(hay: Seq<char>, needle: Seq<char>) -> Option<(nat, nat)> {
    if needle.len() == 0 || hay.len() == 0 {
        None
    } else {
        match first_occurrence_from(hay, needle, 0) {
            Some(s) => Some((s, s + needle.len())),
            None => None,
        }
    }
}

/// Law: `first_occurrence_from` finds the smallest occurrence at or after `i`.
pub proof fn lemma_first_occurrence(hay: Seq<char>, needle: Seq<char>, i: nat)
    ensures
        first_occurrence_from(hay, needle, i) matches Some(s) ==> i <= s && occurs_at(
            hay,
            needle,
            s as int,
        ) && forall|j: int| i <= j < s ==> !occurs_at(hay, needle, j),
        first_occurrence_from(hay, needle, i) is None ==> forall|j: int|
            i <= j ==> !occurs_at(hay, needle, j),
    decreases hay.len() + 1 - i,
{
    if i + needle.len() <= hay.len() && !occurs_at(hay, needle, i as int) {
        lemma_first_occurrence(hay, needle, i + 1);
    }
}

/// Substring search returning char indices of the key string.
fn find_contiguous(hay: &Vec<char>, needle: &Vec<char>) -> (r: Option<(usize, usize)>)
    ensures
        match find_span(hay@, needle@) {
            Some((s, e)) => r == Some((s as usize, e as usize)) && s <= e <= hay@.len(),
            None => r is None,
        },
{
    if needle.len() == 0 || hay.len() == 0 {
        return None;
    }
    if needle.len() > hay.len() {
        assert(first_occurrence_from(hay@, needle@, 0) is None);
        return None;
    }
    let mut i: usize = 0;
    let n = hay.len();
    let last = hay.len() - needle.len();
    while i <= last
        invariant
            hay@.len() == n,
            needle@.len() > 0,
            last + needle@.len() == hay@.len(),
            last < usize::MAX,
            i <= last + 1,
            first_occurrence_from(hay@, needle@, 0) == first_occurrence_from(hay@, needle@, i as nat),
        decreases last + 1 - i,
    {
        let mut k: usize = 0;
        while k < needle.len() && hay[i + k] == needle[k]
            invariant
                hay@.len() == n,
                i <= last,
                last + needle@.len() == hay@.len(),
                k <= needle@.len(),
                i + k <= hay@.len(),
                forall|j: int| 0 <= j < k ==> hay@[i + j] == needle@[j],
            decreases needle@.len() - k,
        {
            k = k + 1;
        }
        if k == needle.len() {
            assert(hay@.subrange(i as int, i + needle@.len()) =~= needle@);
            return Some((i, i + needle.len()));
        }
        assert(hay@.subrange(i as int, i + needle@.len())[k as int] != needle@[k as int]);
        i = i + 1;
    }
    None
}

/// Map a key span back to original source chars via the key's `origins`.
pub open spec fn map_range_spec(key: (Seq<char>, Seq<usize>), start: int, end: int) -> Option<
    (usize, usize),
> {
    if start >= end || start >= key.1.len() {
        None
    } else {
        Some((key.1[start], (key.1[end - 1] + 1) as usize))
    }
}

/// Map a key span back to original source chars via the key's `origins`.
pub fn map_key_range(key: &MappedText, key_start: usize, key_end: usize) -> (r: Option<(usize, usize)>)
    requires
        key_wf(key@),
        key_end <= key@.0.len(),
    ensures
        r == map_range_spec(key@, key_start as int, key_end as int),
{
    if key_start >= key_end || key_start >= key.origins.len() {
        return None;
    }
    let first_origin = key.origins[key_start];
    let last_origin = key.origins[key_end - 1];
    Some((first_origin, last_origin + 1))
}

/// The contiguous-strategy range of `pattern` in `key`: `Exact` needs the
/// whole key, `Prefix` a match at char 0, any other strategy any match.
pub open spec fn contiguous_spec(key: (Seq<char>, Seq<usize>), pattern: Seq<char>, strategy: MatchStrategy) -> Option<(usize, usize)> {
    match find_span(key.0, pattern) {
        Some((s, e)) => if (strategy is Exact && (s != 0 || e != key.0.len())) || (strategy is Prefix && s != 0) {
            None
        } else {
            map_range_spec(key, s as int, e as int)
        },
        None => None,
    }
}

fn contiguous(key: &MappedText, pattern: &Vec<char>, strategy: MatchStrategy) -> (r: Option<(usize, usize)>)
    requires
        key_wf(key@),
    ensures
        r == contiguous_spec(key@, pattern@, strategy),
{
    let text = chars_of(key.text.as_str());
    let len = text.len();
    assert(text@.len() == len);
    match find_contiguous(&text, pattern) {
        Some((start, end)) => {
            let exact_fails = match strategy {
                MatchStrategy::Exact => start != 0 || end != text.len(),
                _ => false,
            };
            let prefix_fails = match strategy {
                MatchStrategy::Prefix => start != 0,
                _ => false,
            };
            if exact_fails || prefix_fails {
                None
            } else {
                map_key_range(key, start, end)
            }
        },
        None => None,
    }
}

/// Whole-key match (the folded key equals the pattern).
pub fn exact(key: &MappedText, pattern: &Vec<char>) -> (r: Option<(usize, usize)>)
    requires
        key_wf(key@),
    ensures
        r == contiguous_spec(key@, pattern@, MatchStrategy::Exact),
{
    contiguous(key, pattern, MatchStrategy::Exact)
}

/// Match at the first key char.
pub fn prefix(key: &MappedText, pattern: &Vec<char>) -> (r: Option<(usize, usize)>)
    requires
        key_wf(key@),
    ensures
        r == contiguous_spec(key@, pattern@, MatchStrategy::Prefix),
{
    contiguous(key, pattern, MatchStrategy::Prefix)
}

/// Match anywhere in the key.
pub fn contains(key: &MappedText, pattern: &Vec<char>) -> (r: Option<(usize, usize)>)
    requires
        key_wf(key@),
    ensures
        r == contiguous_spec(key@, pattern@, MatchStrategy::Contains),
{
    contiguous(key, pattern, MatchStrategy::Contains)
}

/// State of the greedy left-to-right subsequence scan after the first `n`
/// key chars: (pattern chars matched, key index of the first match, key index
/// of the latest match).
pub open spec fn scan_state(text: Seq<char>, pattern: Seq<char>, n: int) -> (int, int, int)
    decreases n,
{
    if n <= 0 {
        (0, 0, 0)
    } else {
        let (m, f, l) = scan_state(text, pattern, n - 1);
        if m < pattern.len() && text[n - 1] == pattern[m] {
            (m + 1, if m == 0 {
                n - 1
            } else {
                f
            }, n - 1)
        } else {
            (m, f, l)
        }
    }
}

/// Ordered, non-contiguous subsequence match: the greedy scan must consume the
/// whole (non-empty) pattern; the range spans from the origin of the first
/// matched key char to the origin of the last one.
pub open spec fn subsequence_spec(key: (Seq<char>, Seq<usize>), pattern: Seq<char>) -> Option<
    (usize, usize),
> {
    let (m, f, l) = scan_state(key.0, pattern, key.0.len() as int);
    if pattern.len() == 0 || m < pattern.len() {
        None
    } else {
        Some((key.1[f], (key.1[l] + 1) as usize))
    }
}

proof fn lemma_scan_bounds(text: Seq<char>, pattern: Seq<char>, n: int)
    requires
        0 <= n <= text.len(),
    ensures
        ({
            let (m, f, l) = scan_state(text, pattern, n);
            &&& 0 <= m <= pattern.len()
            &&& m <= n
            &&& m > 0 ==> 0 <= f <= l < n
        }),
    decreases n,
{
    if n > 0 {
        lemma_scan_bounds(text, pattern, n - 1);
    }
}

/// Ordered, non-contiguous subsequence match (see [`subsequence_spec`]).
pub fn subsequence_chars(key: &MappedText, pattern: &Vec<char>) -> (r: Option<(usize, usize)>)
    requires
        key_wf(key@),
    ensures
        r == subsequence_spec(key@, pattern@),
{
    if pattern.len() == 0 {
        return None;
    }
    let text = chars_of(key.text.as_str());
    let mut matched: usize = 0;
    let mut first: usize = 0;
    let mut last: usize = 0;
    let mut i: usize = 0;
    while i < text.len()
        invariant
            text@ == key@.0,
            key_wf(key@),
            0 <= i <= text@.len(),
            (matched as int, first as int, last as int) == scan_state(text@, pattern@, i as int),
            matched <= pattern@.len(),
            matched > 0 ==> first <= last < i,
        decreases text@.len() - i,
    {
        proof {
            lemma_scan_bounds(text@, pattern@, i + 1);
        }
        if matched < pattern.len() && text[i] == pattern[matched] {
            if matched == 0 {
                first = i;
            }
            last = i;
            matched = matched + 1;
        }
        i = i + 1;
    }
    proof {
        lemma_scan_bounds(text@, pattern@, text@.len() as int);
    }
    if matched < pattern.len() {
        return None;
    }
    let start = key.origins[first];
    let end = key.origins[last] + 1;
    Some((start, end))
}

/// Char-based Levenshtein distance.
pub open spec fn lev(a: Seq<char>, b: Seq<char>) -> nat
    decreases a.len() + b.len(),
{
    if a.len() == 0 {
        b.len()
    } else if b.len() == 0 {
        a.len()
    } else {
        let del = lev(a.drop_last(), b) + 1;
        let ins = lev(a, b.drop_last()) + 1;
        let sub = lev(a.drop_last(), b.drop_last()) + if a.last() == b.last() {
            0nat
        } else {
            1nat
        };
        if del <= ins && del <= sub {
            del
        } else if ins <= sub {
            ins
        } else {
            sub
        }
    }
}

/// Law: the distance is symmetric.
pub proof fn lemma_lev_symmetric(a: Seq<char>, b: Seq<char>)
    ensures
        lev(a, b) == lev(b, a),
    decreases a.len() + b.len(),
{
    if a.len() > 0 && b.len() > 0 {
        lemma_lev_symmetric(a.drop_last(), b);
        lemma_lev_symmetric(a, b.drop_last());
        lemma_lev_symmetric(a.drop_last(), b.drop_last());
    }
}

/// Law: a sequence is at distance zero from itself.
pub proof fn lemma_lev_self(a: Seq<char>)
    ensures
        lev(a, a) == 0,
    decreases a.len(),
{
    if a.len() > 0 {
        lemma_lev_self(a.drop_last());
    }
}

/// The distance never exceeds the longer length.
proof fn lemma_lev_bound(a: Seq<char>, b: Seq<char>)
    ensures
        lev(a, b) <= if a.len() >= b.len() {
            a.len()
        } else {
            b.len()
        },
    decreases a.len() + b.len(),
{
    if a.len() > 0 && b.len() > 0 {
        lemma_lev_bound(a.drop_last(), b.drop_last());
    }
}

/// Char-based Levenshtein distance between `a` and `b`.
pub fn levenshtein_chars(a: &Vec<char>, b: &Vec<char>) -> (r: u64)
    ensures
        r == lev(a@, b@),
{
    let m = b.len();
    let mut previous: Vec<u64> = Vec::new();
    previous.push(0);
    assert(b@.take(0) =~= Seq::<char>::empty());
    let mut j: usize = 0;
    while j < m
        invariant
            m == b@.len(),
            j <= m,
            previous@.len() == j + 1,
            forall|k: int| 0 <= k <= j ==> previous@[k] == lev(seq![], b@.take(k)),
        decreases m - j,
    {
        previous.push((j + 1) as u64);
        j = j + 1;
    }
    let plen = previous.len();
    assert(plen == m + 1);
    let mut current: Vec<u64> = Vec::new();
    let alen = a.len();
    assert(a@.len() == alen);
    let mut i: usize = 0;
    while i < a.len()
        invariant
            m == b@.len(),
            m < usize::MAX,
            a@.len() == alen,
            i <= a@.len(),
            previous@.len() == m + 1,
            forall|k: int| 0 <= k <= m ==> #[trigger] previous@[k] == lev(a@.take(i as int), b@.take(k)),
        decreases a@.len() - i,
    {
        let ghost ai = a@.take(i as int);
        let ghost ai1 = a@.take(i + 1);
        assert(ai1.drop_last() == ai);
        current = Vec::new();
        current.push((i + 1) as u64);
        assert(b@.take(0) =~= Seq::<char>::empty());
        let mut j: usize = 0;
        while j < m
            invariant
                m == b@.len(),
                m < usize::MAX,
                a@.len() == alen,
                i < a@.len(),
                ai == a@.take(i as int),
                ai1 == a@.take(i + 1),
                ai1.drop_last() == ai,
                ai1.last() == a@[i as int],
                previous@.len() == m + 1,
                forall|k: int| 0 <= k <= m ==> #[trigger] previous@[k] == lev(ai, b@.take(k)),
                j <= m,
                current@.len() == j + 1,
                forall|k: int| 0 <= k <= j ==> #[trigger] current@[k] == lev(ai1, b@.take(k)),
            decreases m - j,
        {
            let ghost bj1 = b@.take(j + 1);
            assert(bj1.drop_last() == b@.take(j as int));
            assert(bj1.last() == b@[j as int]);
            proof {
                lemma_lev_bound(ai, bj1);
                lemma_lev_bound(ai1, b@.take(j as int));
                lemma_lev_bound(ai, b@.take(j as int));
            }
            let cost: u64 = if a[i] == b[j] {
                0
            } else {
                1
            };
            assert(previous@[j + 1] == lev(ai, bj1));
            assert(current@[j as int] == lev(ai1, b@.take(j as int)));
            let del = previous[j + 1] + 1;
            let ins = current[j].saturating_add(1);
            let sub = previous[j] + cost;
            let best = if del <= ins && del <= sub {
                del
            } else if ins <= sub {
                ins
            } else {
                sub
            };
            current.push(best);
            j = j + 1;
        }
        std::mem::swap(&mut previous, &mut current);
        i = i + 1;
    }
    assert(a@.take(a@.len() as int) == a@);
    assert(b@.take(m as int) == b@);
    previous[m]
}

/// Typo tolerance: with a positive limit, the pattern is within `max` edits
/// of the whole key or of any whitespace-separated word of it.
pub open spec fn edit_distance_spec(pattern: Seq<char>, key_text: Seq<char>, max: u64) -> bool {
    max > 0 && (lev(pattern, key_text) <= max || exists|w: int|
        0 <= w < words(key_text).len() && lev(pattern, #[trigger] words(key_text)[w]) <= max)
}

/// Typo tolerance (see [`edit_distance_spec`]).
pub fn edit_distance_chars(pattern: &Vec<char>, key_text: &Vec<char>, max: u64) -> (r: bool)
    ensures
        r == edit_distance_spec(pattern@, key_text@, max),
{
    if max == 0 {
        return false;
    }
    if levenshtein_chars(pattern, key_text) <= max {
        return true;
    }
    let parts = split_words(key_text);
    for w in 0..parts.len()
        invariant
            max > 0,
            parts@.len() == words(key_text@).len(),
            forall|k: int| 0 <= k < parts@.len() ==> #[trigger] parts@[k]@ == words(key_text@)[k],
            forall|k: int| 0 <= k < w ==> lev(pattern@, #[trigger] words(key_text@)[k]) > max,
    {
        assert(parts@[w as int]@ == words(key_text@)[w as int]);
        let d = levenshtein_chars(pattern, &parts[w]);
        if d <= max {
            assert(lev(pattern@, words(key_text@)[w as int]) <= max);
            return true;
        }
    }
    false
}

/// The candidate-sorting key of a hit.
pub open spec fn coin_rank(c: FieldCoin) -> u64 {
    rank_spec(c.field, c.strategy)
}

/// The first hit of least rank among `cands` (a later hit replaces the
/// current best only when its rank is strictly lower).
pub open spec fn best_of(cands: Seq<FieldCoin>) -> Option<FieldCoin>
    decreases cands.len(),
{
    if cands.len() == 0 {
        None
    } else {
        match best_of(cands.drop_last()) {
            None => Some(cands.last()),
            Some(b) => if coin_rank(cands.last()) < coin_rank(b) {
                Some(cands.last())
            } else {
                Some(b)
            },
        }
    }
}

/// The present hits among `opts`, in order.
pub open spec fn somes(opts: Seq<Option<FieldCoin>>) -> Seq<FieldCoin>
    decreases opts.len(),
{
    if opts.len() == 0 {
        seq![]
    } else {
        match opts.last() {
            Some(c) => somes(opts.drop_last()).push(c),
            None => somes(opts.drop_last()),
        }
    }
}

/// A hit with a range, when the strategy produced one.
pub open spec fn ranged_coin(field: SearchField, strategy: MatchStrategy, range: Option<(usize, usize)>) -> Option<FieldCoin> {
    match range {
        Some(r) => Some(FieldCoin { field, strategy, range_chars: Some(r) }),
        None => None,
    }
}

/// A contiguous-strategy hit on an optional derived key.
pub open spec fn derived_coin(field: SearchField, key: Option<(Seq<char>, Seq<usize>)>, pattern: Seq<char>, strategy: MatchStrategy) -> Option<FieldCoin> {
    match key {
        Some(k) => ranged_coin(field, strategy, contiguous_spec(k, pattern, strategy)),
        None => None,
    }
}

/// Every strategy tried for one token on one field, in the order tried:
/// exact, prefix, contains (folded key); subsequence and edit distance
/// (folded key, fuzzy only); pinyin full, pinyin initial, english initials
/// (derived keys, Latin tokens only).
pub open spec fn field_candidates(token: (Seq<char>, TokenKind), f: FieldKeysView, s: AppSettings) -> Seq<Option<FieldCoin>> {
    let p = token.0;
    let latin = token.1 is Latin;
    let fuzzy = s.fuzzy_matching;
    seq![
        ranged_coin(f.field, MatchStrategy::Exact, contiguous_spec(f.folded, p, MatchStrategy::Exact)),
        ranged_coin(f.field, MatchStrategy::Prefix, contiguous_spec(f.folded, p, MatchStrategy::Prefix)),
        ranged_coin(f.field, MatchStrategy::Contains, contiguous_spec(f.folded, p, MatchStrategy::Contains)),
        if fuzzy {
            ranged_coin(f.field, MatchStrategy::Subsequence, subsequence_spec(f.folded, p))
        } else {
            None
        },
        if fuzzy && edit_distance_spec(p, f.folded.0, s.max_edit_distance as u64) {
            Some(FieldCoin { field: f.field, strategy: MatchStrategy::EditDistance, range_chars: None })
        } else {
            None
        },
        if latin {
            derived_coin(f.field, f.pinyin_full, p, MatchStrategy::PinyinFull)
        } else {
            None
        },
        if latin {
            derived_coin(f.field, f.pinyin_initial, p, MatchStrategy::PinyinInitial)
        } else {
            None
        },
        if latin {
            derived_coin(f.field, f.english_initial, p, MatchStrategy::EnglishInitials)
        } else {
            None
        },
    ]
}

/// The best hit of one token on one field: none for a disabled field or an
/// empty pattern, else the best of the tried strategies.
pub open spec fn match_field_spec(token: (Seq<char>, TokenKind), f: FieldKeysView, s: AppSettings) -> Option<FieldCoin> {
    if !f.enabled || token.0.len() == 0 {
        None
    } else {
        best_of(somes(field_candidates(token, f, s)))
    }
}

/// Take one more candidate into account.
fn consider(best: &mut Option<FieldCoin>, candidate: Option<FieldCoin>, Ghost(done): Ghost<Seq<Option<FieldCoin>>>)
    requires
        *old(best) == best_of(somes(done)),
    ensures
        *final(best) == best_of(somes(done.push(candidate))),
{
    assert(done.push(candidate).drop_last() == done);
    match candidate {
        Some(c) => {
            assert(somes(done.push(candidate)).drop_last() == somes(done));
            adopt(best, c);
        },
        None => {},
    }
}

/// Adopt a candidate if its rank beats the current best.
fn adopt(best: &mut Option<FieldCoin>, candidate: FieldCoin)
    ensures
        *final(best) == (match *old(best) {
            None => Some(candidate),
            Some(b) => if coin_rank(candidate) < coin_rank(b) {
                Some(candidate)
            } else {
                Some(b)
            },
        }),
{
    let better = match best {
        None => true,
        Some(current) => candidate_rank(candidate.field, candidate.strategy) < candidate_rank(
            current.field,
            current.strategy,
        ),
    };
    if better {
        *best = Some(candidate);
    }
}

fn ranged(field: SearchField, strategy: MatchStrategy, range: Option<(usize, usize)>) -> (r: Option<FieldCoin>)
    ensures
        r == ranged_coin(field, strategy, range),
{
    match range {
        Some(span) => Some(FieldCoin { field, strategy, range_chars: Some(span) }),
        None => None,
    }
}

fn derived(field: SearchField, key: Option<&MappedText>, pattern: &Vec<char>, strategy: MatchStrategy) -> (r: Option<FieldCoin>)
    requires
        key matches Some(k) ==> key_wf(k@),
    ensures
        r == derived_coin(field, match key {
            Some(k) => Some(k@),
            None => None,
        }, pattern@, strategy),
{
    match key {
        Some(k) => ranged(field, strategy, contiguous(k, pattern, strategy)),
        None => None,
    }
}

/// Char-based Levenshtein distance between `a` and `b` (see [`lev`]).
pub fn levenshtein(a: &str, b: &str) -> (r: u64)
    ensures
        r == lev(a@, b@),
{
    let ca = chars_of(a);
    let cb = chars_of(b);
    levenshtein_chars(&ca, &cb)
}

/// Typo tolerance over strings (see [`edit_distance_spec`]).
pub fn edit_distance_match(pattern: &str, key_text: &str, max: u64) -> (r: bool)
    ensures
        r == edit_distance_spec(pattern@, key_text@, max),
{
    let cp = chars_of(pattern);
    let ck = chars_of(key_text);
    edit_distance_chars(&cp, &ck, max)
}

/// Ordered subsequence of `pattern` in the key (see [`subsequence_spec`]).
pub fn subsequence(key: &MappedText, pattern: &str) -> (r: Option<(usize, usize)>)
    requires
        key_wf(key@),
    ensures
        r == subsequence_spec(key@, pattern@),
{
    let cp = chars_of(pattern);
    subsequence_chars(key, &cp)
}

/// Match one token against one field's derived keys, returning the best hit.
pub fn match_token_against_field(token: &Token, field: &FieldKeys, settings: &AppSettings) -> (r: Option<FieldCoin>)
    ensures
        r == match_field_spec(token@, field@, *settings),
{
    if !field.is_enabled() {
        return None;
    }
    let pattern = chars_of(token.text());
    if pattern.len() == 0 {
        return None;
    }
    let is_latin = match token.kind() {
        TokenKind::Latin => true,
        TokenKind::Other => false,
    };
    let fuzzy = settings.fuzzy_matching;
    let tag = field.field();
    let folded = field.folded();
    let ghost cands = field_candidates(token@, field@, *settings);
    let mut best: Option<FieldCoin> = None;
    let ghost mut done: Seq<Option<FieldCoin>> = seq![];
    let c = ranged(tag, MatchStrategy::Exact, exact(folded, &pattern));
    consider(&mut best, c, Ghost(done));
    proof { done = done.push(c); }
    let c = ranged(tag, MatchStrategy::Prefix, prefix(folded, &pattern));
    consider(&mut best, c, Ghost(done));
    proof { done = done.push(c); }
    let c = ranged(tag, MatchStrategy::Contains, contains(folded, &pattern));
    consider(&mut best, c, Ghost(done));
    proof { done = done.push(c); }
    let c = if fuzzy {
        ranged(tag, MatchStrategy::Subsequence, subsequence_chars(folded, &pattern))
    } else {
        None
    };
    consider(&mut best, c, Ghost(done));
    proof { done = done.push(c); }
    let c = if fuzzy {
        let key_text = chars_of(folded.text.as_str());
        if edit_distance_chars(&pattern, &key_text, settings.max_edit_distance as u64) {
            Some(FieldCoin { field: tag, strategy: MatchStrategy::EditDistance, range_chars: None })
        } else {
            None
        }
    } else {
        None
    };
    consider(&mut best, c, Ghost(done));
    proof { done = done.push(c); }
    let c = if is_latin {
        derived(tag, field.pinyin_full(), &pattern, MatchStrategy::PinyinFull)
    } else {
        None
    };
    consider(&mut best, c, Ghost(done));
    proof { done = done.push(c); }
    let c = if is_latin {
        derived(tag, field.pinyin_initial(), &pattern, MatchStrategy::PinyinInitial)
    } else {
        None
    };
    consider(&mut best, c, Ghost(done));
    proof { done = done.push(c); }
    let c = if is_latin {
        derived(tag, field.english_initial(), &pattern, MatchStrategy::EnglishInitials)
    } else {
        None
    };
    consider(&mut best, c, Ghost(done));
    proof { done = done.push(c); }
    assert(done =~= cands);
    best
}

/// The best hit of `token` over `fields`: the first hit of least rank among
/// the per-field best hits, in field order.
pub open spec fn token_best(token: (Seq<char>, TokenKind), fields: Seq<FieldKeysView>, s: AppSettings) -> Option<FieldCoin> {
    best_of(somes(fields.map_values(|f: FieldKeysView| match_field_spec(token, f, s))))
}

/// Best hit for one token across all enabled fields of an entry. Different
/// tokens may hit different fields.
pub fn best_hit_for_token(keys: &DerivedKeys, token: &Token, settings: &AppSettings) -> (r: Option<FieldCoin>)
    ensures
        r == token_best(token@, enabled_only(keys.all_fields()), *settings),
{
    let fields = keys.enabled_fields();
    let ghost views = enabled_only(keys.all_fields());
    let ghost opts = views.map_values(|f: FieldKeysView| match_field_spec(token@, f, *settings));
    let mut best: Option<FieldCoin> = None;
    for i in 0..fields.len()
        invariant
            fields@.map_values(|k: &FieldKeys| k@) == views,
            opts == views.map_values(|f: FieldKeysView| match_field_spec(token@, f, *settings)),
            best == best_of(somes(opts.take(i as int))),
    {
        let hit = match_token_against_field(token, fields[i], settings);
        assert(fields@[i as int]@ == views[i as int]);
        assert(opts.take(i + 1) == opts.take(i as int).push(hit));
        consider(&mut best, hit, Ghost(opts.take(i as int)));
    }
    assert(opts.take(fields.len() as int) == opts);
    best
}

/// The per-token best hits of a query against `fields`, or `None` when some
/// token matched nothing (multi-token AND).
pub open spec fn all_tokens_best(tokens: Seq<(Seq<char>, TokenKind)>, fields: Seq<FieldKeysView>, s: AppSettings) -> Option<Seq<FieldCoin>> {
    if forall|i: int| 0 <= i < tokens.len() ==> #[trigger] token_best(tokens[i], fields, s) is Some {
        Some(Seq::new(tokens.len(), |i: int| token_best(tokens[i], fields, s)->0))
    } else {
        None
    }
}

/// Match every token (multi-token AND). Returns the per-token best hits, or
/// `None` if any token matched nothing.
pub fn best_hit_for_all_tokens(keys: &DerivedKeys, query: &Query, settings: &AppSettings) -> (r: Option<Vec<FieldCoin>>)
    ensures
        match r {
            Some(v) => all_tokens_best(query@, enabled_only(keys.all_fields()), *settings) == Some(v@),
            None => all_tokens_best(query@, enabled_only(keys.all_fields()), *settings) is None,
        },
{
    let ghost fields = enabled_only(keys.all_fields());
    let tokens = query.tokens();
    let mut hits: Vec<FieldCoin> = Vec::new();
    for i in 0..tokens.len()
        invariant
            fields == enabled_only(keys.all_fields()),
            tokens@.len() == query@.len(),
            forall|j: int| 0 <= j < tokens@.len() ==> #[trigger] tokens@[j]@ == query@[j],
            hits@.len() == i,
            forall|j: int| 0 <= j < i ==> token_best(query@[j], fields, *settings) == Some(#[trigger] hits@[j]),
    {
        match best_hit_for_token(keys, &tokens[i], settings) {
            Some(hit) => {
                hits.push(hit);
            },
            None => {
                assert(token_best(query@[i as int], fields, *settings) is None);
                return None;
            },
        }
    }
    assert forall|j: int| 0 <= j < query@.len() implies #[trigger] token_best(
        query@[j],
        fields,
        *settings,
    ) is Some by {
        assert(token_best(query@[j], fields, *settings) == Some(hits@[j]));
    }
    assert(hits@ =~= Seq::new(query@.len(), |i: int| token_best(query@[i], fields, *settings)->0));
    Some(hits)
}

} // verus!
