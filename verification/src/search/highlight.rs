//! UTF-8-safe highlight ranges.
//!
//! Hits carry ranges in characters of the original display string (derived
//! keys map back through their origins). A range is kept only when it lies
//! inside its field's text, so a caller can slice the original string without
//! ever splitting a character.

use vstd::prelude::*;

use crate::text::chars_of;

use super::matching::{FieldCoin, MatchStrategy};
use super::search_entry::{SearchEntry, SearchField};

verus! {

/// Controls whether highlight ranges are computed.
#[derive(Debug, Clone, Copy, PartialEq, Eq, Structural)]
pub struct HighlightOptions {
    pub compute_highlights: bool,
}

impl Default for HighlightOptions {
    /// Highlights are computed by default.
    fn default() -> (r: HighlightOptions)
        ensures
            r.compute_highlights,
    {
        HighlightOptions { compute_highlights: true }
    }
}

/// One highlighted span on one field.
#[derive(Debug, Clone, Copy, PartialEq, Eq, Structural)]
pub struct HighlightRange {
    pub field: SearchField,
    /// Character index of the first highlighted char (inclusive).
    pub start: usize,
    /// Character index one past the last highlighted char (exclusive).
    pub end: usize,
}

/// The original searchable text of a field, if the entry has that field.
pub open spec fn field_text(entry: SearchEntry, field: SearchField) -> Option<Seq<char>> {
    match field {
        SearchField::Name => Some(entry.display_name@),
        SearchField::Alias(i) => if i < entry.aliases@.len() {
            Some(entry.aliases@[i as int]@)
        } else {
            None
        },
        SearchField::Path => Some(entry.path@),
        SearchField::Category => match entry.category_name {
            Some(c) => Some(c@),
            None => None,
        },
        SearchField::Tag(i) => if i < entry.tag_names@.len() {
            Some(entry.tag_names@[i as int]@)
        } else {
            None
        },
        SearchField::Note => Some(entry.note@),
    }
}

/// The highlight of one hit: its range, unless it is an edit-distance hit,
/// has no range, names a missing field, or is empty or out of bounds.
pub open spec fn highlight_of(entry: SearchEntry, c: FieldCoin) -> Option<HighlightRange> {
    if c.strategy is EditDistance {
        None
    } else {
        match (c.range_chars, field_text(entry, c.field)) {
            (Some((s, e)), Some(text)) => if s < e && e <= text.len() {
                Some(HighlightRange { field: c.field, start: s, end: e })
            } else {
                None
            },
            _ => None,
        }
    }
}

/// The highlights of a hit list, in hit order.
pub open spec fn highlights_spec(entry: SearchEntry, hits: Seq<FieldCoin>) -> Seq<HighlightRange>
    decreases hits.len(),
{
    if hits.len() == 0 {
        seq![]
    } else {
        match highlight_of(entry, hits.last()) {
            Some(h) => highlights_spec(entry, hits.drop_last()).push(h),
            None => highlights_spec(entry, hits.drop_last()),
        }
    }
}

/// Law: every highlight lies on character boundaries inside its field's text.
pub proof fn lemma_highlights_in_bounds(entry: SearchEntry, hits: Seq<FieldCoin>)
    ensures
        forall|k: int|
            0 <= k < highlights_spec(entry, hits).len() ==> {
                let h = #[trigger] highlights_spec(entry, hits)[k];
                field_text(entry, h.field) matches Some(text) && h.start < h.end <= text.len()
            },
    decreases hits.len(),
{
    if hits.len() > 0 {
        lemma_highlights_in_bounds(entry, hits.drop_last());
    }
}

/// Where a hit's range starts (0 when it has none).
pub open spec fn hit_start(c: FieldCoin) -> usize {
    match c.range_chars {
        Some((s, _)) => s,
        None => 0,
    }
}

/// Where a hit's range ends (0 when it has none).
pub open spec fn hit_end(c: FieldCoin) -> usize {
    match c.range_chars {
        Some((_, e)) => e,
        None => 0,
    }
}

/// Law: every hit that is not an edit-distance hit and carries a range
/// `start < end` ending within its field's text (its last character
/// included) yields exactly that highlight.
pub proof fn lemma_highlights_cover_hits(entry: SearchEntry, hits: Seq<FieldCoin>)
    ensures
        forall|k: int|
            0 <= k < hits.len() && !(#[trigger] hits[k].strategy is EditDistance) && hits[k].range_chars is Some
                && field_text(entry, hits[k].field) is Some && hit_start(hits[k]) < hit_end(hits[k])
                && hit_end(hits[k]) <= field_text(entry, hits[k].field)->0.len() ==> highlights_spec(
                entry,
                hits,
            ).contains(
                HighlightRange {
                    field: hits[k].field,
                    start: hit_start(hits[k]),
                    end: hit_end(hits[k]),
                },
            ),
    decreases hits.len(),
{
    if hits.len() > 0 {
        let prev = hits.drop_last();
        lemma_highlights_cover_hits(entry, prev);
        let r = highlights_spec(entry, hits);
        let p = highlights_spec(entry, prev);
        assert forall|k: int|
            0 <= k < hits.len() && !(#[trigger] hits[k].strategy is EditDistance) && hits[k].range_chars is Some
                && field_text(entry, hits[k].field) is Some && hit_start(hits[k]) < hit_end(hits[k])
                && hit_end(hits[k]) <= field_text(entry, hits[k].field)->0.len() implies r.contains(
                HighlightRange {
                    field: hits[k].field,
                    start: hit_start(hits[k]),
                    end: hit_end(hits[k]),
                },
            ) by {
            let h = HighlightRange {
                field: hits[k].field,
                start: hit_start(hits[k]),
                end: hit_end(hits[k]),
            };
            if k == hits.len() - 1 {
                assert(r == p.push(h));
                assert(r[p.len() as int] == h);
            } else {
                assert(prev[k] == hits[k]);
                assert(p.contains(h));
                let m = choose|m: int| 0 <= m < p.len() && p[m] == h;
                match highlight_of(entry, hits.last()) {
                    Some(x) => assert(r[m] == h),
                    None => assert(r[m] == h),
                }
            }
        }
    }
}

/// How many of `hits` are not edit-distance hits and carry a non-empty
/// range that ends within their field's text.
pub open spec fn ranged_hit_count(entry: SearchEntry, hits: Seq<FieldCoin>) -> nat
    decreases hits.len(),
{
    if hits.len() == 0 {
        0
    } else {
        let c = hits.last();
        let counted = !(c.strategy is EditDistance) && c.range_chars is Some && field_text(entry, c.field) is Some
            && hit_start(c) < hit_end(c) && hit_end(c) <= field_text(entry, c.field)->0.len();
        ranged_hit_count(entry, hits.drop_last()) + if counted {
            1nat
        } else {
            0nat
        }
    }
}

/// Law: there is one highlight per hit that is not an edit-distance hit and
/// carries a non-empty range ending within its field's text, and no other.
pub proof fn lemma_highlight_count(entry: SearchEntry, hits: Seq<FieldCoin>)
    ensures
        highlights_spec(entry, hits).len() == ranged_hit_count(entry, hits),
    decreases hits.len(),
{
    if hits.len() > 0 {
        lemma_highlight_count(entry, hits.drop_last());
    }
}

/// Law: every highlight comes from a hit that is not an edit-distance hit,
/// on the same field and with the same range.
pub proof fn lemma_highlights_come_from_hits(entry: SearchEntry, hits: Seq<FieldCoin>)
    ensures
        forall|j: int|
            0 <= j < highlights_spec(entry, hits).len() ==> exists|k: int|
                0 <= k < hits.len() && !(#[trigger] hits[k].strategy is EditDistance) && hits[k].field
                    == (#[trigger] highlights_spec(entry, hits)[j]).field && hits[k].range_chars == Some(
                    (highlights_spec(entry, hits)[j].start, highlights_spec(entry, hits)[j].end),
                ),
    decreases hits.len(),
{
    if hits.len() > 0 {
        let prev = hits.drop_last();
        lemma_highlights_come_from_hits(entry, prev);
        let r = highlights_spec(entry, hits);
        let p = highlights_spec(entry, prev);
        assert forall|j: int| 0 <= j < r.len() implies exists|k: int|
            0 <= k < hits.len() && !(#[trigger] hits[k].strategy is EditDistance) && hits[k].field == (#[trigger] r[j]).field
                && hits[k].range_chars == Some((r[j].start, r[j].end)) by {
            if j < p.len() {
                assert(r[j] == p[j]);
                let k = choose|k: int|
                    0 <= k < prev.len() && !(#[trigger] prev[k].strategy is EditDistance) && prev[k].field == p[j].field
                        && prev[k].range_chars == Some((p[j].start, p[j].end));
                assert(hits[k] == prev[k]);
            } else {
                let last = hits.len() - 1;
                assert(hits[last] == hits.last());
            }
        }
    }
}

fn field_source(entry: &SearchEntry, field: SearchField) -> (r: Option<&String>)
    ensures
        match r {
            Some(t) => field_text(*entry, field) == Some(t@),
            None => field_text(*entry, field) is None,
        },
{
    match field {
        SearchField::Name => Some(&entry.display_name),
        SearchField::Alias(index) => if index < entry.aliases.len() {
            Some(&entry.aliases[index])
        } else {
            None
        },
        SearchField::Path => Some(&entry.path),
        SearchField::Category => match &entry.category_name {
            Some(c) => Some(c),
            None => None,
        },
        SearchField::Tag(index) => if index < entry.tag_names.len() {
            Some(&entry.tag_names[index])
        } else {
            None
        },
        SearchField::Note => Some(&entry.note),
    }
}

/// Compute highlight ranges for one result, mapped onto the original source
/// strings and validated against their char counts.
pub fn compute_highlights(entry: &SearchEntry, hits: &Vec<FieldCoin>, options: &HighlightOptions) -> (r: Vec<HighlightRange>)
    ensures
        r@ == if options.compute_highlights {
            highlights_spec(*entry, hits@)
        } else {
            seq![]
        },
{
    let mut ranges: Vec<HighlightRange> = Vec::new();
    if !options.compute_highlights {
        return ranges;
    }
    for i in 0..hits.len()
        invariant
            ranges@ == highlights_spec(*entry, hits@.take(i as int)),
    {
        let coin = hits[i];
        assert(hits@.take(i + 1).drop_last() == hits@.take(i as int));
        let is_edit = match coin.strategy {
            MatchStrategy::EditDistance => true,
            _ => false,
        };
        if !is_edit {
            match coin.range_chars {
                Some((start, end)) => {
                    match field_source(entry, coin.field) {
                        Some(source) => {
                            let char_count = chars_of(source.as_str()).len();
                            if start < end && end <= char_count {
                                ranges.push(HighlightRange { field: coin.field, start, end });
                            }
                        },
                        None => {},
                    }
                },
                None => {},
            }
        }
    }
    assert(hits@.take(hits.len() as int) == hits@);
    ranges
}

} // verus!
