//! Input and result types for the search core.

use vstd::prelude::*;

use crate::domain::{AppSettings, FolderId};

use super::filter::{Accessibility, Origin};
use super::highlight::HighlightRange;
use super::keys::{field_keys_spec, keys_views, DerivedKeys, FieldKeys, FieldKeysView};

verus! {

/// A searchable field tag identifying which field a hit came from.
#[derive(Debug, Clone, Copy, PartialEq, Eq, Hash, Structural)]
pub enum SearchField {
    Name,
    Alias(usize),
    Path,
    Category,
    Tag(usize),
    Note,
}

/// One search hit on one field.
#[derive(Debug, Clone, PartialEq, Eq)]
pub struct SearchHit {
    pub field: SearchField,
    /// The strategy that produced this hit (see `MatchStrategy::as_str`).
    pub strategy: &'static str,
    /// Within-tier strategy points contributed by this hit.
    pub score: u64,
    /// Range in the original source string (char indices, half-open), if the
    /// strategy yields a concrete span.
    pub range: Option<(usize, usize)>,
}

/// Aggregate search result for one entry.
#[derive(Debug, Clone, PartialEq, Eq)]
pub struct SearchScore {
    /// Number of matched tokens (all must match for a result).
    pub matched_token_count: usize,
    /// Total number of tokens in the query.
    pub token_count: usize,
    pub total_score: u64,
    pub hits: Vec<SearchHit>,
}

impl SearchScore {
    /// Whether every query token matched.
    pub fn all_tokens_matched(&self) -> (r: bool)
        ensures
            r == (self.matched_token_count == self.token_count),
    {
        self.matched_token_count == self.token_count
    }
}

/// Searchable view of one folder record.
///
/// `last_opened_at` is the last-open instant in milliseconds since the Unix
/// epoch; `accessibility` and `origin` are supplied by the caller (the search
/// core never probes the filesystem).
#[derive(Debug, Clone, PartialEq, Eq)]
pub struct SearchEntry {
    pub id: FolderId,
    pub display_name: String,
    pub aliases: Vec<String>,
    pub path: String,
    pub category_name: Option<String>,
    pub tag_names: Vec<String>,
    pub note: String,
    pub pinned: bool,
    pub favorite: bool,
    pub manual_weight: i16,
    pub open_count: u64,
    pub last_opened_at: Option<i64>,
    pub accessibility: Accessibility,
    pub origin: Origin,
}

/// The keys of every searchable field of `e`, in the stable search order:
/// name (always enabled), aliases, path, category (when present), tags,
/// note; each gated by its settings toggle.
pub open spec fn entry_fields(e: SearchEntry, s: AppSettings) -> Seq<FieldKeysView> {
    seq![field_keys_spec(SearchField::Name, e.display_name@, true, s)] + Seq::new(
        e.aliases@.len(),
        |i: int| field_keys_spec(SearchField::Alias(i as usize), e.aliases@[i]@, s.search_aliases, s),
    ) + seq![field_keys_spec(SearchField::Path, e.path@, s.search_paths, s)] + match e.category_name {
        Some(c) => seq![field_keys_spec(SearchField::Category, c@, s.search_categories, s)],
        None => seq![],
    } + Seq::new(
        e.tag_names@.len(),
        |i: int| field_keys_spec(SearchField::Tag(i as usize), e.tag_names@[i]@, s.search_tags, s),
    ) + seq![field_keys_spec(SearchField::Note, e.note@, s.search_notes, s)]
}

impl SearchEntry {
    /// Derive the search keys of every field of this entry.
    pub fn derive_keys(&self, settings: &AppSettings) -> (r: DerivedKeys)
        ensures
            r.all_fields() == entry_fields(*self, *settings),
    {
        let name = FieldKeys::new(SearchField::Name, self.display_name.as_str(), true, settings);
        let mut aliases: Vec<FieldKeys> = Vec::new();
        for i in 0..self.aliases.len()
            invariant
                keys_views(aliases@) == Seq::new(
                    i as nat,
                    |j: int|
                        field_keys_spec(
                            SearchField::Alias(j as usize),
                            self.aliases@[j]@,
                            settings.search_aliases,
                            *settings,
                        ),
                ),
        {
            let k = FieldKeys::new(
                SearchField::Alias(i),
                self.aliases[i].as_str(),
                settings.search_aliases,
                settings,
            );
            let ghost before = aliases@;
            aliases.push(k);
            assert(aliases@ == before.push(k));
            assert(keys_views(aliases@) =~= keys_views(before).push(k@));
            assert(keys_views(aliases@) =~= Seq::new(
                (i + 1) as nat,
                |j: int|
                    field_keys_spec(
                        SearchField::Alias(j as usize),
                        self.aliases@[j]@,
                        settings.search_aliases,
                        *settings,
                    ),
            ));
        }
        let path = FieldKeys::new(SearchField::Path, self.path.as_str(), settings.search_paths, settings);
        let category = match &self.category_name {
            Some(c) => Some(
                FieldKeys::new(SearchField::Category, c.as_str(), settings.search_categories, settings),
            ),
            None => None,
        };
        let mut tags: Vec<FieldKeys> = Vec::new();
        for i in 0..self.tag_names.len()
            invariant
                keys_views(tags@) == Seq::new(
                    i as nat,
                    |j: int|
                        field_keys_spec(
                            SearchField::Tag(j as usize),
                            self.tag_names@[j]@,
                            settings.search_tags,
                            *settings,
                        ),
                ),
        {
            let k = FieldKeys::new(
                SearchField::Tag(i),
                self.tag_names[i].as_str(),
                settings.search_tags,
                settings,
            );
            let ghost before = tags@;
            tags.push(k);
            assert(tags@ == before.push(k));
            assert(keys_views(tags@) =~= keys_views(before).push(k@));
            assert(keys_views(tags@) =~= Seq::new(
                (i + 1) as nat,
                |j: int|
                    field_keys_spec(
                        SearchField::Tag(j as usize),
                        self.tag_names@[j]@,
                        settings.search_tags,
                        *settings,
                    ),
            ));
        }
        let note = FieldKeys::new(SearchField::Note, self.note.as_str(), settings.search_notes, settings);
        let r = DerivedKeys { name, aliases, path, category, tags, note };
        assert(r.all_fields() =~= entry_fields(*self, *settings));
        r
    }
}

/// Whether two string lists hold the same texts.
pub open spec fn same_strings(a: Seq<String>, b: Seq<String>) -> bool {
    a.len() == b.len() && forall|k: int| 0 <= k < a.len() ==> #[trigger] a[k]@ == b[k]@
}

/// Whether `a` is a copy of `b`: every field equal, texts by content.
pub open spec fn same_entry(a: SearchEntry, b: SearchEntry) -> bool {
    &&& a.id == b.id
    &&& a.display_name@ == b.display_name@
    &&& same_strings(a.aliases@, b.aliases@)
    &&& a.path@ == b.path@
    &&& match (a.category_name, b.category_name) {
        (Some(x), Some(y)) => x@ == y@,
        (None, None) => true,
        _ => false,
    }
    &&& same_strings(a.tag_names@, b.tag_names@)
    &&& a.note@ == b.note@
    &&& a.pinned == b.pinned
    &&& a.favorite == b.favorite
    &&& a.manual_weight == b.manual_weight
    &&& a.open_count == b.open_count
    &&& a.last_opened_at == b.last_opened_at
    &&& a.accessibility == b.accessibility
    &&& a.origin == b.origin
}

/// A copy of a list of strings.
pub fn copy_strings(v: &Vec<String>) -> (r: Vec<String>)
    ensures
        same_strings(r@, v@),
{
    let mut r: Vec<String> = Vec::new();
    for i in 0..v.len()
        invariant
            r@.len() == i,
            forall|k: int| 0 <= k < i ==> #[trigger] r@[k]@ == v@[k]@,
    {
        r.push(v[i].clone());
    }
    r
}

impl SearchEntry {
    /// A copy of this entry (see [`same_entry`]).
    pub fn copy(&self) -> (r: SearchEntry)
        ensures
            same_entry(r, *self),
    {
        SearchEntry {
            id: self.id,
            display_name: self.display_name.clone(),
            aliases: copy_strings(&self.aliases),
            path: self.path.clone(),
            category_name: match &self.category_name {
                Some(c) => Some(c.clone()),
                None => None,
            },
            tag_names: copy_strings(&self.tag_names),
            note: self.note.clone(),
            pinned: self.pinned,
            favorite: self.favorite,
            manual_weight: self.manual_weight,
            open_count: self.open_count,
            last_opened_at: self.last_opened_at,
            accessibility: self.accessibility,
            origin: self.origin,
        }
    }
}

/// A ranked search result.
#[derive(Debug, Clone)]
pub struct RankedResult {
    pub entry_id: FolderId,
    pub total_score: u64,
    pub score: SearchScore,
    /// Highlight ranges per field: each range's `(start, end)` chars index the
    /// original display string. Empty when highlighting is disabled.
    pub highlights: Vec<HighlightRange>,
}

} // verus!
