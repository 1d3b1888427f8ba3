//! Deterministic filter matrix.
//!
//! Filters operate on explicit metadata carried by each [`SearchEntry`]; they
//! never probe the filesystem.
//!
//! * All active dimensions are AND-ed.
//! * `tags` is AND-within: the entry must carry every requested tag.
//! * `category` is a single value (a folder has at most one category).
//! * Accessibility: `Unknown` is never treated as `Inaccessible`; filtering by
//!   `Accessible` keeps accessible and unknown entries.
//! * Origin: exact match (`Unknown` matches only `Unknown`).
//! * `recent` keeps entries that were opened at least once.
//!
//! [`FilterSet::apply`] is a single pass returning kept indices in source
//! order.

use vstd::prelude::*;

use super::search_entry::SearchEntry;

verus! {

/// Path accessibility state derived by the caller (never probed here).
#[derive(Debug, Clone, Copy, PartialEq, Eq, Hash, Structural)]
pub enum Accessibility {
    Unknown,
    Checking,
    Accessible,
    Inaccessible,
}

/// Whether a folder lives on a local, network or removable volume.
#[derive(Debug, Clone, Copy, PartialEq, Eq, Hash, Structural)]
pub enum Origin {
    Local,
    Network,
    Removable,
    Unknown,
}

/// A composed filter. `None`/empty/false dimensions are inactive.
#[derive(Debug, Clone, PartialEq, Eq)]
pub struct FilterSet {
    pub pinned_only: bool,
    pub recent: bool,
    pub category: Option<String>,
    /// Every requested tag must be present (AND-within).
    pub tags: Vec<String>,
    pub accessibility: Option<Accessibility>,
    pub origin: Option<Origin>,
}

impl Default for FilterSet {
    /// The empty filter (every dimension inactive).
    fn default() -> (r: FilterSet)
        ensures
            !r.pinned_only,
            !r.recent,
            r.category is None,
            r.tags@.len() == 0,
            r.accessibility is None,
            r.origin is None,
    {
        FilterSet {
            pinned_only: false,
            recent: false,
            category: None,
            tags: Vec::new(),
            accessibility: None,
            origin: None,
        }
    }
}

/// Whether the entry state `actual` passes an accessibility filter.
pub open spec fn accessibility_passes(wanted: Accessibility, actual: Accessibility) -> bool {
    match wanted {
        Accessibility::Inaccessible => actual == Accessibility::Inaccessible,
        Accessibility::Checking => actual == Accessibility::Checking,
        Accessibility::Unknown => actual == Accessibility::Unknown,
        Accessibility::Accessible => actual == Accessibility::Accessible || actual
            == Accessibility::Unknown,
    }
}

/// Whether `entry` carries a tag named `tag`.
pub open spec fn has_tag(entry: SearchEntry, tag: Seq<char>) -> bool {
    exists|j: int| 0 <= j < entry.tag_names@.len() && #[trigger] entry.tag_names@[j]@ == tag
}

/// Whether `entry` satisfies every active dimension of `f`.
pub open spec fn passes(f: FilterSet, entry: SearchEntry) -> bool {
    &&& f.pinned_only ==> entry.pinned
    &&& f.recent ==> entry.last_opened_at is Some
    &&& f.category matches Some(c) ==> (entry.category_name matches Some(n) && n@ == c@)
    &&& forall|t: int| 0 <= t < f.tags@.len() ==> has_tag(entry, #[trigger] f.tags@[t]@)
    &&& f.accessibility matches Some(a) ==> accessibility_passes(a, entry.accessibility)
    &&& f.origin matches Some(o) ==> entry.origin == o
}

/// Indices (ascending) of the entries among the first `n` that pass `f`.
pub open spec fn kept_indices(f: FilterSet, entries: Seq<SearchEntry>, n: int) -> Seq<usize>
    decreases n,
{
    if n <= 0 {
        seq![]
    } else if passes(f, entries[n - 1]) {
        kept_indices(f, entries, n - 1).push((n - 1) as usize)
    } else {
        kept_indices(f, entries, n - 1)
    }
}

/// Law: the kept indices are strictly increasing, below `n`, and at most `n`
/// of them.
pub proof fn lemma_kept_indices_ordered(f: FilterSet, entries: Seq<SearchEntry>, n: int)
    requires
        0 <= n <= usize::MAX,
    ensures
        kept_indices(f, entries, n).len() <= n,
        forall|k: int| 0 <= k < kept_indices(f, entries, n).len() ==> #[trigger] kept_indices(f, entries, n)[k] < n,
        forall|a: int, b: int| 0 <= a < b < kept_indices(f, entries, n).len()
            ==> #[trigger] kept_indices(f, entries, n)[a] < #[trigger] kept_indices(f, entries, n)[b],
    decreases n,
{
    if n > 0 {
        lemma_kept_indices_ordered(f, entries, n - 1);
    }
}

/// Whether no dimension of `f` is active.
pub open spec fn filter_is_empty(f: FilterSet) -> bool {
    !f.pinned_only && !f.recent && f.category is None && f.tags@.len() == 0
        && f.accessibility is None && f.origin is None
}

/// Law: the empty filter keeps every entry.
pub proof fn lemma_empty_filter_passes(f: FilterSet, entry: SearchEntry)
    requires
        filter_is_empty(f),
    ensures
        passes(f, entry),
{
}

fn string_eq(a: &String, b: &String) -> (r: bool)
    ensures
        r == (a@ == b@),
{
    *a == *b
}

impl FilterSet {
    /// Whether no dimension is active (an empty filter keeps every entry).
    pub fn is_empty(&self) -> (r: bool)
        ensures
            r == filter_is_empty(*self),
    {
        !self.pinned_only && !self.recent && self.category.is_none() && self.tags.len() == 0
            && self.accessibility.is_none() && self.origin.is_none()
    }

    /// Single pass returning the indices of kept entries in source order.
    pub fn apply(&self, entries: &[SearchEntry]) -> (r: Vec<usize>)
        ensures
            r@ == kept_indices(*self, entries@, entries@.len() as int),
    {
        let mut indices: Vec<usize> = Vec::new();
        for i in 0..entries.len()
            invariant
                indices@ == kept_indices(*self, entries@, i as int),
        {
            if self.matches(&entries[i]) {
                indices.push(i);
            }
        }
        indices
    }

    /// Whether `entry` satisfies every active dimension.
    pub fn matches(&self, entry: &SearchEntry) -> (r: bool)
        ensures
            r == passes(*self, *entry),
    {
        if self.pinned_only && !entry.pinned {
            return false;
        }
        if self.recent && entry.last_opened_at.is_none() {
            return false;
        }
        match &self.category {
            Some(category) => {
                match &entry.category_name {
                    Some(name) => {
                        if !string_eq(name, category) {
                            return false;
                        }
                    },
                    None => {
                        return false;
                    },
                }
            },
            None => {},
        }
        for t in 0..self.tags.len()
            invariant
                forall|k: int| 0 <= k < t ==> has_tag(*entry, #[trigger] self.tags@[k]@),
        {
            let mut found = false;
            for j in 0..entry.tag_names.len()
                invariant
                    t < self.tags@.len(),
                    found == exists|x: int| 0 <= x < j && #[trigger] entry.tag_names@[x]@ == self.tags@[t as int]@,
            {
                if string_eq(&entry.tag_names[j], &self.tags[t]) {
                    found = true;
                }
            }
            if !found {
                assert(!has_tag(*entry, self.tags@[t as int]@));
                return false;
            }
        }
        match self.accessibility {
            Some(wanted) => {
                let ok = match wanted {
                    Accessibility::Inaccessible => match entry.accessibility {
                        Accessibility::Inaccessible => true,
                        _ => false,
                    },
                    Accessibility::Checking => match entry.accessibility {
                        Accessibility::Checking => true,
                        _ => false,
                    },
                    Accessibility::Unknown => match entry.accessibility {
                        Accessibility::Unknown => true,
                        _ => false,
                    },
                    Accessibility::Accessible => match entry.accessibility {
                        Accessibility::Accessible | Accessibility::Unknown => true,
                        _ => false,
                    },
                };
                if !ok {
                    return false;
                }
            },
            None => {},
        }
        match self.origin {
            Some(origin) => {
                if origin != entry.origin {
                    return false;
                }
            },
            None => {},
        }
        true
    }
}

} // verus!
