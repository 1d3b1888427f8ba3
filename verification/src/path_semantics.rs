//! When two stored folder paths name the same folder.
//!
//! A path is classifiable when it holds more than white space. Its key is the
//! trimmed text with `/` read as `\`, trailing separators dropped (a lone
//! separator stays) and ASCII letters folded to lower case, so
//! `C:\Users\me\Documents\` and `c:/users/me/documents` share a key. Paths
//! that cannot be classified match nothing, not even themselves.

use vstd::prelude::*;

use crate::text::{ascii_lower, ascii_lower_char, chars_of, chars_equal, string_from_chars, trim_chars, trimmed};

verus! {

/// `/` read as the separator `\`.
pub open spec fn unified(c: char) -> char {
    if c == '/' {
        '\\'
    } else {
        c
    }
}

/// `s` without trailing separators, keeping a lone one.
pub open spec fn strip_trailing_separators(s: Seq<char>) -> Seq<char>
    decreases s.len(),
{
    if s.len() > 1 && s.last() == '\\' {
        strip_trailing_separators(s.drop_last())
    } else {
        s
    }
}

/// The comparison key of `raw`, or `None` when it is blank.
pub open spec fn path_key(raw: Seq<char>) -> Option<Seq<char>> {
    let t = trimmed(raw);
    if t.len() == 0 {
        None
    } else {
        Some(strip_trailing_separators(t.map_values(|c: char| ascii_lower(unified(c)))))
    }
}

/// Whether `a` and `b` are classifiable and name the same folder.
pub open spec fn same_path(a: Seq<char>, b: Seq<char>) -> bool {
    path_key(a) is Some && path_key(a) == path_key(b)
}

/// The comparison key of `raw` (see [`path_key`]).
pub fn path_key_of(raw: &str) -> (r: Option<Vec<char>>)
    ensures
        match r {
            Some(k) => path_key(raw@) == Some(k@),
            None => path_key(raw@) is None,
        },
{
    let t = trim_chars(&chars_of(raw));
    if t.len() == 0 {
        return None;
    }
    let ghost mapped = t@.map_values(|c: char| ascii_lower(unified(c)));
    let mut k: Vec<char> = Vec::new();
    for i in 0..t.len()
        invariant
            mapped == t@.map_values(|c: char| ascii_lower(unified(c))),
            k@ == mapped.take(i as int),
    {
        let c = if t[i] == '/' {
            '\\'
        } else {
            t[i]
        };
        k.push(ascii_lower_char(c));
        assert(mapped.take(i + 1) == mapped.take(i as int).push(mapped[i as int]));
    }
    assert(mapped.take(mapped.len() as int) == mapped);
    while k.len() > 1 && k[k.len() - 1] == '\\'
        invariant
            k@.len() >= 1,
            strip_trailing_separators(mapped) == strip_trailing_separators(k@),
        decreases k@.len(),
    {
        let ghost before = k@;
        k.pop();
        assert(k@ == before.drop_last());
    }
    Some(k)
}

/// Whether `a` and `b` name the same folder (see [`same_path`]).
pub fn paths_match(a: &str, b: &str) -> (r: bool)
    ensures
        r == same_path(a@, b@),
{
    match (path_key_of(a), path_key_of(b)) {
        (Some(ka), Some(kb)) => chars_equal(&ka, &kb),
        _ => false,
    }
}

/// Law: on classifiable paths, naming the same folder is an equivalence.
pub proof fn lemma_same_path_equivalence(a: Seq<char>, b: Seq<char>, c: Seq<char>)
    ensures
        path_key(a) is Some ==> same_path(a, a),
        same_path(a, b) ==> same_path(b, a),
        same_path(a, b) && same_path(b, c) ==> same_path(a, c),
{
}

/// Whether `c` separates path components (`\` or `/`).
pub open spec fn is_separator(c: char) -> bool {
    c == '\\' || c == '/'
}

/// `s` without trailing separators.
pub open spec fn without_trailing_separators(s: Seq<char>) -> Seq<char>
    decreases s.len(),
{
    if s.len() > 0 && is_separator(s.last()) {
        without_trailing_separators(s.drop_last())
    } else {
        s
    }
}

/// The characters of `s` after its last separator (all of `s` when it has
/// none).
pub open spec fn after_last_separator(s: Seq<char>) -> Seq<char>
    decreases s.len(),
{
    if s.len() == 0 {
        s
    } else if is_separator(s.last()) {
        seq![]
    } else {
        after_last_separator(s.drop_last()).push(s.last())
    }
}

/// The last component of `raw`: the trimmed text without trailing
/// separators, after its last separator; `None` when nothing is left.
pub open spec fn leaf_name(raw: Seq<char>) -> Option<Seq<char>> {
    let leaf = after_last_separator(without_trailing_separators(trimmed(raw)));
    if leaf.len() == 0 {
        None
    } else {
        Some(leaf)
    }
}

/// The last component of `raw` (see [`leaf_name`]).
pub fn leaf_name_of(raw: &str) -> (r: Option<String>)
    ensures
        match r {
            Some(l) => leaf_name(raw@) == Some(l@),
            None => leaf_name(raw@) is None,
        },
{
    let mut t = trim_chars(&chars_of(raw));
    let ghost trimmed_raw = t@;
    while t.len() > 0 && (t[t.len() - 1] == '\\' || t[t.len() - 1] == '/')
        invariant
            without_trailing_separators(trimmed_raw) == without_trailing_separators(t@),
        decreases t@.len(),
    {
        let ghost before = t@;
        t.pop();
        assert(t@ == before.drop_last());
    }
    let ghost stripped = t@;
    assert(without_trailing_separators(stripped) == stripped);
    let mut start: usize = t.len();
    assert(stripped.take(stripped.len() as int) == stripped);
    assert(stripped.subrange(stripped.len() as int, stripped.len() as int) =~= Seq::<char>::empty());
    assert(after_last_separator(stripped) =~= after_last_separator(stripped.take(start as int)) + stripped.subrange(start as int, stripped.len() as int));
    while start > 0 && !(t[start - 1] == '\\' || t[start - 1] == '/')
        invariant
            0 <= start <= t@.len(),
            t@ == stripped,
            after_last_separator(stripped) == after_last_separator(stripped.take(start as int)) + stripped.subrange(start as int, stripped.len() as int),
        decreases start,
    {
        let ghost pre = stripped.take(start as int);
        assert(pre.drop_last() == stripped.take(start - 1));
        assert(pre.last() == stripped[start - 1]);
        let ghost rest = stripped.subrange(start as int, stripped.len() as int);
        assert(stripped.subrange(start - 1, stripped.len() as int) =~= seq![stripped[start - 1]] + rest);
        assert(after_last_separator(pre) == after_last_separator(stripped.take(start - 1)).push(stripped[start - 1]));
        assert(after_last_separator(pre) + rest =~= after_last_separator(stripped.take(start - 1)) + (seq![stripped[start - 1]] + rest));
        start = start - 1;
    }
    proof {
        let pre = stripped.take(start as int);
        if start > 0 {
            assert(pre.last() == stripped[start - 1]);
            assert(after_last_separator(pre) == Seq::<char>::empty());
        } else {
            assert(pre.len() == 0);
        }
        assert(after_last_separator(stripped) =~= stripped.subrange(start as int, stripped.len() as int));
    }
    let mut leaf: Vec<char> = Vec::new();
    let mut k = start;
    while k < t.len()
        invariant
            start <= k <= t@.len(),
            t@ == stripped,
            leaf@ == stripped.subrange(start as int, k as int),
        decreases t@.len() - k,
    {
        leaf.push(t[k]);
        k = k + 1;
    }
    if leaf.len() == 0 {
        None
    } else {
        Some(string_from_chars(&leaf))
    }
}

} // verus!
