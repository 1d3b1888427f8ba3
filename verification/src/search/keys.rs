//! Derived search keys.
//!
//! For every searchable text slice we build a case-folded match key and, when
//! the settings toggles are active, pinyin-based and english-initial keys.
//! Display text is never mutated: keys are derived copies only. Every key
//! character records the index of the original character it came from
//! (`origins`), so a key match maps back onto character indices of the
//! original string.
//!
//! Pinyin keys use the first (plain, toneless) reading of each Han character
//! and are derived from names and aliases only.

use vstd::prelude::*;

use pinyin::ToPinyin;

use crate::domain::AppSettings;
pub use crate::text::fold_char;
use crate::text::{chars_of, fold, fold_seq, is_white_space, is_whitespace_char, push_char};

use super::search_entry::SearchField;

verus! {

/// The plain (toneless) first reading of `c` as the `pinyin` crate reports
/// it, or `None` when the crate has no reading for `c` (it is not Han).
pub uninterp spec fn pinyin_reading(c: char) -> Option<Seq<char>>;

/// Trusted wrapper around `pinyin::ToPinyin::to_pinyin` for one `char`
/// followed by `Pinyin::plain`: the characters of the plain reading, or `None`
/// when the crate has no data for `c`. The reading tables themselves are only
/// named (`pinyin_reading`), not restated.
#[verifier::external_body]
fn char_pinyin(c: char) -> (r: Option<Vec<char>>)
    ensures
        r matches Some(v) ==> pinyin_reading(c) == Some(v@),
        r is None ==> pinyin_reading(c) is None,
{
    match c.to_pinyin() {
        Some(reading) => Some(reading.plain().chars().collect()),
        None => None,
    }
}

/// A derived key plus the mapping of each key char back to an original char.
///
/// `origins[i]` is the index (in chars) of the original character that
/// produced key char `i`. One original char may produce several key chars (a
/// pinyin syllable) or none (english initials); `origins` is monotonic
/// non-decreasing.
#[derive(Debug)]
pub struct MappedText {
    pub text: String,
    pub origins: Vec<usize>,
}

impl View for MappedText {
    type V = (Seq<char>, Seq<usize>);

    open spec fn view(&self) -> (Seq<char>, Seq<usize>) {
        (self.text@, self.origins@)
    }
}

/// Concatenation of the per-character pieces of a key.
pub open spec fn flat_text(pieces: Seq<Seq<char>>) -> Seq<char>
    decreases pieces.len(),
{
    if pieces.len() == 0 {
        seq![]
    } else {
        flat_text(pieces.drop_last()) + pieces.last()
    }
}

/// For each key char, the index of the piece (original char) it belongs to.
pub open spec fn flat_origins(pieces: Seq<Seq<char>>) -> Seq<usize>
    decreases pieces.len(),
{
    if pieces.len() == 0 {
        seq![]
    } else {
        flat_origins(pieces.drop_last()) + Seq::new(
            pieces.last().len(),
            |k: int| (pieces.len() - 1) as usize,
        )
    }
}

/// The key made of `pieces`, the i-th piece standing for original char `i`.
pub open spec fn mapped(pieces: Seq<Seq<char>>) -> (Seq<char>, Seq<usize>) {
    (flat_text(pieces), flat_origins(pieces))
}

/// Case-folded key pieces: each char folds to one char.
pub open spec fn fold_pieces(s: Seq<char>) -> Seq<Seq<char>> {
    Seq::new(s.len(), |i: int| seq![fold(s[i])])
}

/// Full-pinyin piece of one char: its reading, or the folded char itself when
/// it has no reading.
pub open spec fn pinyin_full_piece(c: char) -> Seq<char> {
    match pinyin_reading(c) {
        Some(r) => r,
        None => seq![fold(c)],
    }
}

/// Full-pinyin key pieces, e.g. "中文" -> "zhong" "wen".
pub open spec fn pinyin_full_pieces(s: Seq<char>) -> Seq<Seq<char>> {
    Seq::new(s.len(), |i: int| pinyin_full_piece(s[i]))
}

/// Pinyin-initial piece of one char: the first letter of its reading, or the
/// folded char itself when it has no reading.
pub open spec fn pinyin_initial_piece(c: char) -> Seq<char> {
    match pinyin_reading(c) {
        Some(r) => if r.len() == 0 {
            seq![]
        } else {
            seq![r[0]]
        },
        None => seq![fold(c)],
    }
}

/// Pinyin-initial key pieces, e.g. "中文" -> "z" "w".
pub open spec fn pinyin_initial_pieces(s: Seq<char>) -> Seq<Seq<char>> {
    Seq::new(s.len(), |i: int| pinyin_initial_piece(s[i]))
}

/// Word separators for english initials: white space and `-`.
pub open spec fn is_word_separator(c: char) -> bool {
    is_white_space(c) || c == '-'
}

/// English-initial piece of char `i`: the folded char when it starts a word,
/// nothing otherwise.
pub open spec fn english_initial_piece(s: Seq<char>, i: int) -> Seq<char> {
    if !is_word_separator(s[i]) && (i == 0 || is_word_separator(s[i - 1])) {
        seq![fold(s[i])]
    } else {
        seq![]
    }
}

/// English-initial key pieces, e.g. "My Documents" -> "m" "" "" "d" ...
pub open spec fn english_initial_pieces(s: Seq<char>) -> Seq<Seq<char>> {
    Seq::new(s.len(), |i: int| english_initial_piece(s, i))
}

/// Whether `s` holds a character with a pinyin reading.
pub open spec fn has_han(s: Seq<char>) -> bool {
    exists|i: int| 0 <= i < s.len() && #[trigger] pinyin_reading(s[i]) is Some
}

/// A key is well formed when every char has an origin.
pub open spec fn key_wf(key: (Seq<char>, Seq<usize>)) -> bool {
    &&& key.0.len() == key.1.len()
    &&& forall|i: int| 0 <= i < key.1.len() ==> #[trigger] key.1[i] < usize::MAX
}

/// Law: the key of any pieces has one origin per char, every origin indexes
/// an original char, and origins never decrease.
pub proof fn lemma_mapped_origins(pieces: Seq<Seq<char>>)
    requires
        pieces.len() <= usize::MAX,
    ensures
        flat_text(pieces).len() == flat_origins(pieces).len(),
        forall|i: int|
            0 <= i < flat_origins(pieces).len() ==> #[trigger] flat_origins(pieces)[i]
                < pieces.len(),
        forall|i: int, j: int|
            0 <= i <= j < flat_origins(pieces).len() ==> #[trigger] flat_origins(pieces)[i]
                <= #[trigger] flat_origins(pieces)[j],
    decreases pieces.len(),
{
    if pieces.len() > 0 {
        lemma_mapped_origins(pieces.drop_last());
        let prev = flat_origins(pieces.drop_last());
        let all = flat_origins(pieces);
        assert forall|i: int| 0 <= i < all.len() implies #[trigger] all[i] < pieces.len() by {
            if i < prev.len() {
                assert(all[i] == prev[i]);
            }
        }
        assert forall|i: int, j: int| 0 <= i <= j < all.len() implies #[trigger] all[i]
            <= #[trigger] all[j] by {
            if j < prev.len() {
                assert(all[i] == prev[i]);
                assert(all[j] == prev[j]);
            } else if i < prev.len() {
                assert(all[i] == prev[i]);
                assert(all[j] == (pieces.len() - 1) as usize);
            } else {
                assert(all[i] == (pieces.len() - 1) as usize);
                assert(all[j] == (pieces.len() - 1) as usize);
            }
        }
    }
}

/// The folded key is the folded text with origins `0, 1, 2, ...`.
pub proof fn lemma_fold_key(s: Seq<char>)
    ensures
        flat_text(fold_pieces(s)) == fold_seq(s),
        flat_origins(fold_pieces(s)) == Seq::new(s.len(), |i: int| i as usize),
    decreases s.len(),
{
    if s.len() > 0 {
        lemma_fold_key(s.drop_last());
        assert(fold_pieces(s).drop_last() == fold_pieces(s.drop_last()));
        assert(flat_text(fold_pieces(s)) =~= fold_seq(s));
        assert(flat_origins(fold_pieces(s)) =~= Seq::new(s.len(), |i: int| i as usize));
    }
}

/// Appends one piece (standing for original char `index`) to a key.
fn append_piece(text: &mut String, origins: &mut Vec<usize>, piece: &Vec<char>, index: usize)
    ensures
        final(text)@ == old(text)@ + piece@,
        final(origins)@ == old(origins)@ + Seq::new(piece@.len(), |k: int| index),
{
    let ghost t0 = text@;
    let ghost o0 = origins@;
    for k in 0..piece.len()
        invariant
            text@ == t0 + piece@.take(k as int),
            origins@ == o0 + Seq::new(k as nat, |j: int| index),
    {
        push_char(text, piece[k]);
        origins.push(index);
        assert(piece@.take(k + 1) == piece@.take(k as int).push(piece@[k as int]));
        assert(Seq::new((k + 1) as nat, |j: int| index) == Seq::new(k as nat, |j: int| index).push(
            index,
        ));
    }
    assert(piece@.take(piece@.len() as int) == piece@);
}

/// The step lemma for building a key piece by piece.
proof fn lemma_flat_step(pieces: Seq<Seq<char>>, i: int)
    requires
        0 <= i < pieces.len(),
    ensures
        flat_text(pieces.take(i + 1)) == flat_text(pieces.take(i)) + pieces[i],
        flat_origins(pieces.take(i + 1)) == flat_origins(pieces.take(i)) + Seq::new(
            pieces[i].len(),
            |k: int| i as usize,
        ),
{
    assert(pieces.take(i + 1).drop_last() == pieces.take(i));
    assert(pieces.take(i + 1).last() == pieces[i]);
}

/// The piece of char `i` for the given key kind.
fn piece_of(kind: u8, chars: &Vec<char>, i: usize) -> (r: Vec<char>)
    requires
        i < chars.len(),
        kind < 4,
    ensures
        kind == 0 ==> r@ == fold_pieces(chars@)[i as int],
        kind == 1 ==> r@ == pinyin_full_pieces(chars@)[i as int],
        kind == 2 ==> r@ == pinyin_initial_pieces(chars@)[i as int],
        kind == 3 ==> r@ == english_initial_pieces(chars@)[i as int],
{
    let c = chars[i];
    let mut r: Vec<char> = Vec::new();
    if kind == 0 {
        r.push(fold_char(c));
        assert(r@ =~= seq![fold(c)]);
    } else if kind == 1 {
        match char_pinyin(c) {
            Some(reading) => {
                r = reading;
            },
            None => {
                r.push(fold_char(c));
                assert(r@ =~= seq![fold(c)]);
            },
        }
    } else if kind == 2 {
        match char_pinyin(c) {
            Some(reading) => {
                if reading.len() > 0 {
                    r.push(reading[0]);
                }
                assert(r@ =~= pinyin_initial_piece(c));
            },
            None => {
                r.push(fold_char(c));
                assert(r@ =~= seq![fold(c)]);
            },
        }
    } else {
        let starts = !is_separator(c) && (i == 0 || is_separator(chars[i - 1]));
        if starts {
            r.push(fold_char(c));
            assert(r@ =~= seq![fold(c)]);
        }
    }
    r
}

fn is_separator(c: char) -> (r: bool)
    ensures
        r == is_word_separator(c),
{
    is_whitespace_char(c) || c == '-'
}

/// The spec pieces of the given key kind.
pub open spec fn kind_pieces(kind: u8, s: Seq<char>) -> Seq<Seq<char>> {
    if kind == 0 {
        fold_pieces(s)
    } else if kind == 1 {
        pinyin_full_pieces(s)
    } else if kind == 2 {
        pinyin_initial_pieces(s)
    } else {
        english_initial_pieces(s)
    }
}

fn build_key(kind: u8, source: &str) -> (r: MappedText)
    requires
        kind < 4,
    ensures
        r@ == mapped(kind_pieces(kind, source@)),
        key_wf(r@),
{
    let chars = chars_of(source);
    let ghost pieces = kind_pieces(kind, source@);
    let mut text = String::new();
    let mut origins: Vec<usize> = Vec::new();
    for i in 0..chars.len()
        invariant
            chars@ == source@,
            pieces == kind_pieces(kind, source@),
            pieces.len() == chars@.len(),
            kind < 4,
            text@ == flat_text(pieces.take(i as int)),
            origins@ == flat_origins(pieces.take(i as int)),
    {
        let piece = piece_of(kind, &chars, i);
        assert(piece@ == pieces[i as int]);
        append_piece(&mut text, &mut origins, &piece, i);
        proof {
            lemma_flat_step(pieces, i as int);
        }
    }
    assert(pieces.take(chars.len() as int) == pieces);
    proof {
        lemma_mapped_origins(pieces);
    }
    MappedText { text, origins }
}

impl MappedText {
    /// Case-folded key, one key char per source char.
    pub fn char_fold(source: &str) -> (r: MappedText)
        ensures
            r@ == mapped(fold_pieces(source@)),
            key_wf(r@),
    {
        build_key(0, source)
    }

    /// Whether `source` contains any Han character (pinyin derivable).
    pub fn contains_han(source: &str) -> (r: bool)
        ensures
            r == has_han(source@),
    {
        let chars = chars_of(source);
        for i in 0..chars.len()
            invariant
                chars@ == source@,
                forall|j: int| 0 <= j < i ==> #[trigger] pinyin_reading(chars@[j]) is None,
        {
            if char_pinyin(chars[i]).is_some() {
                return true;
            }
        }
        false
    }

    /// Full pinyin key without syllable separators, e.g. "中文" -> "zhongwen".
    /// Chars without a reading are case-folded in place.
    pub fn pinyin_full(source: &str) -> (r: MappedText)
        ensures
            r@ == mapped(pinyin_full_pieces(source@)),
            key_wf(r@),
    {
        build_key(1, source)
    }

    /// Pinyin initial key, e.g. "中文" -> "zw". Chars without a reading are
    /// case-folded in place.
    pub fn pinyin_initial(source: &str) -> (r: MappedText)
        ensures
            r@ == mapped(pinyin_initial_pieces(source@)),
            key_wf(r@),
    {
        build_key(2, source)
    }

    /// English-initial key: first (case-folded) letter of each
    /// whitespace/hyphen-separated word, e.g. "My Documents" -> "md",
    /// "usb-driver" -> "ud".
    pub fn english_initial(source: &str) -> (r: MappedText)
        ensures
            r@ == mapped(english_initial_pieces(source@)),
            key_wf(r@),
    {
        build_key(3, source)
    }
}

} // verus!

verus! {

/// The derived keys of one searchable field, as values.
pub struct FieldKeysView {
    pub field: SearchField,
    pub enabled: bool,
    pub folded: (Seq<char>, Seq<usize>),
    pub pinyin_full: Option<(Seq<char>, Seq<usize>)>,
    pub pinyin_initial: Option<(Seq<char>, Seq<usize>)>,
    pub english_initial: Option<(Seq<char>, Seq<usize>)>,
}

/// Whether a field is a name or an alias (the fields with derived keys).
pub open spec fn is_name_or_alias(field: SearchField) -> bool {
    field is Name || field is Alias
}

/// The keys of one field: the folded key always; pinyin keys for a name or
/// alias when it is enabled, `search_pinyin` is on and the text holds a Han
/// char; the english-initials key for an enabled name or alias when
/// `search_english_initials` is on.
pub open spec fn field_keys_spec(
    field: SearchField,
    source: Seq<char>,
    enabled: bool,
    settings: AppSettings,
) -> FieldKeysView {
    let build_pinyin = is_name_or_alias(field) && enabled && settings.search_pinyin && has_han(
        source,
    );
    let build_initials = is_name_or_alias(field) && enabled && settings.search_english_initials;
    FieldKeysView {
        field,
        enabled,
        folded: mapped(fold_pieces(source)),
        pinyin_full: if build_pinyin {
            Some(mapped(pinyin_full_pieces(source)))
        } else {
            None
        },
        pinyin_initial: if build_pinyin {
            Some(mapped(pinyin_initial_pieces(source)))
        } else {
            None
        },
        english_initial: if build_initials {
            Some(mapped(english_initial_pieces(source)))
        } else {
            None
        },
    }
}

/// Law: an alias gets exactly the derived keys a name with the same text
/// gets (folded, full pinyin, pinyin initials, english initials), under any
/// settings and either enabled state; only the field differs.
pub proof fn lemma_alias_keys_match_name(i: usize, source: Seq<char>, enabled: bool, settings: AppSettings)
    ensures
        (FieldKeysView { field: SearchField::Name, ..field_keys_spec(SearchField::Alias(i), source, enabled, settings) })
            == field_keys_spec(SearchField::Name, source, enabled, settings),
        field_keys_spec(SearchField::Alias(i), source, enabled, settings).field == SearchField::Alias(i),
{
}

proof fn lemma_flat_lengths(pieces: Seq<Seq<char>>)
    ensures
        flat_text(pieces).len() == flat_origins(pieces).len(),
    decreases pieces.len(),
{
    if pieces.len() > 0 {
        lemma_flat_lengths(pieces.drop_last());
    }
}

proof fn lemma_piece_in_prefix(pieces: Seq<Seq<char>>, j: int, n: int)
    requires
        0 <= j < n <= pieces.len(),
    ensures
        ({
            let o = flat_text(pieces.take(j)).len() as int;
            let key = mapped(pieces.take(n));
            &&& key.0.len() == key.1.len()
            &&& o + pieces[j].len() <= key.0.len()
            &&& key.0.subrange(o, o + pieces[j].len()) == pieces[j]
            &&& forall|t: int| o <= t < o + pieces[j].len() ==> #[trigger] key.1[t] == j as usize
        }),
    decreases n,
{
    lemma_flat_lengths(pieces.take(n));
    lemma_flat_lengths(pieces.take(j));
    let o = flat_text(pieces.take(j)).len() as int;
    if n == j + 1 {
        lemma_flat_step(pieces, j);
        assert(flat_text(pieces.take(n)).subrange(o, o + pieces[j].len()) =~= pieces[j]);
    } else {
        lemma_piece_in_prefix(pieces, j, n - 1);
        lemma_flat_step(pieces, n - 1);
        let before = mapped(pieces.take(n - 1));
        let key = mapped(pieces.take(n));
        assert(key.0.subrange(o, o + pieces[j].len()) =~= before.0.subrange(o, o + pieces[j].len()));
        assert forall|t: int| o <= t < o + pieces[j].len() implies #[trigger] key.1[t] == j as usize by {
            assert(key.1[t] == before.1[t]);
        }
    }
}

/// Law: with pinyin search on, an enabled name or alias whose text holds a
/// character with a (non-empty) pinyin reading has both pinyin keys. Right
/// after the pieces of the characters before it, the full-pinyin key spells
/// that character's reading, and the initials key its first letter, each
/// traced back to that character.
#[verifier::spinoff_prover]
#[verifier::rlimit(50)]
pub proof fn lemma_han_text_gets_pinyin_keys(field: SearchField, source: Seq<char>, enabled: bool, settings: AppSettings, j: int)
    requires
        field is Name || field is Alias,
        enabled,
        settings.search_pinyin,
        0 <= j < source.len(),
        pinyin_reading(source[j]) matches Some(reading) && reading.len() > 0,
    ensures
        ({
            let reading = pinyin_reading(source[j])->0;
            let o = flat_text(pinyin_full_pieces(source.take(j))).len() as int;
            field_keys_spec(field, source, enabled, settings).pinyin_full matches Some(key) && o + reading.len()
                <= key.0.len() && key.0.subrange(o, o + reading.len()) == reading && forall|t: int|
                o <= t < o + reading.len() ==> #[trigger] key.1[t] == j as usize
        }),
        ({
            let reading = pinyin_reading(source[j])->0;
            let o = flat_text(pinyin_initial_pieces(source.take(j))).len() as int;
            field_keys_spec(field, source, enabled, settings).pinyin_initial matches Some(key) && o + 1 <= key.0.len()
                && key.0[o] == reading[0] && key.1[o] == j as usize
        }),
{
    assert(has_han(source));
    let reading = pinyin_reading(source[j])->0;
    let full = pinyin_full_pieces(source);
    let initial = pinyin_initial_pieces(source);
    assert(full.take(j) =~= pinyin_full_pieces(source.take(j)));
    assert(initial.take(j) =~= pinyin_initial_pieces(source.take(j)));
    assert(full[j] == reading);
    assert(initial[j] == seq![reading[0]]);
    lemma_piece_in_prefix(full, j, full.len() as int);
    lemma_piece_in_prefix(initial, j, initial.len() as int);
    assert(full.take(full.len() as int) == full);
    assert(initial.take(initial.len() as int) == initial);
    let v = field_keys_spec(field, source, enabled, settings);
    assert(v.pinyin_full == Some(mapped(full)));
    assert(v.pinyin_initial == Some(mapped(initial)));
    let of = flat_text(full.take(j)).len() as int;
    let oi = flat_text(initial.take(j)).len() as int;
    assert(mapped(full).0.subrange(of, of + reading.len()) == reading);
    assert(mapped(initial).0.subrange(oi, oi + 1)[0] == mapped(initial).0[oi]);
    assert(mapped(initial).1[oi] == j as usize);
}

/// Law: with english initials on, an enabled name or alias has the
/// english-initials key, and every character that starts a word (it is not
/// white space or `-`, and is first or follows one) appears in it folded,
/// right after the initials of the words before it, traced back to that
/// character. Any other field, a disabled one, or initials off, gets none.
#[verifier::spinoff_prover]
pub proof fn lemma_word_starts_in_initials(field: SearchField, source: Seq<char>, enabled: bool, settings: AppSettings, i: int)
    requires
        0 <= i < source.len(),
    ensures
        !((field is Name || field is Alias) && enabled && settings.search_english_initials) ==> field_keys_spec(
            field,
            source,
            enabled,
            settings,
        ).english_initial is None,
        (field is Name || field is Alias) && enabled && settings.search_english_initials && !is_word_separator(source[i])
            && (i == 0 || is_word_separator(source[i - 1])) ==> ({
            let o = flat_text(english_initial_pieces(source).take(i)).len() as int;
            field_keys_spec(field, source, enabled, settings).english_initial matches Some(key) && o < key.0.len()
                && key.0[o] == fold(source[i]) && key.1[o] == i as usize
        }),
{
    let pieces = english_initial_pieces(source);
    if (field is Name || field is Alias) && enabled && settings.search_english_initials && !is_word_separator(source[i])
        && (i == 0 || is_word_separator(source[i - 1])) {
        assert(pieces[i] == seq![fold(source[i])]);
        lemma_piece_in_prefix(pieces, i, pieces.len() as int);
        assert(pieces.take(pieces.len() as int) == pieces);
        let o = flat_text(pieces.take(i)).len() as int;
        assert(mapped(pieces).0.subrange(o, o + 1)[0] == mapped(pieces).0[o]);
        assert(mapped(pieces).1[o] == i as usize);
    }
}

/// Law: a field gets no pinyin keys when pinyin search is off, when it is
/// disabled, when it is neither a name nor an alias, or when no character of
/// its text has a pinyin reading.
pub proof fn lemma_no_pinyin_keys_otherwise(field: SearchField, source: Seq<char>, enabled: bool, settings: AppSettings)
    requires
        !settings.search_pinyin || !enabled || !(field is Name || field is Alias) || forall|j: int|
            0 <= j < source.len() ==> #[trigger] pinyin_reading(source[j]) is None,
    ensures
        field_keys_spec(field, source, enabled, settings).pinyin_full is None,
        field_keys_spec(field, source, enabled, settings).pinyin_initial is None,
{
}

/// Search keys for one searchable field of one entry.
#[derive(Debug)]
pub struct FieldKeys {
    field: SearchField,
    enabled: bool,
    folded: MappedText,
    pinyin_full: Option<MappedText>,
    pinyin_initial: Option<MappedText>,
    english_initial: Option<MappedText>,
}

/// The view of an optional key.
pub open spec fn opt_key(k: Option<MappedText>) -> Option<(Seq<char>, Seq<usize>)> {
    match k {
        Some(m) => Some(m@),
        None => None,
    }
}

impl View for FieldKeys {
    type V = FieldKeysView;

    closed spec fn view(&self) -> FieldKeysView {
        FieldKeysView {
            field: self.field,
            enabled: self.enabled,
            folded: self.folded@,
            pinyin_full: opt_key(self.pinyin_full),
            pinyin_initial: opt_key(self.pinyin_initial),
            english_initial: opt_key(self.english_initial),
        }
    }
}

/// Every key of a field is well formed.
pub open spec fn field_view_wf(v: FieldKeysView) -> bool {
    &&& key_wf(v.folded)
    &&& v.pinyin_full matches Some(k) ==> key_wf(k)
    &&& v.pinyin_initial matches Some(k) ==> key_wf(k)
    &&& v.english_initial matches Some(k) ==> key_wf(k)
}

impl FieldKeys {
    #[verifier::type_invariant]
    spec fn keys_well_formed(&self) -> bool {
        field_view_wf(self@)
    }

    /// Build the derived keys for one searchable slice (see
    /// [`field_keys_spec`]).
    pub fn new(field: SearchField, source: &str, enabled: bool, settings: &AppSettings) -> (r:
        FieldKeys)
        ensures
            r@ == field_keys_spec(field, source@, enabled, *settings),
    {
        let is_name_or_alias = match field {
            SearchField::Name | SearchField::Alias(_) => true,
            _ => false,
        };
        let has_han = MappedText::contains_han(source);
        let build_pinyin = is_name_or_alias && enabled && settings.search_pinyin && has_han;
        let build_initials = is_name_or_alias && enabled && settings.search_english_initials;
        let pinyin_full = if build_pinyin {
            Some(MappedText::pinyin_full(source))
        } else {
            None
        };
        let pinyin_initial = if build_pinyin {
            Some(MappedText::pinyin_initial(source))
        } else {
            None
        };
        let english_initial = if build_initials {
            Some(MappedText::english_initial(source))
        } else {
            None
        };
        FieldKeys {
            field,
            enabled,
            folded: MappedText::char_fold(source),
            pinyin_full,
            pinyin_initial,
            english_initial,
        }
    }

    /// Whether this field participates in search (its settings toggle is on;
    /// names always do).
    pub fn is_enabled(&self) -> (r: bool)
        ensures
            r == self@.enabled,
    {
        self.enabled
    }

    /// The searchable field this key set belongs to.
    pub fn field(&self) -> (r: SearchField)
        ensures
            r == self@.field,
    {
        self.field
    }

    /// The case-folded key.
    pub fn folded(&self) -> (r: &MappedText)
        ensures
            r@ == self@.folded,
            key_wf(r@),
    {
        proof {
            use_type_invariant(self);
        }
        &self.folded
    }

    /// The full-pinyin key, if derived.
    pub fn pinyin_full(&self) -> (r: Option<&MappedText>)
        ensures
            r matches Some(k) ==> self@.pinyin_full == Some(k@) && key_wf(k@),
            r is None ==> self@.pinyin_full is None,
    {
        proof {
            use_type_invariant(self);
        }
        match &self.pinyin_full {
            Some(k) => Some(k),
            None => None,
        }
    }

    /// The pinyin-initial key, if derived.
    pub fn pinyin_initial(&self) -> (r: Option<&MappedText>)
        ensures
            r matches Some(k) ==> self@.pinyin_initial == Some(k@) && key_wf(k@),
            r is None ==> self@.pinyin_initial is None,
    {
        proof {
            use_type_invariant(self);
        }
        match &self.pinyin_initial {
            Some(k) => Some(k),
            None => None,
        }
    }

    /// The english-initials key, if derived.
    pub fn english_initial(&self) -> (r: Option<&MappedText>)
        ensures
            r matches Some(k) ==> self@.english_initial == Some(k@) && key_wf(k@),
            r is None ==> self@.english_initial is None,
    {
        proof {
            use_type_invariant(self);
        }
        match &self.english_initial {
            Some(k) => Some(k),
            None => None,
        }
    }
}

/// All derived keys for one searchable entry.
#[derive(Debug)]
pub struct DerivedKeys {
    pub name: FieldKeys,
    pub aliases: Vec<FieldKeys>,
    pub path: FieldKeys,
    pub category: Option<FieldKeys>,
    pub tags: Vec<FieldKeys>,
    pub note: FieldKeys,
}

/// The views of a vector of field keys.
pub open spec fn keys_views(v: Seq<FieldKeys>) -> Seq<FieldKeysView> {
    v.map_values(|k: FieldKeys| k@)
}

/// The fields among `s` that are enabled, in order.
pub open spec fn enabled_only(s: Seq<FieldKeysView>) -> Seq<FieldKeysView>
    decreases s.len(),
{
    if s.len() == 0 {
        seq![]
    } else if s.last().enabled {
        enabled_only(s.drop_last()).push(s.last())
    } else {
        enabled_only(s.drop_last())
    }
}

impl DerivedKeys {
    /// Every field in the stable search order: name, aliases, path,
    /// category, tags, note.
    pub open spec fn all_fields(&self) -> Seq<FieldKeysView> {
        seq![self.name@] + keys_views(self.aliases@) + seq![self.path@] + match self.category {
            Some(c) => seq![c@],
            None => seq![],
        } + keys_views(self.tags@) + seq![self.note@]
    }

    /// Every enabled field of this entry in the stable order.
    pub fn enabled_fields(&self) -> (r: Vec<&FieldKeys>)
        ensures
            r@.map_values(|k: &FieldKeys| k@) == enabled_only(self.all_fields()),
    {
        let mut r: Vec<&FieldKeys> = Vec::new();
        let ghost mut done: Seq<FieldKeysView> = seq![];
        assert(r@.map_values(|k: &FieldKeys| k@) =~= enabled_only(done));
        push_enabled(&mut r, &self.name, Ghost(done));
        proof {
            done = done.push(self.name@);
        }
        for i in 0..self.aliases.len()
            invariant
                done == seq![self.name@] + keys_views(self.aliases@).take(i as int),
                r@.map_values(|k: &FieldKeys| k@) == enabled_only(done),
        {
            push_enabled(&mut r, &self.aliases[i], Ghost(done));
            proof {
                assert(keys_views(self.aliases@).take(i + 1) == keys_views(self.aliases@).take(
                    i as int,
                ).push(self.aliases@[i as int]@));
                done = done.push(self.aliases@[i as int]@);
            }
        }
        assert(keys_views(self.aliases@).take(self.aliases.len() as int) == keys_views(
            self.aliases@,
        ));
        push_enabled(&mut r, &self.path, Ghost(done));
        proof {
            done = done.push(self.path@);
        }
        match &self.category {
            Some(c) => {
                push_enabled(&mut r, c, Ghost(done));
                proof {
                    done = done.push(c@);
                }
            },
            None => {},
        }
        let ghost before_tags = done;
        for i in 0..self.tags.len()
            invariant
                done == before_tags + keys_views(self.tags@).take(i as int),
                r@.map_values(|k: &FieldKeys| k@) == enabled_only(done),
        {
            push_enabled(&mut r, &self.tags[i], Ghost(done));
            proof {
                assert(keys_views(self.tags@).take(i + 1) == keys_views(self.tags@).take(
                    i as int,
                ).push(self.tags@[i as int]@));
                done = done.push(self.tags@[i as int]@);
            }
        }
        assert(keys_views(self.tags@).take(self.tags.len() as int) == keys_views(self.tags@));
        push_enabled(&mut r, &self.note, Ghost(done));
        proof {
            done = done.push(self.note@);
        }
        assert(done =~= self.all_fields());
        r
    }
}

fn push_enabled<'a>(r: &mut Vec<&'a FieldKeys>, k: &'a FieldKeys, Ghost(done): Ghost<
    Seq<FieldKeysView>,
>)
    requires
        old(r)@.map_values(|f: &FieldKeys| f@) == enabled_only(done),
    ensures
        final(r)@.map_values(|f: &FieldKeys| f@) == enabled_only(done.push(k@)),
{
    assert(done.push(k@).drop_last() == done);
    if k.is_enabled() {
        r.push(k);
        assert(r@.map_values(|f: &FieldKeys| f@) =~= old(r)@.map_values(|f: &FieldKeys| f@).push(
            k@,
        ));
    }
}

} // verus!
