//! Query parsing and normalization.

use vstd::prelude::*;

use crate::text::{
    ascii_lower, ascii_lower_char, ascii_lower_seq, fold, fold_char, fold_seq, is_ascii_alnum,
    split_words, string_from_chars, words, chars_of,
};

verus! {

/// The strategy class of a token.
#[derive(Debug, Clone, Copy, PartialEq, Eq, Structural)]
pub enum TokenKind {
    /// ASCII letters/digits/hyphen/underscore only. Matched against folded,
    /// pinyin full/initial and english-initial keys by every strategy.
    Latin,
    /// Contains at least one other character (for example CJK or accented
    /// letters). Matched as an ordered pattern against the folded key only.
    Other,
}

/// A parsed, normalized query token.
#[derive(Debug)]
pub struct Token {
    text: String,
    kind: TokenKind,
}

/// Characters that keep a token in the Latin class.
pub open spec fn is_ascii_pattern_char(c: char) -> bool {
    is_ascii_alnum(c) || c == '-' || c == '_'
}

/// Whether every character of `raw` is an ASCII pattern character.
pub open spec fn all_ascii_pattern(raw: Seq<char>) -> bool {
    forall|i: int| 0 <= i < raw.len() ==> #[trigger] is_ascii_pattern_char(raw[i])
}

/// The normalized token built from one raw whitespace-separated word:
/// pure-ASCII words are ASCII-lower-cased and classed `Latin`, any other word
/// is case-folded per character and classed `Other`.
pub open spec fn normalize_token(raw: Seq<char>) -> (Seq<char>, TokenKind) {
    if all_ascii_pattern(raw) {
        (ascii_lower_seq(raw), TokenKind::Latin)
    } else {
        (fold_seq(raw), TokenKind::Other)
    }
}

/// The tokens of a raw query: its whitespace-separated words, normalized.
pub open spec fn parse_spec(raw: Seq<char>) -> Seq<(Seq<char>, TokenKind)> {
    words(raw).map_values(|w: Seq<char>| normalize_token(w))
}

impl View for Token {
    type V = (Seq<char>, TokenKind);

    closed spec fn view(&self) -> (Seq<char>, TokenKind) {
        (self.text@, self.kind)
    }
}

impl Token {
    /// The strategy class of this token.
    pub fn kind(&self) -> (r: TokenKind)
        ensures
            r == self@.1,
    {
        self.kind
    }

    /// The normalized token text used as the match pattern.
    pub fn text(&self) -> (r: &str)
        ensures
            r@ == self@.0,
    {
        self.text.as_str()
    }
}

/// A parsed, normalized query.
#[derive(Debug)]
pub struct Query {
    tokens: Vec<Token>,
}

impl View for Query {
    type V = Seq<(Seq<char>, TokenKind)>;

    closed spec fn view(&self) -> Seq<(Seq<char>, TokenKind)> {
        self.tokens@.map_values(|t: Token| t@)
    }
}

impl Query {
    /// The tokens in query order.
    pub fn tokens(&self) -> (r: &[Token])
        ensures
            r@.len() == self@.len(),
            forall|i: int| 0 <= i < r@.len() ==> #[trigger] r@[i]@ == self@[i],
    {
        self.tokens.as_slice()
    }
}

fn is_ascii_pattern(c: char) -> (r: bool)
    ensures
        r == is_ascii_pattern_char(c),
{
    ('A' <= c && c <= 'Z') || ('a' <= c && c <= 'z') || ('0' <= c && c <= '9') || c == '-' || c
        == '_'
}

/// Parses and normalizes a raw query string into tokens.
#[derive(Debug, Clone, Copy)]
pub struct QueryParser;

impl QueryParser {
    /// Splits on Unicode whitespace (runs collapse into one separator, leading
    /// and trailing whitespace is dropped) and normalizes each word (see
    /// [`normalize_token`]). Empty input yields zero tokens.
    pub fn parse(&self, raw: &str) -> (q: Query)
        ensures
            q@ == parse_spec(raw@),
    {
        let chars = chars_of(raw);
        let parts = split_words(&chars);
        let mut tokens: Vec<Token> = Vec::new();
        for k in 0..parts.len()
            invariant
                parts@.len() == words(raw@).len(),
                forall|j: int| 0 <= j < parts@.len() ==> #[trigger] parts@[j]@ == words(raw@)[j],
                tokens@.len() == k,
                forall|j: int|
                    0 <= j < k ==> #[trigger] tokens@[j]@ == normalize_token(words(raw@)[j]),
        {
            let token = Self::build_token(&parts[k]);
            tokens.push(token);
        }
        let q = Query { tokens };
        assert(q@ =~= parse_spec(raw@));
        q
    }

    fn build_token(raw: &Vec<char>) -> (t: Token)
        ensures
            t@ == normalize_token(raw@),
    {
        let mut all_ascii = true;
        for i in 0..raw.len()
            invariant
                all_ascii == (forall|j: int| 0 <= j < i ==> #[trigger] is_ascii_pattern_char(raw@[j])),
        {
            if !is_ascii_pattern(raw[i]) {
                all_ascii = false;
            }
        }
        let mut out: Vec<char> = Vec::new();
        for i in 0..raw.len()
            invariant
                all_ascii == all_ascii_pattern(raw@),
                out@.len() == i,
                forall|j: int|
                    0 <= j < i ==> #[trigger] out@[j] == (if all_ascii {
                        ascii_lower(raw@[j])
                    } else {
                        fold(raw@[j])
                    }),
        {
            let c = if all_ascii {
                ascii_lower_char(raw[i])
            } else {
                fold_char(raw[i])
            };
            out.push(c);
        }
        let text = string_from_chars(&out);
        let kind = if all_ascii {
            TokenKind::Latin
        } else {
            TokenKind::Other
        };
        let t = Token { text, kind };
        assert(t@.0 =~= normalize_token(raw@).0);
        t
    }
}

} // verus!
