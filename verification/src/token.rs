//! The tokens that the host hands to the parser: identifiers, punctuation,
//! literals and delimited groups, each with the place it came from.
use vstd::prelude::*;

verus! {

/// A region of the source text, as the host counts it. The parser never
/// looks inside a span: it hands it back in the error that blames a token.
#[derive(Clone, Copy, Debug, PartialEq, Eq, Structural)]
pub struct Span {
    pub start: usize,
    pub end: usize,
}

/// The brackets around a group.
#[derive(Clone, Copy, Debug, PartialEq, Eq, Structural)]
pub enum Delimiter {
    Parenthesis,
    Brace,
    Bracket,
    Invisible,
}

/// What a token is.
#[derive(Debug, PartialEq, Eq)]
pub enum TokenKind {
    /// A word: a name or a keyword.
    Ident(String),
    /// One punctuation character; `joint` says that the next token follows
    /// it without a gap, as the first colon of `::` does.
    Punct { ch: char, joint: bool },
    /// A literal, kept as written.
    Literal(String),
    /// A delimited group with the tokens between its brackets.
    Group { delimiter: Delimiter, tokens: Vec<Token> },
}

/// One token tree with its place in the source.
#[derive(Debug, PartialEq, Eq)]
pub struct Token {
    pub kind: TokenKind,
    pub span: Span,
}

impl Token {
    /// The text of an identifier, `None` for any other token.
    pub open spec fn word(self) -> Option<Seq<char>> {
        match self.kind {
            TokenKind::Ident(text) => Some(text@),
            _ => None,
        }
    }

    /// The token is the identifier `text`.
    pub open spec fn is_word(self, text: Seq<char>) -> bool {
        self.word() == Some(text)
    }

    /// The token is the punctuation character `ch`.
    pub open spec fn is_punct(self, ch: char) -> bool {
        self.kind matches TokenKind::Punct { ch: c, .. } && c == ch
    }

    /// The token is the punctuation character `ch`, with the next token
    /// directly behind it.
    pub open spec fn is_joint(self, ch: char) -> bool {
        self.kind matches TokenKind::Punct { ch: c, joint } && c == ch && joint
    }

    /// The token is a group in the brackets `delimiter`.
    pub open spec fn is_group(self, delimiter: Delimiter) -> bool {
        self.kind matches TokenKind::Group { delimiter: d, .. } && d == delimiter
    }

    /// The tokens inside a group; empty for any other token.
    pub open spec fn inner(self) -> Seq<Token> {
        match self.kind {
            TokenKind::Group { tokens, .. } => tokens@,
            _ => Seq::empty(),
        }
    }
}

/// The span that an error at position `i` of `s` blames: that of the token
/// there, or `end` where the tokens have run out.
pub open spec fn span_at(s: Seq<Token>, i: int, end: Span) -> Span {
    if 0 <= i < s.len() {
        s[i].span
    } else {
        end
    }
}

/// The text of the identifier at position `i`, if one stands there.
pub open spec fn word_at(s: Seq<Token>, i: int) -> Option<Seq<char>> {
    if 0 <= i < s.len() {
        s[i].word()
    } else {
        None
    }
}

/// The identifier `text` stands at position `i`.
pub open spec fn has_word(s: Seq<Token>, i: int, text: Seq<char>) -> bool {
    0 <= i < s.len() && s[i].is_word(text)
}

/// The punctuation character `ch` stands at position `i`.
pub open spec fn has_punct(s: Seq<Token>, i: int, ch: char) -> bool {
    0 <= i < s.len() && s[i].is_punct(ch)
}

/// A group in the brackets `delimiter` stands at position `i`.
pub open spec fn has_group(s: Seq<Token>, i: int, delimiter: Delimiter) -> bool {
    0 <= i < s.len() && s[i].is_group(delimiter)
}

/// The span that the end of a token sequence is blamed on when it stands
/// alone: that of its last token.
pub open spec fn last_span(s: Seq<Token>) -> Span {
    if s.len() > 0 {
        s.last().span
    } else {
        Span { start: 0, end: 0 }
    }
}

/// The span to blame at position `i`.
pub fn blame(tokens: &Vec<Token>, i: usize, end: Span) -> (span: Span)
    ensures
        span == span_at(tokens@, i as int, end),
{
    if i < tokens.len() {
        tokens[i].span
    } else {
        end
    }
}

/// The identifier at position `i`, if one stands there.
pub fn ident_at(tokens: &Vec<Token>, i: usize) -> (text: Option<&String>)
    ensures
        match text {
            Some(t) => word_at(tokens@, i as int) == Some(t@) && i < tokens.len(),
            None => word_at(tokens@, i as int) is None,
        },
{
    if i < tokens.len() {
        match &tokens[i].kind {
            TokenKind::Ident(text) => Some(text),
            _ => None,
        }
    } else {
        None
    }
}

/// Whether the punctuation character `ch` stands at position `i`.
pub fn punct_at(tokens: &Vec<Token>, i: usize, ch: char) -> (found: bool)
    ensures
        found == has_punct(tokens@, i as int, ch),
        found ==> i < tokens.len(),
{
    if i < tokens.len() {
        match &tokens[i].kind {
            TokenKind::Punct { ch: c, .. } => *c == ch,
            _ => false,
        }
    } else {
        false
    }
}

/// The tokens inside the group at position `i`, if a group in the brackets
/// `delimiter` stands there.
pub fn group_at(tokens: &Vec<Token>, i: usize, delimiter: Delimiter) -> (inner: Option<
    &Vec<Token>,
>)
    ensures
        match inner {
            Some(g) => has_group(tokens@, i as int, delimiter) && g@ == tokens@[i as int].inner()
                && i < tokens.len(),
            None => !has_group(tokens@, i as int, delimiter),
        },
{
    if i < tokens.len() {
        match &tokens[i].kind {
            TokenKind::Group { delimiter: d, tokens: inner } => {
                if *d == delimiter {
                    Some(inner)
                } else {
                    None
                }
            },
            _ => None,
        }
    } else {
        None
    }
}

/// The span of the last token, or an empty span at the origin.
pub fn end_of(tokens: &Vec<Token>) -> (span: Span)
    ensures
        span == last_span(tokens@),
{
    if tokens.len() > 0 {
        tokens[tokens.len() - 1].span
    } else {
        Span { start: 0, end: 0 }
    }
}

} // verus!
