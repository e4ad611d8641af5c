//! The words that the grammar reserves.
use crate::token::{has_word, ident_at, Token};
use vstd::prelude::*;
use vstd::string::StringExecFns;

verus! {

/// A word of the grammar.
#[derive(Clone, Copy, Debug, PartialEq, Eq, Structural)]
pub enum Keyword {
    Package,
    Service,
    Rpc,
    Stream,
    Returns,
    Codec,
}

impl Keyword {
    /// The keyword as it is written.
    pub open spec fn text(self) -> Seq<char> {
        match self {
            Keyword::Package => "package"@,
            Keyword::Service => "service"@,
            Keyword::Rpc => "rpc"@,
            Keyword::Stream => "stream"@,
            Keyword::Returns => "returns"@,
            Keyword::Codec => "codec"@,
        }
    }

    /// The keyword as it is written.
    pub fn as_str(self) -> (text: &'static str)
        ensures
            text@ == self.text(),
    {
        match self {
            Keyword::Package => "package",
            Keyword::Service => "service",
            Keyword::Rpc => "rpc",
            Keyword::Stream => "stream",
            Keyword::Returns => "returns",
            Keyword::Codec => "codec",
        }
    }

    /// Whether this keyword stands at position `i` of `tokens`.
    pub fn peek(self, tokens: &Vec<Token>, i: usize) -> (found: bool)
        ensures
            found == has_word(tokens@, i as int, self.text()),
            found ==> i < tokens.len(),
    {
        match ident_at(tokens, i) {
            Some(text) => is_keyword(text, self),
            None => false,
        }
    }
}

/// The keyword that stands at position `i` of `s`, if one does.
pub open spec fn keyword_at(s: Seq<Token>, i: int) -> Option<Keyword> {
    if has_word(s, i, Keyword::Package.text()) {
        Some(Keyword::Package)
    } else if has_word(s, i, Keyword::Service.text()) {
        Some(Keyword::Service)
    } else if has_word(s, i, Keyword::Rpc.text()) {
        Some(Keyword::Rpc)
    } else if has_word(s, i, Keyword::Stream.text()) {
        Some(Keyword::Stream)
    } else if has_word(s, i, Keyword::Returns.text()) {
        Some(Keyword::Returns)
    } else if has_word(s, i, Keyword::Codec.text()) {
        Some(Keyword::Codec)
    } else {
        None
    }
}

/// Whether `text` is the keyword `keyword`.
fn is_keyword(text: &String, keyword: Keyword) -> (same: bool)
    ensures
        same == (text@ == keyword.text()),
{
    let word = String::from_str(keyword.as_str());
    *text == word
}

/// Looks at position `i` of `tokens` and gives the keyword that stands
/// there, if one does, without moving on.
pub fn lookahead(tokens: &Vec<Token>, i: usize) -> (found: Option<Keyword>)
    ensures
        found == keyword_at(tokens@, i as int),
        found is Some ==> i < tokens.len(),
{
    match ident_at(tokens, i) {
        None => None,
        Some(text) => {
            if is_keyword(text, Keyword::Package) {
                Some(Keyword::Package)
            } else if is_keyword(text, Keyword::Service) {
                Some(Keyword::Service)
            } else if is_keyword(text, Keyword::Rpc) {
                Some(Keyword::Rpc)
            } else if is_keyword(text, Keyword::Stream) {
                Some(Keyword::Stream)
            } else if is_keyword(text, Keyword::Returns) {
                Some(Keyword::Returns)
            } else if is_keyword(text, Keyword::Codec) {
                Some(Keyword::Codec)
            } else {
                None
            }
        },
    }
}

/// No two keywords are written alike.
pub proof fn lemma_keywords_differ(a: Keyword, b: Keyword)
    requires
        a != b,
    ensures
        a.text() != b.text(),
{
    reveal_strlit("package");
    reveal_strlit("service");
    reveal_strlit("rpc");
    reveal_strlit("stream");
    reveal_strlit("returns");
    reveal_strlit("codec");
    assert(a.text().len() != b.text().len() || a.text()[0] != b.text()[0]);
}

/// The keyword found at a position is the one that is written there.
pub proof fn lemma_keyword_at(s: Seq<Token>, i: int, keyword: Keyword)
    ensures
        keyword_at(s, i) == Some(keyword) <==> has_word(s, i, keyword.text()),
{
    if has_word(s, i, keyword.text()) {
        if keyword != Keyword::Package {
            lemma_keywords_differ(keyword, Keyword::Package);
        }
        if keyword != Keyword::Service {
            lemma_keywords_differ(keyword, Keyword::Service);
        }
        if keyword != Keyword::Rpc {
            lemma_keywords_differ(keyword, Keyword::Rpc);
        }
        if keyword != Keyword::Stream {
            lemma_keywords_differ(keyword, Keyword::Stream);
        }
        if keyword != Keyword::Returns {
            lemma_keywords_differ(keyword, Keyword::Returns);
        }
        if keyword != Keyword::Codec {
            lemma_keywords_differ(keyword, Keyword::Codec);
        }
    }
}

} // verus!
