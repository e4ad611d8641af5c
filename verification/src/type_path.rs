//! Type references: a path of identifiers separated by `.` or `::`, kept
//! as text and never resolved.
use crate::error::{syntax_error, Error, ErrorView, Expected};
use crate::token::{blame, has_punct, ident_at, punct_at, span_at, word_at, Span, Token, TokenKind};
use vstd::prelude::*;
use vstd::string::StringExecFns;

verus! {

/// The first colon of `::` stands at position `j`.
pub open spec fn has_joint(s: Seq<Token>, j: int, ch: char) -> bool {
    0 <= j < s.len() && s[j].is_joint(ch)
}

/// The path separator that starts at position `j`, as it is written, and
/// the number of tokens it takes: `.` is one token, `::` two.
pub open spec fn separator_at(s: Seq<Token>, j: int) -> Option<(Seq<char>, int)> {
    if has_punct(s, j, '.') {
        Some((seq!['.'], 1))
    } else if has_joint(s, j, ':') && has_punct(s, j + 1, ':') {
        Some((seq![':', ':'], 2))
    } else {
        None
    }
}

/// The rest of a path whose text so far is `path`: as long as a separator
/// stands at `j` an identifier must follow it, and both are added. Gives the
/// whole text and the position behind the path.
pub open spec fn path_rest(s: Seq<Token>, j: int, path: Seq<char>, end: Span) -> Result<
    (Seq<char>, int),
    ErrorView,
>
    decreases s.len() - j,
{
    match separator_at(s, j) {
        None => Ok((path, j)),
        Some((separator, width)) => match word_at(s, j + width) {
            None => Err(syntax_error(Expected::Identifier, span_at(s, j + width, end))),
            Some(name) => path_rest(s, j + width + 1, path + separator + name, end),
        },
    }
}

/// The type path that starts at position `i`: its text, and the position
/// behind it. The path is as long as it can be.
pub open spec fn path_at(s: Seq<Token>, i: int, end: Span) -> Result<(Seq<char>, int), ErrorView> {
    match word_at(s, i) {
        None => Err(syntax_error(Expected::TypePath, span_at(s, i, end))),
        Some(name) => path_rest(s, i + 1, name, end),
    }
}

/// A path ends behind where it started, and inside the tokens.
pub proof fn lemma_path_rest_advances(s: Seq<Token>, j: int, path: Seq<char>, end: Span)
    requires
        0 <= j <= s.len(),
    ensures
        path_rest(s, j, path, end) matches Ok((_, next)) ==> j <= next <= s.len(),
    decreases s.len() - j,
{
    match separator_at(s, j) {
        None => {},
        Some((separator, width)) => match word_at(s, j + width) {
            None => {},
            Some(name) => {
                lemma_path_rest_advances(s, j + width + 1, path + separator + name, end);
            },
        },
    }
}

/// Whether the punctuation character `ch` stands at position `j` with the
/// next token directly behind it.
fn joint_at(tokens: &Vec<Token>, j: usize, ch: char) -> (found: bool)
    ensures
        found == has_joint(tokens@, j as int, ch),
{
    if j < tokens.len() {
        match &tokens[j].kind {
            TokenKind::Punct { ch: c, joint } => *c == ch && *joint,
            _ => false,
        }
    } else {
        false
    }
}

/// Reads the type path that starts at position `start` and gives its text
/// with the position behind it. `end` is the span to blame where the tokens
/// run out.
pub fn parse_type_path(tokens: &Vec<Token>, start: usize, end: Span) -> (result: Result<
    (String, usize),
    Error,
>)
    ensures
        match result {
            Ok((path, next)) => path_at(tokens@, start as int, end) == Ok::<_, ErrorView>(
                (path@, next as int),
            ) && start < next <= tokens.len(),
            Err(e) => path_at(tokens@, start as int, end) == Err::<(Seq<char>, int), _>(e@),
        },
{
    let first = ident_at(tokens, start);
    if first.is_none() {
        return Err(Error::syntax(Expected::TypePath, blame(tokens, start, end)));
    }
    let mut path = first.unwrap().clone();
    let mut j: usize = start + 1;
    loop
        invariant
            start < j <= tokens.len(),
            path_at(tokens@, start as int, end) == path_rest(tokens@, j as int, path@, end),
        decreases tokens.len() - j,
    {
        let dot = punct_at(tokens, j, '.');
        if !dot && !(joint_at(tokens, j, ':') && punct_at(tokens, j + 1, ':')) {
            return Ok((path, j));
        }
        let width: usize = if dot {
            1
        } else {
            2
        };
        match ident_at(tokens, j + width) {
            None => {
                return Err(Error::syntax(Expected::Identifier, blame(tokens, j + width, end)));
            },
            Some(name) => {
                proof {
                    reveal_strlit(".");
                    reveal_strlit("::");
                    assert("."@ =~= seq!['.']);
                    assert("::"@ =~= seq![':', ':']);
                }
                path.append(
                    if dot {
                        "."
                    } else {
                        "::"
                    },
                );
                path.append(name.as_str());
                j = j + width + 1;
            },
        }
    }
}

} // verus!
