//! One method of a service: `rpc Name (Request) returns (Response) {}`,
//! where either type may be marked `stream`.
use crate::error::{syntax_error, Error, ErrorView, Expected};
use crate::keyword::Keyword;
use crate::token::{
    blame, group_at, has_group, has_word, ident_at, span_at, word_at, Delimiter, Span, Token,
};
use crate::type_path::{parse_type_path, path_at};
use vstd::prelude::*;

verus! {

/// A method as it was declared.
#[derive(Clone, Debug, PartialEq, Eq)]
pub struct Rpc {
    pub name: String,
    pub request: String,
    pub response: String,
    pub request_streaming: bool,
    pub response_streaming: bool,
}

/// An [`Rpc`] with its texts as sequences of characters.
pub struct RpcView {
    pub name: Seq<char>,
    pub request: Seq<char>,
    pub response: Seq<char>,
    pub request_streaming: bool,
    pub response_streaming: bool,
}

impl View for Rpc {
    type V = RpcView;

    open spec fn view(&self) -> RpcView {
        RpcView {
            name: self.name@,
            request: self.request@,
            response: self.response@,
            request_streaming: self.request_streaming,
            response_streaming: self.response_streaming,
        }
    }
}

/// The views of some methods, in order.
pub open spec fn rpc_views(rpcs: Seq<Rpc>) -> Seq<RpcView> {
    rpcs.map_values(|rpc: Rpc| rpc@)
}

/// The number of tokens that one method declaration takes.
pub const RPC_TOKENS: usize = 6;

/// What stands between the parentheses of a request or a response: the
/// word `stream` or nothing, then one type path, then nothing more. Gives
/// whether the type is streamed, and the path. `end` is the span of the
/// group.
pub open spec fn slot(g: Seq<Token>, end: Span) -> Result<(bool, Seq<char>), ErrorView> {
    let streaming = has_word(g, 0, Keyword::Stream.text());
    let start: int = if streaming {
        1
    } else {
        0
    };
    match path_at(g, start, end) {
        Err(e) => Err(e),
        Ok((path, next)) => if next < g.len() {
            Err(syntax_error(Expected::End, g[next].span))
        } else {
            Ok((streaming, path))
        },
    }
}

/// The method declared by the six tokens from position `i` of `s`: the
/// word `rpc`, a name, the request in parentheses, the word `returns`, the
/// response in parentheses, and a pair of braces with nothing between them.
/// The first token that does not fit is blamed; `end` is blamed where the
/// tokens run out.
pub open spec fn rpc_at(s: Seq<Token>, i: int, end: Span) -> Result<RpcView, ErrorView> {
    if !has_word(s, i, Keyword::Rpc.text()) {
        Err(syntax_error(Expected::Rpc, span_at(s, i, end)))
    } else if word_at(s, i + 1) is None {
        Err(syntax_error(Expected::Identifier, span_at(s, i + 1, end)))
    } else if !has_group(s, i + 2, Delimiter::Parenthesis) {
        Err(syntax_error(Expected::Parentheses, span_at(s, i + 2, end)))
    } else {
        match slot(s[i + 2].inner(), s[i + 2].span) {
            Err(e) => Err(e),
            Ok((request_streaming, request)) => if !has_word(s, i + 3, Keyword::Returns.text()) {
                Err(syntax_error(Expected::Returns, span_at(s, i + 3, end)))
            } else if !has_group(s, i + 4, Delimiter::Parenthesis) {
                Err(syntax_error(Expected::Parentheses, span_at(s, i + 4, end)))
            } else {
                match slot(s[i + 4].inner(), s[i + 4].span) {
                    Err(e) => Err(e),
                    Ok((response_streaming, response)) => if !has_group(
                        s,
                        i + 5,
                        Delimiter::Brace,
                    ) {
                        Err(syntax_error(Expected::Braces, span_at(s, i + 5, end)))
                    } else if s[i + 5].inner().len() > 0 {
                        Err(syntax_error(Expected::End, s[i + 5].inner()[0].span))
                    } else {
                        Ok(
                            RpcView {
                                name: word_at(s, i + 1)->0,
                                request,
                                response,
                                request_streaming,
                                response_streaming,
                            },
                        )
                    },
                }
            },
        }
    }
}

/// Reads what stands between the parentheses of a request or a response.
pub fn parse_slot(group: &Vec<Token>, end: Span) -> (result: Result<(bool, String), Error>)
    ensures
        match result {
            Ok((streaming, path)) => slot(group@, end) == Ok::<_, ErrorView>((streaming, path@)),
            Err(e) => slot(group@, end) == Err::<(bool, Seq<char>), _>(e@),
        },
{
    let streaming = Keyword::Stream.peek(group, 0);
    let start: usize = if streaming {
        1
    } else {
        0
    };
    match parse_type_path(group, start, end) {
        Err(e) => Err(e),
        Ok((path, next)) => {
            if next < group.len() {
                Err(Error::syntax(Expected::End, group[next].span))
            } else {
                Ok((streaming, path))
            }
        },
    }
}

impl Rpc {
    /// Reads the method declared from position `start` of `tokens`, which
    /// takes [`RPC_TOKENS`] tokens. `end` is the span to blame where the
    /// tokens run out.
    pub fn parse(tokens: &Vec<Token>, start: usize, end: Span) -> (result: Result<Rpc, Error>)
        ensures
            match result {
                Ok(rpc) => rpc_at(tokens@, start as int, end) == Ok::<_, ErrorView>(rpc@) && start
                    + RPC_TOKENS <= tokens.len(),
                Err(e) => rpc_at(tokens@, start as int, end) == Err::<RpcView, _>(e@),
            },
    {
        if !Keyword::Rpc.peek(tokens, start) {
            return Err(Error::syntax(Expected::Rpc, blame(tokens, start, end)));
        }
        let name = match ident_at(tokens, start + 1) {
            Some(name) => name.clone(),
            None => {
                return Err(Error::syntax(Expected::Identifier, blame(tokens, start + 1, end)));
            },
        };
        let (request_streaming, request) = match group_at(
            tokens,
            start + 2,
            Delimiter::Parenthesis,
        ) {
            Some(group) => match parse_slot(group, tokens[start + 2].span) {
                Ok(slot) => slot,
                Err(e) => {
                    return Err(e);
                },
            },
            None => {
                return Err(Error::syntax(Expected::Parentheses, blame(tokens, start + 2, end)));
            },
        };
        if !Keyword::Returns.peek(tokens, start + 3) {
            return Err(Error::syntax(Expected::Returns, blame(tokens, start + 3, end)));
        }
        let (response_streaming, response) = match group_at(
            tokens,
            start + 4,
            Delimiter::Parenthesis,
        ) {
            Some(group) => match parse_slot(group, tokens[start + 4].span) {
                Ok(slot) => slot,
                Err(e) => {
                    return Err(e);
                },
            },
            None => {
                return Err(Error::syntax(Expected::Parentheses, blame(tokens, start + 4, end)));
            },
        };
        match group_at(tokens, start + 5, Delimiter::Brace) {
            Some(options) => {
                if options.len() > 0 {
                    return Err(Error::syntax(Expected::End, options[0].span));
                }
            },
            None => {
                return Err(Error::syntax(Expected::Braces, blame(tokens, start + 5, end)));
            },
        }
        Ok(Rpc { name, request, response, request_streaming, response_streaming })
    }
}

} // verus!
