//! A service block: `service Name { ... }` with its methods in the order
//! in which they were declared.
use crate::error::{syntax_error, Error, ErrorView, Expected};
use crate::keyword::Keyword;
use crate::rpc::{rpc_at, rpc_views, Rpc, RpcView, RPC_TOKENS};
use crate::token::{
    blame, group_at, has_group, has_word, ident_at, span_at, word_at, Delimiter, Span, Token,
};
use vstd::prelude::*;

verus! {

/// A service as it was declared.
#[derive(Clone, Debug, PartialEq, Eq)]
pub struct Service {
    pub name: String,
    pub rpcs: Vec<Rpc>,
}

/// A [`Service`] with its texts as sequences of characters.
pub struct ServiceView {
    pub name: Seq<char>,
    pub rpcs: Seq<RpcView>,
}

impl View for Service {
    type V = ServiceView;

    open spec fn view(&self) -> ServiceView {
        ServiceView { name: self.name@, rpcs: rpc_views(self.rpcs@) }
    }
}

/// The number of tokens that one service declaration takes.
pub const SERVICE_TOKENS: usize = 3;

/// The methods declared from position `j` of a service's body to its end,
/// added in order behind `methods`.
pub open spec fn rpcs_from(body: Seq<Token>, j: int, methods: Seq<RpcView>, end: Span) -> Result<
    Seq<RpcView>,
    ErrorView,
>
    decreases body.len() - j,
{
    if j < 0 || j >= body.len() {
        Ok(methods)
    } else {
        match rpc_at(body, j, end) {
            Err(e) => Err(e),
            Ok(rpc) => rpcs_from(body, j + RPC_TOKENS, methods.push(rpc), end),
        }
    }
}

/// The service declared by the three tokens from position `i` of `s`: the
/// word `service`, a name, and the methods in braces.
pub open spec fn service_at(s: Seq<Token>, i: int, end: Span) -> Result<ServiceView, ErrorView> {
    if !has_word(s, i, Keyword::Service.text()) {
        Err(syntax_error(Expected::Service, span_at(s, i, end)))
    } else if word_at(s, i + 1) is None {
        Err(syntax_error(Expected::Identifier, span_at(s, i + 1, end)))
    } else if !has_group(s, i + 2, Delimiter::Brace) {
        Err(syntax_error(Expected::Braces, span_at(s, i + 2, end)))
    } else {
        match rpcs_from(s[i + 2].inner(), 0, Seq::empty(), s[i + 2].span) {
            Err(e) => Err(e),
            Ok(rpcs) => Ok(ServiceView { name: word_at(s, i + 1)->0, rpcs }),
        }
    }
}

/// Reads the methods of a service's body. `end` is the span of the body.
pub fn parse_rpcs(body: &Vec<Token>, end: Span) -> (result: Result<Vec<Rpc>, Error>)
    ensures
        match result {
            Ok(rpcs) => rpcs_from(body@, 0, Seq::empty(), end) == Ok::<_, ErrorView>(
                rpc_views(rpcs@),
            ),
            Err(e) => rpcs_from(body@, 0, Seq::empty(), end) == Err::<Seq<RpcView>, _>(e@),
        },
{
    let mut rpcs: Vec<Rpc> = Vec::new();
    let mut j: usize = 0;
    assert(rpc_views(rpcs@) =~= Seq::empty());
    while j < body.len()
        invariant
            j <= body.len(),
            rpcs_from(body@, 0, Seq::empty(), end) == rpcs_from(
                body@,
                j as int,
                rpc_views(rpcs@),
                end,
            ),
        decreases body.len() - j,
    {
        match Rpc::parse(body, j, end) {
            Err(e) => {
                return Err(e);
            },
            Ok(rpc) => {
                assert(rpc_views(rpcs@.push(rpc)) =~= rpc_views(rpcs@).push(rpc@));
                rpcs.push(rpc);
                j += RPC_TOKENS;
            },
        }
    }
    Ok(rpcs)
}

impl Service {
    /// Reads the service declared from position `start` of `tokens`, which
    /// takes [`SERVICE_TOKENS`] tokens. `end` is the span to blame where the
    /// tokens run out.
    pub fn parse(tokens: &Vec<Token>, start: usize, end: Span) -> (result: Result<Service, Error>)
        ensures
            match result {
                Ok(service) => service_at(tokens@, start as int, end) == Ok::<_, ErrorView>(
                    service@,
                ) && start + SERVICE_TOKENS <= tokens.len(),
                Err(e) => service_at(tokens@, start as int, end) == Err::<ServiceView, _>(e@),
            },
    {
        if !Keyword::Service.peek(tokens, start) {
            return Err(Error::syntax(Expected::Service, blame(tokens, start, end)));
        }
        let name = match ident_at(tokens, start + 1) {
            Some(name) => name.clone(),
            None => {
                return Err(Error::syntax(Expected::Identifier, blame(tokens, start + 1, end)));
            },
        };
        match group_at(tokens, start + 2, Delimiter::Brace) {
            None => Err(Error::syntax(Expected::Braces, blame(tokens, start + 2, end))),
            Some(body) => match parse_rpcs(body, tokens[start + 2].span) {
                Err(e) => Err(e),
                Ok(rpcs) => Ok(Service { name, rpcs }),
            },
        }
    }
}

} // verus!
