//! The grammar, stated over whole runs of tokens, and the proofs that the
//! parser accepts what the grammar derives and nothing else.
//!
//! ```text
//! unit         := (package_decl | codec_decl | service_decl)*
//! package_decl := "package" IDENT ";"
//! codec_decl   := "codec" TYPE_PATH ";"
//! service_decl := "service" IDENT "{" rpc_decl* "}"
//! rpc_decl     := "rpc" IDENT "(" "stream"? TYPE_PATH ")"
//!                 "returns" "(" "stream"? TYPE_PATH ")" "{" "}"
//! TYPE_PATH    := IDENT (("." | "::") IDENT)*
//! ```
use crate::case::{pascal_case, snake_case};
use crate::described;
use crate::error::ErrorView;
use crate::keyword::{keyword_at, lemma_keyword_at, Keyword};
use crate::proto_context::{
    empty_unit, unit_from, unit_of, with_codec, with_package, with_service, ProtoContextView,
};
use crate::protobuf::{
    proto_of, service_descriptor, Dialect, MethodDescriptorView, ProtoView,
};
use crate::rpc::{rpc_at, slot, RpcView, RPC_TOKENS};
use crate::service::{rpcs_from, service_at, ServiceView, SERVICE_TOKENS};
use crate::token::{has_word, last_span, word_at, Delimiter, Span, Token, TokenKind};
use crate::type_path::{path_at, path_rest, separator_at};
use vstd::prelude::*;

verus! {

/// A token as it is written in a path: an identifier's text, a punctuation
/// character; nothing for any other token.
pub open spec fn token_text(t: Token) -> Seq<char> {
    match t.kind {
        TokenKind::Ident(text) => text@,
        TokenKind::Punct { ch, .. } => seq![ch],
        _ => Seq::empty(),
    }
}

/// The tokens of `s` from `from` up to `to`, written one after another.
pub open spec fn text_between(s: Seq<Token>, from: int, to: int) -> Seq<char>
    decreases to - from,
{
    if from < 0 || from >= to || to > s.len() {
        Seq::empty()
    } else {
        token_text(s[from]) + text_between(s, from + 1, to)
    }
}

/// The tokens of `s` from `j` up to `to` go on with a path: there are none,
/// or they are a separator, an identifier, and what goes on with the path.
pub open spec fn is_path_tail(s: Seq<Token>, j: int, to: int) -> bool
    decreases to - j,
{
    j == to || match separator_at(s, j) {
        Some((_, width)) => j + width < to && word_at(s, j + width) is Some && is_path_tail(
            s,
            j + width + 1,
            to,
        ),
        None => false,
    }
}

/// The tokens of `s` from `from` up to `to` are a type path: identifiers
/// with `.` or `::` between two of them.
pub open spec fn is_type_path(s: Seq<Token>, from: int, to: int) -> bool {
    &&& 0 <= from < to <= s.len()
    &&& word_at(s, from) is Some
    &&& is_path_tail(s, from + 1, to)
}

/// The tokens `g` between a pair of parentheses are a request or a response
/// with the type `path`, streamed or not: the word `stream` stands in front
/// exactly if it is streamed, and the rest is the path.
pub open spec fn is_slot(g: Seq<Token>, streaming: bool, path: Seq<char>) -> bool {
    let from: int = if streaming {
        1
    } else {
        0
    };
    &&& streaming == has_word(g, 0, Keyword::Stream.text())
    &&& is_type_path(g, from, g.len() as int)
    &&& path == text_between(g, from, g.len() as int)
}

/// The six tokens of `s` from position `i` declare the method `rpc`.
pub open spec fn is_rpc(s: Seq<Token>, i: int, rpc: RpcView) -> bool {
    &&& 0 <= i
    &&& i + RPC_TOKENS <= s.len()
    &&& s[i].is_word(Keyword::Rpc.text())
    &&& s[i + 1].word() == Some(rpc.name)
    &&& s[i + 2].is_group(Delimiter::Parenthesis)
    &&& is_slot(s[i + 2].inner(), rpc.request_streaming, rpc.request)
    &&& s[i + 3].is_word(Keyword::Returns.text())
    &&& s[i + 4].is_group(Delimiter::Parenthesis)
    &&& is_slot(s[i + 4].inner(), rpc.response_streaming, rpc.response)
    &&& s[i + 5].is_group(Delimiter::Brace)
    &&& s[i + 5].inner().len() == 0
}

/// The rest of a path is read as far as the grammar derives it, and gives
/// the text of its tokens, if no separator stands behind it.
proof fn lemma_path_tail_is_read(s: Seq<Token>, j: int, to: int, path: Seq<char>, end: Span)
    requires
        0 <= j <= to <= s.len(),
        is_path_tail(s, j, to),
        separator_at(s, to) is None,
    ensures
        path_rest(s, j, path, end) == Ok::<_, ErrorView>((path + text_between(s, j, to), to)),
    decreases to - j,
{
    if j == to {
        assert(path + text_between(s, j, to) =~= path);
    } else {
        let (separator, width) = separator_at(s, j)->0;
        let name = word_at(s, j + width)->0;
        lemma_path_tail_is_read(s, j + width + 1, to, path + separator + name, end);
        assert(text_between(s, j, to) =~= separator + name + text_between(s, j + width + 1, to)) by {
            if width == 1 {
                assert(text_between(s, j, to) == token_text(s[j]) + text_between(s, j + 1, to));
                assert(text_between(s, j + 1, to) == token_text(s[j + 1]) + text_between(
                    s,
                    j + 2,
                    to,
                ));
                assert(token_text(s[j]) =~= separator);
            } else {
                assert(text_between(s, j, to) == token_text(s[j]) + text_between(s, j + 1, to));
                assert(text_between(s, j + 1, to) == token_text(s[j + 1]) + text_between(
                    s,
                    j + 2,
                    to,
                ));
                assert(text_between(s, j + 2, to) == token_text(s[j + 2]) + text_between(
                    s,
                    j + 3,
                    to,
                ));
                assert(token_text(s[j]) + token_text(s[j + 1]) =~= separator);
            }
        }
        assert(path + separator + name + text_between(s, j + width + 1, to) =~= path
            + text_between(s, j, to));
    }
}

/// What was read as the rest of a path is one by the grammar, its text is
/// that of its tokens, and no separator stands behind it.
proof fn lemma_path_rest_is_tail(s: Seq<Token>, j: int, path: Seq<char>, end: Span)
    requires
        0 <= j <= s.len(),
        path_rest(s, j, path, end) is Ok,
    ensures
        ({
            let (text, to) = path_rest(s, j, path, end)->Ok_0;
            &&& j <= to <= s.len()
            &&& is_path_tail(s, j, to)
            &&& text == path + text_between(s, j, to)
            &&& separator_at(s, to) is None
        }),
    decreases s.len() - j,
{
    match separator_at(s, j) {
        None => {
            assert(path + text_between(s, j, j) =~= path);
        },
        Some((separator, width)) => {
            let name = word_at(s, j + width)->0;
            lemma_path_rest_is_tail(s, j + width + 1, path + separator + name, end);
            let (text, to) = path_rest(s, j, path, end)->Ok_0;
            lemma_path_tail_is_read(s, j, to, path, end);
        },
    }
}

/// A type path is read exactly where the grammar derives one that no
/// separator follows, and gives the text of its tokens.
pub proof fn lemma_type_path_is_read(s: Seq<Token>, from: int, end: Span, text: Seq<char>, to: int)
    requires
        0 <= from,
    ensures
        path_at(s, from, end) == Ok::<_, ErrorView>((text, to)) <==> is_type_path(s, from, to)
            && separator_at(s, to) is None && text == text_between(s, from, to),
{
    if is_type_path(s, from, to) && separator_at(s, to) is None {
        let name = word_at(s, from)->0;
        lemma_path_tail_is_read(s, from + 1, to, name, end);
        assert(text_between(s, from, to) =~= name + text_between(s, from + 1, to));
    }
    if path_at(s, from, end) == Ok::<_, ErrorView>((text, to)) {
        let name = word_at(s, from)->0;
        lemma_path_rest_is_tail(s, from + 1, name, end);
        assert(text_between(s, from, to) =~= name + text_between(s, from + 1, to));
    }
}

/// A request or a response is read exactly where the grammar derives it.
pub proof fn lemma_slot_is_read(g: Seq<Token>, end: Span, streaming: bool, path: Seq<char>)
    ensures
        slot(g, end) == Ok::<_, ErrorView>((streaming, path)) <==> is_slot(g, streaming, path),
{
    let marked = has_word(g, 0, Keyword::Stream.text());
    let from: int = if marked {
        1
    } else {
        0
    };
    if is_slot(g, streaming, path) {
        lemma_type_path_is_read(g, from, end, path, g.len() as int);
    }
    if slot(g, end) == Ok::<_, ErrorView>((streaming, path)) {
        let (text, to) = path_at(g, from, end)->Ok_0;
        lemma_type_path_is_read(g, from, end, text, to);
    }
}

/// A method is read exactly where the grammar derives it.
pub proof fn lemma_rpc_is_read(s: Seq<Token>, i: int, end: Span, rpc: RpcView)
    ensures
        rpc_at(s, i, end) == Ok::<_, ErrorView>(rpc) <==> is_rpc(s, i, rpc),
{
    if 0 <= i && i + RPC_TOKENS <= s.len() {
        lemma_slot_is_read(s[i + 2].inner(), s[i + 2].span, rpc.request_streaming, rpc.request);
        lemma_slot_is_read(s[i + 4].inner(), s[i + 4].span, rpc.response_streaming, rpc.response);
        if rpc_at(s, i, end) == Ok::<_, ErrorView>(rpc) {
            let (request_streaming, request) = slot(s[i + 2].inner(), s[i + 2].span)->Ok_0;
            let (response_streaming, response) = slot(s[i + 4].inner(), s[i + 4].span)->Ok_0;
            assert(request_streaming == rpc.request_streaming && request == rpc.request);
            assert(response_streaming == rpc.response_streaming && response == rpc.response);
        }
        if is_rpc(s, i, rpc) {
            assert(rpc_at(s, i, end) == Ok::<_, ErrorView>(rpc));
        }
    }
}

/// The tokens `body` between the braces of a service declare the methods
/// `rpcs`, one after another and nothing else.
pub open spec fn is_rpc_list(body: Seq<Token>, rpcs: Seq<RpcView>) -> bool {
    &&& body.len() == RPC_TOKENS * rpcs.len()
    &&& forall|k: int| 0 <= k < rpcs.len() ==> is_rpc(body, RPC_TOKENS * k, #[trigger] rpcs[k])
}

/// The three tokens of `s` from position `i` declare the service `service`.
pub open spec fn is_service(s: Seq<Token>, i: int, service: ServiceView) -> bool {
    &&& 0 <= i
    &&& i + SERVICE_TOKENS <= s.len()
    &&& s[i].is_word(Keyword::Service.text())
    &&& s[i + 1].word() == Some(service.name)
    &&& s[i + 2].is_group(Delimiter::Brace)
    &&& is_rpc_list(s[i + 2].inner(), service.rpcs)
}

/// What a top-level declaration says.
pub enum Declaration {
    Package(Seq<char>),
    Codec(Seq<char>),
    Service(ServiceView),
}

/// The tokens of `s` from `i` up to `next` are the declaration
/// `declaration`.
pub open spec fn is_declaration(s: Seq<Token>, i: int, next: int, declaration: Declaration) -> bool {
    &&& 0 <= i < next <= s.len()
    &&& match declaration {
        Declaration::Package(name) => {
            &&& next == i + 3
            &&& s[i].is_word(Keyword::Package.text())
            &&& s[i + 1].word() == Some(name)
            &&& s[i + 2].is_punct(';')
        },
        Declaration::Codec(path) => {
            &&& s[i].is_word(Keyword::Codec.text())
            &&& is_type_path(s, i + 1, next - 1)
            &&& path == text_between(s, i + 1, next - 1)
            &&& s[next - 1].is_punct(';')
        },
        Declaration::Service(service) => {
            &&& next == i + SERVICE_TOKENS
            &&& is_service(s, i, service)
        },
    }
}

/// The tokens of `s` from position `i` to its end are the declarations
/// `declarations`, one after another and nothing else.
pub open spec fn is_unit(s: Seq<Token>, i: int, declarations: Seq<Declaration>) -> bool
    decreases declarations.len(),
{
    if declarations.len() == 0 {
        i == s.len()
    } else {
        exists|next: int| #[trigger]
            is_declaration(s, i, next, declarations[0]) && is_unit(
                s,
                next,
                declarations.drop_first(),
            )
    }
}

/// The unit after one more declaration.
pub open spec fn record(unit: ProtoContextView, declaration: Declaration) -> Result<
    ProtoContextView,
    ErrorView,
> {
    match declaration {
        Declaration::Package(name) => with_package(unit, name),
        Declaration::Codec(path) => with_codec(unit, path),
        Declaration::Service(service) => Ok(with_service(unit, service)),
    }
}

/// The unit after some more declarations, or the first error among them.
pub open spec fn record_all(unit: ProtoContextView, declarations: Seq<Declaration>) -> Result<
    ProtoContextView,
    ErrorView,
>
    decreases declarations.len(),
{
    if declarations.len() == 0 {
        Ok(unit)
    } else {
        match record(unit, declarations[0]) {
            Err(e) => Err(e),
            Ok(next) => record_all(next, declarations.drop_first()),
        }
    }
}

/// The methods of a service are read exactly where the grammar derives
/// them, and come out in the order of their declarations.
pub proof fn lemma_rpc_list_is_read(body: Seq<Token>, end: Span, rpcs: Seq<RpcView>)
    ensures
        rpcs_from(body, 0, Seq::empty(), end) == Ok::<_, ErrorView>(rpcs) <==> is_rpc_list(
            body,
            rpcs,
        ),
{
    if is_rpc_list(body, rpcs) {
        lemma_rpc_list_from(body, end, rpcs, 0);
        assert(rpcs.take(0) =~= Seq::empty());
    }
    if rpcs_from(body, 0, Seq::empty(), end) == Ok::<_, ErrorView>(rpcs) {
        lemma_rpcs_from_is_list(body, 0, Seq::empty(), end);
    }
}

proof fn lemma_rpc_list_from(body: Seq<Token>, end: Span, rpcs: Seq<RpcView>, k: int)
    requires
        is_rpc_list(body, rpcs),
        0 <= k <= rpcs.len(),
    ensures
        rpcs_from(body, RPC_TOKENS * k, rpcs.take(k), end) == Ok::<_, ErrorView>(rpcs),
    decreases rpcs.len() - k,
{
    if k == rpcs.len() {
        assert(rpcs.take(k) =~= rpcs);
    } else {
        lemma_rpc_is_read(body, RPC_TOKENS * k, end, rpcs[k]);
        assert(rpcs.take(k).push(rpcs[k]) =~= rpcs.take(k + 1));
        lemma_rpc_list_from(body, end, rpcs, k + 1);
    }
}

proof fn lemma_rpcs_from_is_list(body: Seq<Token>, j: int, methods: Seq<RpcView>, end: Span)
    requires
        0 <= j <= body.len(),
        j == RPC_TOKENS * methods.len(),
        forall|k: int| 0 <= k < methods.len() ==> is_rpc(body, RPC_TOKENS * k, #[trigger] methods[k]),
        rpcs_from(body, j, methods, end) is Ok,
    ensures
        is_rpc_list(body, rpcs_from(body, j, methods, end)->Ok_0),
    decreases body.len() - j,
{
    if j < body.len() {
        let rpc = rpc_at(body, j, end)->Ok_0;
        lemma_rpc_is_read(body, j, end, rpc);
        let more = methods.push(rpc);
        assert forall|k: int| 0 <= k < more.len() implies is_rpc(
            body,
            RPC_TOKENS * k,
            #[trigger] more[k],
        ) by {
            if k < methods.len() {
                assert(more[k] == methods[k]);
            }
        }
        lemma_rpcs_from_is_list(body, j + RPC_TOKENS, more, end);
    }
}

/// A service is read exactly where the grammar derives it.
pub proof fn lemma_service_is_read(s: Seq<Token>, i: int, end: Span, service: ServiceView)
    ensures
        service_at(s, i, end) == Ok::<_, ErrorView>(service) <==> is_service(s, i, service),
{
    if 0 <= i && i + SERVICE_TOKENS <= s.len() {
        lemma_rpc_list_is_read(s[i + 2].inner(), s[i + 2].span, service.rpcs);
        if service_at(s, i, end) == Ok::<_, ErrorView>(service) {
            let rpcs = rpcs_from(s[i + 2].inner(), 0, Seq::empty(), s[i + 2].span)->Ok_0;
            assert(rpcs == service.rpcs);
        }
    }
}

/// Where the grammar derives a unit, reading it records its declarations
/// one by one: the result is the unit they give, or the first duplicate
/// among them.
pub proof fn lemma_unit_is_read(
    s: Seq<Token>,
    i: int,
    unit: ProtoContextView,
    declarations: Seq<Declaration>,
)
    requires
        is_unit(s, i, declarations),
    ensures
        unit_from(s, i, unit) == record_all(unit, declarations),
    decreases declarations.len(),
{
    if declarations.len() > 0 {
        let rest = declarations.drop_first();
        let next = choose|next: int| #[trigger]
            is_declaration(s, i, next, declarations[0]) && is_unit(s, next, rest);
        let end = last_span(s);
        match declarations[0] {
            Declaration::Package(name) => {
                lemma_keyword_at(s, i, Keyword::Package);
                if let Ok(after) = with_package(unit, name) {
                    lemma_unit_is_read(s, next, after, rest);
                }
            },
            Declaration::Codec(path) => {
                lemma_keyword_at(s, i, Keyword::Codec);
                lemma_type_path_is_read(s, i + 1, end, path, next - 1);
                if let Ok(after) = with_codec(unit, path) {
                    lemma_unit_is_read(s, next, after, rest);
                }
            },
            Declaration::Service(service) => {
                lemma_keyword_at(s, i, Keyword::Service);
                lemma_service_is_read(s, i, end, service);
                lemma_unit_is_read(s, next, with_service(unit, service), rest);
            },
        }
    }
}

/// What is read as a unit without a syntax error up to its end is a unit
/// by the grammar. Gives its declarations.
pub proof fn lemma_read_unit_derives(s: Seq<Token>, i: int, unit: ProtoContextView) -> (declarations:
    Seq<Declaration>)
    requires
        0 <= i <= s.len(),
        unit_from(s, i, unit) is Ok,
    ensures
        is_unit(s, i, declarations),
    decreases s.len() - i,
{
    let end = last_span(s);
    if i >= s.len() {
        Seq::empty()
    } else {
        match keyword_at(s, i) {
            Some(Keyword::Package) => {
                lemma_keyword_at(s, i, Keyword::Package);
                let name = word_at(s, i + 1)->0;
                let after = with_package(unit, name)->Ok_0;
                let rest = lemma_read_unit_derives(s, i + 3, after);
                let declarations = seq![Declaration::Package(name)] + rest;
                assert(declarations.drop_first() =~= rest);
                assert(is_declaration(s, i, i + 3, declarations[0]));
                declarations
            },
            Some(Keyword::Service) => {
                lemma_keyword_at(s, i, Keyword::Service);
                let service = service_at(s, i, end)->Ok_0;
                lemma_service_is_read(s, i, end, service);
                let rest = lemma_read_unit_derives(
                    s,
                    i + SERVICE_TOKENS,
                    with_service(unit, service),
                );
                let declarations = seq![Declaration::Service(service)] + rest;
                assert(declarations.drop_first() =~= rest);
                assert(is_declaration(s, i, i + SERVICE_TOKENS, declarations[0]));
                declarations
            },
            _ => {
                lemma_keyword_at(s, i, Keyword::Codec);
                let (path, semicolon) = path_at(s, i + 1, end)->Ok_0;
                lemma_type_path_is_read(s, i + 1, end, path, semicolon);
                let after = with_codec(unit, path)->Ok_0;
                let rest = lemma_read_unit_derives(s, semicolon + 1, after);
                let declarations = seq![Declaration::Codec(path)] + rest;
                assert(declarations.drop_first() =~= rest);
                assert(is_declaration(s, i, semicolon + 1, declarations[0]));
                declarations
            },
        }
    }
}

/// The packages that some declarations name, in order.
pub open spec fn packages_in(declarations: Seq<Declaration>) -> Seq<Seq<char>>
    decreases declarations.len(),
{
    if declarations.len() == 0 {
        Seq::empty()
    } else {
        let rest = packages_in(declarations.drop_first());
        match declarations[0] {
            Declaration::Package(name) => seq![name] + rest,
            _ => rest,
        }
    }
}

/// The codecs that some declarations name, in order.
pub open spec fn codecs_in(declarations: Seq<Declaration>) -> Seq<Seq<char>>
    decreases declarations.len(),
{
    if declarations.len() == 0 {
        Seq::empty()
    } else {
        let rest = codecs_in(declarations.drop_first());
        match declarations[0] {
            Declaration::Codec(path) => seq![path] + rest,
            _ => rest,
        }
    }
}

/// The services among some declarations, in order.
pub open spec fn services_in(declarations: Seq<Declaration>) -> Seq<ServiceView>
    decreases declarations.len(),
{
    if declarations.len() == 0 {
        Seq::empty()
    } else {
        let rest = services_in(declarations.drop_first());
        match declarations[0] {
            Declaration::Service(service) => seq![service] + rest,
            _ => rest,
        }
    }
}

/// The declarations keep the counts that `dialect` asks for: one package;
/// one codec, or none where the dialect requires none; one service where
/// the dialect allows no other count.
pub open spec fn keeps_cardinality(declarations: Seq<Declaration>, dialect: Dialect) -> bool {
    &&& packages_in(declarations).len() == 1
    &&& codecs_in(declarations).len() <= 1
    &&& dialect.require_codec ==> codecs_in(declarations).len() == 1
    &&& dialect.single_service ==> services_in(declarations).len() == 1
}

/// The tokens `s` follow the grammar and keep the counts of `dialect`.
pub open spec fn conforms(s: Seq<Token>, dialect: Dialect) -> bool {
    exists|declarations: Seq<Declaration>| #[trigger]
        is_unit(s, 0, declarations) && keeps_cardinality(declarations, dialect)
}

/// The unit that conforming declarations give.
pub open spec fn unit_declared(declarations: Seq<Declaration>) -> ProtoView {
    ProtoView {
        package: packages_in(declarations)[0],
        codec_path: if codecs_in(declarations).len() > 0 {
            Some(codecs_in(declarations)[0])
        } else {
            None
        },
        services: services_in(declarations),
    }
}

spec fn held(field: Option<Seq<char>>) -> int {
    if field is Some {
        1
    } else {
        0
    }
}

spec fn first_of(field: Option<Seq<char>>, more: Seq<Seq<char>>) -> Option<Seq<char>> {
    if field is Some {
        field
    } else if more.len() > 0 {
        Some(more[0])
    } else {
        None
    }
}

proof fn lemma_record_all(unit: ProtoContextView, declarations: Seq<Declaration>)
    ensures
        match record_all(unit, declarations) {
            Ok(after) => {
                &&& held(unit.package) + packages_in(declarations).len() <= 1
                &&& held(unit.codec_path) + codecs_in(declarations).len() <= 1
                &&& after.package == first_of(unit.package, packages_in(declarations))
                &&& after.codec_path == first_of(unit.codec_path, codecs_in(declarations))
                &&& after.services == unit.services + services_in(declarations)
            },
            Err(e) => {
                &&& e is DuplicateDeclaration
                &&& held(unit.package) + packages_in(declarations).len() > 1 || held(
                    unit.codec_path,
                ) + codecs_in(declarations).len() > 1
            },
        },
    decreases declarations.len(),
{
    if declarations.len() == 0 {
        assert(unit.services + services_in(declarations) =~= unit.services);
    } else {
        let rest = declarations.drop_first();
        match record(unit, declarations[0]) {
            Err(e) => {},
            Ok(next) => {
                lemma_record_all(next, rest);
                if let Ok(after) = record_all(next, rest) {
                    assert(next.services + services_in(rest) =~= unit.services + services_in(
                        declarations,
                    ));
                }
            },
        }
    }
}

/// Tokens that follow the grammar and keep the counts of the dialect are
/// read as the unit that their declarations say: the one package, the one
/// codec if there is one, and the services in the order of the source.
pub proof fn lemma_conforming_unit_is_read(
    s: Seq<Token>,
    declarations: Seq<Declaration>,
    dialect: Dialect,
)
    requires
        is_unit(s, 0, declarations),
        keeps_cardinality(declarations, dialect),
    ensures
        proto_of(s, dialect) == Ok::<_, ErrorView>(unit_declared(declarations)),
{
    lemma_unit_is_read(s, 0, empty_unit(), declarations);
    lemma_record_all(empty_unit(), declarations);
    let unit = record_all(empty_unit(), declarations)->Ok_0;
    assert(unit.services =~= services_in(declarations));
}

/// Reading and validating succeeds on exactly the tokens that follow the
/// grammar and keep the counts of the dialect.
pub proof fn lemma_accepts_what_conforms(s: Seq<Token>, dialect: Dialect)
    ensures
        proto_of(s, dialect) is Ok <==> conforms(s, dialect),
{
    if conforms(s, dialect) {
        let declarations = choose|declarations: Seq<Declaration>| #[trigger]
            is_unit(s, 0, declarations) && keeps_cardinality(declarations, dialect);
        lemma_conforming_unit_is_read(s, declarations, dialect);
    }
    if proto_of(s, dialect) is Ok {
        let declarations = lemma_read_unit_derives(s, 0, empty_unit());
        lemma_unit_is_read(s, 0, empty_unit(), declarations);
        lemma_record_all(empty_unit(), declarations);
        let unit = unit_of(s)->Ok_0;
        assert(unit.services =~= services_in(declarations));
        assert(is_unit(s, 0, declarations) && keeps_cardinality(declarations, dialect));
    }
}

/// Where the k-th service of some declarations stands in the source. The
/// positions go up with k: the services keep the order of the source.
proof fn lemma_service_positions(s: Seq<Token>, i: int, declarations: Seq<Declaration>) -> (positions:
    Seq<int>)
    requires
        0 <= i,
        is_unit(s, i, declarations),
    ensures
        positions.len() == services_in(declarations).len(),
        forall|j: int|
            0 <= j < positions.len() ==> i <= #[trigger] positions[j] && is_service(
                s,
                positions[j],
                services_in(declarations)[j],
            ),
        forall|j: int, k: int| 0 <= j < k < positions.len() ==> positions[j] < positions[k],
    decreases declarations.len(),
{
    if declarations.len() == 0 {
        Seq::empty()
    } else {
        let rest = declarations.drop_first();
        let next = choose|next: int| #[trigger]
            is_declaration(s, i, next, declarations[0]) && is_unit(s, next, rest);
        let later = lemma_service_positions(s, next, rest);
        match declarations[0] {
            Declaration::Service(service) => {
                let positions = seq![i] + later;
                assert forall|j: int| 0 <= j < positions.len() implies i <= #[trigger] positions[j]
                    && is_service(s, positions[j], services_in(declarations)[j]) by {
                    if j > 0 {
                        assert(positions[j] == later[j - 1]);
                        assert(services_in(declarations)[j] == services_in(rest)[j - 1]);
                    }
                }
                assert forall|j: int, k: int| 0 <= j < k < positions.len() implies positions[j]
                    < positions[k] by {
                    assert(positions[k] == later[k - 1]);
                    if j > 0 {
                        assert(positions[j] == later[j - 1]);
                    }
                }
                positions
            },
            _ => later,
        }
    }
}

/// Every service of a unit that was read and validated was read from a
/// service declaration of the source, and the services are in the order of
/// their declarations. Gives the position of each declaration.
pub proof fn lemma_services_keep_declaration_order(s: Seq<Token>, dialect: Dialect) -> (positions:
    Seq<int>)
    requires
        proto_of(s, dialect) is Ok,
    ensures
        positions.len() == proto_of(s, dialect)->Ok_0.services.len(),
        forall|j: int|
            0 <= j < positions.len() ==> service_at(s, #[trigger] positions[j], last_span(s))
                == Ok::<_, ErrorView>(proto_of(s, dialect)->Ok_0.services[j]),
        forall|j: int, k: int| 0 <= j < k < positions.len() ==> positions[j] < positions[k],
{
    let declarations = lemma_read_unit_derives(s, 0, empty_unit());
    lemma_unit_is_read(s, 0, empty_unit(), declarations);
    lemma_record_all(empty_unit(), declarations);
    let unit = unit_of(s)->Ok_0;
    assert(unit.services =~= services_in(declarations));
    let positions = lemma_service_positions(s, 0, declarations);
    assert forall|j: int| 0 <= j < positions.len() implies service_at(
        s,
        #[trigger] positions[j],
        last_span(s),
    ) == Ok::<_, ErrorView>(proto_of(s, dialect)->Ok_0.services[j]) by {
        lemma_service_is_read(s, positions[j], last_span(s), services_in(declarations)[j]);
    }
    positions
}

/// The methods of a descriptor are those that the service declares, in the
/// order of the source: the k-th method is named after the k-th `rpc`
/// declaration between the braces, in snake_case, and its route in
/// PascalCase.
pub proof fn lemma_methods_keep_declaration_order(
    s: Seq<Token>,
    i: int,
    end: Span,
    package: Seq<char>,
    codec_path: Seq<char>,
    k: int,
)
    requires
        service_at(s, i, end) is Ok,
        0 <= k < service_at(s, i, end)->Ok_0.rpcs.len(),
    ensures
        ({
            let body = s[i + 2].inner();
            let descriptor = service_descriptor(package, service_at(s, i, end)->Ok_0, codec_path);
            let name = word_at(body, RPC_TOKENS * k + 1);
            &&& descriptor.service == word_at(s, i + 1)->0
            &&& body.len() == RPC_TOKENS * descriptor.methods.len()
            &&& has_word(body, RPC_TOKENS * k, Keyword::Rpc.text())
            &&& name is Some
            &&& descriptor.methods[k].name == snake_case(name->0)
            &&& descriptor.methods[k].route_name == pascal_case(name->0)
        }),
{
    let service = service_at(s, i, end)->Ok_0;
    lemma_service_is_read(s, i, end, service);
    assert(is_rpc(s[i + 2].inner(), RPC_TOKENS * k, service.rpcs[k]));
}

/// The streaming marks of a descriptor mirror the source: the k-th method
/// streams from the client exactly if the word `stream` stands in front of
/// the request of the k-th `rpc` declaration, and from the server exactly if
/// it stands in front of the response. The two marks are independent, and
/// the types are the type paths as they are written.
pub proof fn lemma_streaming_mirrors_source(
    s: Seq<Token>,
    i: int,
    end: Span,
    package: Seq<char>,
    codec_path: Seq<char>,
    k: int,
)
    requires
        service_at(s, i, end) is Ok,
        0 <= k < service_at(s, i, end)->Ok_0.rpcs.len(),
    ensures
        ({
            let body = s[i + 2].inner();
            let method = service_descriptor(
                package,
                service_at(s, i, end)->Ok_0,
                codec_path,
            ).methods[k];
            let request = body[RPC_TOKENS * k + 2].inner();
            let response = body[RPC_TOKENS * k + 4].inner();
            &&& method.client_streaming == has_word(request, 0, Keyword::Stream.text())
            &&& method.server_streaming == has_word(response, 0, Keyword::Stream.text())
            &&& is_slot(request, method.client_streaming, method.input_type)
            &&& is_slot(response, method.server_streaming, method.output_type)
            &&& method.codec_path == codec_path
        }),
{
    let service = service_at(s, i, end)->Ok_0;
    lemma_service_is_read(s, i, end, service);
    assert(is_rpc(s[i + 2].inner(), RPC_TOKENS * k, service.rpcs[k]));
}

/// The method descriptor `method` is what the `rpc` declaration number `k`
/// between the braces `body` of a service says: its name in both forms, and
/// a streaming mark on each side where the word `stream` stands.
pub open spec fn mirrors_declaration(
    body: Seq<Token>,
    k: int,
    method: MethodDescriptorView,
) -> bool {
    let name = word_at(body, RPC_TOKENS * k + 1);
    let request = body[RPC_TOKENS * k + 2].inner();
    let response = body[RPC_TOKENS * k + 4].inner();
    &&& has_word(body, RPC_TOKENS * k, Keyword::Rpc.text())
    &&& name is Some
    &&& method.name == snake_case(name->0)
    &&& method.route_name == pascal_case(name->0)
    &&& method.client_streaming == has_word(request, 0, Keyword::Stream.text())
    &&& method.server_streaming == has_word(response, 0, Keyword::Stream.text())
    &&& is_slot(request, method.client_streaming, method.input_type)
    &&& is_slot(response, method.server_streaming, method.output_type)
}

/// The descriptor of a unit of one service follows the source. Gives the
/// position `i` of the one service declaration: the descriptor has its name
/// and one method for each `rpc` declaration between its braces, in the
/// order of the source, named after it and with its streaming marks.
pub proof fn lemma_described_follows_source(s: Seq<Token>) -> (i: int)
    requires
        described(s) is Ok,
    ensures
        0 <= i,
        i + SERVICE_TOKENS <= s.len(),
        has_word(s, i, Keyword::Service.text()),
        word_at(s, i + 1) == Some(described(s)->Ok_0.service),
        s[i + 2].is_group(Delimiter::Brace),
        s[i + 2].inner().len() == RPC_TOKENS * described(s)->Ok_0.methods.len(),
        forall|k: int|
            0 <= k < described(s)->Ok_0.methods.len() ==> mirrors_declaration(
                s[i + 2].inner(),
                k,
                #[trigger] described(s)->Ok_0.methods[k],
            ),
{
    let dialect = Dialect { single_service: true, require_codec: true };
    let positions = lemma_services_keep_declaration_order(s, dialect);
    let i = positions[0];
    let unit = proto_of(s, dialect)->Ok_0;
    let end = last_span(s);
    let descriptor = described(s)->Ok_0;
    lemma_service_is_read(s, i, end, unit.services[0]);
    assert forall|k: int| 0 <= k < descriptor.methods.len() implies mirrors_declaration(
        s[i + 2].inner(),
        k,
        #[trigger] descriptor.methods[k],
    ) by {
        lemma_methods_keep_declaration_order(s, i, end, unit.package, unit.codec_path->0, k);
        lemma_streaming_mirrors_source(s, i, end, unit.package, unit.codec_path->0, k);
    }
    i
}

} // verus!
