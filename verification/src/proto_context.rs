//! A whole unit as it was written: the package, the codec and the services
//! that its declarations gave, before any rule of a dialect is applied.
use crate::error::{syntax_error, Error, ErrorView, Expected};
use crate::keyword::{keyword_at, lemma_keyword_at, lookahead, Keyword};
use crate::service::{service_at, Service, ServiceView, SERVICE_TOKENS};
use crate::token::{
    blame, end_of, has_punct, ident_at, last_span, punct_at, span_at, word_at, Token,
};
use crate::type_path::{lemma_path_rest_advances, parse_type_path, path_at};
use vstd::prelude::*;
use vstd::string::StringExecFns;

verus! {

/// What the declarations of a unit gave.
#[derive(Clone, Debug, PartialEq, Eq)]
pub struct ProtoContext {
    pub package: Option<String>,
    pub codec_path: Option<String>,
    pub services: Vec<Service>,
}

/// A [`ProtoContext`] with its texts as sequences of characters.
pub struct ProtoContextView {
    pub package: Option<Seq<char>>,
    pub codec_path: Option<Seq<char>>,
    pub services: Seq<ServiceView>,
}

/// The text of an optional string.
pub open spec fn text_of(text: Option<String>) -> Option<Seq<char>> {
    match text {
        Some(t) => Some(t@),
        None => None,
    }
}

/// The views of some services, in order.
pub open spec fn service_views(services: Seq<Service>) -> Seq<ServiceView> {
    services.map_values(|service: Service| service@)
}

impl View for ProtoContext {
    type V = ProtoContextView;

    open spec fn view(&self) -> ProtoContextView {
        ProtoContextView {
            package: text_of(self.package),
            codec_path: text_of(self.codec_path),
            services: service_views(self.services@),
        }
    }
}

/// A unit with no declaration.
pub open spec fn empty_unit() -> ProtoContextView {
    ProtoContextView { package: None, codec_path: None, services: Seq::empty() }
}

/// The unit after a package declaration. A second one is an error.
pub open spec fn with_package(unit: ProtoContextView, name: Seq<char>) -> Result<
    ProtoContextView,
    ErrorView,
> {
    if unit.package is Some {
        Err(ErrorView::DuplicateDeclaration(Keyword::Package.text()))
    } else {
        Ok(ProtoContextView { package: Some(name), ..unit })
    }
}

/// The unit after a codec declaration. A second one is an error.
pub open spec fn with_codec(unit: ProtoContextView, path: Seq<char>) -> Result<
    ProtoContextView,
    ErrorView,
> {
    if unit.codec_path is Some {
        Err(ErrorView::DuplicateDeclaration(Keyword::Codec.text()))
    } else {
        Ok(ProtoContextView { codec_path: Some(path), ..unit })
    }
}

/// The unit after a service declaration, which comes behind those it has.
pub open spec fn with_service(unit: ProtoContextView, service: ServiceView) -> ProtoContextView {
    ProtoContextView { services: unit.services.push(service), ..unit }
}

/// The unit that the declarations from position `i` of `s` to its end add
/// to `unit`. Each declaration starts with `package`, `codec` or `service`;
/// it is read to its end and then recorded, and the first fault ends it all.
/// Where the tokens run out, the last token is blamed.
pub open spec fn unit_from(s: Seq<Token>, i: int, unit: ProtoContextView) -> Result<
    ProtoContextView,
    ErrorView,
>
    decreases s.len() - i,
    via unit_from_decreases
{
    let end = last_span(s);
    if i < 0 || i >= s.len() {
        Ok(unit)
    } else {
        match keyword_at(s, i) {
            Some(Keyword::Package) => match word_at(s, i + 1) {
                None => Err(syntax_error(Expected::Identifier, span_at(s, i + 1, end))),
                Some(name) => if !has_punct(s, i + 2, ';') {
                    Err(syntax_error(Expected::Semicolon, span_at(s, i + 2, end)))
                } else {
                    match with_package(unit, name) {
                        Err(e) => Err(e),
                        Ok(next) => unit_from(s, i + 3, next),
                    }
                },
            },
            Some(Keyword::Service) => match service_at(s, i, end) {
                Err(e) => Err(e),
                Ok(service) => unit_from(s, i + SERVICE_TOKENS, with_service(unit, service)),
            },
            Some(Keyword::Codec) => match path_at(s, i + 1, end) {
                Err(e) => Err(e),
                Ok((path, semicolon)) => if !has_punct(s, semicolon, ';') {
                    Err(syntax_error(Expected::Semicolon, span_at(s, semicolon, end)))
                } else {
                    match with_codec(unit, path) {
                        Err(e) => Err(e),
                        Ok(next) => unit_from(s, semicolon + 1, next),
                    }
                },
            },
            _ => Err(syntax_error(Expected::Declaration, s[i].span)),
        }
    }
}

#[via_fn]
proof fn unit_from_decreases(s: Seq<Token>, i: int, unit: ProtoContextView) {
    if 0 <= i < s.len() && keyword_at(s, i) == Some(Keyword::Codec) {
        if let Some(name) = word_at(s, i + 1) {
            lemma_path_rest_advances(s, i + 2, name, last_span(s));
        }
    }
}

/// The unit that the tokens `s` declare.
pub open spec fn unit_of(s: Seq<Token>) -> Result<ProtoContextView, ErrorView> {
    unit_from(s, 0, empty_unit())
}

/// Gathers the declarations of a unit one by one.
pub struct ProtoContextBuilder {
    package: Option<String>,
    codec_path: Option<String>,
    services: Vec<Service>,
}

impl View for ProtoContextBuilder {
    type V = ProtoContextView;

    closed spec fn view(&self) -> ProtoContextView {
        ProtoContextView {
            package: text_of(self.package),
            codec_path: text_of(self.codec_path),
            services: service_views(self.services@),
        }
    }
}

impl ProtoContextBuilder {
    /// A builder that has seen no declaration.
    pub fn new() -> (builder: Self)
        ensures
            builder@ == empty_unit(),
    {
        let builder = ProtoContextBuilder {
            package: None,
            codec_path: None,
            services: Vec::new(),
        };
        assert(service_views(builder.services@) =~= Seq::empty());
        builder
    }

    /// Records the package. The unit may have one only.
    pub fn package(self, package: String) -> (result: Result<Self, Error>)
        ensures
            match result {
                Ok(builder) => with_package(self@, package@) == Ok::<_, ErrorView>(builder@),
                Err(e) => with_package(self@, package@) == Err::<ProtoContextView, _>(e@),
            },
    {
        if self.package.is_some() {
            Err(Error::DuplicateDeclaration(String::from_str(Keyword::Package.as_str())))
        } else {
            Ok(
                ProtoContextBuilder {
                    package: Some(package),
                    codec_path: self.codec_path,
                    services: self.services,
                },
            )
        }
    }

    /// Records the codec. The unit may have one only.
    pub fn codec_path(self, codec_path: String) -> (result: Result<Self, Error>)
        ensures
            match result {
                Ok(builder) => with_codec(self@, codec_path@) == Ok::<_, ErrorView>(builder@),
                Err(e) => with_codec(self@, codec_path@) == Err::<ProtoContextView, _>(e@),
            },
    {
        if self.codec_path.is_some() {
            Err(Error::DuplicateDeclaration(String::from_str(Keyword::Codec.as_str())))
        } else {
            Ok(
                ProtoContextBuilder {
                    package: self.package,
                    codec_path: Some(codec_path),
                    services: self.services,
                },
            )
        }
    }

    /// Records one more service, behind those recorded before.
    pub fn service(self, service: Service) -> (builder: Self)
        ensures
            builder@ == with_service(self@, service@),
    {
        let mut services = self.services;
        assert(service_views(services@.push(service)) =~= service_views(services@).push(service@));
        services.push(service);
        ProtoContextBuilder { package: self.package, codec_path: self.codec_path, services }
    }

    /// The unit gathered so far.
    pub fn build(self) -> (context: ProtoContext)
        ensures
            context@ == self@,
    {
        ProtoContext {
            package: self.package,
            codec_path: self.codec_path,
            services: self.services,
        }
    }
}

impl ProtoContext {
    /// Reads a whole unit: any number of package, codec and service
    /// declarations in any order. No dialect is applied, so a unit without a
    /// package or without a service is read as it is; a second package or
    /// codec is refused in any dialect.
    pub fn parse(tokens: &Vec<Token>) -> (result: Result<ProtoContext, Error>)
        ensures
            match result {
                Ok(context) => unit_of(tokens@) == Ok::<_, ErrorView>(context@),
                Err(e) => unit_of(tokens@) == Err::<ProtoContextView, _>(e@),
            },
    {
        let end = end_of(tokens);
        let mut builder = ProtoContextBuilder::new();
        let mut i: usize = 0;
        while i < tokens.len()
            invariant
                i <= tokens.len(),
                end == last_span(tokens@),
                unit_of(tokens@) == unit_from(tokens@, i as int, builder@),
            decreases tokens.len() - i,
        {
            match lookahead(tokens, i) {
                Some(Keyword::Package) => {
                    let name = match ident_at(tokens, i + 1) {
                        Some(name) => name.clone(),
                        None => {
                            return Err(
                                Error::syntax(Expected::Identifier, blame(tokens, i + 1, end)),
                            );
                        },
                    };
                    if !punct_at(tokens, i + 2, ';') {
                        return Err(Error::syntax(Expected::Semicolon, blame(tokens, i + 2, end)));
                    }
                    builder = match builder.package(name) {
                        Ok(builder) => builder,
                        Err(e) => {
                            return Err(e);
                        },
                    };
                    i += 3;
                },
                Some(Keyword::Service) => {
                    proof {
                        lemma_keyword_at(tokens@, i as int, Keyword::Service);
                    }
                    let service = match Service::parse(tokens, i, end) {
                        Ok(service) => service,
                        Err(e) => {
                            return Err(e);
                        },
                    };
                    builder = builder.service(service);
                    i += SERVICE_TOKENS;
                },
                Some(Keyword::Codec) => {
                    let (path, semicolon) = match parse_type_path(tokens, i + 1, end) {
                        Ok(found) => found,
                        Err(e) => {
                            return Err(e);
                        },
                    };
                    if !punct_at(tokens, semicolon, ';') {
                        return Err(
                            Error::syntax(Expected::Semicolon, blame(tokens, semicolon, end)),
                        );
                    }
                    builder = match builder.codec_path(path) {
                        Err(e) => {
                            return Err(e);
                        },
                        Ok(builder) => builder,
                    };
                    i = semicolon + 1;
                },
                _ => {
                    return Err(Error::syntax(Expected::Declaration, tokens[i].span));
                },
            }
        }
        Ok(builder.build())
    }
}

} // verus!
