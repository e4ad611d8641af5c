use proc_macro2::{Spacing, TokenStream, TokenTree};
use proto::error::Error;
use proto::proto;
use proto::proto_context::ProtoContext;
use proto::protobuf::{Dialect, MethodDescriptor, Proto, ServiceDescriptor};
use proto::token::{Delimiter, Span, Token, TokenKind};
use tonic_build::{Method, Service};

fn span(span: proc_macro2::Span) -> Span {
    let range = span.byte_range();
    Span { start: range.start, end: range.end }
}

fn delimiter(delimiter: proc_macro2::Delimiter) -> Delimiter {
    match delimiter {
        proc_macro2::Delimiter::Parenthesis => Delimiter::Parenthesis,
        proc_macro2::Delimiter::Brace => Delimiter::Brace,
        proc_macro2::Delimiter::Bracket => Delimiter::Bracket,
        proc_macro2::Delimiter::None => Delimiter::Invisible,
    }
}

fn tokens(stream: TokenStream) -> Vec<Token> {
    stream
        .into_iter()
        .map(|tree| match tree {
            TokenTree::Ident(ident) => {
                Token { kind: TokenKind::Ident(ident.to_string()), span: span(ident.span()) }
            }
            TokenTree::Punct(punct) => Token {
                kind: TokenKind::Punct {
                    ch: punct.as_char(),
                    joint: punct.spacing() == Spacing::Joint,
                },
                span: span(punct.span()),
            },
            TokenTree::Literal(literal) => {
                Token { kind: TokenKind::Literal(literal.to_string()), span: span(literal.span()) }
            }
            TokenTree::Group(group) => Token {
                kind: TokenKind::Group {
                    delimiter: delimiter(group.delimiter()),
                    tokens: tokens(group.stream()),
                },
                span: span(group.span()),
            },
        })
        .collect()
}

fn lex(text: &str) -> Vec<Token> {
    tokens(text.parse::<TokenStream>().unwrap())
}

fn method(
    name: &str,
    route_name: &str,
    input_type: &str,
    output_type: &str,
    codec_path: &str,
    client_streaming: bool,
    server_streaming: bool,
) -> MethodDescriptor {
    MethodDescriptor {
        name: name.to_string(),
        route_name: route_name.to_string(),
        input_type: input_type.to_string(),
        output_type: output_type.to_string(),
        codec_path: codec_path.to_string(),
        client_streaming,
        server_streaming,
    }
}

fn generator_service(descriptor: &ServiceDescriptor) -> tonic_build::manual::Service {
    let mut service = tonic_build::manual::Service::builder()
        .package(&descriptor.package)
        .name(&descriptor.service);
    for m in &descriptor.methods {
        let mut method = tonic_build::manual::Method::builder()
            .name(&m.name)
            .route_name(&m.route_name)
            .input_type(&m.input_type)
            .output_type(&m.output_type)
            .codec_path(&m.codec_path);
        if m.client_streaming {
            method = method.client_streaming();
        }
        if m.server_streaming {
            method = method.server_streaming();
        }
        service = service.method(method.build());
    }
    service.build()
}

#[test]
fn basic() {
    let greeter_service = proto(&lex(
        "package example;
        codec crate::common::JsonCodec;

        service Greeter {
          rpc SayHello (crate::HelloRequest) returns (stream crate::HelloResponse) {}
        }",
    ))
    .unwrap();

    let helloworld_service = proto(&lex(
        "package example;
        codec crate::common::JsonCodec;

        service HelloWorld {
          rpc hello_world (crate::HelloRequest) returns (stream crate::HelloResponse) {}
        }",
    ))
    .unwrap();

    assert_eq!(
        greeter_service,
        ServiceDescriptor {
            package: "example".to_string(),
            service: "Greeter".to_string(),
            methods: vec![method(
                "say_hello",
                "SayHello",
                "crate::HelloRequest",
                "crate::HelloResponse",
                "crate::common::JsonCodec",
                false,
                true,
            )],
        }
    );
    assert_eq!(
        helloworld_service,
        ServiceDescriptor {
            package: "example".to_string(),
            service: "HelloWorld".to_string(),
            methods: vec![method(
                "hello_world",
                "HelloWorld",
                "crate::HelloRequest",
                "crate::HelloResponse",
                "crate::common::JsonCodec",
                false,
                true,
            )],
        }
    );

    let services = [generator_service(&greeter_service), generator_service(&helloworld_service)];
    assert_eq!(services[0].package(), "example");
    assert_eq!(services[0].name(), "Greeter");
    assert_eq!(services[0].methods().len(), 1);
    assert_eq!(services[0].methods()[0].name(), "say_hello");
    assert_eq!(services[0].methods()[0].identifier(), "SayHello");
    assert_eq!(services[0].methods()[0].codec_path(), "crate::common::JsonCodec");
    assert!(!services[0].methods()[0].client_streaming());
    assert!(services[0].methods()[0].server_streaming());
    assert_eq!(services[1].name(), "HelloWorld");
    assert_eq!(services[1].methods()[0].name(), "hello_world");
    assert_eq!(services[1].methods()[0].identifier(), "HelloWorld");
}

#[test]
fn unary_method_with_codec() {
    let descriptor = proto(&lex(
        "package p; codec path.to.Codec; service S { rpc Foo(ReqT) returns (RespT) {} }",
    ))
    .unwrap();
    assert_eq!(
        descriptor,
        ServiceDescriptor {
            package: "p".to_string(),
            service: "S".to_string(),
            methods: vec![method("foo", "Foo", "ReqT", "RespT", "path.to.Codec", false, false)],
        }
    );
}

#[test]
fn codec_may_follow_the_service() {
    let descriptor = proto(&lex(
        "package p; service S { rpc Foo(ReqT) returns (RespT) {} } codec path.to.Codec;",
    ))
    .unwrap();
    assert_eq!(descriptor.methods[0].codec_path, "path.to.Codec");
    assert_eq!(descriptor.package, "p");
    assert_eq!(descriptor.service, "S");
}

#[test]
fn bidirectional_streaming_method() {
    let descriptor = proto(&lex(
        "package p; codec path.to.Codec;
         service S { rpc Foo(stream ReqT) returns (stream RespT) {} }",
    ))
    .unwrap();
    assert_eq!(
        descriptor.methods,
        vec![method("foo", "Foo", "ReqT", "RespT", "path.to.Codec", true, true)]
    );
}

#[test]
fn streaming_flags_mirror_the_source() {
    let descriptor = proto(&lex(
        "package p; codec C;
         service S {
           rpc Unary(A) returns (B) {}
           rpc Upload(stream A) returns (B) {}
           rpc Download(A) returns (stream B) {}
           rpc Chat(stream A) returns (stream B) {}
         }",
    ))
    .unwrap();
    let flags: Vec<(bool, bool)> =
        descriptor.methods.iter().map(|m| (m.client_streaming, m.server_streaming)).collect();
    assert_eq!(flags, vec![(false, false), (true, false), (false, true), (true, true)]);
}

#[test]
fn methods_keep_declaration_order() {
    let descriptor = proto(&lex(
        "package p; codec C;
         service S {
           rpc Zeta(A) returns (B) {}
           rpc Alpha(A) returns (B) {}
           rpc MidPoint(A) returns (B) {}
         }",
    ))
    .unwrap();
    let names: Vec<&str> = descriptor.methods.iter().map(|m| m.name.as_str()).collect();
    assert_eq!(names, vec!["zeta", "alpha", "mid_point"]);
    let routes: Vec<&str> = descriptor.methods.iter().map(|m| m.route_name.as_str()).collect();
    assert_eq!(routes, vec!["Zeta", "Alpha", "MidPoint"]);
}

#[test]
fn missing_codec_in_strict_dialect() {
    let result = proto(&lex("package p; service S { rpc Foo(ReqT) returns (RespT) {} }"));
    assert_eq!(result, Err(Error::MissingField("codec".to_string())));
}

#[test]
fn missing_package() {
    let result = proto(&lex("codec C; service S { rpc Foo(ReqT) returns (RespT) {} }"));
    assert_eq!(result, Err(Error::MissingField("package".to_string())));
    let result = Proto::parse(&lex("service S {}"), Dialect::permissive());
    assert_eq!(result, Err(Error::MissingField("package".to_string())));
}

#[test]
fn missing_package_is_reported_before_missing_codec() {
    let result = proto(&lex("service S {} service T {}"));
    assert_eq!(result, Err(Error::MissingField("package".to_string())));
    let result = proto(&lex("package p; service S {} service T {}"));
    assert_eq!(result, Err(Error::MissingField("codec".to_string())));
}

#[test]
fn two_services_in_strict_dialect() {
    let result = proto(&lex(
        "package p; codec C;
         service S { rpc Foo(ReqT) returns (RespT) {} }
         service T { rpc Bar(ReqT) returns (RespT) {} }",
    ));
    assert_eq!(result, Err(Error::InvalidServiceCount));
}

#[test]
fn no_service_in_strict_dialect() {
    assert_eq!(proto(&lex("package p; codec C;")), Err(Error::InvalidServiceCount));
}

#[test]
fn unknown_top_level_keyword() {
    let result = proto(&lex("foo bar;"));
    assert_eq!(
        result,
        Err(Error::SyntaxError {
            message: "unexpected token, expected `package`, `service` or `codec`".to_string(),
            span: Span { start: 0, end: 3 },
        })
    );
    let text = "package p; foo bar;";
    let at = text.find("foo").unwrap();
    match proto(&lex(text)) {
        Err(Error::SyntaxError { span, .. }) => assert_eq!(span, Span { start: at, end: at + 3 }),
        other => panic!("{:?}", other),
    }
}

#[test]
fn duplicate_package() {
    let result = ProtoContext::parse(&lex("package a; package b;"));
    assert_eq!(result, Err(Error::DuplicateDeclaration("package".to_string())));
}

#[test]
fn duplicate_codec() {
    let result = ProtoContext::parse(&lex("package a; codec X; service S {} codec Y;"));
    assert_eq!(result, Err(Error::DuplicateDeclaration("codec".to_string())));
}

#[test]
fn duplicate_is_found_before_a_later_syntax_error() {
    let result = ProtoContext::parse(&lex("package a; package b; foo"));
    assert_eq!(result, Err(Error::DuplicateDeclaration("package".to_string())));
}

#[test]
fn empty_unit_is_read_but_fails_every_dialect() {
    let context = ProtoContext::parse(&lex("")).unwrap();
    assert_eq!(context, ProtoContext { package: None, codec_path: None, services: vec![] });
    assert_eq!(
        context.clone().validate(Dialect::permissive()),
        Err(Error::MissingField("package".to_string()))
    );
    assert_eq!(
        context.validate(Dialect::strict()),
        Err(Error::MissingField("package".to_string()))
    );
}

#[test]
fn permissive_dialect_takes_any_number_of_services() {
    let none = Proto::parse(&lex("package p;"), Dialect::permissive()).unwrap();
    assert_eq!(none.package, "p");
    assert_eq!(none.codec_path, None);
    assert!(none.services.is_empty());
    assert!(none.codegen("fallback::Codec").is_empty());

    let two = Proto::parse(
        &lex(
            "service A { rpc One(X) returns (Y) {} }
             package p;
             service B { rpc Two(stream X) returns (Y) {} rpc Three(X) returns (Y) {} }",
        ),
        Dialect::permissive(),
    )
    .unwrap();
    let descriptors = two.codegen("fallback::Codec");
    assert_eq!(
        descriptors,
        vec![
            ServiceDescriptor {
                package: "p".to_string(),
                service: "A".to_string(),
                methods: vec![method("one", "One", "X", "Y", "fallback::Codec", false, false)],
            },
            ServiceDescriptor {
                package: "p".to_string(),
                service: "B".to_string(),
                methods: vec![
                    method("two", "Two", "X", "Y", "fallback::Codec", true, false),
                    method("three", "Three", "X", "Y", "fallback::Codec", false, false),
                ],
            },
        ]
    );
}

#[test]
fn declared_codec_wins_over_the_default() {
    let unit = Proto::parse(
        &lex("package p; codec my.Codec; service A { rpc One(X) returns (Y) {} }"),
        Dialect::permissive(),
    )
    .unwrap();
    assert_eq!(unit.codec_path, Some("my.Codec".to_string()));
    assert_eq!(unit.codegen("fallback::Codec")[0].methods[0].codec_path, "my.Codec");
}

#[test]
fn single_service_without_codec() {
    let dialect = Dialect { single_service: true, require_codec: false };
    let unit = Proto::parse(&lex("package p; service A {}"), dialect).unwrap();
    assert_eq!(unit.services.len(), 1);
    assert_eq!(
        Proto::parse(&lex("package p; service A {} service B {}"), dialect),
        Err(Error::InvalidServiceCount)
    );
    let dialect = Dialect { single_service: false, require_codec: true };
    assert_eq!(
        Proto::parse(&lex("package p; service A {} service B {}"), dialect),
        Err(Error::MissingField("codec".to_string()))
    );
}

#[test]
fn dialects() {
    assert_eq!(Dialect::strict(), Dialect { single_service: true, require_codec: true });
    assert_eq!(Dialect::permissive(), Dialect { single_service: false, require_codec: false });
}

#[test]
fn conforming_text_is_accepted_and_other_text_is_not() {
    let good = [
        "package p; codec C; service S {}",
        "codec a::b.c; service S { rpc M(stream x::Y) returns (z.W) {} } package p;",
        "service service { rpc rpc(returns) returns (codec) {} } codec package; package stream;",
    ];
    for text in good {
        assert!(proto(&lex(text)).is_ok(), "{}", text);
    }
    let bad = [
        "package p codec C; service S {}",
        "package p; codec C; service S { rpc M(X) returns (Y) }",
        "package p; codec C; service S { rpc M(X) returns (Y) { option } }",
        "package p; codec C; service S { rpc M(X) (Y) {} }",
        "package p; codec C; service S { rpc M(X Z) returns (Y) {} }",
        "package p; codec C; service S { rpc M() returns (Y) {} }",
        "package p; codec C; service S { rpc M(stream) returns (Y) {} }",
        "package p; codec C; service S { rpc M[X] returns (Y) {} }",
        "package p; codec C; service S ( rpc M(X) returns (Y) {} )",
        "package p; codec C.; service S {}",
        "package p; codec C : : D; service S {}",
        "package p; codec ; service S {}",
        "package \"p\"; codec C; service S {}",
        "package p; codec C; service S { M(X) returns (Y) {} }",
        "package p; codec C; service {}",
        "package p; codec C; service S {};",
    ];
    for text in bad {
        assert!(
            matches!(proto(&lex(text)), Err(Error::SyntaxError { .. })),
            "{}",
            text
        );
    }
}
