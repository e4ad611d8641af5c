//! A parser and descriptor builder for a small language that declares RPC
//! services: a package name, an optional codec and service blocks whose
//! methods name a request and a response type, each optionally streamed.
//!
//! Data flows one way: tokens, syntax tree, validated unit, descriptor.
pub mod case;
pub mod error;
pub mod grammar;
pub mod keyword;
pub mod proto_context;
pub mod protobuf;
pub mod rpc;
pub mod service;
pub mod token;
pub mod type_path;

use crate::error::{Error, ErrorView};
use crate::protobuf::{
    describe_service, proto_of, service_descriptor, Dialect, Proto, ServiceDescriptor,
    ServiceDescriptorView,
};
use crate::token::Token;
use vstd::prelude::*;

verus! {

/// The descriptor that the tokens `s` stand for where a unit is one package,
/// one codec and one service.
pub open spec fn described(s: Seq<Token>) -> Result<ServiceDescriptorView, ErrorView> {
    match proto_of(s, Dialect { single_service: true, require_codec: true }) {
        Err(e) => Err(e),
        Ok(proto) => Ok(service_descriptor(proto.package, proto.services[0], proto.codec_path->0)),
    }
}

/// Turns the tokens of one unit into the descriptor of its service:
///
/// ```text
/// package example;
/// codec crate::common::YourCodec;
///
/// service Greeter {
///   rpc SayHello (crate::HelloRequest) returns (crate::HelloResponse) {}
/// }
/// ```
///
/// The unit is held to the strict dialect: it declares a package, a codec
/// and exactly one service.
pub fn proto(tokens: &Vec<Token>) -> (result: Result<ServiceDescriptor, Error>)
    ensures
        match result {
            Ok(descriptor) => described(tokens@) == Ok::<_, ErrorView>(descriptor@),
            Err(e) => described(tokens@) == Err::<ServiceDescriptorView, _>(e@),
        },
{
    match Proto::parse(tokens, Dialect::strict()) {
        Err(e) => Err(e),
        Ok(unit) => {
            let codec_path = unit.codec_path.unwrap();
            Ok(describe_service(unit.package.as_str(), &unit.services[0], codec_path.as_str()))
        },
    }
}

} // verus!
