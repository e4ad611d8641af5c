//! A unit that passed the rules of a dialect, and the descriptors that it
//! hands to a code generator.
use crate::case::{pascal_case, snake_case, to_pascal_case, to_snake_case};
use crate::error::{Error, ErrorView};
use crate::keyword::Keyword;
use crate::proto_context::{service_views, text_of, unit_of, ProtoContext, ProtoContextView};
use crate::rpc::{Rpc, RpcView};
use crate::service::{Service, ServiceView};
use crate::token::Token;
use vstd::prelude::*;
use vstd::string::StringExecFns;

verus! {

/// The rules that a unit is held to.
#[derive(Clone, Copy, Debug, PartialEq, Eq, Structural)]
pub struct Dialect {
    /// The unit must declare exactly one service.
    pub single_service: bool,
    /// The unit must declare a codec.
    pub require_codec: bool,
}

impl Dialect {
    /// One service, and a codec: no more and no less.
    pub fn strict() -> (dialect: Dialect)
        ensures
            dialect == (Dialect { single_service: true, require_codec: true }),
    {
        Dialect { single_service: true, require_codec: true }
    }

    /// Any number of services, none too, and a codec only if one is wanted.
    pub fn permissive() -> (dialect: Dialect)
        ensures
            dialect == (Dialect { single_service: false, require_codec: false }),
    {
        Dialect { single_service: false, require_codec: false }
    }
}

/// A unit that passed the rules of a dialect.
#[derive(Clone, Debug, PartialEq, Eq)]
pub struct Proto {
    pub package: String,
    pub codec_path: Option<String>,
    pub services: Vec<Service>,
}

/// A [`Proto`] with its texts as sequences of characters.
pub struct ProtoView {
    pub package: Seq<char>,
    pub codec_path: Option<Seq<char>>,
    pub services: Seq<ServiceView>,
}

impl View for Proto {
    type V = ProtoView;

    open spec fn view(&self) -> ProtoView {
        ProtoView {
            package: self.package@,
            codec_path: text_of(self.codec_path),
            services: service_views(self.services@),
        }
    }
}

impl ProtoView {
    /// The unit keeps the rules of `dialect`.
    pub open spec fn conforms(self, dialect: Dialect) -> bool {
        &&& dialect.require_codec ==> self.codec_path is Some
        &&& dialect.single_service ==> self.services.len() == 1
    }
}

/// What one method looks like to the code generator.
#[derive(Clone, Debug, PartialEq, Eq)]
pub struct MethodDescriptor {
    pub name: String,
    pub route_name: String,
    pub input_type: String,
    pub output_type: String,
    pub codec_path: String,
    pub client_streaming: bool,
    pub server_streaming: bool,
}

/// A [`MethodDescriptor`] with its texts as sequences of characters.
pub struct MethodDescriptorView {
    pub name: Seq<char>,
    pub route_name: Seq<char>,
    pub input_type: Seq<char>,
    pub output_type: Seq<char>,
    pub codec_path: Seq<char>,
    pub client_streaming: bool,
    pub server_streaming: bool,
}

impl View for MethodDescriptor {
    type V = MethodDescriptorView;

    open spec fn view(&self) -> MethodDescriptorView {
        MethodDescriptorView {
            name: self.name@,
            route_name: self.route_name@,
            input_type: self.input_type@,
            output_type: self.output_type@,
            codec_path: self.codec_path@,
            client_streaming: self.client_streaming,
            server_streaming: self.server_streaming,
        }
    }
}

/// The views of some method descriptors, in order.
pub open spec fn method_views(methods: Seq<MethodDescriptor>) -> Seq<MethodDescriptorView> {
    methods.map_values(|method: MethodDescriptor| method@)
}

/// What one service looks like to the code generator.
#[derive(Clone, Debug, PartialEq, Eq)]
pub struct ServiceDescriptor {
    pub package: String,
    pub service: String,
    pub methods: Vec<MethodDescriptor>,
}

/// A [`ServiceDescriptor`] with its texts as sequences of characters.
pub struct ServiceDescriptorView {
    pub package: Seq<char>,
    pub service: Seq<char>,
    pub methods: Seq<MethodDescriptorView>,
}

impl View for ServiceDescriptor {
    type V = ServiceDescriptorView;

    open spec fn view(&self) -> ServiceDescriptorView {
        ServiceDescriptorView {
            package: self.package@,
            service: self.service@,
            methods: method_views(self.methods@),
        }
    }
}

/// The views of some service descriptors, in order.
pub open spec fn descriptor_views(descriptors: Seq<ServiceDescriptor>) -> Seq<
    ServiceDescriptorView,
> {
    descriptors.map_values(|descriptor: ServiceDescriptor| descriptor@)
}

/// The unit `unit` under the rules of `dialect`, which are tried in this
/// order: a package is there; a codec is there, if the dialect requires one;
/// exactly one service is there, if the dialect allows no other count. The
/// first rule that is broken is the error.
pub open spec fn validated(unit: ProtoContextView, dialect: Dialect) -> Result<
    ProtoView,
    ErrorView,
> {
    if unit.package is None {
        Err(ErrorView::MissingField(Keyword::Package.text()))
    } else if dialect.require_codec && unit.codec_path is None {
        Err(ErrorView::MissingField(Keyword::Codec.text()))
    } else if dialect.single_service && unit.services.len() != 1 {
        Err(ErrorView::InvalidServiceCount)
    } else {
        Ok(
            ProtoView {
                package: unit.package->0,
                codec_path: unit.codec_path,
                services: unit.services,
            },
        )
    }
}

/// The descriptor of one method: its name in snake_case, its route in
/// PascalCase, both types and both streaming marks as they were declared,
/// and the codec.
pub open spec fn method_descriptor(rpc: RpcView, codec_path: Seq<char>) -> MethodDescriptorView {
    MethodDescriptorView {
        name: snake_case(rpc.name),
        route_name: pascal_case(rpc.name),
        input_type: rpc.request,
        output_type: rpc.response,
        codec_path,
        client_streaming: rpc.request_streaming,
        server_streaming: rpc.response_streaming,
    }
}

/// The descriptor of one service: the package and the service's name as
/// they were written, and one method descriptor for each method, in the
/// order of the declarations.
pub open spec fn service_descriptor(
    package: Seq<char>,
    service: ServiceView,
    codec_path: Seq<char>,
) -> ServiceDescriptorView {
    ServiceDescriptorView {
        package,
        service: service.name,
        methods: Seq::new(
            service.rpcs.len(),
            |k: int| method_descriptor(service.rpcs[k], codec_path),
        ),
    }
}

/// The codec of every method of a unit: the one it declares, or
/// `default_codec` where it declares none.
pub open spec fn codec_of(proto: ProtoView, default_codec: Seq<char>) -> Seq<char> {
    match proto.codec_path {
        Some(path) => path,
        None => default_codec,
    }
}

/// The descriptors of a unit: one for each service, in the order of the
/// declarations.
pub open spec fn descriptors(proto: ProtoView, default_codec: Seq<char>) -> Seq<
    ServiceDescriptorView,
> {
    Seq::new(
        proto.services.len(),
        |j: int| service_descriptor(proto.package, proto.services[j], codec_of(proto, default_codec)),
    )
}

/// What reading the tokens `s` under `dialect` gives.
pub open spec fn proto_of(s: Seq<Token>, dialect: Dialect) -> Result<ProtoView, ErrorView> {
    match unit_of(s) {
        Err(e) => Err(e),
        Ok(unit) => validated(unit, dialect),
    }
}

/// The descriptor of one method.
pub fn describe_method(rpc: &Rpc, codec_path: &str) -> (method: MethodDescriptor)
    ensures
        method@ == method_descriptor(rpc@, codec_path@),
{
    MethodDescriptor {
        name: to_snake_case(rpc.name.as_str()),
        route_name: to_pascal_case(rpc.name.as_str()),
        input_type: rpc.request.clone(),
        output_type: rpc.response.clone(),
        codec_path: String::from_str(codec_path),
        client_streaming: rpc.request_streaming,
        server_streaming: rpc.response_streaming,
    }
}

/// The descriptor of one service.
pub fn describe_service(package: &str, service: &Service, codec_path: &str) -> (descriptor:
    ServiceDescriptor)
    ensures
        descriptor@ == service_descriptor(package@, service@, codec_path@),
{
    let mut methods: Vec<MethodDescriptor> = Vec::new();
    let mut k: usize = 0;
    while k < service.rpcs.len()
        invariant
            k <= service.rpcs.len(),
            methods.len() == k,
            forall|m: int|
                0 <= m < k ==> (#[trigger] methods[m])@ == method_descriptor(
                    service.rpcs[m]@,
                    codec_path@,
                ),
        decreases service.rpcs.len() - k,
    {
        methods.push(describe_method(&service.rpcs[k], codec_path));
        k += 1;
    }
    let descriptor = ServiceDescriptor {
        package: String::from_str(package),
        service: service.name.clone(),
        methods,
    };
    assert(descriptor@.methods =~= service_descriptor(package@, service@, codec_path@).methods);
    descriptor
}

impl ProtoContext {
    /// Holds a unit to the rules of `dialect`: what comes out keeps them,
    /// and the first rule that the unit breaks is the error.
    pub fn validate(self, dialect: Dialect) -> (result: Result<Proto, Error>)
        ensures
            match result {
                Ok(proto) => validated(self@, dialect) == Ok::<_, ErrorView>(proto@)
                    && proto@.conforms(dialect),
                Err(e) => validated(self@, dialect) == Err::<ProtoView, _>(e@),
            },
    {
        let package = match self.package {
            Some(package) => package,
            None => {
                return Err(Error::MissingField(String::from_str(Keyword::Package.as_str())));
            },
        };
        if dialect.require_codec && self.codec_path.is_none() {
            return Err(Error::MissingField(String::from_str(Keyword::Codec.as_str())));
        }
        if dialect.single_service && self.services.len() != 1 {
            return Err(Error::InvalidServiceCount);
        }
        Ok(Proto { package, codec_path: self.codec_path, services: self.services })
    }
}

impl Proto {
    /// Reads a unit and holds it to the rules of `dialect`.
    pub fn parse(tokens: &Vec<Token>, dialect: Dialect) -> (result: Result<Proto, Error>)
        ensures
            match result {
                Ok(proto) => proto_of(tokens@, dialect) == Ok::<_, ErrorView>(proto@)
                    && proto@.conforms(dialect),
                Err(e) => proto_of(tokens@, dialect) == Err::<ProtoView, _>(e@),
            },
    {
        match ProtoContext::parse(tokens) {
            Err(e) => Err(e),
            Ok(context) => context.validate(dialect),
        }
    }

    /// The descriptors of the unit, one for each service. Every method gets
    /// the codec that the unit declares, or `default_codec` where it declares
    /// none.
    pub fn codegen(&self, default_codec: &str) -> (result: Vec<ServiceDescriptor>)
        ensures
            descriptor_views(result@) == descriptors(self@, default_codec@),
    {
        let codec_path: &str = match &self.codec_path {
            Some(path) => path.as_str(),
            None => default_codec,
        };
        let mut result: Vec<ServiceDescriptor> = Vec::new();
        let mut j: usize = 0;
        while j < self.services.len()
            invariant
                j <= self.services.len(),
                result.len() == j,
                codec_path@ == codec_of(self@, default_codec@),
                forall|m: int|
                    0 <= m < j ==> (#[trigger] result[m])@ == service_descriptor(
                        self.package@,
                        self.services[m]@,
                        codec_path@,
                    ),
            decreases self.services.len() - j,
        {
            result.push(describe_service(self.package.as_str(), &self.services[j], codec_path));
            j += 1;
        }
        assert(descriptor_views(result@) =~= descriptors(self@, default_codec@));
        result
    }
}

} // verus!
