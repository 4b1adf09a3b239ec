//! The three services: their names, where they listen, what they serve, and how
//! they are set up.

use crate::text::append_decimal;
use crate::text::decimal;
use vstd::prelude::*;

verus! {

/// The version that every service reports.
pub const SERVICE_VERSION: &'static str = "0.1.0";

/// A service.
#[derive(Clone, Copy, Debug, PartialEq, Eq, Structural)]
pub enum Service {
    Frontend,
    Billing,
    Gateway,
}

/// What answers a request.
#[derive(Clone, Copy, Debug, PartialEq, Eq, Structural)]
pub enum Endpoint {
    /// The greeting of the frontend.
    Hello,
    /// The work that the frontend does.
    Work,
    /// The failure of the frontend.
    Failure,
    /// The charge of the billing service.
    Charge,
    /// The payment that the billing service declines.
    Decline,
    /// The payment that the gateway processes.
    Process,
    /// The liveness check.
    Health,
    /// The scrape of the metrics.
    Metrics,
}

/// A path, and what answers a `GET` request for it.
#[derive(Clone, Copy, Debug)]
pub struct Route {
    pub path: &'static str,
    pub endpoint: Endpoint,
}

impl View for Route {
    type V = (Seq<char>, Endpoint);

    open spec fn view(&self) -> (Seq<char>, Endpoint) {
        (self.path@, self.endpoint)
    }
}

impl Service {
    /// The name that the service reports.
    pub open spec fn spec_name(self) -> Seq<char> {
        match self {
            Service::Frontend => "otel-rust-demo"@,
            Service::Billing => "billing-service"@,
            Service::Gateway => "payment-gateway"@,
        }
    }

    /// The port that the service listens on.
    pub open spec fn spec_port(self) -> u16 {
        match self {
            Service::Frontend => 8080,
            Service::Billing => 8081,
            Service::Gateway => 8082,
        }
    }

    /// What the service serves.
    pub open spec fn spec_routes(self) -> Seq<(Seq<char>, Endpoint)> {
        match self {
            Service::Frontend => seq![
                ("/"@, Endpoint::Hello),
                ("/work"@, Endpoint::Work),
                ("/error"@, Endpoint::Failure),
                ("/health"@, Endpoint::Health),
                ("/metrics"@, Endpoint::Metrics),
            ],
            Service::Billing => seq![
                ("/charge"@, Endpoint::Charge),
                ("/error"@, Endpoint::Decline),
                ("/health"@, Endpoint::Health),
                ("/metrics"@, Endpoint::Metrics),
            ],
            Service::Gateway => seq![
                ("/process"@, Endpoint::Process),
                ("/health"@, Endpoint::Health),
                ("/metrics"@, Endpoint::Metrics),
            ],
        }
    }

    /// The name that the service reports.
    pub fn name(self) -> (name: &'static str)
        ensures
            name@ == self.spec_name(),
    {
        match self {
            Service::Frontend => "otel-rust-demo",
            Service::Billing => "billing-service",
            Service::Gateway => "payment-gateway",
        }
    }

    /// The port that the service listens on.
    pub fn port(self) -> (port: u16)
        ensures
            port == self.spec_port(),
    {
        match self {
            Service::Frontend => 8080,
            Service::Billing => 8081,
            Service::Gateway => 8082,
        }
    }

    /// The address that the service listens on: its port, on every interface.
    pub fn listen_address(self) -> (address: String)
        ensures
            address@ == "0.0.0.0:"@ + decimal(self.spec_port() as nat),
    {
        let mut address = "0.0.0.0:".to_owned();
        append_decimal(&mut address, self.port() as u64);
        address
    }

    /// Where the service is found on the same machine.
    pub fn local_url(self) -> (url: String)
        ensures
            url@ == "http://localhost:"@ + decimal(self.spec_port() as nat),
    {
        let mut url = "http://localhost:".to_owned();
        append_decimal(&mut url, self.port() as u64);
        url
    }

    /// What the service serves.
    pub fn routes(self) -> (routes: Vec<Route>)
        ensures
            routes@.map_values(|route: Route| route@) == self.spec_routes(),
    {
        let routes = match self {
            Service::Frontend => vec![
                Route { path: "/", endpoint: Endpoint::Hello },
                Route { path: "/work", endpoint: Endpoint::Work },
                Route { path: "/error", endpoint: Endpoint::Failure },
                Route { path: "/health", endpoint: Endpoint::Health },
                Route { path: "/metrics", endpoint: Endpoint::Metrics },
            ],
            Service::Billing => vec![
                Route { path: "/charge", endpoint: Endpoint::Charge },
                Route { path: "/error", endpoint: Endpoint::Decline },
                Route { path: "/health", endpoint: Endpoint::Health },
                Route { path: "/metrics", endpoint: Endpoint::Metrics },
            ],
            Service::Gateway => vec![
                Route { path: "/process", endpoint: Endpoint::Process },
                Route { path: "/health", endpoint: Endpoint::Health },
                Route { path: "/metrics", endpoint: Endpoint::Metrics },
            ],
        };
        assert(routes@.map_values(|route: Route| route@) =~= self.spec_routes());
        routes
    }
}

/// A setting, or what stands in for one that is missing.
pub open spec fn setting_or(setting: Option<String>, default: Seq<char>) -> Seq<char> {
    match setting {
        Some(value) => value@,
        None => default,
    }
}

/// Where traces and logs are exported to: the given setting, or else a collector
/// on the same machine.
pub fn otlp_endpoint(setting: Option<String>) -> (endpoint: String)
    ensures
        endpoint@ == setting_or(setting, "http://localhost:4317"@),
{
    match setting {
        Some(value) => value,
        None => "http://localhost:4317".to_owned(),
    }
}

/// The services can run side by side: no two share a name or a port.
pub proof fn law_services_are_apart(a: Service, b: Service)
    requires
        a != b,
    ensures
        a.spec_name() != b.spec_name(),
        a.spec_port() != b.spec_port(),
{
    reveal_strlit("otel-rust-demo");
    reveal_strlit("billing-service");
    reveal_strlit("payment-gateway");
    assert(Service::Frontend.spec_name()[0] == 'o');
    assert(Service::Billing.spec_name()[0] == 'b');
    assert(Service::Gateway.spec_name()[0] == 'p');
}

/// Every service answers a liveness check and exposes its metrics, and serves no
/// path twice.
pub proof fn law_every_service_can_be_watched(service: Service)
    ensures
        service.spec_routes().contains(("/health"@, Endpoint::Health)),
        service.spec_routes().contains(("/metrics"@, Endpoint::Metrics)),
        forall|i: int, j: int|
            0 <= i < j < service.spec_routes().len() ==> (#[trigger] service.spec_routes()[i]).0 != (
            #[trigger] service.spec_routes()[j]).0,
{
    reveal_strlit("/");
    reveal_strlit("/work");
    reveal_strlit("/error");
    reveal_strlit("/charge");
    reveal_strlit("/process");
    reveal_strlit("/health");
    reveal_strlit("/metrics");
    let routes = service.spec_routes();
    assert(routes[routes.len() - 2] == ("/health"@, Endpoint::Health));
    assert(routes[routes.len() - 1] == ("/metrics"@, Endpoint::Metrics));
    assert("/"@.len() == 1 && "/work"@.len() == 5 && "/error"@.len() == 6);
    assert("/charge"@[1] == 'c' && "/health"@[1] == 'h' && "/metrics"@[1] == 'm');
    assert("/process"@[1] == 'p' && "/error"@[1] == 'e');
}

/// A setting that is there is honoured as it stands, whatever it is; what stands
/// in for it counts only where it is missing.
pub proof fn law_settings_are_honoured(setting: String, default: Seq<char>)
    ensures
        setting_or(Some(setting), default) == setting@,
        setting_or(None, default) == default,
{
}

} // verus!
