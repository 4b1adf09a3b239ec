//! Requests to other services.

use crate::flow::Target;
use crate::headers::header_contents;
use crate::propagation::are_sent_with;
use crate::propagation::inject;
use crate::propagation::BaggageItem;
use crate::propagation::SpanLink;
use crate::service::setting_or;
use crate::service::Endpoint;
use crate::service::Service;
use crate::text::decimal;
use axum::http::HeaderMap;
use axum::http::HeaderValue;
use vstd::prelude::*;

verus! {

/// A request to be sent.
pub struct Outgoing {
    pub url: String,
    pub headers: HeaderMap<HeaderValue>,
}

impl Target {
    /// The service that is asked.
    pub open spec fn spec_service(self) -> Service {
        match self {
            Target::Charge => Service::Billing,
            Target::Process => Service::Gateway,
        }
    }

    /// The path that it is asked for.
    pub open spec fn spec_path(self) -> Seq<char> {
        match self {
            Target::Charge => "/charge"@,
            Target::Process => "/process"@,
        }
    }

    /// The URL of the request, where a setting tells where the service is: by
    /// default it is on the same machine.
    pub open spec fn spec_url(self, setting: Option<String>) -> Seq<char> {
        setting_or(
            setting,
            "http://localhost:"@ + decimal(self.spec_service().spec_port() as nat),
        ) + self.spec_path()
    }

    /// The service that is asked.
    pub fn service(self) -> (service: Service)
        ensures
            service == self.spec_service(),
    {
        match self {
            Target::Charge => Service::Billing,
            Target::Process => Service::Gateway,
        }
    }

    /// The name of the setting that tells where the service is.
    pub fn setting_name(self) -> (name: &'static str)
        ensures
            name@ == (match self {
                Target::Charge => "BILLING_SERVICE_URL"@,
                Target::Process => "PAYMENT_GATEWAY_URL"@,
            }),
    {
        match self {
            Target::Charge => "BILLING_SERVICE_URL",
            Target::Process => "PAYMENT_GATEWAY_URL",
        }
    }

    /// The URL of the request.
    pub fn url(self, setting: Option<String>) -> (url: String)
        ensures
            url@ == self.spec_url(setting),
    {
        let mut url = match setting {
            Some(value) => value,
            None => self.service().local_url(),
        };
        match self {
            Target::Charge => url.append("/charge"),
            Target::Process => url.append("/process"),
        }
        url
    }

    /// The request to the service, as it is sent from the given span: its
    /// headers carry the span and the baggage, so that the service continues the
    /// same trace.
    pub fn request(
        self,
        setting: Option<String>,
        link: &SpanLink,
        baggage: &Vec<BaggageItem>,
    ) -> (outgoing: Outgoing)
        ensures
            outgoing.url@ == self.spec_url(setting),
            are_sent_with(header_contents(outgoing.headers), *link, baggage@),
    {
        Outgoing { url: self.url(setting), headers: inject(link, baggage) }
    }
}

/// What is reported of a request that was sent.
pub enum Report {
    /// The service responded, with a status and a text.
    Responded { status: u16, body: String },
    /// The service did not respond, which is worth a warning.
    Unavailable,
}

/// What is reported of a request, given what became of it: the status and the
/// text of the response, where there was one. Any response is a response, also
/// one that tells of an error. A text that cannot be read counts as empty.
pub fn report(outcome: Option<(u16, Option<String>)>) -> (reported: Report)
    ensures
        match outcome {
            Some((status, text)) => {
                &&& reported matches Report::Responded { status: code, body }
                &&& code == status
                &&& body@ == (match text {
                    Some(t) => t@,
                    None => ""@,
                })
            },
            None => reported is Unavailable,
        },
{
    match outcome {
        Some((status, Some(body))) => Report::Responded { status, body },
        Some((status, None)) => Report::Responded { status, body: "".to_owned() },
        None => Report::Unavailable,
    }
}

/// Without a setting, a request goes to a path that the service serves, on the
/// port that it listens on.
pub proof fn law_requests_are_served(target: Target)
    ensures
        target.spec_url(None) == "http://localhost:"@ + decimal(
            target.spec_service().spec_port() as nat,
        ) + target.spec_path(),
        target.spec_service().spec_routes().contains(
            (
                target.spec_path(),
                match target {
                    Target::Charge => Endpoint::Charge,
                    Target::Process => Endpoint::Process,
                },
            ),
        ),
{
    assert(target.spec_service().spec_routes()[0].0 == target.spec_path());
}

/// A setting says where the service is, and the path stays that of the request;
/// without one, each service is asked on its port of the same machine.
pub proof fn law_setting_moves_the_service(target: Target, setting: String)
    ensures
        target.spec_url(Some(setting)) == setting@ + (match target {
            Target::Charge => "/charge"@,
            Target::Process => "/process"@,
        }),
        target.spec_url(None) == (match target {
            Target::Charge => "http://localhost:8081/charge"@,
            Target::Process => "http://localhost:8082/process"@,
        }),
{
    reveal_strlit("http://localhost:");
    reveal_strlit("/charge");
    reveal_strlit("/process");
    reveal_strlit("http://localhost:8081/charge");
    reveal_strlit("http://localhost:8082/process");
    reveal_with_fuel(decimal, 5);
    assert(decimal(8081) =~= seq!['8', '0', '8', '1']);
    assert(decimal(8082) =~= seq!['8', '0', '8', '2']);
    assert(target.spec_url(None) =~= (match target {
        Target::Charge => "http://localhost:8081/charge"@,
        Target::Process => "http://localhost:8082/process"@,
    }));
}

} // verus!
