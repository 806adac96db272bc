//! The failures the router maps to HTTP responses.
use vstd::prelude::*;

verus! {

#[derive(Clone, Copy, Debug, PartialEq, Eq, Structural)]
pub enum RouteError {
    /// The authority is missing or malformed.
    BadHost,
    /// No module is registered for the host slug.
    NoSuchTenant,
    /// The port pool is empty.
    NoPortsAvailable,
    /// The worker failed before it accepted connections.
    StartupFailed,
    /// Forwarding to a ready worker failed.
    UpstreamError,
}

pub open spec fn status_of(e: RouteError) -> u16 {
    match e {
        RouteError::BadHost => 400,
        RouteError::NoSuchTenant => 502,
        RouteError::NoPortsAvailable => 503,
        RouteError::StartupFailed => 502,
        RouteError::UpstreamError => 502,
    }
}

pub open spec fn route_error_message(e: RouteError) -> Seq<char> {
    match e {
        RouteError::BadHost => "neither \"host\" nor \":authority\" holds a valid host"@,
        RouteError::NoSuchTenant => "hostname not found"@,
        RouteError::NoPortsAvailable => "ran out of ports"@,
        RouteError::StartupFailed => "worker failed to start"@,
        RouteError::UpstreamError => "worker did not answer"@,
    }
}

impl RouteError {
    /// The HTTP status the host answers with.
    pub fn status(&self) -> (r: u16)
        ensures
            r == status_of(*self),
    {
        match self {
            RouteError::BadHost => 400,
            RouteError::NoSuchTenant => 502,
            RouteError::NoPortsAvailable => 503,
            RouteError::StartupFailed => 502,
            RouteError::UpstreamError => 502,
        }
    }

    /// A short description for the response body.
    pub fn message(&self) -> (r: &'static str)
        ensures
            r@ == route_error_message(*self),
    {
        match self {
            RouteError::BadHost => "neither \"host\" nor \":authority\" holds a valid host",
            RouteError::NoSuchTenant => "hostname not found",
            RouteError::NoPortsAvailable => "ran out of ports",
            RouteError::StartupFailed => "worker failed to start",
            RouteError::UpstreamError => "worker did not answer",
        }
    }
}

} // verus!
