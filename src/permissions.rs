//! The sandbox's capability policy: which network endpoints, files and other
//! resources user code may touch.
use vstd::prelude::*;
use crate::text::str_eq;

verus! {

/// Why the policy refused an operation.
#[derive(Clone, Copy, Debug, PartialEq, Eq, Structural)]
pub enum PermissionDenied {
    /// A loopback or wildcard address on a port other than the assigned one.
    LocalNet,
    /// A URL without a host.
    NoHost,
    /// Any filesystem read.
    Read,
    /// Any filesystem write.
    Write,
}

pub open spec fn denial_message(e: PermissionDenied) -> Seq<char> {
    match e {
        PermissionDenied::LocalNet => "local net blocked"@,
        PermissionDenied::NoHost => "no host"@,
        PermissionDenied::Read => "local reads not permitted"@,
        PermissionDenied::Write => "local writes not permitted"@,
    }
}

impl PermissionDenied {
    /// A human-readable reason, surfaced to user code with the rejection.
    pub fn message(&self) -> (r: &'static str)
        ensures
            r@ == denial_message(*self),
    {
        match self {
            PermissionDenied::LocalNet => "local net blocked",
            PermissionDenied::NoHost => "no host",
            PermissionDenied::Read => "local reads not permitted",
            PermissionDenied::Write => "local writes not permitted",
        }
    }
}

/// Host names that reach this machine itself: loopback and wildcard
/// addresses, IPv6 ones with or without the URL brackets.
pub open spec fn is_local_host(h: Seq<char>) -> bool {
    ||| h == "localhost"@
    ||| h == "127.0.0.1"@
    ||| h == "0.0.0.0"@
    ||| h == "::"@
    ||| h == "::1"@
    ||| h == "[::]"@
    ||| h == "[::1]"@
}

/// Whether a connection or listener on `host:port` is allowed for an isolate
/// whose one permitted local port is `allow_local_port`.
pub open spec fn net_allowed(allow_local_port: u16, host: Seq<char>, port: Option<u16>) -> bool {
    !is_local_host(host) || port == Some(allow_local_port)
}

/// Refuses every local host name, whatever the port.
pub fn block_local_net(hostname: &str) -> (r: Result<(), PermissionDenied>)
    ensures
        r is Ok <==> !is_local_host(hostname@),
        r is Err ==> r == Err::<(), PermissionDenied>(PermissionDenied::LocalNet),
{
    if str_eq(hostname, "localhost") || str_eq(hostname, "127.0.0.1") || str_eq(hostname, "0.0.0.0")
        || str_eq(hostname, "::") || str_eq(hostname, "::1") || str_eq(hostname, "[::]")
        || str_eq(hostname, "[::1]") {
        Err(PermissionDenied::LocalNet)
    } else {
        Ok(())
    }
}

/// The policy of one isolate, parameterized by the single local port it may
/// listen on and connect to.
#[derive(Clone, Copy, Debug, PartialEq, Eq, Structural)]
pub struct Permissions {
    pub allow_local_port: u16,
}

impl Permissions {
    /// Outbound connections and inbound listeners on `host`, `port`.
    pub fn check_net(&self, host: &str, port: Option<u16>) -> (r: Result<(), PermissionDenied>)
        ensures
            r is Ok <==> net_allowed(self.allow_local_port, host@, port),
            r is Err ==> r == Err::<(), PermissionDenied>(PermissionDenied::LocalNet),
    {
        match block_local_net(host) {
            Ok(()) => Ok(()),
            Err(e) => {
                match port {
                    Some(p) if p == self.allow_local_port => Ok(()),
                    _ => Err(e),
                }
            },
        }
    }

    /// `fetch` and websocket URLs: the URL's host (if it has one) and its
    /// port, explicit or the scheme's default.
    pub fn check_net_url(&self, host: Option<&str>, port: Option<u16>) -> (r: Result<(), PermissionDenied>)
        ensures
            host is None ==> r == Err::<(), PermissionDenied>(PermissionDenied::NoHost),
            host is Some ==> (r is Ok <==> net_allowed(self.allow_local_port, host->0@, port)),
            host is Some && r is Err ==> r == Err::<(), PermissionDenied>(PermissionDenied::LocalNet),
    {
        match host {
            None => Err(PermissionDenied::NoHost),
            Some(h) => self.check_net(h, port),
        }
    }

    /// Filesystem reads are never allowed.
    pub fn check_read(&self, path: &str) -> (r: Result<(), PermissionDenied>)
        ensures
            r == Err::<(), PermissionDenied>(PermissionDenied::Read),
    {
        Err(PermissionDenied::Read)
    }

    /// Filesystem writes are never allowed.
    pub fn check_write(&self, path: &str) -> (r: Result<(), PermissionDenied>)
        ensures
            r == Err::<(), PermissionDenied>(PermissionDenied::Write),
    {
        Err(PermissionDenied::Write)
    }

    /// High-resolution time is never allowed.
    pub fn allow_hrtime(&self) -> (r: bool)
        ensures
            !r,
    {
        false
    }
}

/// A fetch policy that refuses every local host, with no port exception.
#[derive(Clone, Copy, Debug, PartialEq, Eq, Structural)]
pub struct FetchBlockLocal;

impl FetchBlockLocal {
    pub fn check_net_url(&self, host: Option<&str>) -> (r: Result<(), PermissionDenied>)
        ensures
            host is None ==> r == Err::<(), PermissionDenied>(PermissionDenied::NoHost),
            host is Some ==> (r is Ok <==> !is_local_host(host->0@)),
            host is Some && r is Err ==> r == Err::<(), PermissionDenied>(PermissionDenied::LocalNet),
    {
        match host {
            None => Err(PermissionDenied::NoHost),
            Some(h) => block_local_net(h),
        }
    }

    pub fn check_read(&self, path: &str) -> (r: Result<(), PermissionDenied>)
        ensures
            r == Err::<(), PermissionDenied>(PermissionDenied::Read),
    {
        Err(PermissionDenied::Read)
    }
}

/// The loopback address is reachable on the isolate's own port and on no
/// other.
pub proof fn lemma_loopback_only_own_port(allow_local_port: u16, port: u16)
    ensures
        net_allowed(allow_local_port, "127.0.0.1"@, Some(port)) <==> port == allow_local_port,
        net_allowed(allow_local_port, "localhost"@, Some(port)) <==> port == allow_local_port,
        !net_allowed(allow_local_port, "127.0.0.1"@, None),
{
}

} // verus!
