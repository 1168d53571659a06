//! What one scrape learned: the closed set of facts, each present or absent,
//! and the tagged outcome that carries them.

use vstd::prelude::*;

verus! {

/// The facts a scrape asks for. An absent fact is unknown, never zero.
#[derive(Clone, Copy, Debug, PartialEq, Eq)]
pub struct Facts {
    pub uptime_seconds: Option<i64>,
    pub global_user_count: Option<i64>,
    pub local_user_count: Option<i64>,
    pub tls_cert_expiration_epoch: Option<i64>,
}

impl Facts {
    /// No fact known.
    pub open spec fn none() -> Facts {
        Facts {
            uptime_seconds: None,
            global_user_count: None,
            local_user_count: None,
            tls_cert_expiration_epoch: None,
        }
    }

    /// Every fact that applies to the transport is present: the certificate
    /// expiration applies to a secured transport only.
    pub open spec fn complete(&self, secure: bool) -> bool {
        self.uptime_seconds is Some && self.global_user_count is Some && self.local_user_count is Some
            && (secure ==> self.tls_cert_expiration_epoch is Some)
    }

    /// A record with every fact absent.
    pub fn empty() -> (f: Facts)
        ensures
            f == Facts::none(),
    {
        Facts {
            uptime_seconds: None,
            global_user_count: None,
            local_user_count: None,
            tls_cert_expiration_epoch: None,
        }
    }

    /// Whether every fact that applies to the transport is present.
    pub fn is_complete(&self, secure: bool) -> (b: bool)
        ensures
            b == self.complete(secure),
    {
        self.uptime_seconds.is_some() && self.global_user_count.is_some()
            && self.local_user_count.is_some() && (!secure
            || self.tls_cert_expiration_epoch.is_some())
    }
}

/// How a scrape ended.
#[derive(Clone, Copy, Debug, PartialEq, Eq)]
pub enum ScrapeOutcome {
    /// No connection could be opened.
    Unreachable,
    /// The connection opened but registration did not complete.
    HandshakeFailed,
    /// Registration completed; some facts are missing.
    Partial(Facts),
    /// Registration completed and every applicable fact was obtained.
    Complete(Facts),
}

impl ScrapeOutcome {
    /// Whether the server counts as up.
    pub open spec fn is_up(&self) -> bool {
        self is Partial || self is Complete
    }

    /// The facts the outcome carries; none where the server is not up.
    pub open spec fn facts(&self) -> Facts {
        match *self {
            ScrapeOutcome::Partial(f) => f,
            ScrapeOutcome::Complete(f) => f,
            _ => Facts::none(),
        }
    }
}

} // verus!
