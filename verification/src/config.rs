//! PostgreSQL connection-pool configuration.
use crate::duration::{duration_debug_text, Duration};
use crate::error::PersistenceError;
use crate::text::{concat_str, decimal_string, decimal_text};
use vstd::prelude::*;

verus! {

/// Validated database connection-pool configuration.
#[derive(Clone)]
pub struct DatabaseConfig {
    url: String,
    max_connections: u32,
    min_connections: u32,
    acquire_timeout: Duration,
}

/// Whether the error is a configuration error.
pub open spec fn is_invalid_configuration(e: PersistenceError) -> bool {
    e is InvalidConfiguration
}

/// The pool invariants: a URL, at least one connection, a minimum within the maximum
/// and a positive acquire timeout.
pub open spec fn valid_pool(url: Seq<char>, min: u32, max: u32, timeout: Duration) -> bool {
    &&& url.len() > 0
    &&& max > 0
    &&& min <= max
    &&& timeout.total_nanos() > 0
}

fn invalid(message: &str) -> (e: PersistenceError)
    ensures
        is_invalid_configuration(e),
        e matches PersistenceError::InvalidConfiguration { message: m } && m@ == message@,
{
    PersistenceError::InvalidConfiguration { message: message.to_owned() }
}

impl DatabaseConfig {
    pub closed spec fn spec_url(self) -> Seq<char> {
        self.url@
    }

    pub closed spec fn spec_max_connections(self) -> u32 {
        self.max_connections
    }

    pub closed spec fn spec_min_connections(self) -> u32 {
        self.min_connections
    }

    pub closed spec fn spec_acquire_timeout(self) -> Duration {
        self.acquire_timeout
    }

    /// Creates validated configuration; a violated pool invariant is an
    /// `InvalidConfiguration` error.
    pub fn new(url: &str, min_connections: u32, max_connections: u32, acquire_timeout: Duration) -> (r:
        Result<DatabaseConfig, PersistenceError>)
        requires
            acquire_timeout.wf(),
        ensures
            r is Ok <==> valid_pool(url@, min_connections, max_connections, acquire_timeout),
            r matches Ok(c) ==> c.spec_url() == url@ && c.spec_min_connections() == min_connections
                && c.spec_max_connections() == max_connections && c.spec_acquire_timeout()
                == acquire_timeout,
            r matches Err(e) ==> is_invalid_configuration(e),
    {
        if url.is_empty() {
            return Err(invalid("database URL must not be empty"));
        }
        if max_connections == 0 {
            return Err(invalid("maximum connections must be greater than zero"));
        }
        if min_connections > max_connections {
            return Err(invalid("minimum connections must not exceed maximum connections"));
        }
        if acquire_timeout.is_zero() {
            return Err(invalid("acquire timeout must be greater than zero"));
        }
        Ok(DatabaseConfig { url: url.to_owned(), max_connections, min_connections, acquire_timeout })
    }

    /// The development-sized pool (1 to 16 connections, 5 second acquire timeout).
    pub fn development(url: &str) -> (r: Result<DatabaseConfig, PersistenceError>)
        ensures
            r is Ok <==> url@.len() > 0,
            r matches Ok(c) ==> c.spec_url() == url@ && c.spec_min_connections() == 1
                && c.spec_max_connections() == 16 && c.spec_acquire_timeout() == Duration::spec_new(5, 0),
            r matches Err(e) ==> is_invalid_configuration(e),
    {
        let timeout = Duration::from_secs(5);
        assert(timeout == Duration::spec_new(5, 0));
        DatabaseConfig::new(url, 1, 16, timeout)
    }

    pub fn url(&self) -> (u: &str)
        ensures
            u@ == self.spec_url(),
    {
        self.url.as_str()
    }

    pub fn max_connections(&self) -> (n: u32)
        ensures
            n == self.spec_max_connections(),
    {
        self.max_connections
    }

    pub fn min_connections(&self) -> (n: u32)
        ensures
            n == self.spec_min_connections(),
    {
        self.min_connections
    }

    /// The configuration as its `Debug` form writes it for logs: every setting but the
    /// URL, which may carry credentials and is shown as `"[REDACTED]"`.
    pub fn redacted(&self) -> (s: String)
        ensures
            s@ == "DatabaseConfig { url: \"[REDACTED]\", max_connections: "@ + decimal_text(
                self.spec_max_connections() as nat,
            ) + ", min_connections: "@ + decimal_text(self.spec_min_connections() as nat)
                + ", acquire_timeout: "@ + duration_debug_text(self.spec_acquire_timeout())
                + " }"@,
    {
        let a = concat_str(
            "DatabaseConfig { url: \"[REDACTED]\", max_connections: ",
            decimal_string(self.max_connections as u128).as_str(),
        );
        let b = concat_str(a.as_str(), ", min_connections: ");
        let c = concat_str(b.as_str(), decimal_string(self.min_connections as u128).as_str());
        let d = concat_str(c.as_str(), ", acquire_timeout: ");
        let e = concat_str(d.as_str(), self.acquire_timeout.debug_text().as_str());
        concat_str(e.as_str(), " }")
    }

    pub fn acquire_timeout(&self) -> (d: Duration)
        ensures
            d == self.spec_acquire_timeout(),
    {
        self.acquire_timeout
    }
}

} // verus!
