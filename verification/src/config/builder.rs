//! Building a configuration step by step.

use std::path::PathBuf;
use std::time::Duration;
use vstd::prelude::*;

#[allow(unused_imports)]
use super::ConfigView;
use super::{TaosConfig, TransportMode, TsPrecision};
use crate::duration;
#[allow(unused_imports)]
use crate::error::TaosError;
use crate::error::TaosResult;
use crate::text;

verus! {

/// Builds a [`TaosConfig`]. Nothing is checked before [`TaosConfigBuilder::build`].
pub struct TaosConfigBuilder {
    inner: TaosConfig,
}

/// The configuration as it stands.
impl View for TaosConfigBuilder {
    type V = ConfigView;

    closed spec fn view(&self) -> ConfigView {
        self.inner@
    }
}

impl Clone for TaosConfigBuilder {
    fn clone(&self) -> (r: Self)
        ensures
            r@ == self@,
    {
        TaosConfigBuilder { inner: self.inner.clone() }
    }
}

impl Default for TaosConfigBuilder {
    fn default() -> (r: Self)
        ensures
            r@ == ConfigView::defaults(),
    {
        Self::new()
    }
}

impl TaosConfigBuilder {
    /// Starts from the defaults.
    #[must_use]
    pub fn new() -> (r: Self)
        ensures
            r@ == ConfigView::defaults(),
    {
        TaosConfigBuilder { inner: TaosConfig::default() }
    }

    /// Starts from a configuration.
    #[must_use]
    pub fn from_config(config: TaosConfig) -> (r: Self)
        ensures
            r@ == config@,
    {
        TaosConfigBuilder { inner: config }
    }

    /// Sets the host.
    #[must_use]
    pub fn host<S: Into<String>>(self, host: S) -> (r: Self)
        ensures
            exists|m: String| #[trigger]
                call_ensures(<S as Into<String>>::into, (host,), m) && r@ == (ConfigView {
                    host: m@,
                    ..self@
                }),
    {
        let mut b = self;
        b.inner.host = host.into();
        assert(call_ensures(<S as Into<String>>::into, (host,), b.inner.host));
        b
    }

    /// Sets the port.
    #[must_use]
    pub fn port(self, port: u16) -> (r: Self)
        ensures
            r@ == (ConfigView { port, ..self@ }),
    {
        let mut b = self;
        b.inner.port = port;
        b
    }

    /// Sets the database.
    #[must_use]
    pub fn database<S: Into<String>>(self, database: S) -> (r: Self)
        ensures
            exists|m: String| #[trigger]
                call_ensures(<S as Into<String>>::into, (database,), m) && r@ == (ConfigView {
                    database: m@,
                    ..self@
                }),
    {
        let mut b = self;
        b.inner.database = database.into();
        assert(call_ensures(<S as Into<String>>::into, (database,), b.inner.database));
        b
    }

    /// Sets the user.
    #[must_use]
    pub fn user<S: Into<String>>(self, user: S) -> (r: Self)
        ensures
            exists|m: String| #[trigger]
                call_ensures(<S as Into<String>>::into, (user,), m) && r@ == (ConfigView {
                    user: m@,
                    ..self@
                }),
    {
        let mut b = self;
        b.inner.user = user.into();
        assert(call_ensures(<S as Into<String>>::into, (user,), b.inner.user));
        b
    }

    /// Sets the password.
    #[must_use]
    pub fn password<S: Into<String>>(self, password: S) -> (r: Self)
        ensures
            exists|m: String| #[trigger]
                call_ensures(<S as Into<String>>::into, (password,), m) && r@ == (ConfigView {
                    password: m@,
                    ..self@
                }),
    {
        let mut b = self;
        b.inner.password = password.into();
        assert(call_ensures(<S as Into<String>>::into, (password,), b.inner.password));
        b
    }

    /// Sets whether to use TLS.
    #[must_use]
    pub fn tls(self, enabled: bool) -> (r: Self)
        ensures
            r@ == (ConfigView { tls: enabled, ..self@ }),
    {
        let mut b = self;
        b.inner.tls = enabled;
        b
    }

    /// Sets the file with a private certificate authority.
    #[must_use]
    pub fn tls_ca_file<P: Into<PathBuf>>(self, path: P) -> (r: Self)
        ensures
            exists|p: PathBuf| #[trigger]
                call_ensures(<P as Into<PathBuf>>::into, (path,), p) && r@ == (ConfigView {
                    tls_ca_file: Some(p),
                    ..self@
                }),
    {
        let mut b = self;
        let p: PathBuf = path.into();
        let ghost g = p;
        b.inner.tls_ca_file = Some(p);
        assert(call_ensures(<P as Into<PathBuf>>::into, (path,), g));
        b
    }

    /// Sets the request time-out.
    #[must_use]
    pub fn timeout(self, timeout: Duration) -> (r: Self)
        ensures
            r@ == (ConfigView { timeout: duration::nanos(timeout), ..self@ }),
    {
        let mut b = self;
        b.inner.timeout = timeout;
        b
    }

    /// Sets the precision of time stamps.
    #[must_use]
    pub fn precision(self, precision: TsPrecision) -> (r: Self)
        ensures
            r@ == (ConfigView { precision: Some(precision), ..self@ }),
    {
        let mut b = self;
        b.inner.precision = Some(precision);
        b
    }

    /// Sets the transport mode.
    #[must_use]
    pub fn transport(self, transport: TransportMode) -> (r: Self)
        ensures
            r@ == (ConfigView { transport, ..self@ }),
    {
        let mut b = self;
        b.inner.transport = transport;
        b
    }

    /// Sets the most requests in flight.
    #[must_use]
    pub fn max_in_flight(self, max_in_flight: usize) -> (r: Self)
        ensures
            r@ == (ConfigView { max_in_flight, ..self@ }),
    {
        let mut b = self;
        b.inner.max_in_flight = max_in_flight;
        b
    }

    /// Sets how long to wait for a permit.
    #[must_use]
    pub fn acquire_timeout(self, timeout: Duration) -> (r: Self)
        ensures
            r@ == (ConfigView { acquire_timeout: duration::nanos(timeout), ..self@ }),
    {
        let mut b = self;
        b.inner.acquire_timeout = timeout;
        b
    }

    /// Sets the rows of a batch.
    #[must_use]
    pub fn batch_max_rows(self, batch_max_rows: usize) -> (r: Self)
        ensures
            r@ == (ConfigView { batch_max_rows, ..self@ }),
    {
        let mut b = self;
        b.inner.batch_max_rows = batch_max_rows;
        b
    }

    /// Sets the bytes of an SQL request.
    #[must_use]
    pub fn batch_max_bytes(self, batch_max_bytes: usize) -> (r: Self)
        ensures
            r@ == (ConfigView { batch_max_bytes, ..self@ }),
    {
        let mut b = self;
        b.inner.batch_max_bytes = batch_max_bytes;
        b
    }

    /// Sets the bytes of a response.
    #[must_use]
    pub fn max_response_bytes(self, max_response_bytes: usize) -> (r: Self)
        ensures
            r@ == (ConfigView { max_response_bytes, ..self@ }),
    {
        let mut b = self;
        b.inner.max_response_bytes = max_response_bytes;
        b
    }

    /// Sets the rows of a query's result.
    #[must_use]
    pub fn max_query_rows(self, max_query_rows: usize) -> (r: Self)
        ensures
            r@ == (ConfigView { max_query_rows, ..self@ }),
    {
        let mut b = self;
        b.inner.max_query_rows = max_query_rows;
        b
    }

    /// Sets how long to wait for requests in flight on closing.
    #[must_use]
    pub fn close_timeout(self, timeout: Duration) -> (r: Self)
        ensures
            r@ == (ConfigView { close_timeout: duration::nanos(timeout), ..self@ }),
    {
        let mut b = self;
        b.inner.close_timeout = timeout;
        b
    }

    /// Sets the spare hosts.
    #[must_use]
    pub fn hosts<S: Into<String>>(self, hosts: Vec<S>) -> (r: Self)
        ensures
            r@ == (ConfigView { hosts: r@.hosts, ..self@ }),
            r@.hosts.len() == hosts@.len(),
            forall|i: int|
                0 <= i < hosts@.len() ==> text::becomes(hosts@[i], #[trigger] r@.hosts[i]),
    {
        let ghost given = hosts@;
        let mut list: Vec<String> = Vec::new();
        for host in iter: hosts
            invariant
                iter.seq() == given,
                list@.len() == iter.index(),
                forall|i: int|
                    0 <= i < list@.len() ==> call_ensures(
                        <S as Into<String>>::into,
                        (given[i],),
                        #[trigger] list@[i],
                    ),
        {
            let text: String = host.into();
            list.push(text);
        }
        let mut b = self;
        b.inner.hosts = list;
        assert forall|i: int| 0 <= i < given.len() implies text::becomes(
            given[i],
            #[trigger] b@.hosts[i],
        ) by {
            assert(call_ensures(<S as Into<String>>::into, (given[i],), b.inner.hosts@[i]));
        }
        b
    }

    /// Sets the attempts at an idempotent write; zero counts as one.
    #[must_use]
    pub fn write_max_attempts(self, attempts: u32) -> (r: Self)
        ensures
            r@ == (ConfigView {
                write_max_attempts: if attempts == 0 {
                    1
                } else {
                    attempts
                },
                ..self@
            }),
    {
        let mut b = self;
        b.inner.write_max_attempts = if attempts == 0 {
            1
        } else {
            attempts
        };
        b
    }

    /// The configuration, where it passes [`TaosConfig::validate`].
    pub fn build(self) -> (r: TaosResult<TaosConfig>)
        ensures
            match r {
                Ok(config) => config@ == self@ && self@.fault() is None,
                Err(TaosError::Config(m)) => self@.fault() == Some(m@),
                Err(_) => false,
            },
    {
        match self.inner.validate() {
            Ok(_) => Ok(self.inner),
            Err(e) => Err(e),
        }
    }
}

impl TaosConfig {
    /// Starts building a configuration.
    #[must_use]
    pub fn builder() -> (r: TaosConfigBuilder)
        ensures
            r@ == ConfigView::defaults(),
    {
        TaosConfigBuilder::new()
    }
}

} // verus!
