//! Configuration: defaults, limits, environment, validation and endpoints.
//!
//! A configuration starts from [`TaosConfig::default`], takes values from TOML or from the
//! environment or from [`TaosConfig::builder`], and passes [`TaosConfig::validate`] before any
//! connection is made.
//!
//! The password is sensitive: it is rendered as `***`, and comes only from the environment or
//! the builder.

use std::path::PathBuf;
use std::time::Duration;
use vstd::prelude::*;

use crate::duration;

mod builder;
pub mod document;
pub mod endpoint;
pub mod enums;
pub mod env;
pub mod parse;
pub mod render;
pub mod validate;

pub use builder::TaosConfigBuilder;
pub use enums::{TransportMode, TsPrecision};

verus! {

/// The prefix of the environment variables.
pub const ENV_PREFIX: &'static str = "FOUNDATIONX_TAOSX_";

/// Environment variable: host name or IP address.
pub const ENV_HOST: &'static str = "FOUNDATIONX_TAOSX_HOST";

/// Environment variable: port of the REST and WebSocket service.
pub const ENV_PORT: &'static str = "FOUNDATIONX_TAOSX_PORT";

/// Environment variable: database.
pub const ENV_DATABASE: &'static str = "FOUNDATIONX_TAOSX_DATABASE";

/// Environment variable: user.
pub const ENV_USER: &'static str = "FOUNDATIONX_TAOSX_USER";

/// Environment variable: password.
pub const ENV_PASSWORD: &'static str = "FOUNDATIONX_TAOSX_PASSWORD";

/// Environment variable: whether to use TLS.
pub const ENV_TLS: &'static str = "FOUNDATIONX_TAOSX_TLS";

/// Environment variable: file with a private certificate authority.
pub const ENV_TLS_CA_FILE: &'static str = "FOUNDATIONX_TAOSX_TLS_CA_FILE";

/// Environment variable: request time-out in milliseconds.
pub const ENV_TIMEOUT_MS: &'static str = "FOUNDATIONX_TAOSX_TIMEOUT_MS";

/// Environment variable: time-stamp precision.
pub const ENV_PRECISION: &'static str = "FOUNDATIONX_TAOSX_PRECISION";

/// Environment variable: transport mode.
pub const ENV_TRANSPORT: &'static str = "FOUNDATIONX_TAOSX_TRANSPORT";

/// Environment variable: requests in flight.
pub const ENV_MAX_IN_FLIGHT: &'static str = "FOUNDATIONX_TAOSX_MAX_IN_FLIGHT";

/// Environment variable: time to wait for a permit, in milliseconds.
pub const ENV_ACQUIRE_TIMEOUT_MS: &'static str = "FOUNDATIONX_TAOSX_ACQUIRE_TIMEOUT_MS";

/// Environment variable: rows of a batch.
pub const ENV_BATCH_MAX_ROWS: &'static str = "FOUNDATIONX_TAOSX_BATCH_MAX_ROWS";

/// Environment variable: bytes of an SQL request.
pub const ENV_BATCH_MAX_BYTES: &'static str = "FOUNDATIONX_TAOSX_BATCH_MAX_BYTES";

/// Environment variable: bytes of a response.
pub const ENV_MAX_RESPONSE_BYTES: &'static str = "FOUNDATIONX_TAOSX_MAX_RESPONSE_BYTES";

/// Environment variable: rows of a query's result.
pub const ENV_MAX_QUERY_ROWS: &'static str = "FOUNDATIONX_TAOSX_MAX_QUERY_ROWS";

/// Environment variable: time to wait for requests in flight on closing, in milliseconds.
pub const ENV_CLOSE_TIMEOUT_MS: &'static str = "FOUNDATIONX_TAOSX_CLOSE_TIMEOUT_MS";

/// Environment variable: spare hosts, with commas between them.
pub const ENV_HOSTS: &'static str = "FOUNDATIONX_TAOSX_HOSTS";

/// Environment variable: attempts at an idempotent write.
pub const ENV_WRITE_MAX_ATTEMPTS: &'static str = "FOUNDATIONX_TAOSX_WRITE_MAX_ATTEMPTS";

/// The default host.
pub const DEFAULT_HOST: &'static str = "127.0.0.1";

/// The default port.
pub const DEFAULT_PORT: u16 = 6041;

/// The default database.
pub const DEFAULT_DATABASE: &'static str = "infra_draft";

/// The default user.
pub const DEFAULT_USER: &'static str = "root";

/// The most requests in flight.
pub const HARD_MAX_IN_FLIGHT: usize = 1_024;

/// The most UTF-8 bytes of one SQL request.
pub const HARD_MAX_BATCH_BYTES: usize = 8 * 1024 * 1024;

/// The most rows of one batch.
pub const HARD_MAX_BATCH_ROWS: usize = 10_000;

/// The most bytes of one response.
pub const HARD_MAX_RESPONSE_BYTES: usize = 64 * 1024 * 1024;

/// The most rows of one query's result.
pub const HARD_MAX_QUERY_ROWS: usize = 100_000;

/// The longest time to wait for requests in flight on closing, in seconds.
pub const HARD_MAX_CLOSE_TIMEOUT_SECS: u64 = 30;

/// The longest request time-out and the longest wait for a permit, in seconds.
pub const HARD_MAX_TIMEOUT_SECS: u64 = 3_600;

/// The most attempts at an idempotent write, the first one counted.
pub const HARD_MAX_WRITE_MAX_ATTEMPTS: u32 = 10;

/// The most UTF-8 bytes of an SQL identifier: a database's name or a sub-table's.
pub const MAX_IDENT_BYTES: usize = 192;

/// The longest time to wait for requests in flight on closing.
#[must_use]
pub fn hard_max_close_timeout() -> (r: Duration)
    ensures
        duration::nanos(r) == HARD_MAX_CLOSE_TIMEOUT_SECS * 1_000_000_000,
{
    Duration::from_secs(HARD_MAX_CLOSE_TIMEOUT_SECS)
}

/// The longest request time-out and the longest wait for a permit.
#[must_use]
pub fn hard_max_timeout() -> (r: Duration)
    ensures
        duration::nanos(r) == HARD_MAX_TIMEOUT_SECS * 1_000_000_000,
{
    Duration::from_secs(HARD_MAX_TIMEOUT_SECS)
}

#[verifier::external_type_specification]
#[verifier::external_body]
pub struct ExPathBuf(PathBuf);

/// `Clone` of [`PathBuf`]: the same path.
pub assume_specification[ <PathBuf as Clone>::clone ](path: &PathBuf) -> (r: PathBuf)
    ensures
        r == *path,
;

/// The configuration of a client. All fields are public; [`TaosConfig::validate`] says whether
/// they go together.
pub struct TaosConfig {
    /// Host name or IP address.
    pub host: String,
    /// Port of the REST and WebSocket service.
    pub port: u16,
    /// Database; empty for none.
    pub database: String,
    /// User.
    pub user: String,
    /// Password.
    pub password: String,
    /// Whether to use TLS.
    pub tls: bool,
    /// A file with a private certificate authority.
    pub tls_ca_file: Option<PathBuf>,
    /// Request time-out.
    pub timeout: Duration,
    /// Precision of the database's time stamps; where it is not given it is asked for on
    /// connecting.
    pub precision: Option<TsPrecision>,
    /// Transport mode.
    pub transport: TransportMode,
    /// The most requests in flight.
    pub max_in_flight: usize,
    /// How long to wait for a permit.
    pub acquire_timeout: Duration,
    /// Rows of a batch.
    pub batch_max_rows: usize,
    /// UTF-8 bytes of an SQL request.
    pub batch_max_bytes: usize,
    /// Bytes of a response.
    pub max_response_bytes: usize,
    /// Rows of a query's result.
    pub max_query_rows: usize,
    /// How long to wait for requests in flight on closing.
    pub close_timeout: Duration,
    /// Hosts to try, in order, when the first one fails.
    pub hosts: Vec<String>,
    /// Attempts at an idempotent write, the first one counted.
    pub write_max_attempts: u32,
}

/// A [`TaosConfig`] with texts as sequences of characters and times in nanoseconds.
#[verifier::ext_equal]
pub struct ConfigView {
    pub host: Seq<char>,
    pub port: u16,
    pub database: Seq<char>,
    pub user: Seq<char>,
    pub password: Seq<char>,
    pub tls: bool,
    pub tls_ca_file: Option<PathBuf>,
    pub timeout: nat,
    pub precision: Option<TsPrecision>,
    pub transport: TransportMode,
    pub max_in_flight: usize,
    pub acquire_timeout: nat,
    pub batch_max_rows: usize,
    pub batch_max_bytes: usize,
    pub max_response_bytes: usize,
    pub max_query_rows: usize,
    pub close_timeout: nat,
    pub hosts: Seq<Seq<char>>,
    pub write_max_attempts: u32,
}

/// The texts of a sequence of strings.
pub open spec fn texts(v: Seq<String>) -> Seq<Seq<char>> {
    v.map_values(|s: String| s@)
}

impl View for TaosConfig {
    type V = ConfigView;

    open spec fn view(&self) -> ConfigView {
        ConfigView {
            host: self.host@,
            port: self.port,
            database: self.database@,
            user: self.user@,
            password: self.password@,
            tls: self.tls,
            tls_ca_file: self.tls_ca_file,
            timeout: duration::nanos(self.timeout),
            precision: self.precision,
            transport: self.transport,
            max_in_flight: self.max_in_flight,
            acquire_timeout: duration::nanos(self.acquire_timeout),
            batch_max_rows: self.batch_max_rows,
            batch_max_bytes: self.batch_max_bytes,
            max_response_bytes: self.max_response_bytes,
            max_query_rows: self.max_query_rows,
            close_timeout: duration::nanos(self.close_timeout),
            hosts: texts(self.hosts@),
            write_max_attempts: self.write_max_attempts,
        }
    }
}

impl ConfigView {
    /// The configuration that nothing was set in.
    pub open spec fn defaults() -> ConfigView {
        ConfigView {
            host: DEFAULT_HOST@,
            port: DEFAULT_PORT,
            database: DEFAULT_DATABASE@,
            user: DEFAULT_USER@,
            password: Seq::empty(),
            tls: false,
            tls_ca_file: None,
            timeout: 10_000_000_000,
            precision: None,
            transport: TransportMode::Rest,
            max_in_flight: 64,
            acquire_timeout: 5_000_000_000,
            batch_max_rows: 500,
            batch_max_bytes: 1_048_576,
            max_response_bytes: 8_388_608,
            max_query_rows: 10_000,
            close_timeout: 5_000_000_000,
            hosts: Seq::empty(),
            write_max_attempts: 1,
        }
    }
}

impl Default for TaosConfig {
    fn default() -> (r: Self)
        ensures
            r@ == ConfigView::defaults(),
    {
        let hosts: Vec<String> = Vec::new();
        assert(texts(hosts@) =~= Seq::<Seq<char>>::empty());
        TaosConfig {
            host: String::from(DEFAULT_HOST),
            port: DEFAULT_PORT,
            database: String::from(DEFAULT_DATABASE),
            user: String::from(DEFAULT_USER),
            password: String::new(),
            tls: false,
            tls_ca_file: None,
            timeout: Duration::from_secs(10),
            precision: None,
            transport: TransportMode::Rest,
            max_in_flight: 64,
            acquire_timeout: Duration::from_secs(5),
            batch_max_rows: 500,
            batch_max_bytes: 1024 * 1024,
            max_response_bytes: 8 * 1024 * 1024,
            max_query_rows: 10_000,
            close_timeout: Duration::from_secs(5),
            hosts,
            write_max_attempts: 1,
        }
    }
}

impl Clone for TaosConfig {
    fn clone(&self) -> (r: Self)
        ensures
            r@ == self@,
    {
        let tls_ca_file: Option<PathBuf> = match &self.tls_ca_file {
            Some(path) => Some(path.clone()),
            None => None,
        };
        let hosts: Vec<String> = self.hosts.clone();
        assert(texts(hosts@) =~= texts(self.hosts@));
        TaosConfig {
            host: self.host.clone(),
            port: self.port,
            database: self.database.clone(),
            user: self.user.clone(),
            password: self.password.clone(),
            tls: self.tls,
            tls_ca_file,
            timeout: self.timeout,
            precision: self.precision,
            transport: self.transport,
            max_in_flight: self.max_in_flight,
            acquire_timeout: self.acquire_timeout,
            batch_max_rows: self.batch_max_rows,
            batch_max_bytes: self.batch_max_bytes,
            max_response_bytes: self.max_response_bytes,
            max_query_rows: self.max_query_rows,
            close_timeout: self.close_timeout,
            hosts,
            write_max_attempts: self.write_max_attempts,
        }
    }
}

/// The configuration that nothing was set in leads to this machine, without TLS and over REST, and
/// its times and numbers are those that a small service needs.
pub proof fn law_defaults()
    ensures
        ({
            let c = ConfigView::defaults();
            &&& c.host == "127.0.0.1"@
            &&& c.port == 6041
            &&& c.database == "infra_draft"@
            &&& c.user == "root"@
            &&& c.password.len() == 0
            &&& !c.tls
            &&& c.tls_ca_file is None
            &&& c.precision is None
            &&& c.transport == TransportMode::Rest
            &&& c.hosts.len() == 0
            &&& c.timeout == 10 * 1_000_000_000
            &&& c.acquire_timeout == 5 * 1_000_000_000
            &&& c.close_timeout == 5 * 1_000_000_000
            &&& c.max_in_flight == 64
            &&& c.batch_max_rows == 500
            &&& c.batch_max_bytes == 1024 * 1024
            &&& c.max_response_bytes == 8 * 1024 * 1024
            &&& c.max_query_rows == 10_000
            &&& c.write_max_attempts == 1
        }),
        ConfigView::defaults().field_fault() is None,
{
    let c = ConfigView::defaults();
    let parts = seq![
        crate::number::decimal(127),
        crate::number::decimal(0),
        crate::number::decimal(0),
        crate::number::decimal(1),
    ];
    reveal_strlit("127.0.0.1");
    reveal_strlit("root");
    reveal_strlit("infra_draft");
    assert(crate::text::joined(parts, '.') == c.host) by {
        reveal_with_fuel(crate::number::digits, 4);
        reveal_with_fuel(crate::text::joined, 5);
        assert(crate::text::joined(parts, '.') =~= "127.0.0.1"@);
    }
    crate::ip::law_dotted_numbers_are_an_address(127, 0, 0, 1);
    assert(c.host[0] == '1');
    assert forall|i: int| 0 <= i < c.host.len() implies '0' <= #[trigger] c.host[i] <= '9'
        || c.host[i] == '.' by {
    }
    parse::law_host_names(c.host);
    crate::client::sql::law_identifiers(c.database);
    assert(crate::text::trimmed(c.user) == c.user);
    validate::law_settings_pass_within_their_ranges(c);
}

} // verus!
