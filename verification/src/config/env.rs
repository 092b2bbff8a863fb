//! A configuration from environment variables.

use std::path::PathBuf;
use std::time::Duration;
use vstd::prelude::*;

use super::parse;
use super::parse::Reading;
use super::validate;
#[allow(unused_imports)]
use super::ConfigView;
use super::{
    hard_max_close_timeout, hard_max_timeout, TaosConfig, TransportMode, TsPrecision,
    ENV_ACQUIRE_TIMEOUT_MS, ENV_BATCH_MAX_BYTES, ENV_BATCH_MAX_ROWS, ENV_CLOSE_TIMEOUT_MS,
    ENV_DATABASE, ENV_HOST, ENV_HOSTS, ENV_MAX_IN_FLIGHT, ENV_MAX_QUERY_ROWS,
    ENV_MAX_RESPONSE_BYTES, ENV_PORT, ENV_PRECISION, ENV_TIMEOUT_MS, ENV_TLS, ENV_TRANSPORT,
    ENV_USER, ENV_WRITE_MAX_ATTEMPTS, HARD_MAX_BATCH_BYTES, HARD_MAX_BATCH_ROWS,
    HARD_MAX_CLOSE_TIMEOUT_SECS, HARD_MAX_IN_FLIGHT, HARD_MAX_QUERY_ROWS, HARD_MAX_RESPONSE_BYTES,
    HARD_MAX_TIMEOUT_SECS, HARD_MAX_WRITE_MAX_ATTEMPTS,
};
use crate::client::sql;
use crate::duration;
use crate::error::{TaosError, TaosResult};
use crate::number;
use crate::text;

verus! {

/// The path that a text names.
pub uninterp spec fn path_of(text: Seq<char>) -> PathBuf;

/// `PathBuf::from(String)`.
#[verifier::external_body]
pub(crate) fn path_from(text: String) -> (r: PathBuf)
    ensures
        r == path_of(text@),
{
    PathBuf::from(text)
}

/// The values of the environment variables; `None` for one that is not set or not Unicode.
#[derive(Default)]
pub struct EnvVars {
    /// `FOUNDATIONX_TAOSX_HOST`
    pub host: Option<String>,
    /// `FOUNDATIONX_TAOSX_PORT`
    pub port: Option<String>,
    /// `FOUNDATIONX_TAOSX_DATABASE`
    pub database: Option<String>,
    /// `FOUNDATIONX_TAOSX_USER`
    pub user: Option<String>,
    /// `FOUNDATIONX_TAOSX_PASSWORD`
    pub password: Option<String>,
    /// `FOUNDATIONX_TAOSX_TLS`
    pub tls: Option<String>,
    /// `FOUNDATIONX_TAOSX_TLS_CA_FILE`
    pub tls_ca_file: Option<String>,
    /// `FOUNDATIONX_TAOSX_TIMEOUT_MS`
    pub timeout_ms: Option<String>,
    /// `FOUNDATIONX_TAOSX_PRECISION`
    pub precision: Option<String>,
    /// `FOUNDATIONX_TAOSX_TRANSPORT`
    pub transport: Option<String>,
    /// `FOUNDATIONX_TAOSX_MAX_IN_FLIGHT`
    pub max_in_flight: Option<String>,
    /// `FOUNDATIONX_TAOSX_ACQUIRE_TIMEOUT_MS`
    pub acquire_timeout_ms: Option<String>,
    /// `FOUNDATIONX_TAOSX_BATCH_MAX_ROWS`
    pub batch_max_rows: Option<String>,
    /// `FOUNDATIONX_TAOSX_BATCH_MAX_BYTES`
    pub batch_max_bytes: Option<String>,
    /// `FOUNDATIONX_TAOSX_MAX_RESPONSE_BYTES`
    pub max_response_bytes: Option<String>,
    /// `FOUNDATIONX_TAOSX_MAX_QUERY_ROWS`
    pub max_query_rows: Option<String>,
    /// `FOUNDATIONX_TAOSX_CLOSE_TIMEOUT_MS`
    pub close_timeout_ms: Option<String>,
    /// `FOUNDATIONX_TAOSX_HOSTS`
    pub hosts: Option<String>,
    /// `FOUNDATIONX_TAOSX_WRITE_MAX_ATTEMPTS`
    pub write_max_attempts: Option<String>,
}

// ---------------------------------------------------------------------------
// What the variables say
// ---------------------------------------------------------------------------

/// A precision; a blank value counts as absent.
pub open spec fn precision_reading(value: Option<Seq<char>>) -> Reading<TsPrecision> {
    match parse::non_blank(value) {
        None => Reading::Absent,
        Some(s) => match TsPrecision::named(s) {
            Some(p) => Reading::Value(p),
            None => Reading::Fault,
        },
    }
}

/// A transport mode; a blank value counts as absent.
pub open spec fn transport_reading(value: Option<Seq<char>>) -> Reading<TransportMode> {
    match parse::non_blank(value) {
        None => Reading::Absent,
        Some(s) => match TransportMode::named(s) {
            Some(t) => Reading::Value(t),
            None => Reading::Fault,
        },
    }
}

/// The value that was read, or another one.
pub open spec fn or_else<V>(reading: Reading<V>, other: V) -> V {
    match reading {
        Reading::Value(v) => v,
        _ => other,
    }
}

/// The time that was read in milliseconds, in nanoseconds, or another one.
pub open spec fn millis_or_else(reading: Reading<nat>, other: nat) -> nat {
    match reading {
        Reading::Value(ms) => ms * 1_000_000,
        _ => other,
    }
}

/// The size that was read, or another one.
pub open spec fn size_or_else(reading: Reading<nat>, other: usize) -> usize {
    match reading {
        Reading::Value(n) => n as usize,
        _ => other,
    }
}

/// The text that was read, or another one.
pub open spec fn text_or_else(reading: Option<Seq<char>>, other: Seq<char>) -> Seq<char> {
    match reading {
        Some(s) => s,
        None => other,
    }
}

/// The message for a variable with a value that is not valid. The value is not in it.
pub open spec fn env_message(name: Seq<char>) -> Seq<char> {
    "环境变量 "@ + name + " 取值非法"@
}

/// The message for a variable with a number out of its range: which variable, and which range. The
/// number is not in it.
pub open spec fn range_message(name: Seq<char>, range: Seq<char>) -> Seq<char> {
    env_message(name) + ": "@ + range
}

/// The message for a variable whose number is refused; `None` where it is not.
pub open spec fn range_refusal(name: Seq<char>, fault: Option<Seq<char>>) -> Option<Seq<char>> {
    match fault {
        Some(range) => Some(range_message(name, range)),
        None => None,
    }
}

impl ConfigView {
    /// The message for the first variable whose number is out of its range.
    pub open spec fn range_refused(self) -> Option<Seq<char>> {
        validate::either(
            range_refusal(
                ENV_MAX_IN_FLIGHT@,
                validate::range_fault("max_in_flight"@, self.max_in_flight, HARD_MAX_IN_FLIGHT),
            ),
            validate::either(
                range_refusal(
                    ENV_BATCH_MAX_ROWS@,
                    validate::range_fault(
                        "batch_max_rows"@,
                        self.batch_max_rows,
                        HARD_MAX_BATCH_ROWS,
                    ),
                ),
                validate::either(
                    range_refusal(
                        ENV_BATCH_MAX_BYTES@,
                        validate::range_fault(
                            "batch_max_bytes"@,
                            self.batch_max_bytes,
                            HARD_MAX_BATCH_BYTES,
                        ),
                    ),
                    validate::either(
                        range_refusal(
                            ENV_MAX_RESPONSE_BYTES@,
                            validate::range_fault(
                                "max_response_bytes"@,
                                self.max_response_bytes,
                                HARD_MAX_RESPONSE_BYTES,
                            ),
                        ),
                        range_refusal(
                            ENV_MAX_QUERY_ROWS@,
                            validate::range_fault(
                                "max_query_rows"@,
                                self.max_query_rows,
                                HARD_MAX_QUERY_ROWS,
                            ),
                        ),
                    ),
                ),
            ),
        )
    }

    /// The variable of the first other setting that is refused.
    pub open spec fn refused_variable(self) -> Option<Seq<char>> {
        let close_max = HARD_MAX_CLOSE_TIMEOUT_SECS as nat * 1_000_000_000;
        let max = HARD_MAX_TIMEOUT_SECS as nat * 1_000_000_000;
        if self.timeout == 0 {
            Some(ENV_TIMEOUT_MS@)
        } else if self.acquire_timeout == 0 {
            Some(ENV_ACQUIRE_TIMEOUT_MS@)
        } else if self.close_timeout == 0 || self.close_timeout > close_max {
            Some(ENV_CLOSE_TIMEOUT_MS@)
        } else if self.timeout > max {
            Some(ENV_TIMEOUT_MS@)
        } else if self.acquire_timeout > max {
            Some(ENV_ACQUIRE_TIMEOUT_MS@)
        } else if !parse::is_host(self.host) {
            Some(ENV_HOST@)
        } else if self.port == 0 {
            Some(ENV_PORT@)
        } else if validate::spare_fault(self.hosts) is Some {
            Some(ENV_HOSTS@)
        } else if self.write_max_attempts == 0 || self.write_max_attempts
            > HARD_MAX_WRITE_MAX_ATTEMPTS {
            Some(ENV_WRITE_MAX_ATTEMPTS@)
        } else if self.database.len() > 0 && sql::ident_fault(self.database) is Some {
            Some(ENV_DATABASE@)
        } else if text::trimmed(self.user).len() == 0 {
            Some(ENV_USER@)
        } else {
            None
        }
    }

    /// Why a configuration from variables is refused, without their values: the variable of a
    /// setting that is refused by itself, or what remote hosts and certificates ask of several
    /// settings. Only the host can keep an endpoint from being a URL.
    pub open spec fn env_refusal(self) -> Option<Seq<char>> {
        if self.range_refused() is Some {
            self.range_refused()
        } else {
            match self.refused_variable() {
                Some(name) => Some(env_message(name)),
                None => if self.security_fault() is Some {
                    self.security_fault()
                } else if self.endpoint_fault() is Some {
                    Some(env_message(ENV_HOST@))
                } else {
                    None
                },
            }
        }
    }
}

impl EnvVars {
    /// What the variable of the port says.
    pub open spec fn port_reading(self) -> Reading<nat> {
        parse::number_reading(parse::optional(self.port), u16::MAX as nat)
    }

    /// What the variable of TLS says.
    pub open spec fn tls_reading(self) -> Reading<bool> {
        parse::bool_reading(parse::optional(self.tls))
    }

    /// What a variable says that holds a number of milliseconds.
    pub open spec fn millis(value: Option<String>) -> Reading<nat> {
        parse::number_reading(parse::optional(value), u64::MAX as nat)
    }

    /// What a variable says that holds a size.
    pub open spec fn size(value: Option<String>) -> Reading<nat> {
        parse::number_reading(parse::optional(value), usize::MAX as nat)
    }

    /// What the variable of the write attempts says.
    pub open spec fn attempts_reading(self) -> Reading<nat> {
        parse::number_reading(parse::optional(self.write_max_attempts), u32::MAX as nat)
    }

    /// The first variable whose value is not valid, and how many variables are read before it.
    pub open spec fn first_fault(self) -> Option<(Seq<char>, nat)> {
        if self.port_reading() is Fault {
            Some((ENV_PORT@, 1))
        } else if self.tls_reading() is Fault {
            Some((ENV_TLS@, 5))
        } else if Self::millis(self.timeout_ms) is Fault {
            Some((ENV_TIMEOUT_MS@, 7))
        } else if precision_reading(parse::optional(self.precision)) is Fault {
            Some((ENV_PRECISION@, 8))
        } else if transport_reading(parse::optional(self.transport)) is Fault {
            Some((ENV_TRANSPORT@, 9))
        } else if Self::size(self.max_in_flight) is Fault {
            Some((ENV_MAX_IN_FLIGHT@, 10))
        } else if Self::millis(self.acquire_timeout_ms) is Fault {
            Some((ENV_ACQUIRE_TIMEOUT_MS@, 11))
        } else if Self::size(self.batch_max_rows) is Fault {
            Some((ENV_BATCH_MAX_ROWS@, 12))
        } else if Self::size(self.batch_max_bytes) is Fault {
            Some((ENV_BATCH_MAX_BYTES@, 13))
        } else if Self::size(self.max_response_bytes) is Fault {
            Some((ENV_MAX_RESPONSE_BYTES@, 14))
        } else if Self::size(self.max_query_rows) is Fault {
            Some((ENV_MAX_QUERY_ROWS@, 15))
        } else if Self::millis(self.close_timeout_ms) is Fault {
            Some((ENV_CLOSE_TIMEOUT_MS@, 16))
        } else if self.attempts_reading() is Fault {
            Some((ENV_WRITE_MAX_ATTEMPTS@, 18))
        } else {
            None
        }
    }

    /// The first variable whose value is not valid.
    pub open spec fn first_bad(self) -> Option<Seq<char>> {
        match self.first_fault() {
            Some((name, _)) => Some(name),
            None => None,
        }
    }

    /// A configuration with the variables' values in place of its own.
    pub open spec fn applied(self, c: ConfigView) -> ConfigView {
        ConfigView {
            host: text_or_else(parse::non_empty(parse::optional(self.host)), c.host),
            port: (match self.port_reading() {
                Reading::Value(n) => n as u16,
                _ => c.port,
            }),
            database: text_or_else(parse::non_empty(parse::optional(self.database)), c.database),
            user: text_or_else(parse::non_empty(parse::optional(self.user)), c.user),
            password: text_or_else(parse::optional(self.password), c.password),
            tls: or_else(self.tls_reading(), c.tls),
            tls_ca_file: (match parse::non_blank(parse::optional(self.tls_ca_file)) {
                Some(s) => Some(path_of(s)),
                None => c.tls_ca_file,
            }),
            timeout: millis_or_else(Self::millis(self.timeout_ms), c.timeout),
            precision: (match precision_reading(parse::optional(self.precision)) {
                Reading::Value(p) => Some(p),
                _ => c.precision,
            }),
            transport: or_else(transport_reading(parse::optional(self.transport)), c.transport),
            max_in_flight: size_or_else(Self::size(self.max_in_flight), c.max_in_flight),
            acquire_timeout: millis_or_else(
                Self::millis(self.acquire_timeout_ms),
                c.acquire_timeout,
            ),
            batch_max_rows: size_or_else(Self::size(self.batch_max_rows), c.batch_max_rows),
            batch_max_bytes: size_or_else(Self::size(self.batch_max_bytes), c.batch_max_bytes),
            max_response_bytes: size_or_else(
                Self::size(self.max_response_bytes),
                c.max_response_bytes,
            ),
            max_query_rows: size_or_else(Self::size(self.max_query_rows), c.max_query_rows),
            close_timeout: millis_or_else(Self::millis(self.close_timeout_ms), c.close_timeout),
            hosts: (match parse::non_blank(parse::optional(self.hosts)) {
                Some(s) => parse::list_entries(text::fields(s, ',')),
                None => c.hosts,
            }),
            write_max_attempts: (match self.attempts_reading() {
                Reading::Value(n) => if n == 0 {
                    1
                } else {
                    n as u32
                },
                _ => c.write_max_attempts,
            }),
        }
    }

    /// A configuration with the values of the first so many variables in place of its own.
    pub open spec fn applied_first(self, c: ConfigView, n: nat) -> ConfigView {
        let all = self.applied(c);
        ConfigView {
            host: if n > 0 {
                all.host
            } else {
                c.host
            },
            port: if n > 1 {
                all.port
            } else {
                c.port
            },
            database: if n > 2 {
                all.database
            } else {
                c.database
            },
            user: if n > 3 {
                all.user
            } else {
                c.user
            },
            password: if n > 4 {
                all.password
            } else {
                c.password
            },
            tls: if n > 5 {
                all.tls
            } else {
                c.tls
            },
            tls_ca_file: if n > 6 {
                all.tls_ca_file
            } else {
                c.tls_ca_file
            },
            timeout: if n > 7 {
                all.timeout
            } else {
                c.timeout
            },
            precision: if n > 8 {
                all.precision
            } else {
                c.precision
            },
            transport: if n > 9 {
                all.transport
            } else {
                c.transport
            },
            max_in_flight: if n > 10 {
                all.max_in_flight
            } else {
                c.max_in_flight
            },
            acquire_timeout: if n > 11 {
                all.acquire_timeout
            } else {
                c.acquire_timeout
            },
            batch_max_rows: if n > 12 {
                all.batch_max_rows
            } else {
                c.batch_max_rows
            },
            batch_max_bytes: if n > 13 {
                all.batch_max_bytes
            } else {
                c.batch_max_bytes
            },
            max_response_bytes: if n > 14 {
                all.max_response_bytes
            } else {
                c.max_response_bytes
            },
            max_query_rows: if n > 15 {
                all.max_query_rows
            } else {
                c.max_query_rows
            },
            close_timeout: if n > 16 {
                all.close_timeout
            } else {
                c.close_timeout
            },
            hosts: if n > 17 {
                all.hosts
            } else {
                c.hosts
            },
            write_max_attempts: if n > 18 {
                all.write_max_attempts
            } else {
                c.write_max_attempts
            },
        }
    }

    /// What a configuration from the variables is, or why there is none.
    pub open spec fn config(self) -> Result<ConfigView, Seq<char>> {
        match self.first_bad() {
            Some(name) => Err(env_message(name)),
            None => {
                let c = self.applied(ConfigView::defaults());
                match c.env_refusal() {
                    Some(m) => Err(m),
                    None => Ok(c),
                }
            },
        }
    }
}

/// A variable of which an error can speak.
pub open spec fn is_reported(name: Seq<char>) -> bool {
    ||| name == ENV_HOST@
    ||| name == ENV_PORT@
    ||| name == ENV_DATABASE@
    ||| name == ENV_USER@
    ||| name == ENV_TLS@
    ||| name == ENV_TIMEOUT_MS@
    ||| name == ENV_PRECISION@
    ||| name == ENV_TRANSPORT@
    ||| name == ENV_MAX_IN_FLIGHT@
    ||| name == ENV_ACQUIRE_TIMEOUT_MS@
    ||| name == ENV_BATCH_MAX_ROWS@
    ||| name == ENV_BATCH_MAX_BYTES@
    ||| name == ENV_MAX_RESPONSE_BYTES@
    ||| name == ENV_MAX_QUERY_ROWS@
    ||| name == ENV_CLOSE_TIMEOUT_MS@
    ||| name == ENV_HOSTS@
    ||| name == ENV_WRITE_MAX_ATTEMPTS@
}

/// The range of a setting, as an error words it.
pub open spec fn range_text(setting: Seq<char>, max: usize) -> Seq<char> {
    setting + " 必须为 1..="@ + number::decimal(max as int)
}

/// A variable that holds a number, and the range of that number.
pub open spec fn is_range(name: Seq<char>, range: Seq<char>) -> bool {
    ||| name == ENV_MAX_IN_FLIGHT@ && range == range_text("max_in_flight"@, HARD_MAX_IN_FLIGHT)
    ||| name == ENV_BATCH_MAX_ROWS@ && range == range_text("batch_max_rows"@, HARD_MAX_BATCH_ROWS)
    ||| name == ENV_BATCH_MAX_BYTES@ && range == range_text(
        "batch_max_bytes"@,
        HARD_MAX_BATCH_BYTES,
    )
    ||| name == ENV_MAX_RESPONSE_BYTES@ && range == range_text(
        "max_response_bytes"@,
        HARD_MAX_RESPONSE_BYTES,
    )
    ||| name == ENV_MAX_QUERY_ROWS@ && range == range_text("max_query_rows"@, HARD_MAX_QUERY_ROWS)
}

/// One of the messages that a configuration from variables can fail with. There are finitely many,
/// and no value of a variable has a part in them.
pub open spec fn is_env_error(m: Seq<char>) -> bool {
    ||| exists|name: Seq<char>| #[trigger] is_reported(name) && m == env_message(name)
    ||| exists|name: Seq<char>, range: Seq<char>| #[trigger]
        is_range(name, range) && m == range_message(name, range)
    ||| m == "配置 tls_ca_file 时必须启用 tls"@
    ||| m == "远程 TDengine 必须使用 TLS"@
    ||| m == "远程 TDengine 必须配置认证密码"@
}

// ---------------------------------------------------------------------------
// Reading them
// ---------------------------------------------------------------------------

fn bad(name: &str) -> (r: TaosError)
    ensures
        r matches TaosError::Config(m) && m@ == env_message(name@),
{
    let mut m = String::from("环境变量 ");
    text::push_text(&mut m, name);
    text::push_text(&mut m, " 取值非法");
    TaosError::Config(m)
}

fn out_of_range(name: &str, range: Option<String>) -> (r: Option<String>)
    ensures
        parse::optional(r) == range_refusal(name@, parse::optional(range)),
{
    match range {
        Some(range) => {
            let mut m = String::from("环境变量 ");
            text::push_text(&mut m, name);
            text::push_text(&mut m, " 取值非法");
            text::push_text(&mut m, ": ");
            text::push_text(&mut m, range.as_str());
            Some(m)
        },
        None => None,
    }
}

fn read_precision(value: &Option<String>) -> (r: Reading<TsPrecision>)
    ensures
        r == precision_reading(parse::optional(*value)),
{
    match parse::env_trimmed(value) {
        None => Reading::Absent,
        Some(s) => match TsPrecision::parse(s.as_str()) {
            Some(p) => Reading::Value(p),
            None => Reading::Fault,
        },
    }
}

fn read_transport(value: &Option<String>) -> (r: Reading<TransportMode>)
    ensures
        r == transport_reading(parse::optional(*value)),
{
    match parse::env_trimmed(value) {
        None => Reading::Absent,
        Some(s) => match TransportMode::parse(s.as_str()) {
            Some(t) => Reading::Value(t),
            None => Reading::Fault,
        },
    }
}

fn bad_number(value: &Option<String>, max: u64) -> (r: bool)
    ensures
        r == (parse::number_reading(parse::optional(*value), max as nat) is Fault),
{
    match parse::env_parsed(value, max) {
        Reading::Fault => true,
        _ => false,
    }
}

fn bad_size(value: &Option<String>) -> (r: bool)
    ensures
        r == (EnvVars::size(*value) is Fault),
{
    bad_number(value, usize::MAX as u64)
}

fn bad_millis(value: &Option<String>) -> (r: bool)
    ensures
        r == (EnvVars::millis(*value) is Fault),
{
    bad_number(value, u64::MAX)
}

fn bad_bool(value: &Option<String>) -> (r: bool)
    ensures
        r == (parse::bool_reading(parse::optional(*value)) is Fault),
{
    match parse::env_bool(value) {
        Reading::Fault => true,
        _ => false,
    }
}

fn bad_precision(value: &Option<String>) -> (r: bool)
    ensures
        r == (precision_reading(parse::optional(*value)) is Fault),
{
    match read_precision(value) {
        Reading::Fault => true,
        _ => false,
    }
}

fn bad_transport(value: &Option<String>) -> (r: bool)
    ensures
        r == (transport_reading(parse::optional(*value)) is Fault),
{
    match read_transport(value) {
        Reading::Fault => true,
        _ => false,
    }
}

fn text_or(value: Option<String>, other: &String) -> (r: String)
    ensures
        r@ == text_or_else(parse::optional(value), other@),
{
    match value {
        Some(s) => s,
        None => other.clone(),
    }
}

fn size_or(value: &Option<String>, other: usize) -> (r: usize)
    ensures
        r == size_or_else(EnvVars::size(*value), other),
{
    match parse::env_parsed(value, usize::MAX as u64) {
        Reading::Value(n) => n as usize,
        _ => other,
    }
}

fn millis_or(value: &Option<String>, other: Duration) -> (r: Duration)
    ensures
        duration::nanos(r) == millis_or_else(EnvVars::millis(*value), duration::nanos(other)),
{
    match parse::env_parsed(value, u64::MAX) {
        Reading::Value(n) => Duration::from_millis(n),
        _ => other,
    }
}

impl EnvVars {
    fn port_or(&self, other: u16) -> (r: u16)
        ensures
            r == (match self.port_reading() {
                Reading::Value(n) => n as u16,
                _ => other,
            }),
    {
        match parse::env_parsed(&self.port, 0xffff) {
            Reading::Value(n) => n as u16,
            _ => other,
        }
    }

    fn tls_or(&self, other: bool) -> (r: bool)
        ensures
            r == or_else(self.tls_reading(), other),
    {
        match parse::env_bool(&self.tls) {
            Reading::Value(b) => b,
            _ => other,
        }
    }

    fn tls_ca_file_or(&self, other: &Option<PathBuf>) -> (r: Option<PathBuf>)
        ensures
            r == (match parse::non_blank(parse::optional(self.tls_ca_file)) {
                Some(s) => Some(path_of(s)),
                None => *other,
            }),
    {
        match parse::env_trimmed(&self.tls_ca_file) {
            Some(s) => Some(path_from(s)),
            None => match other {
                Some(path) => Some(path.clone()),
                None => None,
            },
        }
    }

    fn precision_or(&self, other: Option<TsPrecision>) -> (r: Option<TsPrecision>)
        ensures
            r == (match precision_reading(parse::optional(self.precision)) {
                Reading::Value(p) => Some(p),
                _ => other,
            }),
    {
        match read_precision(&self.precision) {
            Reading::Value(p) => Some(p),
            _ => other,
        }
    }

    fn transport_or(&self, other: TransportMode) -> (r: TransportMode)
        ensures
            r == or_else(transport_reading(parse::optional(self.transport)), other),
    {
        match read_transport(&self.transport) {
            Reading::Value(t) => t,
            _ => other,
        }
    }

    fn hosts_or(&self, other: &Vec<String>) -> (r: Vec<String>)
        ensures
            super::texts(r@) == (match parse::non_blank(parse::optional(self.hosts)) {
                Some(s) => parse::list_entries(text::fields(s, ',')),
                None => super::texts(other@),
            }),
    {
        match parse::env_trimmed(&self.hosts) {
            Some(s) => parse::env_list(s.as_str()),
            None => {
                let same: Vec<String> = other.clone();
                assert(super::texts(same@) =~= super::texts(other@));
                same
            },
        }
    }

    fn attempts_or(&self, other: u32) -> (r: u32)
        ensures
            r == (match self.attempts_reading() {
                Reading::Value(n) => if n == 0 {
                    1
                } else {
                    n as u32
                },
                _ => other,
            }),
    {
        match parse::env_parsed(&self.write_max_attempts, 0xffff_ffff) {
            Reading::Value(n) => if n == 0 {
                1
            } else {
                n as u32
            },
            _ => other,
        }
    }
}

impl TaosConfig {
    /// Puts the variables' values in place of the configuration's own, one after the other. Where a
    /// value is not valid, the error names its variable, without the value; the values of the
    /// variables before it are in place, and the others are not.
    pub fn apply_env_overrides(&mut self, env: &EnvVars) -> (r: TaosResult<()>)
        ensures
            match r {
                Ok(_) => env.first_fault() is None && final(self)@ == env.applied(old(self)@),
                Err(TaosError::Config(m)) => env.first_fault() matches Some((name, before)) && m@
                    == env_message(name) && final(self)@ == env.applied_first(old(self)@, before),
                Err(_) => false,
            },
    {
        self.host = text_or(parse::env_non_empty(&env.host), &self.host);
        if bad_number(&env.port, 0xffff) {
            return Err(bad(ENV_PORT));
        }
        self.port = env.port_or(self.port);
        self.database = text_or(parse::env_non_empty(&env.database), &self.database);
        self.user = text_or(parse::env_non_empty(&env.user), &self.user);
        self.password = text_or(env.password.clone(), &self.password);
        if bad_bool(&env.tls) {
            return Err(bad(ENV_TLS));
        }
        self.tls = env.tls_or(self.tls);
        self.tls_ca_file = env.tls_ca_file_or(&self.tls_ca_file);
        if bad_millis(&env.timeout_ms) {
            return Err(bad(ENV_TIMEOUT_MS));
        }
        self.timeout = millis_or(&env.timeout_ms, self.timeout);
        if bad_precision(&env.precision) {
            return Err(bad(ENV_PRECISION));
        }
        self.precision = env.precision_or(self.precision);
        if bad_transport(&env.transport) {
            return Err(bad(ENV_TRANSPORT));
        }
        self.transport = env.transport_or(self.transport);
        if bad_size(&env.max_in_flight) {
            return Err(bad(ENV_MAX_IN_FLIGHT));
        }
        self.max_in_flight = size_or(&env.max_in_flight, self.max_in_flight);
        if bad_millis(&env.acquire_timeout_ms) {
            return Err(bad(ENV_ACQUIRE_TIMEOUT_MS));
        }
        self.acquire_timeout = millis_or(&env.acquire_timeout_ms, self.acquire_timeout);
        if bad_size(&env.batch_max_rows) {
            return Err(bad(ENV_BATCH_MAX_ROWS));
        }
        self.batch_max_rows = size_or(&env.batch_max_rows, self.batch_max_rows);
        if bad_size(&env.batch_max_bytes) {
            return Err(bad(ENV_BATCH_MAX_BYTES));
        }
        self.batch_max_bytes = size_or(&env.batch_max_bytes, self.batch_max_bytes);
        if bad_size(&env.max_response_bytes) {
            return Err(bad(ENV_MAX_RESPONSE_BYTES));
        }
        self.max_response_bytes = size_or(&env.max_response_bytes, self.max_response_bytes);
        if bad_size(&env.max_query_rows) {
            return Err(bad(ENV_MAX_QUERY_ROWS));
        }
        self.max_query_rows = size_or(&env.max_query_rows, self.max_query_rows);
        if bad_millis(&env.close_timeout_ms) {
            return Err(bad(ENV_CLOSE_TIMEOUT_MS));
        }
        self.close_timeout = millis_or(&env.close_timeout_ms, self.close_timeout);
        self.hosts = env.hosts_or(&self.hosts);
        if bad_number(&env.write_max_attempts, 0xffff_ffff) {
            return Err(bad(ENV_WRITE_MAX_ATTEMPTS));
        }
        self.write_max_attempts = env.attempts_or(self.write_max_attempts);
        Ok(())
    }

    /// Why the first number that is out of its range is refused.
    fn refused_range(&self) -> (r: Option<String>)
        ensures
            parse::optional(r) == self@.range_refused(),
    {
        validate::first(
            out_of_range(
                ENV_MAX_IN_FLIGHT,
                validate::out_of_range("max_in_flight", self.max_in_flight, HARD_MAX_IN_FLIGHT),
            ),
            validate::first(
                out_of_range(
                    ENV_BATCH_MAX_ROWS,
                    validate::out_of_range(
                        "batch_max_rows",
                        self.batch_max_rows,
                        HARD_MAX_BATCH_ROWS,
                    ),
                ),
                validate::first(
                    out_of_range(
                        ENV_BATCH_MAX_BYTES,
                        validate::out_of_range(
                            "batch_max_bytes",
                            self.batch_max_bytes,
                            HARD_MAX_BATCH_BYTES,
                        ),
                    ),
                    validate::first(
                        out_of_range(
                            ENV_MAX_RESPONSE_BYTES,
                            validate::out_of_range(
                                "max_response_bytes",
                                self.max_response_bytes,
                                HARD_MAX_RESPONSE_BYTES,
                            ),
                        ),
                        out_of_range(
                            ENV_MAX_QUERY_ROWS,
                            validate::out_of_range(
                                "max_query_rows",
                                self.max_query_rows,
                                HARD_MAX_QUERY_ROWS,
                            ),
                        ),
                    ),
                ),
            ),
        )
    }

    /// The variable of the first other setting that is refused.
    fn refused_setting(&self) -> (r: Option<&'static str>)
        ensures
            match r {
                Some(name) => self@.refused_variable() == Some(name@),
                None => self@.refused_variable() is None,
            },
    {
        let close_max: u128 = hard_max_close_timeout().as_nanos();
        let max: u128 = hard_max_timeout().as_nanos();
        let timeout: u128 = self.timeout.as_nanos();
        let acquire: u128 = self.acquire_timeout.as_nanos();
        let close: u128 = self.close_timeout.as_nanos();
        if timeout == 0 {
            Some(ENV_TIMEOUT_MS)
        } else if acquire == 0 {
            Some(ENV_ACQUIRE_TIMEOUT_MS)
        } else if close == 0 || close > close_max {
            Some(ENV_CLOSE_TIMEOUT_MS)
        } else if timeout > max {
            Some(ENV_TIMEOUT_MS)
        } else if acquire > max {
            Some(ENV_ACQUIRE_TIMEOUT_MS)
        } else if !parse::valid_host(self.host.as_str()) {
            Some(ENV_HOST)
        } else if self.port == 0 {
            Some(ENV_PORT)
        } else if self.spare_hosts().is_some() {
            Some(ENV_HOSTS)
        } else if self.write_max_attempts == 0 || self.write_max_attempts
            > HARD_MAX_WRITE_MAX_ATTEMPTS {
            Some(ENV_WRITE_MAX_ATTEMPTS)
        } else if !self.database.as_str().is_empty() && !parse::valid_ident(
            self.database.as_str(),
        ) {
            Some(ENV_DATABASE)
        } else if text::trim(self.user.as_str()).as_str().is_empty() {
            Some(ENV_USER)
        } else {
            None
        }
    }

    /// A configuration from the variables' values, and defaults for those that are not set. It
    /// has passed [`TaosConfig::validate`]. Where a value is not valid, the error names its
    /// variable; no value is in any error.
    pub fn from_env(env: &EnvVars) -> (r: TaosResult<Self>)
        ensures
            match r {
                Ok(config) => env.config() == Ok::<ConfigView, Seq<char>>(config@),
                Err(TaosError::Config(m)) => env.config() == Err::<ConfigView, Seq<char>>(m@),
                Err(_) => false,
            },
    {
        let mut config = TaosConfig::default();
        match config.apply_env_overrides(env) {
            Ok(_) => {},
            Err(e) => {
                return Err(e);
            },
        }
        match config.refused_range() {
            Some(m) => {
                return Err(TaosError::Config(m));
            },
            None => {},
        }
        match config.refused_setting() {
            Some(name) => {
                return Err(bad(name));
            },
            None => {},
        }
        match config.security() {
            Some(m) => {
                return Err(TaosError::Config(m));
            },
            None => {},
        }
        proof {
            law_environment_is_held_to_the_same_rules(config@);
        }
        match config.validate() {
            Ok(_) => Ok(config),
            Err(_) => Err(bad(ENV_HOST)),
        }
    }
}

// ---------------------------------------------------------------------------
// Laws
// ---------------------------------------------------------------------------

/// A configuration from variables is refused exactly where the configuration does not pass.
pub proof fn law_environment_is_held_to_the_same_rules(config: ConfigView)
    ensures
        (config.env_refusal() is None) == (config.fault() is None),
{
}

/// No error of a configuration from variables repeats the value of one: whatever they hold, the
/// message is one of a fixed few, which name a variable or say what several settings have to meet.
pub proof fn law_environment_errors_repeat_no_value(env: EnvVars)
    ensures
        env.config() matches Err(m) ==> is_env_error(m),
{
    let c = env.applied(ConfigView::defaults());
    match env.first_bad() {
        Some(name) => {
            assert(is_reported(name));
        },
        None => {
            assert(is_reported(ENV_HOST@));
            match c.refused_variable() {
                Some(name) => {
                    assert(is_reported(name));
                },
                None => {},
            }
            assert(is_range(
                ENV_MAX_IN_FLIGHT@,
                range_text("max_in_flight"@, HARD_MAX_IN_FLIGHT),
            ));
            assert(is_range(
                ENV_BATCH_MAX_ROWS@,
                range_text("batch_max_rows"@, HARD_MAX_BATCH_ROWS),
            ));
            assert(is_range(
                ENV_BATCH_MAX_BYTES@,
                range_text("batch_max_bytes"@, HARD_MAX_BATCH_BYTES),
            ));
            assert(is_range(
                ENV_MAX_RESPONSE_BYTES@,
                range_text("max_response_bytes"@, HARD_MAX_RESPONSE_BYTES),
            ));
            assert(is_range(
                ENV_MAX_QUERY_ROWS@,
                range_text("max_query_rows"@, HARD_MAX_QUERY_ROWS),
            ));
        },
    }
}

/// Variables that are not set change nothing.
pub proof fn law_no_variables_change_nothing(env: EnvVars, config: ConfigView)
    requires
        env.host is None,
        env.port is None,
        env.database is None,
        env.user is None,
        env.password is None,
        env.tls is None,
        env.tls_ca_file is None,
        env.timeout_ms is None,
        env.precision is None,
        env.transport is None,
        env.max_in_flight is None,
        env.acquire_timeout_ms is None,
        env.batch_max_rows is None,
        env.batch_max_bytes is None,
        env.max_response_bytes is None,
        env.max_query_rows is None,
        env.close_timeout_ms is None,
        env.hosts is None,
        env.write_max_attempts is None,
    ensures
        env.first_bad() is None,
        env.applied(config) == config,
{
}

/// Applying none of the variables changes nothing, and applying the first nineteen applies all.
pub proof fn law_first_variables_are_none_or_all(env: EnvVars, config: ConfigView)
    ensures
        env.applied_first(config, 0) == config,
        env.applied_first(config, 19) == env.applied(config),
{
}

/// Applying the same variables twice is applying them once.
pub proof fn law_variables_apply_once(env: EnvVars, config: ConfigView)
    ensures
        env.applied(env.applied(config)) == env.applied(config),
{
}

/// A variable holds a number in decimal notation.
pub open spec fn says(value: Option<String>, n: nat) -> bool {
    parse::optional(value) == Some(number::decimal(n as int))
}

/// A variable that holds a number sets the setting of its name to that number, up to the greatest
/// that the setting can hold; a time is given in milliseconds, and no attempt at a write counts as
/// one.
pub proof fn law_numbers_set_their_settings(env: EnvVars, c: ConfigView, n: nat)
    ensures
        ({
            let after = env.applied(c);
            &&& says(env.port, n) && n <= u16::MAX ==> after.port == n
            &&& says(env.max_in_flight, n) && n <= usize::MAX ==> after.max_in_flight == n
            &&& says(env.batch_max_rows, n) && n <= usize::MAX ==> after.batch_max_rows == n
            &&& says(env.batch_max_bytes, n) && n <= usize::MAX ==> after.batch_max_bytes == n
            &&& says(env.max_response_bytes, n) && n <= usize::MAX ==> after.max_response_bytes == n
            &&& says(env.max_query_rows, n) && n <= usize::MAX ==> after.max_query_rows == n
            &&& says(env.timeout_ms, n) && n <= u64::MAX ==> after.timeout == n * 1_000_000
            &&& says(env.acquire_timeout_ms, n) && n <= u64::MAX ==> after.acquire_timeout == n
                * 1_000_000
            &&& says(env.close_timeout_ms, n) && n <= u64::MAX ==> after.close_timeout == n * 1_000_000
            &&& says(env.write_max_attempts, n) && n <= u32::MAX ==> after.write_max_attempts == (
            if n == 0 {
                1
            } else {
                n
            })
        }),
{
    parse::law_numbers_read_back(n, u16::MAX as nat);
    parse::law_numbers_read_back(n, u32::MAX as nat);
    parse::law_numbers_read_back(n, u64::MAX as nat);
    parse::law_numbers_read_back(n, usize::MAX as nat);
}

/// A variable that holds a text sets the setting of its name. The host, the database and the user
/// are taken as they are where they are not empty, the password even where it is; a path, a
/// precision, a transport mode and a list of hosts are taken without the white space around them.
pub proof fn law_texts_set_their_settings(env: EnvVars, c: ConfigView, s: Seq<char>)
    requires
        text::trimmed(s).len() > 0,
    ensures
        parse::optional(env.host) == Some(s) ==> env.applied(c).host == s,
        parse::optional(env.database) == Some(s) ==> env.applied(c).database == s,
        parse::optional(env.user) == Some(s) ==> env.applied(c).user == s,
        parse::optional(env.password) == Some(s) ==> env.applied(c).password == s,
        parse::optional(env.password) == Some(Seq::<char>::empty()) ==> env.applied(
            c,
        ).password.len() == 0,
        parse::optional(env.tls_ca_file) == Some(s) ==> env.applied(c).tls_ca_file == Some(
            path_of(text::trimmed(s)),
        ),
        parse::optional(env.precision) == Some(s) && TsPrecision::named(text::trimmed(s)) is Some
            ==> env.applied(c).precision == TsPrecision::named(text::trimmed(s)),
        parse::optional(env.transport) == Some(s) && TransportMode::named(text::trimmed(s)) is Some
            ==> env.applied(c).transport == TransportMode::named(text::trimmed(s))->0,
        parse::optional(env.tls) == Some(s) && parse::bool_reading(Some(s)) is Value
            ==> env.applied(c).tls == parse::bool_reading(Some(s))->Value_0,
        parse::optional(env.hosts) == Some(s) ==> env.applied(c).hosts == parse::list_entries(
            text::fields(text::trimmed(s), ','),
        ),
{
    let (a, b) = text::law_trimming_takes_white_space_off_the_ends(s);
    assert(s.len() > 0);
}

/// A variable that is not set leaves its setting alone, whatever the others hold.
pub proof fn law_absent_variables_set_nothing(env: EnvVars, c: ConfigView)
    ensures
        env.host is None ==> env.applied(c).host == c.host,
        env.port is None ==> env.applied(c).port == c.port,
        env.database is None ==> env.applied(c).database == c.database,
        env.user is None ==> env.applied(c).user == c.user,
        env.password is None ==> env.applied(c).password == c.password,
        env.tls is None ==> env.applied(c).tls == c.tls,
        env.tls_ca_file is None ==> env.applied(c).tls_ca_file == c.tls_ca_file,
        env.timeout_ms is None ==> env.applied(c).timeout == c.timeout,
        env.precision is None ==> env.applied(c).precision == c.precision,
        env.transport is None ==> env.applied(c).transport == c.transport,
        env.max_in_flight is None ==> env.applied(c).max_in_flight == c.max_in_flight,
        env.acquire_timeout_ms is None ==> env.applied(c).acquire_timeout == c.acquire_timeout,
        env.batch_max_rows is None ==> env.applied(c).batch_max_rows == c.batch_max_rows,
        env.batch_max_bytes is None ==> env.applied(c).batch_max_bytes == c.batch_max_bytes,
        env.max_response_bytes is None ==> env.applied(c).max_response_bytes == c.max_response_bytes,
        env.max_query_rows is None ==> env.applied(c).max_query_rows == c.max_query_rows,
        env.close_timeout_ms is None ==> env.applied(c).close_timeout == c.close_timeout,
        env.hosts is None ==> env.applied(c).hosts == c.hosts,
        env.write_max_attempts is None ==> env.applied(c).write_max_attempts == c.write_max_attempts,
{
}

/// The names of the variables, by their place in the order in which they are read.
pub open spec fn variable(i: int) -> Seq<char> {
    if i == 0 {
        "FOUNDATIONX_TAOSX_HOST"@
    } else if i == 1 {
        "FOUNDATIONX_TAOSX_PORT"@
    } else if i == 2 {
        "FOUNDATIONX_TAOSX_DATABASE"@
    } else if i == 3 {
        "FOUNDATIONX_TAOSX_USER"@
    } else if i == 4 {
        "FOUNDATIONX_TAOSX_PASSWORD"@
    } else if i == 5 {
        "FOUNDATIONX_TAOSX_TLS"@
    } else if i == 6 {
        "FOUNDATIONX_TAOSX_TLS_CA_FILE"@
    } else if i == 7 {
        "FOUNDATIONX_TAOSX_TIMEOUT_MS"@
    } else if i == 8 {
        "FOUNDATIONX_TAOSX_PRECISION"@
    } else if i == 9 {
        "FOUNDATIONX_TAOSX_TRANSPORT"@
    } else if i == 10 {
        "FOUNDATIONX_TAOSX_MAX_IN_FLIGHT"@
    } else if i == 11 {
        "FOUNDATIONX_TAOSX_ACQUIRE_TIMEOUT_MS"@
    } else if i == 12 {
        "FOUNDATIONX_TAOSX_BATCH_MAX_ROWS"@
    } else if i == 13 {
        "FOUNDATIONX_TAOSX_BATCH_MAX_BYTES"@
    } else if i == 14 {
        "FOUNDATIONX_TAOSX_MAX_RESPONSE_BYTES"@
    } else if i == 15 {
        "FOUNDATIONX_TAOSX_MAX_QUERY_ROWS"@
    } else if i == 16 {
        "FOUNDATIONX_TAOSX_CLOSE_TIMEOUT_MS"@
    } else if i == 17 {
        "FOUNDATIONX_TAOSX_HOSTS"@
    } else {
        "FOUNDATIONX_TAOSX_WRITE_MAX_ATTEMPTS"@
    }
}

/// The value of a variable cannot be read as what its setting is.
pub open spec fn is_unreadable(env: EnvVars, i: int) -> bool {
    let number = |value: Option<String>, max: nat|
        parse::number_reading(parse::optional(value), max) is Fault;
    ||| i == 1 && number(env.port, u16::MAX as nat)
    ||| i == 5 && parse::bool_reading(parse::optional(env.tls)) is Fault
    ||| i == 7 && number(env.timeout_ms, u64::MAX as nat)
    ||| i == 8 && precision_reading(parse::optional(env.precision)) is Fault
    ||| i == 9 && transport_reading(parse::optional(env.transport)) is Fault
    ||| i == 10 && number(env.max_in_flight, usize::MAX as nat)
    ||| i == 11 && number(env.acquire_timeout_ms, u64::MAX as nat)
    ||| i == 12 && number(env.batch_max_rows, usize::MAX as nat)
    ||| i == 13 && number(env.batch_max_bytes, usize::MAX as nat)
    ||| i == 14 && number(env.max_response_bytes, usize::MAX as nat)
    ||| i == 15 && number(env.max_query_rows, usize::MAX as nat)
    ||| i == 16 && number(env.close_timeout_ms, u64::MAX as nat)
    ||| i == 18 && number(env.write_max_attempts, u32::MAX as nat)
}

/// A value that cannot be read is reported under the name of its variable, and the first one in the
/// order of the variables is: those before it were read. None is reported where all can be read.
pub proof fn law_unreadable_variables_are_named(env: EnvVars)
    ensures
        match env.first_fault() {
            Some((name, i)) => {
                &&& i < 19
                &&& is_unreadable(env, i as int)
                &&& name == variable(i as int)
                &&& forall|k: int| k < i ==> !#[trigger] is_unreadable(env, k)
            },
            None => forall|k: int| !#[trigger] is_unreadable(env, k),
        },
{
}

/// A setting is wrong by itself.
#[verifier::opaque]
pub open spec fn is_wrong(c: ConfigView, i: int) -> bool {
    ||| i == 0 && !parse::is_host(c.host)
    ||| i == 1 && c.port == 0
    ||| i == 2 && c.database.len() > 0 && sql::ident_fault(c.database) is Some
    ||| i == 3 && text::trimmed(c.user).len() == 0
    ||| i == 7 && !(0 < c.timeout <= 3_600_000_000_000)
    ||| i == 11 && !(0 < c.acquire_timeout <= 3_600_000_000_000)
    ||| i == 16 && !(0 < c.close_timeout <= 30_000_000_000)
    ||| i == 17 && validate::spare_fault(c.hosts) is Some
    ||| i == 18 && !(1 <= c.write_max_attempts <= 10)
}

/// A setting that is refused is reported under the name of its variable, and only where that setting
/// is wrong itself; where one is wrong, one is reported.
pub proof fn law_refused_settings_are_named(c: ConfigView) -> (i: int)
    ensures
        c.refused_variable() matches Some(name) ==> name == variable(i) && is_wrong(c, i),
        c.refused_variable() is None ==> forall|k: int| !#[trigger] is_wrong(c, k),
{
    reveal(is_wrong);
    let host = parse::is_host(c.host);
    let spare = validate::spare_fault(c.hosts) is Some;
    let named = c.database.len() == 0 || sql::ident_fault(c.database) is None;
    if c.timeout == 0 {
        7
    } else if c.acquire_timeout == 0 {
        11
    } else if !(0 < c.close_timeout <= 30_000_000_000) {
        16
    } else if c.timeout > 3_600_000_000_000 {
        7
    } else if c.acquire_timeout > 3_600_000_000_000 {
        11
    } else if !host {
        0
    } else if c.port == 0 {
        1
    } else if spare {
        17
    } else if !(1 <= c.write_max_attempts <= 10) {
        18
    } else if !named {
        2
    } else {
        3
    }
}

/// A message with a variable in it, which ends with a setting and its range.
pub open spec fn names_range(
    message: Option<Seq<char>>,
    variable: Seq<char>,
    setting: Seq<char>,
    max: int,
) -> bool {
    &&& message is Some
    &&& text::holds(message->0, seq![' '] + variable + seq![' '])
    &&& (setting + " 必须为 1..="@ + number::decimal(max)).is_suffix_of(message->0)
}

/// A number out of its range is reported under the name of its variable, with the setting and the
/// range: where one number alone is out of its range, the message is about that one.
pub proof fn law_refused_numbers_are_named(c: ConfigView)
    ensures
        ({
            let a = 1 <= c.max_in_flight <= 1_024;
            let b = 1 <= c.batch_max_rows <= 10_000;
            let r = 1 <= c.batch_max_bytes <= 8_388_608;
            let d = 1 <= c.max_response_bytes <= 67_108_864;
            let e = 1 <= c.max_query_rows <= 100_000;
            &&& (c.range_refused() is None) == (a && b && r && d && e)
            &&& !a && b && r && d && e ==> names_range(
                c.range_refused(),
                "FOUNDATIONX_TAOSX_MAX_IN_FLIGHT"@,
                "max_in_flight"@,
                1_024,
            )
            &&& a && !b && r && d && e ==> names_range(
                c.range_refused(),
                "FOUNDATIONX_TAOSX_BATCH_MAX_ROWS"@,
                "batch_max_rows"@,
                10_000,
            )
            &&& a && b && !r && d && e ==> names_range(
                c.range_refused(),
                "FOUNDATIONX_TAOSX_BATCH_MAX_BYTES"@,
                "batch_max_bytes"@,
                8_388_608,
            )
            &&& a && b && r && !d && e ==> names_range(
                c.range_refused(),
                "FOUNDATIONX_TAOSX_MAX_RESPONSE_BYTES"@,
                "max_response_bytes"@,
                67_108_864,
            )
            &&& a && b && r && d && !e ==> names_range(
                c.range_refused(),
                "FOUNDATIONX_TAOSX_MAX_QUERY_ROWS"@,
                "max_query_rows"@,
                100_000,
            )
        }),
{
    if !(1 <= c.max_in_flight <= 1_024) {
        lemma_range_message(
            "FOUNDATIONX_TAOSX_MAX_IN_FLIGHT"@,
            "max_in_flight"@,
            c.max_in_flight,
            1_024,
        );
    }
    if !(1 <= c.batch_max_rows <= 10_000) {
        lemma_range_message(
            "FOUNDATIONX_TAOSX_BATCH_MAX_ROWS"@,
            "batch_max_rows"@,
            c.batch_max_rows,
            10_000,
        );
    }
    if !(1 <= c.batch_max_bytes <= 8_388_608) {
        lemma_range_message(
            "FOUNDATIONX_TAOSX_BATCH_MAX_BYTES"@,
            "batch_max_bytes"@,
            c.batch_max_bytes,
            8_388_608,
        );
    }
    if !(1 <= c.max_response_bytes <= 67_108_864) {
        lemma_range_message(
            "FOUNDATIONX_TAOSX_MAX_RESPONSE_BYTES"@,
            "max_response_bytes"@,
            c.max_response_bytes,
            67_108_864,
        );
    }
    if !(1 <= c.max_query_rows <= 100_000) {
        lemma_range_message(
            "FOUNDATIONX_TAOSX_MAX_QUERY_ROWS"@,
            "max_query_rows"@,
            c.max_query_rows,
            100_000,
        );
    }
}

proof fn lemma_range_message(name: Seq<char>, setting: Seq<char>, value: usize, max: usize)
    requires
        value < 1 || value > max,
    ensures
        names_range(
            range_refusal(name, validate::range_fault(setting, value, max)),
            name,
            setting,
            max as int,
        ),
{
    reveal_strlit("环境变量 ");
    reveal_strlit("环境变量");
    reveal_strlit(" 取值非法");
    reveal_strlit("取值非法");
    let m = range_refusal(name, validate::range_fault(setting, value, max))->0;
    let range = setting + " 必须为 1..="@ + number::decimal(max as int);
    text::lemma_holds(
        m,
        "环境变量"@,
        seq![' '] + name + seq![' '],
        "取值非法"@ + ": "@ + range,
    );
    assert(m.subrange(m.len() - range.len(), m.len() as int) =~= range);
}

/// Numbers are looked at first, then the other settings by themselves, then what remote hosts and
/// certificates ask of several, and last whether the endpoints are URLs: an earlier fault decides
/// alone, and a setting that is refused by itself is reported with nothing but its variable.
pub proof fn law_refusals_have_an_order(c: ConfigView)
    ensures
        c.range_refused() is Some ==> c.env_refusal() == c.range_refused(),
        c.range_refused() is None && c.refused_variable() is Some ==> c.env_refusal() == Some(
            "环境变量 "@ + c.refused_variable()->0 + " 取值非法"@,
        ),
        c.range_refused() is None && c.refused_variable() is None && c.security_fault() is Some
            ==> c.env_refusal() == c.security_fault(),
        c.range_refused() is None && c.refused_variable() is None && c.security_fault() is None
            && c.endpoint_fault() is Some ==> c.env_refusal() == Some(
            "环境变量 "@ + "FOUNDATIONX_TAOSX_HOST"@ + " 取值非法"@,
        ),
{
}

/// The variables are applied one after the other, each to its setting: the next one changes its own
/// setting and no other.
pub proof fn law_variables_are_applied_one_by_one(env: EnvVars, c: ConfigView, n: nat)
    ensures
        ({
            let now = env.applied_first(c, n);
            let next = env.applied_first(c, n + 1);
            let all = env.applied(c);
            &&& n == 0 ==> next == (ConfigView { host: all.host, ..now })
            &&& n == 1 ==> next == (ConfigView { port: all.port, ..now })
            &&& n == 2 ==> next == (ConfigView { database: all.database, ..now })
            &&& n == 3 ==> next == (ConfigView { user: all.user, ..now })
            &&& n == 4 ==> next == (ConfigView { password: all.password, ..now })
            &&& n == 5 ==> next == (ConfigView { tls: all.tls, ..now })
            &&& n == 6 ==> next == (ConfigView { tls_ca_file: all.tls_ca_file, ..now })
            &&& n == 7 ==> next == (ConfigView { timeout: all.timeout, ..now })
            &&& n == 8 ==> next == (ConfigView { precision: all.precision, ..now })
            &&& n == 9 ==> next == (ConfigView { transport: all.transport, ..now })
            &&& n == 10 ==> next == (ConfigView { max_in_flight: all.max_in_flight, ..now })
            &&& n == 11 ==> next == (ConfigView { acquire_timeout: all.acquire_timeout, ..now })
            &&& n == 12 ==> next == (ConfigView { batch_max_rows: all.batch_max_rows, ..now })
            &&& n == 13 ==> next == (ConfigView { batch_max_bytes: all.batch_max_bytes, ..now })
            &&& n == 14 ==> next == (ConfigView { max_response_bytes: all.max_response_bytes, ..now })
            &&& n == 15 ==> next == (ConfigView { max_query_rows: all.max_query_rows, ..now })
            &&& n == 16 ==> next == (ConfigView { close_timeout: all.close_timeout, ..now })
            &&& n == 17 ==> next == (ConfigView { hosts: all.hosts, ..now })
            &&& n == 18 ==> next == (ConfigView { write_max_attempts: all.write_max_attempts, ..now })
            &&& n >= 19 ==> next == now
        }),
{
}

/// What the variables make of the configuration that nothing was set in: it is handed out exactly
/// where every value can be read and the whole passes.
pub proof fn law_environment_gives_what_passes(env: EnvVars)
    ensures
        (env.config() is Ok) == (env.first_bad() is None && env.applied(
            ConfigView::defaults(),
        ).fault() is None),
        env.config() matches Ok(c) ==> c == env.applied(ConfigView::defaults()),
        env.first_bad() matches Some(name) ==> env.config() == Err::<ConfigView, Seq<char>>(
            "环境变量 "@ + name + " 取值非法"@,
        ),
{
    law_environment_is_held_to_the_same_rules(env.applied(ConfigView::defaults()));
}

} // verus!
