//! The state of the pool: who may send a request, what is counted, and what a reply comes to.
//!
//! The pool itself sends nothing. Whoever drives it asks before a request and tells it what came
//! back.

use vstd::prelude::*;

use super::response;
use super::response::{JsonFault, RawResponse};
#[allow(unused_imports)]
use super::types::ExecView;
use super::types::{TaosExecResult, TaosHealth, TaosPoolStats};
use crate::config;
use crate::config::render;
#[allow(unused_imports)]
use crate::config::ConfigView;
use crate::config::{TaosConfig, TsPrecision};
use crate::error;
#[allow(unused_imports)]
use crate::error::ErrorView;
use crate::error::{TaosError, TaosResult};
use crate::metrics;
use crate::metrics::{OpCounters, TaosMetricsSnapshot};
use crate::number;
use crate::text;

verus! {

/// What asks the server for a sign of life.
pub const PING_SQL: &'static str = "SELECT SERVER_VERSION()";

/// The state of a pool.
pub struct TaosPool {
    config: TaosConfig,
    precision: TsPrecision,
    in_flight: usize,
    closed: bool,
    metrics: OpCounters,
}

/// A [`TaosPool`] by its values.
#[verifier::ext_equal]
pub struct PoolView {
    pub config: ConfigView,
    pub precision: TsPrecision,
    pub in_flight: usize,
    pub closed: bool,
    pub metrics: TaosMetricsSnapshot,
}

impl View for TaosPool {
    type V = PoolView;

    closed spec fn view(&self) -> PoolView {
        PoolView {
            config: self.config@,
            precision: self.precision,
            in_flight: self.in_flight,
            closed: self.closed,
            metrics: self.metrics@,
        }
    }
}

/// How the wait for a permit ended.
#[derive(Debug, Clone, Copy, PartialEq, Eq, Structural)]
pub enum Permit {
    /// A permit was granted.
    Granted,
    /// There are no more permits: the pool was closed.
    Closed,
    /// No permit came in time.
    TimedOut,
}

/// The error of a closed pool.
pub open spec fn closed_error() -> ErrorView {
    ErrorView::Closed("pool 已关闭"@)
}

/// What becomes of a request after its wait for a permit; `None` where it may go on. A permit
/// beyond the limit counts as none.
pub open spec fn permit_error(pool: PoolView, permit: Permit) -> Option<ErrorView> {
    match permit {
        Permit::Granted => if pool.closed {
            Some(closed_error())
        } else if pool.in_flight == usize::MAX {
            Some(ErrorView::Config("in-flight 计数溢出"@))
        } else if pool.in_flight >= pool.config.max_in_flight {
            Some(no_permit_error(pool.config.max_in_flight))
        } else {
            None
        },
        Permit::Closed => Some(ErrorView::Closed("背压信号量已关闭"@)),
        Permit::TimedOut => Some(no_permit_error(pool.config.max_in_flight)),
    }
}

/// The error for a request that found no permit free.
pub open spec fn no_permit_error(max: usize) -> ErrorView {
    ErrorView::Timeout("获取 in-flight 许可超时（max="@ + number::decimal(max as int) + "）"@)
}

/// The error for SQL that is too long.
pub open spec fn sql_too_long(max: usize) -> ErrorView {
    ErrorView::Invalid(
        "SQL 请求超过 batch_max_bytes="@ + number::decimal(max as int) + " 字节"@,
    )
}

/// The error for a result with too many rows.
pub open spec fn rows_over(label: Seq<char>, max: usize) -> ErrorView {
    ErrorView::Unavailable(label + "超过 max_query_rows="@ + number::decimal(max as int))
}

impl PoolView {
    /// The pool as text: where it leads and how it stands, without credentials.
    pub open spec fn rendered(self) -> Seq<char> {
        "TaosPool { host: "@ + render::quoted_text(self.config.host) + ", port: "@
            + number::decimal(self.config.port as int) + ", database: "@ + render::quoted_text(
            self.config.database,
        ) + ", transport: "@ + render::transport_text(self.config.transport) + ", precision: "@
            + render::precision_text(self.precision) + ", stats: TaosPoolStats { in_flight: "@
            + number::decimal(self.in_flight as int) + ", closed: "@ + render::bool_text(
            self.closed,
        ) + " } }"@
    }
}

/// What a parsed response comes to, held to the most rows.
pub open spec fn accepted(
    parsed: Result<RawResponse, JsonFault>,
    max_rows: usize,
) -> Result<ExecView, ErrorView> {
    match parsed {
        Err(fault) => Err(response::json_error(fault)),
        Ok(raw) => match raw@.outcome() {
            Err(e) => Err(e),
            Ok(result) => if result.rows.len() > max_rows {
                Err(rows_over("SQL 结果"@, max_rows))
            } else {
                Ok(result)
            },
        },
    }
}

/// What an answered request comes to: an error for a status that is none of the 2xx ones, whatever
/// the response holds, and otherwise what the response comes to.
pub open spec fn answered(
    status: u16,
    parsed: Result<RawResponse, JsonFault>,
    max_rows: usize,
) -> Result<ExecView, ErrorView> {
    if 200 <= status <= 299 {
        accepted(parsed, max_rows)
    } else {
        Err(error::error_of_status(status, "响应正文已省略"@))
    }
}

/// What a reply to a ping comes to.
pub open spec fn ping_error(reply: TaosResult<TaosExecResult>) -> Option<ErrorView> {
    match reply {
        Ok(result) => if result.code == 0 {
            None
        } else {
            Some(ErrorView::Unavailable("ping code="@ + number::decimal(result.code as int)))
        },
        Err(e) => Some(e@),
    }
}

/// The explanation of a health check.
pub open spec fn health_detail(reply: TaosResult<TaosExecResult>) -> Seq<char> {
    match reply {
        Ok(result) => if result.code == 0 {
            "就绪"@
        } else {
            "ping code="@ + number::decimal(result.code as int)
        },
        Err(e) => "不可用: "@ + e@.display(),
    }
}

/// The request succeeded with the code for success.
pub open spec fn is_success(reply: TaosResult<TaosExecResult>) -> bool {
    reply matches Ok(result) && result.code == 0
}

/// The error for a request that was not answered.
pub fn send_error(timed_out: bool, reason: &str) -> (r: TaosError)
    ensures
        r@ == (if timed_out {
            ErrorView::Timeout("请求超时: "@ + reason@)
        } else {
            ErrorView::Connection("请求失败: "@ + reason@)
        }),
{
    if timed_out {
        let mut m = String::from("请求超时: ");
        text::push_text(&mut m, reason);
        TaosError::Timeout(m)
    } else {
        let mut m = String::from("请求失败: ");
        text::push_text(&mut m, reason);
        TaosError::Connection(m)
    }
}

/// The error for a response that broke off.
pub fn read_error(reason: &str) -> (r: TaosError)
    ensures
        r@ == ErrorView::Connection("读响应失败: "@ + reason@),
{
    let mut m = String::from("读响应失败: ");
    text::push_text(&mut m, reason);
    TaosError::Connection(m)
}

/// Refuses a response whose status is none of the 2xx ones. The response itself does not enter
/// the message: it may hold credentials.
pub fn check_status(status: u16) -> (r: TaosResult<()>)
    ensures
        match r {
            Ok(_) => 200 <= status <= 299,
            Err(e) => !(200 <= status <= 299) && e@ == error::error_of_status(
                status,
                "响应正文已省略"@,
            ),
        },
{
    if 200 <= status && status <= 299 {
        Ok(())
    } else {
        Err(TaosError::from_http_status(status, "响应正文已省略"))
    }
}

fn ping_code(code: i32) -> (r: String)
    ensures
        r@ == "ping code="@ + number::decimal(code as int),
{
    let mut m = String::from("ping code=");
    text::push_text(&mut m, number::decimal_i64(code as i64).as_str());
    m
}

impl TaosPool {
    /// An open pool without requests, where the configuration passes.
    pub fn new(config: TaosConfig) -> (r: TaosResult<Self>)
        ensures
            match r {
                Ok(pool) => config@.fault() is None && pool@ == (PoolView {
                    config: config@,
                    precision: match config.precision {
                        Some(p) => p,
                        None => TsPrecision::Ms,
                    },
                    in_flight: 0,
                    closed: false,
                    metrics: TaosMetricsSnapshot::zero(),
                }),
                Err(TaosError::Config(m)) => config@.fault() == Some(m@),
                Err(_) => false,
            },
    {
        match config.validate() {
            Ok(_) => {},
            Err(e) => {
                return Err(e);
            },
        }
        let precision = match config.precision {
            Some(p) => p,
            None => TsPrecision::Ms,
        };
        Ok(TaosPool { config, precision, in_flight: 0, closed: false, metrics: OpCounters::new() })
    }

    /// The configuration.
    #[must_use]
    pub fn config(&self) -> (r: &TaosConfig)
        ensures
            r@ == self@.config,
    {
        &self.config
    }

    /// The precision of time stamps in use.
    #[must_use]
    pub fn precision(&self) -> (r: TsPrecision)
        ensures
            r == self@.precision,
    {
        self.precision
    }

    /// Takes the precision that the database reports.
    pub fn set_precision(&mut self, precision: TsPrecision)
        ensures
            final(self)@ == (PoolView { precision, ..old(self)@ }),
    {
        self.precision = precision;
    }

    /// The pool as text: where it leads and how it stands, without credentials.
    #[must_use]
    pub fn to_debug_string(&self) -> (r: String)
        ensures
            r@ == self@.rendered(),
    {
        let mut out = String::from("TaosPool { host: ");
        text::push_text(&mut out, render::quoted(self.config.host.as_str()).as_str());
        text::push_text(&mut out, ", port: ");
        text::push_text(&mut out, number::decimal_u64(self.config.port as u64).as_str());
        text::push_text(&mut out, ", database: ");
        text::push_text(&mut out, render::quoted(self.config.database.as_str()).as_str());
        text::push_text(&mut out, ", transport: ");
        text::push_text(&mut out, render::transport_str(self.config.transport));
        text::push_text(&mut out, ", precision: ");
        text::push_text(&mut out, render::precision_str(self.precision));
        text::push_text(&mut out, ", stats: TaosPoolStats { in_flight: ");
        text::push_text(&mut out, number::decimal_usize(self.in_flight).as_str());
        text::push_text(&mut out, ", closed: ");
        render::push_bool(&mut out, self.closed);
        text::push_text(&mut out, " } }");
        out
    }

    /// Requests under way, and whether the pool is closed.
    #[must_use]
    pub fn stats(&self) -> (r: TaosPoolStats)
        ensures
            r == (TaosPoolStats { in_flight: self@.in_flight, closed: self@.closed }),
    {
        TaosPoolStats { in_flight: self.in_flight, closed: self.closed }
    }

    /// The counters, with those of the process' WebSocket sessions.
    #[must_use]
    pub fn metrics(&self, probes: (u64, u64)) -> (r: TaosMetricsSnapshot)
        ensures
            r == (TaosMetricsSnapshot {
                ws_probe_ok: probes.0,
                ws_probe_err: probes.1,
                ..self@.metrics
            }),
    {
        self.metrics.snapshot(probes)
    }

    /// The counters in Prometheus' text format.
    #[must_use]
    pub fn metrics_prometheus(&self, probes: (u64, u64)) -> (r: String)
        ensures
            r@ == (TaosMetricsSnapshot {
                ws_probe_ok: probes.0,
                ws_probe_err: probes.1,
                ..self@.metrics
            }).prometheus(),
    {
        self.metrics(probes).to_prometheus_text()
    }

    /// Whether the pool is closed.
    #[must_use]
    pub fn is_closed(&self) -> (r: bool)
        ensures
            r == self@.closed,
    {
        self.closed
    }

    /// Whether the pool takes requests. The network is not asked.
    #[must_use]
    pub fn liveness(&self) -> (r: bool)
        ensures
            r == !self@.closed,
    {
        !self.is_closed()
    }

    /// Refuses where the pool is closed.
    pub fn ensure_open(&self) -> (r: TaosResult<()>)
        ensures
            match r {
                Ok(_) => !self@.closed,
                Err(e) => self@.closed && e@ == closed_error(),
            },
    {
        if self.is_closed() {
            return Err(TaosError::Closed(String::from("pool 已关闭")));
        }
        Ok(())
    }

    /// Admits a request after its wait for a permit, and counts it as under way.
    pub fn acquire(&mut self, permit: Permit) -> (r: TaosResult<()>)
        ensures
            match r {
                Ok(_) => permit_error(old(self)@, permit) is None && final(self)@
                    == old(self)@.entered() && final(self)@.is_within_limit(),
                Err(e) => permit_error(old(self)@, permit) == Some(e@) && final(self)@
                    == old(self)@,
            },
    {
        match permit {
            Permit::Granted => {
                if self.closed {
                    return Err(TaosError::Closed(String::from("pool 已关闭")));
                }
                if self.in_flight == usize::MAX {
                    return Err(TaosError::Config(String::from("in-flight 计数溢出")));
                }
                if self.in_flight >= self.config.max_in_flight {
                    return Err(self.no_permit());
                }
                self.in_flight = self.in_flight + 1;
                Ok(())
            },
            Permit::Closed => Err(TaosError::Closed(String::from("背压信号量已关闭"))),
            Permit::TimedOut => Err(self.no_permit()),
        }
    }

    fn no_permit(&self) -> (r: TaosError)
        ensures
            r@ == no_permit_error(self@.config.max_in_flight),
    {
        let mut m = String::from("获取 in-flight 许可超时（max=");
        text::push_text(&mut m, number::decimal_usize(self.config.max_in_flight).as_str());
        text::push_text(&mut m, "）");
        TaosError::Timeout(m)
    }

    /// Counts a request as done; says whether it was the last one under way.
    pub fn release(&mut self) -> (r: bool)
        requires
            old(self)@.in_flight > 0,
        ensures
            final(self)@ == old(self)@.left(),
            r == (old(self)@.in_flight == 1),
    {
        let last = self.in_flight == 1;
        self.in_flight = self.in_flight - 1;
        last
    }

    /// Closes the pool. What is under way goes on; nothing new starts.
    pub fn close(&mut self)
        ensures
            final(self)@ == (PoolView { closed: true, ..old(self)@ }),
    {
        self.closed = true;
    }

    /// Whether no request is under way.
    #[must_use]
    pub fn is_drained(&self) -> (r: bool)
        ensures
            r == (self@.in_flight == 0),
    {
        self.in_flight == 0
    }

    /// What closing comes to: an error where requests were still under way when its time was up.
    pub fn close_outcome(drained: bool) -> (r: TaosResult<()>)
        ensures
            match r {
                Ok(_) => drained,
                Err(e) => !drained && e@ == ErrorView::Timeout("close 等待在途请求排空超时"@),
            },
    {
        if drained {
            Ok(())
        } else {
            Err(TaosError::Timeout(String::from("close 等待在途请求排空超时")))
        }
    }

    // -----------------------------------------------------------------------
    // One request
    // -----------------------------------------------------------------------

    /// Refuses SQL that is too long, and counts the bytes of SQL that is not.
    pub fn begin_sql(&mut self, sql: &str) -> (r: TaosResult<()>)
        ensures
            match r {
                Ok(_) => text::byte_len(sql@) <= old(self)@.config.batch_max_bytes
                    && final(self)@ == old(self)@.sent(text::byte_len(sql@) as int),
                Err(e) => text::byte_len(sql@) > old(self)@.config.batch_max_bytes && e@
                    == sql_too_long(old(self)@.config.batch_max_bytes) && final(self)@
                    == old(self)@.counted_sql(false),
            },
    {
        let bytes: usize = text::bytes_of(sql);
        if bytes > self.config.batch_max_bytes {
            self.metrics.inc_sql_err();
            let mut m = String::from("SQL 请求超过 batch_max_bytes=");
            text::push_text(&mut m, number::decimal_usize(self.config.batch_max_bytes).as_str());
            text::push_text(&mut m, " 字节");
            return Err(TaosError::Invalid(m));
        }
        self.metrics.add_sql_bytes(bytes);
        Ok(())
    }

    /// Where a request goes.
    #[must_use]
    pub fn request_url(&self, use_database: bool) -> (r: String)
        ensures
            r@ == (if use_database {
                self@.config.rest_db_url()
            } else {
                self@.config.rest_url()
            }),
    {
        if use_database {
            self.config.rest_sql_db_url()
        } else {
            self.config.rest_sql_url()
        }
    }

    /// Counts the bytes of a response.
    pub fn received(&mut self, bytes: usize)
        ensures
            final(self)@ == old(self)@.received(bytes as int),
    {
        self.metrics.add_response_bytes(bytes);
    }

    /// What the response comes to: its result within the most rows, or an error.
    pub fn accept_response(&self, parsed: Result<RawResponse, JsonFault>) -> (r: TaosResult<
        TaosExecResult,
    >)
        ensures
            match r {
                Ok(result) => accepted(parsed, self@.config.max_query_rows) == Ok::<
                    ExecView,
                    ErrorView,
                >(result@),
                Err(e) => accepted(parsed, self@.config.max_query_rows) == Err::<
                    ExecView,
                    ErrorView,
                >(e@),
            },
    {
        let result = match response::parse_taos_json(parsed) {
            Ok(result) => result,
            Err(e) => {
                return Err(e);
            },
        };
        if result.rows.len() > self.config.max_query_rows {
            let mut m = String::from("SQL 结果");
            text::push_text(&mut m, "超过 max_query_rows=");
            text::push_text(&mut m, number::decimal_usize(self.config.max_query_rows).as_str());
            return Err(TaosError::Unavailable(m));
        }
        Ok(result)
    }

    /// What an answered request comes to: the error of its status, or what the response comes to.
    pub fn answer(&self, status: u16, parsed: Result<RawResponse, JsonFault>) -> (r: TaosResult<
        TaosExecResult,
    >)
        ensures
            match r {
                Ok(result) => answered(status, parsed, self@.config.max_query_rows) == Ok::<
                    ExecView,
                    ErrorView,
                >(result@),
                Err(e) => answered(status, parsed, self@.config.max_query_rows) == Err::<
                    ExecView,
                    ErrorView,
                >(e@),
            },
    {
        match check_status(status) {
            Ok(_) => self.accept_response(parsed),
            Err(e) => Err(e),
        }
    }

    /// Counts a request as succeeded or failed.
    pub fn end_sql(&mut self, ok: bool)
        ensures
            final(self)@ == old(self)@.counted_sql(ok),
    {
        if ok {
            self.metrics.inc_sql_ok();
        } else {
            self.metrics.inc_sql_err();
        }
    }

    /// Counts a batch as written or failed.
    pub fn end_write(&mut self, ok: bool)
        ensures
            final(self)@ == old(self)@.counted_write(ok),
    {
        if ok {
            self.metrics.inc_write_ok();
        } else {
            self.metrics.inc_write_err();
        }
    }

    /// Counts a series query as succeeded or failed.
    pub fn end_query(&mut self, ok: bool)
        ensures
            final(self)@ == old(self)@.counted_query(ok),
    {
        if ok {
            self.metrics.inc_query_ok();
        } else {
            self.metrics.inc_query_err();
        }
    }

    // -----------------------------------------------------------------------
    // Ping and health
    // -----------------------------------------------------------------------

    /// What a ping comes to, given the reply to [`PING_SQL`].
    pub fn ping(&mut self, reply: TaosResult<TaosExecResult>) -> (r: TaosResult<()>)
        ensures
            match r {
                Ok(_) => ping_error(reply) is None,
                Err(e) => ping_error(reply) == Some(e@),
            },
            final(self)@ == old(self)@.counted_ping(is_success(reply)),
    {
        match reply {
            Ok(result) => {
                if result.code == 0 {
                    self.metrics.inc_ping_ok();
                    Ok(())
                } else {
                    self.metrics.inc_ping_err();
                    Err(TaosError::Unavailable(ping_code(result.code)))
                }
            },
            Err(e) => {
                self.metrics.inc_ping_err();
                Err(e)
            },
        }
    }

    /// Starts a health check. A closed pool is not ready, and the network is not asked; an open
    /// one goes on with the reply to [`PING_SQL`].
    pub fn health_start(&mut self, probes: (u64, u64)) -> (r: Option<TaosHealth>)
        ensures
            match r {
                Some(health) => old(self)@.closed && final(self)@ == old(self)@.counted_health(
                    false,
                ) && !health.ready && health.precision == old(self)@.precision
                    && health.server_version is None && health.stats == (TaosPoolStats {
                    in_flight: old(self)@.in_flight,
                    closed: true,
                }) && health.metrics == final(self)@.with_probes(probes) && health.detail@
                    == "池已关闭"@,
                None => !old(self)@.closed && final(self)@ == old(self)@,
            },
    {
        if !self.closed {
            return None;
        }
        let stats = self.stats();
        self.metrics.inc_health_not_ready();
        Some(
            TaosHealth {
                ready: false,
                precision: self.precision,
                server_version: None,
                stats,
                metrics: self.metrics(probes),
                detail: String::from("池已关闭"),
            },
        )
    }

    /// What a health check of an open pool comes to, given the reply to [`PING_SQL`] and the
    /// precision that was in use when it was sent.
    pub fn health_check(
        &mut self,
        precision: TsPrecision,
        reply: TaosResult<TaosExecResult>,
        probes: (u64, u64),
    ) -> (r: TaosHealth)
        ensures
            r.ready == is_success(reply),
            r.precision == precision,
            config::parse::optional(r.server_version) == (if is_success(reply) {
                reply->Ok_0@.first_cell()
            } else {
                None
            }),
            r.stats == (TaosPoolStats { in_flight: old(self)@.in_flight, closed: old(self)@.closed }),
            r.detail@ == health_detail(reply),
            final(self)@ == old(self)@.counted_ping(is_success(reply)).counted_health(
                is_success(reply),
            ),
            r.metrics == final(self)@.with_probes(probes),
    {
        match reply {
            Ok(result) => {
                if result.code == 0 {
                    self.metrics.inc_ping_ok();
                    self.metrics.inc_health_ready();
                    let server_version = match result.first_cell() {
                        Some(s) => Some(s.clone()),
                        None => None,
                    };
                    TaosHealth {
                        ready: true,
                        precision,
                        server_version,
                        stats: self.stats(),
                        metrics: self.metrics(probes),
                        detail: String::from("就绪"),
                    }
                } else {
                    self.metrics.inc_ping_err();
                    self.metrics.inc_health_not_ready();
                    TaosHealth {
                        ready: false,
                        precision,
                        server_version: None,
                        stats: self.stats(),
                        metrics: self.metrics(probes),
                        detail: ping_code(result.code),
                    }
                }
            },
            Err(e) => {
                self.metrics.inc_ping_err();
                self.metrics.inc_health_not_ready();
                let mut detail = String::from("不可用: ");
                text::push_text(&mut detail, e.to_string().as_str());
                TaosHealth {
                    ready: false,
                    precision,
                    server_version: None,
                    stats: self.stats(),
                    metrics: self.metrics(probes),
                    detail,
                }
            },
        }
    }
}

impl PoolView {
    /// The pool with one more request under way.
    pub open spec fn entered(self) -> PoolView {
        PoolView { in_flight: (self.in_flight + 1) as usize, ..self }
    }

    /// The pool with one request less under way.
    pub open spec fn left(self) -> PoolView {
        PoolView { in_flight: (self.in_flight - 1) as usize, ..self }
    }

    /// The pool with so many more bytes of SQL counted.
    pub open spec fn sent(self, bytes: int) -> PoolView {
        PoolView {
            metrics: TaosMetricsSnapshot {
                sql_bytes: metrics::more(self.metrics.sql_bytes, bytes),
                ..self.metrics
            },
            ..self
        }
    }

    /// The pool with so many more bytes of responses counted.
    pub open spec fn received(self, bytes: int) -> PoolView {
        PoolView {
            metrics: TaosMetricsSnapshot {
                response_bytes: metrics::more(self.metrics.response_bytes, bytes),
                ..self.metrics
            },
            ..self
        }
    }

    /// The pool with one more SQL request counted.
    pub open spec fn counted_sql(self, ok: bool) -> PoolView {
        PoolView {
            metrics: if ok {
                TaosMetricsSnapshot { sql_ok: metrics::more(self.metrics.sql_ok, 1), ..self.metrics }
            } else {
                TaosMetricsSnapshot {
                    sql_err: metrics::more(self.metrics.sql_err, 1),
                    ..self.metrics
                }
            },
            ..self
        }
    }

    /// The pool with one more batch counted.
    pub open spec fn counted_write(self, ok: bool) -> PoolView {
        PoolView {
            metrics: if ok {
                TaosMetricsSnapshot {
                    write_ok: metrics::more(self.metrics.write_ok, 1),
                    ..self.metrics
                }
            } else {
                TaosMetricsSnapshot {
                    write_err: metrics::more(self.metrics.write_err, 1),
                    ..self.metrics
                }
            },
            ..self
        }
    }

    /// The pool with one more series query counted.
    pub open spec fn counted_query(self, ok: bool) -> PoolView {
        PoolView {
            metrics: if ok {
                TaosMetricsSnapshot {
                    query_ok: metrics::more(self.metrics.query_ok, 1),
                    ..self.metrics
                }
            } else {
                TaosMetricsSnapshot {
                    query_err: metrics::more(self.metrics.query_err, 1),
                    ..self.metrics
                }
            },
            ..self
        }
    }

    /// The pool with one more ping counted.
    pub open spec fn counted_ping(self, ok: bool) -> PoolView {
        PoolView {
            metrics: if ok {
                TaosMetricsSnapshot {
                    ping_ok: metrics::more(self.metrics.ping_ok, 1),
                    ..self.metrics
                }
            } else {
                TaosMetricsSnapshot {
                    ping_err: metrics::more(self.metrics.ping_err, 1),
                    ..self.metrics
                }
            },
            ..self
        }
    }

    /// The pool with one more health check counted.
    pub open spec fn counted_health(self, ready: bool) -> PoolView {
        PoolView {
            metrics: if ready {
                TaosMetricsSnapshot {
                    health_ready: metrics::more(self.metrics.health_ready, 1),
                    ..self.metrics
                }
            } else {
                TaosMetricsSnapshot {
                    health_not_ready: metrics::more(self.metrics.health_not_ready, 1),
                    ..self.metrics
                }
            },
            ..self
        }
    }

    /// The counters, with those of the process' WebSocket sessions.
    pub open spec fn with_probes(self, probes: (u64, u64)) -> TaosMetricsSnapshot {
        TaosMetricsSnapshot { ws_probe_ok: probes.0, ws_probe_err: probes.1, ..self.metrics }
    }
}

// ---------------------------------------------------------------------------
// Laws
// ---------------------------------------------------------------------------

/// A closed pool admits no request, however the wait for a permit ended.
pub proof fn law_closed_pool_admits_nothing(pool: PoolView, permit: Permit)
    requires
        pool.closed,
    ensures
        permit_error(pool, permit) is Some,
{
}

/// What can happen to the number of requests under way.
pub enum PoolEvent {
    /// A wait for a permit ended.
    Acquire(Permit),
    /// A request is done.
    Release,
    /// The pool is closed.
    Close,
}

impl PoolView {
    /// No more requests are under way than the configuration allows.
    pub open spec fn is_within_limit(self) -> bool {
        self.in_flight <= self.config.max_in_flight
    }

    /// The pool after an event: as [`TaosPool::acquire`], [`TaosPool::release`] and
    /// [`TaosPool::close`] leave it. Only what is under way can be done.
    pub open spec fn after_event(self, event: PoolEvent) -> PoolView {
        match event {
            PoolEvent::Acquire(permit) => if permit_error(self, permit) is None {
                self.entered()
            } else {
                self
            },
            PoolEvent::Release => if self.in_flight > 0 {
                self.left()
            } else {
                self
            },
            PoolEvent::Close => PoolView { closed: true, ..self },
        }
    }

    /// The pool after some events.
    pub open spec fn after_events(self, events: Seq<PoolEvent>) -> PoolView
        decreases events.len(),
    {
        if events.len() == 0 {
            self
        } else {
            self.after_events(events.drop_last()).after_event(events.last())
        }
    }
}

/// There are never more requests under way than the configuration allows: not in a new pool, and
/// not after any requests were admitted and done, in any order and however their waits ended. A
/// request that is refused leaves the number as it was.
pub proof fn law_in_flight_stays_within_limit(pool: PoolView, events: Seq<PoolEvent>)
    requires
        pool.is_within_limit(),
    ensures
        pool.after_events(events).is_within_limit(),
        pool.after_events(events).config == pool.config,
    decreases events.len(),
{
    if events.len() > 0 {
        law_in_flight_stays_within_limit(pool, events.drop_last());
    }
}

/// A request is admitted exactly where the pool is open, a permit was granted and the limit is not
/// reached; then there is one more under way, and otherwise as many as before.
pub proof fn law_admission_needs_a_free_permit(pool: PoolView, permit: Permit)
    ensures
        (permit_error(pool, permit) is None) == (!pool.closed && permit == Permit::Granted
            && pool.in_flight < pool.config.max_in_flight),
        pool.after_event(PoolEvent::Acquire(permit)).in_flight == pool.in_flight + (if permit_error(
            pool,
            permit,
        ) is None {
            1int
        } else {
            0int
        }),
{
}

/// A request that was admitted and then released leaves the pool as it was.
pub proof fn law_release_undoes_acquire(pool: PoolView, permit: Permit)
    requires
        permit_error(pool, permit) is None,
    ensures
        pool.entered().in_flight > 0,
        pool.entered().left() == pool,
{
}

/// A request from its first byte to its end, whatever it came to, leaves nothing behind but its
/// counts: the bytes that were sent, the bytes that came, and one success or one failure.
pub proof fn law_request_leaves_only_its_counts(
    pool: PoolView,
    permit: Permit,
    sent: int,
    received: int,
    ok: bool,
)
    requires
        permit_error(pool, permit) is None,
    ensures
        pool.sent(sent).entered().received(received).counted_sql(ok).left() == (PoolView {
            metrics: TaosMetricsSnapshot {
                sql_bytes: metrics::more(pool.metrics.sql_bytes, sent),
                response_bytes: metrics::more(pool.metrics.response_bytes, received),
                sql_ok: if ok {
                    metrics::more(pool.metrics.sql_ok, 1)
                } else {
                    pool.metrics.sql_ok
                },
                sql_err: if ok {
                    pool.metrics.sql_err
                } else {
                    metrics::more(pool.metrics.sql_err, 1)
                },
                ..pool.metrics
            },
            ..pool
        }),
{
}

/// Counting changes nothing but counters: neither whether the pool is closed, nor what is under
/// way, nor its configuration.
pub proof fn law_counting_changes_only_counters(pool: PoolView, ok: bool)
    ensures
        pool.counted_sql(ok) == (PoolView { metrics: pool.counted_sql(ok).metrics, ..pool }),
        pool.counted_write(ok) == (PoolView { metrics: pool.counted_write(ok).metrics, ..pool }),
        pool.counted_query(ok) == (PoolView { metrics: pool.counted_query(ok).metrics, ..pool }),
        pool.counted_ping(ok) == (PoolView { metrics: pool.counted_ping(ok).metrics, ..pool }),
        pool.counted_health(ok) == (PoolView { metrics: pool.counted_health(ok).metrics, ..pool }),
{
}

/// A status that is none of the 2xx ones decides alone: what the response holds changes nothing.
pub proof fn law_status_wins_over_the_response(
    status: u16,
    a: Result<RawResponse, JsonFault>,
    b: Result<RawResponse, JsonFault>,
    max_rows: usize,
)
    requires
        !(200 <= status <= 299),
    ensures
        answered(status, a, max_rows) is Err,
        answered(status, a, max_rows) == answered(status, b, max_rows),
{
}

/// An accepted result never has more rows than the configuration allows.
pub proof fn law_accepted_rows_within_limit(
    parsed: Result<RawResponse, JsonFault>,
    max_rows: usize,
)
    ensures
        accepted(parsed, max_rows) matches Ok(result) ==> result.rows.len() <= max_rows
            && result.code == 0,
{
}

/// Health and ping agree: a client is ready exactly where a ping succeeds.
pub proof fn law_health_agrees_with_ping(reply: TaosResult<TaosExecResult>)
    ensures
        is_success(reply) == (ping_error(reply) is None),
{
}

/// The text of a pool is the same whatever the credentials: nothing of them can be read there.
pub proof fn law_pool_text_hides_credentials(
    pool: PoolView,
    user: Seq<char>,
    password: Seq<char>,
)
    ensures
        (PoolView { config: ConfigView { user, password, ..pool.config }, ..pool }).rendered()
            == pool.rendered(),
{
}

/// What is counted where: each end of an operation adds one to the counter of its kind and outcome,
/// and to no other, short of the end of the range.
pub proof fn law_each_outcome_has_its_counter(pool: PoolView, ok: bool)
    requires
        pool.metrics.sql_ok < u64::MAX && pool.metrics.sql_err < u64::MAX,
        pool.metrics.write_ok < u64::MAX && pool.metrics.write_err < u64::MAX,
        pool.metrics.query_ok < u64::MAX && pool.metrics.query_err < u64::MAX,
        pool.metrics.ping_ok < u64::MAX && pool.metrics.ping_err < u64::MAX,
        pool.metrics.health_ready < u64::MAX && pool.metrics.health_not_ready < u64::MAX,
    ensures
        ({
            let one = |counts: bool, before: u64, after: u64|
                after == before + (if counts {
                    1int
                } else {
                    0int
                });
            let same = |kind: int, after: TaosMetricsSnapshot|
                {
                    let m = pool.metrics;
                    &&& one(kind == 0 && ok, m.sql_ok, after.sql_ok)
                    &&& one(kind == 0 && !ok, m.sql_err, after.sql_err)
                    &&& one(kind == 1 && ok, m.write_ok, after.write_ok)
                    &&& one(kind == 1 && !ok, m.write_err, after.write_err)
                    &&& one(kind == 2 && ok, m.query_ok, after.query_ok)
                    &&& one(kind == 2 && !ok, m.query_err, after.query_err)
                    &&& one(kind == 3 && ok, m.ping_ok, after.ping_ok)
                    &&& one(kind == 3 && !ok, m.ping_err, after.ping_err)
                    &&& one(kind == 4 && ok, m.health_ready, after.health_ready)
                    &&& one(kind == 4 && !ok, m.health_not_ready, after.health_not_ready)
                    &&& after.sql_bytes == m.sql_bytes && after.response_bytes == m.response_bytes
                    &&& after.ws_probe_ok == m.ws_probe_ok && after.ws_probe_err == m.ws_probe_err
                };
            &&& same(0, pool.counted_sql(ok).metrics)
            &&& same(1, pool.counted_write(ok).metrics)
            &&& same(2, pool.counted_query(ok).metrics)
            &&& same(3, pool.counted_ping(ok).metrics)
            &&& same(4, pool.counted_health(ok).metrics)
        }),
{
}

/// Every end of an operation is one event more, and bytes are none.
pub proof fn law_every_end_is_one_event(pool: PoolView, ok: bool, bytes: int)
    requires
        pool.metrics.sql_ok < u64::MAX && pool.metrics.sql_err < u64::MAX,
        pool.metrics.write_ok < u64::MAX && pool.metrics.write_err < u64::MAX,
        pool.metrics.query_ok < u64::MAX && pool.metrics.query_err < u64::MAX,
        pool.metrics.ping_ok < u64::MAX && pool.metrics.ping_err < u64::MAX,
        pool.metrics.health_ready < u64::MAX && pool.metrics.health_not_ready < u64::MAX,
    ensures
        pool.counted_sql(ok).metrics.events() == pool.metrics.events() + 1,
        pool.counted_write(ok).metrics.events() == pool.metrics.events() + 1,
        pool.counted_query(ok).metrics.events() == pool.metrics.events() + 1,
        pool.counted_ping(ok).metrics.events() == pool.metrics.events() + 1,
        pool.counted_health(ok).metrics.events() == pool.metrics.events() + 1,
        pool.sent(bytes).metrics.events() == pool.metrics.events(),
        pool.received(bytes).metrics.events() == pool.metrics.events(),
{
    let m = pool.metrics;
    assert(pool.counted_sql(ok).metrics.events() == m.events() + 1) by {
        let n = if ok {
            m.sql_ok
        } else {
            m.sql_err
        };
        assert(metrics::more(n, 1) == n + 1);
    }
    assert(pool.counted_write(ok).metrics.events() == m.events() + 1) by {
        let n = if ok {
            m.write_ok
        } else {
            m.write_err
        };
        assert(metrics::more(n, 1) == n + 1);
    }
    assert(pool.counted_query(ok).metrics.events() == m.events() + 1) by {
        let n = if ok {
            m.query_ok
        } else {
            m.query_err
        };
        assert(metrics::more(n, 1) == n + 1);
    }
    assert(pool.counted_ping(ok).metrics.events() == m.events() + 1) by {
        let n = if ok {
            m.ping_ok
        } else {
            m.ping_err
        };
        assert(metrics::more(n, 1) == n + 1);
    }
    assert(pool.counted_health(ok).metrics.events() == m.events() + 1) by {
        let n = if ok {
            m.health_ready
        } else {
            m.health_not_ready
        };
        assert(metrics::more(n, 1) == n + 1);
    }
}

/// Bytes are counted by their number: those that were sent with the requests and those that came
/// with the responses.
pub proof fn law_bytes_are_counted_by_number(pool: PoolView, bytes: int)
    requires
        0 <= bytes,
        pool.metrics.sql_bytes + bytes <= u64::MAX,
        pool.metrics.response_bytes + bytes <= u64::MAX,
    ensures
        pool.sent(bytes).metrics.sql_bytes == pool.metrics.sql_bytes + bytes,
        pool.sent(bytes).metrics.response_bytes == pool.metrics.response_bytes,
        pool.received(bytes).metrics.response_bytes == pool.metrics.response_bytes + bytes,
        pool.received(bytes).metrics.sql_bytes == pool.metrics.sql_bytes,
        pool.sent(bytes) == (PoolView { metrics: pool.sent(bytes).metrics, ..pool }),
        pool.received(bytes) == (PoolView { metrics: pool.received(bytes).metrics, ..pool }),
{
}

/// Why a request is refused: a closed pool says that it is closed, which no retry mends; a wait
/// without a permit is a time-out, which one may.
pub proof fn law_refusals_say_why(pool: PoolView, permit: Permit)
    requires
        pool.in_flight < usize::MAX,
    ensures
        match permit_error(pool, permit) {
            Some(e) => (e is Closed) == (permit == Permit::Closed || (pool.closed && permit
                == Permit::Granted)) && (e is Timeout) == !(e is Closed) && e.is_retryable()
                == !(e is Closed),
            None => true,
        },
{
}

/// A result that is not too large is handed on as it is, whatever its number of rows; one row more
/// than allowed makes it an error that is worth a retry. Where the response holds an error, that
/// error is handed on.
pub proof fn law_results_are_handed_on(raw: RawResponse, max_rows: usize, status: u16)
    requires
        200 <= status < 300,
    ensures
        match raw@.outcome() {
            Ok(result) => if result.rows.len() <= max_rows {
                answered(status, Ok(raw), max_rows) == Ok::<ExecView, ErrorView>(result)
            } else {
                answered(status, Ok(raw), max_rows) is Err && answered(
                    status,
                    Ok(raw),
                    max_rows,
                )->Err_0 is Unavailable
            },
            Err(e) => answered(status, Ok(raw), max_rows) == Err::<ExecView, ErrorView>(e),
        },
{
}

/// A ping fails with the error of its request, and otherwise with one that is worth a retry and
/// tells the code that came in place of zero.
pub proof fn law_ping_tells_the_code(
    reply: TaosResult<TaosExecResult>,
    other: TaosResult<TaosExecResult>,
)
    ensures
        match reply {
            Err(e) => ping_error(reply) == Some(e@) && e@.display().is_suffix_of(
                health_detail(reply),
            ),
            Ok(result) => {
                &&& (ping_error(reply) is None) == (result.code == 0)
                &&& result.code == 0 ==> health_detail(reply) == "就绪"@
                &&& ping_error(reply) matches Some(e) ==> e is Unavailable && e.message()
                    == health_detail(reply)
                &&& other is Ok && result.code != 0 && other->Ok_0.code != 0 && health_detail(reply)
                    == health_detail(other) ==> result.code == other->Ok_0.code
            },
        },
{
    match reply {
        Err(e) => {
            let detail = health_detail(reply);
            let shown = e@.display();
            assert(detail.subrange(detail.len() - shown.len(), detail.len() as int) =~= shown);
        },
        Ok(result) => {
            match other {
                Ok(second) => {
                    if result.code != 0 && second.code != 0 && health_detail(reply)
                        == health_detail(other) {
                        let head = "ping code="@;
                        let none = Seq::<char>::empty();
                        assert(head + number::decimal(result.code as int) + none =~= health_detail(
                            reply,
                        ));
                        assert(head + number::decimal(second.code as int) + none =~= health_detail(
                            other,
                        ));
                        error::lemma_middle_is_told(
                            head,
                            result.code as int,
                            second.code as int,
                            none,
                        );
                    }
                },
                Err(_) => {},
            }
        },
    }
}

/// The text of a pool tells where it leads and how it stands, each thing under its name.
pub proof fn law_pool_text_tells_its_state(pool: PoolView)
    ensures
        render::tells(pool.rendered(), "host"@, render::quoted_text(pool.config.host), ','),
        render::tells(pool.rendered(), "port"@, number::decimal(pool.config.port as int), ','),
        render::tells(pool.rendered(), "database"@, render::quoted_text(pool.config.database), ','),
        render::tells(
            pool.rendered(),
            "transport"@,
            render::transport_text(pool.config.transport),
            ',',
        ),
        render::tells(pool.rendered(), "precision"@, render::precision_text(pool.precision), ','),
        render::tells(pool.rendered(), "in_flight"@, number::decimal(pool.in_flight as int), ','),
        render::tells(pool.rendered(), "closed"@, render::bool_text(pool.closed), ' '),
{
    let p = pool_pieces(pool);
    assert(pool.rendered() == text::concat(p)) by {
        lemma_pool_pieces(pool);
    }
    assert(render::tells(pool.rendered(), "host"@, render::quoted_text(pool.config.host), ',')) by {
        reveal_strlit("TaosPool { host: ");
        reveal_strlit(", port: ");
        reveal_strlit("host");
        reveal_strlit(": ");
        text::lemma_piece_between(p, 0, seq![' '] + "host"@ + ": "@, seq![',']);
    }
    assert(render::tells(
        pool.rendered(),
        "port"@,
        number::decimal(pool.config.port as int),
        ',',
    )) by {
        reveal_strlit(", port: ");
        reveal_strlit(", database: ");
        reveal_strlit("port");
        reveal_strlit(": ");
        text::lemma_piece_between(p, 2, seq![' '] + "port"@ + ": "@, seq![',']);
    }
    assert(render::tells(
        pool.rendered(),
        "database"@,
        render::quoted_text(pool.config.database),
        ',',
    )) by {
        reveal_strlit(", database: ");
        reveal_strlit(", transport: ");
        reveal_strlit("database");
        reveal_strlit(": ");
        text::lemma_piece_between(p, 4, seq![' '] + "database"@ + ": "@, seq![',']);
    }
    assert(render::tells(
        pool.rendered(),
        "transport"@,
        render::transport_text(pool.config.transport),
        ',',
    )) by {
        reveal_strlit(", transport: ");
        reveal_strlit(", precision: ");
        reveal_strlit("transport");
        reveal_strlit(": ");
        text::lemma_piece_between(p, 6, seq![' '] + "transport"@ + ": "@, seq![',']);
    }
    assert(render::tells(
        pool.rendered(),
        "precision"@,
        render::precision_text(pool.precision),
        ',',
    )) by {
        reveal_strlit(", precision: ");
        reveal_strlit(", stats: TaosPoolStats { in_flight: ");
        reveal_strlit("precision");
        reveal_strlit(": ");
        text::lemma_piece_between(p, 8, seq![' '] + "precision"@ + ": "@, seq![',']);
    }
    assert(render::tells(
        pool.rendered(),
        "in_flight"@,
        number::decimal(pool.in_flight as int),
        ',',
    )) by {
        reveal_strlit(", stats: TaosPoolStats { in_flight: ");
        reveal_strlit(", closed: ");
        reveal_strlit("in_flight");
        reveal_strlit(": ");
        text::lemma_piece_between(p, 10, seq![' '] + "in_flight"@ + ": "@, seq![',']);
    }
    assert(render::tells(pool.rendered(), "closed"@, render::bool_text(pool.closed), ' ')) by {
        reveal_strlit(", closed: ");
        reveal_strlit(" } }");
        reveal_strlit("closed");
        reveal_strlit(": ");
        text::lemma_piece_between(p, 12, seq![' '] + "closed"@ + ": "@, seq![' ']);
    }
}

/// The names and the values, in their order.
spec fn pool_pieces(pool: PoolView) -> Seq<Seq<char>> {
    seq![
        "TaosPool { host: "@,
        render::quoted_text(pool.config.host),
        ", port: "@,
        number::decimal(pool.config.port as int),
        ", database: "@,
        render::quoted_text(pool.config.database),
        ", transport: "@,
        render::transport_text(pool.config.transport),
        ", precision: "@,
        render::precision_text(pool.precision),
        ", stats: TaosPoolStats { in_flight: "@,
        number::decimal(pool.in_flight as int),
        ", closed: "@,
        render::bool_text(pool.closed),
        " } }"@,
    ]
}

proof fn lemma_pool_pieces(pool: PoolView)
    ensures
        pool.rendered() == text::concat(pool_pieces(pool)),
{
    let p = pool_pieces(pool);
    let t1 = seq![p[0]];
    assert(text::concat(t1) == p[0]);
    let t2 = t1.push(p[1]);
    assert(t2.drop_last() =~= t1);
    assert(text::concat(t2) == text::concat(t1) + p[1]);
    let t3 = t2.push(p[2]);
    assert(t3.drop_last() =~= t2);
    assert(text::concat(t3) == text::concat(t2) + p[2]);
    let t4 = t3.push(p[3]);
    assert(t4.drop_last() =~= t3);
    assert(text::concat(t4) == text::concat(t3) + p[3]);
    let t5 = t4.push(p[4]);
    assert(t5.drop_last() =~= t4);
    assert(text::concat(t5) == text::concat(t4) + p[4]);
    let t6 = t5.push(p[5]);
    assert(t6.drop_last() =~= t5);
    assert(text::concat(t6) == text::concat(t5) + p[5]);
    let t7 = t6.push(p[6]);
    assert(t7.drop_last() =~= t6);
    assert(text::concat(t7) == text::concat(t6) + p[6]);
    let t8 = t7.push(p[7]);
    assert(t8.drop_last() =~= t7);
    assert(text::concat(t8) == text::concat(t7) + p[7]);
    let t9 = t8.push(p[8]);
    assert(t9.drop_last() =~= t8);
    assert(text::concat(t9) == text::concat(t8) + p[8]);
    let t10 = t9.push(p[9]);
    assert(t10.drop_last() =~= t9);
    assert(text::concat(t10) == text::concat(t9) + p[9]);
    let t11 = t10.push(p[10]);
    assert(t11.drop_last() =~= t10);
    assert(text::concat(t11) == text::concat(t10) + p[10]);
    let t12 = t11.push(p[11]);
    assert(t12.drop_last() =~= t11);
    assert(text::concat(t12) == text::concat(t11) + p[11]);
    let t13 = t12.push(p[12]);
    assert(t13.drop_last() =~= t12);
    assert(text::concat(t13) == text::concat(t12) + p[12]);
    let t14 = t13.push(p[13]);
    assert(t14.drop_last() =~= t13);
    assert(text::concat(t14) == text::concat(t13) + p[13]);
    let t15 = t14.push(p[14]);
    assert(t15.drop_last() =~= t14);
    assert(text::concat(t15) == text::concat(t14) + p[14]);
    assert(t15 =~= p);
}

/// Limits that a request goes over are told: SQL that is too long is wrong and stays so, a result
/// with too many rows is worth a retry, and a missing permit is a time-out.
pub proof fn law_limits_are_told(label: Seq<char>, max: usize)
    ensures
        sql_too_long(max) is Invalid,
        text::holds(
            sql_too_long(max).message(),
            " batch_max_bytes="@ + number::decimal(max as int) + " "@,
        ),
        rows_over(label, max) is Unavailable,
        label.is_prefix_of(rows_over(label, max).message()),
        (" max_query_rows="@ + number::decimal(max as int)).is_suffix_of(
            rows_over(label, max).message(),
        ),
        no_permit_error(max) is Timeout,
        text::holds(no_permit_error(max).message(), "max="@ + number::decimal(max as int) + "）"@),
{
    let n = number::decimal(max as int);
    reveal_strlit("SQL 请求超过 batch_max_bytes=");
    reveal_strlit("SQL 请求超过");
    reveal_strlit(" batch_max_bytes=");
    reveal_strlit(" 字节");
    reveal_strlit("字节");
    reveal_strlit(" ");
    text::lemma_holds(
        sql_too_long(max).message(),
        "SQL 请求超过"@,
        " batch_max_bytes="@ + n + " "@,
        "字节"@,
    );
    reveal_strlit("超过 max_query_rows=");
    reveal_strlit(" max_query_rows=");
    let m = rows_over(label, max).message();
    let end = " max_query_rows="@ + n;
    assert(m.subrange(0, label.len() as int) =~= label);
    assert(m.subrange(m.len() - end.len(), m.len() as int) =~= end);
    reveal_strlit("获取 in-flight 许可超时（max=");
    reveal_strlit("获取 in-flight 许可超时（");
    reveal_strlit("max=");
    text::lemma_holds(
        no_permit_error(max).message(),
        "获取 in-flight 许可超时（"@,
        "max="@ + n + "）"@,
        Seq::empty(),
    );
}

/// The counters of sessions are those that are handed in, each for its outcome, and the others stay
/// as they were.
pub proof fn law_session_counts_are_handed_in(pool: PoolView, ok: u64, err: u64)
    ensures
        pool.with_probes((ok, err)).ws_probe_ok == ok,
        pool.with_probes((ok, err)).ws_probe_err == err,
        pool.with_probes((pool.metrics.ws_probe_ok, pool.metrics.ws_probe_err)) == pool.metrics,
{
}

} // verus!
