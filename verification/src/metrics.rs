//! Operation and byte counters, and their export as Prometheus text.
//!
//! The labels are only the operation and its outcome, so that no table or symbol multiplies the
//! series.

use vstd::prelude::*;

use crate::number;
use crate::text;

verus! {

/// The counters at one moment.
#[derive(Debug, Clone, Copy, PartialEq, Eq, Structural)]
pub struct TaosMetricsSnapshot {
    /// SQL requests that succeeded.
    pub sql_ok: u64,
    /// SQL requests that failed.
    pub sql_err: u64,
    /// UTF-8 bytes of SQL sent.
    pub sql_bytes: u64,
    /// Bytes of responses received.
    pub response_bytes: u64,
    /// Batches written whole.
    pub write_ok: u64,
    /// Batches that failed, in part or whole.
    pub write_err: u64,
    /// Series queries that succeeded.
    pub query_ok: u64,
    /// Series queries that failed.
    pub query_err: u64,
    /// Pings that succeeded.
    pub ping_ok: u64,
    /// Pings that failed.
    pub ping_err: u64,
    /// Health checks that found the client ready.
    pub health_ready: u64,
    /// Health checks that did not.
    pub health_not_ready: u64,
    /// WebSocket sessions of this process that succeeded.
    pub ws_probe_ok: u64,
    /// WebSocket sessions of this process that failed.
    pub ws_probe_err: u64,
}

impl Default for TaosMetricsSnapshot {
    fn default() -> (r: Self)
        ensures
            r == Self::zero(),
    {
        TaosMetricsSnapshot {
            sql_ok: 0,
            sql_err: 0,
            sql_bytes: 0,
            response_bytes: 0,
            write_ok: 0,
            write_err: 0,
            query_ok: 0,
            query_err: 0,
            ping_ok: 0,
            ping_err: 0,
            health_ready: 0,
            health_not_ready: 0,
            ws_probe_ok: 0,
            ws_probe_err: 0,
        }
    }
}

/// One line of the operation counters.
pub open spec fn op_line(op: Seq<char>, outcome: Seq<char>, value: u64) -> Seq<char> {
    "taosx_ops_total{op=\""@ + op + "\",outcome=\""@ + outcome + "\"} "@ + number::decimal(
        value as int,
    ) + "\n"@
}

/// One line of the byte counters.
pub open spec fn bytes_line(op: Seq<char>, value: u64) -> Seq<char> {
    "taosx_bytes_total{op=\""@ + op + "\"} "@ + number::decimal(value as int) + "\n"@
}

impl TaosMetricsSnapshot {
    /// All counters at zero.
    pub open spec fn zero() -> Self {
        TaosMetricsSnapshot {
            sql_ok: 0,
            sql_err: 0,
            sql_bytes: 0,
            response_bytes: 0,
            write_ok: 0,
            write_err: 0,
            query_ok: 0,
            query_err: 0,
            ping_ok: 0,
            ping_err: 0,
            health_ready: 0,
            health_not_ready: 0,
            ws_probe_ok: 0,
            ws_probe_err: 0,
        }
    }

    /// The sum of the operation counters.
    pub open spec fn events(self) -> int {
        self.sql_ok + self.sql_err + self.write_ok + self.write_err + self.query_ok
            + self.query_err + self.ping_ok + self.ping_err + self.health_ready
            + self.health_not_ready + self.ws_probe_ok + self.ws_probe_err
    }

    /// The text of the export.
    pub open spec fn prometheus(self) -> Seq<char> {
        "# HELP taosx_ops_total Operation counters\n"@ + "# TYPE taosx_ops_total counter\n"@
            + op_line("sql"@, "ok"@, self.sql_ok) + op_line("sql"@, "err"@, self.sql_err)
            + op_line("write"@, "ok"@, self.write_ok) + op_line("write"@, "err"@, self.write_err)
            + op_line("query"@, "ok"@, self.query_ok) + op_line("query"@, "err"@, self.query_err)
            + op_line("ping"@, "ok"@, self.ping_ok) + op_line("ping"@, "err"@, self.ping_err)
            + op_line("health"@, "ready"@, self.health_ready) + op_line(
            "health"@,
            "not_ready"@,
            self.health_not_ready,
        ) + op_line("ws_probe"@, "ok"@, self.ws_probe_ok) + op_line(
            "ws_probe"@,
            "err"@,
            self.ws_probe_err,
        ) + "# HELP taosx_bytes_total Request and response byte counters\n"@
            + "# TYPE taosx_bytes_total counter\n"@ + bytes_line("request"@, self.sql_bytes)
            + bytes_line("response"@, self.response_bytes)
    }

    /// The sum of the operation counters, as a rough measure of load. Bytes do not count.
    #[must_use]
    pub fn total_events(&self) -> (r: u64)
        requires
            self.events() <= u64::MAX,
        ensures
            r == self.events(),
    {
        self.sql_ok + self.sql_err + self.write_ok + self.write_err + self.query_ok
            + self.query_err + self.ping_ok + self.ping_err + self.health_ready
            + self.health_not_ready + self.ws_probe_ok + self.ws_probe_err
    }

    /// The counters in Prometheus' text format.
    #[must_use]
    pub fn to_prometheus_text(&self) -> (r: String)
        ensures
            r@ == self.prometheus(),
    {
        let mut out = String::from("# HELP taosx_ops_total Operation counters\n");
        text::push_text(&mut out, "# TYPE taosx_ops_total counter\n");
        push_op(&mut out, "sql", "ok", self.sql_ok);
        push_op(&mut out, "sql", "err", self.sql_err);
        push_op(&mut out, "write", "ok", self.write_ok);
        push_op(&mut out, "write", "err", self.write_err);
        push_op(&mut out, "query", "ok", self.query_ok);
        push_op(&mut out, "query", "err", self.query_err);
        push_op(&mut out, "ping", "ok", self.ping_ok);
        push_op(&mut out, "ping", "err", self.ping_err);
        push_op(&mut out, "health", "ready", self.health_ready);
        push_op(&mut out, "health", "not_ready", self.health_not_ready);
        push_op(&mut out, "ws_probe", "ok", self.ws_probe_ok);
        push_op(&mut out, "ws_probe", "err", self.ws_probe_err);
        text::push_text(&mut out, "# HELP taosx_bytes_total Request and response byte counters\n");
        text::push_text(&mut out, "# TYPE taosx_bytes_total counter\n");
        push_bytes(&mut out, "request", self.sql_bytes);
        push_bytes(&mut out, "response", self.response_bytes);
        out
    }
}

fn push_op(out: &mut String, op: &str, outcome: &str, value: u64)
    ensures
        final(out)@ == old(out)@ + op_line(op@, outcome@, value),
{
    let mut line = String::from("taosx_ops_total{op=\"");
    text::push_text(&mut line, op);
    text::push_text(&mut line, "\",outcome=\"");
    text::push_text(&mut line, outcome);
    text::push_text(&mut line, "\"} ");
    text::push_text(&mut line, number::decimal_u64(value).as_str());
    text::push_text(&mut line, "\n");
    text::push_text(out, line.as_str());
}

fn push_bytes(out: &mut String, op: &str, value: u64)
    ensures
        final(out)@ == old(out)@ + bytes_line(op@, value),
{
    let mut line = String::from("taosx_bytes_total{op=\"");
    text::push_text(&mut line, op);
    text::push_text(&mut line, "\"} ");
    text::push_text(&mut line, number::decimal_u64(value).as_str());
    text::push_text(&mut line, "\n");
    text::push_text(out, line.as_str());
}

// ---------------------------------------------------------------------------
// Counting
// ---------------------------------------------------------------------------

/// One more, around the end of the range.
pub open spec fn more(n: u64, by: int) -> u64 {
    ((n + by) % 0x1_0000_0000_0000_0000) as u64
}

fn count(n: u64, by: u64) -> (r: u64)
    ensures
        r == more(n, by as int),
{
    n.wrapping_add(by)
}

/// The counters of one pool. They wrap around at the end of their range.
pub struct OpCounters {
    counted: TaosMetricsSnapshot,
}

/// The counters as a snapshot; those of WebSocket sessions, which belong to the process, are zero.
impl View for OpCounters {
    type V = TaosMetricsSnapshot;

    closed spec fn view(&self) -> TaosMetricsSnapshot {
        self.counted
    }
}

impl OpCounters {
    /// All counters at zero.
    pub fn new() -> (r: Self)
        ensures
            r@ == TaosMetricsSnapshot::zero(),
    {
        OpCounters { counted: TaosMetricsSnapshot::default() }
    }

    /// The counters at this moment, with those of the process' WebSocket sessions.
    pub fn snapshot(&self, probes: (u64, u64)) -> (r: TaosMetricsSnapshot)
        ensures
            r == (TaosMetricsSnapshot {
                ws_probe_ok: probes.0,
                ws_probe_err: probes.1,
                ..self@
            }),
    {
        let mut s = self.counted;
        s.ws_probe_ok = probes.0;
        s.ws_probe_err = probes.1;
        s
    }

    /// Counts the bytes of a statement that is sent.
    pub fn add_sql_bytes(&mut self, bytes: usize)
        ensures
            final(self)@ == (TaosMetricsSnapshot {
                sql_bytes: more(old(self)@.sql_bytes, bytes as int),
                ..old(self)@
            }),
    {
        self.counted.sql_bytes = count(self.counted.sql_bytes, bytes as u64);
    }

    /// Counts the bytes of a response.
    pub fn add_response_bytes(&mut self, bytes: usize)
        ensures
            final(self)@ == (TaosMetricsSnapshot {
                response_bytes: more(old(self)@.response_bytes, bytes as int),
                ..old(self)@
            }),
    {
        self.counted.response_bytes = count(self.counted.response_bytes, bytes as u64);
    }

    /// Counts a statement that went through.
    pub fn inc_sql_ok(&mut self)
        ensures
            final(self)@ == (TaosMetricsSnapshot {
                sql_ok: more(old(self)@.sql_ok, 1),
                ..old(self)@
            }),
    {
        self.counted.sql_ok = count(self.counted.sql_ok, 1);
    }

    /// Counts a statement that failed.
    pub fn inc_sql_err(&mut self)
        ensures
            final(self)@ == (TaosMetricsSnapshot {
                sql_err: more(old(self)@.sql_err, 1),
                ..old(self)@
            }),
    {
        self.counted.sql_err = count(self.counted.sql_err, 1);
    }

    /// Counts a write that went through.
    pub fn inc_write_ok(&mut self)
        ensures
            final(self)@ == (TaosMetricsSnapshot {
                write_ok: more(old(self)@.write_ok, 1),
                ..old(self)@
            }),
    {
        self.counted.write_ok = count(self.counted.write_ok, 1);
    }

    /// Counts a write that failed.
    pub fn inc_write_err(&mut self)
        ensures
            final(self)@ == (TaosMetricsSnapshot {
                write_err: more(old(self)@.write_err, 1),
                ..old(self)@
            }),
    {
        self.counted.write_err = count(self.counted.write_err, 1);
    }

    /// Counts a query that went through.
    pub fn inc_query_ok(&mut self)
        ensures
            final(self)@ == (TaosMetricsSnapshot {
                query_ok: more(old(self)@.query_ok, 1),
                ..old(self)@
            }),
    {
        self.counted.query_ok = count(self.counted.query_ok, 1);
    }

    /// Counts a query that failed.
    pub fn inc_query_err(&mut self)
        ensures
            final(self)@ == (TaosMetricsSnapshot {
                query_err: more(old(self)@.query_err, 1),
                ..old(self)@
            }),
    {
        self.counted.query_err = count(self.counted.query_err, 1);
    }

    /// Counts a ping that was answered.
    pub fn inc_ping_ok(&mut self)
        ensures
            final(self)@ == (TaosMetricsSnapshot {
                ping_ok: more(old(self)@.ping_ok, 1),
                ..old(self)@
            }),
    {
        self.counted.ping_ok = count(self.counted.ping_ok, 1);
    }

    /// Counts a ping that failed.
    pub fn inc_ping_err(&mut self)
        ensures
            final(self)@ == (TaosMetricsSnapshot {
                ping_err: more(old(self)@.ping_err, 1),
                ..old(self)@
            }),
    {
        self.counted.ping_err = count(self.counted.ping_err, 1);
    }

    /// Counts a health check that found the server ready.
    pub fn inc_health_ready(&mut self)
        ensures
            final(self)@ == (TaosMetricsSnapshot {
                health_ready: more(old(self)@.health_ready, 1),
                ..old(self)@
            }),
    {
        self.counted.health_ready = count(self.counted.health_ready, 1);
    }

    /// Counts a health check that did not find the server ready.
    pub fn inc_health_not_ready(&mut self)
        ensures
            final(self)@ == (TaosMetricsSnapshot {
                health_not_ready: more(old(self)@.health_not_ready, 1),
                ..old(self)@
            }),
    {
        self.counted.health_not_ready = count(self.counted.health_not_ready, 1);
    }
}

/// The counters of the process' WebSocket sessions.
#[derive(Debug, Clone, Copy, PartialEq, Eq, Structural)]
pub struct WsProbeCounters {
    /// Sessions that succeeded.
    pub ok: u64,
    /// Sessions that failed.
    pub err: u64,
}

/// How many of the process' WebSocket sessions succeeded and how many failed.
#[must_use]
pub fn ws_probe_totals(counters: &WsProbeCounters) -> (r: (u64, u64))
    ensures
        r == (counters.ok, counters.err),
{
    (counters.ok, counters.err)
}

/// Counts a WebSocket session.
pub fn record_ws_probe(counters: &mut WsProbeCounters, ok: bool)
    ensures
        *final(counters) == (if ok {
            WsProbeCounters { ok: more(old(counters).ok, 1), ..*old(counters) }
        } else {
            WsProbeCounters { err: more(old(counters).err, 1), ..*old(counters) }
        }),
{
    if ok {
        counters.ok = count(counters.ok, 1);
    } else {
        counters.err = count(counters.err, 1);
    }
}

// ---------------------------------------------------------------------------
// Laws
// ---------------------------------------------------------------------------

/// A line of a text is the name of a series, a blank and a value.
pub open spec fn exports(text: Seq<char>, series: Seq<char>, value: u64) -> bool {
    text::holds(text, "\n"@ + series + " "@ + number::decimal(value as int) + "\n"@)
}

/// The export tells every counter: a line holds the series of its operation and outcome, and its
/// value.
pub proof fn law_export_tells_every_counter(m: TaosMetricsSnapshot)
    ensures
        exports(m.prometheus(), "taosx_ops_total{op=\"sql\",outcome=\"ok\"}"@, m.sql_ok),
        exports(m.prometheus(), "taosx_ops_total{op=\"sql\",outcome=\"err\"}"@, m.sql_err),
        exports(m.prometheus(), "taosx_ops_total{op=\"write\",outcome=\"ok\"}"@, m.write_ok),
        exports(m.prometheus(), "taosx_ops_total{op=\"write\",outcome=\"err\"}"@, m.write_err),
        exports(m.prometheus(), "taosx_ops_total{op=\"query\",outcome=\"ok\"}"@, m.query_ok),
        exports(m.prometheus(), "taosx_ops_total{op=\"query\",outcome=\"err\"}"@, m.query_err),
        exports(m.prometheus(), "taosx_ops_total{op=\"ping\",outcome=\"ok\"}"@, m.ping_ok),
        exports(m.prometheus(), "taosx_ops_total{op=\"ping\",outcome=\"err\"}"@, m.ping_err),
        exports(
            m.prometheus(),
            "taosx_ops_total{op=\"health\",outcome=\"ready\"}"@,
            m.health_ready,
        ),
        exports(
            m.prometheus(),
            "taosx_ops_total{op=\"health\",outcome=\"not_ready\"}"@,
            m.health_not_ready,
        ),
        exports(m.prometheus(), "taosx_ops_total{op=\"ws_probe\",outcome=\"ok\"}"@, m.ws_probe_ok),
        exports(
            m.prometheus(),
            "taosx_ops_total{op=\"ws_probe\",outcome=\"err\"}"@,
            m.ws_probe_err,
        ),
        exports(m.prometheus(), "taosx_bytes_total{op=\"request\"}"@, m.sql_bytes),
        exports(m.prometheus(), "taosx_bytes_total{op=\"response\"}"@, m.response_bytes),
{
    lemma_export_lines(m);
    lemma_lines_end(m);
    let lines = export_lines(m);
    assert(exports(m.prometheus(), "taosx_ops_total{op=\"sql\",outcome=\"ok\"}"@, m.sql_ok)) by {
        lemma_series_of_sql_ok();
        assert(lines[2] == op_line("sql"@, "ok"@, m.sql_ok)) by {
            reveal(export_lines);
        }
        lemma_op_line("sql"@, "ok"@, "taosx_ops_total{op=\"sql\",outcome=\"ok\"}"@, m.sql_ok);
        assert(lines[1].last() == '\n');
        lemma_line_is_exported(lines, 2, "taosx_ops_total{op=\"sql\",outcome=\"ok\"}"@, m.sql_ok);
    }
    assert(exports(m.prometheus(), "taosx_ops_total{op=\"sql\",outcome=\"err\"}"@, m.sql_err)) by {
        lemma_series_of_sql_err();
        assert(lines[3] == op_line("sql"@, "err"@, m.sql_err)) by {
            reveal(export_lines);
        }
        lemma_op_line("sql"@, "err"@, "taosx_ops_total{op=\"sql\",outcome=\"err\"}"@, m.sql_err);
        assert(lines[2].last() == '\n');
        lemma_line_is_exported(lines, 3, "taosx_ops_total{op=\"sql\",outcome=\"err\"}"@, m.sql_err);
    }
    assert(exports(
        m.prometheus(),
        "taosx_ops_total{op=\"write\",outcome=\"ok\"}"@,
        m.write_ok,
    )) by {
        lemma_series_of_write_ok();
        assert(lines[4] == op_line("write"@, "ok"@, m.write_ok)) by {
            reveal(export_lines);
        }
        lemma_op_line("write"@, "ok"@, "taosx_ops_total{op=\"write\",outcome=\"ok\"}"@, m.write_ok);
        assert(lines[3].last() == '\n');
        lemma_line_is_exported(
            lines,
            4,
            "taosx_ops_total{op=\"write\",outcome=\"ok\"}"@,
            m.write_ok,
        );
    }
    assert(exports(
        m.prometheus(),
        "taosx_ops_total{op=\"write\",outcome=\"err\"}"@,
        m.write_err,
    )) by {
        lemma_series_of_write_err();
        assert(lines[5] == op_line("write"@, "err"@, m.write_err)) by {
            reveal(export_lines);
        }
        lemma_op_line(
            "write"@,
            "err"@,
            "taosx_ops_total{op=\"write\",outcome=\"err\"}"@,
            m.write_err,
        );
        assert(lines[4].last() == '\n');
        lemma_line_is_exported(
            lines,
            5,
            "taosx_ops_total{op=\"write\",outcome=\"err\"}"@,
            m.write_err,
        );
    }
    assert(exports(
        m.prometheus(),
        "taosx_ops_total{op=\"query\",outcome=\"ok\"}"@,
        m.query_ok,
    )) by {
        lemma_series_of_query_ok();
        assert(lines[6] == op_line("query"@, "ok"@, m.query_ok)) by {
            reveal(export_lines);
        }
        lemma_op_line("query"@, "ok"@, "taosx_ops_total{op=\"query\",outcome=\"ok\"}"@, m.query_ok);
        assert(lines[5].last() == '\n');
        lemma_line_is_exported(
            lines,
            6,
            "taosx_ops_total{op=\"query\",outcome=\"ok\"}"@,
            m.query_ok,
        );
    }
    assert(exports(
        m.prometheus(),
        "taosx_ops_total{op=\"query\",outcome=\"err\"}"@,
        m.query_err,
    )) by {
        lemma_series_of_query_err();
        assert(lines[7] == op_line("query"@, "err"@, m.query_err)) by {
            reveal(export_lines);
        }
        lemma_op_line(
            "query"@,
            "err"@,
            "taosx_ops_total{op=\"query\",outcome=\"err\"}"@,
            m.query_err,
        );
        assert(lines[6].last() == '\n');
        lemma_line_is_exported(
            lines,
            7,
            "taosx_ops_total{op=\"query\",outcome=\"err\"}"@,
            m.query_err,
        );
    }
    assert(exports(m.prometheus(), "taosx_ops_total{op=\"ping\",outcome=\"ok\"}"@, m.ping_ok)) by {
        lemma_series_of_ping_ok();
        assert(lines[8] == op_line("ping"@, "ok"@, m.ping_ok)) by {
            reveal(export_lines);
        }
        lemma_op_line("ping"@, "ok"@, "taosx_ops_total{op=\"ping\",outcome=\"ok\"}"@, m.ping_ok);
        assert(lines[7].last() == '\n');
        lemma_line_is_exported(lines, 8, "taosx_ops_total{op=\"ping\",outcome=\"ok\"}"@, m.ping_ok);
    }
    assert(exports(
        m.prometheus(),
        "taosx_ops_total{op=\"ping\",outcome=\"err\"}"@,
        m.ping_err,
    )) by {
        lemma_series_of_ping_err();
        assert(lines[9] == op_line("ping"@, "err"@, m.ping_err)) by {
            reveal(export_lines);
        }
        lemma_op_line("ping"@, "err"@, "taosx_ops_total{op=\"ping\",outcome=\"err\"}"@, m.ping_err);
        assert(lines[8].last() == '\n');
        lemma_line_is_exported(
            lines,
            9,
            "taosx_ops_total{op=\"ping\",outcome=\"err\"}"@,
            m.ping_err,
        );
    }
    assert(exports(
        m.prometheus(),
        "taosx_ops_total{op=\"health\",outcome=\"ready\"}"@,
        m.health_ready,
    )) by {
        lemma_series_of_health_ready();
        assert(lines[10] == op_line("health"@, "ready"@, m.health_ready)) by {
            reveal(export_lines);
        }
        lemma_op_line(
            "health"@,
            "ready"@,
            "taosx_ops_total{op=\"health\",outcome=\"ready\"}"@,
            m.health_ready,
        );
        assert(lines[9].last() == '\n');
        lemma_line_is_exported(
            lines,
            10,
            "taosx_ops_total{op=\"health\",outcome=\"ready\"}"@,
            m.health_ready,
        );
    }
    assert(exports(
        m.prometheus(),
        "taosx_ops_total{op=\"health\",outcome=\"not_ready\"}"@,
        m.health_not_ready,
    )) by {
        lemma_series_of_health_not_ready();
        assert(lines[11] == op_line("health"@, "not_ready"@, m.health_not_ready)) by {
            reveal(export_lines);
        }
        lemma_op_line(
            "health"@,
            "not_ready"@,
            "taosx_ops_total{op=\"health\",outcome=\"not_ready\"}"@,
            m.health_not_ready,
        );
        assert(lines[10].last() == '\n');
        lemma_line_is_exported(
            lines,
            11,
            "taosx_ops_total{op=\"health\",outcome=\"not_ready\"}"@,
            m.health_not_ready,
        );
    }
    assert(exports(
        m.prometheus(),
        "taosx_ops_total{op=\"ws_probe\",outcome=\"ok\"}"@,
        m.ws_probe_ok,
    )) by {
        lemma_series_of_ws_probe_ok();
        assert(lines[12] == op_line("ws_probe"@, "ok"@, m.ws_probe_ok)) by {
            reveal(export_lines);
        }
        lemma_op_line(
            "ws_probe"@,
            "ok"@,
            "taosx_ops_total{op=\"ws_probe\",outcome=\"ok\"}"@,
            m.ws_probe_ok,
        );
        assert(lines[11].last() == '\n');
        lemma_line_is_exported(
            lines,
            12,
            "taosx_ops_total{op=\"ws_probe\",outcome=\"ok\"}"@,
            m.ws_probe_ok,
        );
    }
    assert(exports(
        m.prometheus(),
        "taosx_ops_total{op=\"ws_probe\",outcome=\"err\"}"@,
        m.ws_probe_err,
    )) by {
        lemma_series_of_ws_probe_err();
        assert(lines[13] == op_line("ws_probe"@, "err"@, m.ws_probe_err)) by {
            reveal(export_lines);
        }
        lemma_op_line(
            "ws_probe"@,
            "err"@,
            "taosx_ops_total{op=\"ws_probe\",outcome=\"err\"}"@,
            m.ws_probe_err,
        );
        assert(lines[12].last() == '\n');
        lemma_line_is_exported(
            lines,
            13,
            "taosx_ops_total{op=\"ws_probe\",outcome=\"err\"}"@,
            m.ws_probe_err,
        );
    }
    assert(exports(m.prometheus(), "taosx_bytes_total{op=\"request\"}"@, m.sql_bytes)) by {
        lemma_series_of_sql_bytes();
        assert(lines[16] == bytes_line("request"@, m.sql_bytes)) by {
            reveal(export_lines);
        }
        lemma_bytes_line("request"@, "taosx_bytes_total{op=\"request\"}"@, m.sql_bytes);
        assert(lines[15].last() == '\n');
        lemma_line_is_exported(lines, 16, "taosx_bytes_total{op=\"request\"}"@, m.sql_bytes);
    }
    assert(exports(m.prometheus(), "taosx_bytes_total{op=\"response\"}"@, m.response_bytes)) by {
        lemma_series_of_response_bytes();
        assert(lines[17] == bytes_line("response"@, m.response_bytes)) by {
            reveal(export_lines);
        }
        lemma_bytes_line("response"@, "taosx_bytes_total{op=\"response\"}"@, m.response_bytes);
        assert(lines[16].last() == '\n');
        lemma_line_is_exported(lines, 17, "taosx_bytes_total{op=\"response\"}"@, m.response_bytes);
    }
}

/// The lines of the export.
#[verifier::opaque]
spec fn export_lines(m: TaosMetricsSnapshot) -> Seq<Seq<char>> {
    seq![
        "# HELP taosx_ops_total Operation counters\n"@,
        "# TYPE taosx_ops_total counter\n"@,
        op_line("sql"@, "ok"@, m.sql_ok),
        op_line("sql"@, "err"@, m.sql_err),
        op_line("write"@, "ok"@, m.write_ok),
        op_line("write"@, "err"@, m.write_err),
        op_line("query"@, "ok"@, m.query_ok),
        op_line("query"@, "err"@, m.query_err),
        op_line("ping"@, "ok"@, m.ping_ok),
        op_line("ping"@, "err"@, m.ping_err),
        op_line("health"@, "ready"@, m.health_ready),
        op_line("health"@, "not_ready"@, m.health_not_ready),
        op_line("ws_probe"@, "ok"@, m.ws_probe_ok),
        op_line("ws_probe"@, "err"@, m.ws_probe_err),
        "# HELP taosx_bytes_total Request and response byte counters\n"@,
        "# TYPE taosx_bytes_total counter\n"@,
        bytes_line("request"@, m.sql_bytes),
        bytes_line("response"@, m.response_bytes),
    ]
}

proof fn lemma_export_lines(m: TaosMetricsSnapshot)
    ensures
        m.prometheus() == text::concat(export_lines(m)),
{
    reveal(export_lines);
    let l = export_lines(m);
    let t1 = seq![l[0]];
    assert(text::concat(t1) == l[0]);
    let t2 = t1.push(l[1]);
    assert(t2.drop_last() =~= t1);
    assert(text::concat(t2) == text::concat(t1) + l[1]);
    let t3 = t2.push(l[2]);
    assert(t3.drop_last() =~= t2);
    assert(text::concat(t3) == text::concat(t2) + l[2]);
    let t4 = t3.push(l[3]);
    assert(t4.drop_last() =~= t3);
    assert(text::concat(t4) == text::concat(t3) + l[3]);
    let t5 = t4.push(l[4]);
    assert(t5.drop_last() =~= t4);
    assert(text::concat(t5) == text::concat(t4) + l[4]);
    let t6 = t5.push(l[5]);
    assert(t6.drop_last() =~= t5);
    assert(text::concat(t6) == text::concat(t5) + l[5]);
    let t7 = t6.push(l[6]);
    assert(t7.drop_last() =~= t6);
    assert(text::concat(t7) == text::concat(t6) + l[6]);
    let t8 = t7.push(l[7]);
    assert(t8.drop_last() =~= t7);
    assert(text::concat(t8) == text::concat(t7) + l[7]);
    let t9 = t8.push(l[8]);
    assert(t9.drop_last() =~= t8);
    assert(text::concat(t9) == text::concat(t8) + l[8]);
    let t10 = t9.push(l[9]);
    assert(t10.drop_last() =~= t9);
    assert(text::concat(t10) == text::concat(t9) + l[9]);
    let t11 = t10.push(l[10]);
    assert(t11.drop_last() =~= t10);
    assert(text::concat(t11) == text::concat(t10) + l[10]);
    let t12 = t11.push(l[11]);
    assert(t12.drop_last() =~= t11);
    assert(text::concat(t12) == text::concat(t11) + l[11]);
    let t13 = t12.push(l[12]);
    assert(t13.drop_last() =~= t12);
    assert(text::concat(t13) == text::concat(t12) + l[12]);
    let t14 = t13.push(l[13]);
    assert(t14.drop_last() =~= t13);
    assert(text::concat(t14) == text::concat(t13) + l[13]);
    let t15 = t14.push(l[14]);
    assert(t15.drop_last() =~= t14);
    assert(text::concat(t15) == text::concat(t14) + l[14]);
    let t16 = t15.push(l[15]);
    assert(t16.drop_last() =~= t15);
    assert(text::concat(t16) == text::concat(t15) + l[15]);
    let t17 = t16.push(l[16]);
    assert(t17.drop_last() =~= t16);
    assert(text::concat(t17) == text::concat(t16) + l[16]);
    let t18 = t17.push(l[17]);
    assert(t18.drop_last() =~= t17);
    assert(text::concat(t18) == text::concat(t17) + l[17]);
    assert(t18 =~= l);
}

/// Every line ends with a line end.
proof fn lemma_lines_end(m: TaosMetricsSnapshot)
    ensures
        export_lines(m).len() == 18,
        forall|i: int|
            0 <= i < 18 ==> (#[trigger] export_lines(m)[i]).len() > 0 && export_lines(m)[i].last()
                == '\n',
{
    reveal(export_lines);
    reveal_strlit("\n");
    reveal_strlit("# HELP taosx_ops_total Operation counters\n");
    reveal_strlit("# TYPE taosx_ops_total counter\n");
    reveal_strlit("# HELP taosx_bytes_total Request and response byte counters\n");
    reveal_strlit("# TYPE taosx_bytes_total counter\n");
}

proof fn lemma_op_line(op: Seq<char>, outcome: Seq<char>, series: Seq<char>, value: u64)
    requires
        series =~= "taosx_ops_total{op=\""@ + op + "\",outcome=\""@ + outcome + "\"}"@,
    ensures
        op_line(op, outcome, value) == series + " "@ + number::decimal(value as int) + "\n"@,
{
    reveal_strlit("\"} ");
    reveal_strlit("\"}");
    reveal_strlit(" ");
    assert(op_line(op, outcome, value) =~= series + " "@ + number::decimal(value as int) + "\n"@);
}

proof fn lemma_bytes_line(op: Seq<char>, series: Seq<char>, value: u64)
    requires
        series =~= "taosx_bytes_total{op=\""@ + op + "\"}"@,
    ensures
        bytes_line(op, value) == series + " "@ + number::decimal(value as int) + "\n"@,
{
    reveal_strlit("\"} ");
    reveal_strlit("\"}");
    reveal_strlit(" ");
    assert(bytes_line(op, value) =~= series + " "@ + number::decimal(value as int) + "\n"@);
}

proof fn lemma_line_is_exported(lines: Seq<Seq<char>>, i: int, series: Seq<char>, value: u64)
    requires
        1 <= i < lines.len(),
        lines[i] == series + " "@ + number::decimal(value as int) + "\n"@,
        lines[i - 1].len() > 0,
        lines[i - 1].last() == '\n',
    ensures
        exports(text::concat(lines), series, value),
{
    reveal_strlit("\n");
    let before = text::concat(lines.take(i));
    let after = text::lemma_piece_stands(lines, i);
    assert(lines.take(i).last() == lines[i - 1]);
    assert(before.last() == '\n');
    let part = "\n"@ + series + " "@ + number::decimal(value as int) + "\n"@;
    assert(before.drop_last() + part + after =~= text::concat(lines));
}

proof fn lemma_series_of_sql_ok()
    ensures
        "taosx_ops_total{op=\"sql\",outcome=\"ok\"}"@ == "taosx_ops_total{op=\""@ + "sql"@
            + "\",outcome=\""@ + "ok"@ + "\"}"@,
{
    reveal_strlit("taosx_ops_total{op=\"");
    reveal_strlit("sql");
    reveal_strlit("\",outcome=\"");
    reveal_strlit("ok");
    reveal_strlit("\"}");
    reveal_strlit("taosx_ops_total{op=\"sql\",outcome=\"ok\"}");
}

proof fn lemma_series_of_sql_err()
    ensures
        "taosx_ops_total{op=\"sql\",outcome=\"err\"}"@ == "taosx_ops_total{op=\""@ + "sql"@
            + "\",outcome=\""@ + "err"@ + "\"}"@,
{
    reveal_strlit("taosx_ops_total{op=\"");
    reveal_strlit("sql");
    reveal_strlit("\",outcome=\"");
    reveal_strlit("err");
    reveal_strlit("\"}");
    reveal_strlit("taosx_ops_total{op=\"sql\",outcome=\"err\"}");
}

proof fn lemma_series_of_write_ok()
    ensures
        "taosx_ops_total{op=\"write\",outcome=\"ok\"}"@ == "taosx_ops_total{op=\""@ + "write"@
            + "\",outcome=\""@ + "ok"@ + "\"}"@,
{
    reveal_strlit("taosx_ops_total{op=\"");
    reveal_strlit("write");
    reveal_strlit("\",outcome=\"");
    reveal_strlit("ok");
    reveal_strlit("\"}");
    reveal_strlit("taosx_ops_total{op=\"write\",outcome=\"ok\"}");
}

proof fn lemma_series_of_write_err()
    ensures
        "taosx_ops_total{op=\"write\",outcome=\"err\"}"@ == "taosx_ops_total{op=\""@ + "write"@
            + "\",outcome=\""@ + "err"@ + "\"}"@,
{
    reveal_strlit("taosx_ops_total{op=\"");
    reveal_strlit("write");
    reveal_strlit("\",outcome=\"");
    reveal_strlit("err");
    reveal_strlit("\"}");
    reveal_strlit("taosx_ops_total{op=\"write\",outcome=\"err\"}");
}

proof fn lemma_series_of_query_ok()
    ensures
        "taosx_ops_total{op=\"query\",outcome=\"ok\"}"@ == "taosx_ops_total{op=\""@ + "query"@
            + "\",outcome=\""@ + "ok"@ + "\"}"@,
{
    reveal_strlit("taosx_ops_total{op=\"");
    reveal_strlit("query");
    reveal_strlit("\",outcome=\"");
    reveal_strlit("ok");
    reveal_strlit("\"}");
    reveal_strlit("taosx_ops_total{op=\"query\",outcome=\"ok\"}");
}

proof fn lemma_series_of_query_err()
    ensures
        "taosx_ops_total{op=\"query\",outcome=\"err\"}"@ == "taosx_ops_total{op=\""@ + "query"@
            + "\",outcome=\""@ + "err"@ + "\"}"@,
{
    reveal_strlit("taosx_ops_total{op=\"");
    reveal_strlit("query");
    reveal_strlit("\",outcome=\"");
    reveal_strlit("err");
    reveal_strlit("\"}");
    reveal_strlit("taosx_ops_total{op=\"query\",outcome=\"err\"}");
}

proof fn lemma_series_of_ping_ok()
    ensures
        "taosx_ops_total{op=\"ping\",outcome=\"ok\"}"@ == "taosx_ops_total{op=\""@ + "ping"@
            + "\",outcome=\""@ + "ok"@ + "\"}"@,
{
    reveal_strlit("taosx_ops_total{op=\"");
    reveal_strlit("ping");
    reveal_strlit("\",outcome=\"");
    reveal_strlit("ok");
    reveal_strlit("\"}");
    reveal_strlit("taosx_ops_total{op=\"ping\",outcome=\"ok\"}");
}

proof fn lemma_series_of_ping_err()
    ensures
        "taosx_ops_total{op=\"ping\",outcome=\"err\"}"@ == "taosx_ops_total{op=\""@ + "ping"@
            + "\",outcome=\""@ + "err"@ + "\"}"@,
{
    reveal_strlit("taosx_ops_total{op=\"");
    reveal_strlit("ping");
    reveal_strlit("\",outcome=\"");
    reveal_strlit("err");
    reveal_strlit("\"}");
    reveal_strlit("taosx_ops_total{op=\"ping\",outcome=\"err\"}");
}

proof fn lemma_series_of_health_ready()
    ensures
        "taosx_ops_total{op=\"health\",outcome=\"ready\"}"@ == "taosx_ops_total{op=\""@ + "health"@
            + "\",outcome=\""@ + "ready"@ + "\"}"@,
{
    reveal_strlit("taosx_ops_total{op=\"");
    reveal_strlit("health");
    reveal_strlit("\",outcome=\"");
    reveal_strlit("ready");
    reveal_strlit("\"}");
    reveal_strlit("taosx_ops_total{op=\"health\",outcome=\"ready\"}");
}

proof fn lemma_series_of_health_not_ready()
    ensures
        "taosx_ops_total{op=\"health\",outcome=\"not_ready\"}"@ == "taosx_ops_total{op=\""@ + "health"@
            + "\",outcome=\""@ + "not_ready"@ + "\"}"@,
{
    reveal_strlit("taosx_ops_total{op=\"");
    reveal_strlit("health");
    reveal_strlit("\",outcome=\"");
    reveal_strlit("not_ready");
    reveal_strlit("\"}");
    reveal_strlit("taosx_ops_total{op=\"health\",outcome=\"not_ready\"}");
}

proof fn lemma_series_of_ws_probe_ok()
    ensures
        "taosx_ops_total{op=\"ws_probe\",outcome=\"ok\"}"@ == "taosx_ops_total{op=\""@ + "ws_probe"@
            + "\",outcome=\""@ + "ok"@ + "\"}"@,
{
    reveal_strlit("taosx_ops_total{op=\"");
    reveal_strlit("ws_probe");
    reveal_strlit("\",outcome=\"");
    reveal_strlit("ok");
    reveal_strlit("\"}");
    reveal_strlit("taosx_ops_total{op=\"ws_probe\",outcome=\"ok\"}");
}

proof fn lemma_series_of_ws_probe_err()
    ensures
        "taosx_ops_total{op=\"ws_probe\",outcome=\"err\"}"@ == "taosx_ops_total{op=\""@ + "ws_probe"@
            + "\",outcome=\""@ + "err"@ + "\"}"@,
{
    reveal_strlit("taosx_ops_total{op=\"");
    reveal_strlit("ws_probe");
    reveal_strlit("\",outcome=\"");
    reveal_strlit("err");
    reveal_strlit("\"}");
    reveal_strlit("taosx_ops_total{op=\"ws_probe\",outcome=\"err\"}");
}

proof fn lemma_series_of_sql_bytes()
    ensures
        "taosx_bytes_total{op=\"request\"}"@ == "taosx_bytes_total{op=\""@ + "request"@ + "\"}"@,
{
    reveal_strlit("taosx_bytes_total{op=\"");
    reveal_strlit("request");
    reveal_strlit("\"}");
    reveal_strlit("taosx_bytes_total{op=\"request\"}");
}

proof fn lemma_series_of_response_bytes()
    ensures
        "taosx_bytes_total{op=\"response\"}"@ == "taosx_bytes_total{op=\""@ + "response"@ + "\"}"@,
{
    reveal_strlit("taosx_bytes_total{op=\"");
    reveal_strlit("response");
    reveal_strlit("\"}");
    reveal_strlit("taosx_bytes_total{op=\"response\"}");
}

/// Sessions are events too, and the counters start at zero.
pub proof fn law_sessions_are_events(m: TaosMetricsSnapshot, ok: u64, err: u64)
    ensures
        (TaosMetricsSnapshot { ws_probe_ok: ok, ws_probe_err: err, ..m }).events() - m.events()
            == ok + err - m.ws_probe_ok - m.ws_probe_err,
        TaosMetricsSnapshot::zero().events() == 0,
        TaosMetricsSnapshot::zero().sql_bytes == 0,
        TaosMetricsSnapshot::zero().response_bytes == 0,
        forall|n: u64| n < u64::MAX ==> #[trigger] more(n, 1) == n + 1,
        more(u64::MAX, 1) == 0,
{
}

} // verus!
