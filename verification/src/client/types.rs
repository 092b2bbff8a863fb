//! What the client returns.

use vstd::prelude::*;

use crate::config;
use crate::config::TsPrecision;
#[allow(unused_imports)]
use crate::error::ErrorView;
use crate::error::TaosError;
use crate::metrics::TaosMetricsSnapshot;
use crate::number;
use crate::text;

verus! {

/// The result of one SQL request.
#[derive(Debug, Clone)]
pub struct TaosExecResult {
    /// The server's code; `0` is success.
    pub code: i32,
    /// The rows, each cell as text.
    pub rows: Vec<Vec<String>>,
    /// The names of the columns, where the response gives them.
    pub columns: Vec<String>,
    /// How many rows were affected, where the response says so.
    pub affected_rows: Option<i64>,
}

/// A [`TaosExecResult`] with texts as sequences of characters.
#[verifier::ext_equal]
pub struct ExecView {
    pub code: i32,
    pub rows: Seq<Seq<Seq<char>>>,
    pub columns: Seq<Seq<char>>,
    pub affected_rows: Option<i64>,
}

/// The texts of the cells.
pub open spec fn cells(rows: Seq<Vec<String>>) -> Seq<Seq<Seq<char>>> {
    rows.map_values(|row: Vec<String>| config::texts(row@))
}

impl View for TaosExecResult {
    type V = ExecView;

    open spec fn view(&self) -> ExecView {
        ExecView {
            code: self.code,
            rows: cells(self.rows@),
            columns: config::texts(self.columns@),
            affected_rows: self.affected_rows,
        }
    }
}

impl ExecView {
    /// The first cell of the first row.
    pub open spec fn first_cell(self) -> Option<Seq<char>> {
        if self.rows.len() > 0 && self.rows[0].len() > 0 {
            Some(self.rows[0][0])
        } else {
            None
        }
    }
}

impl TaosExecResult {
    /// The first cell of the first row.
    pub fn first_cell(&self) -> (r: Option<&String>)
        ensures
            match r {
                Some(s) => self@.first_cell() == Some(s@),
                None => self@.first_cell() is None,
            },
    {
        if self.rows.len() > 0 && self.rows[0].len() > 0 {
            assert(self@.rows[0] == config::texts(self.rows@[0]@));
            Some(&self.rows[0][0])
        } else {
            if self.rows.len() > 0 {
                assert(self@.rows[0] == config::texts(self.rows@[0]@));
            }
            None
        }
    }
}

/// The state of the pool at one moment.
#[derive(Debug, Clone, Copy, PartialEq, Eq, Structural)]
pub struct TaosPoolStats {
    /// Requests under way.
    pub in_flight: usize,
    /// Whether the pool is closed.
    pub closed: bool,
}

/// The result of a health check.
///
/// A client that is not ready is a result with `ready == false`, not an error: a probe can tell
/// a dependency that is away from a probe that is broken.
#[derive(Debug, Clone, PartialEq, Eq)]
pub struct TaosHealth {
    /// Whether reads and writes can be served.
    pub ready: bool,
    /// The precision of time stamps in use.
    pub precision: TsPrecision,
    /// The server's version, where it is known.
    pub server_version: Option<String>,
    /// The state of the pool.
    pub stats: TaosPoolStats,
    /// The counters.
    pub metrics: TaosMetricsSnapshot,
    /// A short explanation without credentials.
    pub detail: String,
}

impl TaosHealth {
    /// Whether reads and writes can be served.
    #[must_use]
    pub fn is_ready(&self) -> (r: bool)
        ensures
            r == self.ready,
    {
        self.ready
    }
}

/// How much of a batch was written.
///
/// Where a batch fails on the way, a [`BatchWritePartialError`] says how many rows were
/// committed before it. What was committed is not written again.
#[derive(Debug, Clone, Copy, PartialEq, Eq, Structural)]
pub struct BatchWriteReport {
    /// Rows that were committed.
    pub accepted: usize,
    /// Rows that were not: those of the chunk that failed and of all after it.
    pub failed: usize,
    /// Chunks that were committed.
    pub chunks_ok: usize,
    /// Chunks that were planned.
    pub chunks_total: usize,
}

impl Default for BatchWriteReport {
    fn default() -> (r: Self)
        ensures
            r == Self::nothing(),
    {
        BatchWriteReport { accepted: 0, failed: 0, chunks_ok: 0, chunks_total: 0 }
    }
}

impl BatchWriteReport {
    /// The report of a batch without rows.
    pub open spec fn nothing() -> Self {
        BatchWriteReport { accepted: 0, failed: 0, chunks_ok: 0, chunks_total: 0 }
    }

    /// No row failed and every chunk was committed.
    pub open spec fn complete(self) -> bool {
        self.failed == 0 && self.chunks_ok == self.chunks_total
    }

    /// Whether no row failed and every chunk was committed.
    #[must_use]
    pub fn is_complete(&self) -> (r: bool)
        ensures
            r == self.complete(),
    {
        self.failed == 0 && self.chunks_ok == self.chunks_total
    }
}

/// A batch that was not written whole: how far it came, and why it stopped.
#[derive(Debug)]
pub struct BatchWritePartialError {
    /// How far the batch came.
    pub report: BatchWriteReport,
    /// Why it stopped.
    pub source: TaosError,
}

/// The words for a batch that was not written whole.
pub open spec fn partial_text(report: BatchWriteReport, source: ErrorView) -> Seq<char> {
    "write_batch 部分成功 accepted="@ + number::decimal(report.accepted as int) + " failed="@
        + number::decimal(report.failed as int) + " chunks_ok="@ + number::decimal(
        report.chunks_ok as int,
    ) + "/"@ + number::decimal(report.chunks_total as int) + ": "@ + source.display()
}

impl BatchWritePartialError {
    /// The error as a reader sees it.
    #[must_use]
    pub fn to_string(&self) -> (r: String)
        ensures
            r@ == partial_text(self.report, self.source@),
    {
        let mut out = String::from("write_batch 部分成功 accepted=");
        text::push_text(&mut out, number::decimal_usize(self.report.accepted).as_str());
        text::push_text(&mut out, " failed=");
        text::push_text(&mut out, number::decimal_usize(self.report.failed).as_str());
        text::push_text(&mut out, " chunks_ok=");
        text::push_text(&mut out, number::decimal_usize(self.report.chunks_ok).as_str());
        text::push_text(&mut out, "/");
        text::push_text(&mut out, number::decimal_usize(self.report.chunks_total).as_str());
        text::push_text(&mut out, ": ");
        text::push_text(&mut out, self.source.to_string().as_str());
        out
    }
}

impl From<BatchWritePartialError> for TaosError {
    /// The error of the same class, with how far the batch came in its message.
    fn from(value: BatchWritePartialError) -> (r: TaosError)
        ensures
            r@ == value.source@.with_message(partial_text(value.report, value.source@)),
    {
        let message = value.to_string();
        value.source.with_message(message)
    }
}

impl vstd::std_specs::convert::FromSpecImpl<BatchWritePartialError> for TaosError {
    open spec fn obeys_from_spec() -> bool {
        false
    }

    open spec fn from_spec(value: BatchWritePartialError) -> TaosError {
        value.source
    }
}

/// A partial failure stays in the class of its cause: it is worth a retry, and says "not found",
/// exactly where its cause does.
pub proof fn law_partial_failure_keeps_class(report: BatchWriteReport, source: ErrorView)
    ensures
        ({
            let error = source.with_message(partial_text(report, source));
            &&& error.is_retryable() == source.is_retryable()
            &&& error.is_not_found() == source.is_not_found()
            &&& error.taos_code() == source.taos_code()
        }),
{
}

/// The words for a batch that was not written whole end with the cause as a reader sees it, and tell
/// each number of the report: two reports with one cause that differ in one number differ in words.
pub proof fn law_partial_text_tells_the_report(
    report: BatchWriteReport,
    source: ErrorView,
    n: usize,
)
    requires
        n <= i64::MAX,
        report.accepted <= i64::MAX && report.failed <= i64::MAX,
        report.chunks_ok <= i64::MAX && report.chunks_total <= i64::MAX,
    ensures
        source.display().is_suffix_of(partial_text(report, source)),
        partial_text(BatchWriteReport { accepted: n, ..report }, source) == partial_text(
            report,
            source,
        ) ==> n == report.accepted,
        partial_text(BatchWriteReport { failed: n, ..report }, source) == partial_text(
            report,
            source,
        ) ==> n == report.failed,
        partial_text(BatchWriteReport { chunks_ok: n, ..report }, source) == partial_text(
            report,
            source,
        ) ==> n == report.chunks_ok,
        partial_text(BatchWriteReport { chunks_total: n, ..report }, source) == partial_text(
            report,
            source,
        ) ==> n == report.chunks_total,
{
    let all = partial_text(report, source);
    let shown = source.display();
    assert(all.subrange(all.len() - shown.len(), all.len() as int) =~= shown);
    let p0 = "write_batch 部分成功 accepted="@;
    let p1 = p0 + number::decimal(report.accepted as int) + " failed="@;
    let p2 = p1 + number::decimal(report.failed as int) + " chunks_ok="@;
    let p3 = p2 + number::decimal(report.chunks_ok as int) + "/"@;
    let s3 = ": "@ + shown;
    let s2 = "/"@ + number::decimal(report.chunks_total as int) + s3;
    let s1 = " chunks_ok="@ + number::decimal(report.chunks_ok as int) + s2;
    let s0 = " failed="@ + number::decimal(report.failed as int) + s1;
    assert(all =~= p0 + number::decimal(report.accepted as int) + s0);
    assert(all =~= p1 + number::decimal(report.failed as int) + s1);
    assert(all =~= p2 + number::decimal(report.chunks_ok as int) + s2);
    assert(all =~= p3 + number::decimal(report.chunks_total as int) + s3);
    let a = partial_text(BatchWriteReport { accepted: n, ..report }, source);
    let b = partial_text(BatchWriteReport { failed: n, ..report }, source);
    let c = partial_text(BatchWriteReport { chunks_ok: n, ..report }, source);
    let d = partial_text(BatchWriteReport { chunks_total: n, ..report }, source);
    if a == all {
        assert(a =~= p0 + number::decimal(n as int) + s0);
        crate::error::lemma_middle_is_told(p0, n as int, report.accepted as int, s0);
    }
    if b == all {
        assert(b =~= p1 + number::decimal(n as int) + s1);
        crate::error::lemma_middle_is_told(p1, n as int, report.failed as int, s1);
    }
    if c == all {
        assert(c =~= p2 + number::decimal(n as int) + s2);
        crate::error::lemma_middle_is_told(p2, n as int, report.chunks_ok as int, s2);
    }
    if d == all {
        assert(d =~= p3 + number::decimal(n as int) + s3);
        crate::error::lemma_middle_is_told(p3, n as int, report.chunks_total as int, s3);
    }
}

/// A batch is written whole exactly where no row failed and every statement was committed, and the
/// version of a server is the first cell of the first row.
pub proof fn law_reports_and_cells(report: BatchWriteReport, result: ExecView)
    ensures
        report.complete() == (report.failed == 0 && report.chunks_ok == report.chunks_total),
        BatchWriteReport::nothing().complete(),
        BatchWriteReport::nothing().accepted == 0,
        (result.first_cell() is None) == (result.rows.len() == 0 || result.rows[0].len() == 0),
        result.first_cell() matches Some(cell) ==> cell == result.rows[0][0],
{
}

/// The words for a batch that was not written whole tell each number of the report under its name,
/// and end with the cause as a reader sees it.
pub proof fn law_partial_text_tells_names(report: BatchWriteReport, source: ErrorView)
    ensures
        text::holds(
            partial_text(report, source),
            " accepted="@ + number::decimal(report.accepted as int) + " "@,
        ),
        text::holds(
            partial_text(report, source),
            " failed="@ + number::decimal(report.failed as int) + " "@,
        ),
        text::holds(
            partial_text(report, source),
            " chunks_ok="@ + number::decimal(report.chunks_ok as int) + "/"@,
        ),
        text::holds(
            partial_text(report, source),
            "/"@ + number::decimal(report.chunks_total as int) + ":"@,
        ),
        source.display().is_suffix_of(partial_text(report, source)),
{
    let p = partial_pieces(report, source);
    let m = partial_text(report, source);
    let d = source.display();
    assert(m.subrange(m.len() - d.len(), m.len() as int) =~= d);
    lemma_partial_pieces(report, source);
    assert(text::holds(m, " accepted="@ + p[1] + " "@)) by {
        reveal_strlit("write_batch 部分成功 accepted=");
        reveal_strlit(" accepted=");
        reveal_strlit(" failed=");
        reveal_strlit(" ");
        text::lemma_piece_between(p, 0, " accepted="@, " "@);
    }
    assert(text::holds(m, " failed="@ + p[3] + " "@)) by {
        reveal_strlit(" failed=");
        reveal_strlit(" chunks_ok=");
        reveal_strlit(" ");
        text::lemma_piece_between(p, 2, " failed="@, " "@);
    }
    assert(text::holds(m, " chunks_ok="@ + p[5] + "/"@)) by {
        reveal_strlit(" chunks_ok=");
        reveal_strlit("/");
        text::lemma_piece_between(p, 4, " chunks_ok="@, "/"@);
    }
    assert(text::holds(m, "/"@ + p[7] + ":"@)) by {
        reveal_strlit("/");
        reveal_strlit(": ");
        reveal_strlit(":");
        text::lemma_piece_between(p, 6, "/"@, ":"@);
    }
}

/// The names and the values, in their order.
spec fn partial_pieces(report: BatchWriteReport, source: ErrorView) -> Seq<Seq<char>> {
    seq![
        "write_batch 部分成功 accepted="@,
        number::decimal(report.accepted as int),
        " failed="@,
        number::decimal(report.failed as int),
        " chunks_ok="@,
        number::decimal(report.chunks_ok as int),
        "/"@,
        number::decimal(report.chunks_total as int),
        ": "@,
        source.display(),
    ]
}

proof fn lemma_partial_pieces(report: BatchWriteReport, source: ErrorView)
    ensures
        partial_text(report, source) == text::concat(partial_pieces(report, source)),
{
    let p = partial_pieces(report, source);
    let t1 = seq![p[0]];
    assert(text::concat(t1) == p[0]);
    let t2 = t1.push(p[1]);
    assert(t2.drop_last() =~= t1);
    assert(text::concat(t2) == text::concat(t1) + p[1]);
    let t3 = t2.push(p[2]);
    assert(t3.drop_last() =~= t2);
    assert(text::concat(t3) == text::concat(t2) + p[2]);
    let t4 = t3.push(p[3]);
    assert(t4.drop_last() =~= t3);
    assert(text::concat(t4) == text::concat(t3) + p[3]);
    let t5 = t4.push(p[4]);
    assert(t5.drop_last() =~= t4);
    assert(text::concat(t5) == text::concat(t4) + p[4]);
    let t6 = t5.push(p[5]);
    assert(t6.drop_last() =~= t5);
    assert(text::concat(t6) == text::concat(t5) + p[5]);
    let t7 = t6.push(p[6]);
    assert(t7.drop_last() =~= t6);
    assert(text::concat(t7) == text::concat(t6) + p[6]);
    let t8 = t7.push(p[7]);
    assert(t8.drop_last() =~= t7);
    assert(text::concat(t8) == text::concat(t7) + p[7]);
    let t9 = t8.push(p[8]);
    assert(t9.drop_last() =~= t8);
    assert(text::concat(t9) == text::concat(t8) + p[8]);
    let t10 = t9.push(p[9]);
    assert(t10.drop_last() =~= t9);
    assert(text::concat(t10) == text::concat(t9) + p[9]);
    assert(t10 =~= p);
}

} // verus!
