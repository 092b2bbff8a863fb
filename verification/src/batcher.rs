//! Collecting points into batches: `push`, and a flush by rows, by time, or on demand.
//!
//! A [`WriteBatcher`] writes nothing itself. It hands out the batch that is to be written, and
//! takes what became of it.
//!
//! Nothing is retried. Where a batch was written in part, the points that were not confirmed are
//! kept as pending, and nothing more is taken before [`WriteBatcher::take_pending`] hands them
//! over or [`WriteBatcher::ack_pending`] lets them go. This is not exactly-once: a batch that was
//! handed out and whose outcome never comes back is lost.

use std::time::Duration;
use vstd::prelude::*;

use crate::client::types;
use crate::client::types::{BatchWritePartialError, BatchWriteReport};
use crate::duration;
#[allow(unused_imports)]
use crate::error::ErrorView;
use crate::error::{TaosError, TaosResult};
use crate::number;
use crate::point;
#[allow(unused_imports)]
use crate::point::PointView;
use crate::point::TaosPoint;
use crate::text;

verus! {

/// When a batch is flushed.
#[derive(Debug, PartialEq, Eq)]
pub struct WriteBatcherConfig {
    /// So many points make a batch.
    pub max_rows: usize,
    /// A hint of how many bytes a batch has; the limit is the pool's.
    pub max_bytes_hint: usize,
    /// So long after the last flush the next point makes a batch.
    pub flush_interval: Duration,
}

impl Default for WriteBatcherConfig {
    fn default() -> (r: Self)
        ensures
            r.max_rows == 500,
            r.max_bytes_hint == 262_144,
            duration::nanos(r.flush_interval) == 200_000_000,
    {
        WriteBatcherConfig {
            max_rows: 500,
            max_bytes_hint: 256 * 1024,
            flush_interval: Duration::from_millis(200),
        }
    }
}

impl Clone for WriteBatcherConfig {
    fn clone(&self) -> (r: Self)
        ensures
            r == *self,
    {
        WriteBatcherConfig {
            max_rows: self.max_rows,
            max_bytes_hint: self.max_bytes_hint,
            flush_interval: self.flush_interval,
        }
    }
}

/// What a batcher has come to.
#[derive(Debug, Clone, Copy, PartialEq, Eq, Structural)]
pub struct BatcherCloseReport {
    /// Points that were committed.
    pub total_accepted: usize,
    /// Points that were not, those still pending among them.
    pub total_failed: usize,
    /// Points still pending.
    pub pending: usize,
    /// The report of the flush of closing; all zero where there was none.
    pub last_flush: BatchWriteReport,
}

impl Default for BatcherCloseReport {
    fn default() -> (r: Self)
        ensures
            r == (BatcherCloseReport {
                total_accepted: 0,
                total_failed: 0,
                pending: 0,
                last_flush: BatchWriteReport::nothing(),
            }),
    {
        BatcherCloseReport {
            total_accepted: 0,
            total_failed: 0,
            pending: 0,
            last_flush: BatchWriteReport::default(),
        }
    }
}

/// A batcher that could not be closed: what it has come to, and why. It is not closed.
#[derive(Debug)]
pub struct BatcherCloseError {
    /// What the batcher has come to.
    pub summary: BatcherCloseReport,
    /// Why it could not be closed.
    pub source: TaosError,
}

/// The words for a batcher that could not be closed.
pub open spec fn close_text(summary: BatcherCloseReport, source: ErrorView) -> Seq<char> {
    "WriteBatcher close 失败 total_accepted="@ + number::decimal(summary.total_accepted as int)
        + " total_failed="@ + number::decimal(summary.total_failed as int) + " pending="@
        + number::decimal(summary.pending as int) + ": "@ + source.display()
}

impl BatcherCloseError {
    /// The error as a reader sees it.
    #[must_use]
    pub fn to_string(&self) -> (r: String)
        ensures
            r@ == close_text(self.summary, self.source@),
    {
        let mut out = String::from("WriteBatcher close 失败 total_accepted=");
        text::push_text(&mut out, number::decimal_usize(self.summary.total_accepted).as_str());
        text::push_text(&mut out, " total_failed=");
        text::push_text(&mut out, number::decimal_usize(self.summary.total_failed).as_str());
        text::push_text(&mut out, " pending=");
        text::push_text(&mut out, number::decimal_usize(self.summary.pending).as_str());
        text::push_text(&mut out, ": ");
        text::push_text(&mut out, self.source.to_string().as_str());
        out
    }
}

// ---------------------------------------------------------------------------
// The state
// ---------------------------------------------------------------------------

/// Points on their way into batches.
pub struct WriteBatcher {
    table: String,
    buffer: Vec<TaosPoint>,
    closed: bool,
    closing: bool,
    pending: Option<Vec<TaosPoint>>,
    last_flush: Duration,
    config: WriteBatcherConfig,
    total_accepted: usize,
    total_failed: usize,
}

/// A [`WriteBatcher`] by its values; times in nanoseconds.
#[verifier::ext_equal]
pub struct BatcherView {
    pub table: Seq<char>,
    pub buffer: Seq<PointView>,
    pub closed: bool,
    pub closing: bool,
    pub pending: Option<Seq<PointView>>,
    pub last_flush: nat,
    pub max_rows: usize,
    pub flush_interval: nat,
    pub total_accepted: usize,
    pub total_failed: usize,
}

impl View for WriteBatcher {
    type V = BatcherView;

    closed spec fn view(&self) -> BatcherView {
        BatcherView {
            table: self.table@,
            buffer: point::views(self.buffer@),
            closed: self.closed,
            closing: self.closing,
            pending: match self.pending {
                Some(points) => Some(point::views(points@)),
                None => None,
            },
            last_flush: duration::nanos(self.last_flush),
            max_rows: self.config.max_rows,
            flush_interval: duration::nanos(self.config.flush_interval),
            total_accepted: self.total_accepted,
            total_failed: self.total_failed,
        }
    }
}

/// What became of a batch that was handed out.
pub type Outcome = Result<BatchWriteReport, BatchWritePartialError>;

/// The error of a batcher that takes no more points.
pub open spec fn closed_error() -> ErrorView {
    ErrorView::Closed("WriteBatcher 已关闭"@)
}

/// The error of a batcher with pending points.
pub open spec fn pending_error() -> ErrorView {
    ErrorView::Unavailable(
        "WriteBatcher 存在未恢复 pending，须先 take_pending 或 ack_pending"@,
    )
}

/// The lesser of a sum and the greatest size.
pub open spec fn capped(a: usize, b: int) -> usize {
    if a + b > usize::MAX {
        usize::MAX
    } else {
        (a + b) as usize
    }
}

/// The points of a batch after the first so many.
pub open spec fn unconfirmed(batch: Seq<PointView>, accepted: usize) -> Seq<PointView> {
    if accepted <= batch.len() {
        batch.skip(accepted as int)
    } else {
        Seq::empty()
    }
}

impl BatcherView {
    /// Why the batcher takes nothing; `None` where it does.
    pub open spec fn refusal(self) -> Option<ErrorView> {
        if self.closed || self.closing {
            Some(closed_error())
        } else if self.pending is Some {
            Some(pending_error())
        } else {
            None
        }
    }

    /// A batch is due: there are enough points, or enough time has passed.
    pub open spec fn is_due(self, now: nat) -> bool {
        let elapsed = if now >= self.last_flush {
            now - self.last_flush
        } else {
            0
        };
        self.buffer.len() >= self.max_rows || elapsed >= self.flush_interval
    }

    /// The batcher after a point was given to it, and the batch that it hands out for it; none where
    /// it hands out nothing. A batcher that takes nothing is left as it was.
    pub open spec fn after_push(self, p: PointView, now: nat) -> (BatcherView, Seq<PointView>) {
        let taken = BatcherView { buffer: self.buffer.push(p), ..self };
        if self.refusal() is Some {
            (self, Seq::empty())
        } else if taken.is_due(now) {
            (taken.handed_out(), taken.buffer)
        } else {
            (taken, Seq::empty())
        }
    }

    /// The batcher after a batch was handed out.
    pub open spec fn handed_out(self) -> BatcherView {
        BatcherView { buffer: Seq::empty(), ..self }
    }

    /// The batcher after the outcome of a batch.
    pub open spec fn after(self, batch: Seq<PointView>, outcome: Outcome) -> BatcherView {
        match outcome {
            Ok(report) => BatcherView {
                total_accepted: capped(self.total_accepted, report.accepted as int),
                ..self
            },
            Err(partial) => BatcherView {
                total_accepted: capped(self.total_accepted, partial.report.accepted as int),
                total_failed: capped(
                    self.total_failed,
                    unconfirmed(batch, partial.report.accepted).len() as int,
                ),
                pending: Some(unconfirmed(batch, partial.report.accepted)),
                ..self
            },
        }
    }

    /// What the batcher has come to.
    pub open spec fn report(self, last_flush: BatchWriteReport) -> BatcherCloseReport {
        BatcherCloseReport {
            total_accepted: self.total_accepted,
            total_failed: self.total_failed,
            pending: match self.pending {
                Some(points) => points.len() as usize,
                None => 0,
            },
            last_flush,
        }
    }
}

/// The error that the outcome of a batch comes to.
pub open spec fn outcome_error(partial: BatchWritePartialError) -> ErrorView {
    partial.source@.with_message(types::partial_text(partial.report, partial.source@))
}

/// The error of a batcher with pending points.
fn pending_refusal() -> (r: TaosError)
    ensures
        r@ == pending_error(),
{
    TaosError::Unavailable(
        String::from("WriteBatcher 存在未恢复 pending，须先 take_pending 或 ack_pending"),
    )
}

/// The points of a batch after the first so many.
fn rest_of(batch: Vec<TaosPoint>, accepted: usize) -> (r: Vec<TaosPoint>)
    ensures
        point::views(r@) == unconfirmed(point::views(batch@), accepted),
{
    let ghost all = batch@;
    let mut batch = batch;
    if accepted >= batch.len() {
        let none: Vec<TaosPoint> = Vec::new();
        assert(point::views(none@) =~= unconfirmed(point::views(all), accepted));
        return none;
    }
    let rest = batch.split_off(accepted);
    assert(point::views(rest@) =~= point::views(all).skip(accepted as int));
    rest
}

fn add_capped(a: usize, b: usize) -> (r: usize)
    ensures
        r == capped(a, b as int),
{
    a.saturating_add(b)
}

/// What became of a batch without points: it is not sent, and counts as written. `None` where there
/// are points, and the batch is to be written.
#[must_use]
pub fn outcome_without_points(batch: &[TaosPoint]) -> (r: Option<BatchWriteReport>)
    ensures
        r == (if batch@.len() == 0 {
            Some(BatchWriteReport::nothing())
        } else {
            None
        }),
{
    if batch.len() == 0 {
        Some(BatchWriteReport::default())
    } else {
        None
    }
}

/// How closing starts.
pub enum CloseStart {
    /// The batcher was closed before.
    AlreadyClosed(BatchWriteReport),
    /// This batch is to be written first.
    Flush(Vec<TaosPoint>),
}

impl WriteBatcher {
    /// An open batcher without points. `now` is the time since any fixed moment.
    #[must_use]
    pub fn new<S: Into<String>>(table: S, config: WriteBatcherConfig, now: Duration) -> (r: Self)
        ensures
            text::becomes(table, r@.table),
            r@ == (BatcherView {
                table: r@.table,
                buffer: Seq::empty(),
                closed: false,
                closing: false,
                pending: None,
                last_flush: duration::nanos(now),
                max_rows: config.max_rows,
                flush_interval: duration::nanos(config.flush_interval),
                total_accepted: 0,
                total_failed: 0,
            }),
    {
        let table_text: String = table.into();
        assert(call_ensures(<S as Into<String>>::into, (table,), table_text));
        let buffer: Vec<TaosPoint> = Vec::new();
        assert(point::views(buffer@) =~= Seq::<PointView>::empty());
        WriteBatcher {
            table: table_text,
            buffer,
            closed: false,
            closing: false,
            pending: None,
            last_flush: now,
            config,
            total_accepted: 0,
            total_failed: 0,
        }
    }

    /// The super table that batches go to.
    #[must_use]
    pub fn table(&self) -> (r: &str)
        ensures
            r@ == self@.table,
    {
        self.table.as_str()
    }

    fn check_open(&self) -> (r: TaosResult<()>)
        ensures
            match r {
                Ok(_) => self@.refusal() is None,
                Err(e) => self@.refusal() == Some(e@),
            },
    {
        if self.closed || self.closing {
            return Err(TaosError::Closed(String::from("WriteBatcher 已关闭")));
        }
        if self.pending.is_some() {
            return Err(pending_refusal());
        }
        Ok(())
    }

    fn take_buffer(&mut self) -> (r: Vec<TaosPoint>)
        ensures
            point::views(r@) == old(self)@.buffer,
            final(self)@ == old(self)@.handed_out(),
    {
        let mut batch: Vec<TaosPoint> = Vec::new();
        std::mem::swap(&mut batch, &mut self.buffer);
        assert(point::views(self.buffer@) =~= Seq::<PointView>::empty());
        batch
    }

    /// Takes a point. Where a batch is due it is handed out, to be written and given to
    /// [`WriteBatcher::pushed`] with what became of it.
    pub fn push(&mut self, point: TaosPoint, now: Duration) -> (r: TaosResult<
        Option<Vec<TaosPoint>>,
    >)
        ensures
            ({
                let taken = BatcherView { buffer: old(self)@.buffer.push(point@), ..old(self)@ };
                match r {
                    Ok(Some(batch)) => old(self)@.refusal() is None && taken.is_due(
                        duration::nanos(now),
                    ) && point::views(batch@) == taken.buffer && final(self)@
                        == taken.handed_out(),
                    Ok(None) => old(self)@.refusal() is None && !taken.is_due(
                        duration::nanos(now),
                    ) && final(self)@ == taken,
                    Err(e) => old(self)@.refusal() == Some(e@) && final(self)@ == old(self)@,
                }
            }),
            ({
                let (after, batch) = old(self)@.after_push(point@, duration::nanos(now));
                &&& final(self)@ == after
                &&& r matches Ok(Some(points)) ==> point::views(points@) == batch
                &&& !(r matches Ok(Some(_))) ==> batch == Seq::<PointView>::empty()
            }),
    {
        match self.check_open() {
            Ok(_) => {},
            Err(e) => {
                return Err(e);
            },
        }
        let ghost before = self.buffer@;
        let ghost p = point@;
        self.buffer.push(point);
        assert(point::views(self.buffer@) =~= point::views(before).push(p));
        let interval: u128 = self.config.flush_interval.as_nanos();
        let moment: u128 = now.as_nanos();
        let last: u128 = self.last_flush.as_nanos();
        let elapsed: u128 = if moment >= last {
            moment - last
        } else {
            0
        };
        if self.buffer.len() >= self.config.max_rows || elapsed >= interval {
            Ok(Some(self.take_buffer()))
        } else {
            Ok(None)
        }
    }

    /// Takes what became of a batch from [`WriteBatcher::push`].
    pub fn pushed(&mut self, batch: Vec<TaosPoint>, outcome: Outcome, now: Duration) -> (r:
        TaosResult<()>)
        ensures
            match (r, outcome) {
                (Ok(_), Ok(_)) => final(self)@ == (BatcherView {
                    last_flush: duration::nanos(now),
                    ..old(self)@.after(point::views(batch@), outcome)
                }),
                (Err(e), Err(partial)) => e@ == outcome_error(partial) && final(self)@
                    == old(self)@.after(point::views(batch@), outcome),
                _ => false,
            },
    {
        match self.flushed(batch, outcome) {
            Ok(_) => {
                self.last_flush = now;
                Ok(())
            },
            Err(e) => Err(e),
        }
    }

    /// Hands out all points, to be written and given to [`WriteBatcher::flushed`] with what became
    /// of them.
    pub fn flush(&mut self, now: Duration) -> (r: TaosResult<Vec<TaosPoint>>)
        ensures
            match r {
                Ok(batch) => old(self)@.refusal() is None && point::views(batch@)
                    == old(self)@.buffer && final(self)@ == (BatcherView {
                    last_flush: duration::nanos(now),
                    ..old(self)@.handed_out()
                }),
                Err(e) => old(self)@.refusal() == Some(e@) && final(self)@ == old(self)@,
            },
    {
        match self.check_open() {
            Ok(_) => {},
            Err(e) => {
                return Err(e);
            },
        }
        let batch = self.take_buffer();
        self.last_flush = now;
        Ok(batch)
    }

    /// Takes what became of a batch. The points that were not confirmed become pending.
    pub fn flushed(&mut self, batch: Vec<TaosPoint>, outcome: Outcome) -> (r: TaosResult<
        BatchWriteReport,
    >)
        ensures
            final(self)@ == old(self)@.after(point::views(batch@), outcome),
            match (r, outcome) {
                (Ok(a), Ok(b)) => a == b,
                (Err(e), Err(partial)) => e@ == outcome_error(partial),
                _ => false,
            },
    {
        match outcome {
            Ok(report) => {
                self.total_accepted = add_capped(self.total_accepted, report.accepted);
                Ok(report)
            },
            Err(partial) => {
                let rest = rest_of(batch, partial.report.accepted);
                self.total_accepted = add_capped(self.total_accepted, partial.report.accepted);
                self.total_failed = add_capped(self.total_failed, rest.len());
                self.pending = Some(rest);
                Err(TaosError::from(partial))
            },
        }
    }

    /// Starts to close: no point is taken any more, and all that are left are handed out, to be
    /// written and given to [`WriteBatcher::close_done`] with what became of them. Pending points
    /// keep a batcher open.
    pub fn close(&mut self, now: Duration) -> (r: Result<CloseStart, BatcherCloseError>)
        ensures
            match r {
                Ok(CloseStart::AlreadyClosed(report)) => old(self)@.closed && report
                    == BatchWriteReport::nothing() && final(self)@ == old(self)@,
                Ok(CloseStart::Flush(batch)) => !old(self)@.closed && old(self)@.pending is None
                    && point::views(batch@) == old(self)@.buffer && final(self)@ == (BatcherView {
                    closing: true,
                    last_flush: duration::nanos(now),
                    ..old(self)@.handed_out()
                }),
                Err(e) => !old(self)@.closed && old(self)@.pending is Some && e.summary
                    == old(self)@.report(BatchWriteReport::nothing()) && e.source@ == pending_error()
                    && final(self)@ == old(self)@,
            },
    {
        if self.closed {
            return Ok(CloseStart::AlreadyClosed(BatchWriteReport::default()));
        }
        if self.pending.is_some() {
            return Err(
                BatcherCloseError {
                    summary: self.close_report_from(BatchWriteReport::default()),
                    source: pending_refusal(),
                },
            );
        }
        self.closing = true;
        let batch = self.take_buffer();
        self.last_flush = now;
        Ok(CloseStart::Flush(batch))
    }

    /// Takes what became of the last batch. Where it was written, and nothing else is pending, the
    /// batcher is closed; otherwise it is open again.
    pub fn close_done(&mut self, batch: Vec<TaosPoint>, outcome: Outcome) -> (r: Result<
        BatchWriteReport,
        BatcherCloseError,
    >)
        ensures
            ({
                let after = old(self)@.after(point::views(batch@), outcome);
                match outcome {
                    Ok(report) => if after.pending is Some {
                        &&& r matches Err(e)
                        &&& e.summary == after.report(report)
                        &&& e.source@ == pending_error()
                        &&& final(self)@ == (BatcherView { closing: false, ..after })
                    } else {
                        &&& r == Ok::<BatchWriteReport, BatcherCloseError>(report)
                        &&& final(self)@ == (BatcherView { closed: true, ..after })
                    },
                    Err(partial) => {
                        &&& r matches Err(e)
                        &&& e.summary == after.report(partial.report)
                        &&& e.source@ == outcome_error(partial)
                        &&& final(self)@ == (BatcherView { closing: false, ..after })
                    },
                }
            }),
    {
        let flush = match &outcome {
            Ok(report) => *report,
            Err(partial) => partial.report,
        };
        match self.flushed(batch, outcome) {
            Ok(report) => {
                if self.pending.is_some() {
                    self.closing = false;
                    return Err(
                        BatcherCloseError {
                            summary: self.close_report_from(report),
                            source: pending_refusal(),
                        },
                    );
                }
                self.closed = true;
                Ok(report)
            },
            Err(source) => {
                self.closing = false;
                Err(
                    BatcherCloseError {
                        summary: self.close_report_from(flush),
                        source,
                    },
                )
            },
        }
    }

    /// Whether there are pending points.
    #[must_use]
    pub fn has_pending(&self) -> (r: bool)
        ensures
            r == (self@.pending is Some),
    {
        self.pending.is_some()
    }

    /// How many points are pending.
    #[must_use]
    pub fn pending_len(&self) -> (r: usize)
        ensures
            r == (match self@.pending {
                Some(points) => points.len() as int,
                None => 0,
            }),
    {
        match &self.pending {
            Some(points) => points.len(),
            None => 0,
        }
    }

    /// Hands over the pending points; the batcher takes points again.
    pub fn take_pending(&mut self) -> (r: TaosResult<Vec<TaosPoint>>)
        ensures
            match r {
                Ok(points) => old(self)@.pending == Some(point::views(points@)) && final(self)@
                    == (BatcherView { pending: None, ..old(self)@ }),
                Err(e) => old(self)@.pending is None && e@ == ErrorView::Invalid(
                    "WriteBatcher 无 pending 可转移"@,
                ) && final(self)@ == old(self)@,
            },
    {
        match self.pending.take() {
            Some(points) => Ok(points),
            None => Err(TaosError::Invalid(String::from("WriteBatcher 无 pending 可转移"))),
        }
    }

    /// Lets the pending points go: someone else has taken care of them.
    pub fn ack_pending(&mut self) -> (r: TaosResult<()>)
        ensures
            match r {
                Ok(_) => old(self)@.pending is Some && final(self)@ == (BatcherView {
                    pending: None,
                    ..old(self)@
                }),
                Err(e) => old(self)@.pending is None && e@ == ErrorView::Invalid(
                    "WriteBatcher 无 pending 可确认"@,
                ) && final(self)@ == old(self)@,
            },
    {
        if self.pending.is_none() {
            return Err(TaosError::Invalid(String::from("WriteBatcher 无 pending 可确认")));
        }
        self.pending = None;
        Ok(())
    }

    /// How many points were committed, and how many were not.
    #[must_use]
    pub fn totals(&self) -> (r: (usize, usize))
        ensures
            r == (self@.total_accepted, self@.total_failed),
    {
        (self.total_accepted, self.total_failed)
    }

    /// What the batcher has come to.
    #[must_use]
    pub fn close_report(&self) -> (r: BatcherCloseReport)
        ensures
            r == self@.report(BatchWriteReport::nothing()),
    {
        self.close_report_from(BatchWriteReport::default())
    }

    fn close_report_from(&self, last_flush: BatchWriteReport) -> (r: BatcherCloseReport)
        ensures
            r == self@.report(last_flush),
    {
        BatcherCloseReport {
            total_accepted: self.total_accepted,
            total_failed: self.total_failed,
            pending: self.pending_len(),
            last_flush,
        }
    }
}

// ---------------------------------------------------------------------------
// Laws
// ---------------------------------------------------------------------------

/// No point of a batch is lost: after a failure the points that were committed and those that are
/// pending make up the batch, in order.
pub proof fn law_batch_is_accepted_or_pending(
    batcher: BatcherView,
    batch: Seq<PointView>,
    partial: BatchWritePartialError,
)
    requires
        partial.report.accepted <= batch.len(),
    ensures
        ({
            let after = batcher.after(batch, Err(partial));
            after.pending is Some && batch.take(partial.report.accepted as int)
                + after.pending->0 == batch
        }),
{
    let after = batcher.after(batch, Err(partial));
    assert(batch.take(partial.report.accepted as int) + after.pending->0 =~= batch);
}

/// Pending points stop the batcher: nothing is taken and nothing is flushed before they are handed
/// over or let go, and then it goes on as before.
pub proof fn law_pending_stops_the_batcher(batcher: BatcherView)
    requires
        !batcher.closed,
        !batcher.closing,
    ensures
        (batcher.pending is Some) == (batcher.refusal() == Some(pending_error())),
        (BatcherView { pending: None, ..batcher }).refusal() is None,
{
}

/// While a batcher closes, and after it has closed, it takes nothing: no point can slip in behind
/// the last batch.
pub proof fn law_closing_takes_nothing(batcher: BatcherView)
    requires
        batcher.closing || batcher.closed,
    ensures
        batcher.refusal() == Some(closed_error()),
{
}

/// A batcher whose last batch failed is open for another attempt, with the points that were not
/// confirmed pending.
pub proof fn law_failed_close_keeps_the_points(
    batcher: BatcherView,
    batch: Seq<PointView>,
    partial: BatchWritePartialError,
)
    requires
        !batcher.closed,
        partial.report.accepted <= batch.len(),
    ensures
        ({
            let after = BatcherView { closing: false, ..batcher.after(batch, Err(partial)) };
            &&& !after.closed
            &&& after.refusal() == Some(pending_error())
            &&& after.pending == Some(batch.skip(partial.report.accepted as int))
        }),
{
}

/// The totals tell of every point of a batch, committed or not.
pub proof fn law_totals_count_every_point(
    batcher: BatcherView,
    batch: Seq<PointView>,
    outcome: Outcome,
)
    requires
        match outcome {
            Ok(report) => report.accepted == batch.len(),
            Err(partial) => partial.report.accepted <= batch.len(),
        },
        batcher.total_accepted + batcher.total_failed + batch.len() <= usize::MAX,
    ensures
        ({
            let after = batcher.after(batch, outcome);
            after.total_accepted + after.total_failed == batcher.total_accepted
                + batcher.total_failed + batch.len()
        }),
{
}

/// A batch is due by rows or by time, whichever comes first: once there are as many points as make
/// a batch, or once the interval has passed since the last flush, however few points there are; and
/// not before.
pub proof fn law_batch_is_due_by_rows_or_by_time(batcher: BatcherView, p: PointView, now: nat)
    requires
        !batcher.closed,
        !batcher.closing,
        batcher.pending is None,
    ensures
        ({
            let (after, batch) = batcher.after_push(p, now);
            let all = batcher.buffer.push(p);
            let full = batcher.buffer.len() + 1 >= batcher.max_rows;
            let late = now >= batcher.last_flush + batcher.flush_interval;
            &&& full || late ==> batch == all && after.buffer.len() == 0
            &&& !full && !late && batcher.flush_interval > 0 ==> batch.len() == 0 && after.buffer
                == all
        }),
{
}

/// A point that is refused is not taken: while points are pending, while the batcher closes and after
/// it has closed, a push changes nothing and hands out nothing.
pub proof fn law_refused_push_changes_nothing(batcher: BatcherView, p: PointView, now: nat)
    requires
        batcher.closed || batcher.closing || batcher.pending is Some,
    ensures
        batcher.after_push(p, now) == (batcher, Seq::<PointView>::empty()),
{
}

/// The batcher after some points were given to it at some times, and all that it handed out.
pub open spec fn after_pushes(batcher: BatcherView, pushes: Seq<(PointView, nat)>) -> (
    BatcherView,
    Seq<PointView>,
)
    decreases pushes.len(),
{
    if pushes.len() == 0 {
        (batcher, Seq::empty())
    } else {
        let (before, handed) = after_pushes(batcher, pushes.drop_last());
        let (after, batch) = before.after_push(pushes.last().0, pushes.last().1);
        (after, handed + batch)
    }
}

/// No point is lost, doubled or put before another on its way into a batch: what was handed out,
/// and then what is still there, is what was there and what was given, in order. A batcher never
/// holds as many points as make a batch.
pub proof fn law_points_keep_their_order(batcher: BatcherView, pushes: Seq<(PointView, nat)>)
    requires
        !batcher.closed,
        !batcher.closing,
        batcher.pending is None,
        batcher.buffer.len() < batcher.max_rows,
    ensures
        ({
            let (after, handed) = after_pushes(batcher, pushes);
            &&& handed + after.buffer == batcher.buffer + pushes.map_values(
                |push: (PointView, nat)| push.0,
            )
            &&& after.buffer.len() < after.max_rows
            &&& after == (BatcherView { buffer: after.buffer, ..batcher })
        }),
    decreases pushes.len(),
{
    let points = pushes.map_values(|push: (PointView, nat)| push.0);
    let (after, handed) = after_pushes(batcher, pushes);
    if pushes.len() == 0 {
        assert(handed + after.buffer =~= batcher.buffer + points);
    } else {
        let earlier = pushes.drop_last();
        law_points_keep_their_order(batcher, earlier);
        let (before, out) = after_pushes(batcher, earlier);
        let p = pushes.last().0;
        assert(points =~= earlier.map_values(|push: (PointView, nat)| push.0).push(p));
        let (next, batch) = before.after_push(p, pushes.last().1);
        assert(batch + next.buffer =~= before.buffer.push(p));
        assert(handed + after.buffer =~= (out + before.buffer).push(p));
        assert(handed + after.buffer =~= batcher.buffer + points);
    }
}

/// What becomes of one batch touches nothing that came after it: the points that wait, the table,
/// the times and whether the batcher is closed stay as they are. A batch that was written leaves
/// nothing pending that was not, and counts as many points as it says.
pub proof fn law_outcome_touches_only_its_batch(
    batcher: BatcherView,
    batch: Seq<PointView>,
    outcome: Outcome,
)
    ensures
        ({
            let after = batcher.after(batch, outcome);
            &&& after.buffer == batcher.buffer
            &&& after.table == batcher.table
            &&& after.last_flush == batcher.last_flush
            &&& after.closed == batcher.closed
            &&& after.closing == batcher.closing
            &&& outcome is Ok ==> after.pending == batcher.pending && after.total_failed
                == batcher.total_failed
            &&& outcome is Ok && batcher.total_accepted + outcome->Ok_0.accepted <= usize::MAX
                ==> after.total_accepted == batcher.total_accepted + outcome->Ok_0.accepted
        }),
{
}

/// The report of a batcher tells its totals and how many points are pending.
pub proof fn law_report_tells_the_state(batcher: BatcherView, last_flush: BatchWriteReport)
    requires
        batcher.pending matches Some(points) ==> points.len() <= usize::MAX,
    ensures
        ({
            let report = batcher.report(last_flush);
            &&& report.total_accepted == batcher.total_accepted
            &&& report.total_failed == batcher.total_failed
            &&& report.last_flush == last_flush
            &&& batcher.pending is None ==> report.pending == 0
            &&& batcher.pending matches Some(points) ==> report.pending == points.len()
        }),
{
}

/// The words for a batcher that did not close well tell each number of the summary under its name,
/// and end with the cause as a reader sees it.
pub proof fn law_close_text_tells_the_summary(summary: BatcherCloseReport, source: ErrorView)
    ensures
        text::holds(
            close_text(summary, source),
            " total_accepted="@ + number::decimal(summary.total_accepted as int) + " "@,
        ),
        text::holds(
            close_text(summary, source),
            " total_failed="@ + number::decimal(summary.total_failed as int) + " "@,
        ),
        text::holds(
            close_text(summary, source),
            " pending="@ + number::decimal(summary.pending as int) + ":"@,
        ),
        source.display().is_suffix_of(close_text(summary, source)),
{
    reveal_strlit("WriteBatcher close 失败 total_accepted=");
    reveal_strlit("WriteBatcher close 失败");
    reveal_strlit(" total_accepted=");
    reveal_strlit(" total_failed=");
    reveal_strlit("total_failed=");
    reveal_strlit(" pending=");
    reveal_strlit("pending=");
    reveal_strlit(" ");
    reveal_strlit(": ");
    reveal_strlit(":");
    let m = close_text(summary, source);
    let a = number::decimal(summary.total_accepted as int);
    let f = number::decimal(summary.total_failed as int);
    let p = number::decimal(summary.pending as int);
    let d = source.display();
    let head = "WriteBatcher close 失败"@;
    text::lemma_holds(
        m,
        head,
        " total_accepted="@ + a + " "@,
        "total_failed="@ + f + " pending="@ + p + ": "@ + d,
    );
    text::lemma_holds(
        m,
        head + " total_accepted="@ + a,
        " total_failed="@ + f + " "@,
        "pending="@ + p + ": "@ + d,
    );
    text::lemma_holds(
        m,
        head + " total_accepted="@ + a + " total_failed="@ + f,
        " pending="@ + p + ":"@,
        " "@ + d,
    );
    assert(m.subrange(m.len() - d.len(), m.len() as int) =~= d);
}

/// The error of a batch that was not written whole is of the class of its cause, and its message
/// tells how far the batch came and ends with the cause as a reader sees it.
pub proof fn law_outcome_error_tells_the_cause(partial: BatchWritePartialError)
    ensures
        ({
            let e = outcome_error(partial);
            &&& e == partial.source@.with_message(e.message())
            &&& e.is_retryable() == partial.source@.is_retryable()
            &&& partial.source@.display().is_suffix_of(e.message())
            &&& text::holds(
                e.message(),
                " accepted="@ + number::decimal(partial.report.accepted as int) + " "@,
            )
        }),
{
    types::law_partial_text_tells_names(partial.report, partial.source@);
}

/// Totals grow by what is added and stop at the greatest size.
pub proof fn law_totals_stop_at_the_greatest(a: usize, b: int)
    requires
        0 <= b,
    ensures
        capped(a, b) >= a,
        capped(a, b) == a + b || (capped(a, b) == usize::MAX && a + b > usize::MAX),
{
}

/// Why a batcher takes nothing: one that is closed says so, which no retry mends; one that holds
/// points whose fate is not settled is not available until it is.
pub proof fn law_batcher_refusals_say_why(batcher: BatcherView)
    ensures
        batcher.closed || batcher.closing ==> batcher.refusal() is Some && batcher.refusal()->0
            is Closed,
        !batcher.closed && !batcher.closing && batcher.pending is Some ==> batcher.refusal() is Some
            && batcher.refusal()->0 is Unavailable,
        !batcher.closed && !batcher.closing && batcher.pending is None ==> batcher.refusal() is None,
{
}

/// Handing out a batch empties the batcher and changes nothing else of it.
pub proof fn law_handing_out_only_empties(batcher: BatcherView)
    ensures
        batcher.handed_out().buffer.len() == 0,
        (BatcherView { buffer: batcher.buffer, ..batcher.handed_out() }) == batcher,
{
}

} // verus!
