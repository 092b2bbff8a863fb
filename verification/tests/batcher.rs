//! Points gathered until a batch is due.

use std::time::Duration;

use taosx::batcher::{outcome_without_points, CloseStart, Outcome};
use taosx::{
    BatchWritePartialError, BatchWriteReport, BatcherCloseReport, TaosError, TaosPoint, WriteBatcher,
    WriteBatcherConfig,
};

fn at(ms: u64) -> Duration {
    Duration::from_millis(ms)
}

fn batcher(max_rows: usize) -> WriteBatcher {
    WriteBatcher::new(
        "ticks",
        WriteBatcherConfig {
            max_rows,
            flush_interval: Duration::from_secs(60),
            ..WriteBatcherConfig::default()
        },
        at(0),
    )
}

fn point(n: i64) -> TaosPoint {
    TaosPoint::new("A", n, "1", "2")
}

fn written(batch: &[TaosPoint]) -> Outcome {
    Ok(BatchWriteReport {
        accepted: batch.len(),
        failed: 0,
        chunks_ok: 1,
        chunks_total: 1,
    })
}

fn stopped(batch: &[TaosPoint], accepted: usize) -> Outcome {
    Err(BatchWritePartialError {
        report: BatchWriteReport {
            accepted,
            failed: batch.len() - accepted,
            chunks_ok: accepted,
            chunks_total: batch.len(),
        },
        source: TaosError::Unavailable("down".into()),
    })
}

#[test]
fn batch_is_due_at_the_row_threshold() {
    let mut batcher = batcher(2);
    assert_eq!(batcher.table(), "ticks");
    assert!(batcher.push(point(1), at(1)).expect("open").is_none());
    let batch = batcher.push(point(2), at(2)).expect("open").expect("due");
    assert_eq!(batch, vec![point(1), point(2)]);
    let outcome = written(&batch);
    batcher.pushed(batch, outcome, at(3)).expect("written");
    assert_eq!(batcher.totals(), (2, 0));
    assert!(batcher.push(point(3), at(4)).expect("open").is_none());
}

#[test]
fn batch_is_due_after_the_interval() {
    let mut batcher = WriteBatcher::new(
        "ticks",
        WriteBatcherConfig {
            max_rows: 100,
            flush_interval: at(20),
            ..WriteBatcherConfig::default()
        },
        at(0),
    );
    assert!(batcher.push(point(1), at(19)).expect("open").is_none());
    let batch = batcher.push(point(2), at(20)).expect("open").expect("due");
    assert_eq!(batch.len(), 2);
    let outcome = written(&batch);
    batcher.pushed(batch, outcome, at(21)).expect("written");
    assert!(batcher.push(point(3), at(40)).expect("open").is_none());
    assert!(batcher.push(point(4), at(41)).expect("open").is_some());
}

#[test]
fn failure_leaves_the_rest_pending_and_stops_the_batcher() {
    let mut batcher = batcher(100);
    for n in 1..=3 {
        assert!(batcher.push(point(n), at(1)).expect("open").is_none());
    }
    let batch = batcher.flush(at(2)).expect("open");
    let outcome = stopped(&batch, 1);
    let error = batcher.flushed(batch, outcome).expect_err("stopped");
    assert!(error.to_string().contains("accepted=1"), "{error:?}");
    assert!(batcher.has_pending());
    assert_eq!(batcher.pending_len(), 2);
    assert_eq!(batcher.totals(), (1, 2));

    let error = batcher.push(point(4), at(3)).expect_err("pending");
    assert!(matches!(error, TaosError::Unavailable(_)), "{error:?}");
    assert!(batcher.flush(at(3)).is_err());
    let error = batcher.close(at(3)).err().expect("pending");
    assert_eq!(error.summary.pending, 2);
    assert!(error.to_string().contains("pending"), "{}", error.to_string());

    assert_eq!(
        batcher.take_pending().expect("pending"),
        vec![point(2), point(3)]
    );
    assert!(batcher.take_pending().is_err());
    assert!(batcher.push(point(4), at(4)).expect("open").is_none());
}

#[test]
fn pending_points_can_be_let_go() {
    let mut batcher = batcher(100);
    assert!(batcher.ack_pending().is_err());
    assert!(batcher.push(point(1), at(1)).expect("open").is_none());
    let batch = batcher.flush(at(2)).expect("open");
    let outcome = stopped(&batch, 0);
    assert!(batcher.flushed(batch, outcome).is_err());
    batcher.ack_pending().expect("pending");
    assert_eq!(batcher.pending_len(), 0);
}

#[test]
fn closing_flushes_and_then_takes_nothing() {
    let mut batcher = batcher(100);
    assert!(batcher.push(point(1), at(1)).expect("open").is_none());
    let batch = match batcher.close(at(2)) {
        Ok(CloseStart::Flush(batch)) => batch,
        _ => panic!("one point is left"),
    };
    let error = batcher.push(point(2), at(3)).expect_err("closing");
    assert!(matches!(error, TaosError::Closed(_)), "{error:?}");
    let outcome = written(&batch);
    let report = batcher.close_done(batch, outcome).ok().expect("written");
    assert_eq!(report.accepted, 1);
    assert!(matches!(
        batcher.close(at(4)),
        Ok(CloseStart::AlreadyClosed(_))
    ));
    assert!(batcher.push(point(3), at(5)).is_err());
    assert_eq!(batcher.close_report().total_accepted, 1);
}

#[test]
fn failed_close_keeps_the_points() {
    let mut batcher = batcher(100);
    assert!(batcher.push(point(1), at(1)).expect("open").is_none());
    assert!(batcher.push(point(2), at(1)).expect("open").is_none());
    let batch = match batcher.close(at(2)) {
        Ok(CloseStart::Flush(batch)) => batch,
        _ => panic!("points are left"),
    };
    let outcome = stopped(&batch, 1);
    let error = batcher.close_done(batch, outcome).err().expect("stopped");
    assert_eq!(error.summary.total_accepted, 1);
    assert_eq!(error.summary.total_failed, 1);
    assert_eq!(error.summary.pending, 1);
    assert_eq!(
        batcher.take_pending().expect("pending"),
        vec![point(2)]
    );
    assert!(batcher.push(point(3), at(3)).expect("open").is_none());
}

#[test]
fn empty_flush_is_complete_and_offline() {
    let mut batcher = WriteBatcher::new("sc_batcher", WriteBatcherConfig::default(), at(0));
    let batch = batcher.flush(at(1)).expect("open");
    let nothing = outcome_without_points(&batch).expect("nothing to send");
    let report = batcher.flushed(batch, Ok(nothing)).expect("written");
    assert_eq!(report, BatchWriteReport::default());
    assert!(report.is_complete());
    assert!(!batcher.has_pending());
    assert_eq!(batcher.close_report(), BatcherCloseReport::default());
    assert!(outcome_without_points(&[point(1)]).is_none());
}

#[test]
fn failed_close_reports_its_flush() {
    let mut batcher = batcher(100);
    assert!(batcher.push(point(1), at(1)).expect("open").is_none());
    assert!(batcher.push(point(2), at(2)).expect("open").is_none());
    let batch = match batcher.close(at(3)).ok().expect("no pending") {
        CloseStart::Flush(batch) => batch,
        CloseStart::AlreadyClosed(_) => panic!("open"),
    };
    let outcome = stopped(&batch, 1);
    let error = batcher.close_done(batch, outcome).err().expect("stopped");
    assert_eq!(
        error.summary,
        BatcherCloseReport {
            total_accepted: 1,
            total_failed: 1,
            pending: 1,
            last_flush: BatchWriteReport {
                accepted: 1,
                failed: 1,
                chunks_ok: 1,
                chunks_total: 2,
            },
        }
    );
    assert_eq!(batcher.close_report().last_flush, BatchWriteReport::default());
    assert_eq!(batcher.take_pending().expect("pending"), vec![point(2)]);
    assert!(batcher.push(point(3), at(4)).expect("open").is_none());
    assert!(matches!(batcher.close(at(5)), Ok(CloseStart::Flush(_))));
}
