//! Errors, counters, points, streams and retries.

use std::time::Duration;

use taosx::client::sql::validate_chunk_hint;
use taosx::error::{TDCODE_BUSY, TDCODE_TABLE_NOT_EXIST, TDCODE_TABLE_NOT_EXIST_LEGACY};
use taosx::metrics::{record_ws_probe, OpCounters, WsProbeCounters};
use taosx::retry::{next_jitter_state, unit_sample, RetryStep};
use taosx::{
    ws_probe_totals, RetryPolicy, TaosError, TaosMetricsSnapshot, TaosPoint, TaosQueryStream,
    TaosResult,
};

#[test]
fn taos_codes_keep_source_semantics() {
    assert!(TaosError::from_taos_code(TDCODE_BUSY, "繁忙").is_retryable());
    assert!(matches!(
        TaosError::from_taos_code(TDCODE_BUSY, "繁忙"),
        TaosError::Unavailable(_)
    ));

    let not_exist = TaosError::from_taos_code(TDCODE_TABLE_NOT_EXIST, "表不存在");
    assert!(not_exist.is_not_found());
    assert!(!not_exist.is_retryable());
    assert_eq!(not_exist.taos_code(), Some(TDCODE_TABLE_NOT_EXIST));
    assert!(TaosError::from_taos_code(TDCODE_TABLE_NOT_EXIST_LEGACY, "").is_not_found());

    assert!(matches!(
        TaosError::from_taos_code(42, "语法错误"),
        TaosError::Invalid(_)
    ));
    assert!(matches!(
        TaosError::from_taos_code(-1, "内部错误"),
        TaosError::Backend { .. }
    ));
    assert_eq!(
        TaosError::from_taos_code(-1, "内部错误").taos_code(),
        Some(-1)
    );
}

#[test]
fn http_status_mapping_is_classified() {
    assert!(matches!(
        TaosError::from_http_status(408, ""),
        TaosError::Timeout(_)
    ));
    assert!(matches!(
        TaosError::from_http_status(429, ""),
        TaosError::Unavailable(_)
    ));
    assert!(matches!(
        TaosError::from_http_status(503, ""),
        TaosError::Unavailable(_)
    ));
    assert!(TaosError::from_http_status(503, "").is_retryable());
    assert!(!TaosError::from_http_status(401, "").is_retryable());
    assert!(matches!(
        TaosError::from_http_status(401, ""),
        TaosError::Backend { .. }
    ));
}

#[test]
fn retryable_matrix_is_exhaustive() {
    let retryable = [
        TaosError::Connection("x".into()),
        TaosError::Unavailable("x".into()),
        TaosError::Timeout("x".into()),
        TaosError::from(std::io::Error::other("x")),
    ];
    for error in retryable {
        assert!(error.is_retryable(), "{error:?} 应可重试");
    }

    let permanent = [
        TaosError::Config("x".into()),
        TaosError::backend("x"),
        TaosError::Serialization("x".into()),
        TaosError::Invalid("x".into()),
        TaosError::Closed("x".into()),
        TaosError::Unsupported("x".into()),
    ];
    for error in permanent {
        assert!(!error.is_retryable(), "{error:?} 不应可重试");
    }
}

#[test]
fn with_message_preserves_variant_and_code() {
    let error = TaosError::from_taos_code(-1, "原始").with_message("补充上下文");
    assert!(error.to_string().contains("补充上下文"));
    assert_eq!(error.taos_code(), Some(-1));
    assert!(matches!(
        TaosError::Invalid("x".into()).with_message("y"),
        TaosError::Invalid(_)
    ));
}

#[test]
fn io_error_converts_via_from() {
    fn read() -> TaosResult<()> {
        Err(std::io::Error::new(std::io::ErrorKind::UnexpectedEof, "eof").into())
    }
    assert!(matches!(read(), Err(TaosError::Io(_))));
}

#[test]
fn io_error_keeps_its_kind_under_a_new_message() {
    let error = TaosError::from(std::io::Error::new(std::io::ErrorKind::TimedOut, "late"))
        .with_message("later");
    match error {
        TaosError::Io(inner) => {
            assert_eq!(inner.kind, std::io::ErrorKind::TimedOut);
            assert_eq!(inner.message, "later");
        }
        other => panic!("{other:?}"),
    }
}

#[test]
fn error_texts_name_their_class() {
    let texts = [
        (TaosError::Config("m".into()), "配置无效: m"),
        (TaosError::Connection("m".into()), "连接失败: m"),
        (TaosError::backend("m"), "远端返回错误(code=0): m"),
        (TaosError::Unavailable("m".into()), "远端暂时不可用: m"),
        (TaosError::Serialization("m".into()), "序列化失败: m"),
        (TaosError::from(std::io::Error::other("m")), "I/O 失败: m"),
        (TaosError::Timeout("m".into()), "操作超时: m"),
        (TaosError::Invalid("m".into()), "参数无效: m"),
        (TaosError::Closed("m".into()), "资源已关闭: m"),
        (TaosError::Unsupported("m".into()), "不支持的操作: m"),
    ];
    for (error, text) in texts {
        assert_eq!(error.to_string(), text);
    }
}

#[test]
fn counters_accumulate_with_bytes() {
    let mut counters = OpCounters::new();
    counters.inc_sql_ok();
    counters.inc_sql_err();
    counters.inc_write_ok();
    counters.inc_query_ok();
    counters.inc_query_err();
    counters.inc_ping_ok();
    counters.inc_ping_err();
    counters.inc_health_ready();
    counters.inc_health_not_ready();
    counters.inc_write_err();
    counters.add_sql_bytes(120);
    counters.add_response_bytes(4096);

    let snapshot = counters.snapshot((0, 0));
    assert_eq!(snapshot.sql_ok, 1);
    assert_eq!(snapshot.sql_err, 1);
    assert_eq!(snapshot.write_ok, 1);
    assert_eq!(snapshot.sql_bytes, 120);
    assert_eq!(snapshot.response_bytes, 4096);
    assert!(snapshot.total_events() >= 9);

    let text = snapshot.to_prometheus_text();
    assert!(text.contains("taosx_ops_total"));
    assert!(text.contains("op=\"sql\""));
    assert!(text.contains("taosx_bytes_total{op=\"request\"} 120"));
    assert!(text.contains("taosx_bytes_total{op=\"response\"} 4096"));
}

#[test]
fn every_line_of_the_exposition_has_its_number() {
    let snapshot = TaosMetricsSnapshot {
        sql_ok: 1,
        sql_err: 2,
        write_ok: 3,
        write_err: 4,
        query_ok: 5,
        query_err: 6,
        ping_ok: 7,
        ping_err: 8,
        health_ready: 9,
        health_not_ready: 10,
        ws_probe_ok: 11,
        ws_probe_err: 12,
        sql_bytes: 13,
        response_bytes: 14,
    };
    let text = snapshot.to_prometheus_text();
    for n in 1..=14 {
        assert_eq!(
            text.lines()
                .filter(|line| line.ends_with(&format!(" {n}")))
                .count(),
            1,
            "{n}: {text}"
        );
    }
    assert_eq!(snapshot.total_events(), 78);
}

#[test]
fn probes_are_counted_apart() {
    let mut counters = WsProbeCounters { ok: 0, err: 0 };
    record_ws_probe(&mut counters, true);
    record_ws_probe(&mut counters, false);
    record_ws_probe(&mut counters, false);
    assert_eq!(ws_probe_totals(&counters), (1, 2));
}

#[test]
fn constructor_preserves_protocol_cells() {
    let point = TaosPoint::new("series-a", 42, "1.2300", "4.5600");
    assert_eq!(point.timestamp_ns, 42);
    assert_eq!(point.tag_value, "series-a");
    assert_eq!(point.values, ["1.2300", "4.5600"]);
}

#[test]
fn constructor_accepts_owned_and_borrowed() {
    let owned = TaosPoint::new(
        String::from("A"),
        1,
        String::from("0.1"),
        String::from("0.2"),
    );
    let borrowed = TaosPoint::new("A", 1, "0.1", "0.2");
    assert_eq!(owned, borrowed);
}

#[test]
fn backoff_is_exponential_and_capped() {
    let policy = RetryPolicy {
        max_attempts: 8,
        initial_backoff: Duration::from_millis(50),
        max_backoff: Duration::from_millis(400),
        deadline: None,
    };
    assert_eq!(policy.exponential_backoff(0), Duration::from_millis(50));
    assert_eq!(policy.exponential_backoff(1), Duration::from_millis(100));
    assert_eq!(policy.exponential_backoff(2), Duration::from_millis(200));
    assert_eq!(policy.exponential_backoff(3), Duration::from_millis(400));
    assert_eq!(
        policy.exponential_backoff(9),
        Duration::from_millis(400),
        "必须被 max_backoff 截断"
    );
}

#[test]
fn huge_backoff_stays_at_the_cap() {
    let policy = RetryPolicy {
        max_attempts: 40,
        initial_backoff: Duration::from_nanos(1),
        max_backoff: Duration::MAX,
        deadline: None,
    };
    assert_eq!(policy.exponential_backoff(31), Duration::from_nanos(1 << 31));
    assert_eq!(
        policy.exponential_backoff(32),
        Duration::from_nanos(4_294_967_295)
    );
    assert_eq!(
        policy.exponential_backoff(4_000_000_000),
        Duration::from_nanos(4_294_967_295)
    );
    let long = RetryPolicy {
        initial_backoff: Duration::MAX,
        ..policy
    };
    assert_eq!(long.exponential_backoff(3), Duration::MAX);
}

/// The base of the back-off, strayed by a ratio and a sample, within the cap.
fn compute_backoff(
    policy: &RetryPolicy,
    jitter_ratio: f64,
    attempt: u32,
    unit_sample: f64,
) -> Duration {
    let base = policy.exponential_backoff(attempt);
    let ratio = jitter_ratio.clamp(0.0, 1.0);
    let factor = 1.0 - ratio + 2.0 * ratio * unit_sample.clamp(0.0, 1.0);
    policy.strayed_backoff((base.as_nanos() as f64 * factor).max(0.0) as u64)
}

#[test]
fn jitter_stays_within_ratio_and_cap() {
    let policy = RetryPolicy {
        initial_backoff: Duration::from_millis(100),
        max_backoff: Duration::from_millis(100),
        ..RetryPolicy::default()
    };
    assert_eq!(
        compute_backoff(&policy, 0.5, 0, 0.0),
        Duration::from_millis(50)
    );
    assert_eq!(
        compute_backoff(&policy, 0.5, 0, 0.5),
        Duration::from_millis(100)
    );
    assert_eq!(
        compute_backoff(&policy, 0.5, 0, 1.0),
        Duration::from_millis(100),
        "抖动后仍受上限约束"
    );
    assert_eq!(
        compute_backoff(&policy, 0.0, 0, 0.9),
        Duration::from_millis(100)
    );
}

#[test]
fn retry_backoff_is_exponential_jittered_and_capped() {
    let policy = RetryPolicy {
        max_attempts: 6,
        initial_backoff: Duration::from_millis(100),
        max_backoff: Duration::from_millis(800),
        deadline: Some(Duration::from_secs(10)),
    };
    assert_eq!(
        compute_backoff(&policy, 0.0, 0, 0.5),
        Duration::from_millis(100)
    );
    assert_eq!(policy.exponential_backoff(1), Duration::from_millis(200));
    assert_eq!(policy.exponential_backoff(2), Duration::from_millis(400));
    assert_eq!(policy.exponential_backoff(3), Duration::from_millis(800));
    assert_eq!(policy.exponential_backoff(20), Duration::from_millis(800));

    for (attempt, sample, millis) in [
        (0, 0.0, 50),
        (0, 0.5, 100),
        (0, 1.0, 150),
        (3, 0.5, 800),
        (3, 1.0, 800),
        (9, 1.0, 800),
    ] {
        assert_eq!(
            compute_backoff(&policy, 0.5, attempt, sample),
            Duration::from_millis(millis)
        );
    }
    let mut state: u64 = 0;
    for attempt in 0..8 {
        state = next_jitter_state(state, 7);
        let sample = unit_sample(state) as f64 / (1_u64 << 53) as f64;
        assert!(compute_backoff(&policy, 0.5, attempt, sample) <= policy.max_backoff);
    }

    assert!(RetryPolicy::is_retryable(&TaosError::Unavailable(
        "x".to_owned()
    )));
    assert!(!RetryPolicy::is_retryable(&TaosError::Invalid(
        "x".to_owned()
    )));
    assert_eq!(RetryPolicy::default().max_attempts, 1);
    assert_eq!(RetryPolicy::for_read().max_attempts, 3);
    assert_eq!(RetryPolicy::for_idempotent_write().max_attempts, 3);
}

#[test]
fn unit_sample_is_in_range() {
    let mut state: u64 = 0;
    for _ in 0..64 {
        state = next_jitter_state(state, 0x1234_5678_9abc_def0);
        assert_ne!(state, 0);
        let sample = unit_sample(state) as f64 / (1_u64 << 53) as f64;
        assert!((0.0..1.0).contains(&sample), "样本越界: {sample}");
    }
}

#[test]
fn jitter_state_has_exact_successor() {
    assert_eq!(next_jitter_state(1, 99), 1_082_269_761);
    assert_eq!(next_jitter_state(0, 0), 1_082_269_761);
    assert_eq!(unit_sample(u64::MAX), (1 << 53) - 1);
}

#[test]
fn retryable_delegates_to_error() {
    assert!(RetryPolicy::is_retryable(&TaosError::Connection(
        "x".into()
    )));
    assert!(!RetryPolicy::is_retryable(&TaosError::Config("x".into())));
}

#[test]
fn an_error_is_followed_by_the_right_step() {
    let policy = RetryPolicy {
        max_attempts: 3,
        initial_backoff: Duration::from_millis(1),
        max_backoff: Duration::from_millis(2),
        deadline: None,
    };
    let after = |policy: &RetryPolicy, attempt, error, elapsed, delay| {
        policy.after_error(
            attempt,
            error,
            Duration::from_millis(elapsed),
            Duration::from_millis(delay),
        )
    };
    let temporary = || TaosError::Unavailable("temp".into());
    assert!(matches!(
        after(&policy, 0, temporary(), 0, 1),
        RetryStep::Retry
    ));
    assert!(matches!(
        after(&policy, 1, temporary(), 0, 1),
        RetryStep::Retry
    ));
    assert!(matches!(
        after(&policy, 2, temporary(), 0, 1),
        RetryStep::GiveUp(TaosError::Unavailable(_))
    ));
    assert!(matches!(
        after(&policy, 0, TaosError::Invalid("bad".into()), 0, 1),
        RetryStep::GiveUp(TaosError::Invalid(_))
    ));
    let hurried = RetryPolicy {
        deadline: Some(Duration::from_millis(10)),
        ..policy
    };
    assert!(matches!(
        after(&hurried, 0, temporary(), 4, 5),
        RetryStep::Retry
    ));
    match after(&hurried, 0, temporary(), 5, 5) {
        RetryStep::GiveUp(error) => {
            assert!(matches!(error, TaosError::Timeout(_)), "{error:?}");
            assert!(error.to_string().contains("已尝试 1 次"), "{error:?}");
        }
        RetryStep::Retry => panic!("the deadline has passed"),
    }
    assert!(matches!(
        RetryPolicy::no_retry().after_error(
            0,
            temporary(),
            Duration::from_millis(0),
            Duration::from_millis(0)
        ),
        RetryStep::GiveUp(_)
    ));
}

#[test]
fn configured_attempts_are_at_least_one() {
    assert_eq!(RetryPolicy::for_configured_write(0).max_attempts, 1);
    assert_eq!(RetryPolicy::for_configured_write(1).max_attempts, 1);
    assert_eq!(RetryPolicy::for_configured_write(5).max_attempts, 5);
    assert_eq!(RetryPolicy::no_retry().max_attempts, 1);
}

#[test]
fn stream_gives_all_rows_and_then_nothing() {
    let rows = vec![
        TaosPoint::new("A", 1, "0.01", "0.02"),
        TaosPoint::new("B", 2, "0.03", "0.04"),
    ];
    let mut stream = TaosQueryStream::from_rows(rows);
    assert_eq!(stream.remaining_hint(), 2);
    let first = stream.next_row().expect("首行");
    assert_eq!(first.tag_value, "A");
    let second = stream.next_row().expect("次行");
    assert_eq!(second.tag_value, "B");
    assert!(stream.next_row().is_none());
    assert!(stream.next_row().is_none(), "结束后必须保持 Ready(None)");
    assert_eq!(stream.remaining_hint(), 0);
}

#[test]
fn chunk_hint_is_validated_and_exposed() {
    let stream = TaosQueryStream::from_rows_chunked(Vec::new(), 32).expect("合法提示");
    assert_eq!(stream.chunk_hint(), 32);
    let error =
        TaosQueryStream::from_rows_chunked(Vec::new(), 0).expect_err("chunk_hint=0 必须拒绝");
    assert!(matches!(error, TaosError::Invalid(_)), "{error:?}");
    let error = validate_chunk_hint(0).expect_err("chunk_hint=0 必须拒绝");
    assert!(matches!(error, TaosError::Invalid(_)), "{error:?}");
}

#[test]
fn debug_output_is_available_and_non_empty() {
    let stream =
        TaosQueryStream::from_rows_chunked(vec![TaosPoint::new("A", 1, "0.01", "0.02")], 16)
            .expect("合法提示");
    let rendered = format!("{stream:?}");
    assert!(!rendered.is_empty(), "Debug 输出不得为空");
    assert!(rendered.contains("TaosQueryStream"), "{rendered}");
    assert!(rendered.contains("chunk_hint: 16"), "{rendered}");
    assert!(rendered.contains("done: false"), "{rendered}");
}
