//! What holds of several functions together, on chosen values.

use std::time::Duration;

use taosx::client::batch::{StableSession, StableStep, WriteSession, WriteStart};
use taosx::client::insert::build_insert_sql_chunks_with_limits;
use taosx::client::pool::Permit;
use taosx::client::query::{points_of_rows, select_sql};
use taosx::client::response::{JsonFault, RawResponse};
use taosx::client::sql::{encode_timestamp, escape_str, subtable_name, validate_ident};
use taosx::config::env::EnvVars;
use taosx::retry::{RetryRun, RetryStep};
use taosx::{
    build_insert_sql_chunks, BatchWritePartialError, BatchWriteReport, RetryPolicy, TaosConfig,
    TaosError, TaosExecResult, TaosPoint, TaosPool, TransportMode, TsPrecision, HARD_MAX_IN_FLIGHT,
};

#[test]
fn names_are_read_back() {
    for precision in [TsPrecision::Ms, TsPrecision::Us, TsPrecision::Ns] {
        assert_eq!(TsPrecision::parse(precision.as_str()), Some(precision));
    }
    for mode in [TransportMode::Rest, TransportMode::NativeWs] {
        assert_eq!(TransportMode::parse(mode.as_str()), Some(mode));
    }
    assert_eq!(
        TransportMode::parse(" NativeWS "),
        Some(TransportMode::NativeWs)
    );
}

#[test]
fn stored_times_survive_and_multiples_are_lossless() {
    for stored in [-3, 0, 1, 1_700_000_000_000] {
        assert_eq!(
            TsPrecision::Ms.from_nanos(TsPrecision::Ms.to_nanos(stored)),
            stored
        );
    }
    for (ns, lossless) in [(2_000, true), (2_001, false), (-2_000, true), (-1, false)] {
        assert_eq!(
            encode_timestamp(ns, TsPrecision::Us).is_ok(),
            lossless,
            "{ns}"
        );
    }
}

#[test]
fn row_limit_only_cuts() {
    let good: Vec<TaosPoint> = (1..=7).map(|n| TaosPoint::new("A", n, "1", "2")).collect();
    let bad = vec![TaosPoint::new("X".repeat(49), 1, "1", "2")];
    for max_rows in [1, 2, 7, 100] {
        let chunks =
            build_insert_sql_chunks("t", &good, TsPrecision::Ns, max_rows).expect("chunks");
        assert_eq!(chunks.len(), good.len().div_ceil(max_rows));
        assert!(build_insert_sql_chunks("t", &bad, TsPrecision::Ns, max_rows).is_err());
    }
}

#[test]
fn chunks_hold_every_row_in_order_and_are_full() {
    let points: Vec<TaosPoint> = (1..=20)
        .map(|n| TaosPoint::new(format!("T{n}"), n, "1", "2".repeat(n as usize)))
        .collect();
    let row = |point: &TaosPoint| {
        build_insert_sql_chunks("t", &[point.clone()], TsPrecision::Ns, 1)
            .expect("row")
            .remove(0)["INSERT INTO ".len()..]
            .to_owned()
    };
    let max_bytes = 300;
    let chunks =
        build_insert_sql_chunks_with_limits("t", &points, TsPrecision::Ns, 4, max_bytes)
            .ok()
            .expect("chunks");
    let mut next = 0;
    for (index, (sql, rows)) in chunks.iter().enumerate() {
        assert!(sql.len() <= max_bytes && (1..=4).contains(rows));
        let held: Vec<String> = points[next..next + rows].iter().map(row).collect();
        assert_eq!(*sql, format!("INSERT INTO {}", held.join(" ")));
        next += rows;
        if index + 1 < chunks.len() {
            assert!(*rows == 4 || sql.len() + 1 + row(&points[next]).len() > max_bytes);
        }
    }
    assert_eq!(next, points.len());
}

#[test]
fn subtables_are_identifiers_that_differ() {
    let tags = ["a", "b", "A", "a/b", "a_b", "'", "", "é"];
    let names: Vec<String> = tags
        .iter()
        .map(|tag| subtable_name("t", tag).expect("name"))
        .collect();
    for (i, name) in names.iter().enumerate() {
        validate_ident(name).expect("identifier");
        for other in &names[i + 1..] {
            assert_ne!(name, other);
        }
    }
}

#[test]
fn identifiers_need_no_escape() {
    for name in ["test_db", "_x", "A1"] {
        validate_ident(name).expect("identifier");
        assert_eq!(escape_str(name), name);
    }
}

#[test]
fn written_points_are_read_back() {
    let point = TaosPoint::new("it's \\ BTC", 1_700_000_000_123_000_000, "1.10", "-2.20");
    let stored = encode_timestamp(point.timestamp_ns, TsPrecision::Ms).expect("aligned");
    let result = TaosExecResult {
        code: 0,
        rows: vec![vec![
            format!("{stored}"),
            point.values[0].clone(),
            point.values[1].clone(),
            point.tag_value.clone(),
        ]],
        columns: Vec::new(),
        affected_rows: None,
    };
    assert_eq!(
        points_of_rows(&result, TsPrecision::Ms).expect("points"),
        vec![point]
    );
}

#[test]
fn password_matters_only_as_blank() {
    let remote = |password: &str| TaosConfig {
        host: "td.example".into(),
        tls: true,
        password: password.into(),
        ..TaosConfig::default()
    };
    assert!(remote("a").validate().is_ok());
    assert!(remote("b c").validate().is_ok());
    assert!(remote("").validate().is_err());
    assert!(remote(" \t").validate().is_err());
}

#[test]
fn variables_apply_once_and_none_change_nothing() {
    let mut config = TaosConfig::default();
    let before = config.to_debug_string();
    config
        .apply_env_overrides(&EnvVars::default())
        .expect("nothing");
    assert_eq!(config.to_debug_string(), before);

    let env = EnvVars {
        host: Some("localhost".into()),
        timeout_ms: Some("7".into()),
        write_max_attempts: Some("0".into()),
        ..EnvVars::default()
    };
    config.apply_env_overrides(&env).expect("once");
    let once = config.to_debug_string();
    config.apply_env_overrides(&env).expect("twice");
    assert_eq!(config.to_debug_string(), once);
    assert_eq!(config.host, "localhost");
    assert_eq!(config.timeout, Duration::from_millis(7));
    assert_eq!(config.write_max_attempts, 1);
}

#[test]
fn valid_configurations_keep_the_limits() {
    for max_in_flight in [0, 1, HARD_MAX_IN_FLIGHT, HARD_MAX_IN_FLIGHT + 1] {
        let config = TaosConfig {
            max_in_flight,
            ..TaosConfig::default()
        };
        assert_eq!(
            config.validate().is_ok(),
            (1..=HARD_MAX_IN_FLIGHT).contains(&max_in_flight)
        );
    }
}

#[test]
fn partial_failures_keep_the_class_of_their_cause() {
    let partial = |source: TaosError| {
        TaosError::from(BatchWritePartialError {
            report: BatchWriteReport {
                accepted: 1,
                failed: 2,
                chunks_ok: 1,
                chunks_total: 3,
            },
            source,
        })
    };
    assert!(partial(TaosError::Timeout("late".into())).is_retryable());
    assert!(!partial(TaosError::Invalid("bad".into())).is_retryable());
    assert!(partial(TaosError::from_taos_code(9731, "gone")).is_not_found());
    assert_eq!(
        partial(TaosError::Timeout("late".into())).to_string(),
        "操作超时: write_batch 部分成功 accepted=1 failed=2 chunks_ok=1/3: 操作超时: late"
    );
}

#[test]
fn table_is_made_fit_before_rows() {
    let mut pool = TaosPool::new(TaosConfig::default()).ok().expect("pool");
    let points = [TaosPoint::new("A", 1_000_000, "1", "2")];
    let writing = match WriteSession::start(&mut pool, "ticks", &points, 1) {
        Ok(WriteStart::Running(session)) => session,
        _ => panic!("a point is to be written"),
    };
    let stable = StableSession::start("ticks").ok().expect("table");
    assert_eq!(writing.sql(), stable.sql());
    assert_eq!(
        stable.sql(),
        "CREATE STABLE IF NOT EXISTS `ticks` (ts TIMESTAMP, bid NCHAR(64), ask NCHAR(64)) \
         TAGS (symbol NCHAR(128))"
    );
    let made = TaosExecResult {
        code: 0,
        rows: Vec::new(),
        columns: Vec::new(),
        affected_rows: None,
    };
    let stable = match stable.reply(Ok(made.clone())) {
        StableStep::Running(session) => session,
        _ => panic!("the columns come next"),
    };
    assert_eq!(stable.sql(), "DESCRIBE `ticks`");
    assert!(matches!(
        stable.reply(Ok(made.clone())),
        StableStep::Failed(TaosError::Backend { .. })
    ));
    let stable = StableSession::start("ticks").ok().expect("table");
    match stable.reply(Ok(TaosExecResult { code: 896, ..made })) {
        StableStep::Failed(error) => assert!(error.is_retryable()),
        _ => panic!("the server is busy"),
    }
    assert!(StableSession::start("bad name").is_err());
}

#[test]
fn backoffs_grow_to_the_cap_and_never_stray_beyond() {
    let policy = RetryPolicy::for_read();
    for attempt in 0..40 {
        assert!(policy.exponential_backoff(attempt) <= policy.exponential_backoff(attempt + 1));
        assert!(policy.exponential_backoff(attempt) <= policy.max_backoff);
    }
    assert_eq!(policy.strayed_backoff(7), Duration::from_nanos(7));
    assert_eq!(policy.strayed_backoff(2_000_000_000), policy.max_backoff);
    assert_eq!(policy.strayed_backoff(u64::MAX), policy.max_backoff);
}

#[test]
fn environment_errors_name_the_variable_and_repeat_no_value() {
    let text = |s: &str| Some(s.to_owned());
    let none = EnvVars::default;
    let refused = [
        (EnvVars { hosts: text("127.0.0.2, bad host"), ..none() }, "HOSTS"),
        (EnvVars { host: text("bad host"), ..none() }, "HOST"),
        (EnvVars { port: text("0"), ..none() }, "PORT"),
        (EnvVars { port: text("65536"), ..none() }, "PORT"),
        (EnvVars { database: text("bad-name"), ..none() }, "DATABASE"),
        (EnvVars { user: text("  "), ..none() }, "USER"),
        (EnvVars { timeout_ms: text("0"), ..none() }, "TIMEOUT_MS"),
        (EnvVars { timeout_ms: text("98765432100"), ..none() }, "TIMEOUT_MS"),
        (EnvVars { acquire_timeout_ms: text("98765432100"), ..none() }, "ACQUIRE_TIMEOUT_MS"),
        (EnvVars { close_timeout_ms: text("98765432100"), ..none() }, "CLOSE_TIMEOUT_MS"),
        (EnvVars { write_max_attempts: text("77"), ..none() }, "WRITE_MAX_ATTEMPTS"),
    ];
    for (env, name) in refused {
        match TaosConfig::from_env(&env) {
            Err(TaosError::Config(m)) => {
                assert_eq!(m, format!("环境变量 FOUNDATIONX_TAOSX_{name} 取值非法"));
            }
            _ => panic!("{name}"),
        }
    }
    match TaosConfig::from_env(&EnvVars { batch_max_rows: text("98765"), ..none() }) {
        Err(TaosError::Config(m)) => assert_eq!(
            m,
            "环境变量 FOUNDATIONX_TAOSX_BATCH_MAX_ROWS 取值非法: batch_max_rows 必须为 1..=10000"
        ),
        _ => panic!("out of range"),
    }
    match TaosConfig::from_env(&EnvVars { host: text("td.example"), ..none() }) {
        Err(TaosError::Config(m)) => assert_eq!(m, "远程 TDengine 必须使用 TLS"),
        _ => panic!("remote without TLS"),
    }
}

#[test]
fn interval_of_a_query_is_closed_in_nanoseconds() {
    for (precision, start, end, bounds) in [
        (TsPrecision::Ms, 1_500_000, 2_500_000, "ts >= 2 AND ts <= 2 "),
        (TsPrecision::Ms, 1_000_000, 3_000_000, "ts >= 1 AND ts <= 3 "),
        (TsPrecision::Ms, -1_500_000, -500_000, "ts >= -1 AND ts <= -1 "),
        (TsPrecision::Us, 1, 999, "ts >= 1 AND ts <= 0 "),
        (TsPrecision::Ns, -7, 7, "ts >= -7 AND ts <= 7 "),
    ] {
        let sql = select_sql("ticks", precision, start, end, 10);
        assert!(sql.contains(bounds), "{sql}");
    }
    assert_eq!(
        TsPrecision::Ms.from_nanos_up(i64::MIN),
        -9_223_372_036_854
    );
    assert_eq!(
        TsPrecision::Ms.from_nanos_down(i64::MIN),
        -9_223_372_036_855
    );
    assert_eq!(TsPrecision::Us.from_nanos_up(i64::MAX), 9_223_372_036_854_776);
    for stored in -4..=4 {
        for (start, end) in [(-2_500_000, 1_999_999), (-2_000_000, 2_000_000), (1, 3_000_001)] {
            let time = TsPrecision::Ms.to_nanos(stored);
            assert_eq!(
                TsPrecision::Ms.from_nanos_up(start) <= stored
                    && stored <= TsPrecision::Ms.from_nanos_down(end),
                start <= time && time <= end
            );
        }
    }
}

#[test]
fn subtables_of_different_super_tables_differ() {
    let names = [
        subtable_name("t", "a").expect("name"),
        subtable_name("t_s", "a").expect("name"),
        subtable_name("t_s61", "a").expect("name"),
        subtable_name("t_s61_s", "").expect("name"),
        subtable_name("t", "").expect("name"),
    ];
    for (i, a) in names.iter().enumerate() {
        for b in &names[i + 1..] {
            assert_ne!(a, b);
        }
    }
}

#[test]
fn requests_under_way_stay_within_the_limit() {
    let mut pool = TaosPool::new(TaosConfig {
        max_in_flight: 2,
        ..TaosConfig::default()
    })
    .expect("pool");
    assert!(pool.acquire(Permit::Granted).is_ok());
    assert!(pool.acquire(Permit::Granted).is_ok());
    match pool.acquire(Permit::Granted) {
        Err(TaosError::Timeout(m)) => assert_eq!(m, "获取 in-flight 许可超时（max=2）"),
        _ => panic!("no permit is free"),
    }
    assert_eq!(pool.stats().in_flight, 2);
    assert!(!pool.release());
    assert_eq!(pool.stats().in_flight, 1);
    assert!(pool.acquire(Permit::Granted).is_ok());
    assert_eq!(pool.stats().in_flight, 2);
}

#[test]
fn status_wins_over_the_response() {
    let pool = TaosPool::new(TaosConfig::default()).expect("pool");
    let good = || {
        Ok(RawResponse {
            code: 0,
            desc: None,
            column_meta: Vec::new(),
            data: Vec::new(),
            rows: Some(0),
        })
    };
    let fault = || Err(JsonFault { line: 1, column: 1 });
    assert_eq!(pool.answer(200, good()).expect("result").code, 0);
    assert!(matches!(
        pool.answer(200, fault()),
        Err(TaosError::Serialization(_))
    ));
    for parsed in [good(), fault()] {
        match pool.answer(503, parsed) {
            Err(TaosError::Unavailable(m)) => assert_eq!(m, "taos HTTP 503: 响应正文已省略"),
            _ => panic!("the status decides"),
        }
    }
}

#[test]
fn runs_make_no_more_attempts_than_allowed() {
    for (max_attempts, allowed) in [(0, 1), (1, 1), (3, 3)] {
        let policy = RetryPolicy {
            max_attempts,
            deadline: None,
            ..RetryPolicy::for_read()
        };
        let mut run = RetryRun::start(policy);
        let mut calls = 0;
        loop {
            assert_eq!(run.attempt(), calls);
            calls += 1;
            let error = TaosError::Unavailable("busy".into());
            let delay = policy.exponential_backoff(run.attempt());
            match run.failed(error, Duration::from_secs(1), delay) {
                RetryStep::Retry => {}
                RetryStep::GiveUp(error) => {
                    assert_eq!(error.to_string(), "远端暂时不可用: busy");
                    break;
                }
            }
        }
        assert_eq!(calls, allowed);
    }
    let mut run = RetryRun::start(RetryPolicy::for_read());
    assert!(matches!(
        run.failed(TaosError::Invalid("x".into()), Duration::ZERO, Duration::ZERO),
        RetryStep::GiveUp(TaosError::Invalid(_))
    ));
    assert!(matches!(
        run.failed(
            TaosError::Timeout("x".into()),
            Duration::from_secs(5),
            Duration::ZERO
        ),
        RetryStep::GiveUp(TaosError::Timeout(_))
    ));
    assert_eq!(run.attempt(), 0);
}
