//! Requests, responses, and the steps of writing, querying and connecting.

use taosx::client::batch::{WriteSession, WriteStart, WriteStep};
use taosx::client::connect::{
    detect_precision, needs_handshake, tls_ca_read_error, ConnectStage, ConnectStep, Failover,
    FailoverStep,
};
use taosx::client::pool::{check_status, read_error, send_error, Permit, PING_SQL};
use taosx::client::query::{QuerySession, QueryStep};
use taosx::client::response::{JsonFault, RawResponse, ResponseBody};
use taosx::{
    BatchWritePartialError, TaosConfig, TaosError, TaosExecResult, TaosPoint, TaosPool, TaosResult,
    TransportMode, TsPrecision,
};

fn raw(body: &str) -> Result<RawResponse, JsonFault> {
    let value: serde_json::Value = serde_json::from_str(body).map_err(|error| JsonFault {
        line: error.line(),
        column: error.column(),
    })?;
    let list = |name: &str| match value.get(name) {
        Some(serde_json::Value::Array(items)) => items.clone(),
        _ => Vec::new(),
    };
    Ok(RawResponse {
        code: value["code"].as_i64().expect("code") as i32,
        desc: value["desc"].as_str().map(str::to_owned),
        column_meta: list("column_meta"),
        data: list("data")
            .into_iter()
            .map(|row| match row {
                serde_json::Value::Array(cells) => cells,
                other => panic!("{other:?}"),
            })
            .collect(),
        rows: value["rows"].as_i64(),
    })
}

fn pool() -> TaosPool {
    pool_of(TaosConfig {
        database: String::new(),
        ..TaosConfig::default()
    })
}

fn pool_of(config: TaosConfig) -> TaosPool {
    TaosPool::new(config).ok().expect("pool")
}

fn reply(pool: &TaosPool, body: &str) -> TaosResult<TaosExecResult> {
    pool.accept_response(raw(body))
}

fn sample_point(tag: &str, timestamp_ns: i64) -> TaosPoint {
    TaosPoint::new(tag, timestamp_ns, "1.0", "1.1")
}

const CREATE_OK: &str = r#"{"code":0,"column_meta":[],"data":[],"rows":0}"#;
const DESCRIBE_OK: &str = r#"{"code":0,"column_meta":[["field","VARCHAR",16],["type","VARCHAR",16],["length","VARCHAR",8]],"data":[["ts","TIMESTAMP","8"],["bid","NCHAR","64"],["ask","NCHAR","64"]],"rows":3}"#;
const INSERT_OK: &str = r#"{"code":0,"column_meta":[],"data":[],"rows":0}"#;
const VERSION_OK: &str =
    r#"{"code":0,"column_meta":[["v","VARCHAR",32]],"data":[["3.3.6.13"]],"rows":1}"#;

#[test]
fn responses_become_results() {
    let body = r#"{"code":0,"column_meta":[["value","INT",4]],"data":[[1],[2]],"rows":2}"#;
    let result = reply(&pool(), body).expect("exec");
    assert_eq!(result.code, 0);
    assert_eq!(result.columns, vec!["value".to_owned()]);
    assert_eq!(result.rows.len(), 2);
    assert_eq!(result.rows[1][0], "2");
    assert_eq!(result.affected_rows, Some(2));
}

#[test]
fn cells_become_texts() {
    let body = r#"{"code":0,"column_meta":[["a","INT",4]],"data":[[null,true,1.5,"x",[1,"y"],{"k":"v"}]],"rows":1}"#;
    let result = reply(&pool(), body).expect("exec");
    assert_eq!(
        result.rows,
        vec![vec![
            "".to_owned(),
            "true".to_owned(),
            "1.5".to_owned(),
            "x".to_owned(),
            r#"[1,"y"]"#.to_owned(),
            r#"{"k":"v"}"#.to_owned(),
        ]]
    );
}

#[test]
fn affected_rows_come_from_their_column() {
    let body = r#"{"code":0,"column_meta":[["affected_rows","INT",4]],"data":[[7]],"rows":1}"#;
    assert_eq!(
        reply(&pool(), body).expect("exec").affected_rows,
        Some(7)
    );
}

#[test]
fn server_codes_become_errors() {
    let error = reply(&pool(), r#"{"code":9731,"desc":"Table does not exist"}"#)
        .expect_err("表不存在必须报错");
    assert!(error.is_not_found());
    assert_eq!(error.taos_code(), Some(9731));
    assert!(!error.is_retryable());
    assert!(error.to_string().contains("Table does not exist"));
}

#[test]
fn long_explanations_are_cut() {
    let body = format!(r#"{{"code":-1,"desc":"{}"}}"#, "d".repeat(1000));
    let error = reply(&pool(), &body).expect_err("code");
    let text = error.to_string();
    assert!(text.contains(&"d".repeat(256)), "{text}");
    assert!(!text.contains(&"d".repeat(257)), "{text}");
}

#[test]
fn faulty_json_tells_only_where() {
    let error = reply(&pool(), "not-json password=s3cr3t-from-server").expect_err("json");
    assert!(matches!(error, TaosError::Serialization(_)), "{error:?}");
    assert!(!error.to_string().contains("s3cr3t-from-server"));
    assert!(!error.to_string().contains("not-json"));
}

#[test]
fn row_and_byte_limits_hold() {
    let body = r#"{"code":0,"column_meta":[["value","INT",4]],"data":[[1],[2]],"rows":2}"#;
    let small = pool_of(TaosConfig {
        max_query_rows: 1,
        ..TaosConfig::default()
    });
    let error = reply(&small, body).expect_err("行数超出 max_query_rows 必须拒绝");
    assert!(
        matches!(error, TaosError::Unavailable(_)) && error.to_string().contains("max_query_rows"),
        "{error:?}"
    );

    let mut bytes = ResponseBody::new(8);
    assert!(bytes.announce(None).is_ok());
    assert!(bytes.announce(Some(8)).is_ok());
    assert!(matches!(
        bytes.announce(Some(9)),
        Err(TaosError::Unavailable(_))
    ));
    assert!(bytes.push("中文".as_bytes()).is_ok());
    assert!(matches!(
        bytes.push("响应".as_bytes()),
        Err(TaosError::Unavailable(_))
    ));
    assert_eq!(bytes.finish().expect("text"), "中文");

    let mut bytes = ResponseBody::new(8);
    assert!(bytes.push(&[0xff]).is_ok());
    let error = bytes.finish().expect_err("not UTF-8");
    assert!(matches!(error, TaosError::Serialization(_)), "{error:?}");
    assert!(error.to_string().contains("invalid utf-8"), "{error:?}");
}

#[test]
fn sql_over_the_byte_limit_is_refused() {
    let mut small = pool_of(TaosConfig {
        batch_max_bytes: 4,
        ..TaosConfig::default()
    });
    assert!(small.begin_sql("SHOW").is_ok());
    let error = small.begin_sql("中文").expect_err("six bytes");
    assert!(matches!(error, TaosError::Invalid(_)), "{error:?}");
    let metrics = small.metrics((0, 0));
    assert_eq!(metrics.sql_bytes, 4);
    assert_eq!(metrics.sql_err, 1);
}

#[test]
fn statuses_hide_the_body() {
    assert!(check_status(200).is_ok());
    assert!(check_status(204).is_ok());
    for (status, retryable) in [(401, false), (408, true), (429, true), (500, true), (503, true)] {
        let error = check_status(status).expect_err("status");
        assert_eq!(error.is_retryable(), retryable, "{error:?}");
        assert!(error.to_string().contains("响应正文已省略"), "{error:?}");
    }
}

#[test]
fn transport_faults_are_told_apart() {
    assert!(matches!(send_error(true, "late"), TaosError::Timeout(_)));
    assert!(send_error(false, "refused").is_retryable());
    assert!(send_error(false, "refused").to_string().contains("refused"));
    assert!(read_error("reset").is_retryable());
}

#[test]
fn requests_go_where_the_database_is() {
    let named = pool_of(TaosConfig::default());
    assert_eq!(
        named.request_url(true),
        "http://127.0.0.1:6041/rest/sql/infra_draft"
    );
    assert_eq!(named.request_url(false), "http://127.0.0.1:6041/rest/sql");
    assert_eq!(pool().request_url(true), "http://127.0.0.1:6041/rest/sql");
}

#[test]
fn closed_pool_admits_nothing() {
    let mut pool = pool();
    pool.close();
    assert!(pool.stats().closed);
    assert!(!pool.liveness());
    let error = pool.ensure_open().expect_err("已关闭必须拒绝");
    assert!(matches!(error, TaosError::Closed(_)));
    assert!(matches!(
        pool.acquire(Permit::Granted),
        Err(TaosError::Closed(_))
    ));
    let health = pool.health_start((0, 0)).expect("not asked");
    assert!(!health.ready);
    assert!(!health.is_ready());
    assert!(health.detail.contains("关闭"));
}

#[test]
fn permits_are_counted() {
    let mut pool = pool();
    assert!(pool.acquire(Permit::Granted).is_ok());
    assert_eq!(pool.stats().in_flight, 1);
    let error = pool.acquire(Permit::TimedOut).expect_err("第二个许可必须超时");
    assert!(matches!(error, TaosError::Timeout(_)));
    assert!(matches!(
        pool.acquire(Permit::Closed),
        Err(TaosError::Closed(_))
    ));
    assert!(!pool.is_drained());
    assert!(matches!(
        TaosPool::close_outcome(pool.is_drained()),
        Err(TaosError::Timeout(_))
    ));
    assert!(pool.release());
    assert!(pool.is_drained());
    assert!(TaosPool::close_outcome(true).is_ok());
}

#[test]
fn health_follows_the_reply() {
    let mut pool = pool();
    assert!(pool.health_start((3, 4)).is_none());
    let answer = reply(&pool, VERSION_OK);
    let health = pool.health_check(pool.precision(), answer, (3, 4));
    assert!(health.ready, "{health:?}");
    assert_eq!(health.server_version.as_deref(), Some("3.3.6.13"));
    assert_eq!(health.detail, "就绪");
    assert_eq!(health.metrics.ws_probe_ok, 3);
    assert_eq!(health.metrics.ws_probe_err, 4);
    assert_eq!(pool.metrics((0, 0)).health_ready, 1);

    let health = pool.health_check(
        TsPrecision::Ms,
        Err(TaosError::Unavailable("down".into())),
        (0, 0),
    );
    assert!(!health.ready);
    assert!(!health.detail.is_empty());
    assert_eq!(pool.metrics((0, 0)).health_not_ready, 1);
    assert_eq!(pool.metrics((0, 0)).ping_err, 1);
    assert!(pool
        .metrics_prometheus((0, 0))
        .contains("taosx_ops_total"));
}

#[test]
fn ping_requires_code_zero_in_the_reply() {
    let mut pool = pool();
    assert_eq!(PING_SQL, "SELECT SERVER_VERSION()");
    let answer = reply(&pool, VERSION_OK);
    assert!(pool.ping(answer).is_ok());
    let odd = TaosExecResult {
        code: 5,
        rows: Vec::new(),
        columns: Vec::new(),
        affected_rows: None,
    };
    let error = pool.ping(Ok(odd)).expect_err("code");
    assert!(error.to_string().contains('5'), "{error:?}");
    assert_eq!(pool.metrics((0, 0)).ping_ok, 1);
    assert_eq!(pool.metrics((0, 0)).ping_err, 1);
}

fn started<'a>(
    pool: &mut TaosPool,
    points: &'a [TaosPoint],
    max_rows: usize,
) -> WriteSession<'a> {
    match WriteSession::start(pool, "ticks", points, max_rows) {
        Ok(WriteStart::Running(session)) => session,
        Ok(WriteStart::Done(_)) => panic!("done"),
        Err(partial) => panic!("{partial:?}"),
    }
}

fn goes_on<'a>(
    session: WriteSession<'a>,
    pool: &mut TaosPool,
    answer: TaosResult<TaosExecResult>,
) -> WriteSession<'a> {
    match session.reply(pool, answer) {
        WriteStep::Running(session) => session,
        WriteStep::Done(report) => panic!("{report:?}"),
        WriteStep::Failed(partial) => panic!("{partial:?}"),
    }
}

#[test]
fn batch_is_created_described_and_inserted() {
    let mut pool = pool_of(TaosConfig {
        batch_max_rows: 10,
        ..TaosConfig::default()
    });
    let points = [sample_point("BTC", 1_000_000)];
    let session = started(&mut pool, &points, 10);
    assert!(session.sql().starts_with("CREATE STABLE IF NOT EXISTS `ticks`"));
    let answer = reply(&pool, CREATE_OK);
    let session = goes_on(session, &mut pool, answer);
    assert_eq!(session.sql(), "DESCRIBE `ticks`");
    let answer = reply(&pool, DESCRIBE_OK);
    let session = goes_on(session, &mut pool, answer);
    assert!(session.sql().starts_with("INSERT INTO `ticks_s425443`"));
    let answer = reply(&pool, INSERT_OK);
    match session.reply(&mut pool, answer) {
        WriteStep::Done(report) => {
            assert_eq!(report.accepted, 1);
            assert!(report.is_complete());
        }
        WriteStep::Failed(partial) => panic!("{partial:?}"),
        WriteStep::Running(_) => panic!("still running"),
    }
    assert_eq!(pool.metrics((0, 0)).write_ok, 1);
}

#[test]
fn failed_chunk_stops_the_batch() {
    let mut pool = pool();
    let points = [
        sample_point("BTC", 1_000_000),
        sample_point("ETH", 2_000_000),
    ];
    let session = started(&mut pool, &points, 1);
    let answer = reply(&pool, CREATE_OK);
    let session = goes_on(session, &mut pool, answer);
    let answer = reply(&pool, DESCRIBE_OK);
    let session = goes_on(session, &mut pool, answer);
    let answer = reply(&pool, INSERT_OK);
    let session = goes_on(session, &mut pool, answer);
    let answer = reply(&pool, r#"{"code":-1,"desc":"injected write failure"}"#);
    let partial: BatchWritePartialError = match session.reply(&mut pool, answer) {
        WriteStep::Failed(partial) => partial,
        _ => panic!("第二个 chunk 必须失败"),
    };
    assert_eq!(partial.report.accepted, 1);
    assert_eq!(partial.report.failed, 1);
    assert_eq!(partial.report.chunks_ok, 1);
    assert_eq!(partial.report.chunks_total, 2);
    let as_error: TaosError = partial.into();
    assert!(as_error.to_string().contains("accepted=1"));
    assert!(as_error.to_string().contains("failed=1"));
    assert_eq!(as_error.taos_code(), Some(-1));
    assert_eq!(pool.metrics((0, 0)).write_err, 1);
}

#[test]
fn narrow_columns_stop_the_batch_before_any_row() {
    let mut pool = pool();
    let points = [sample_point("BTC", 1_000_000)];
    let session = started(&mut pool, &points, 1);
    let answer = reply(&pool, CREATE_OK);
    let session = goes_on(session, &mut pool, answer);
    let answer = reply(
        &pool,
        r#"{"code":0,"column_meta":[],"data":[["bid","DOUBLE","8"],["ask","DOUBLE","8"]],"rows":2}"#,
    );
    match session.reply(&mut pool, answer) {
        WriteStep::Failed(partial) => {
            assert_eq!(partial.report.accepted, 0);
            assert_eq!(partial.report.failed, 1);
        }
        _ => panic!("DOUBLE must be refused"),
    }
}

#[test]
fn chunk_rows_keep_within_the_configuration() {
    let mut pool = pool();
    let points = [sample_point("BTC", 1_000_000)];
    let most = pool.config().batch_max_rows;
    for max_rows in [0, most + 1] {
        let partial = WriteSession::start(&mut pool, "ticks", &points, max_rows)
            .err()
            .expect("rows");
        assert!(matches!(partial.source, TaosError::Invalid(_)));
        assert_eq!(partial.report.failed, 1);
    }
    assert!(WriteSession::start(&mut pool, "bad name", &points, 1).is_err());
    match WriteSession::start(&mut pool, "ticks", &[], 1) {
        Ok(WriteStart::Done(report)) => assert!(report.is_complete()),
        _ => panic!("nothing to write"),
    }
}

#[test]
fn series_are_described_and_selected() {
    let pool = pool_of(TaosConfig {
        precision: Some(TsPrecision::Ms),
        ..TaosConfig::default()
    });
    let session = QuerySession::start("ticks", 0, 10_000_000).ok().expect("session");
    assert_eq!(session.sql(), "DESCRIBE `ticks`");
    let session = match session.reply(&pool, reply(&pool, DESCRIBE_OK)) {
        QueryStep::Running(session) => session,
        _ => panic!("the rows come next"),
    };
    let sql = session.sql();
    assert!(sql.contains("FROM `ticks`"), "{sql}");
    assert!(sql.contains("ts >= 0"), "{sql}");
    assert!(sql.contains("ts <= 10"), "{sql}");
    assert!(sql.contains("LIMIT"), "{sql}");
    let body = r#"{"code":0,"column_meta":[["ts","TIMESTAMP",8],["bid","NCHAR",64],["ask","NCHAR",64],["symbol","NCHAR",16]],"data":[[1000,"1.0","1.1","BTC"],[2000,"2.0","2.1","ETH"]],"rows":2}"#;
    match session.reply(&pool, reply(&pool, body)) {
        QueryStep::Done(points) => {
            assert_eq!(points.len(), 2);
            assert_eq!(points[0].tag_value, "BTC");
            assert_eq!(points[0].timestamp_ns, 1_000_000_000);
            assert_eq!(points[1].values, ["2.0", "2.1"]);
        }
        QueryStep::Failed(error) => panic!("{error:?}"),
        QueryStep::Running(_) => panic!("still running"),
    }
}

#[test]
fn missing_table_is_an_empty_series() {
    let pool = pool();
    let start = || {
        QuerySession::start("missing_table", 0, 1)
            .ok()
            .expect("session")
    };
    let answer = reply(&pool, r#"{"code":9731,"desc":"Table does not exist"}"#);
    match start().reply(&pool, answer) {
        QueryStep::Done(points) => assert!(points.is_empty(), "缺表应为空"),
        _ => panic!("缺表应为空"),
    }
    let answer = reply(&pool, r#"{"code":-1,"desc":"internal driver failure"}"#);
    match start().reply(&pool, answer) {
        QueryStep::Failed(error) => assert!(matches!(error, TaosError::Backend { .. })),
        _ => panic!("必须传播"),
    }
    let error = QuerySession::start("ticks", 2, 1)
        .err()
        .expect("start > end 必须拒绝");
    assert!(
        matches!(error, TaosError::Invalid(_)) && error.to_string().contains("start > end"),
        "{error:?}"
    );
}

#[test]
fn short_rows_are_passed_over() {
    let pool = pool();
    let selecting = || {
        let session = QuerySession::start("ticks", 0, 1).ok().expect("session");
        match session.reply(&pool, reply(&pool, DESCRIBE_OK)) {
            QueryStep::Running(session) => session,
            _ => panic!("the rows come next"),
        }
    };
    let answer = reply(
        &pool,
        r#"{"code":0,"column_meta":[],"data":[[1000,"1.0"],[1,"2.0","2.1","A"]],"rows":2}"#,
    );
    match selecting().reply(&pool, answer) {
        QueryStep::Done(points) => {
            assert_eq!(points, vec![TaosPoint::new("A", 1_000_000, "2.0", "2.1")])
        }
        _ => panic!("one row is a point"),
    }
    let answer = reply(
        &pool,
        r#"{"code":0,"column_meta":[],"data":[["noon","2.0","2.1","A"]],"rows":1}"#,
    );
    assert!(matches!(
        selecting().reply(&pool, answer),
        QueryStep::Failed(TaosError::Invalid(_))
    ));
}

#[test]
fn connecting_creates_detects_and_pings() {
    let mut pool = pool_of(TaosConfig {
        database: "test_db".into(),
        ..TaosConfig::default()
    });
    let stage = ConnectStage::start(&pool).expect("stage");
    assert_eq!(stage, ConnectStage::CreateDatabase);
    assert_eq!(
        stage.sql(&pool),
        (
            "CREATE DATABASE IF NOT EXISTS `test_db` KEEP 3650".to_owned(),
            false
        )
    );
    let answer = reply(&pool, CREATE_OK);
    let stage = match stage.reply(&mut pool, answer) {
        ConnectStep::Running(stage) => stage,
        _ => panic!("the precision comes next"),
    };
    let (sql, own) = stage.sql(&pool);
    assert!(sql.contains("name='test_db'"), "{sql}");
    assert!(!own);
    let answer = reply(
        &pool,
        r#"{"code":0,"column_meta":[["precision","VARCHAR",8]],"data":[["us"]],"rows":1}"#,
    );
    let stage = match stage.reply(&mut pool, answer) {
        ConnectStep::Running(stage) => stage,
        _ => panic!("the ping comes next"),
    };
    assert_eq!(pool.precision(), TsPrecision::Us);
    assert_eq!(stage.sql(&pool), (PING_SQL.to_owned(), true));
    let answer = reply(&pool, VERSION_OK);
    assert!(matches!(
        stage.reply(&mut pool, answer),
        ConnectStep::Done
    ));
}

#[test]
fn precision_mismatch_is_refused() {
    let mut pool = pool_of(TaosConfig {
        precision: Some(TsPrecision::Ms),
        ..TaosConfig::default()
    });
    let answer = reply(
        &pool,
        r#"{"code":0,"column_meta":[["precision","VARCHAR",8]],"data":[["us"]],"rows":1}"#,
    );
    match ConnectStage::DetectPrecision.reply(&mut pool, answer) {
        ConnectStep::Failed(error) => assert!(matches!(error, TaosError::Config(_))),
        _ => panic!("精度不一致必须 fail-closed"),
    }
    assert_eq!(pool.precision(), TsPrecision::Ms);
    let answer = reply(&pool, CREATE_OK);
    assert!(matches!(
        detect_precision(answer),
        Err(TaosError::Unavailable(_))
    ));
}

#[test]
fn pool_without_database_only_pings() {
    assert_eq!(
        ConnectStage::start(&pool()).expect("stage"),
        ConnectStage::Ping
    );
}

#[test]
fn every_host_is_tried_once() {
    let mut failover = Failover::start(TaosConfig {
        hosts: vec!["127.0.0.1".into(), "127.0.0.2".into()],
        ..TaosConfig::default()
    })
    .ok()
    .expect("config");
    for host in ["127.0.0.1", "127.0.0.2"] {
        match failover.step() {
            FailoverStep::Try(config, rest) => {
                assert_eq!(config.host, host);
                failover = rest.failed(TaosError::Connection(host.to_owned()));
            }
            FailoverStep::GiveUp(error) => panic!("{error:?}"),
        }
    }
    match failover.step() {
        FailoverStep::GiveUp(error) => assert!(error.to_string().contains("127.0.0.2")),
        FailoverStep::Try(..) => panic!("all hosts were tried"),
    }
}

#[test]
fn only_the_native_mode_shakes_hands() {
    assert!(!needs_handshake(&TaosConfig::default()));
    assert!(needs_handshake(&TaosConfig {
        transport: TransportMode::NativeWs,
        ..TaosConfig::default()
    }));
}

#[test]
fn unreadable_authority_is_a_configuration_error() {
    let error = tls_ca_read_error("/nonexistent/ca.pem", "entity not found");
    assert!(matches!(error, TaosError::Config(_)), "{error:?}");
    assert!(error.to_string().contains("/nonexistent/ca.pem"));
}
