//! What the crate offers.

use std::time::Duration;

use taosx::{
    build_insert_sql_chunks, build_native_ws_url, hard_max_close_timeout, validate_mode,
    ws_probe_totals, BatchWritePartialError, BatchWriteReport, BatcherCloseError,
    BatcherCloseReport, RetryPolicy, TaosClient, TaosConfig, TaosConfigBuilder, TaosError,
    TaosExecResult, TaosHealth, TaosMetricsSnapshot, TaosPoint, TaosPool, TaosPoolStats,
    TaosQueryStream, TaosResult, TransportMode, TsPrecision, WriteBatcher, WriteBatcherConfig,
    HARD_MAX_BATCH_BYTES, HARD_MAX_BATCH_ROWS, HARD_MAX_IN_FLIGHT, HARD_MAX_QUERY_ROWS,
    HARD_MAX_RESPONSE_BYTES,
};

#[test]
fn public_types_are_send_and_sync() {
    fn assert_send_sync<T: Send + Sync>() {}
    assert_send_sync::<TaosPool>();
    assert_send_sync::<TaosClient>();
    assert_send_sync::<TaosConfig>();
    assert_send_sync::<TaosConfigBuilder>();
    assert_send_sync::<TaosError>();
    assert_send_sync::<TaosResult<()>>();
    assert_send_sync::<TaosExecResult>();
    assert_send_sync::<TaosPoolStats>();
    assert_send_sync::<TaosHealth>();
    assert_send_sync::<BatchWriteReport>();
    assert_send_sync::<BatchWritePartialError>();
    assert_send_sync::<TaosPoint>();
    assert_send_sync::<WriteBatcher>();
    assert_send_sync::<WriteBatcherConfig>();
    assert_send_sync::<BatcherCloseReport>();
    assert_send_sync::<BatcherCloseError>();
    assert_send_sync::<TaosQueryStream>();
    assert_send_sync::<RetryPolicy>();
    assert_send_sync::<TaosMetricsSnapshot>();
    assert_send_sync::<TransportMode>();
    assert_send_sync::<TsPrecision>();
}

#[test]
fn hard_limits_are_documented_and_ordered() {
    assert_eq!(HARD_MAX_IN_FLIGHT, 1_024);
    assert_eq!(HARD_MAX_BATCH_ROWS, 10_000);
    assert_eq!(HARD_MAX_BATCH_BYTES, 8 * 1024 * 1024);
    assert_eq!(HARD_MAX_RESPONSE_BYTES, 64 * 1024 * 1024);
    assert_eq!(HARD_MAX_QUERY_ROWS, 100_000);
    assert_eq!(hard_max_close_timeout(), Duration::from_secs(30));

    let (in_flight, batch_rows, batch_bytes, response_bytes, query_rows, close_ms) =
        std::hint::black_box((
            HARD_MAX_IN_FLIGHT,
            HARD_MAX_BATCH_ROWS,
            HARD_MAX_BATCH_BYTES,
            HARD_MAX_RESPONSE_BYTES,
            HARD_MAX_QUERY_ROWS,
            hard_max_close_timeout().as_millis() as usize,
        ));
    assert!(in_flight > 0, "并发硬上限必须为正");
    assert!(
        batch_rows <= query_rows,
        "单批行数上限（{batch_rows}）不得超过单次查询行数上限（{query_rows}）"
    );
    assert!(
        batch_bytes < response_bytes,
        "单批字节上限（{batch_bytes}）必须小于响应字节上限（{response_bytes}）"
    );
    assert!(close_ms > 0, "关闭超时硬上限必须为正");
}

#[test]
fn exec_result_keeps_source_fields() {
    let result = TaosExecResult {
        code: 0,
        rows: vec![vec!["1".to_owned()]],
        columns: vec!["n".to_owned()],
        affected_rows: Some(1),
    };
    assert_eq!(result.code, 0);
    assert_eq!(result.rows.len(), 1);
    assert_eq!(result.columns, vec!["n".to_owned()]);
    assert_eq!(result.affected_rows, Some(1));
    let cloned = result.clone();
    assert_eq!(cloned.rows, result.rows);
}

#[test]
fn public_error_constructors_and_classification() {
    let errors = [
        TaosError::Config("配置".to_owned()),
        TaosError::Connection("连接".to_owned()),
        TaosError::backend("远端"),
        TaosError::from_taos_code(896, "繁忙"),
        TaosError::Unavailable("暂不可用".to_owned()),
        TaosError::Serialization("解析".to_owned()),
        TaosError::from(std::io::Error::other("io")),
        TaosError::Timeout("超时".to_owned()),
        TaosError::Invalid("参数".to_owned()),
        TaosError::Closed("已关闭".to_owned()),
        TaosError::Unsupported("不支持".to_owned()),
    ];
    for error in &errors {
        assert!(!error.to_string().is_empty(), "{error:?} 必须有可读消息");
    }
    assert!(TaosError::from_http_status(503, "busy").is_retryable());
    assert!(TaosError::from_taos_code(9731, "缺表").is_not_found());

    let mapped: TaosError = TaosError::Invalid("参数".to_owned()).with_message("补充");
    assert!(mapped.to_string().contains("补充"));
}

#[test]
fn free_functions_are_reachable_from_crate_root() {
    let config = TaosConfig::default();
    assert_eq!(build_native_ws_url(&config), "ws://127.0.0.1:6041/rest/ws");
    validate_mode(&config).expect("默认传输模式合法");
    assert!(build_insert_sql_chunks("ticks", &[], TsPrecision::Ms, 10)
        .expect("空输入")
        .is_empty());
    let _ = build_native_ws_url;
    let _ = validate_mode;
    let _ = build_insert_sql_chunks;
    let _ = ws_probe_totals;
}

#[test]
fn defaults_and_helpers_behave() {
    assert_eq!(WriteBatcherConfig::default().max_rows, 500);
    assert!(BatchWriteReport::default().is_complete());
    assert!(BatcherCloseReport::default().last_flush.is_complete());
    assert_eq!(RetryPolicy::default().max_attempts, 1);
    assert_eq!(RetryPolicy::for_read().max_attempts, 3);
    assert_eq!(RetryPolicy::for_idempotent_write().max_attempts, 3);
    assert_eq!(TransportMode::parse("rest"), Some(TransportMode::Rest));
    assert_eq!(
        TransportMode::parse("native"),
        Some(TransportMode::NativeWs)
    );
    assert_eq!(TsPrecision::parse("ms"), Some(TsPrecision::Ms));
    assert_eq!(TsPrecision::parse("us"), Some(TsPrecision::Us));
    assert_eq!(TsPrecision::parse("ns"), Some(TsPrecision::Ns));

    let text = TaosMetricsSnapshot::default().to_prometheus_text();
    assert!(text.contains("taosx_ops_total"));
    assert!(text.contains("taosx_bytes_total"));
    assert_eq!(TaosMetricsSnapshot::default().total_events(), 0);
}
