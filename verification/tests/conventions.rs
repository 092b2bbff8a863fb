//! Transports, data, security and the public names.

use taosx::{
    build_insert_sql_chunks, build_native_ws_url, hard_max_close_timeout, validate_mode,
    ws_probe_totals, BatchWritePartialError, BatchWriteReport, BatcherCloseError,
    BatcherCloseReport, RetryPolicy, TaosClient, TaosConfig, TaosConfigBuilder, TaosError,
    TaosExecResult, TaosHealth, TaosMetricsSnapshot, TaosPoint, TaosPool, TaosPoolStats,
    TaosQueryStream, TaosResult, TransportMode, TsPrecision, WriteBatcher, WriteBatcherConfig,
    HARD_MAX_BATCH_BYTES, HARD_MAX_BATCH_ROWS, HARD_MAX_IN_FLIGHT, HARD_MAX_QUERY_ROWS,
    HARD_MAX_RESPONSE_BYTES,
};

#[test]
fn assert_positioning() {
    let defaults = TaosConfig::default();
    assert_eq!(defaults.transport, TransportMode::Rest, "默认走 REST");
    assert_eq!(defaults.port, 6041);
    assert_eq!(defaults.rest_sql_url(), "http://127.0.0.1:6041/rest/sql");
    assert_eq!(
        defaults.rest_sql_db_url(),
        "http://127.0.0.1:6041/rest/sql/infra_draft"
    );

    let native = TaosConfig {
        transport: TransportMode::NativeWs,
        ..TaosConfig::default()
    };
    assert_eq!(
        build_native_ws_url(&native),
        "ws://127.0.0.1:6041/rest/ws",
        "WS 与 REST 同端口（taosAdapter）"
    );
    validate_mode(&defaults).expect("REST 模式必须通过");
    validate_mode(&native).expect("NativeWs 模式必须通过");
    let error = validate_mode(&TaosConfig {
        max_in_flight: 0,
        ..TaosConfig::default()
    })
    .expect_err("max_in_flight = 0 必须拒绝");
    assert!(matches!(error, TaosError::Config(_)), "{error:?}");

    let point = TaosPoint::new("BTC/USDT", 42, "1.0", "1.1");
    assert_eq!(
        (point.timestamp_ns, point.tag_value.as_str(), &point.values),
        (42, "BTC/USDT", &["1.0".to_owned(), "1.1".to_owned()])
    );
    assert!(!TaosPool::new(TaosConfig::default())
        .expect("离线构造")
        .is_closed());
}

#[test]
fn assert_data_conventions() {
    assert_eq!(TsPrecision::Ms.from_nanos(1_500_000_000), 1500);
    assert_eq!(TsPrecision::Ns.to_nanos(42), 42);
    assert_eq!(TsPrecision::parse("US"), Some(TsPrecision::Us));

    let points = vec![TaosPoint::new("BTC/USDT", 1_500_000, "1.0", "2.0")];
    let error = build_insert_sql_chunks("ticks", &points, TsPrecision::Ms, 10)
        .expect_err("1_500_000 ns 无法无损表示为 ms，必须 fail-closed");
    assert!(matches!(error, TaosError::Invalid(_)), "{error:?}");
    assert!(error.to_string().contains("精度"), "{error:?}");

    let escaped = TaosPoint::new("A'B", 1, "1'0", "2\\0");
    let sql = build_insert_sql_chunks("ticks", &[escaped], TsPrecision::Ns, 1)
        .expect("分块")
        .remove(0);
    assert!(sql.contains(r"TAGS ('A\'B')"), "{sql}");
    assert!(sql.contains(r"'1\'0'"), "{sql}");
    assert!(sql.contains(r"'2\\0'"), "{sql}");
    let subtable = sql
        .split('`')
        .nth(1)
        .expect("多子表 INSERT 必须带反引号子表名");
    assert!(
        !subtable.contains('/') && subtable.starts_with("ticks_s"),
        "子表名应为 <stable>_s<hex>: {subtable}"
    );

    for table in ["1bad", "a;drop", ""] {
        let error =
            build_insert_sql_chunks(table, &[], TsPrecision::Ns, 1).expect_err("非法表名必须拒绝");
        assert!(
            matches!(error, TaosError::Invalid(_)),
            "table={table:?} -> {error:?}"
        );
    }
}

#[test]
fn assert_security_conventions() {
    let error = TaosConfig::from_toml("schema_version = 1\npassword = \"hunter2\"\n")
        .err()
        .expect("TOML 非空密码必须拒绝");
    assert!(error.to_string().contains("password"));
    assert!(!error.to_string().contains("hunter2"), "错误不得回显密码");

    let configured = TaosConfig::builder()
        .password("secret-value")
        .build()
        .expect("配置有效");
    let rendered = configured.to_debug_string();
    assert!(rendered.contains("***"));
    assert!(!rendered.contains("secret-value"));

    let remote_plain = TaosConfig {
        host: "td.example".into(),
        ..TaosConfig::default()
    };
    let error = remote_plain.validate().expect_err("远程明文必须拒绝");
    assert!(matches!(error, TaosError::Config(_)), "{error:?}");
    let error = validate_mode(&TaosConfig {
        host: "td.example".into(),
        transport: TransportMode::NativeWs,
        ..TaosConfig::default()
    })
    .expect_err("远程明文 NativeWs 必须拒绝");
    assert!(matches!(error, TaosError::Config(_)), "{error:?}");

    let remote_tls_no_password = TaosConfig {
        host: "td.example".into(),
        tls: true,
        ..TaosConfig::default()
    };
    let error = remote_tls_no_password
        .validate()
        .expect_err("远程 TLS 无密码必须拒绝");
    assert!(matches!(error, TaosError::Config(_)), "{error:?}");
    let remote_secure = TaosConfig {
        host: "td.example".into(),
        tls: true,
        password: "configured".into(),
        ..TaosConfig::default()
    };
    remote_secure.validate().expect("远程 TLS + 密码必须通过");
}

#[test]
fn assert_gate_constraints() {
    fn exists<T>() {}
    exists::<TaosPool>();
    exists::<TaosClient>();
    exists::<TaosConfig>();
    exists::<TaosConfigBuilder>();
    exists::<TransportMode>();
    exists::<TsPrecision>();
    exists::<TaosError>();
    exists::<TaosResult<()>>();
    exists::<TaosExecResult>();
    exists::<TaosPoolStats>();
    exists::<TaosHealth>();
    exists::<TaosMetricsSnapshot>();
    exists::<BatchWriteReport>();
    exists::<BatchWritePartialError>();
    exists::<TaosPoint>();
    exists::<WriteBatcher>();
    exists::<WriteBatcherConfig>();
    exists::<BatcherCloseReport>();
    exists::<BatcherCloseError>();
    exists::<TaosQueryStream>();
    exists::<RetryPolicy>();

    let _ = (
        HARD_MAX_IN_FLIGHT,
        HARD_MAX_BATCH_ROWS,
        HARD_MAX_BATCH_BYTES,
        HARD_MAX_RESPONSE_BYTES,
        HARD_MAX_QUERY_ROWS,
        hard_max_close_timeout(),
    );
    let _ = (
        ws_probe_totals,
        build_insert_sql_chunks,
        build_native_ws_url,
        validate_mode,
    );
}
