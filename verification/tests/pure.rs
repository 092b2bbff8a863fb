//! Points, chunks, URLs, modes and precisions.

use taosx::{
    build_insert_sql_chunks, build_native_ws_url, validate_mode, TaosConfig, TaosError, TaosPoint,
    TransportMode, TsPrecision,
};

fn point(tag: &str, timestamp_ns: i64) -> TaosPoint {
    TaosPoint::new(tag, timestamp_ns, "1.0", "1.1")
}

#[test]
fn taos_point_constructor_keeps_protocol_cells() {
    let borrowed = TaosPoint::new("BTC/USDT", 42, "1.2300", "4.5600");
    assert_eq!(borrowed.timestamp_ns, 42);
    assert_eq!(borrowed.tag_value, "BTC/USDT");
    assert_eq!(borrowed.values, ["1.2300", "4.5600"]);

    let owned = TaosPoint::new(
        String::from("BTC"),
        43,
        String::from("0.1"),
        String::from("0.2"),
    );
    assert_eq!(owned, TaosPoint::new("BTC", 43, "0.1", "0.2"));
    assert_ne!(owned, borrowed);

    let cloned = owned.clone();
    assert_eq!(cloned, owned);
}

#[test]
fn insert_sql_chunks_partition_by_rows() {
    let points: Vec<TaosPoint> = (0..5)
        .map(|index| point("BTC", index * 1_000_000))
        .collect();
    let chunks = build_insert_sql_chunks("ticks", &points, TsPrecision::Ms, 2).expect("分块");
    assert_eq!(chunks.len(), 3, "5 行按 2 行/批应得到 2+2+1");
    for (index, chunk) in chunks.iter().enumerate() {
        assert!(
            chunk.starts_with("INSERT INTO "),
            "chunk {index} 前缀错误: {chunk}"
        );
        assert!(chunk.contains("VALUES"), "chunk {index} 缺少 VALUES");
        assert!(chunk.contains("USING `ticks`"), "chunk {index} 缺少 USING");
        assert!(chunk.contains("'1.0'"));
    }
    assert_eq!(chunks[0].matches("USING `ticks`").count(), 2);
    assert_eq!(chunks[2].matches("USING `ticks`").count(), 1);

    let single = build_insert_sql_chunks("ticks", &points, TsPrecision::Ms, 5).expect("单批");
    assert_eq!(single.len(), 1);

    let per_row = build_insert_sql_chunks("ticks", &points, TsPrecision::Ms, 1).expect("逐行");
    assert_eq!(per_row.len(), 5);

    assert!(build_insert_sql_chunks("ticks", &[], TsPrecision::Ms, 10)
        .expect("空输入")
        .is_empty());
    let error = build_insert_sql_chunks("ticks", &points, TsPrecision::Ms, 0)
        .expect_err("max_rows = 0 必须拒绝");
    assert!(matches!(error, TaosError::Invalid(_)), "{error:?}");
    let error = build_insert_sql_chunks("ticks", &points, TsPrecision::Ms, 10_001)
        .expect_err("max_rows 越界必须拒绝");
    assert!(matches!(error, TaosError::Invalid(_)), "{error:?}");
    let error = build_insert_sql_chunks("bad table", &points, TsPrecision::Ms, 1)
        .expect_err("非法表名必须拒绝");
    assert!(matches!(error, TaosError::Invalid(_)), "{error:?}");
    assert!(
        !error.to_string().contains("bad table"),
        "错误不得回显非法标识符: {error:?}"
    );
}

#[test]
fn insert_sql_escapes_literals_and_hex_encodes_subtable() {
    let hostile = TaosPoint::new("a'; DROP DATABASE x; --", 1, "1'0", "2\\0");
    let sql = build_insert_sql_chunks("ticks", &[hostile], TsPrecision::Ns, 1)
        .expect("分块")
        .remove(0);

    assert!(!sql.contains("a'; DROP"), "tag 值不得原样进入标识符: {sql}");
    assert!(sql.contains(r"TAGS ('a\'; DROP DATABASE x; --')"), "{sql}");
    assert!(
        sql.contains("`ticks_s61273b2044524f5020444154414241534520783b202d2d`"),
        "子表名必须为 tag 值的十六进制编码: {sql}"
    );
    assert!(sql.contains(r"'1\'0'"), "单引号必须转义: {sql}");
    assert!(sql.contains(r"'2\\0'"), "反斜杠必须转义: {sql}");

    let first = build_insert_sql_chunks("ticks", &[point("BTC/USDT", 1)], TsPrecision::Ns, 1)
        .expect("a")
        .remove(0);
    let second = build_insert_sql_chunks("ticks", &[point("BTC_USDT", 1)], TsPrecision::Ns, 1)
        .expect("b")
        .remove(0);
    assert_ne!(first, second);
    assert!(first.contains("`ticks_s4254432f55534454`"), "{first}");
}

#[test]
fn insert_sql_rejects_unaligned_or_oversized_input() {
    build_insert_sql_chunks("ticks", &[point("A", 1_500)], TsPrecision::Ns, 1).expect("ns 无损");
    let error = build_insert_sql_chunks("ticks", &[point("A", 1_500)], TsPrecision::Ms, 1)
        .expect_err("ms 精度必须拒绝");
    assert!(error.to_string().contains("精度"), "{error:?}");

    let oversized_tag = point(&"X".repeat(49), 1);
    let error = build_insert_sql_chunks("ticks", &[oversized_tag], TsPrecision::Ns, 1)
        .expect_err("49 字节 tag 必须拒绝");
    assert!(matches!(error, TaosError::Invalid(_)), "{error:?}");
    let max_tag = point(&"X".repeat(48), 1);
    build_insert_sql_chunks("ticks", &[max_tag], TsPrecision::Ns, 1).expect("48 字节必须通过");
}

#[test]
fn native_ws_url_and_mode_validation() {
    let plain = TaosConfig::default();
    assert_eq!(build_native_ws_url(&plain), "ws://127.0.0.1:6041/rest/ws");
    assert_eq!(plain.native_ws_url(), "ws://127.0.0.1:6041/rest/ws");
    assert_eq!(plain.rest_sql_url(), "http://127.0.0.1:6041/rest/sql");
    assert_eq!(
        plain.rest_sql_db_url(),
        "http://127.0.0.1:6041/rest/sql/infra_draft"
    );

    let secure = TaosConfig {
        host: "td.example".to_owned(),
        port: 6041,
        tls: true,
        password: "p".to_owned(),
        ..TaosConfig::default()
    };
    assert_eq!(
        build_native_ws_url(&secure),
        "wss://td.example:6041/rest/ws"
    );
    assert_eq!(secure.rest_sql_url(), "https://td.example:6041/rest/sql");

    let ipv6 = TaosConfig {
        host: "::1".to_owned(),
        ..TaosConfig::default()
    };
    assert_eq!(ipv6.rest_sql_url(), "http://[::1]:6041/rest/sql");
    assert_eq!(build_native_ws_url(&ipv6), "ws://[::1]:6041/rest/ws");
    assert_eq!(ipv6.rest_sql_endpoint().expect("可解析").port(), Some(6041));

    for mode in [TransportMode::Rest, TransportMode::NativeWs] {
        let config = TaosConfig {
            transport: mode,
            ..TaosConfig::default()
        };
        validate_mode(&config).expect("两种模式都必须通过校验");
    }
    let error = validate_mode(&TaosConfig {
        max_in_flight: 0,
        ..TaosConfig::default()
    })
    .expect_err("max_in_flight = 0 必须拒绝");
    assert!(matches!(error, TaosError::Config(_)), "{error:?}");
    let error = validate_mode(&TaosConfig {
        host: "td.example".to_owned(),
        ..TaosConfig::default()
    })
    .expect_err("远程明文必须拒绝");
    assert!(matches!(error, TaosError::Config(_)), "{error:?}");
}

#[test]
fn precision_and_mode_parsing() {
    assert_eq!(TsPrecision::parse(" ms "), Some(TsPrecision::Ms));
    assert_eq!(TsPrecision::parse("US"), Some(TsPrecision::Us));
    assert_eq!(TsPrecision::parse("ns"), Some(TsPrecision::Ns));
    assert_eq!(TsPrecision::parse("second"), None);
    assert_eq!(TsPrecision::Ms.from_nanos(1_500_000), 1);
    assert_eq!(TsPrecision::Ms.to_nanos(1), 1_000_000);
    assert_eq!(TsPrecision::Us.from_nanos(1_500), 1);
    assert_eq!(TsPrecision::Ns.from_nanos(1_500), 1_500);
    assert_eq!(TsPrecision::Ms.as_str(), "ms");

    assert_eq!(TransportMode::parse("rest"), Some(TransportMode::Rest));
    assert_eq!(TransportMode::parse("http"), Some(TransportMode::Rest));
    assert_eq!(
        TransportMode::parse("native"),
        Some(TransportMode::NativeWs)
    );
    assert_eq!(TransportMode::parse("ws"), Some(TransportMode::NativeWs));
    assert_eq!(
        TransportMode::parse("native_ws"),
        Some(TransportMode::NativeWs)
    );
    assert_eq!(
        TransportMode::parse("native-ws"),
        Some(TransportMode::NativeWs)
    );
    assert_eq!(TransportMode::parse("grpc"), None);
}
