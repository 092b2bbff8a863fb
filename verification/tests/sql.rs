//! SQL, schemas and cells.

use taosx::client::insert::build_insert_sql_chunks_with_limits;
use taosx::client::response::{parse_ts_cell, truncate, validate_decimal_schema};
use taosx::client::sql::{
    encode_timestamp, escape_str, subtable_name, validate_ident, MAX_SYMBOL_BYTES,
};
use taosx::{
    build_insert_sql_chunks, TaosConfig, TaosError, TaosExecResult, TaosPoint, TaosPool,
    TsPrecision, HARD_MAX_BATCH_ROWS,
};

fn sample_point(tag: &str, timestamp_ns: i64) -> TaosPoint {
    TaosPoint::new(tag, timestamp_ns, "1.0", "1.1")
}

#[test]
fn plain_text_passes_through() {
    assert_eq!(escape_str("test"), "test");
}

#[test]
fn single_quote_is_escaped() {
    assert_eq!(escape_str("it's"), "it\\'s");
}

#[test]
fn backslash_is_escaped() {
    assert_eq!(escape_str("a\\b"), "a\\\\b");
}

#[test]
fn client_subtable_hex_encodes_tag_and_rejects_bad_ident() {
    let name = subtable_name("ticks", "BTC/USDT").expect("子表名");
    assert!(name.starts_with("ticks_"));
    assert!(!name.contains('/'));
    assert!(!name.contains('\''));
    assert_ne!(
        subtable_name("ticks", "BTC/USDT").expect("a"),
        subtable_name("ticks", "BTC_USDT").expect("b")
    );
    let error = subtable_name("ticks", &"X".repeat(MAX_SYMBOL_BYTES + 1))
        .expect_err("超长 tag 值必须拒绝");
    assert!(
        matches!(error, TaosError::Invalid(_)) && error.to_string().contains("tag 值超过"),
        "{error:?}"
    );
    let error = validate_ident("a b").expect_err("含空格必须拒绝");
    assert!(
        matches!(error, TaosError::Invalid(_)) && error.to_string().contains("非法字符"),
        "{error:?}"
    );
    let error = validate_ident("1abc").expect_err("数字开头必须拒绝");
    assert!(
        matches!(error, TaosError::Invalid(_)) && error.to_string().contains("字母或下划线开头"),
        "{error:?}"
    );
    let error = validate_ident("").expect_err("空标识符必须拒绝");
    assert!(
        matches!(error, TaosError::Invalid(_)) && error.to_string().contains("长度"),
        "{error:?}"
    );
    validate_ident("ok_name1").expect("合法标识符必须通过");
}

#[test]
fn client_insert_sql_chunks_partition_and_escape() {
    let points: Vec<TaosPoint> = (0..5)
        .map(|index| sample_point("BTC", index * 1_000_000))
        .collect();
    let chunks = build_insert_sql_chunks("ticks", &points, TsPrecision::Ms, 2).expect("分块");
    assert_eq!(chunks.len(), 3, "2+2+1");
    for chunk in &chunks {
        assert!(chunk.starts_with("INSERT INTO "));
        assert!(chunk.contains("VALUES"));
        assert!(chunk.contains("'1.0'"));
    }
    assert!(build_insert_sql_chunks("ticks", &[], TsPrecision::Ms, 10)
        .expect("空")
        .is_empty());
    let error = build_insert_sql_chunks("ticks", &points, TsPrecision::Ms, 0)
        .expect_err("max_rows=0 必须拒绝");
    assert!(
        matches!(error, TaosError::Invalid(_)) && error.to_string().contains("max_rows"),
        "{error:?}"
    );
    let error = build_insert_sql_chunks("ticks", &points, TsPrecision::Ms, HARD_MAX_BATCH_ROWS + 1)
        .expect_err("max_rows 超硬上限必须拒绝");
    assert!(
        matches!(error, TaosError::Invalid(_)) && error.to_string().contains("max_rows"),
        "{error:?}"
    );
    let error = build_insert_sql_chunks("bad name", &points, TsPrecision::Ms, 1)
        .expect_err("非法超级表名必须拒绝");
    assert!(matches!(error, TaosError::Invalid(_)), "{error:?}");
}

#[test]
fn client_insert_sql_escapes_quotes_and_backslashes() {
    let point = TaosPoint::new("A'B", 1, "1'0", "2\\0");
    let sql = build_insert_sql_chunks("ticks", &[point], TsPrecision::Ns, 1)
        .expect("分块")
        .remove(0);
    assert!(sql.contains(r"TAGS ('A\'B')"), "{sql}");
    assert!(sql.contains(r"'1\'0'"), "{sql}");
    assert!(sql.contains(r"'2\\0'"), "{sql}");
}

#[test]
fn client_insert_sql_rejects_unaligned_timestamp() {
    let point = TaosPoint::new("A", 1_500, "0", "0");
    build_insert_sql_chunks("ticks", &[point], TsPrecision::Ns, 1)
        .expect("Ns 精度天然对齐必须通过");
    let point = TaosPoint::new("A", 1_500, "0", "0");
    let error =
        build_insert_sql_chunks("ticks", &[point], TsPrecision::Ms, 1).expect_err("必须拒绝");
    assert!(matches!(error, TaosError::Invalid(_)), "{error:?}");
    assert_eq!(
        encode_timestamp(1_500_000_000, TsPrecision::Ms).expect("对齐"),
        1500
    );
    assert_eq!(
        encode_timestamp(1_500_000, TsPrecision::Us).expect("对齐"),
        1500
    );
    let error = encode_timestamp(1_500, TsPrecision::Us).expect_err("未对齐必须拒绝");
    assert!(
        matches!(error, TaosError::Invalid(_)) && error.to_string().contains("无法无损表示"),
        "{error:?}"
    );
}

#[test]
fn client_text_value_path_preserves_long_fixed_point_cells() {
    let first = "123456789012345678901.234567890123456789";
    let second = "-123456789012345678901.234567890123456788";
    let sql = build_insert_sql_chunks(
        "ticks",
        &[TaosPoint::new("BTC/USDT", 1, first, second)],
        TsPrecision::Ns,
        1,
    )
    .expect("分块")
    .remove(0);
    assert!(sql.contains(&format!("'{first}'")));
    assert!(sql.contains(&format!("'{second}'")));
}

#[test]
fn client_single_row_over_byte_cap_is_rejected() {
    let tick = sample_point(&"X".repeat(MAX_SYMBOL_BYTES), 1);
    let error = build_insert_sql_chunks_with_limits("ticks", &[tick], TsPrecision::Ns, 1, 20)
        .err()
        .expect("单行超出字节上限");
    assert!(matches!(error, TaosError::Invalid(_)));
}

fn column(name: &str, kind: &str, length: &str) -> Vec<String> {
    vec![name.into(), kind.into(), length.into()]
}

#[test]
fn client_schema_rejects_double_and_accepts_nchar_64() {
    let double = TaosExecResult {
        code: 0,
        rows: vec![
            vec!["bid".into(), "DOUBLE".into(), "8".into()],
            vec!["ask".into(), "DOUBLE".into(), "8".into()],
        ],
        columns: Vec::new(),
        affected_rows: None,
    };
    let error = validate_decimal_schema(&double).expect_err("DOUBLE 必须拒绝");
    assert!(
        matches!(error, TaosError::Backend { .. }) && error.to_string().contains("NCHAR(64+)"),
        "{error:?}"
    );

    let text = TaosExecResult {
        code: 0,
        rows: vec![
            vec!["ts".into(), "TIMESTAMP".into(), "8".into()],
            vec!["bid".into(), "NCHAR".into(), "64".into()],
            vec!["ask".into(), "NCHAR".into(), "64".into()],
        ],
        columns: Vec::new(),
        affected_rows: None,
    };
    validate_decimal_schema(&text).expect("NCHAR(64) 必须通过");
}

#[test]
fn client_truncate_is_utf8_boundary_safe() {
    assert_eq!(truncate("中文响应", 2), "…");
    assert_eq!(truncate("中文响应", 4), "中…");
}

#[test]
fn client_parse_rfc3339_and_numeric_timestamps() {
    let ns = parse_ts_cell("2026-07-21T17:12:39.582758368Z", TsPrecision::Ns).expect("RFC3339");
    assert!(ns > 0);
    assert_eq!(
        parse_ts_cell("1000", TsPrecision::Ms).expect("数值"),
        1_000_000_000
    );
    let error = parse_ts_cell("not-a-time", TsPrecision::Ms).expect_err("非法时间戳必须拒绝");
    assert!(
        matches!(error, TaosError::Invalid(_)) && error.to_string().contains("无法解析时间戳"),
        "{error:?}"
    );
}

#[test]
fn client_new_is_offline_and_rejects_invalid_config() {
    let pool = TaosPool::new(TaosConfig::default()).expect("离线构造");
    assert_eq!(pool.config().host, "127.0.0.1");
    assert_eq!(pool.precision(), TsPrecision::Ms);
    let stats = pool.stats();
    assert_eq!(stats.in_flight, 0);
    assert!(!stats.closed);
    assert!(pool.liveness());
    assert!(!pool.is_closed());
    let error = TaosPool::new(TaosConfig {
        max_in_flight: 0,
        ..TaosConfig::default()
    })
    .err()
    .expect("max_in_flight=0 必须拒绝");
    assert!(matches!(error, TaosError::Config(_)), "{error:?}");
}

#[test]
fn tests_subtable_hex_encodes_tag_and_rejects_bad_ident() {
    let name = subtable_name("ticks", "BTC/USDT").expect("子表名");
    assert!(name.starts_with("ticks_"));
    assert!(!name.contains('/'));
    assert!(!name.contains('\''));
    assert_ne!(
        subtable_name("ticks", "BTC/USDT").expect("a"),
        subtable_name("ticks", "BTC_USDT").expect("b")
    );
    assert!(subtable_name("ticks", &"X".repeat(MAX_SYMBOL_BYTES + 1)).is_err());
    assert!(validate_ident("a b").is_err());
    assert!(validate_ident("1abc").is_err());
    assert!(validate_ident("").is_err());
    assert!(validate_ident("ok_name1").is_ok());
}

#[test]
fn tests_insert_sql_chunks_partition_and_escape() {
    let points: Vec<TaosPoint> = (0..5)
        .map(|index| sample_point("BTC", index * 1_000_000))
        .collect();
    let chunks = build_insert_sql_chunks("ticks", &points, TsPrecision::Ms, 2).expect("分块");
    assert_eq!(chunks.len(), 3, "2+2+1");
    for chunk in &chunks {
        assert!(chunk.starts_with("INSERT INTO "));
        assert!(chunk.contains("VALUES"));
        assert!(chunk.contains("'1.0'"));
    }
    assert!(build_insert_sql_chunks("ticks", &[], TsPrecision::Ms, 10)
        .expect("空")
        .is_empty());
    assert!(build_insert_sql_chunks("ticks", &points, TsPrecision::Ms, 0).is_err());
    assert!(
        build_insert_sql_chunks("ticks", &points, TsPrecision::Ms, HARD_MAX_BATCH_ROWS + 1)
            .is_err()
    );
    assert!(build_insert_sql_chunks("bad name", &points, TsPrecision::Ms, 1).is_err());
}

#[test]
fn tests_insert_sql_escapes_quotes_and_backslashes() {
    let point = TaosPoint::new("A'B", 1, "1'0", "2\\0");
    let sql = build_insert_sql_chunks("ticks", &[point], TsPrecision::Ns, 1)
        .expect("分块")
        .remove(0);
    assert!(sql.contains(r"TAGS ('A\'B')"), "{sql}");
    assert!(sql.contains(r"'1\'0'"), "{sql}");
    assert!(sql.contains(r"'2\\0'"), "{sql}");
}

#[test]
fn tests_insert_sql_rejects_unaligned_timestamp() {
    let point = TaosPoint::new("A", 1_500, "0", "0");
    assert!(build_insert_sql_chunks("ticks", &[point], TsPrecision::Ns, 1).is_ok());
    let point = TaosPoint::new("A", 1_500, "0", "0");
    let error =
        build_insert_sql_chunks("ticks", &[point], TsPrecision::Ms, 1).expect_err("必须拒绝");
    assert!(matches!(error, TaosError::Invalid(_)), "{error:?}");
    assert_eq!(
        encode_timestamp(1_500_000_000, TsPrecision::Ms).expect("对齐"),
        1500
    );
    assert_eq!(
        encode_timestamp(1_500_000, TsPrecision::Us).expect("对齐"),
        1500
    );
    assert!(
        encode_timestamp(1_500, TsPrecision::Us).is_err(),
        "未对齐必须拒绝"
    );
}

#[test]
fn tests_text_value_path_preserves_long_fixed_point_cells() {
    let first = "123456789012345678901.234567890123456789";
    let second = "-123456789012345678901.234567890123456788";
    let sql = build_insert_sql_chunks(
        "ticks",
        &[TaosPoint::new("BTC/USDT", 1, first, second)],
        TsPrecision::Ns,
        1,
    )
    .expect("分块")
    .remove(0);
    assert!(sql.contains(&format!("'{first}'")));
    assert!(sql.contains(&format!("'{second}'")));
}

#[test]
fn tests_single_row_over_byte_cap_is_rejected() {
    let tick = sample_point(&"X".repeat(MAX_SYMBOL_BYTES), 1);
    let error = build_insert_sql_chunks_with_limits("ticks", &[tick], TsPrecision::Ns, 1, 20)
        .err()
        .expect("单行超出字节上限");
    assert!(matches!(error, TaosError::Invalid(_)));
}

#[test]
fn tests_schema_rejects_double_and_accepts_nchar_64() {
    let double = TaosExecResult {
        code: 0,
        rows: vec![
            vec!["bid".into(), "DOUBLE".into(), "8".into()],
            vec!["ask".into(), "DOUBLE".into(), "8".into()],
        ],
        columns: Vec::new(),
        affected_rows: None,
    };
    assert!(validate_decimal_schema(&double).is_err());

    let text = TaosExecResult {
        code: 0,
        rows: vec![
            vec!["ts".into(), "TIMESTAMP".into(), "8".into()],
            vec!["bid".into(), "NCHAR".into(), "64".into()],
            vec!["ask".into(), "NCHAR".into(), "64".into()],
        ],
        columns: Vec::new(),
        affected_rows: None,
    };
    validate_decimal_schema(&text).expect("NCHAR(64) 必须通过");
}

#[test]
fn tests_truncate_is_utf8_boundary_safe() {
    assert_eq!(truncate("中文响应", 2), "…");
    assert_eq!(truncate("中文响应", 4), "中…");
}

#[test]
fn tests_parse_rfc3339_and_numeric_timestamps() {
    let ns = parse_ts_cell("2026-07-21T17:12:39.582758368Z", TsPrecision::Ns).expect("RFC3339");
    assert!(ns > 0);
    assert_eq!(
        parse_ts_cell("1000", TsPrecision::Ms).expect("数值"),
        1_000_000_000
    );
    assert!(parse_ts_cell("not-a-time", TsPrecision::Ms).is_err());
}

#[test]
fn tests_new_is_offline_and_rejects_invalid_config() {
    let pool = TaosPool::new(TaosConfig::default()).expect("离线构造");
    assert_eq!(pool.config().host, "127.0.0.1");
    assert_eq!(pool.precision(), TsPrecision::Ms);
    let stats = pool.stats();
    assert_eq!(stats.in_flight, 0);
    assert!(!stats.closed);
    assert!(pool.liveness());
    assert!(!pool.is_closed());
    assert!(TaosPool::new(TaosConfig {
        max_in_flight: 0,
        ..TaosConfig::default()
    })
    .is_err());
}

#[test]
fn chunk_has_exact_text() {
    let points = [
        TaosPoint::new("BTC/USDT", 1_000_000, "1.0", "1.1"),
        TaosPoint::new("ETH", 2_000_000, "2.0", "2.1"),
    ];
    let chunks = build_insert_sql_chunks("ticks", &points, TsPrecision::Ms, 10).expect("chunks");
    assert_eq!(
        chunks,
        vec![String::from(
            "INSERT INTO `ticks_s4254432f55534454` USING `ticks` TAGS ('BTC/USDT') \
             VALUES (1,'1.0','1.1') `ticks_s455448` USING `ticks` TAGS ('ETH') \
             VALUES (2,'2.0','2.1')"
        )]
    );
}

#[test]
fn byte_limit_cuts_a_batch() {
    let points = [
        TaosPoint::new("A", 1, "1", "1"),
        TaosPoint::new("A", 2, "2", "2"),
        TaosPoint::new("A", 3, "3", "3"),
    ];
    let one = build_insert_sql_chunks("t", &points[..1], TsPrecision::Ns, 10)
        .expect("one")
        .remove(0);
    let cut = build_insert_sql_chunks_with_limits("t", &points, TsPrecision::Ns, 10, one.len())
        .ok()
        .expect("within the limit");
    assert_eq!(cut.len(), 3);
    let joined =
        build_insert_sql_chunks_with_limits("t", &points, TsPrecision::Ns, 10, one.len() * 3)
            .ok()
            .expect("within the limit");
    assert_eq!(joined.len(), 1);
    assert!(
        build_insert_sql_chunks_with_limits("t", &points, TsPrecision::Ns, 10, one.len() - 1)
            .is_err()
    );
}

#[test]
fn nul_never_reaches_a_literal() {
    assert_eq!(escape_str("a\0b"), "a\\0b");
    assert_eq!(escape_str("\\\0'"), "\\\\\\0\\'");
}

#[test]
fn subtables_of_different_tags_differ() {
    assert_eq!(
        subtable_name("ticks", "BTC/USDT").expect("name"),
        "ticks_s4254432f55534454"
    );
    assert_eq!(subtable_name("t", "é").expect("name"), "t_sc3a9");
    assert!(subtable_name("t", &"é".repeat(24)).is_ok());
    assert!(subtable_name("t", &"é".repeat(25)).is_err());
}

#[test]
fn schema_needs_both_columns_long_enough() {
    let result = |rows: Vec<Vec<String>>| TaosExecResult {
        code: 0,
        rows,
        columns: Vec::new(),
        affected_rows: None,
    };
    assert!(validate_decimal_schema(&result(vec![column("bid", "NCHAR", "64")])).is_err());
    assert!(validate_decimal_schema(&result(vec![
        column("bid", "NCHAR", "63"),
        column("ask", "NCHAR", "64"),
    ]))
    .is_err());
    assert!(validate_decimal_schema(&result(vec![
        column("ask", "nchar", "128"),
        column("bid", "NCHAR", "64"),
    ]))
    .is_ok());
    assert!(validate_decimal_schema(&result(Vec::new())).is_err());
}

#[test]
fn written_timestamp_reads_back() {
    for (precision, ns) in [
        (TsPrecision::Ms, 1_700_000_000_123_000_000),
        (TsPrecision::Us, 1_700_000_000_123_456_000),
        (TsPrecision::Ns, 1_700_000_000_123_456_789),
        (TsPrecision::Ms, -1_000_000),
    ] {
        let stored = encode_timestamp(ns, precision).expect("aligned");
        assert_eq!(
            parse_ts_cell(&format!("{stored}"), precision).expect("reads"),
            ns
        );
    }
}

#[test]
fn timestamps_in_words_are_read() {
    assert_eq!(
        parse_ts_cell("2024-01-02T03:04:05.000000006Z", TsPrecision::Ms).expect("rfc3339"),
        1_704_164_645_000_000_006
    );
    assert_eq!(
        parse_ts_cell("2024-01-02T03:04:05+08:00", TsPrecision::Ns).expect("offset"),
        1_704_135_845_000_000_000
    );
    assert_eq!(
        parse_ts_cell("2024-01-02 03:04:05 UTC", TsPrecision::Ms).expect("UTC"),
        1_704_164_645_000_000_000
    );
    assert_eq!(
        parse_ts_cell("9999-01-01T00:00:00Z", TsPrecision::Ms).expect("far"),
        i64::MAX
    );
}

#[test]
fn truncate_keeps_short_texts() {
    assert_eq!(truncate("abc", 3), "abc");
    assert_eq!(truncate("abcd", 3), "abc…");
    assert_eq!(truncate("", 0), "");
    assert_eq!(truncate("  a\nb  ", 3), "a b");
}
