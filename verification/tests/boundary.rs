//! Limits: what is just within them and what is just beyond.

use taosx::{
    build_insert_sql_chunks, hard_max_close_timeout, TaosConfig, TaosError, TaosPoint, TaosPool,
    TsPrecision, HARD_MAX_BATCH_ROWS,
};

#[test]
fn stable_name_length_boundary() {
    let at_limit = "a".repeat(94);
    assert!(
        build_insert_sql_chunks(&at_limit, &[], TsPrecision::Ns, 1)
            .expect("94 字节应通过白名单")
            .is_empty(),
        "空点集应产出空分块而非错误"
    );

    let over_limit = "a".repeat(95);
    let error =
        build_insert_sql_chunks(&over_limit, &[], TsPrecision::Ns, 1).expect_err("95 字节必须拒绝");
    assert!(matches!(error, TaosError::Invalid(_)), "{error:?}");
}

#[test]
fn tag_value_length_boundary() {
    let at_limit = "B".repeat(48);
    let chunks = build_insert_sql_chunks(
        "ticks",
        &[TaosPoint::new(at_limit, 1, "1.0", "1.1")],
        TsPrecision::Ns,
        1,
    )
    .expect("48 字节 tag 应通过");
    assert_eq!(chunks.len(), 1);

    let over_limit = "B".repeat(49);
    let error = build_insert_sql_chunks(
        "ticks",
        &[TaosPoint::new(over_limit, 1, "1.0", "1.1")],
        TsPrecision::Ns,
        1,
    )
    .expect_err("49 字节 tag 必须拒绝");
    assert!(matches!(error, TaosError::Invalid(_)), "{error:?}");
}

#[test]
fn tag_hex_encoding_is_collision_resistant() {
    let subtable_of = |tag: &str| {
        let sql = build_insert_sql_chunks(
            "ticks",
            &[TaosPoint::new(tag, 1, "1.0", "1.1")],
            TsPrecision::Ns,
            1,
        )
        .expect("分块")
        .remove(0);
        sql.split('`').nth(1).expect("子表名带反引号").to_owned()
    };

    let slash = subtable_of("BTC/USDT");
    let underscore = subtable_of("BTC_USDT");
    assert_ne!(slash, underscore, "分隔符不同不得映射到同一子表");
    for name in [&slash, &underscore] {
        assert!(name.starts_with("ticks_s"), "{name}");
        assert!(
            name.chars().all(|c| c.is_ascii_alphanumeric() || c == '_'),
            "子表名不得携带原始 tag 字符: {name}"
        );
    }
}

#[test]
fn timestamp_alignment_and_saturation() {
    let unaligned = TaosPoint::new("A", 1_500, "0", "0");
    assert!(
        build_insert_sql_chunks("ticks", &[unaligned], TsPrecision::Us, 1).is_err(),
        "1500 ns 无法无损表示为 us，必须拒绝"
    );

    let aligned = TaosPoint::new("A", 1_500_000, "0", "0");
    let sql = build_insert_sql_chunks("ticks", &[aligned], TsPrecision::Us, 1)
        .expect("1500 us 对齐应通过")
        .remove(0);
    assert!(sql.contains("VALUES (1500,"), "{sql}");

    assert_eq!(TsPrecision::Ms.to_nanos(i64::MAX), i64::MAX, "饱和不溢出");
    assert_eq!(TsPrecision::Us.to_nanos(i64::MIN), i64::MIN, "饱和不溢出");
    assert_eq!(TsPrecision::Ms.from_nanos(i64::MIN), i64::MIN / 1_000_000);
}

#[test]
fn hard_limit_boundaries() {
    let at_limit = TaosConfig {
        close_timeout: hard_max_close_timeout(),
        ..TaosConfig::default()
    };
    at_limit.validate().expect("close_timeout 取等应放行");

    let over = TaosConfig {
        close_timeout: hard_max_close_timeout() + std::time::Duration::from_millis(1),
        ..TaosConfig::default()
    };
    assert!(over.validate().is_err(), "超过硬上限必须拒绝");

    let points = [TaosPoint::new("A", 1, "0", "0")];
    assert!(
        build_insert_sql_chunks("ticks", &points, TsPrecision::Ns, HARD_MAX_BATCH_ROWS + 1)
            .is_err(),
        "max_rows 越界必须拒绝"
    );
    assert!(
        build_insert_sql_chunks("ticks", &points, TsPrecision::Ns, 0).is_err(),
        "max_rows = 0 必须拒绝"
    );

    assert!(TaosPool::new(TaosConfig {
        max_in_flight: 0,
        ..TaosConfig::default()
    })
    .is_err());
}

#[test]
fn database_ident_length_boundary() {
    let at_limit = TaosConfig {
        database: "d".repeat(192),
        ..TaosConfig::default()
    };
    at_limit.validate().expect("192 字节库名应通过白名单");

    let over_limit = TaosConfig {
        database: "d".repeat(193),
        ..TaosConfig::default()
    };
    let error = over_limit
        .validate()
        .expect_err("193 字节库名必须 fail-closed 拒绝");
    assert!(matches!(error, TaosError::Config(_)), "{error:?}");

    TaosConfig {
        database: String::new(),
        ..TaosConfig::default()
    }
    .validate()
    .expect("空库名表示未指定，必须放行");
}

#[test]
fn taos_error_code_boundaries() {
    assert!(
        TaosError::from_taos_code(896, "繁忙").is_retryable(),
        "896 为唯一可重试业务码"
    );
    assert!(TaosError::from_taos_code(0x2603, "表不存在").is_not_found());
    assert!(TaosError::from_taos_code(9826, "表不存在(兼容码)").is_not_found());
    assert!(!TaosError::from_taos_code(0x2603, "表不存在").is_retryable());

    for code in [0, -1, i32::MIN] {
        let error = TaosError::from_taos_code(code, "内部错误");
        assert!(
            matches!(error, TaosError::Backend { .. }),
            "{code}: {error:?}"
        );
        assert_eq!(error.taos_code(), Some(code), "{code} 必须保留错误码");
        assert!(!error.is_retryable(), "{code} 不可重试");
    }

    assert!(matches!(
        TaosError::from_taos_code(i32::MAX, "语法错误"),
        TaosError::Invalid(_)
    ));
}
