//! Configuration: defaults, limits, hosts, environment, TOML and the builder.

use std::time::Duration;

use taosx::config::env::EnvVars;
use taosx::{
    hard_max_close_timeout, hard_max_timeout, TaosConfig, TaosConfigBuilder, TransportMode,
    TsPrecision, DEFAULT_DATABASE, DEFAULT_HOST, DEFAULT_PORT, DEFAULT_USER, ENV_TIMEOUT_MS,
    HARD_MAX_BATCH_BYTES, HARD_MAX_BATCH_ROWS, HARD_MAX_IN_FLIGHT, HARD_MAX_QUERY_ROWS,
    HARD_MAX_RESPONSE_BYTES,
};

#[test]
fn config_default_values_are_loopback_http() {
    let config = TaosConfig::default();
    assert_eq!(config.host, DEFAULT_HOST);
    assert_eq!(config.port, DEFAULT_PORT);
    assert_eq!(config.user, DEFAULT_USER);
    assert_eq!(config.database, DEFAULT_DATABASE);
    assert!(config.password.is_empty());
    assert_eq!(config.rest_sql_url(), "http://127.0.0.1:6041/rest/sql");
    assert_eq!(config.native_ws_url(), "ws://127.0.0.1:6041/rest/ws");
    config.validate().expect("默认配置必须有效");
}

#[test]
fn config_debug_redacts_password() {
    let config = TaosConfig {
        password: "fake-pass-value-42".into(),
        ..Default::default()
    };
    let rendered = config.to_debug_string();
    assert!(rendered.contains("***"));
    assert!(!rendered.contains("fake-pass-value-42"));
}

#[test]
fn config_toml_parses_flat_fields() {
    let config = TaosConfig::from_toml(
        r#"
schema_version = 1
host = "127.0.0.1"
port = 6041
database = "macro_data"
user = "writer"
tls = false
timeout_ms = 15000
precision = "ns"
transport = "native"
max_in_flight = 32
hosts = ["127.0.0.2"]
write_max_attempts = 3
"#,
    )
    .expect("TOML 解析必须成功");
    assert_eq!(config.database, "macro_data");
    assert_eq!(config.user, "writer");
    assert_eq!(config.timeout, Duration::from_millis(15000));
    assert_eq!(config.precision, Some(TsPrecision::Ns));
    assert_eq!(config.transport, TransportMode::NativeWs);
    assert_eq!(config.max_in_flight, 32);
    assert_eq!(config.hosts, vec!["127.0.0.2".to_owned()]);
    assert_eq!(config.write_max_attempts, 3);
    assert!(config.password.is_empty());
}

#[test]
fn config_toml_rejects_schema_and_unknown_fields() {
    assert!(TaosConfig::from_toml("host = \"127.0.0.1\"\n").is_err());
    assert!(TaosConfig::from_toml("schema_version = 99\n").is_err());
    assert!(TaosConfig::from_toml("schema_version = 1\nsink_id = \"m\"\n").is_err());
}

#[test]
fn config_toml_rejects_non_empty_password_without_echoing_it() {
    let error = TaosConfig::from_toml("schema_version = 1\npassword = \"hunter2\"\n")
        .err()
        .expect("非空 password 必须拒绝");
    assert!(error.to_string().contains("password"));
    assert!(!error.to_string().contains("hunter2"));
}

#[test]
fn config_toml_rejects_invalid_precision_and_transport() {
    assert!(TaosConfig::from_toml("schema_version = 1\nprecision = \"bogus\"\n").is_err());
    assert!(TaosConfig::from_toml("schema_version = 1\ntransport = \"grpc\"\n").is_err());
}

#[test]
fn config_hard_limits_fail_closed() {
    let cases = [
        TaosConfig {
            max_in_flight: HARD_MAX_IN_FLIGHT + 1,
            ..Default::default()
        },
        TaosConfig {
            max_in_flight: 0,
            ..Default::default()
        },
        TaosConfig {
            batch_max_rows: HARD_MAX_BATCH_ROWS + 1,
            ..Default::default()
        },
        TaosConfig {
            batch_max_bytes: HARD_MAX_BATCH_BYTES + 1,
            ..Default::default()
        },
        TaosConfig {
            max_response_bytes: HARD_MAX_RESPONSE_BYTES + 1,
            ..Default::default()
        },
        TaosConfig {
            max_query_rows: HARD_MAX_QUERY_ROWS + 1,
            ..Default::default()
        },
        TaosConfig {
            close_timeout: hard_max_close_timeout() + Duration::from_millis(1),
            ..Default::default()
        },
    ];
    for config in cases {
        assert!(config.validate().is_err(), "{} 必须被拒绝", config.to_debug_string());
    }
}

#[test]
fn config_remote_plaintext_and_auth_fail_closed() {
    let plaintext = TaosConfig {
        host: "td.example".into(),
        ..Default::default()
    };
    assert!(plaintext.validate().is_err());

    let no_password = TaosConfig {
        host: "td.example".into(),
        tls: true,
        ..Default::default()
    };
    assert!(no_password.validate().is_err());

    let secure = TaosConfig {
        host: "td.example".into(),
        tls: true,
        password: "configured".into(),
        ..Default::default()
    };
    secure.validate().expect("远程 TLS + 认证必须通过");
}

#[test]
fn config_host_classification_and_ipv6_are_strict() {
    for bad in [
        "localhost.evil",
        "127.0.0.1.evil",
        "user@localhost",
        "http://localhost",
    ] {
        let config = TaosConfig {
            host: bad.into(),
            ..Default::default()
        };
        assert!(config.validate().is_err(), "坏主机 {bad} 必须被拒绝");
    }
    let ipv6 = TaosConfig {
        host: "::1".into(),
        ..Default::default()
    };
    ipv6.validate().expect("IPv6 环回必须通过");
    assert_eq!(ipv6.rest_sql_url(), "http://[::1]:6041/rest/sql");
}

#[test]
fn config_endpoint_hosts_dedupes_and_keeps_order() {
    let config = TaosConfig {
        host: "a".into(),
        hosts: vec!["a".into(), "b".into(), "c".into()],
        ..Default::default()
    };
    assert_eq!(config.endpoint_hosts(), vec!["a", "b", "c"]);
    assert_eq!(
        config.rest_sql_url_for("db.example"),
        "http://db.example:6041/rest/sql"
    );
    assert!(config.rest_sql_db_url().ends_with("/infra_draft"));
}

#[test]
fn config_builder_overrides_and_builds() {
    let config = TaosConfig::builder()
        .host("127.0.0.1")
        .port(6041)
        .database("ticks")
        .user("writer")
        .password("p")
        .max_in_flight(4)
        .batch_max_rows(10)
        .precision(TsPrecision::Ns)
        .transport(TransportMode::NativeWs)
        .hosts(vec!["127.0.0.2"])
        .timeout(Duration::from_millis(500))
        .acquire_timeout(Duration::from_millis(100))
        .close_timeout(Duration::from_millis(100))
        .write_max_attempts(0)
        .build()
        .expect("构建必须成功");
    assert_eq!(config.max_in_flight, 4);
    assert_eq!(config.precision, Some(TsPrecision::Ns));
    assert_eq!(config.transport, TransportMode::NativeWs);
    assert_eq!(config.write_max_attempts, 1, "0 应被夹到 1");
    assert_eq!(config.hosts, vec!["127.0.0.2".to_owned()]);

    let rebuilt = TaosConfigBuilder::from_config(config)
        .build()
        .expect("重新构建");
    assert_eq!(rebuilt.database, "ticks");
}

#[test]
fn config_builder_rejects_invalid_config() {
    let error = TaosConfig::builder()
        .host("")
        .build()
        .err()
        .expect("空 host 必须拒绝");
    assert!(!error.is_retryable(), "配置错误不可重试");
}

#[test]
fn config_precision_roundtrip_and_parse() {
    assert_eq!(TsPrecision::Ms.from_nanos(1_500_000_000), 1500);
    assert_eq!(TsPrecision::Ms.to_nanos(1500), 1_500_000_000);
    assert_eq!(TsPrecision::Ns.from_nanos(42), 42);
    assert_eq!(TsPrecision::parse("US"), Some(TsPrecision::Us));
    assert_eq!(TsPrecision::parse(" bogus "), None);
    assert_eq!(TsPrecision::Ms.as_str(), "ms");
    assert_eq!(TransportMode::parse("rest"), Some(TransportMode::Rest));
    assert_eq!(
        TransportMode::parse("native-ws"),
        Some(TransportMode::NativeWs)
    );
    assert!(TransportMode::parse("bogus").is_none());
}

#[test]
fn config_env_parsed_reports_variable_name_without_echoing_value() {
    let env = EnvVars {
        timeout_ms: Some("secret-not-a-number".to_owned()),
        ..EnvVars::default()
    };
    let error = TaosConfig::default()
        .apply_env_overrides(&env)
        .expect_err("非法数值必须拒绝");
    assert!(error.to_string().contains(ENV_TIMEOUT_MS));
    assert!(!error.to_string().contains("secret-not-a-number"));
}

#[test]
fn timeout_validation_errors_include_field_name_and_range() {
    let zero_timeout = TaosConfig {
        timeout: Duration::ZERO,
        ..Default::default()
    };
    let error = zero_timeout.validate().expect_err("零 timeout 必须拒绝");
    let msg = error.to_string();
    assert!(
        msg.contains("timeout"),
        "错误消息必须包含字段名 'timeout': {msg}"
    );

    let zero_acquire = TaosConfig {
        acquire_timeout: Duration::ZERO,
        ..Default::default()
    };
    let error = zero_acquire
        .validate()
        .expect_err("零 acquire_timeout 必须拒绝");
    let msg = error.to_string();
    assert!(
        msg.contains("acquire_timeout"),
        "错误消息必须包含字段名 'acquire_timeout': {msg}"
    );

    let zero_close = TaosConfig {
        close_timeout: Duration::ZERO,
        ..Default::default()
    };
    let error = zero_close
        .validate()
        .expect_err("零 close_timeout 必须拒绝");
    let msg = error.to_string();
    assert!(
        msg.contains("close_timeout"),
        "错误消息必须包含字段名 'close_timeout': {msg}"
    );

    let over_close = TaosConfig {
        close_timeout: hard_max_close_timeout() + Duration::from_secs(1),
        ..Default::default()
    };
    let error = over_close
        .validate()
        .expect_err("超限 close_timeout 必须拒绝");
    let msg = error.to_string();
    assert!(
        msg.contains("close_timeout"),
        "错误消息必须包含字段名 'close_timeout': {msg}"
    );
    assert!(
        msg.contains(&hard_max_close_timeout().as_secs().to_string()),
        "错误消息必须引用 HARD_MAX_CLOSE_TIMEOUT 实际值而非硬编码: {msg}"
    );
}

#[test]
fn timeout_over_hard_max_reports_upper_bound() {
    let over_timeout = TaosConfig {
        timeout: hard_max_timeout() + Duration::from_millis(1),
        ..Default::default()
    };
    let error = over_timeout.validate().expect_err("超限 timeout 必须拒绝");
    let msg = error.to_string();
    assert!(
        msg.contains("timeout 超过上限"),
        "错误消息必须包含「timeout 超过上限」: {msg}"
    );
    assert!(
        msg.contains(&format!("{:.0?}", hard_max_timeout())),
        "错误消息必须引用 HARD_MAX_TIMEOUT 实际值: {msg}"
    );

    let over_acquire = TaosConfig {
        acquire_timeout: hard_max_timeout() + Duration::from_millis(1),
        ..Default::default()
    };
    let error = over_acquire
        .validate()
        .expect_err("超限 acquire_timeout 必须拒绝");
    let msg = error.to_string();
    assert!(
        msg.contains("acquire_timeout 超过上限"),
        "错误消息必须包含「acquire_timeout 超过上限」: {msg}"
    );
    assert!(
        msg.contains(&format!("{:.0?}", hard_max_timeout())),
        "错误消息必须引用 HARD_MAX_TIMEOUT 实际值: {msg}"
    );

    let at_limit = TaosConfig {
        timeout: hard_max_timeout(),
        acquire_timeout: hard_max_timeout(),
        ..Default::default()
    };
    at_limit.validate().expect("等于上限必须通过");
}

#[test]
fn tests_default_values_are_loopback_http() {
    let config = TaosConfig::default();
    assert_eq!(config.host, DEFAULT_HOST);
    assert_eq!(config.port, DEFAULT_PORT);
    assert_eq!(config.user, DEFAULT_USER);
    assert_eq!(config.database, DEFAULT_DATABASE);
    assert!(config.password.is_empty());
    assert_eq!(config.rest_sql_url(), "http://127.0.0.1:6041/rest/sql");
    assert_eq!(config.native_ws_url(), "ws://127.0.0.1:6041/rest/ws");
    config.validate().expect("默认配置必须有效");
}

#[test]
fn tests_debug_redacts_password() {
    let config = TaosConfig {
        password: "fake-pass-value-42".into(),
        ..Default::default()
    };
    let rendered = config.to_debug_string();
    assert!(rendered.contains("***"));
    assert!(!rendered.contains("fake-pass-value-42"));
}

#[test]
fn tests_toml_parses_flat_fields() {
    let config = TaosConfig::from_toml(
        r#"
schema_version = 1
host = "127.0.0.1"
port = 6041
database = "macro_data"
user = "writer"
tls = false
timeout_ms = 15000
precision = "ns"
transport = "native"
max_in_flight = 32
hosts = ["127.0.0.2"]
write_max_attempts = 3
"#,
    )
    .expect("TOML 解析必须成功");
    assert_eq!(config.database, "macro_data");
    assert_eq!(config.user, "writer");
    assert_eq!(config.timeout, Duration::from_millis(15000));
    assert_eq!(config.precision, Some(TsPrecision::Ns));
    assert_eq!(config.transport, TransportMode::NativeWs);
    assert_eq!(config.max_in_flight, 32);
    assert_eq!(config.hosts, vec!["127.0.0.2".to_owned()]);
    assert_eq!(config.write_max_attempts, 3);
    assert!(config.password.is_empty());
}

#[test]
fn tests_toml_rejects_schema_and_unknown_fields() {
    assert!(TaosConfig::from_toml("host = \"127.0.0.1\"\n").is_err());
    assert!(TaosConfig::from_toml("schema_version = 99\n").is_err());
    assert!(TaosConfig::from_toml("schema_version = 1\nsink_id = \"m\"\n").is_err());
}

#[test]
fn tests_toml_rejects_non_empty_password_without_echoing_it() {
    let error = TaosConfig::from_toml("schema_version = 1\npassword = \"hunter2\"\n")
        .err()
        .expect("非空 password 必须拒绝");
    assert!(error.to_string().contains("password"));
    assert!(!error.to_string().contains("hunter2"));
}

#[test]
fn tests_toml_rejects_invalid_precision_and_transport() {
    assert!(TaosConfig::from_toml("schema_version = 1\nprecision = \"bogus\"\n").is_err());
    assert!(TaosConfig::from_toml("schema_version = 1\ntransport = \"grpc\"\n").is_err());
}

#[test]
fn tests_hard_limits_fail_closed() {
    let cases = [
        TaosConfig {
            max_in_flight: HARD_MAX_IN_FLIGHT + 1,
            ..Default::default()
        },
        TaosConfig {
            max_in_flight: 0,
            ..Default::default()
        },
        TaosConfig {
            batch_max_rows: HARD_MAX_BATCH_ROWS + 1,
            ..Default::default()
        },
        TaosConfig {
            batch_max_bytes: HARD_MAX_BATCH_BYTES + 1,
            ..Default::default()
        },
        TaosConfig {
            max_response_bytes: HARD_MAX_RESPONSE_BYTES + 1,
            ..Default::default()
        },
        TaosConfig {
            max_query_rows: HARD_MAX_QUERY_ROWS + 1,
            ..Default::default()
        },
        TaosConfig {
            close_timeout: hard_max_close_timeout() + Duration::from_millis(1),
            ..Default::default()
        },
    ];
    for config in cases {
        assert!(config.validate().is_err(), "{} 必须被拒绝", config.to_debug_string());
    }
}

#[test]
fn tests_remote_plaintext_and_auth_fail_closed() {
    let plaintext = TaosConfig {
        host: "td.example".into(),
        ..Default::default()
    };
    assert!(plaintext.validate().is_err());

    let no_password = TaosConfig {
        host: "td.example".into(),
        tls: true,
        ..Default::default()
    };
    assert!(no_password.validate().is_err());

    let secure = TaosConfig {
        host: "td.example".into(),
        tls: true,
        password: "configured".into(),
        ..Default::default()
    };
    secure.validate().expect("远程 TLS + 认证必须通过");
}

#[test]
fn tests_host_classification_and_ipv6_are_strict() {
    for bad in [
        "localhost.evil",
        "127.0.0.1.evil",
        "user@localhost",
        "http://localhost",
    ] {
        let config = TaosConfig {
            host: bad.into(),
            ..Default::default()
        };
        assert!(config.validate().is_err(), "坏主机 {bad} 必须被拒绝");
    }
    let ipv6 = TaosConfig {
        host: "::1".into(),
        ..Default::default()
    };
    ipv6.validate().expect("IPv6 环回必须通过");
    assert_eq!(ipv6.rest_sql_url(), "http://[::1]:6041/rest/sql");
}

#[test]
fn tests_endpoint_hosts_dedupes_and_keeps_order() {
    let config = TaosConfig {
        host: "a".into(),
        hosts: vec!["a".into(), "b".into(), "c".into()],
        ..Default::default()
    };
    assert_eq!(config.endpoint_hosts(), vec!["a", "b", "c"]);
    assert_eq!(
        config.rest_sql_url_for("db.example"),
        "http://db.example:6041/rest/sql"
    );
    assert!(config.rest_sql_db_url().ends_with("/infra_draft"));
}

#[test]
fn tests_builder_overrides_and_builds() {
    let config = TaosConfig::builder()
        .host("127.0.0.1")
        .port(6041)
        .database("ticks")
        .user("writer")
        .password("p")
        .max_in_flight(4)
        .batch_max_rows(10)
        .precision(TsPrecision::Ns)
        .transport(TransportMode::NativeWs)
        .hosts(vec!["127.0.0.2"])
        .timeout(Duration::from_millis(500))
        .acquire_timeout(Duration::from_millis(100))
        .close_timeout(Duration::from_millis(100))
        .write_max_attempts(0)
        .build()
        .expect("构建必须成功");
    assert_eq!(config.max_in_flight, 4);
    assert_eq!(config.precision, Some(TsPrecision::Ns));
    assert_eq!(config.transport, TransportMode::NativeWs);
    assert_eq!(config.write_max_attempts, 1, "0 应被夹到 1");
    assert_eq!(config.hosts, vec!["127.0.0.2".to_owned()]);

    let rebuilt = TaosConfigBuilder::from_config(config)
        .build()
        .expect("重新构建");
    assert_eq!(rebuilt.database, "ticks");
}

#[test]
fn tests_builder_rejects_invalid_config() {
    let error = TaosConfig::builder()
        .host("")
        .build()
        .err()
        .expect("空 host 必须拒绝");
    assert!(!error.is_retryable(), "配置错误不可重试");
}

#[test]
fn tests_precision_roundtrip_and_parse() {
    assert_eq!(TsPrecision::Ms.from_nanos(1_500_000_000), 1500);
    assert_eq!(TsPrecision::Ms.to_nanos(1500), 1_500_000_000);
    assert_eq!(TsPrecision::Ns.from_nanos(42), 42);
    assert_eq!(TsPrecision::parse("US"), Some(TsPrecision::Us));
    assert_eq!(TsPrecision::parse(" bogus "), None);
    assert_eq!(TsPrecision::Ms.as_str(), "ms");
    assert_eq!(TransportMode::parse("rest"), Some(TransportMode::Rest));
    assert_eq!(
        TransportMode::parse("native-ws"),
        Some(TransportMode::NativeWs)
    );
    assert!(TransportMode::parse("bogus").is_none());
}

#[test]
fn tests_env_parsed_reports_variable_name_without_echoing_value() {
    let env = EnvVars {
        timeout_ms: Some("secret-not-a-number".to_owned()),
        ..EnvVars::default()
    };
    let error = TaosConfig::default()
        .apply_env_overrides(&env)
        .expect_err("非法数值必须拒绝");
    assert!(error.to_string().contains(ENV_TIMEOUT_MS));
    assert!(!error.to_string().contains("secret-not-a-number"));
}
