//! Exact texts, and the small parts that everything is built on.

use std::path::PathBuf;
use std::time::Duration;

use taosx::client::response::{json_cell_to_string, JsonFault};
use taosx::config::document::toml_file_error;
use taosx::config::endpoint::endpoint;
use taosx::config::env::EnvVars;
use taosx::config::parse::{env_list, host_is_loopback, url_host, valid_host, valid_ident};
use taosx::ip::parse_address;
use taosx::native::parse_status_code;
use taosx::number::{decimal_i64, decimal_u64, parse_signed, parse_unsigned};
use taosx::{TaosConfig, TaosError, TaosPool, TransportMode, TsPrecision, ENV_PORT, ENV_TLS};

fn config_error(text: &str) -> String {
    match TaosConfig::from_toml(text) {
        Err(TaosError::Config(message)) => message,
        Err(other) => panic!("{other:?}"),
        Ok(config) => panic!("{}", config.to_debug_string()),
    }
}

#[test]
fn toml_faults_have_their_words() {
    assert_eq!(config_error(""), "TOML 缺少 schema_version 字段");
    assert_eq!(
        config_error("schema_version = \"1\""),
        "TOML schema_version 必须为整数"
    );
    assert_eq!(
        config_error("schema_version = 2"),
        "TOML schema_version 不支持: 2"
    );
    assert_eq!(
        config_error("schema_version = 1\npassword = \"x\""),
        "TOML 禁止非空 password 字段，请改用环境变量注入"
    );
    assert_eq!(
        config_error("schema_version = 1\npassword = 7"),
        "TOML password 必须为字符串类型；禁止非空 password 字段，请改用环境变量注入"
    );
    assert!(config_error("schema_version = ").starts_with("TOML 解析失败: "));
    assert_eq!(
        config_error("schema_version = 1\nsink_id = 1"),
        "TOML 反序列化失败: unknown field `sink_id`, expected one of `host`, `port`, `database`, \
         `user`, `tls`, `tls_ca_file`, `timeout_ms`, `precision`, `transport`, `max_in_flight`, \
         `acquire_timeout_ms`, `batch_max_rows`, `batch_max_bytes`, `max_response_bytes`, \
         `max_query_rows`, `close_timeout_ms`, `hosts`, `write_max_attempts`"
    );
    assert_eq!(
        config_error("schema_version = 1\nprecision = \"s\""),
        "TOML 反序列化失败: precision 非法: s（期望 ms|us|ns）"
    );
    assert_eq!(
        config_error("schema_version = 1\ntransport = \"grpc\""),
        "TOML 反序列化失败: transport 非法: grpc（期望 rest|http|native|ws|nativews|native_ws|native-ws）"
    );
    for field in [
        "host = 1",
        "port = 65536",
        "port = -1",
        "tls = 1",
        "tls_ca_file = 1",
        "timeout_ms = -1",
        "timeout_ms = 1.5",
        "max_in_flight = \"1\"",
        "write_max_attempts = 4294967296",
        "hosts = \"a\"",
        "hosts = [1]",
    ] {
        let words = config_error(&format!("schema_version = 1\n{field}"));
        assert!(words.starts_with("TOML 反序列化失败: "), "{field}: {words}");
    }
    assert_eq!(
        config_error("schema_version = 1\nmax_in_flight = 0"),
        "max_in_flight 必须为 1..=1024"
    );
}

#[test]
fn toml_sets_every_field() {
    let config = TaosConfig::from_toml(
        r#"
schema_version = 1
host = "localhost"
port = 1
database = "d"
user = "u"
password = ""
tls = true
tls_ca_file = "/ca.pem"
timeout_ms = 2
precision = "us"
transport = "nativews"
max_in_flight = 3
acquire_timeout_ms = 4
batch_max_rows = 5
batch_max_bytes = 6
max_response_bytes = 7
max_query_rows = 8
close_timeout_ms = 9
hosts = ["127.0.0.2", "::1"]
write_max_attempts = 10
"#,
    )
    .expect("valid");
    assert_eq!(config.host, "localhost");
    assert_eq!(config.port, 1);
    assert_eq!(config.database, "d");
    assert_eq!(config.user, "u");
    assert!(config.tls);
    assert_eq!(config.tls_ca_file, Some(PathBuf::from("/ca.pem")));
    assert_eq!(config.timeout, Duration::from_millis(2));
    assert_eq!(config.precision, Some(TsPrecision::Us));
    assert_eq!(config.transport, TransportMode::NativeWs);
    assert_eq!(config.max_in_flight, 3);
    assert_eq!(config.acquire_timeout, Duration::from_millis(4));
    assert_eq!(config.batch_max_rows, 5);
    assert_eq!(config.batch_max_bytes, 6);
    assert_eq!(config.max_response_bytes, 7);
    assert_eq!(config.max_query_rows, 8);
    assert_eq!(config.close_timeout, Duration::from_millis(9));
    assert_eq!(
        config.hosts,
        vec!["127.0.0.2".to_owned(), "::1".to_owned()]
    );
    assert_eq!(config.write_max_attempts, 10);
}

#[test]
fn unreadable_document_is_named() {
    let error = toml_file_error("/missing.toml", "entity not found");
    assert_eq!(
        error.to_string(),
        "配置无效: TOML 文件读取失败 `/missing.toml`: entity not found"
    );
}

#[test]
fn rendered_configuration_has_every_field_but_the_password() {
    let config = TaosConfig {
        host: "a\"b".into(),
        password: "top-secret".into(),
        tls_ca_file: Some(PathBuf::from("/ca \u{e9}.pem")),
        precision: Some(TsPrecision::Ns),
        timeout: Duration::from_millis(1500),
        hosts: vec!["x".into(), "y".into(), "z".into()],
        ..TaosConfig::default()
    };
    assert_eq!(
        config.to_debug_string(),
        format!(
            "TaosConfig {{ host: {:?}, port: 6041, database: \"infra_draft\", user: \"root\", \
             password: \"***\", tls: false, tls_ca_file: {:?}, timeout: 1.5s, precision: Some(Ns), \
             transport: Rest, max_in_flight: 64, acquire_timeout: 5s, batch_max_rows: 500, \
             batch_max_bytes: 1048576, max_response_bytes: 8388608, max_query_rows: 10000, \
             close_timeout: 5s, hosts: [\"x\", \"y\", \"z\"], write_max_attempts: 1 }}",
            "a\"b",
            Some(PathBuf::from("/ca \u{e9}.pem")),
        )
    );
    assert!(TaosConfig::default()
        .to_debug_string()
        .contains("tls_ca_file: None, "));
}

#[test]
fn rendered_pool_has_no_credentials() {
    let pool = TaosPool::new(TaosConfig {
        user: "someone".into(),
        password: "top-secret".into(),
        ..TaosConfig::default()
    })
    .ok()
    .expect("pool");
    assert_eq!(
        pool.to_debug_string(),
        "TaosPool { host: \"127.0.0.1\", port: 6041, database: \"infra_draft\", transport: Rest, \
         precision: Ms, stats: TaosPoolStats { in_flight: 0, closed: false } }"
    );
}

#[test]
fn validation_faults_have_their_words() {
    let words = |config: TaosConfig| match config.validate() {
        Err(TaosError::Config(message)) => message,
        other => panic!("{other:?}"),
    };
    let default = TaosConfig::default;
    assert_eq!(
        words(TaosConfig {
            timeout: Duration::ZERO,
            ..default()
        }),
        "timeout 必须大于 0（当前 0ns）"
    );
    assert_eq!(
        words(TaosConfig {
            close_timeout: Duration::from_secs(31),
            ..default()
        }),
        "close_timeout 超过上限 30s（当前 31s）"
    );
    assert_eq!(
        words(TaosConfig {
            write_max_attempts: 0,
            ..default()
        }),
        "write_max_attempts 必须 ≥ 1"
    );
    assert_eq!(
        words(TaosConfig {
            write_max_attempts: 11,
            ..default()
        }),
        "write_max_attempts 必须为 1..=10（当前 11）"
    );
    assert_eq!(
        words(TaosConfig {
            hosts: vec!["bad host".into()],
            ..default()
        }),
        "备用 host 非法: bad host"
    );
    assert_eq!(
        words(TaosConfig {
            tls_ca_file: Some(PathBuf::from("/ca.pem")),
            ..default()
        }),
        "配置 tls_ca_file 时必须启用 tls"
    );
}

#[test]
fn environment_overrides_only_what_it_sets() {
    let mut config = TaosConfig {
        port: 7,
        user: "kept".into(),
        ..TaosConfig::default()
    };
    config
        .apply_env_overrides(&EnvVars {
            port: Some("  ".into()),
            user: Some(String::new()),
            tls: Some(" ON ".into()),
            tls_ca_file: Some(" /ca.pem ".into()),
            hosts: Some("a, ,b,".into()),
            write_max_attempts: Some("3".into()),
            ..EnvVars::default()
        })
        .expect("valid");
    assert_eq!(config.port, 7);
    assert_eq!(config.user, "kept");
    assert!(config.tls);
    assert_eq!(config.tls_ca_file, Some(PathBuf::from("/ca.pem")));
    assert_eq!(config.hosts, vec!["a".to_owned(), "b".to_owned()]);
    assert_eq!(config.write_max_attempts, 3);

    for (env, name) in [
        (
            EnvVars {
                port: Some("70000".into()),
                ..EnvVars::default()
            },
            ENV_PORT,
        ),
        (
            EnvVars {
                tls: Some("maybe".into()),
                ..EnvVars::default()
            },
            ENV_TLS,
        ),
    ] {
        let before = config.to_debug_string();
        let error = config.apply_env_overrides(&env).expect_err("fault");
        assert!(error.to_string().contains(name), "{error:?}");
        assert!(!error.to_string().contains("70000"), "{error:?}");
        assert!(!error.to_string().contains("maybe"), "{error:?}");
        assert_eq!(config.to_debug_string(), before);
    }
}

#[test]
fn environment_is_applied_up_to_the_first_fault() {
    let text = |s: &str| Some(s.to_owned());
    let mut config = TaosConfig::default();
    let error = config
        .apply_env_overrides(&EnvVars {
            host: text("127.0.0.9"),
            port: text("x"),
            database: text("later"),
            ..EnvVars::default()
        })
        .expect_err("fault");
    assert!(error.to_string().contains(ENV_PORT), "{error:?}");
    assert_eq!(config.host, "127.0.0.9");
    assert_eq!(config.port, TaosConfig::default().port);
    assert_eq!(config.database, TaosConfig::default().database);

    let mut config = TaosConfig::default();
    assert!(config
        .apply_env_overrides(&EnvVars {
            port: text("7000"),
            max_in_flight: text("3"),
            hosts: text("127.0.0.2"),
            write_max_attempts: text("many"),
            ..EnvVars::default()
        })
        .is_err());
    assert_eq!(config.port, 7000);
    assert_eq!(config.max_in_flight, 3);
    assert_eq!(config.hosts, vec!["127.0.0.2".to_owned()]);
    assert_eq!(
        config.write_max_attempts,
        TaosConfig::default().write_max_attempts
    );
}

#[test]
fn endpoints_are_parsed() {
    let config = TaosConfig::default();
    let rest = config.rest_sql_endpoint().expect("url");
    assert_eq!(rest.scheme(), "http");
    assert_eq!(rest.host_str(), Some("127.0.0.1"));
    assert_eq!(rest.port(), Some(6041));
    assert_eq!(rest.path(), "/rest/sql");
    let ws = config.native_ws_endpoint().expect("url");
    assert_eq!(ws.scheme(), "ws");
    assert_eq!(ws.path(), "/rest/ws");

    let error = endpoint("REST", Err(url::ParseError::EmptyHost)).expect_err("no host");
    assert_eq!(
        error.to_string(),
        "配置无效: REST 端点非法（empty host）"
    );
    let error = TaosConfig {
        host: "a b".into(),
        ..TaosConfig::default()
    }
    .rest_sql_endpoint()
    .expect_err("no URL");
    assert!(
        error.to_string().contains("invalid international domain name"),
        "{error:?}"
    );
}

#[test]
fn hosts_and_identifiers_are_told_apart() {
    for host in [
        "localhost",
        "LOCALHOST",
        "127.0.0.1",
        "127.8.9.10",
        "::1",
        "[::1]",
    ] {
        assert!(host_is_loopback(host), "{host}");
    }
    for host in ["td.example", "10.0.0.1", "::2", "localhost.evil"] {
        assert!(!host_is_loopback(host), "{host}");
    }
    for host in [
        "a b",
        "user@localhost",
        "http://localhost",
        "",
        "a/b",
        "a?b",
        "a#b",
    ] {
        assert!(!valid_host(host), "{host}");
    }
    assert_eq!(url_host("::1"), "[::1]");
    assert_eq!(url_host("td.example"), "td.example");
    assert!(valid_ident("_a1"));
    assert!(!valid_ident("1a"));
    assert!(!valid_ident("a-b"));
    assert!(valid_ident(&"a".repeat(192)));
    assert!(!valid_ident(&"a".repeat(193)));
    assert_eq!(env_list(" a ,, b"), vec!["a".to_owned(), "b".to_owned()]);
}

#[test]
fn addresses_are_read() {
    for (text, loopback) in [
        ("127.0.0.1", Some(true)),
        ("127.255.255.255", Some(true)),
        ("128.0.0.1", Some(false)),
        ("0.0.0.0", Some(false)),
        ("256.0.0.1", None),
        ("01.2.3.4", None),
        ("1.2.3", None),
        ("1.2.3.4.5", None),
        ("1..2.3", None),
        ("", None),
        ("::", Some(false)),
        ("::1", Some(true)),
        ("0:0:0:0:0:0:0:1", Some(true)),
        ("::ffff:127.0.0.1", Some(false)),
        ("1::2::3", None),
        ("1:2:3:4:5:6:7:8", Some(false)),
        ("1:2:3:4:5:6:7", None),
        ("1:2:3:4:5:6:7:8:9", None),
        ("1:2:3:4:5:6:1.2.3.4", Some(false)),
        ("g::1", None),
        ("12345::", None),
        ("::0001", Some(true)),
        ("::00001", None),
        ("fe80::1%eth0", None),
        (" ::1", None),
    ] {
        assert_eq!(
            parse_address(text).map(|address| address.is_loopback()),
            loopback,
            "{text}"
        );
    }
}

#[test]
fn numbers_are_written_and_read() {
    for n in [0, 1, 9, 10, 99, 1_000, u64::MAX] {
        assert_eq!(decimal_u64(n), format!("{n}"));
        assert_eq!(parse_unsigned(&decimal_u64(n), u64::MAX), Some(n));
    }
    for n in [i64::MIN, -10, -1, 0, 1, i64::MAX] {
        assert_eq!(decimal_i64(n), format!("{n}"));
        assert_eq!(parse_signed(&decimal_i64(n)), Some(n));
    }
    for text in [
        "",
        "-",
        "+",
        "+7",
        "-7",
        "007",
        "1_0",
        " 1",
        "1 ",
        "65536",
        "9223372036854775808",
        "-9223372036854775809",
        "x",
    ] {
        assert_eq!(parse_signed(text), text.parse::<i64>().ok(), "{text}");
        assert_eq!(
            parse_unsigned(text, 65_535),
            text.parse::<u16>().ok().map(u64::from),
            "{text}"
        );
    }
}

#[test]
fn cells_keep_the_notation_of_numbers() {
    for (json, text) in [
        ("null", ""),
        ("true", "true"),
        ("false", "false"),
        ("12345678901234567890", "12345678901234567890"),
        ("-7", "-7"),
        ("0.5", "0.5"),
        ("1e300", "1e+300"),
        ("\"a\\\"b\"", "a\"b"),
        ("[1, null]", "[1,null]"),
        ("{\"b\": 1, \"a\": 2}", "{\"a\":2,\"b\":1}"),
    ] {
        let value: serde_json::Value = serde_json::from_str(json).expect("json");
        assert_eq!(json_cell_to_string(&value), text, "{json}");
    }
}

#[test]
fn faulty_frames_tell_the_reason() {
    let error = parse_status_code("not json").expect_err("json");
    assert_eq!(
        error.to_string(),
        "远端暂时不可用: ws 响应不是合法 JSON: expected ident at line 1 column 2"
    );
    let fault = JsonFault { line: 3, column: 4 };
    let error = taosx::client::response::parse_taos_json(Err(fault)).expect_err("json");
    assert!(error.to_string().contains('3') && error.to_string().contains('4'));
}
