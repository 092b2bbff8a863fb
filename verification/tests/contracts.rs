//! One promise for each way in.

use taosx::config::env::EnvVars;
use taosx::{
    TaosConfig, TaosError, TransportMode, DEFAULT_DATABASE, DEFAULT_HOST, DEFAULT_PORT, ENV_PREFIX,
    HARD_MAX_IN_FLIGHT,
};

#[test]
fn config_from_env_reads_prefixed_env() {
    let config = TaosConfig::from_env(&EnvVars {
        host: Some("127.0.0.3".to_owned()),
        port: Some("6141".to_owned()),
        database: Some("market_binance".to_owned()),
        user: Some("writer".to_owned()),
        password: Some("pw-from-env".to_owned()),
        transport: Some("native".to_owned()),
        ..EnvVars::default()
    })
    .expect("环境加载必须成功");
    let observed = (
        config.host.clone(),
        config.port,
        config.database.clone(),
        config.user.clone(),
        config.password.clone(),
        config.transport,
    );

    assert_eq!(observed.0, "127.0.0.3", "ENV_HOST 必须生效");
    assert_eq!(observed.1, 6141, "ENV_PORT 必须生效");
    assert_eq!(observed.2, "market_binance", "ENV_DATABASE 必须生效");
    assert_eq!(observed.3, "writer", "ENV_USER 必须生效");
    assert_eq!(observed.4, "pw-from-env", "密码只能经环境变量注入");
    assert_eq!(
        observed.5,
        TransportMode::NativeWs,
        "transport=native 应解析"
    );
    assert!(ENV_PREFIX.starts_with("FOUNDATIONX_TAOSX"));
}

#[test]
fn config_from_toml_rejects_non_empty_password() {
    let error = TaosConfig::from_toml("schema_version = 1\npassword = \"hunter2\"\n")
        .err()
        .expect("TOML 中的非空 password 必须拒绝");
    assert!(error.to_string().contains("password"));
    assert!(
        !error.to_string().contains("hunter2"),
        "错误不得回显 password"
    );

    let parsed =
        TaosConfig::from_toml("schema_version = 1\nport = 6041\n").expect("扁平字段可解析");
    assert!(parsed.password.is_empty(), "TOML 不参与密码注入");
    assert_eq!(parsed.port, 6041);
}

#[test]
fn config_validate_enforces_hard_limits() {
    let zero_in_flight = TaosConfig {
        max_in_flight: 0,
        ..Default::default()
    };
    let error = zero_in_flight.validate().expect_err("0 并发必须拒绝");
    assert!(matches!(error, TaosError::Config(_)), "{error:?}");

    let over_limit = TaosConfig {
        max_in_flight: HARD_MAX_IN_FLIGHT + 1,
        ..Default::default()
    };
    let error = over_limit.validate().expect_err("超过硬上限必须拒绝");
    assert!(matches!(error, TaosError::Config(_)), "{error:?}");

    let remote_plaintext = TaosConfig {
        host: "td.example".into(),
        ..Default::default()
    };
    let error = remote_plaintext
        .validate()
        .expect_err("远程明文必须 fail-closed");
    assert!(matches!(error, TaosError::Config(_)), "{error:?}");

    let defaults = TaosConfig::default();
    assert_eq!(defaults.host, DEFAULT_HOST);
    assert_eq!(defaults.port, DEFAULT_PORT);
    assert_eq!(defaults.database, DEFAULT_DATABASE);
    defaults.validate().expect("默认配置必须有效");
}

#[test]
fn is_retryable_classifies_taos_codes() {
    let busy = TaosError::from_taos_code(896, "服务端繁忙");
    assert!(matches!(busy, TaosError::Unavailable(_)), "{busy:?}");
    assert!(busy.is_retryable(), "896 应可重试");

    let not_found = TaosError::from_taos_code(0x2603, "表不存在");
    assert!(not_found.is_not_found());
    assert!(!not_found.is_retryable(), "表不存在不可重试");
    assert_eq!(not_found.taos_code(), Some(0x2603));

    for retryable in [
        TaosError::Connection("x".into()),
        TaosError::Unavailable("x".into()),
        TaosError::Timeout("x".into()),
        TaosError::from(std::io::Error::other("x")),
    ] {
        assert!(retryable.is_retryable(), "{retryable:?} 应可重试");
    }
    for permanent in [
        TaosError::Config("x".into()),
        TaosError::backend("x"),
        TaosError::Serialization("x".into()),
        TaosError::Invalid("x".into()),
        TaosError::Closed("x".into()),
        TaosError::Unsupported("x".into()),
    ] {
        assert!(!permanent.is_retryable(), "{permanent:?} 不应可重试");
    }
}
