//! The WebSocket side: URLs, frames, status codes and sessions.

use taosx::native::{
    conn_payload, ensure_code_zero, frame_kind, frame_payload, handshake_outcome, handshake_start,
    json_type_name, parse_status_code, probe_outcome, probe_start, query_payload, ws_limit,
    Handshake, PortProbe, WsEvent, WsFrame, WsSession, WsStep,
};
use taosx::{build_native_ws_url, validate_mode, TaosConfig, TaosError, TransportMode};

#[test]
fn url_builder_and_mode() {
    let config = TaosConfig {
        host: "localhost".into(),
        port: 6041,
        transport: TransportMode::NativeWs,
        ..TaosConfig::default()
    };
    assert_eq!(build_native_ws_url(&config), "ws://localhost:6041/rest/ws");
    validate_mode(&config).expect("合法配置必须通过");

    let bad = TaosConfig {
        max_in_flight: 0,
        ..config
    };
    let error = validate_mode(&bad).expect_err("max_in_flight=0 必须拒绝");
    assert!(matches!(error, TaosError::Config(_)), "{error:?}");
}

#[test]
fn status_code_parsing_is_strict() {
    assert_eq!(parse_status_code(r#"{"code":0}"#).expect("code 0"), 0);
    assert_eq!(
        parse_status_code(r#"{"code":65535,"message":"server not connected"}"#)
            .expect("code 65535"),
        65535
    );
    for (payload, why) in [
        ("not json", "非 JSON"),
        (r#"[1,2]"#, "顶层非对象"),
        (r#"{"action":"conn","req_id":0}"#, "缺 code 字段"),
        (r#"{"code":"0"}"#, "code 为字符串"),
        (r#"{"code":0.5}"#, "code 为浮点"),
        (r#"{"code":true}"#, "code 为布尔"),
        (r#"{"code":null}"#, "code 为 null"),
        (r#"{"code":4294967296}"#, "code 超出 i32 取值域"),
    ] {
        let error = parse_status_code(payload).expect_err(why);
        assert!(
            matches!(error, TaosError::Unavailable(_)),
            "{why}: 必须 fail-closed 为 Unavailable，实际 {error:?}"
        );
    }
}

#[test]
fn ensure_code_zero_rejects_nonzero_code() {
    ensure_code_zero(r#"{"code":0}"#, "conn").expect("code=0 必须通过");

    let error = ensure_code_zero(r#"{"code":65535,"message":"server not connected"}"#, "conn")
        .expect_err("非 0 code 必须失败");
    assert!(matches!(error, TaosError::Unavailable(_)));
    let rendered = error.to_string();
    assert!(rendered.contains("65535"), "必须保留错误码: {rendered}");
    assert!(rendered.contains("conn"), "必须点明阶段: {rendered}");
    assert!(
        !rendered.contains("server not connected"),
        "服务端 message 文本不得进入错误消息: {rendered}"
    );
}

#[test]
fn malformed_status_messages_are_descriptive() {
    let missing = parse_status_code(r#"{"action":"conn"}"#).expect_err("缺字段必须失败");
    assert!(missing.to_string().contains("code"), "{missing:?}");

    let wrong = parse_status_code(r#"{"code":"0"}"#).expect_err("类型错必须失败");
    let rendered = wrong.to_string();
    assert!(rendered.contains("不是整数"), "{rendered}");
    assert!(rendered.contains("字符串"), "必须报出实际类型: {rendered}");
}

#[test]
fn json_type_name_covers_all_variants() {
    assert_eq!(json_type_name(&serde_json::Value::Null), "null");
    assert_eq!(json_type_name(&serde_json::Value::from(true)), "布尔");
    assert_eq!(json_type_name(&serde_json::Value::from(1)), "数字");
    assert_eq!(json_type_name(&serde_json::Value::from("x")), "字符串");
    assert_eq!(
        json_type_name(&serde_json::Value::Array(Vec::new())),
        "数组"
    );
    assert_eq!(
        json_type_name(&serde_json::Value::Object(serde_json::Map::new())),
        "对象"
    );
}

#[test]
fn frame_kind_labels_are_stable() {
    assert_eq!(frame_kind(&WsFrame::Text("x".into())), "Text");
    assert_eq!(frame_kind(&WsFrame::Binary(vec![])), "Binary");
    assert_eq!(frame_kind(&WsFrame::Ping), "Ping");
    assert_eq!(frame_kind(&WsFrame::Pong), "Pong");
    assert_eq!(frame_kind(&WsFrame::Close), "Close");
    assert_eq!(frame_kind(&WsFrame::Frame), "Frame");
}

#[test]
fn frame_payload_accepts_data_frames_only() {
    assert_eq!(
        frame_payload(WsFrame::Text(r#"{"code":0}"#.into())).expect("Text"),
        r#"{"code":0}"#
    );
    assert_eq!(
        frame_payload(WsFrame::Binary(b"{\"code\":0}".to_vec())).expect("Binary"),
        r#"{"code":0}"#
    );
    for control in [WsFrame::Ping, WsFrame::Pong, WsFrame::Close, WsFrame::Frame] {
        let error = frame_payload(control).expect_err("控制帧必须失败");
        assert!(
            matches!(error, TaosError::Unavailable(_)),
            "控制帧必须映射为 Unavailable: {error:?}"
        );
    }
}

#[test]
fn binary_frame_with_invalid_utf8_fails_closed() {
    let payload = frame_payload(WsFrame::Binary(vec![0xff, 0xfe])).expect("载荷");
    let error = parse_status_code(&payload).expect_err("非法 UTF-8 不得被当作成功");
    assert!(matches!(error, TaosError::Unavailable(_)), "{error:?}");
}

#[test]
fn ws_config_links_max_response_bytes() {
    let config = TaosConfig {
        max_response_bytes: 1234,
        ..TaosConfig::default()
    };
    assert_eq!(ws_limit(&config), 1234, "帧上限必须联动配置");
}

#[test]
fn handshake_needs_the_native_mode() {
    let error = handshake_start(&TaosConfig {
        transport: TransportMode::Rest,
        ..TaosConfig::default()
    })
    .expect_err("Rest 模式必须拒绝");
    assert!(matches!(error, TaosError::Config(_)));

    let url = handshake_start(&TaosConfig {
        transport: TransportMode::NativeWs,
        ..TaosConfig::default()
    })
    .expect("native mode");
    assert_eq!(url, "ws://127.0.0.1:6041/rest/ws");

    assert!(handshake_outcome(&url, Handshake::Closed).is_ok());
    let error = handshake_outcome(&url, Handshake::TimedOut).expect_err("late");
    assert!(matches!(error, TaosError::Timeout(_)), "{error:?}");
    assert!(error.to_string().contains(&url));
    for end in [
        Handshake::ConnectFailed("refused".into()),
        Handshake::CloseFailed("refused".into()),
    ] {
        let error = handshake_outcome(&url, end).expect_err("refused");
        assert!(error.is_retryable(), "{error:?}");
        assert!(error.to_string().contains("refused"));
    }
}

#[test]
fn port_probe_rejects_port_zero() {
    let error = probe_start(&TaosConfig::default(), 0).expect_err("0 必须拒绝");
    assert!(matches!(error, TaosError::Invalid(_)), "{error:?}");
    assert!(error.to_string().contains("native_port"), "{error:?}");
    let address = probe_start(&TaosConfig::default(), 6030).expect("port");
    assert_eq!(address, "127.0.0.1:6030");
    assert!(probe_outcome(&address, PortProbe::Connected).is_ok());
    assert!(matches!(
        probe_outcome(&address, PortProbe::TimedOut),
        Err(TaosError::Timeout(_))
    ));
    assert!(matches!(
        probe_outcome(&address, PortProbe::Failed("refused".into())),
        Err(TaosError::Unavailable(_))
    ));
}

fn session() -> WsSession {
    WsSession::start(
        &TaosConfig {
            transport: TransportMode::NativeWs,
            user: "root".into(),
            password: "top-secret".into(),
            ..TaosConfig::default()
        },
        "SELECT 1",
    )
    .ok()
    .expect("session")
}

fn running(step: WsStep) -> WsSession {
    match step {
        WsStep::Running(session) => session,
        WsStep::Done(body) => panic!("done: {body}"),
        WsStep::Failed(error) => panic!("failed: {error:?}"),
    }
}

fn failed(step: WsStep) -> TaosError {
    match step {
        WsStep::Failed(error) => error,
        WsStep::Done(body) => panic!("done: {body}"),
        WsStep::Running(_) => panic!("still running"),
    }
}

fn text(body: &str) -> WsEvent {
    WsEvent::Frame(WsFrame::Text(body.into()))
}

#[test]
fn session_rejects_blank_sql() {
    let error = WsSession::start(&TaosConfig::default(), "   ")
        .err()
        .expect("空 SQL 必须拒绝");
    assert!(matches!(error, TaosError::Invalid(_)), "{error:?}");
    assert!(error.to_string().contains("SQL"), "{error:?}");
}

#[test]
fn session_opens_then_asks_then_ends() {
    let opening = session();
    assert_eq!(opening.url(), "ws://127.0.0.1:6041/rest/ws");
    let conn: serde_json::Value = serde_json::from_str(&opening.payload()).expect("json");
    assert_eq!(conn["action"], "conn");
    assert_eq!(conn["args"]["user"], "root");
    assert_eq!(conn["args"]["password"], "top-secret");

    let asking = running(opening.event(text(r#"{"code":0,"action":"conn"}"#)));
    let query: serde_json::Value = serde_json::from_str(&asking.payload()).expect("json");
    assert_eq!(query["action"], "query");
    assert_eq!(query["args"]["sql"], "SELECT 1");

    match asking.event(text(r#"{"code":0,"action":"query","id":1}"#)) {
        WsStep::Done(body) => assert_eq!(body, r#"{"code":0,"action":"query","id":1}"#),
        WsStep::Failed(error) => panic!("{error:?}"),
        WsStep::Running(_) => panic!("still running"),
    }
}

#[test]
fn session_fails_on_anything_but_code_zero() {
    for body in [
        r#"{"code":1,"message":"top-secret"}"#,
        "not json",
        r#"{"action":"conn"}"#,
        r#"{"code":"0"}"#,
    ] {
        let error = failed(session().event(text(body)));
        assert!(matches!(error, TaosError::Unavailable(_)), "{error:?}");
        assert!(!error.to_string().contains("top-secret"), "{error:?}");
        let asking = running(session().event(text(r#"{"code":0}"#)));
        let error = failed(asking.event(text(body)));
        assert!(matches!(error, TaosError::Unavailable(_)), "{error:?}");
    }
}

#[test]
fn session_fails_on_what_goes_wrong_between() {
    for (event, late) in [
        (WsEvent::ConnectFailed("refused".into()), false),
        (WsEvent::SendFailed("broken".into()), false),
        (WsEvent::ReadFailed("reset".into()), false),
        (WsEvent::Ended, false),
        (WsEvent::TimedOut, true),
        (WsEvent::Frame(WsFrame::Ping), false),
        (WsEvent::Frame(WsFrame::Close), false),
    ] {
        let error = failed(session().event(event));
        assert_eq!(matches!(error, TaosError::Timeout(_)), late, "{error:?}");
        assert!(error.is_retryable(), "{error:?}");
        assert!(!error.to_string().contains("top-secret"), "{error:?}");
    }
}

#[test]
fn payloads_escape_what_they_carry() {
    let value: serde_json::Value =
        serde_json::from_str(&query_payload("SELECT \"a\\b\"\n")).expect("json");
    assert_eq!(value["args"]["sql"], "SELECT \"a\\b\"\n");
    let value: serde_json::Value =
        serde_json::from_str(&conn_payload("u\"x", "p'\\")).expect("json");
    assert_eq!(value["args"]["user"], "u\"x");
    assert_eq!(value["args"]["password"], "p'\\");
}

#[test]
fn session_that_takes_too_long_names_its_url() {
    let config = taosx::TaosConfig::default();
    let session = taosx::native::WsSession::start(&config, "SELECT 1").ok().expect("session");
    let error = taosx::native::session_timed_out(session.url());
    assert_eq!(
        error.to_string(),
        "操作超时: ws sql 超时: ws://127.0.0.1:6041/rest/ws"
    );
    match session.event(taosx::native::WsEvent::TimedOut) {
        taosx::native::WsStep::Failed(same) => assert_eq!(same.to_string(), error.to_string()),
        _ => panic!("the session is over"),
    }
}
