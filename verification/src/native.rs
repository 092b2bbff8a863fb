//! The WebSocket transport (`/rest/ws`): handshakes and short sessions.
//!
//! A session has two steps: `conn` with the credentials, and `query` with the SQL. Only a reply
//! with the integer code `0` is a success; anything else, and anything that is not such a reply,
//! ends the session with an error. What the server says beside its code enters no message, nor do
//! the credentials.
//!
//! The reply to `query` describes the result's columns. The rows themselves would have to be
//! fetched after it, which is not done here.

use vstd::prelude::*;

#[allow(unused_imports)]
use crate::config::ConfigView;
use crate::config::{TaosConfig, TransportMode};
#[allow(unused_imports)]
use crate::error::ErrorView;
use crate::error::{TaosError, TaosResult};
use crate::json;
#[allow(unused_imports)]
use crate::json::Json;
use crate::json::JsonKind;
use crate::number;
use crate::text;

verus! {

/// The URL of the WebSocket service.
#[must_use]
pub fn build_native_ws_url(config: &TaosConfig) -> (r: String)
    ensures
        r@ == config@.ws_url(),
{
    config.native_ws_url()
}

/// Checks the configuration and that its transport mode is a known one.
pub fn validate_mode(config: &TaosConfig) -> (r: TaosResult<()>)
    ensures
        match r {
            Ok(_) => config@.fault() is None,
            Err(TaosError::Config(m)) => config@.fault() == Some(m@),
            Err(_) => false,
        },
{
    match config.validate() {
        Ok(_) => {},
        Err(e) => {
            return Err(e);
        },
    }
    match config.transport {
        TransportMode::Rest => Ok(()),
        TransportMode::NativeWs => Ok(()),
    }
}

/// The most bytes of a frame and of a message: those of a response.
#[must_use]
pub fn ws_limit(config: &TaosConfig) -> (r: usize)
    ensures
        r == config@.max_response_bytes,
{
    config.max_response_bytes
}

fn unavailable(words: &str, reason: &str) -> (r: TaosError)
    ensures
        r@ == ErrorView::Unavailable(words@ + reason@),
{
    let mut m = String::from(words);
    text::push_text(&mut m, reason);
    TaosError::Unavailable(m)
}

fn timed_out(words: &str, what: &str) -> (r: TaosError)
    ensures
        r@ == ErrorView::Timeout(words@ + what@),
{
    let mut m = String::from(words);
    text::push_text(&mut m, what);
    TaosError::Timeout(m)
}

// ---------------------------------------------------------------------------
// Handshake
// ---------------------------------------------------------------------------

/// How an attempt at a handshake ended.
pub enum Handshake {
    /// The connection was made and closed again.
    Closed,
    /// The connection was not made.
    ConnectFailed(String),
    /// The connection was made and could not be closed.
    CloseFailed(String),
    /// It took too long.
    TimedOut,
}

/// Why a handshake is not even attempted; `None` where it is.
pub open spec fn handshake_refusal(config: ConfigView) -> Option<ErrorView> {
    match config.fault() {
        Some(m) => Some(ErrorView::Config(m)),
        None => if config.transport != TransportMode::NativeWs {
            Some(ErrorView::Config("connect_native_ws 要求 TransportMode::NativeWs"@))
        } else {
            None
        },
    }
}

/// What an attempt at a handshake comes to.
pub open spec fn handshake_error(url: Seq<char>, end: Handshake) -> Option<ErrorView> {
    match end {
        Handshake::Closed => None,
        Handshake::ConnectFailed(reason) => Some(
            ErrorView::Unavailable("ws 握手失败: "@ + reason@),
        ),
        Handshake::CloseFailed(reason) => Some(
            ErrorView::Unavailable("ws 关闭失败: "@ + reason@),
        ),
        Handshake::TimedOut => Some(ErrorView::Timeout("native ws 连接超时: "@ + url)),
    }
}

/// Starts a handshake: the URL to connect to.
pub fn handshake_start(config: &TaosConfig) -> (r: TaosResult<String>)
    ensures
        match r {
            Ok(url) => handshake_refusal(config@) is None && url@ == config@.ws_url(),
            Err(e) => handshake_refusal(config@) == Some(e@),
        },
{
    match validate_mode(config) {
        Ok(_) => {},
        Err(e) => {
            return Err(e);
        },
    }
    if config.transport != TransportMode::NativeWs {
        return Err(
            TaosError::Config(String::from("connect_native_ws 要求 TransportMode::NativeWs")),
        );
    }
    Ok(build_native_ws_url(config))
}

/// What the attempt at a handshake comes to.
pub fn handshake_outcome(url: &str, end: Handshake) -> (r: TaosResult<()>)
    ensures
        match r {
            Ok(_) => handshake_error(url@, end) is None,
            Err(e) => handshake_error(url@, end) == Some(e@),
        },
{
    match end {
        Handshake::Closed => Ok(()),
        Handshake::ConnectFailed(reason) => Err(unavailable("ws 握手失败: ", reason.as_str())),
        Handshake::CloseFailed(reason) => Err(unavailable("ws 关闭失败: ", reason.as_str())),
        Handshake::TimedOut => Err(timed_out("native ws 连接超时: ", url)),
    }
}

// ---------------------------------------------------------------------------
// Frames
// ---------------------------------------------------------------------------

/// A frame that was received.
#[derive(Debug)]
pub enum WsFrame {
    /// Text.
    Text(String),
    /// Bytes.
    Binary(Vec<u8>),
    /// A ping.
    Ping,
    /// The answer to a ping.
    Pong,
    /// The end of the connection.
    Close,
    /// A raw frame.
    Frame,
}

impl WsFrame {
    /// What kind of frame it is.
    pub open spec fn kind(self) -> Seq<char> {
        match self {
            WsFrame::Text(_) => "Text"@,
            WsFrame::Binary(_) => "Binary"@,
            WsFrame::Ping => "Ping"@,
            WsFrame::Pong => "Pong"@,
            WsFrame::Close => "Close"@,
            WsFrame::Frame => "Frame"@,
        }
    }

    /// The text of a frame with data; an error for any other.
    pub open spec fn payload(self) -> Result<Seq<char>, ErrorView> {
        match self {
            WsFrame::Text(s) => Ok(s@),
            WsFrame::Binary(bytes) => Ok(lossy_text(bytes@)),
            other => Err(
                ErrorView::Unavailable(
                    "ws 响应帧类型非法（期望 Text/Binary），实际为 "@ + other.kind(),
                ),
            ),
        }
    }
}

/// What [`String::from_utf8_lossy`] makes of bytes.
pub uninterp spec fn lossy_text(bytes: Seq<u8>) -> Seq<char>;

/// [`String::from_utf8_lossy`]: the text that the bytes encode, where they encode one.
#[verifier::external_body]
pub(crate) fn text_from_utf8_lossy(bytes: &Vec<u8>) -> (r: String)
    ensures
        r@ == lossy_text(bytes@),
        vstd::utf8::valid_utf8(bytes@) ==> r@ == vstd::utf8::decode_utf8(bytes@),
{
    String::from_utf8_lossy(bytes).into_owned()
}

/// What kind of frame it is, for messages; what it holds is not told.
#[must_use]
pub fn frame_kind(frame: &WsFrame) -> (r: &'static str)
    ensures
        r@ == frame.kind(),
{
    match frame {
        WsFrame::Text(_) => "Text",
        WsFrame::Binary(_) => "Binary",
        WsFrame::Ping => "Ping",
        WsFrame::Pong => "Pong",
        WsFrame::Close => "Close",
        WsFrame::Frame => "Frame",
    }
}

/// The text of a frame with data. Any other frame is an error.
pub fn frame_payload(frame: WsFrame) -> (r: TaosResult<String>)
    ensures
        match r {
            Ok(s) => frame.payload() == Ok::<Seq<char>, ErrorView>(s@),
            Err(e) => frame.payload() == Err::<Seq<char>, ErrorView>(e@),
        },
{
    match frame {
        WsFrame::Text(s) => Ok(s),
        WsFrame::Binary(bytes) => Ok(text_from_utf8_lossy(&bytes)),
        other => Err(
            unavailable("ws 响应帧类型非法（期望 Text/Binary），实际为 ", frame_kind(&other)),
        ),
    }
}

// ---------------------------------------------------------------------------
// Codes
// ---------------------------------------------------------------------------

/// The name of a kind of JSON value.
pub open spec fn kind_name(kind: JsonKind) -> Seq<char> {
    match kind {
        JsonKind::Null => "null"@,
        JsonKind::Bool => "布尔"@,
        JsonKind::Number => "数字"@,
        JsonKind::Text => "字符串"@,
        JsonKind::Array => "数组"@,
        JsonKind::Object => "对象"@,
    }
}

/// The code in a JSON value: the member `code` of an object, an integer within `i32`.
pub open spec fn code_in(value: Json) -> Result<i32, ErrorView> {
    let missing = Err(ErrorView::Unavailable("ws 响应缺少 code 字段"@));
    match value {
        Json::Object(members) => if members.dom().contains("code"@) {
            let code = members["code"@];
            let whole = match code {
                Json::Number(_, n) => n,
                _ => None,
            };
            if whole is Some && i32::MIN <= whole->0 <= i32::MAX {
                Ok(whole->0 as i32)
            } else {
                Err(
                    ErrorView::Unavailable(
                        "ws 响应的 code 字段不是整数（实际类型为 "@ + kind_name(code.kind())
                            + "）"@,
                    ),
                )
            }
        } else {
            missing
        },
        _ => missing,
    }
}

/// The code in a text that was read as JSON.
pub open spec fn status_code(parsed: Result<Json, Seq<char>>) -> Result<i32, ErrorView> {
    match parsed {
        Ok(value) => code_in(value),
        Err(words) => Err(ErrorView::Unavailable("ws 响应不是合法 JSON: "@ + words)),
    }
}

/// Why a code ends a step; `None` for the code of success.
pub open spec fn code_error(code: Result<i32, ErrorView>, step: Seq<char>) -> Option<ErrorView> {
    match code {
        Ok(c) => if c == 0 {
            None
        } else {
            Some(
                ErrorView::Unavailable(
                    "ws "@ + step + " 被服务端拒绝: code="@ + number::decimal(c as int),
                ),
            )
        },
        Err(e) => Some(e),
    }
}

/// The name of the kind of a JSON value, for messages; what it holds is not told.
#[must_use]
pub fn json_type_name(value: &serde_json::Value) -> (r: &'static str)
    ensures
        r@ == kind_name(json::json_of(*value).kind()),
{
    match json::kind_of(value) {
        JsonKind::Null => "null",
        JsonKind::Bool => "布尔",
        JsonKind::Number => "数字",
        JsonKind::Text => "字符串",
        JsonKind::Array => "数组",
        JsonKind::Object => "对象",
    }
}

/// The code in a JSON value. A code that is missing or no integer is an error, not a success.
pub fn code_of_value(value: &serde_json::Value) -> (r: TaosResult<i32>)
    ensures
        match r {
            Ok(code) => code_in(json::json_of(*value)) == Ok::<i32, ErrorView>(code),
            Err(e) => code_in(json::json_of(*value)) == Err::<i32, ErrorView>(e@),
        },
{
    let code = match json::member(value, "code") {
        Some(code) => code,
        None => {
            return Err(TaosError::Unavailable(String::from("ws 响应缺少 code 字段")));
        },
    };
    match json::integer_of(code) {
        Some(n) => {
            if -0x8000_0000i64 <= n && n <= 0x7fff_ffffi64 {
                return Ok(n as i32);
            }
        },
        None => {},
    }
    let mut m = String::from("ws 响应的 code 字段不是整数（实际类型为 ");
    text::push_text(&mut m, json_type_name(code));
    text::push_text(&mut m, "）");
    Err(TaosError::Unavailable(m))
}

/// The code in a reply. Only an object with an integer member `code` has one.
pub fn parse_status_code(payload: &str) -> (r: TaosResult<i32>)
    ensures
        match r {
            Ok(code) => status_code(json::json_parse(payload@)) == Ok::<i32, ErrorView>(code),
            Err(e) => status_code(json::json_parse(payload@)) == Err::<i32, ErrorView>(e@),
        },
{
    match json::parse_json(payload) {
        Ok(value) => code_of_value(&value),
        Err(error) => Err(
            unavailable("ws 响应不是合法 JSON: ", json::text_of_json_fault(&error).as_str()),
        ),
    }
}

/// Accepts a reply only where its code is `0`. The server's words enter no message.
pub fn ensure_code_zero(payload: &str, stage: &str) -> (r: TaosResult<()>)
    ensures
        match r {
            Ok(_) => code_error(status_code(json::json_parse(payload@)), stage@) is None,
            Err(e) => code_error(status_code(json::json_parse(payload@)), stage@) == Some(e@),
        },
{
    let code: i32 = match parse_status_code(payload) {
        Ok(code) => code,
        Err(e) => {
            return Err(e);
        },
    };
    if code == 0 {
        return Ok(());
    }
    let mut m = String::from("ws ");
    text::push_text(&mut m, stage);
    text::push_text(&mut m, " 被服务端拒绝: code=");
    text::push_text(&mut m, number::decimal_i64(code as i64).as_str());
    Err(TaosError::Unavailable(m))
}

// ---------------------------------------------------------------------------
// The session
// ---------------------------------------------------------------------------

/// A request: an action and its arguments.
pub open spec fn action(name: Seq<char>, args: Map<Seq<char>, Json>) -> Json {
    Json::Object(
        Map::<Seq<char>, Json>::empty().insert("action"@, Json::Text(name)).insert(
            "args"@,
            Json::Object(args),
        ),
    )
}

/// The request that opens a session.
pub open spec fn conn_request(user: Seq<char>, password: Seq<char>) -> Json {
    action(
        "conn"@,
        Map::<Seq<char>, Json>::empty().insert("user"@, Json::Text(user)).insert(
            "password"@,
            Json::Text(password),
        ),
    )
}

/// The request that sends SQL.
pub open spec fn query_request(sql: Seq<char>) -> Json {
    action("query"@, Map::<Seq<char>, Json>::empty().insert("sql"@, Json::Text(sql)))
}

fn action_text(name: &str, args: Vec<(String, serde_json::Value)>) -> (r: String)
    requires
        json::distinct_keys(args@),
    ensures
        r@ == json::json_text(action(name@, json::members(args@))),
{
    let mut entries: Vec<(String, serde_json::Value)> = Vec::new();
    let first = (String::from("action"), json::json_string(name));
    let second = (String::from("args"), json::json_object(args));
    let ghost a = first;
    let ghost b = second;
    entries.push(first);
    entries.push(second);
    proof {
        reveal_strlit("action");
        reveal_strlit("args");
        assert(a.0@.len() != b.0@.len());
        assert(entries@.drop_last() =~= seq![a]);
        assert(seq![a].drop_last() =~= Seq::<(String, serde_json::Value)>::empty());
        reveal_with_fuel(json::members, 3);
    }
    json::write_json(&json::json_object(entries))
}

/// The request that opens a session.
#[must_use]
pub fn conn_payload(user: &str, password: &str) -> (r: String)
    ensures
        r@ == json::json_text(conn_request(user@, password@)),
{
    let mut args: Vec<(String, serde_json::Value)> = Vec::new();
    let first = (String::from("user"), json::json_string(user));
    let second = (String::from("password"), json::json_string(password));
    let ghost a = first;
    let ghost b = second;
    args.push(first);
    args.push(second);
    proof {
        reveal_strlit("user");
        reveal_strlit("password");
        assert(a.0@.len() != b.0@.len());
        assert(args@.drop_last() =~= seq![a]);
        assert(seq![a].drop_last() =~= Seq::<(String, serde_json::Value)>::empty());
        reveal_with_fuel(json::members, 3);
    }
    action_text("conn", args)
}

/// The request that sends SQL.
#[must_use]
pub fn query_payload(sql: &str) -> (r: String)
    ensures
        r@ == json::json_text(query_request(sql@)),
{
    let mut args: Vec<(String, serde_json::Value)> = Vec::new();
    args.push((String::from("sql"), json::json_string(sql)));
    proof {
        assert(args@.drop_last() =~= Seq::<(String, serde_json::Value)>::empty());
        reveal_with_fuel(json::members, 2);
    }
    action_text("query", args)
}

/// The step that a session is at.
#[derive(Debug, Clone, Copy, PartialEq, Eq, Structural)]
pub enum WsStage {
    /// The session is opened.
    Conn,
    /// The SQL is sent.
    Query,
}

/// What happened to a session.
pub enum WsEvent {
    /// The connection was not made.
    ConnectFailed(String),
    /// The request was not sent.
    SendFailed(String),
    /// A frame came.
    Frame(WsFrame),
    /// The next frame could not be read.
    ReadFailed(String),
    /// The connection ended before a frame came.
    Ended,
    /// It took too long.
    TimedOut,
}

/// A session on its way.
pub struct WsSession {
    url: String,
    conn: String,
    query: String,
    stage: WsStage,
}

/// A [`WsSession`] with texts as sequences of characters.
#[verifier::ext_equal]
pub struct WsView {
    pub url: Seq<char>,
    /// The request that opens the session.
    pub conn: Seq<char>,
    /// The request that sends the SQL.
    pub query: Seq<char>,
    pub stage: WsStage,
}

impl View for WsSession {
    type V = WsView;

    closed spec fn view(&self) -> WsView {
        WsView { url: self.url@, conn: self.conn@, query: self.query@, stage: self.stage }
    }
}

/// What an event comes to.
pub enum WsStep {
    /// There is more to send.
    Running(WsSession),
    /// The reply to the SQL.
    Done(String),
    /// The session failed.
    Failed(TaosError),
}

/// A [`WsStep`] by its values.
#[verifier::ext_equal]
pub enum WsStepView {
    Running(WsView),
    Done(Seq<char>),
    Failed(ErrorView),
}

impl View for WsStep {
    type V = WsStepView;

    open spec fn view(&self) -> WsStepView {
        match self {
            WsStep::Running(session) => WsStepView::Running(session@),
            WsStep::Done(s) => WsStepView::Done(s@),
            WsStep::Failed(e) => WsStepView::Failed(e@),
        }
    }
}

impl WsStage {
    /// The name of the step.
    pub open spec fn name(self) -> Seq<char> {
        match self {
            WsStage::Conn => "conn"@,
            WsStage::Query => "query"@,
        }
    }
}

impl WsView {
    /// What to send next.
    pub open spec fn payload(self) -> Seq<char> {
        match self.stage {
            WsStage::Conn => self.conn,
            WsStage::Query => self.query,
        }
    }

    /// What a reply with this text and this code comes to.
    pub open spec fn after_reply(self, text: Seq<char>, code: Result<i32, ErrorView>) -> WsStepView {
        match code_error(code, self.stage.name()) {
            Some(e) => WsStepView::Failed(e),
            None => match self.stage {
                WsStage::Conn => WsStepView::Running(WsView { stage: WsStage::Query, ..self }),
                WsStage::Query => WsStepView::Done(text),
            },
        }
    }

    /// What an event comes to.
    pub open spec fn after(self, event: WsEvent) -> WsStepView {
        match event {
            WsEvent::ConnectFailed(reason) => WsStepView::Failed(
                ErrorView::Unavailable("ws 连接失败: "@ + reason@),
            ),
            WsEvent::SendFailed(reason) => WsStepView::Failed(
                ErrorView::Unavailable("ws 发送 "@ + self.stage.name() + " 失败: "@ + reason@),
            ),
            WsEvent::ReadFailed(reason) => WsStepView::Failed(
                ErrorView::Unavailable("ws 读失败: "@ + reason@),
            ),
            WsEvent::Ended => WsStepView::Failed(
                ErrorView::Unavailable("ws 响应流已结束：服务端未返回帧"@),
            ),
            WsEvent::TimedOut => WsStepView::Failed(
                ErrorView::Timeout("ws sql 超时: "@ + self.url),
            ),
            WsEvent::Frame(frame) => match frame.payload() {
                Err(e) => WsStepView::Failed(e),
                Ok(text) => self.after_reply(text, status_code(json::json_parse(text))),
            },
        }
    }
}

/// Why a session is not even started; `None` where it is.
pub open spec fn session_refusal(config: ConfigView, sql: Seq<char>) -> Option<ErrorView> {
    match config.fault() {
        Some(m) => Some(ErrorView::Config(m)),
        None => if text::trimmed(sql).len() == 0 {
            Some(ErrorView::Invalid("exec_sql_ws: 空 SQL"@))
        } else {
            None
        },
    }
}

/// The error of a session that took too long, at whatever stage it was.
pub fn session_timed_out(url: &str) -> (r: TaosError)
    ensures
        r@ == ErrorView::Timeout("ws sql 超时: "@ + url@),
{
    timed_out("ws sql 超时: ", url)
}

impl WsSession {
    /// Starts a session that sends the SQL with the credentials of the configuration.
    pub fn start(config: &TaosConfig, sql: &str) -> (r: TaosResult<WsSession>)
        ensures
            match r {
                Ok(session) => session_refusal(config@, sql@) is None && session@ == (WsView {
                    url: config@.ws_url(),
                    conn: json::json_text(conn_request(config@.user, config@.password)),
                    query: json::json_text(query_request(sql@)),
                    stage: WsStage::Conn,
                }),
                Err(e) => session_refusal(config@, sql@) == Some(e@),
            },
    {
        match config.validate() {
            Ok(_) => {},
            Err(e) => {
                return Err(e);
            },
        }
        if text::trim(sql).as_str().is_empty() {
            return Err(TaosError::Invalid(String::from("exec_sql_ws: 空 SQL")));
        }
        Ok(
            WsSession {
                url: build_native_ws_url(config),
                conn: conn_payload(config.user.as_str(), config.password.as_str()),
                query: query_payload(sql),
                stage: WsStage::Conn,
            },
        )
    }

    /// The URL to connect to.
    #[must_use]
    pub fn url(&self) -> (r: &str)
        ensures
            r@ == self@.url,
    {
        self.url.as_str()
    }

    /// What to send next.
    #[must_use]
    pub fn payload(&self) -> (r: String)
        ensures
            r@ == self@.payload(),
    {
        match self.stage {
            WsStage::Conn => self.conn.clone(),
            WsStage::Query => self.query.clone(),
        }
    }

    fn stage_name(&self) -> (r: &'static str)
        ensures
            r@ == self@.stage.name(),
    {
        match self.stage {
            WsStage::Conn => "conn",
            WsStage::Query => "query",
        }
    }

    fn reply(self, payload: String) -> (r: WsStep)
        ensures
            r@ == self@.after_reply(payload@, status_code(json::json_parse(payload@))),
    {
        match ensure_code_zero(payload.as_str(), self.stage_name()) {
            Ok(_) => match self.stage {
                WsStage::Conn => {
                    let mut session = self;
                    session.stage = WsStage::Query;
                    WsStep::Running(session)
                },
                WsStage::Query => WsStep::Done(payload),
            },
            Err(e) => WsStep::Failed(e),
        }
    }

    /// Takes what happened to the session.
    pub fn event(self, event: WsEvent) -> (r: WsStep)
        ensures
            r@ == self@.after(event),
    {
        match event {
            WsEvent::ConnectFailed(reason) => WsStep::Failed(
                unavailable("ws 连接失败: ", reason.as_str()),
            ),
            WsEvent::SendFailed(reason) => {
                let mut m = String::from("ws 发送 ");
                text::push_text(&mut m, self.stage_name());
                text::push_text(&mut m, " 失败: ");
                text::push_text(&mut m, reason.as_str());
                WsStep::Failed(TaosError::Unavailable(m))
            },
            WsEvent::ReadFailed(reason) => WsStep::Failed(
                unavailable("ws 读失败: ", reason.as_str()),
            ),
            WsEvent::Ended => WsStep::Failed(
                TaosError::Unavailable(String::from("ws 响应流已结束：服务端未返回帧")),
            ),
            WsEvent::TimedOut => WsStep::Failed(session_timed_out(self.url.as_str())),
            WsEvent::Frame(frame) => match frame_payload(frame) {
                Ok(payload) => self.reply(payload),
                Err(e) => WsStep::Failed(e),
            },
        }
    }
}

// ---------------------------------------------------------------------------
// The port of the native protocol
// ---------------------------------------------------------------------------

/// How an attempt at a connection to a port ended.
pub enum PortProbe {
    /// The connection was made.
    Connected,
    /// The connection was not made.
    Failed(String),
    /// It took too long.
    TimedOut,
}

/// What an attempt at a connection to a port comes to.
pub open spec fn port_error(address: Seq<char>, end: PortProbe) -> Option<ErrorView> {
    match end {
        PortProbe::Connected => None,
        PortProbe::Failed(reason) => Some(
            ErrorView::Unavailable("native tcp 连接失败: "@ + reason@),
        ),
        PortProbe::TimedOut => Some(ErrorView::Timeout("native tcp 超时: "@ + address)),
    }
}

/// Why a port is not even tried; `None` where it is.
pub open spec fn port_refusal(config: ConfigView, port: u16) -> Option<ErrorView> {
    match config.fault() {
        Some(m) => Some(ErrorView::Config(m)),
        None => if port == 0 {
            Some(ErrorView::Invalid("native_port 非法"@))
        } else {
            None
        },
    }
}

/// Starts the attempt at a connection: the address to connect to.
pub fn probe_start(config: &TaosConfig, native_port: u16) -> (r: TaosResult<String>)
    ensures
        match r {
            Ok(address) => port_refusal(config@, native_port) is None && address@ == config@.host
                + ":"@ + number::decimal(native_port as int),
            Err(e) => port_refusal(config@, native_port) == Some(e@),
        },
{
    match config.validate() {
        Ok(_) => {},
        Err(e) => {
            return Err(e);
        },
    }
    if native_port == 0 {
        return Err(TaosError::Invalid(String::from("native_port 非法")));
    }
    let mut address = String::from(config.host.as_str());
    text::push_text(&mut address, ":");
    text::push_text(&mut address, number::decimal_u64(native_port as u64).as_str());
    Ok(address)
}

/// What the attempt at a connection comes to.
pub fn probe_outcome(address: &str, end: PortProbe) -> (r: TaosResult<()>)
    ensures
        match r {
            Ok(_) => port_error(address@, end) is None,
            Err(e) => port_error(address@, end) == Some(e@),
        },
{
    match end {
        PortProbe::Connected => Ok(()),
        PortProbe::Failed(reason) => Err(unavailable("native tcp 连接失败: ", reason.as_str())),
        PortProbe::TimedOut => Err(timed_out("native tcp 超时: ", address)),
    }
}

// ---------------------------------------------------------------------------
// Laws
// ---------------------------------------------------------------------------

/// A session goes on or succeeds only after a frame with data whose JSON is an object with the
/// integer code `0`. Any other event ends it with an error.
pub proof fn law_only_code_zero_goes_on(session: WsView, event: WsEvent)
    ensures
        !(session.after(event) is Failed) ==> {
            &&& event is Frame
            &&& event->Frame_0.payload() is Ok
            &&& status_code(json::json_parse(event->Frame_0.payload()->Ok_0)) == Ok::<
                i32,
                ErrorView,
            >(0)
        },
{
}

/// The SQL is sent only after the session was opened, and the result of the session is the reply
/// to the SQL.
pub proof fn law_query_follows_conn(session: WsView, event: WsEvent)
    ensures
        session.after(event) is Running ==> session.stage == WsStage::Conn && session.after(
            event,
        )->Running_0.payload() == session.query,
        session.after(event) is Done ==> session.stage == WsStage::Query
            && event->Frame_0.payload() == Ok::<Seq<char>, ErrorView>(session.after(event)->Done_0),
{
}

/// What a failed session says does not depend on what it sends: neither the credentials nor the
/// SQL can be read there.
pub proof fn law_failures_tell_no_secrets(a: WsView, b: WsView, event: WsEvent)
    requires
        a.stage == b.stage,
        a.url == b.url,
        a.after(event) is Failed,
    ensures
        b.after(event) == a.after(event),
{
}

/// What a refused session says does not depend on what the server says beside its code, or beside
/// why it has none.
pub proof fn law_refusals_tell_only_the_code(
    session: WsView,
    text_a: Seq<char>,
    text_b: Seq<char>,
    code: Result<i32, ErrorView>,
)
    requires
        session.after_reply(text_a, code) is Failed,
    ensures
        session.after_reply(text_b, code) == session.after_reply(text_a, code),
{
}

/// A session goes on after every frame with data that holds the code of success: what opens it is
/// followed by the query, and the query by its end, with the text of the frame as the result.
pub proof fn law_success_goes_on(session: WsView, frame: WsFrame)
    requires
        frame.payload() is Ok,
        ({
            let value = json::json_parse(frame.payload()->Ok_0);
            &&& value is Ok
            &&& value->Ok_0 is Object
            &&& (value->Ok_0->Object_0).dom().contains("code"@)
            &&& (value->Ok_0->Object_0)["code"@] is Number
            &&& (value->Ok_0->Object_0)["code"@]->Number_1 == Some(0i64)
        }),
    ensures
        session.stage == WsStage::Conn ==> session.after(WsEvent::Frame(frame))
            == WsStepView::Running(WsView { stage: WsStage::Query, ..session }),
        session.stage == WsStage::Query ==> session.after(WsEvent::Frame(frame))
            == WsStepView::Done(frame.payload()->Ok_0),
{
}

/// The code of a reply is the member `code` of an object, where it is an integer that `i32` can
/// hold; nothing else is one.
pub proof fn law_code_is_an_integer_member(value: Json, n: i32)
    ensures
        (code_in(value) == Ok::<i32, ErrorView>(n)) == (value matches Json::Object(members)
            && members.dom().contains("code"@) && members["code"@] is Number
            && members["code"@]->Number_1 == Some(n as i64)),
        code_in(value) matches Err(e) ==> e is Unavailable,
{
}

/// A code that is not that of success ends the step with an error that is worth a retry; two codes
/// never give the same message, and an error in place of a code is handed on.
pub proof fn law_codes_end_a_step(code: i32, other: i32, step: Seq<char>, e: ErrorView)
    ensures
        (code_error(Ok(code), step) is None) == (code == 0),
        code != 0 ==> code_error(Ok(code), step)->0 is Unavailable,
        code != 0 && code_error(Ok(code), step) == code_error(Ok(other), step) ==> code == other,
        code_error(Err(e), step) == Some(e),
{
    if code != 0 && code_error(Ok(code), step) == code_error(Ok(other), step) {
        let head = "ws "@ + step + " 被服务端拒绝: code="@;
        let none = Seq::<char>::empty();
        assert(head + number::decimal(code as int) + none =~= code_error(
            Ok(code),
            step,
        )->0.message());
        assert(head + number::decimal(other as int) + none =~= code_error(
            Ok(other),
            step,
        )->0.message());
        crate::error::lemma_middle_is_told(head, code as int, other as int, none);
    }
}

/// What a session sends: an object of two members, the action and its arguments. What opens it has
/// the user and the password as arguments and nothing else, and the query has the SQL.
pub proof fn law_requests_hold_their_arguments(
    user: Seq<char>,
    password: Seq<char>,
    sql: Seq<char>,
)
    ensures
        conn_request(user, password) is Object,
        query_request(sql) is Object,
        ({
            let conn = conn_request(user, password)->Object_0;
            let args = conn["args"@]->Object_0;
            &&& conn.dom() == set!["action"@, "args"@]
            &&& conn["action"@] == Json::Text("conn"@)
            &&& conn["args"@] is Object
            &&& args.dom() == set!["user"@, "password"@]
            &&& args["user"@] == Json::Text(user)
            &&& args["password"@] == Json::Text(password)
        }),
        ({
            let query = query_request(sql)->Object_0;
            let args = query["args"@]->Object_0;
            &&& query.dom() == set!["action"@, "args"@]
            &&& query["action"@] == Json::Text("query"@)
            &&& query["args"@] is Object
            &&& args.dom() == set!["sql"@]
            &&& args["sql"@] == Json::Text(sql)
        }),
{
    reveal_strlit("action");
    reveal_strlit("args");
    reveal_strlit("user");
    reveal_strlit("password");
    reveal_strlit("sql");
    assert("action"@.len() != "args"@.len());
    assert("user"@.len() != "password"@.len());
    let conn = conn_request(user, password)->Object_0;
    let query = query_request(sql)->Object_0;
    assert(conn.dom() =~= set!["action"@, "args"@]);
    assert(conn["args"@]->Object_0.dom() =~= set!["user"@, "password"@]);
    assert(query.dom() =~= set!["action"@, "args"@]);
    assert(query["args"@]->Object_0.dom() =~= set!["sql"@]);
}

/// A session that is cut off says how: one that took too long is a time-out and tells where it led,
/// any other failure is worth a retry too and tells the reason that was given.
pub proof fn law_cut_sessions_say_how(session: WsView, event: WsEvent)
    requires
        !(event is Frame),
    ensures
        match session.after(event) {
            WsStepView::Failed(e) => {
                &&& e is Timeout == event is TimedOut
                &&& e is Unavailable == !(event is TimedOut)
                &&& match event {
                    WsEvent::ConnectFailed(reason) => reason@.is_suffix_of(e.message()),
                    WsEvent::SendFailed(reason) => reason@.is_suffix_of(e.message()),
                    WsEvent::ReadFailed(reason) => reason@.is_suffix_of(e.message()),
                    WsEvent::TimedOut => session.url.is_suffix_of(e.message()),
                    _ => true,
                }
            },
            _ => false,
        },
{
    let m = session.after(event)->Failed_0.message();
    let end = match event {
        WsEvent::ConnectFailed(reason) => reason@,
        WsEvent::SendFailed(reason) => reason@,
        WsEvent::ReadFailed(reason) => reason@,
        WsEvent::TimedOut => session.url,
        _ => Seq::empty(),
    };
    assert(m.subrange(m.len() - end.len(), m.len() as int) =~= end);
}

/// A handshake succeeds exactly where its connection was closed again, and a port answers exactly
/// where it was connected to. What took too long is a time-out and tells where it led, any other
/// failure tells the reason that was given.
pub proof fn law_probes_say_how_they_ended(place: Seq<char>, end: Handshake, probe: PortProbe)
    ensures
        (handshake_error(place, end) is None) == (end is Closed),
        (port_error(place, probe) is None) == (probe is Connected),
        match end {
            Handshake::Closed => true,
            Handshake::ConnectFailed(reason) => handshake_error(place, end)->0 is Unavailable
                && reason@.is_suffix_of(handshake_error(place, end)->0.message()),
            Handshake::CloseFailed(reason) => handshake_error(place, end)->0 is Unavailable
                && reason@.is_suffix_of(handshake_error(place, end)->0.message()),
            Handshake::TimedOut => handshake_error(place, end)->0 is Timeout && place.is_suffix_of(
                handshake_error(place, end)->0.message(),
            ),
        },
        match probe {
            PortProbe::Connected => true,
            PortProbe::Failed(reason) => port_error(place, probe)->0 is Unavailable
                && reason@.is_suffix_of(port_error(place, probe)->0.message()),
            PortProbe::TimedOut => port_error(place, probe)->0 is Timeout && place.is_suffix_of(
                port_error(place, probe)->0.message(),
            ),
        },
{
    let m = match handshake_error(place, end) {
        Some(e) => e.message(),
        None => Seq::empty(),
    };
    let tail = match end {
        Handshake::Closed => Seq::empty(),
        Handshake::ConnectFailed(reason) => reason@,
        Handshake::CloseFailed(reason) => reason@,
        Handshake::TimedOut => place,
    };
    assert(m.subrange(m.len() - tail.len(), m.len() as int) =~= tail);
    let p = match port_error(place, probe) {
        Some(e) => e.message(),
        None => Seq::empty(),
    };
    let last = match probe {
        PortProbe::Connected => Seq::empty(),
        PortProbe::Failed(reason) => reason@,
        PortProbe::TimedOut => place,
    };
    assert(p.subrange(p.len() - last.len(), p.len() as int) =~= last);
}

/// What is not even attempted: anything with a configuration that does not pass, a handshake in
/// another transport mode, SQL that is blank, and a port of zero.
pub proof fn law_refused_before_the_network(config: ConfigView, sql: Seq<char>, port: u16)
    ensures
        (handshake_refusal(config) is None) == (config.fault() is None && config.transport
            == TransportMode::NativeWs),
        (session_refusal(config, sql) is None) == (config.fault() is None && text::trimmed(
            sql,
        ).len() > 0),
        (port_refusal(config, port) is None) == (config.fault() is None && port > 0),
        config.fault() matches Some(m) ==> handshake_refusal(config) == Some(ErrorView::Config(m))
            && session_refusal(config, sql) == Some(ErrorView::Config(m)) && port_refusal(
            config,
            port,
        ) == Some(ErrorView::Config(m)),
{
}

/// No two kinds of JSON values have the same name, and each value is of the kind that it looks like.
pub proof fn law_kinds_of_values(a: JsonKind, b: JsonKind, value: Json)
    ensures
        kind_name(a) == kind_name(b) ==> a == b,
        value is Null == (value.kind() == JsonKind::Null),
        value is Bool == (value.kind() == JsonKind::Bool),
        value is Number == (value.kind() == JsonKind::Number),
        value is Text == (value.kind() == JsonKind::Text),
        value is Array == (value.kind() == JsonKind::Array),
        value is Object == (value.kind() == JsonKind::Object),
{
    reveal_strlit("null");
    reveal_strlit("布尔");
    reveal_strlit("数字");
    reveal_strlit("字符串");
    reveal_strlit("数组");
    reveal_strlit("对象");
    assert(kind_name(a).len() > 0 && kind_name(b).len() > 0);
    if kind_name(a) == kind_name(b) {
        assert(kind_name(a)[0] == kind_name(b)[0] && kind_name(a)[1] == kind_name(b)[1]);
    }
}

/// A text frame is its text, a frame of bytes is the text that they encode, and any other frame is
/// an error that tells its kind; no two kinds have the same name.
pub proof fn law_frames_give_their_text(a: WsFrame, b: WsFrame)
    ensures
        a matches WsFrame::Text(s) ==> a.payload() == Ok::<Seq<char>, ErrorView>(s@),
        (a.payload() is Ok) == (a is Text || a is Binary),
        a.payload() matches Err(e) ==> e is Unavailable && a.kind().is_suffix_of(e.message()),
        a.kind() == b.kind() ==> a is Text == b is Text && a is Binary == b is Binary && a is Ping
            == b is Ping && a is Pong == b is Pong && a is Close == b is Close,
{
    reveal_strlit("Text");
    reveal_strlit("Binary");
    reveal_strlit("Ping");
    reveal_strlit("Pong");
    reveal_strlit("Close");
    reveal_strlit("Frame");
    if a.payload() is Err {
        let m = a.payload()->Err_0.message();
        assert(m.subrange(m.len() - a.kind().len(), m.len() as int) =~= a.kind());
    }
    if a.kind() == b.kind() {
        assert(a.kind()[0] == b.kind()[0] && a.kind()[1] == b.kind()[1]);
    }
}

} // verus!
