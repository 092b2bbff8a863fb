//! The error type and its mapping from TDengine codes and HTTP statuses.
//!
//! A refusal by the server is a [`TaosError::Backend`] that keeps the numeric code of the
//! response (`0` where there is none). A positive code is a refusal of the request, any other
//! an internal failure; neither is worth a retry. The one exception is the busy code `896`,
//! which becomes the retryable [`TaosError::Unavailable`].
//!
//! A message holds codes, statuses and the caller's context. SQL, response bodies and
//! credentials never enter one.

use vstd::prelude::*;

use crate::number;
use crate::text;

verus! {

/// The server is busy or timed out; worth a retry.
pub const TDCODE_BUSY: i32 = 896;

/// The table does not exist (`0x2603`).
pub const TDCODE_TABLE_NOT_EXIST: i32 = 0x2603;

/// The table does not exist, as older servers report it.
pub const TDCODE_TABLE_NOT_EXIST_LEGACY: i32 = 9826;

// ---------------------------------------------------------------------------
// std::io::Error
// ---------------------------------------------------------------------------

#[verifier::external_type_specification]
#[verifier::external_body]
pub struct ExIoError(std::io::Error);

#[verifier::external_type_specification]
#[verifier::external_body]
pub struct ExIoErrorKind(std::io::ErrorKind);

/// What [`std::io::Error::kind`] returns.
pub uninterp spec fn io_kind(error: std::io::Error) -> std::io::ErrorKind;

/// [`std::io::Error::kind`].
#[verifier::external_body]
pub(crate) fn kind_of_io(error: &std::io::Error) -> (r: std::io::ErrorKind)
    ensures
        r == io_kind(*error),
{
    error.kind()
}

/// `Display` of [`std::io::Error`]. Nothing is said of the text: the words of an error of the
/// operating system are the system's.
#[verifier::external_body]
pub(crate) fn text_of_io(error: &std::io::Error) -> (r: String) {
    error.to_string()
}

/// A failure of the network or the operating system, by its kind and its words.
#[derive(Debug)]
pub struct IoFault {
    /// The kind of the failure.
    pub kind: std::io::ErrorKind,
    /// What is said of it.
    pub message: String,
}

// ---------------------------------------------------------------------------
// The error type
// ---------------------------------------------------------------------------

/// What can go wrong.
#[derive(Debug)]
#[non_exhaustive]
pub enum TaosError {
    /// The configuration is not valid.
    Config(String),
    /// The connection could not be made or was lost.
    Connection(String),
    /// The server refused; `code` is TDengine's error code (`0`: none available).
    Backend {
        /// The numeric error code of the response.
        code: i32,
        /// The explanation, without SQL and without the response body.
        message: String,
    },
    /// The server is temporarily unavailable; a retry may succeed.
    Unavailable(String),
    /// A value could not be serialised or parsed.
    Serialization(String),
    /// The network or the operating system failed.
    Io(IoFault),
    /// The operation took too long.
    Timeout(String),
    /// An argument is not valid.
    Invalid(String),
    /// The resource is closed.
    Closed(String),
    /// The operation is not supported.
    Unsupported(String),
}

/// The result type of this crate.
pub type TaosResult<T> = Result<T, TaosError>;

/// A [`TaosError`] with texts as sequences of characters.
#[verifier::ext_equal]
pub enum ErrorView {
    Config(Seq<char>),
    Connection(Seq<char>),
    Backend { code: i32, message: Seq<char> },
    Unavailable(Seq<char>),
    Serialization(Seq<char>),
    Io { kind: std::io::ErrorKind, message: Seq<char> },
    Timeout(Seq<char>),
    Invalid(Seq<char>),
    Closed(Seq<char>),
    Unsupported(Seq<char>),
}

impl View for TaosError {
    type V = ErrorView;

    open spec fn view(&self) -> ErrorView {
        match self {
            TaosError::Config(m) => ErrorView::Config(m@),
            TaosError::Connection(m) => ErrorView::Connection(m@),
            TaosError::Backend { code, message } => ErrorView::Backend {
                code: *code,
                message: message@,
            },
            TaosError::Unavailable(m) => ErrorView::Unavailable(m@),
            TaosError::Serialization(m) => ErrorView::Serialization(m@),
            TaosError::Io(e) => ErrorView::Io { kind: e.kind, message: e.message@ },
            TaosError::Timeout(m) => ErrorView::Timeout(m@),
            TaosError::Invalid(m) => ErrorView::Invalid(m@),
            TaosError::Closed(m) => ErrorView::Closed(m@),
            TaosError::Unsupported(m) => ErrorView::Unsupported(m@),
        }
    }
}

impl ErrorView {
    /// The message that the error carries.
    pub open spec fn message(self) -> Seq<char> {
        match self {
            ErrorView::Config(m) => m,
            ErrorView::Connection(m) => m,
            ErrorView::Backend { code, message } => message,
            ErrorView::Unavailable(m) => m,
            ErrorView::Serialization(m) => m,
            ErrorView::Io { kind, message } => message,
            ErrorView::Timeout(m) => m,
            ErrorView::Invalid(m) => m,
            ErrorView::Closed(m) => m,
            ErrorView::Unsupported(m) => m,
        }
    }

    /// The same error with another message.
    pub open spec fn with_message(self, text: Seq<char>) -> ErrorView {
        match self {
            ErrorView::Config(_) => ErrorView::Config(text),
            ErrorView::Connection(_) => ErrorView::Connection(text),
            ErrorView::Backend { code, message } => ErrorView::Backend { code, message: text },
            ErrorView::Unavailable(_) => ErrorView::Unavailable(text),
            ErrorView::Serialization(_) => ErrorView::Serialization(text),
            ErrorView::Io { kind, message } => ErrorView::Io { kind, message: text },
            ErrorView::Timeout(_) => ErrorView::Timeout(text),
            ErrorView::Invalid(_) => ErrorView::Invalid(text),
            ErrorView::Closed(_) => ErrorView::Closed(text),
            ErrorView::Unsupported(_) => ErrorView::Unsupported(text),
        }
    }

    /// The TDengine code that the error carries.
    pub open spec fn taos_code(self) -> Option<i32> {
        match self {
            ErrorView::Backend { code, message } => Some(code),
            _ => None,
        }
    }

    /// The error says that a table or database does not exist.
    pub open spec fn is_not_found(self) -> bool {
        ||| self.taos_code() == Some(TDCODE_TABLE_NOT_EXIST)
        ||| self.taos_code() == Some(TDCODE_TABLE_NOT_EXIST_LEGACY)
    }

    /// The failure is transient: the same request may succeed later.
    pub open spec fn is_retryable(self) -> bool {
        self is Connection || self is Unavailable || self is Timeout || self is Io
    }

    /// The words that a reader sees before the message.
    pub open spec fn prefix(self) -> Seq<char> {
        match self {
            ErrorView::Config(_) => "配置无效: "@,
            ErrorView::Connection(_) => "连接失败: "@,
            ErrorView::Backend { code, message } => "远端返回错误(code="@ + number::decimal(
                code as int,
            ) + "): "@,
            ErrorView::Unavailable(_) => "远端暂时不可用: "@,
            ErrorView::Serialization(_) => "序列化失败: "@,
            ErrorView::Io { kind, message } => "I/O 失败: "@,
            ErrorView::Timeout(_) => "操作超时: "@,
            ErrorView::Invalid(_) => "参数无效: "@,
            ErrorView::Closed(_) => "资源已关闭: "@,
            ErrorView::Unsupported(_) => "不支持的操作: "@,
        }
    }

    /// The error as a reader sees it.
    pub open spec fn display(self) -> Seq<char> {
        self.prefix() + self.message()
    }
}

/// `base`, followed by `: ` and the context where there is one.
pub open spec fn with_context(base: Seq<char>, context: Seq<char>) -> Seq<char> {
    if context.len() == 0 {
        base
    } else {
        base + ": "@ + context
    }
}

/// The error for a TDengine code.
pub open spec fn error_of_code(code: i32, context: Seq<char>) -> ErrorView {
    let message = with_context("taos code="@ + number::decimal(code as int), context);
    if code == TDCODE_BUSY {
        ErrorView::Unavailable(message)
    } else if code == TDCODE_TABLE_NOT_EXIST || code == TDCODE_TABLE_NOT_EXIST_LEGACY || code
        <= 0 {
        ErrorView::Backend { code, message }
    } else {
        ErrorView::Invalid(message)
    }
}

/// The error for an HTTP status.
pub open spec fn error_of_status(status: u16, context: Seq<char>) -> ErrorView {
    let message = with_context("taos HTTP "@ + number::decimal(status as int), context);
    if status == 408 {
        ErrorView::Timeout(message)
    } else if status == 429 || 500 <= status <= 599 {
        ErrorView::Unavailable(message)
    } else {
        ErrorView::Backend { code: 0, message }
    }
}

fn join_context(base: String, context: &str) -> (r: String)
    ensures
        r@ == with_context(base@, context@),
{
    if context.is_empty() {
        base
    } else {
        let mut out = base;
        text::push_text(&mut out, ": ");
        text::push_text(&mut out, context);
        out
    }
}

impl TaosError {
    /// A refusal by the server without a code.
    #[must_use]
    pub fn backend<S: Into<String>>(message: S) -> (r: Self)
        ensures
            r matches TaosError::Backend { code, message: m } && code == 0 && call_ensures(
                <S as Into<String>>::into,
                (message,),
                m,
            ),
    {
        TaosError::Backend { code: 0, message: message.into() }
    }

    /// The error for a TDengine code.
    ///
    /// | `code` | error | retryable |
    /// | --- | --- | --- |
    /// | `896` | [`TaosError::Unavailable`] | yes |
    /// | `0x2603`, `9826` | [`TaosError::Backend`], [`TaosError::is_not_found`] | no |
    /// | another positive code | [`TaosError::Invalid`] | no |
    /// | any other | [`TaosError::Backend`] | no |
    #[must_use]
    pub fn from_taos_code(code: i32, context: &str) -> (r: Self)
        ensures
            r@ == error_of_code(code, context@),
    {
        let mut base = String::from("taos code=");
        let digits = number::decimal_i64(code as i64);
        text::push_text(&mut base, digits.as_str());
        let message = join_context(base, context);
        if code == TDCODE_BUSY {
            TaosError::Unavailable(message)
        } else if code == TDCODE_TABLE_NOT_EXIST || code == TDCODE_TABLE_NOT_EXIST_LEGACY {
            TaosError::Backend { code, message }
        } else if code > 0 {
            TaosError::Invalid(message)
        } else {
            TaosError::Backend { code, message }
        }
    }

    /// The error for an HTTP status. The response body has no part in it.
    #[must_use]
    pub fn from_http_status(status: u16, context: &str) -> (r: Self)
        ensures
            r@ == error_of_status(status, context@),
    {
        let mut base = String::from("taos HTTP ");
        let digits = number::decimal_u64(status as u64);
        text::push_text(&mut base, digits.as_str());
        let message = join_context(base, context);
        if status == 408 {
            TaosError::Timeout(message)
        } else if status == 429 {
            TaosError::Unavailable(message)
        } else if 500 <= status && status <= 599 {
            TaosError::Unavailable(message)
        } else {
            TaosError::Backend { code: 0, message }
        }
    }

    /// The TDengine code, which only a [`TaosError::Backend`] carries.
    #[must_use]
    pub fn taos_code(&self) -> (r: Option<i32>)
        ensures
            r == self@.taos_code(),
    {
        match self {
            TaosError::Backend { code, .. } => Some(*code),
            _ => None,
        }
    }

    /// Whether the error says that a table or database does not exist.
    #[must_use]
    pub fn is_not_found(&self) -> (r: bool)
        ensures
            r == self@.is_not_found(),
    {
        match self.taos_code() {
            Some(code) => code == TDCODE_TABLE_NOT_EXIST || code == TDCODE_TABLE_NOT_EXIST_LEGACY,
            None => false,
        }
    }

    /// Whether the failure is transient: connection, unavailability, time-out and I/O.
    #[must_use]
    pub fn is_retryable(&self) -> (r: bool)
        ensures
            r == self@.is_retryable(),
    {
        match self {
            TaosError::Connection(_) => true,
            TaosError::Unavailable(_) => true,
            TaosError::Timeout(_) => true,
            TaosError::Io(_) => true,
            TaosError::Config(_) => false,
            TaosError::Backend { .. } => false,
            TaosError::Serialization(_) => false,
            TaosError::Invalid(_) => false,
            TaosError::Closed(_) => false,
            TaosError::Unsupported(_) => false,
        }
    }

    /// The same error with another message; its class, TDengine code and I/O kind stay.
    #[must_use]
    pub fn with_message<S: Into<String>>(self, message: S) -> (r: Self)
        ensures
            exists|m: String| #[trigger]
                call_ensures(<S as Into<String>>::into, (message,), m) && r@
                    == self@.with_message(m@),
    {
        let m: String = message.into();
        let ghost g = m;
        let r = match self {
            TaosError::Config(_) => TaosError::Config(m),
            TaosError::Connection(_) => TaosError::Connection(m),
            TaosError::Backend { code, .. } => TaosError::Backend { code, message: m },
            TaosError::Unavailable(_) => TaosError::Unavailable(m),
            TaosError::Serialization(_) => TaosError::Serialization(m),
            TaosError::Io(fault) => TaosError::Io(IoFault { kind: fault.kind, message: m }),
            TaosError::Timeout(_) => TaosError::Timeout(m),
            TaosError::Invalid(_) => TaosError::Invalid(m),
            TaosError::Closed(_) => TaosError::Closed(m),
            TaosError::Unsupported(_) => TaosError::Unsupported(m),
        };
        assert(call_ensures(<S as Into<String>>::into, (message,), g));
        r
    }

    /// The error as a reader sees it.
    #[must_use]
    pub fn to_string(&self) -> (r: String)
        ensures
            r@ == self@.display(),
    {
        match self {
            TaosError::Config(m) => prefixed("配置无效: ", m.as_str()),
            TaosError::Connection(m) => prefixed("连接失败: ", m.as_str()),
            TaosError::Backend { code, message } => {
                let mut out = String::from("远端返回错误(code=");
                let digits = number::decimal_i64(*code as i64);
                text::push_text(&mut out, digits.as_str());
                text::push_text(&mut out, "): ");
                text::push_text(&mut out, message.as_str());
                out
            },
            TaosError::Unavailable(m) => prefixed("远端暂时不可用: ", m.as_str()),
            TaosError::Serialization(m) => prefixed("序列化失败: ", m.as_str()),
            TaosError::Io(fault) => prefixed("I/O 失败: ", fault.message.as_str()),
            TaosError::Timeout(m) => prefixed("操作超时: ", m.as_str()),
            TaosError::Invalid(m) => prefixed("参数无效: ", m.as_str()),
            TaosError::Closed(m) => prefixed("资源已关闭: ", m.as_str()),
            TaosError::Unsupported(m) => prefixed("不支持的操作: ", m.as_str()),
        }
    }
}

fn prefixed(prefix: &str, message: &str) -> (r: String)
    ensures
        r@ == prefix@ + message@,
{
    let mut out = String::from(prefix);
    text::push_text(&mut out, message);
    out
}

impl From<std::io::Error> for TaosError {
    /// The kind is that of the error. The words are what the error displays as, of which nothing
    /// is said here.
    fn from(error: std::io::Error) -> (r: TaosError)
        ensures
            r matches TaosError::Io(fault) && fault.kind == io_kind(error),
    {
        TaosError::Io(IoFault { kind: kind_of_io(&error), message: text_of_io(&error) })
    }
}

impl vstd::std_specs::convert::FromSpecImpl<std::io::Error> for TaosError {
    open spec fn obeys_from_spec() -> bool {
        false
    }

    open spec fn from_spec(error: std::io::Error) -> TaosError {
        arbitrary()
    }
}

// ---------------------------------------------------------------------------
// Laws
// ---------------------------------------------------------------------------

/// Of all TDengine codes only the busy code gives a retryable error, and only the two codes for
/// a missing table give one that says "not found".
pub proof fn law_code_classes(code: i32, context: Seq<char>)
    ensures
        error_of_code(code, context).is_retryable() == (code == TDCODE_BUSY),
        error_of_code(code, context).is_not_found() == (code == TDCODE_TABLE_NOT_EXIST || code
            == TDCODE_TABLE_NOT_EXIST_LEGACY),
        error_of_code(code, context).taos_code() is Some ==> error_of_code(
            code,
            context,
        ).taos_code() == Some(code),
{
}

/// Of all HTTP statuses exactly 408, 429 and the 5xx ones give a retryable error, and none
/// gives a TDengine code other than `0`.
pub proof fn law_status_classes(status: u16, context: Seq<char>)
    ensures
        error_of_status(status, context).is_retryable() == (status == 408 || status == 429 || 500
            <= status <= 599),
        !error_of_status(status, context).is_not_found(),
{
}

/// Another message changes neither the class of an error nor its code nor whether it is worth a
/// retry.
pub proof fn law_with_message_keeps_class(error: ErrorView, text: Seq<char>)
    ensures
        error.with_message(text).message() == text,
        error.with_message(text).is_retryable() == error.is_retryable(),
        error.with_message(text).taos_code() == error.taos_code(),
        error.with_message(text).is_not_found() == error.is_not_found(),
        error.with_message(text).prefix() == error.prefix(),
        error.with_message(text).with_message(error.message()) == error,
{
}

/// No error that says "not found" is worth a retry.
pub proof fn law_not_found_is_permanent(error: ErrorView)
    requires
        error.is_not_found(),
    ensures
        !error.is_retryable(),
{
}

/// What is worth a retry: a connection that failed, a server that is not available, a time-out and
/// a failure of input or output; no other class is.
pub proof fn law_transient_classes(error: ErrorView)
    ensures
        match error {
            ErrorView::Connection(_) => error.is_retryable(),
            ErrorView::Unavailable(_) => error.is_retryable(),
            ErrorView::Timeout(_) => error.is_retryable(),
            ErrorView::Io { kind, message } => error.is_retryable(),
            ErrorView::Config(_) => !error.is_retryable(),
            ErrorView::Backend { code, message } => !error.is_retryable(),
            ErrorView::Serialization(_) => !error.is_retryable(),
            ErrorView::Invalid(_) => !error.is_retryable(),
            ErrorView::Closed(_) => !error.is_retryable(),
            ErrorView::Unsupported(_) => !error.is_retryable(),
        },
        error.is_not_found() == (error matches ErrorView::Backend { code, message } && (code
            == 0x2603 || code == 0x2662)),
{
}

/// The codes by their numbers: 0x380 is a busy server, 0x2603 and 0x2662 are missing tables, and
/// these two keep their code, as those that are not positive do. Every other code says that the
/// request is wrong.
pub proof fn law_codes_by_number(code: i32, context: Seq<char>)
    ensures
        error_of_code(code, context) is Unavailable == (code == 0x380),
        error_of_code(code, context).taos_code() == (if code <= 0 || code == 0x2603 || code == 0x2662 {
            Some(code)
        } else {
            None
        }),
        code > 0 && code != 0x380 && code != 0x2603 && code != 0x2662 ==> error_of_code(
            code,
            context,
        ) is Invalid,
{
}

/// The statuses by their numbers: 408 is a time-out, 429 and the 5xx ones are a server that is not
/// available, and every other one is an answer of the server with the code `0`.
pub proof fn law_statuses_by_number(status: u16, context: Seq<char>)
    ensures
        error_of_status(status, context) is Timeout == (status == 408),
        error_of_status(status, context) is Unavailable == (status == 429 || status / 100 == 5),
        status != 408 && status != 429 && status / 100 != 5 ==> error_of_status(
            status,
            context,
        ).taos_code() == Some(0i32),
{
}

/// A message tells the number that it came from and ends with the context: two codes never give the
/// same message, nor do two statuses, nor a code and a status.
pub proof fn law_messages_tell_their_number(
    code: i32,
    other_code: i32,
    status: u16,
    other_status: u16,
    context: Seq<char>,
)
    ensures
        error_of_code(code, context).message() == error_of_code(other_code, context).message()
            ==> code == other_code,
        error_of_status(status, context).message() == error_of_status(
            other_status,
            context,
        ).message() ==> status == other_status,
        error_of_code(code, context).message() != error_of_status(status, context).message(),
        context.is_suffix_of(error_of_code(code, context).message()),
        context.is_suffix_of(error_of_status(status, context).message()),
{
    reveal_strlit("taos code=");
    reveal_strlit("taos HTTP ");
    let of_code = "taos code="@;
    let of_status = "taos HTTP "@;
    let end = if context.len() == 0 {
        Seq::empty()
    } else {
        ": "@ + context
    };
    assert forall|base: Seq<char>| #[trigger] with_context(base, context) =~= base + end by {
        if context.len() > 0 {
            assert(base + ": "@ + context =~= base + (": "@ + context));
        }
    }
    let c = error_of_code(code, context).message();
    let s = error_of_status(status, context).message();
    assert(c =~= of_code + number::decimal(code as int) + end);
    assert(s =~= of_status + number::decimal(status as int) + end);
    assert(c[5] == 'c' && s[5] == 'H');
    assert(c.subrange(c.len() - context.len(), c.len() as int) =~= context);
    assert(s.subrange(s.len() - context.len(), s.len() as int) =~= context);
    if c == error_of_code(other_code, context).message() {
        lemma_middle_is_told(of_code, code as int, other_code as int, end);
    }
    if s == error_of_status(other_status, context).message() {
        lemma_middle_is_told(of_status, status as int, other_status as int, end);
    }
}

/// A number between the same two texts is told by the whole.
pub proof fn lemma_middle_is_told(head: Seq<char>, a: int, b: int, end: Seq<char>)
    requires
        i64::MIN < a <= i64::MAX,
        i64::MIN < b <= i64::MAX,
        head + number::decimal(a) + end == head + number::decimal(b) + end,
    ensures
        a == b,
{
    let whole = head + number::decimal(a) + end;
    let x = number::decimal(a);
    let y = number::decimal(b);
    assert(whole.len() == head.len() + x.len() + end.len());
    assert((head + y + end).len() == head.len() + y.len() + end.len());
    assert(x =~= whole.subrange(head.len() as int, (head.len() + x.len()) as int));
    assert(y =~= (head + y + end).subrange(head.len() as int, (head.len() + y.len()) as int));
    number::law_signed_reads_decimal(a);
    number::law_signed_reads_decimal(b);
}

/// What a reader sees ends with the message, and what stands before it is that of the class alone:
/// no two classes have the same, and no two codes.
pub proof fn law_reader_sees_the_class(a: ErrorView, b: ErrorView)
    ensures
        a.display().skip(a.display().len() - a.message().len()) == a.message(),
        a is Backend && b is Backend ==> (a.prefix() == b.prefix()) == (a.taos_code()
            == b.taos_code()),
        !(a is Backend && b is Backend) ==> (a.prefix() == b.prefix()) == (a.with_message(
            b.message(),
        ).prefix() == b.prefix()),
        a.prefix() == b.prefix() ==> (a is Config == b is Config) && (a is Connection
            == b is Connection) && (a is Backend == b is Backend) && (a is Unavailable
            == b is Unavailable) && (a is Serialization == b is Serialization) && (a is Io
            == b is Io) && (a is Timeout == b is Timeout) && (a is Invalid == b is Invalid) && (
        a is Closed == b is Closed) && (a is Unsupported == b is Unsupported),
{
    reveal_strlit("配置无效: ");
    reveal_strlit("连接失败: ");
    reveal_strlit("远端返回错误(code=");
    reveal_strlit("远端暂时不可用: ");
    reveal_strlit("序列化失败: ");
    reveal_strlit("I/O 失败: ");
    reveal_strlit("操作超时: ");
    reveal_strlit("参数无效: ");
    reveal_strlit("资源已关闭: ");
    reveal_strlit("不支持的操作: ");
    assert(a.display().skip(a.display().len() - a.message().len()) =~= a.message());
    let p = a.prefix();
    let q = b.prefix();
    if p == q {
        assert(p[0] == q[0] && p[2] == q[2]);
        match (a, b) {
            (
                ErrorView::Backend { code: x, message: _ },
                ErrorView::Backend { code: y, message: _ },
            ) => {
                lemma_middle_is_told("远端返回错误(code="@, x as int, y as int, "): "@);
            },
            _ => {},
        }
    }
}

/// The words that a reader sees first, by class. Those for an answer of the server tell its code.
pub proof fn law_words_of_the_classes(error: ErrorView)
    ensures
        match error {
            ErrorView::Config(_) => "配置无效: "@.is_prefix_of(error.display()),
            ErrorView::Connection(_) => "连接失败: "@.is_prefix_of(error.display()),
            ErrorView::Unavailable(_) => "远端暂时不可用: "@.is_prefix_of(error.display()),
            ErrorView::Serialization(_) => "序列化失败: "@.is_prefix_of(error.display()),
            ErrorView::Io { kind, message } => "I/O 失败: "@.is_prefix_of(error.display()),
            ErrorView::Timeout(_) => "操作超时: "@.is_prefix_of(error.display()),
            ErrorView::Invalid(_) => "参数无效: "@.is_prefix_of(error.display()),
            ErrorView::Closed(_) => "资源已关闭: "@.is_prefix_of(error.display()),
            ErrorView::Unsupported(_) => "不支持的操作: "@.is_prefix_of(error.display()),
            ErrorView::Backend { code, message } => ("远端返回错误(code="@ + number::decimal(
                code as int,
            ) + "): "@).is_prefix_of(error.display()),
        },
        error.display().len() == error.prefix().len() + error.message().len(),
{
    let p = error.prefix();
    assert(error.display().subrange(0, p.len() as int) =~= p);
}

} // verus!
