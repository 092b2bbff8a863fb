//! A configuration from a TOML document.
//!
//! The document is flat: `schema_version = 1` and the fields of the configuration, times in
//! milliseconds under names that end in `_ms`. A field that is not known is refused, and so is a
//! password that is not empty: secrets do not belong in files under version control.

use std::path::PathBuf;
use std::time::Duration;
use vstd::prelude::*;

use super::env;
use super::parse;
#[allow(unused_imports)]
use super::ConfigView;
use super::{TaosConfig, TransportMode, TsPrecision};
use crate::error::{TaosError, TaosResult};
use crate::number;
use crate::text;

verus! {

// ---------------------------------------------------------------------------
// TOML
// ---------------------------------------------------------------------------

#[verifier::external_type_specification]
#[verifier::external_body]
pub struct ExTomlValue(toml::Value);

#[verifier::external_type_specification]
#[verifier::external_body]
pub struct ExTomlError(toml::de::Error);

/// What [`toml::de::Error::message`] returns.
pub uninterp spec fn toml_fault_text(error: toml::de::Error) -> Seq<char>;

/// [`toml::de::Error::message`].
#[verifier::external_body]
pub(crate) fn text_of_toml_fault(error: &toml::de::Error) -> (r: String)
    ensures
        r@ == toml_fault_text(*error),
{
    error.message().to_owned()
}

/// The entries of a table with their keys as texts.
pub open spec fn entry_views(entries: Seq<(String, toml::Value)>) -> Seq<(Seq<char>, toml::Value)> {
    entries.map_values(|entry: (String, toml::Value)| (entry.0@, entry.1))
}

/// What [`toml::from_str`] makes of a document: the entries of its table in their order, or the
/// message of its error.
pub uninterp spec fn toml_entries(document: Seq<char>) -> Result<
    Seq<(Seq<char>, toml::Value)>,
    Seq<char>,
>;

/// [`toml::from_str`] for a [`toml::Table`]; the table as its entries.
#[verifier::external_body]
pub(crate) fn parse_toml(document: &str) -> (r: Result<
    Vec<(String, toml::Value)>,
    toml::de::Error,
>)
    ensures
        match r {
            Ok(entries) => toml_entries(document@) == Ok::<
                Seq<(Seq<char>, toml::Value)>,
                Seq<char>,
            >(entry_views(entries@)),
            Err(error) => toml_entries(document@) == Err::<
                Seq<(Seq<char>, toml::Value)>,
                Seq<char>,
            >(toml_fault_text(error)),
        },
{
    match toml::from_str::<toml::Table>(document) {
        Ok(table) => Ok(table.into_iter().collect()),
        Err(error) => Err(error),
    }
}

/// What a [`toml::Value`] is, as far as a configuration can use it.
#[verifier::ext_equal]
pub enum Toml {
    /// A text.
    Text(Seq<char>),
    /// A date or a time, as text.
    Datetime(Seq<char>),
    /// An integer.
    Integer(i64),
    /// A truth value.
    Boolean(bool),
    /// A list of values.
    Array(Seq<toml::Value>),
    /// A float or a table.
    Other,
}

/// What a [`toml::Value`] is.
pub uninterp spec fn toml_of(value: toml::Value) -> Toml;

/// [`toml::Value::as_integer`]: the integer, where the value is one.
#[verifier::external_body]
pub(crate) fn integer_of(value: &toml::Value) -> (r: Option<i64>)
    ensures
        r == (match toml_of(*value) {
            Toml::Integer(n) => Some(n),
            _ => None,
        }),
{
    value.as_integer()
}

/// [`toml::Value::as_str`]: the text, where the value is one.
#[verifier::external_body]
pub(crate) fn str_of(value: &toml::Value) -> (r: Option<&str>)
    ensures
        match r {
            Some(s) => toml_of(*value) == Toml::Text(s@),
            None => !(toml_of(*value) is Text),
        },
{
    value.as_str()
}

/// The message of the error of [`toml::Value::try_into`] for [`String`].
pub uninterp spec fn text_fault(value: toml::Value) -> Seq<char>;

/// A value as a text: a text, or a date or a time as text.
pub open spec fn toml_text(value: toml::Value) -> Result<Seq<char>, Seq<char>> {
    match toml_of(value) {
        Toml::Text(s) => Ok(s),
        Toml::Datetime(s) => Ok(s),
        _ => Err(text_fault(value)),
    }
}

/// [`toml::Value::try_into`] for [`String`]: it takes a text, or a date or a time as text, and
/// nothing else.
#[verifier::external_body]
pub(crate) fn into_text(value: toml::Value) -> (r: Result<String, toml::de::Error>)
    ensures
        match r {
            Ok(s) => toml_text(value) == Ok::<Seq<char>, Seq<char>>(s@),
            Err(e) => toml_text(value) == Err::<Seq<char>, Seq<char>>(text_fault(value))
                && toml_fault_text(e) == text_fault(value),
        },
{
    value.try_into::<String>()
}

/// The message of the error of [`toml::Value::try_into`] for `bool`.
pub uninterp spec fn bool_fault(value: toml::Value) -> Seq<char>;

/// A value as a truth value.
pub open spec fn toml_bool(value: toml::Value) -> Result<bool, Seq<char>> {
    match toml_of(value) {
        Toml::Boolean(b) => Ok(b),
        _ => Err(bool_fault(value)),
    }
}

/// [`toml::Value::try_into`] for `bool`: it takes a truth value, and nothing else.
#[verifier::external_body]
pub(crate) fn into_bool(value: toml::Value) -> (r: Result<bool, toml::de::Error>)
    ensures
        match r {
            Ok(b) => toml_bool(value) == Ok::<bool, Seq<char>>(b),
            Err(e) => toml_bool(value) == Err::<bool, Seq<char>>(bool_fault(value))
                && toml_fault_text(e) == bool_fault(value),
        },
{
    value.try_into::<bool>()
}

/// The message of the error of [`toml::Value::try_into`] for `u16`.
pub uninterp spec fn u16_fault(value: toml::Value) -> Seq<char>;

/// A value as a `u16`: an integer in its range.
pub open spec fn toml_u16(value: toml::Value) -> Result<u16, Seq<char>> {
    match toml_of(value) {
        Toml::Integer(n) => if 0 <= n <= u16::MAX {
            Ok(n as u16)
        } else {
            Err(u16_fault(value))
        },
        _ => Err(u16_fault(value)),
    }
}

/// [`toml::Value::try_into`] for `u16`: it takes an integer in the range of the type, and nothing
/// else.
#[verifier::external_body]
pub(crate) fn into_u16(value: toml::Value) -> (r: Result<u16, toml::de::Error>)
    ensures
        match r {
            Ok(n) => toml_u16(value) == Ok::<u16, Seq<char>>(n),
            Err(e) => toml_u16(value) == Err::<u16, Seq<char>>(u16_fault(value))
                && toml_fault_text(e) == u16_fault(value),
        },
{
    value.try_into::<u16>()
}

/// The message of the error of [`toml::Value::try_into`] for `u32`.
pub uninterp spec fn u32_fault(value: toml::Value) -> Seq<char>;

/// A value as a `u32`: an integer in its range.
pub open spec fn toml_u32(value: toml::Value) -> Result<u32, Seq<char>> {
    match toml_of(value) {
        Toml::Integer(n) => if 0 <= n <= u32::MAX {
            Ok(n as u32)
        } else {
            Err(u32_fault(value))
        },
        _ => Err(u32_fault(value)),
    }
}

/// [`toml::Value::try_into`] for `u32`: it takes an integer in the range of the type, and nothing
/// else.
#[verifier::external_body]
pub(crate) fn into_u32(value: toml::Value) -> (r: Result<u32, toml::de::Error>)
    ensures
        match r {
            Ok(n) => toml_u32(value) == Ok::<u32, Seq<char>>(n),
            Err(e) => toml_u32(value) == Err::<u32, Seq<char>>(u32_fault(value))
                && toml_fault_text(e) == u32_fault(value),
        },
{
    value.try_into::<u32>()
}

/// The message of the error of [`toml::Value::try_into`] for `u64`.
pub uninterp spec fn u64_fault(value: toml::Value) -> Seq<char>;

/// A value as a `u64`: an integer in its range.
pub open spec fn toml_u64(value: toml::Value) -> Result<u64, Seq<char>> {
    match toml_of(value) {
        Toml::Integer(n) => if 0 <= n <= u64::MAX {
            Ok(n as u64)
        } else {
            Err(u64_fault(value))
        },
        _ => Err(u64_fault(value)),
    }
}

/// [`toml::Value::try_into`] for `u64`: it takes an integer in the range of the type, and nothing
/// else.
#[verifier::external_body]
pub(crate) fn into_u64(value: toml::Value) -> (r: Result<u64, toml::de::Error>)
    ensures
        match r {
            Ok(n) => toml_u64(value) == Ok::<u64, Seq<char>>(n),
            Err(e) => toml_u64(value) == Err::<u64, Seq<char>>(u64_fault(value))
                && toml_fault_text(e) == u64_fault(value),
        },
{
    value.try_into::<u64>()
}

/// The message of the error of [`toml::Value::try_into`] for `usize`.
pub uninterp spec fn usize_fault(value: toml::Value) -> Seq<char>;

/// A value as a `usize`: an integer in its range.
pub open spec fn toml_usize(value: toml::Value) -> Result<usize, Seq<char>> {
    match toml_of(value) {
        Toml::Integer(n) => if 0 <= n <= usize::MAX {
            Ok(n as usize)
        } else {
            Err(usize_fault(value))
        },
        _ => Err(usize_fault(value)),
    }
}

/// [`toml::Value::try_into`] for `usize`: it takes an integer in the range of the type, and nothing
/// else.
#[verifier::external_body]
pub(crate) fn into_usize(value: toml::Value) -> (r: Result<usize, toml::de::Error>)
    ensures
        match r {
            Ok(n) => toml_usize(value) == Ok::<usize, Seq<char>>(n),
            Err(e) => toml_usize(value) == Err::<usize, Seq<char>>(usize_fault(value))
                && toml_fault_text(e) == usize_fault(value),
        },
{
    value.try_into::<usize>()
}

/// The message of the error of [`toml::Value::try_into`] for [`PathBuf`].
pub uninterp spec fn path_fault(value: toml::Value) -> Seq<char>;

/// A value as a path: a text, or a date or a time as text.
pub open spec fn toml_path(value: toml::Value) -> Result<PathBuf, Seq<char>> {
    match toml_of(value) {
        Toml::Text(s) => Ok(env::path_of(s)),
        Toml::Datetime(s) => Ok(env::path_of(s)),
        _ => Err(path_fault(value)),
    }
}

/// [`toml::Value::try_into`] for [`PathBuf`]: it takes what a text can be, and makes of it the path
/// that [`PathBuf::from`] makes.
#[verifier::external_body]
pub(crate) fn into_path(value: toml::Value) -> (r: Result<PathBuf, toml::de::Error>)
    ensures
        match r {
            Ok(p) => toml_path(value) == Ok::<PathBuf, Seq<char>>(p),
            Err(e) => toml_path(value) == Err::<PathBuf, Seq<char>>(path_fault(value))
                && toml_fault_text(e) == path_fault(value),
        },
{
    value.try_into::<PathBuf>()
}

/// The message of the error of [`toml::Value::try_into`] for a vector of [`String`].
pub uninterp spec fn texts_fault(value: toml::Value) -> Seq<char>;

/// A value as a list of texts.
pub open spec fn toml_texts(value: toml::Value) -> Result<Seq<Seq<char>>, Seq<char>> {
    match toml_of(value) {
        Toml::Array(items) => if forall|i: int|
            0 <= i < items.len() ==> toml_text(#[trigger] items[i]) is Ok {
            Ok(items.map_values(|item: toml::Value| toml_text(item)->Ok_0))
        } else {
            Err(texts_fault(value))
        },
        _ => Err(texts_fault(value)),
    }
}

/// [`toml::Value::try_into`] for a vector of [`String`]: it takes a list whose items can all be
/// texts, and nothing else.
#[verifier::external_body]
pub(crate) fn into_texts(value: toml::Value) -> (r: Result<Vec<String>, toml::de::Error>)
    ensures
        match r {
            Ok(list) => toml_texts(value) == Ok::<Seq<Seq<char>>, Seq<char>>(super::texts(list@)),
            Err(e) => toml_texts(value) == Err::<Seq<Seq<char>>, Seq<char>>(texts_fault(value))
                && toml_fault_text(e) == texts_fault(value),
        },
{
    value.try_into::<Vec<String>>()
}

// ---------------------------------------------------------------------------
// What a document says
// ---------------------------------------------------------------------------

/// The end of the message for a field that is not known.
pub const KNOWN_FIELDS: &'static str = "`, expected one of `host`, `port`, `database`, `user`, `tls`, `tls_ca_file`, `timeout_ms`, `precision`, `transport`, `max_in_flight`, `acquire_timeout_ms`, `batch_max_rows`, `batch_max_bytes`, `max_response_bytes`, `max_query_rows`, `close_timeout_ms`, `hosts`, `write_max_attempts`";

/// A precision from its name.
pub open spec fn precision_field(value: toml::Value) -> Result<TsPrecision, Seq<char>> {
    match toml_text(value) {
        Ok(s) => match TsPrecision::named(s) {
            Some(p) => Ok(p),
            None => Err("precision 非法: "@ + s + "（期望 ms|us|ns）"@),
        },
        Err(m) => Err(m),
    }
}

/// A transport mode from its name.
pub open spec fn transport_field(value: toml::Value) -> Result<TransportMode, Seq<char>> {
    match toml_text(value) {
        Ok(s) => match TransportMode::named(s) {
            Some(t) => Ok(t),
            None => Err(
                "transport 非法: "@ + s
                    + "（期望 rest|http|native|ws|nativews|native_ws|native-ws）"@,
            ),
        },
        Err(m) => Err(m),
    }
}

/// A value of a field, as a change to a configuration.
pub enum Field {
    Host(String),
    Port(u16),
    Database(String),
    User(String),
    Tls(bool),
    TlsCaFile(PathBuf),
    TimeoutMs(u64),
    Precision(TsPrecision),
    Transport(TransportMode),
    MaxInFlight(usize),
    AcquireTimeoutMs(u64),
    BatchMaxRows(usize),
    BatchMaxBytes(usize),
    MaxResponseBytes(usize),
    MaxQueryRows(usize),
    CloseTimeoutMs(u64),
    Hosts(Vec<String>),
    WriteMaxAttempts(u32),
}

/// A [`Field`] with texts as sequences of characters.
#[verifier::ext_equal]
pub enum FieldView {
    Host(Seq<char>),
    Port(u16),
    Database(Seq<char>),
    User(Seq<char>),
    Tls(bool),
    TlsCaFile(PathBuf),
    TimeoutMs(u64),
    Precision(TsPrecision),
    Transport(TransportMode),
    MaxInFlight(usize),
    AcquireTimeoutMs(u64),
    BatchMaxRows(usize),
    BatchMaxBytes(usize),
    MaxResponseBytes(usize),
    MaxQueryRows(usize),
    CloseTimeoutMs(u64),
    Hosts(Seq<Seq<char>>),
    WriteMaxAttempts(u32),
}

impl View for Field {
    type V = FieldView;

    open spec fn view(&self) -> FieldView {
        match self {
            Field::Host(s) => FieldView::Host(s@),
            Field::Port(n) => FieldView::Port(*n),
            Field::Database(s) => FieldView::Database(s@),
            Field::User(s) => FieldView::User(s@),
            Field::Tls(b) => FieldView::Tls(*b),
            Field::TlsCaFile(p) => FieldView::TlsCaFile(*p),
            Field::TimeoutMs(n) => FieldView::TimeoutMs(*n),
            Field::Precision(p) => FieldView::Precision(*p),
            Field::Transport(t) => FieldView::Transport(*t),
            Field::MaxInFlight(n) => FieldView::MaxInFlight(*n),
            Field::AcquireTimeoutMs(n) => FieldView::AcquireTimeoutMs(*n),
            Field::BatchMaxRows(n) => FieldView::BatchMaxRows(*n),
            Field::BatchMaxBytes(n) => FieldView::BatchMaxBytes(*n),
            Field::MaxResponseBytes(n) => FieldView::MaxResponseBytes(*n),
            Field::MaxQueryRows(n) => FieldView::MaxQueryRows(*n),
            Field::CloseTimeoutMs(n) => FieldView::CloseTimeoutMs(*n),
            Field::Hosts(list) => FieldView::Hosts(super::texts(list@)),
            Field::WriteMaxAttempts(n) => FieldView::WriteMaxAttempts(*n),
        }
    }
}

impl FieldView {
    /// A configuration with this value in place of its own.
    pub open spec fn set_in(self, c: ConfigView) -> ConfigView {
        match self {
            FieldView::Host(s) => ConfigView { host: s, ..c },
            FieldView::Port(n) => ConfigView { port: n, ..c },
            FieldView::Database(s) => ConfigView { database: s, ..c },
            FieldView::User(s) => ConfigView { user: s, ..c },
            FieldView::Tls(b) => ConfigView { tls: b, ..c },
            FieldView::TlsCaFile(p) => ConfigView { tls_ca_file: Some(p), ..c },
            FieldView::TimeoutMs(n) => ConfigView { timeout: n as nat * 1_000_000, ..c },
            FieldView::Precision(p) => ConfigView { precision: Some(p), ..c },
            FieldView::Transport(t) => ConfigView { transport: t, ..c },
            FieldView::MaxInFlight(n) => ConfigView { max_in_flight: n, ..c },
            FieldView::AcquireTimeoutMs(n) => ConfigView {
                acquire_timeout: n as nat * 1_000_000,
                ..c
            },
            FieldView::BatchMaxRows(n) => ConfigView { batch_max_rows: n, ..c },
            FieldView::BatchMaxBytes(n) => ConfigView { batch_max_bytes: n, ..c },
            FieldView::MaxResponseBytes(n) => ConfigView { max_response_bytes: n, ..c },
            FieldView::MaxQueryRows(n) => ConfigView { max_query_rows: n, ..c },
            FieldView::CloseTimeoutMs(n) => ConfigView { close_timeout: n as nat * 1_000_000, ..c },
            FieldView::Hosts(list) => ConfigView { hosts: list, ..c },
            FieldView::WriteMaxAttempts(n) => ConfigView { write_max_attempts: n, ..c },
        }
    }
}

/// The value of a field, read as the type of that field.
pub open spec fn field_value(key: Seq<char>, value: toml::Value) -> Result<FieldView, Seq<char>> {
    if key == "host"@ {
        match toml_text(value) {
            Ok(s) => Ok(FieldView::Host(s)),
            Err(m) => Err(m),
        }
    } else if key == "port"@ {
        match toml_u16(value) {
            Ok(n) => Ok(FieldView::Port(n)),
            Err(m) => Err(m),
        }
    } else if key == "database"@ {
        match toml_text(value) {
            Ok(s) => Ok(FieldView::Database(s)),
            Err(m) => Err(m),
        }
    } else if key == "user"@ {
        match toml_text(value) {
            Ok(s) => Ok(FieldView::User(s)),
            Err(m) => Err(m),
        }
    } else if key == "tls"@ {
        match toml_bool(value) {
            Ok(b) => Ok(FieldView::Tls(b)),
            Err(m) => Err(m),
        }
    } else if key == "tls_ca_file"@ {
        match toml_path(value) {
            Ok(p) => Ok(FieldView::TlsCaFile(p)),
            Err(m) => Err(m),
        }
    } else if key == "precision"@ {
        match precision_field(value) {
            Ok(p) => Ok(FieldView::Precision(p)),
            Err(m) => Err(m),
        }
    } else if key == "transport"@ {
        match transport_field(value) {
            Ok(t) => Ok(FieldView::Transport(t)),
            Err(m) => Err(m),
        }
    } else if key == "hosts"@ {
        match toml_texts(value) {
            Ok(list) => Ok(FieldView::Hosts(list)),
            Err(m) => Err(m),
        }
    } else if key == "write_max_attempts"@ {
        match toml_u32(value) {
            Ok(n) => Ok(FieldView::WriteMaxAttempts(n)),
            Err(m) => Err(m),
        }
    } else if key == "timeout_ms"@ || key == "acquire_timeout_ms"@ || key == "close_timeout_ms"@ {
        match toml_u64(value) {
            Ok(n) => Ok(
                if key == "timeout_ms"@ {
                    FieldView::TimeoutMs(n)
                } else if key == "acquire_timeout_ms"@ {
                    FieldView::AcquireTimeoutMs(n)
                } else {
                    FieldView::CloseTimeoutMs(n)
                },
            ),
            Err(m) => Err(m),
        }
    } else if key == "max_in_flight"@ || key == "batch_max_rows"@ || key == "batch_max_bytes"@
        || key == "max_response_bytes"@ || key == "max_query_rows"@ {
        match toml_usize(value) {
            Ok(n) => Ok(
                if key == "max_in_flight"@ {
                    FieldView::MaxInFlight(n)
                } else if key == "batch_max_rows"@ {
                    FieldView::BatchMaxRows(n)
                } else if key == "batch_max_bytes"@ {
                    FieldView::BatchMaxBytes(n)
                } else if key == "max_response_bytes"@ {
                    FieldView::MaxResponseBytes(n)
                } else {
                    FieldView::MaxQueryRows(n)
                },
            ),
            Err(m) => Err(m),
        }
    } else {
        Err("unknown field `"@ + key + KNOWN_FIELDS@)
    }
}

/// The configuration that the fields of a document make of the defaults, up to the first one that
/// is not valid.
pub open spec fn with_fields(entries: Seq<(Seq<char>, toml::Value)>) -> Result<
    ConfigView,
    Seq<char>,
>
    decreases entries.len(),
{
    if entries.len() == 0 {
        Ok(ConfigView::defaults())
    } else {
        match with_fields(entries.drop_last()) {
            Err(m) => Err(m),
            Ok(c) => match field_value(entries.last().0, entries.last().1) {
                Ok(f) => Ok(f.set_in(c)),
                Err(m) => Err(m),
            },
        }
    }
}

/// Where an entry with this key is; the number of entries where there is none.
pub open spec fn place_of(entries: Seq<(Seq<char>, toml::Value)>, key: Seq<char>) -> nat
    decreases entries.len(),
{
    if entries.len() == 0 {
        0
    } else if entries[0].0 == key {
        0
    } else {
        1 + place_of(entries.skip(1), key)
    }
}

/// The entries without the one with this key.
pub open spec fn without(entries: Seq<(Seq<char>, toml::Value)>, key: Seq<char>) -> Seq<
    (Seq<char>, toml::Value),
> {
    let i = place_of(entries, key);
    if i < entries.len() {
        entries.remove(i as int)
    } else {
        entries
    }
}

/// The value under a key.
pub open spec fn value_at(entries: Seq<(Seq<char>, toml::Value)>, key: Seq<char>) -> Option<
    toml::Value,
> {
    let i = place_of(entries, key);
    if i < entries.len() {
        Some(entries[i as int].1)
    } else {
        None
    }
}

/// What is wrong with the version of a document.
pub open spec fn version_fault(value: Option<toml::Value>) -> Option<Seq<char>> {
    match value {
        None => Some("TOML 缺少 schema_version 字段"@),
        Some(v) => match toml_of(v) {
            Toml::Integer(n) => if n != 1 {
                Some("TOML schema_version 不支持: "@ + number::decimal(n as int))
            } else {
                None
            },
            _ => Some("TOML schema_version 必须为整数"@),
        },
    }
}

/// What is wrong with the password in a document: anything but an empty text.
pub open spec fn password_fault(value: Option<toml::Value>) -> Option<Seq<char>> {
    match value {
        None => None,
        Some(v) => match toml_of(v) {
            Toml::Text(s) => if s.len() > 0 {
                Some("TOML 禁止非空 password 字段，请改用环境变量注入"@)
            } else {
                None
            },
            _ => Some(
                "TOML password 必须为字符串类型；禁止非空 password 字段，请改用环境变量注入"@,
            ),
        },
    }
}

/// The configuration that the entries of a document make, or why they make none.
pub open spec fn entries_config(entries: Seq<(Seq<char>, toml::Value)>) -> Result<
    ConfigView,
    Seq<char>,
> {
    let rest = without(entries, "schema_version"@);
    match version_fault(value_at(entries, "schema_version"@)) {
        Some(m) => Err(m),
        None => match password_fault(value_at(rest, "password"@)) {
            Some(m) => Err(m),
            None => match with_fields(without(rest, "password"@)) {
                Err(m) => Err("TOML 反序列化失败: "@ + m),
                Ok(c) => match c.fault() {
                    Some(m) => Err(m),
                    None => Ok(c),
                },
            },
        },
    }
}

/// The configuration that a document makes, or why it makes none.
pub open spec fn document_config(document: Seq<char>) -> Result<ConfigView, Seq<char>> {
    match toml_entries(document) {
        Err(m) => Err("TOML 解析失败: "@ + m),
        Ok(entries) => entries_config(entries),
    }
}

// ---------------------------------------------------------------------------
// Reading it
// ---------------------------------------------------------------------------

fn text_field(value: toml::Value) -> (r: Result<String, String>)
    ensures
        match r {
            Ok(s) => toml_text(value) == Ok::<Seq<char>, Seq<char>>(s@),
            Err(m) => toml_text(value) == Err::<Seq<char>, Seq<char>>(m@),
        },
{
    match into_text(value) {
        Ok(s) => Ok(s),
        Err(e) => Err(text_of_toml_fault(&e)),
    }
}

fn read_precision(value: toml::Value) -> (r: Result<TsPrecision, String>)
    ensures
        match r {
            Ok(p) => precision_field(value) == Ok::<TsPrecision, Seq<char>>(p),
            Err(m) => precision_field(value) == Err::<TsPrecision, Seq<char>>(m@),
        },
{
    match text_field(value) {
        Ok(s) => match TsPrecision::parse(s.as_str()) {
            Some(p) => Ok(p),
            None => {
                let mut m = String::from("precision 非法: ");
                text::push_text(&mut m, s.as_str());
                text::push_text(&mut m, "（期望 ms|us|ns）");
                Err(m)
            },
        },
        Err(m) => Err(m),
    }
}

fn read_transport(value: toml::Value) -> (r: Result<TransportMode, String>)
    ensures
        match r {
            Ok(t) => transport_field(value) == Ok::<TransportMode, Seq<char>>(t),
            Err(m) => transport_field(value) == Err::<TransportMode, Seq<char>>(m@),
        },
{
    match text_field(value) {
        Ok(s) => match TransportMode::parse(s.as_str()) {
            Some(t) => Ok(t),
            None => {
                let mut m = String::from("transport 非法: ");
                text::push_text(&mut m, s.as_str());
                text::push_text(
                    &mut m,
                    "（期望 rest|http|native|ws|nativews|native_ws|native-ws）",
                );
                Err(m)
            },
        },
        Err(m) => Err(m),
    }
}

/// The value of a field, read as the type of that field.
fn read_field(key: &str, value: toml::Value) -> (r: Result<Field, String>)
    ensures
        match r {
            Ok(f) => field_value(key@, value) == Ok::<FieldView, Seq<char>>(f@),
            Err(m) => field_value(key@, value) == Err::<FieldView, Seq<char>>(m@),
        },
{
    if text::same(key, "host") {
        match text_field(value) {
            Ok(s) => Ok(Field::Host(s)),
            Err(m) => Err(m),
        }
    } else if text::same(key, "port") {
        match into_u16(value) {
            Ok(n) => Ok(Field::Port(n)),
            Err(e) => Err(text_of_toml_fault(&e)),
        }
    } else if text::same(key, "database") {
        match text_field(value) {
            Ok(s) => Ok(Field::Database(s)),
            Err(m) => Err(m),
        }
    } else if text::same(key, "user") {
        match text_field(value) {
            Ok(s) => Ok(Field::User(s)),
            Err(m) => Err(m),
        }
    } else if text::same(key, "tls") {
        match into_bool(value) {
            Ok(b) => Ok(Field::Tls(b)),
            Err(e) => Err(text_of_toml_fault(&e)),
        }
    } else if text::same(key, "tls_ca_file") {
        match into_path(value) {
            Ok(p) => Ok(Field::TlsCaFile(p)),
            Err(e) => Err(text_of_toml_fault(&e)),
        }
    } else if text::same(key, "precision") {
        match read_precision(value) {
            Ok(p) => Ok(Field::Precision(p)),
            Err(m) => Err(m),
        }
    } else if text::same(key, "transport") {
        match read_transport(value) {
            Ok(t) => Ok(Field::Transport(t)),
            Err(m) => Err(m),
        }
    } else if text::same(key, "hosts") {
        match into_texts(value) {
            Ok(list) => Ok(Field::Hosts(list)),
            Err(e) => Err(text_of_toml_fault(&e)),
        }
    } else if text::same(key, "write_max_attempts") {
        match into_u32(value) {
            Ok(n) => Ok(Field::WriteMaxAttempts(n)),
            Err(e) => Err(text_of_toml_fault(&e)),
        }
    } else if text::same(key, "timeout_ms") || text::same(key, "acquire_timeout_ms")
        || text::same(key, "close_timeout_ms") {
        match into_u64(value) {
            Ok(n) => Ok(
                if text::same(key, "timeout_ms") {
                    Field::TimeoutMs(n)
                } else if text::same(key, "acquire_timeout_ms") {
                    Field::AcquireTimeoutMs(n)
                } else {
                    Field::CloseTimeoutMs(n)
                },
            ),
            Err(e) => Err(text_of_toml_fault(&e)),
        }
    } else if text::same(key, "max_in_flight") || text::same(key, "batch_max_rows") || text::same(
        key,
        "batch_max_bytes",
    ) || text::same(key, "max_response_bytes") || text::same(key, "max_query_rows") {
        match into_usize(value) {
            Ok(n) => Ok(
                if text::same(key, "max_in_flight") {
                    Field::MaxInFlight(n)
                } else if text::same(key, "batch_max_rows") {
                    Field::BatchMaxRows(n)
                } else if text::same(key, "batch_max_bytes") {
                    Field::BatchMaxBytes(n)
                } else if text::same(key, "max_response_bytes") {
                    Field::MaxResponseBytes(n)
                } else {
                    Field::MaxQueryRows(n)
                },
            ),
            Err(e) => Err(text_of_toml_fault(&e)),
        }
    } else {
        let mut m = String::from("unknown field `");
        text::push_text(&mut m, key);
        text::push_text(&mut m, KNOWN_FIELDS);
        Err(m)
    }
}

impl TaosConfig {
    fn set(&mut self, field: Field)
        ensures
            final(self)@ == field@.set_in(old(self)@),
    {
        match field {
            Field::Host(s) => {
                self.host = s;
            },
            Field::Port(n) => {
                self.port = n;
            },
            Field::Database(s) => {
                self.database = s;
            },
            Field::User(s) => {
                self.user = s;
            },
            Field::Tls(b) => {
                self.tls = b;
            },
            Field::TlsCaFile(p) => {
                self.tls_ca_file = Some(p);
            },
            Field::TimeoutMs(n) => {
                self.timeout = Duration::from_millis(n);
            },
            Field::Precision(p) => {
                self.precision = Some(p);
            },
            Field::Transport(t) => {
                self.transport = t;
            },
            Field::MaxInFlight(n) => {
                self.max_in_flight = n;
            },
            Field::AcquireTimeoutMs(n) => {
                self.acquire_timeout = Duration::from_millis(n);
            },
            Field::BatchMaxRows(n) => {
                self.batch_max_rows = n;
            },
            Field::BatchMaxBytes(n) => {
                self.batch_max_bytes = n;
            },
            Field::MaxResponseBytes(n) => {
                self.max_response_bytes = n;
            },
            Field::MaxQueryRows(n) => {
                self.max_query_rows = n;
            },
            Field::CloseTimeoutMs(n) => {
                self.close_timeout = Duration::from_millis(n);
            },
            Field::Hosts(list) => {
                self.hosts = list;
            },
            Field::WriteMaxAttempts(n) => {
                self.write_max_attempts = n;
            },
        }
    }
}

proof fn lemma_with_fields_error_stays(entries: Seq<(Seq<char>, toml::Value)>, i: int)
    requires
        0 <= i <= entries.len(),
        with_fields(entries.take(i)) is Err,
    ensures
        with_fields(entries) == with_fields(entries.take(i)),
    decreases entries.len() - i,
{
    if i < entries.len() {
        assert(entries.take(i + 1).drop_last() =~= entries.take(i));
        lemma_with_fields_error_stays(entries, i + 1);
    } else {
        assert(entries.take(i) =~= entries);
    }
}

fn read_fields(entries: Vec<(String, toml::Value)>) -> (r: Result<TaosConfig, String>)
    ensures
        match r {
            Ok(c) => with_fields(entry_views(entries@)) == Ok::<ConfigView, Seq<char>>(c@),
            Err(m) => with_fields(entry_views(entries@)) == Err::<ConfigView, Seq<char>>(m@),
        },
{
    let ghost given = entries@;
    let ghost all = entry_views(given);
    let mut config = TaosConfig::default();
    assert(all.take(0) =~= Seq::<(Seq<char>, toml::Value)>::empty());
    for entry in iter: entries
        invariant
            iter.seq() == given,
            all == entry_views(given),
            with_fields(all.take(iter.index())) == Ok::<ConfigView, Seq<char>>(config@),
    {
        let ghost i = iter.index();
        assert(all.take(i + 1).drop_last() =~= all.take(i));
        assert(all.take(i + 1).last() == (entry.0@, entry.1));
        match read_field(entry.0.as_str(), entry.1) {
            Ok(f) => {
                config.set(f);
            },
            Err(m) => {
                proof {
                    lemma_with_fields_error_stays(all, i + 1);
                }
                return Err(m);
            },
        }
    }
    assert(all.take(all.len() as int) =~= all);
    Ok(config)
}

proof fn lemma_place(entries: Seq<(Seq<char>, toml::Value)>, key: Seq<char>, i: int)
    requires
        0 <= i <= entries.len(),
        forall|k: int| 0 <= k < i ==> (#[trigger] entries[k]).0 != key,
        i < entries.len() ==> entries[i].0 == key,
    ensures
        place_of(entries, key) == i,
    decreases entries.len(),
{
    if i > 0 {
        let rest = entries.skip(1);
        assert forall|k: int| 0 <= k < i - 1 implies (#[trigger] rest[k]).0 != key by {
            assert(rest[k] == entries[k + 1]);
        }
        assert(entries[0].0 != key);
        lemma_place(rest, key, i - 1);
    }
}

/// Takes the entry with this key out of the entries.
fn take_entry(entries: &mut Vec<(String, toml::Value)>, key: &str) -> (r: Option<toml::Value>)
    ensures
        r == value_at(entry_views(old(entries)@), key@),
        entry_views(final(entries)@) == without(entry_views(old(entries)@), key@),
{
    let ghost all = entry_views(entries@);
    let mut i: usize = 0;
    while i < entries.len()
        invariant
            i <= entries@.len(),
            *entries == *old(entries),
            all == entry_views(entries@),
            forall|k: int| 0 <= k < i ==> (#[trigger] all[k]).0 != key@,
        decreases entries@.len() - i,
    {
        assert(all[i as int] == (entries@[i as int].0@, entries@[i as int].1));
        if text::same(entries[i].0.as_str(), key) {
            proof {
                lemma_place(all, key@, i as int);
            }
            let entry = entries.remove(i);
            assert(entry_views(entries@) =~= all.remove(i as int));
            return Some(entry.1);
        }
        i = i + 1;
    }
    proof {
        lemma_place(all, key@, i as int);
    }
    None
}

fn check_version(value: Option<toml::Value>) -> (r: Option<String>)
    ensures
        parse::optional(r) == version_fault(value),
{
    match value {
        None => Some(String::from("TOML 缺少 schema_version 字段")),
        Some(v) => match integer_of(&v) {
            None => Some(String::from("TOML schema_version 必须为整数")),
            Some(n) => {
                if n != 1 {
                    let mut m = String::from("TOML schema_version 不支持: ");
                    text::push_text(&mut m, number::decimal_i64(n).as_str());
                    Some(m)
                } else {
                    None
                }
            },
        },
    }
}

fn check_password(value: Option<toml::Value>) -> (r: Option<String>)
    ensures
        parse::optional(r) == password_fault(value),
{
    match value {
        None => None,
        Some(v) => match str_of(&v) {
            None => Some(
                String::from(
                    "TOML password 必须为字符串类型；禁止非空 password 字段，请改用环境变量注入",
                ),
            ),
            Some(s) => {
                if s.is_empty() {
                    None
                } else {
                    Some(String::from("TOML 禁止非空 password 字段，请改用环境变量注入"))
                }
            },
        },
    }
}

impl TaosConfig {
    /// A configuration from the entries of a document. It has passed [`TaosConfig::validate`].
    pub fn from_toml_entries(entries: Vec<(String, toml::Value)>) -> (r: TaosResult<Self>)
        ensures
            match r {
                Ok(c) => entries_config(entry_views(entries@)) == Ok::<ConfigView, Seq<char>>(c@),
                Err(TaosError::Config(m)) => entries_config(entry_views(entries@)) == Err::<
                    ConfigView,
                    Seq<char>,
                >(m@),
                Err(_) => false,
            },
    {
        let mut entries = entries;
        let version = take_entry(&mut entries, "schema_version");
        match check_version(version) {
            Some(m) => {
                return Err(TaosError::Config(m));
            },
            None => {},
        }
        let password = take_entry(&mut entries, "password");
        match check_password(password) {
            Some(m) => {
                return Err(TaosError::Config(m));
            },
            None => {},
        }
        let config = match read_fields(entries) {
            Ok(config) => config,
            Err(m) => {
                let mut words = String::from("TOML 反序列化失败: ");
                text::push_text(&mut words, m.as_str());
                return Err(TaosError::Config(words));
            },
        };
        match config.validate() {
            Ok(_) => Ok(config),
            Err(e) => Err(e),
        }
    }

    /// A configuration from a TOML document, and defaults for the fields that are not in it. It has
    /// passed [`TaosConfig::validate`]. The environment is not read.
    pub fn from_toml(text: &str) -> (r: TaosResult<Self>)
        ensures
            match r {
                Ok(c) => document_config(text@) == Ok::<ConfigView, Seq<char>>(c@),
                Err(TaosError::Config(m)) => document_config(text@) == Err::<
                    ConfigView,
                    Seq<char>,
                >(m@),
                Err(_) => false,
            },
    {
        match parse_toml(text) {
            Ok(entries) => Self::from_toml_entries(entries),
            Err(error) => {
                let mut m = String::from("TOML 解析失败: ");
                text::push_text(&mut m, text_of_toml_fault(&error).as_str());
                Err(TaosError::Config(m))
            },
        }
    }
}

/// The error for a document whose file cannot be read.
pub fn toml_file_error(path: &str, kind: &str) -> (r: TaosError)
    ensures
        r matches TaosError::Config(m) && m@ == "TOML 文件读取失败 `"@ + path@ + "`: "@ + kind@,
{
    let mut m = String::from("TOML 文件读取失败 `");
    text::push_text(&mut m, path);
    text::push_text(&mut m, "`: ");
    text::push_text(&mut m, kind);
    TaosError::Config(m)
}

// ---------------------------------------------------------------------------
// Laws
// ---------------------------------------------------------------------------

/// A configuration from a document has no password.
pub proof fn law_documents_hold_no_password(document: Seq<char>)
    ensures
        document_config(document) matches Ok(config) ==> config.password.len() == 0,
{
    match toml_entries(document) {
        Ok(entries) => {
            let rest = without(without(entries, "schema_version"@), "password"@);
            lemma_fields_set_no_password(rest);
        },
        Err(_) => {},
    }
}

proof fn lemma_fields_set_no_password(entries: Seq<(Seq<char>, toml::Value)>)
    ensures
        with_fields(entries) matches Ok(config) ==> config.password.len() == 0,
    decreases entries.len(),
{
    if entries.len() > 0 {
        lemma_fields_set_no_password(entries.drop_last());
    }
}

/// The name of a field that a document may set.
pub open spec fn is_field(key: Seq<char>) -> bool {
    ||| key == "host"@
    ||| key == "port"@
    ||| key == "database"@
    ||| key == "user"@
    ||| key == "tls"@
    ||| key == "tls_ca_file"@
    ||| key == "timeout_ms"@
    ||| key == "precision"@
    ||| key == "transport"@
    ||| key == "max_in_flight"@
    ||| key == "acquire_timeout_ms"@
    ||| key == "batch_max_rows"@
    ||| key == "batch_max_bytes"@
    ||| key == "max_response_bytes"@
    ||| key == "max_query_rows"@
    ||| key == "close_timeout_ms"@
    ||| key == "hosts"@
    ||| key == "write_max_attempts"@
}

/// A document with a field that is not known is refused, whatever else it holds.
pub proof fn law_unknown_fields_are_refused(entries: Seq<(Seq<char>, toml::Value)>, i: int)
    requires
        0 <= i < entries.len(),
        !is_field(entries[i].0),
        entries[i].0 != "schema_version"@,
        entries[i].0 != "password"@,
    ensures
        entries_config(entries) is Err,
{
    let rest = without(entries, "schema_version"@);
    let j = lemma_others_stay(entries, "schema_version"@, i);
    let k = lemma_others_stay(rest, "password"@, j);
    lemma_bad_field_spoils(without(rest, "password"@), k);
}

proof fn lemma_place_found(entries: Seq<(Seq<char>, toml::Value)>, key: Seq<char>)
    ensures
        place_of(entries, key) <= entries.len(),
        place_of(entries, key) < entries.len() ==> entries[place_of(entries, key) as int].0 == key,
    decreases entries.len(),
{
    if entries.len() > 0 && entries[0].0 != key {
        lemma_place_found(entries.skip(1), key);
    }
}

proof fn lemma_others_stay(
    entries: Seq<(Seq<char>, toml::Value)>,
    key: Seq<char>,
    i: int,
) -> (j: int)
    requires
        0 <= i < entries.len(),
        entries[i].0 != key,
    ensures
        0 <= j < without(entries, key).len(),
        without(entries, key)[j] == entries[i],
{
    lemma_place_found(entries, key);
    let at = place_of(entries, key) as int;
    if at < entries.len() && at < i {
        i - 1
    } else {
        i
    }
}

proof fn lemma_bad_field_spoils(entries: Seq<(Seq<char>, toml::Value)>, i: int)
    requires
        0 <= i < entries.len(),
        field_value(entries[i].0, entries[i].1) is Err,
    ensures
        with_fields(entries) is Err,
    decreases entries.len(),
{
    if i < entries.len() - 1 {
        lemma_bad_field_spoils(entries.drop_last(), i);
    }
}

/// A field sets the setting of its name and no other, where its value is of the right kind: a text,
/// a truth value, or an integer that is not negative and within the type. A time is given in
/// milliseconds. A later field wins over an earlier one of the same name.
pub proof fn law_fields_set_their_settings(
    entries: Seq<(Seq<char>, toml::Value)>,
    key: Seq<char>,
    value: toml::Value,
)
    requires
        with_fields(entries) is Ok,
    ensures
        ({
            let c = with_fields(entries)->Ok_0;
            let after = with_fields(entries.push((key, value)));
            let sets = |d: ConfigView| after == Ok::<ConfigView, Seq<char>>(d);
            &&& toml_of(value) matches Toml::Text(s) ==> {
                &&& key == "host"@ ==> sets(ConfigView { host: s, ..c })
                &&& key == "database"@ ==> sets(ConfigView { database: s, ..c })
                &&& key == "user"@ ==> sets(ConfigView { user: s, ..c })
                &&& key == "tls_ca_file"@ ==> sets(
                    ConfigView { tls_ca_file: Some(env::path_of(s)), ..c },
                )
                &&& key == "precision"@ && TsPrecision::named(s) is Some ==> sets(
                    ConfigView { precision: TsPrecision::named(s), ..c },
                )
                &&& key == "precision"@ && TsPrecision::named(s) is None ==> after is Err
                &&& key == "transport"@ && TransportMode::named(s) is Some ==> sets(
                    ConfigView { transport: TransportMode::named(s)->0, ..c },
                )
                &&& key == "transport"@ && TransportMode::named(s) is None ==> after is Err
            }
            &&& toml_of(value) matches Toml::Boolean(b) ==> (key == "tls"@ ==> sets(
                ConfigView { tls: b, ..c },
            ))
            &&& toml_of(value) matches Toml::Integer(n) ==> {
                &&& key == "port"@ ==> if 0 <= n <= 65_535 {
                    sets(ConfigView { port: n as u16, ..c })
                } else {
                    after is Err
                }
                &&& key == "write_max_attempts"@ ==> if 0 <= n <= 4_294_967_295 {
                    sets(ConfigView { write_max_attempts: n as u32, ..c })
                } else {
                    after is Err
                }
                &&& key == "timeout_ms"@ ==> if 0 <= n {
                    sets(ConfigView { timeout: n as nat * 1_000_000, ..c })
                } else {
                    after is Err
                }
                &&& key == "acquire_timeout_ms"@ ==> if 0 <= n {
                    sets(ConfigView { acquire_timeout: n as nat * 1_000_000, ..c })
                } else {
                    after is Err
                }
                &&& key == "close_timeout_ms"@ ==> if 0 <= n {
                    sets(ConfigView { close_timeout: n as nat * 1_000_000, ..c })
                } else {
                    after is Err
                }
                &&& key == "max_in_flight"@ ==> if 0 <= n <= usize::MAX {
                    sets(ConfigView { max_in_flight: n as usize, ..c })
                } else {
                    after is Err
                }
                &&& key == "batch_max_rows"@ ==> if 0 <= n <= usize::MAX {
                    sets(ConfigView { batch_max_rows: n as usize, ..c })
                } else {
                    after is Err
                }
                &&& key == "batch_max_bytes"@ ==> if 0 <= n <= usize::MAX {
                    sets(ConfigView { batch_max_bytes: n as usize, ..c })
                } else {
                    after is Err
                }
                &&& key == "max_response_bytes"@ ==> if 0 <= n <= usize::MAX {
                    sets(ConfigView { max_response_bytes: n as usize, ..c })
                } else {
                    after is Err
                }
                &&& key == "max_query_rows"@ ==> if 0 <= n <= usize::MAX {
                    sets(ConfigView { max_query_rows: n as usize, ..c })
                } else {
                    after is Err
                }
            }
            &&& toml_of(value) matches Toml::Array(items) ==> (key == "hosts"@ && (forall|i: int|
                0 <= i < items.len() ==> toml_of(#[trigger] items[i]) is Text)
                ==> exists|list: Seq<Seq<char>>| #[trigger]
                sets(ConfigView { hosts: list, ..c }) && list.len() == items.len() && forall|i: int|

                    0 <= i < items.len() ==> toml_of(items[i]) == Toml::Text(#[trigger] list[i]))
            &&& !is_field(key) ==> after is Err
        }),
{
    reveal_strlit("host");
    reveal_strlit("port");
    reveal_strlit("database");
    reveal_strlit("user");
    reveal_strlit("tls");
    reveal_strlit("tls_ca_file");
    reveal_strlit("timeout_ms");
    reveal_strlit("precision");
    reveal_strlit("transport");
    reveal_strlit("max_in_flight");
    reveal_strlit("acquire_timeout_ms");
    reveal_strlit("batch_max_rows");
    reveal_strlit("batch_max_bytes");
    reveal_strlit("max_response_bytes");
    reveal_strlit("max_query_rows");
    reveal_strlit("close_timeout_ms");
    reveal_strlit("hosts");
    reveal_strlit("write_max_attempts");
    assert("host"@.len() == 4 && "host"@[0] == 'h');
    assert("port"@.len() == 4 && "port"@[0] == 'p');
    assert("database"@.len() == 8 && "database"@[0] == 'd');
    assert("user"@.len() == 4 && "user"@[0] == 'u');
    assert("tls"@.len() == 3 && "tls"@[0] == 't');
    assert("tls_ca_file"@.len() == 11 && "tls_ca_file"@[0] == 't');
    assert("timeout_ms"@.len() == 10 && "timeout_ms"@[0] == 't');
    assert("precision"@.len() == 9 && "precision"@[0] == 'p');
    assert("transport"@.len() == 9 && "transport"@[0] == 't');
    assert("max_in_flight"@.len() == 13 && "max_in_flight"@[0] == 'm');
    assert("acquire_timeout_ms"@.len() == 18 && "acquire_timeout_ms"@[0] == 'a');
    assert("batch_max_rows"@.len() == 14 && "batch_max_rows"@[0] == 'b');
    assert("batch_max_bytes"@.len() == 15 && "batch_max_bytes"@[0] == 'b');
    assert("max_response_bytes"@.len() == 18 && "max_response_bytes"@[0] == 'm');
    assert("max_query_rows"@.len() == 14 && "max_query_rows"@[0] == 'm');
    assert("close_timeout_ms"@.len() == 16 && "close_timeout_ms"@[0] == 'c');
    assert("hosts"@.len() == 5 && "hosts"@[0] == 'h');
    assert("write_max_attempts"@.len() == 18 && "write_max_attempts"@[0] == 'w');
    assert(entries.push((key, value)).drop_last() =~= entries);
    let c = with_fields(entries)->Ok_0;
    match toml_of(value) {
        Toml::Array(items) => {
            if key == "hosts"@ && (forall|i: int|
                0 <= i < items.len() ==> toml_of(#[trigger] items[i]) is Text) {
                let list = items.map_values(|item: toml::Value| toml_text(item)->Ok_0);
                assert(toml_texts(value) == Ok::<Seq<Seq<char>>, Seq<char>>(list));
                let sets = |d: ConfigView|
                    with_fields(entries.push((key, value))) == Ok::<ConfigView, Seq<char>>(d);
                assert(sets(ConfigView { hosts: list, ..c }));
                assert forall|i: int| 0 <= i < items.len() implies toml_of(items[i]) == Toml::Text(
                    #[trigger] list[i],
                ) by {
                    assert(toml_of(items[i]) is Text);
                }
            }
        },
        _ => {},
    }
}

/// A document without fields gives the configuration that nothing was set in, where that passes; the
/// version has to be there and to be the integer one, whatever else the document holds.
pub proof fn law_documents_need_their_version(entries: Seq<(Seq<char>, toml::Value)>)
    ensures
        entries_config(entries) is Ok ==> value_at(entries, "schema_version"@) is Some && toml_of(
            value_at(entries, "schema_version"@)->0,
        ) == Toml::Integer(1),
        entries_config(entries) matches Ok(c) ==> c.fault() is None,
        with_fields(Seq::empty()) == Ok::<ConfigView, Seq<char>>(ConfigView::defaults()),
{
}

/// A document may hold an empty password or none: any other text is refused, and so is anything that
/// is no text. A version is refused by its number, which is told, where it is an integer.
pub proof fn law_passwords_and_versions(value: toml::Value)
    ensures
        password_fault(None) is None,
        (password_fault(Some(value)) is None) == (toml_of(value) matches Toml::Text(s) && s.len()
            == 0),
        version_fault(None) is Some,
        (version_fault(Some(value)) is None) == (toml_of(value) == Toml::Integer(1)),
        toml_of(value) matches Toml::Integer(n) && n != 1 ==> (": "@ + number::decimal(
            toml_of(value)->Integer_0 as int,
        )).is_suffix_of(version_fault(Some(value))->0),
{
    match toml_of(value) {
        Toml::Integer(n) => {
            if n != 1 {
                reveal_strlit("TOML schema_version 不支持: ");
                reveal_strlit(": ");
                let m = version_fault(Some(value))->0;
                let end = ": "@ + number::decimal(n as int);
                assert(m.subrange(m.len() - end.len(), m.len() as int) =~= end);
            }
        },
        _ => {},
    }
}

/// What is found under a key is the value of the first entry with it, wherever that stands; without
/// that entry the others are left, in their order.
pub proof fn law_entries_are_found_by_key(
    before: Seq<(Seq<char>, toml::Value)>,
    key: Seq<char>,
    value: toml::Value,
    after: Seq<(Seq<char>, toml::Value)>,
)
    requires
        forall|i: int| 0 <= i < before.len() ==> (#[trigger] before[i]).0 != key,
    ensures
        value_at(before.push((key, value)) + after, key) == Some(value),
        without(before.push((key, value)) + after, key) == before + after,
        value_at(before, key) is None,
        without(before, key) == before,
{
    lemma_place_is(before, key, value, after);
    lemma_no_place(before, key);
    let all = before.push((key, value)) + after;
    assert(all.remove(before.len() as int) =~= before + after);
}

proof fn lemma_place_is(
    before: Seq<(Seq<char>, toml::Value)>,
    key: Seq<char>,
    value: toml::Value,
    after: Seq<(Seq<char>, toml::Value)>,
)
    requires
        forall|i: int| 0 <= i < before.len() ==> (#[trigger] before[i]).0 != key,
    ensures
        place_of(before.push((key, value)) + after, key) == before.len(),
    decreases before.len(),
{
    let all = before.push((key, value)) + after;
    if before.len() > 0 {
        assert(all[0] == before[0]);
        let rest = before.skip(1);
        assert forall|i: int| 0 <= i < rest.len() implies (#[trigger] rest[i]).0 != key by {
            assert(rest[i] == before[i + 1]);
        }
        lemma_place_is(rest, key, value, after);
        assert(all.skip(1) =~= rest.push((key, value)) + after);
    } else {
        assert(all[0] == (key, value));
    }
}

proof fn lemma_no_place(entries: Seq<(Seq<char>, toml::Value)>, key: Seq<char>)
    requires
        forall|i: int| 0 <= i < entries.len() ==> (#[trigger] entries[i]).0 != key,
    ensures
        place_of(entries, key) == entries.len(),
    decreases entries.len(),
{
    if entries.len() > 0 {
        let rest = entries.skip(1);
        assert forall|i: int| 0 <= i < rest.len() implies (#[trigger] rest[i]).0 != key by {
            assert(rest[i] == entries[i + 1]);
        }
        assert(entries[0].0 != key);
        lemma_no_place(rest, key);
    }
}

/// Why a document gives no configuration: it is no TOML, its version or its password is refused, one
/// of its fields is, or the whole does not pass; an earlier reason decides alone, and the reasons of
/// TOML are told as they were given.
pub proof fn law_documents_are_refused_in_order(
    document: Seq<char>,
    entries: Seq<(Seq<char>, toml::Value)>,
)
    ensures
        toml_entries(document) matches Err(m) ==> document_config(document) is Err
            && m.is_suffix_of(document_config(document)->Err_0),
        toml_entries(document) == Ok::<Seq<(Seq<char>, toml::Value)>, Seq<char>>(entries)
            ==> document_config(document) == entries_config(entries),
        version_fault(value_at(entries, "schema_version"@)) matches Some(m) ==> entries_config(
            entries,
        ) == Err::<ConfigView, Seq<char>>(m),
        ({
            let rest = without(entries, "schema_version"@);
            let fields = without(rest, "password"@);
            version_fault(value_at(entries, "schema_version"@)) is None ==> {
                &&& password_fault(value_at(rest, "password"@)) matches Some(m) ==> entries_config(
                    entries,
                ) == Err::<ConfigView, Seq<char>>(m)
                &&& password_fault(value_at(rest, "password"@)) is None ==> match with_fields(
                    fields,
                ) {
                    Err(m) => entries_config(entries) is Err && m.is_suffix_of(
                        entries_config(entries)->Err_0,
                    ),
                    Ok(c) => match c.fault() {
                        Some(m) => entries_config(entries) == Err::<ConfigView, Seq<char>>(m),
                        None => entries_config(entries) == Ok::<ConfigView, Seq<char>>(c),
                    },
                }
            }
        }),
{
    match toml_entries(document) {
        Err(m) => {
            text::lemma_suffix("TOML 解析失败: "@, m);
        },
        Ok(_) => {},
    }
    let fields = without(without(entries, "schema_version"@), "password"@);
    match with_fields(fields) {
        Err(m) => {
            text::lemma_suffix("TOML 反序列化失败: "@, m);
        },
        Ok(_) => {},
    }
}

} // verus!
