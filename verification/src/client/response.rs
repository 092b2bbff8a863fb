//! Reading responses: their bytes within a limit, their rows, their time stamps.

use vstd::prelude::*;

use super::types;
#[allow(unused_imports)]
use super::types::ExecView;
use super::types::TaosExecResult;
use crate::config;
use crate::config::TsPrecision;
#[allow(unused_imports)]
use crate::error::ErrorView;
use crate::error::{TaosError, TaosResult};
use crate::json;
#[allow(unused_imports)]
use crate::json::Json;
use crate::json::JsonKind;
use crate::number;
use crate::text;

verus! {

// ---------------------------------------------------------------------------
// Shortening
// ---------------------------------------------------------------------------

/// A text on one line.
pub open spec fn one_line(s: Seq<char>) -> Seq<char> {
    s.map_values(
        |c: char|
            if c == '\n' {
                ' '
            } else {
                c
            },
    )
}

/// The longest beginning of a text that takes at most `max` bytes.
pub open spec fn fitting(s: Seq<char>, max: nat) -> Seq<char>
    decreases s.len(),
{
    if s.len() == 0 || text::byte_len(s) <= max {
        s
    } else {
        fitting(s.drop_last(), max)
    }
}

/// A text without white space at its ends, on one line, and with `…` in place of what is over
/// `max` bytes.
pub open spec fn shortened(s: Seq<char>, max: nat) -> Seq<char> {
    let line = one_line(text::trimmed(s));
    if text::byte_len(line) <= max {
        line
    } else {
        fitting(line, max).push('…')
    }
}

/// How many bytes the character takes.
fn width(c: char) -> (r: usize)
    ensures
        r == text::byte_len(seq![c]),
{
    let n: u32 = c as u32;
    proof {
        reveal_with_fuel(vstd::utf8::encode_utf8, 2);
        assert(seq![c].drop_first() =~= Seq::<char>::empty());
    }
    if n < 0x80 {
        1
    } else if n < 0x800 {
        2
    } else if n < 0x10000 {
        3
    } else {
        4
    }
}

proof fn lemma_byte_len_grows(s: Seq<char>, i: int, j: int)
    requires
        0 <= i <= j <= s.len(),
    ensures
        text::byte_len(s.take(i)) <= text::byte_len(s.take(j)),
{
    text::lemma_encode_concat(s.take(i), s.subrange(i, j));
    assert(s.take(i) + s.subrange(i, j) =~= s.take(j));
}

proof fn lemma_fitting(s: Seq<char>, i: int, max: nat)
    requires
        0 <= i < s.len(),
        text::byte_len(s.take(i)) <= max,
        text::byte_len(s.take(i + 1)) > max,
    ensures
        fitting(s, max) == s.take(i),
    decreases s.len(),
{
    lemma_byte_len_grows(s, i + 1, s.len() as int);
    assert(s.take(s.len() as int) =~= s);
    let t = s.drop_last();
    if i == s.len() - 1 {
        assert(t =~= s.take(i));
        assert(fitting(t, max) == t);
    } else {
        assert(t.take(i) =~= s.take(i));
        assert(t.take(i + 1) =~= s.take(i + 1));
        lemma_fitting(t, i, max);
    }
}

/// The text on one line and of at most `max` bytes, with `…` in place of the rest.
pub fn truncate(s: &str, max: usize) -> (r: String)
    ensures
        r@ == shortened(s@, max as nat),
{
    let chars = text::chars_of(text::trim(s).as_str());
    let ghost line = one_line(chars@);
    let mut out = String::new();
    let mut used: usize = 0;
    let mut i: usize = 0;
    assert(out@ =~= line.take(0));
    while i < chars.len()
        invariant
            i <= chars@.len(),
            line == one_line(chars@),
            chars@ == text::trimmed(s@),
            out@ == line.take(i as int),
            used == text::byte_len(line.take(i as int)),
            used <= max,
        decreases chars@.len() - i,
    {
        let c = if chars[i] == '\n' {
            ' '
        } else {
            chars[i]
        };
        let w: usize = width(c);
        proof {
            assert(line[i as int] == c);
            assert(line.take(i + 1) =~= line.take(i as int) + seq![c]);
            text::lemma_encode_concat(line.take(i as int), seq![c]);
        }
        if w > max - used {
            proof {
                lemma_fitting(line, i as int, max as nat);
                lemma_byte_len_grows(line, i + 1, line.len() as int);
                assert(line.take(line.len() as int) =~= line);
            }
            out.push('…');
            return out;
        }
        out.push(c);
        used = used + w;
        i = i + 1;
        assert(out@ =~= line.take(i as int));
    }
    assert(line.take(i as int) =~= line);
    out
}

// ---------------------------------------------------------------------------
// Cells
// ---------------------------------------------------------------------------

/// A JSON value as the text of a cell.
pub open spec fn cell_text(value: Json) -> Seq<char> {
    match value {
        Json::Null => Seq::empty(),
        Json::Text(s) => s,
        Json::Bool(b) => if b {
            "true"@
        } else {
            "false"@
        },
        Json::Number(notation, _) => notation,
        other => json::json_text(other),
    }
}

/// The JSON value as the text of a cell: nothing for `null`, the text itself for a text, and the
/// notation of anything else. A large float may be in scientific notation.
pub fn json_cell_to_string(value: &serde_json::Value) -> (r: String)
    ensures
        r@ == cell_text(json::json_of(*value)),
{
    match json::kind_of(value) {
        JsonKind::Null => String::new(),
        JsonKind::Text => match json::text_of(value) {
            Some(s) => String::from(s),
            None => String::new(),
        },
        JsonKind::Bool => match json::bool_of(value) {
            Some(b) => if b {
                String::from("true")
            } else {
                String::from("false")
            },
            None => String::new(),
        },
        JsonKind::Number => json::write_json(value),
        JsonKind::Array => json::write_json(value),
        JsonKind::Object => json::write_json(value),
    }
}

/// The name of a column: the text that its description starts with.
pub open spec fn column_name(meta: Json) -> Option<Seq<char>> {
    match meta {
        Json::Array(items) => if items.len() > 0 {
            match items[0] {
                Json::Text(s) => Some(s),
                _ => None,
            }
        } else {
            None
        },
        _ => None,
    }
}

/// The names of the columns, without the descriptions that have none.
pub open spec fn column_names(metas: Seq<Json>) -> Seq<Seq<char>>
    decreases metas.len(),
{
    if metas.len() == 0 {
        Seq::empty()
    } else {
        match column_name(metas.last()) {
            Some(name) => column_names(metas.drop_last()).push(name),
            None => column_names(metas.drop_last()),
        }
    }
}

fn name_of_column(meta: &serde_json::Value) -> (r: Option<String>)
    ensures
        match r {
            Some(s) => column_name(json::json_of(*meta)) == Some(s@),
            None => column_name(json::json_of(*meta)) is None,
        },
{
    match json::array_of(meta) {
        Some(items) => {
            if items.len() > 0 {
                assert(json::jsons_of(items@)[0] == json::json_of(items@[0]));
                match json::text_of(&items[0]) {
                    Some(s) => Some(String::from(s)),
                    None => None,
                }
            } else {
                None
            }
        },
        None => None,
    }
}

fn names_of_columns(metas: &Vec<serde_json::Value>) -> (r: Vec<String>)
    ensures
        config::texts(r@) == column_names(json::jsons_of(metas@)),
{
    let ghost all = json::jsons_of(metas@);
    let mut out: Vec<String> = Vec::new();
    let mut i: usize = 0;
    assert(all.take(0) =~= Seq::<Json>::empty());
    assert(config::texts(out@) =~= Seq::<Seq<char>>::empty());
    while i < metas.len()
        invariant
            i <= metas@.len(),
            all == json::jsons_of(metas@),
            config::texts(out@) == column_names(all.take(i as int)),
        decreases metas@.len() - i,
    {
        assert(all.take(i + 1).drop_last() =~= all.take(i as int));
        assert(all[i as int] == json::json_of(metas@[i as int]));
        match name_of_column(&metas[i]) {
            Some(name) => {
                let ghost n = name@;
                let ghost before = config::texts(out@);
                out.push(name);
                assert(config::texts(out@) =~= before.push(n));
            },
            None => {},
        }
        i = i + 1;
    }
    assert(all.take(i as int) =~= all);
    out
}

// ---------------------------------------------------------------------------
// The response
// ---------------------------------------------------------------------------

/// The fields of a response, as they come out of its JSON.
#[derive(Debug)]
pub struct RawResponse {
    /// The server's code.
    pub code: i32,
    /// The server's explanation.
    pub desc: Option<String>,
    /// A description of each column.
    pub column_meta: Vec<serde_json::Value>,
    /// The rows.
    pub data: Vec<Vec<serde_json::Value>>,
    /// The number of rows.
    pub rows: Option<i64>,
}

/// A [`RawResponse`] with JSON values for its cells.
#[verifier::ext_equal]
pub struct RawView {
    pub code: i32,
    pub desc: Option<Seq<char>>,
    pub column_meta: Seq<Json>,
    pub data: Seq<Seq<Json>>,
    pub rows: Option<i64>,
}

impl View for RawResponse {
    type V = RawView;

    open spec fn view(&self) -> RawView {
        RawView {
            code: self.code,
            desc: config::parse::optional(self.desc),
            column_meta: json::jsons_of(self.column_meta@),
            data: self.data@.map_values(|row: Vec<serde_json::Value>| json::jsons_of(row@)),
            rows: self.rows,
        }
    }
}

/// Where a text stopped being the JSON of a response.
#[derive(Debug, Clone, Copy, PartialEq, Eq, Structural)]
pub struct JsonFault {
    /// The line, from one.
    pub line: usize,
    /// The column, from one.
    pub column: usize,
}

/// The most bytes of a server's explanation in a message.
pub const MAX_DESC_BYTES: usize = 256;

impl RawView {
    /// The names of the columns.
    pub open spec fn columns(self) -> Seq<Seq<char>> {
        column_names(self.column_meta)
    }

    /// The texts of the cells.
    pub open spec fn cells(self) -> Seq<Seq<Seq<char>>> {
        self.data.map_values(|row: Seq<Json>| row.map_values(|v: Json| cell_text(v)))
    }

    /// How many rows were affected: the first cell where the first column is named so, and
    /// otherwise what the response says of its rows.
    pub open spec fn affected(self) -> Option<i64> {
        if self.columns().len() > 0 && self.columns()[0] == "affected_rows"@ {
            if self.cells().len() > 0 && self.cells()[0].len() > 0 {
                match number::signed(self.cells()[0][0]) {
                    Some(n) => Some(n as i64),
                    None => None,
                }
            } else {
                None
            }
        } else {
            self.rows
        }
    }

    /// What the response comes to: the result, or the error that its code stands for.
    pub open spec fn outcome(self) -> Result<ExecView, ErrorView> {
        if self.code != 0 {
            Err(
                crate::error::error_of_code(
                    self.code,
                    match self.desc {
                        Some(desc) => shortened(desc, MAX_DESC_BYTES as nat),
                        None => Seq::empty(),
                    },
                ),
            )
        } else {
            Ok(
                ExecView {
                    code: self.code,
                    rows: self.cells(),
                    columns: self.columns(),
                    affected_rows: self.affected(),
                },
            )
        }
    }
}

/// The error for a response that is no valid JSON. Only the place of the fault is in it: the
/// response itself may hold credentials.
pub open spec fn json_error(fault: JsonFault) -> ErrorView {
    ErrorView::Serialization(
        "TDengine JSON 解析失败（line "@ + number::decimal(fault.line as int) + " column "@
            + number::decimal(fault.column as int) + "）"@,
    )
}

fn cells_of_row(row: &Vec<serde_json::Value>) -> (r: Vec<String>)
    ensures
        config::texts(r@) == json::jsons_of(row@).map_values(|v: Json| cell_text(v)),
{
    let mut out: Vec<String> = Vec::new();
    let mut i: usize = 0;
    while i < row.len()
        invariant
            i <= row@.len(),
            out@.len() == i,
            forall|k: int| 0 <= k < i ==> #[trigger] out@[k]@ == cell_text(json::json_of(row@[k])),
        decreases row@.len() - i,
    {
        out.push(json_cell_to_string(&row[i]));
        i = i + 1;
    }
    assert(config::texts(out@) =~= json::jsons_of(row@).map_values(|v: Json| cell_text(v)));
    out
}

fn cells_of_rows(data: &Vec<Vec<serde_json::Value>>) -> (r: Vec<Vec<String>>)
    ensures
        types::cells(r@) == data@.map_values(
            |row: Vec<serde_json::Value>| json::jsons_of(row@),
        ).map_values(|row: Seq<Json>| row.map_values(|v: Json| cell_text(v))),
{
    let mut out: Vec<Vec<String>> = Vec::new();
    let mut i: usize = 0;
    while i < data.len()
        invariant
            i <= data@.len(),
            out@.len() == i,
            forall|k: int|
                0 <= k < i ==> config::texts(#[trigger] out@[k]@) == json::jsons_of(
                    data@[k]@,
                ).map_values(|v: Json| cell_text(v)),
        decreases data@.len() - i,
    {
        out.push(cells_of_row(&data[i]));
        i = i + 1;
    }
    assert(types::cells(out@) =~= data@.map_values(
        |row: Vec<serde_json::Value>| json::jsons_of(row@),
    ).map_values(|row: Seq<Json>| row.map_values(|v: Json| cell_text(v))));
    out
}

/// What a response comes to. `parsed` is the response, or where its text stopped being one.
pub fn parse_taos_json(parsed: Result<RawResponse, JsonFault>) -> (r: TaosResult<TaosExecResult>)
    ensures
        match parsed {
            Ok(raw) => match r {
                Ok(result) => raw@.outcome() == Ok::<ExecView, ErrorView>(result@),
                Err(e) => raw@.outcome() == Err::<ExecView, ErrorView>(e@),
            },
            Err(fault) => r matches Err(e) && e@ == json_error(fault),
        },
{
    let raw = match parsed {
        Ok(raw) => raw,
        Err(fault) => {
            let mut m = String::from("TDengine JSON 解析失败（line ");
            text::push_text(&mut m, number::decimal_usize(fault.line).as_str());
            text::push_text(&mut m, " column ");
            text::push_text(&mut m, number::decimal_usize(fault.column).as_str());
            text::push_text(&mut m, "）");
            return Err(TaosError::Serialization(m));
        },
    };
    if raw.code != 0 {
        let context = match &raw.desc {
            Some(desc) => truncate(desc.as_str(), MAX_DESC_BYTES),
            None => String::new(),
        };
        return Err(TaosError::from_taos_code(raw.code, context.as_str()));
    }
    let columns = names_of_columns(&raw.column_meta);
    let rows = cells_of_rows(&raw.data);
    let ghost row_texts = types::cells(rows@);
    let counted = columns.len() > 0 && text::same(columns[0].as_str(), "affected_rows");
    let affected_rows: Option<i64> = if counted {
        if rows.len() > 0 && rows[0].len() > 0 {
            assert(row_texts[0] == config::texts(rows@[0]@));
            number::parse_signed(rows[0][0].as_str())
        } else {
            if rows.len() > 0 {
                assert(row_texts[0] == config::texts(rows@[0]@));
            }
            None
        }
    } else {
        raw.rows
    };
    Ok(TaosExecResult { code: raw.code, rows, columns, affected_rows })
}

// ---------------------------------------------------------------------------
// The bytes of a response
// ---------------------------------------------------------------------------

#[verifier::external_type_specification]
#[verifier::external_body]
pub struct ExFromUtf8Error(std::string::FromUtf8Error);

/// The text that a [`std::string::FromUtf8Error`] displays as.
pub uninterp spec fn utf8_fault_text(error: std::string::FromUtf8Error) -> Seq<char>;

/// What the error of [`String::from_utf8`] says of bytes that encode no text.
pub uninterp spec fn not_utf8_text(bytes: Seq<u8>) -> Seq<char>;

/// [`String::from_utf8`]: the text that the bytes encode, where they encode one; otherwise an
/// error whose words depend on the bytes alone.
#[verifier::external_body]
pub(crate) fn text_from_utf8(bytes: Vec<u8>) -> (r: Result<String, std::string::FromUtf8Error>)
    ensures
        match r {
            Ok(s) => vstd::utf8::valid_utf8(bytes@) && s@ == vstd::utf8::decode_utf8(bytes@),
            Err(e) => !vstd::utf8::valid_utf8(bytes@) && utf8_fault_text(e) == not_utf8_text(
                bytes@,
            ),
        },
{
    String::from_utf8(bytes)
}

/// `Display` of [`std::string::FromUtf8Error`].
#[verifier::external_body]
pub(crate) fn text_of_utf8_fault(error: &std::string::FromUtf8Error) -> (r: String)
    ensures
        r@ == utf8_fault_text(*error),
{
    error.to_string()
}

/// The bytes of a response while they come in, held to a limit.
pub struct ResponseBody {
    max_bytes: usize,
    body: Vec<u8>,
}

impl ResponseBody {
    /// The limit.
    pub closed spec fn limit(&self) -> usize {
        self.max_bytes
    }

    /// The bytes so far.
    pub closed spec fn bytes(&self) -> Seq<u8> {
        self.body@
    }

    /// The bytes are within the limit.
    pub open spec fn within_limit(&self) -> bool {
        self.bytes().len() <= self.limit()
    }

    /// The error for a response over the limit.
    pub open spec fn too_long(limit: usize) -> ErrorView {
        ErrorView::Unavailable(
            "响应超过 max_response_bytes="@ + number::decimal(limit as int),
        )
    }

    fn over(&self) -> (r: TaosError)
        ensures
            r@ == Self::too_long(self.limit()),
    {
        let mut m = String::from("响应超过 max_response_bytes=");
        text::push_text(&mut m, number::decimal_usize(self.max_bytes).as_str());
        TaosError::Unavailable(m)
    }

    /// No bytes yet.
    pub fn new(max_bytes: usize) -> (r: Self)
        ensures
            r.limit() == max_bytes,
            r.bytes() == Seq::<u8>::empty(),
            r.within_limit(),
    {
        ResponseBody { max_bytes, body: Vec::new() }
    }

    /// Refuses a response whose announced length is over the limit.
    pub fn announce(&self, content_length: Option<u64>) -> (r: TaosResult<()>)
        ensures
            match r {
                Ok(_) => content_length is None || content_length->0 <= self.limit(),
                Err(e) => content_length matches Some(n) && n > self.limit() && e@
                    == Self::too_long(self.limit()),
            },
    {
        match content_length {
            Some(n) => {
                if n > self.max_bytes as u64 {
                    Err(self.over())
                } else {
                    Ok(())
                }
            },
            None => Ok(()),
        }
    }

    /// Takes the next bytes, or refuses them where they would break the limit.
    pub fn push(&mut self, chunk: &[u8]) -> (r: TaosResult<()>)
        requires
            old(self).within_limit(),
        ensures
            final(self).limit() == old(self).limit(),
            final(self).within_limit(),
            match r {
                Ok(_) => final(self).bytes() == old(self).bytes() + chunk@,
                Err(e) => old(self).bytes().len() + chunk@.len() > old(self).limit() && e@
                    == Self::too_long(old(self).limit()) && final(self).bytes()
                    == old(self).bytes(),
            },
    {
        if chunk.len() > self.max_bytes - self.body.len() {
            return Err(self.over());
        }
        let ghost before = self.body@;
        self.body.extend_from_slice(chunk);
        assert(self.body@ =~= before + chunk@);
        Ok(())
    }

    /// The text of the response, where it is UTF-8.
    pub fn finish(self) -> (r: TaosResult<String>)
        ensures
            match r {
                Ok(s) => vstd::utf8::valid_utf8(self.bytes()) && s@ == vstd::utf8::decode_utf8(
                    self.bytes(),
                ),
                Err(TaosError::Serialization(m)) => !vstd::utf8::valid_utf8(self.bytes()) && m@
                    == "响应不是 UTF-8（"@ + not_utf8_text(self.bytes()) + "）"@,
                Err(_) => false,
            },
    {
        match text_from_utf8(self.body) {
            Ok(s) => Ok(s),
            Err(error) => {
                let mut m = String::from("响应不是 UTF-8（");
                text::push_text(&mut m, text_of_utf8_fault(&error).as_str());
                text::push_text(&mut m, "）");
                Err(TaosError::Serialization(m))
            },
        }
    }
}

// ---------------------------------------------------------------------------
// Schema
// ---------------------------------------------------------------------------

/// A row of `DESCRIBE` that tells of a column with this name.
pub open spec fn describes(row: Seq<Seq<char>>, name: Seq<char>) -> bool {
    row.len() >= 3 && text::lowered(text::trimmed(row[0])) == name
}

/// A row of `DESCRIBE` that tells of a text column of at least 64 characters.
pub open spec fn is_wide_text(row: Seq<Seq<char>>) -> bool {
    &&& row.len() >= 3
    &&& text::lowered(text::trimmed(row[1])) == "nchar"@
    &&& number::unsigned(text::trimmed(row[2]), usize::MAX as nat) is Some
    &&& number::unsigned(text::trimmed(row[2]), usize::MAX as nat)->0 >= 64
}

/// The last row that tells of the column tells of a text column of at least 64 characters.
pub open spec fn column_is_wide(rows: Seq<Seq<Seq<char>>>, name: Seq<char>) -> bool
    decreases rows.len(),
{
    if rows.len() == 0 {
        false
    } else if describes(rows.last(), name) {
        is_wide_text(rows.last())
    } else {
        column_is_wide(rows.drop_last(), name)
    }
}

/// The error for a table that would lose digits.
pub open spec fn schema_error() -> ErrorView {
    ErrorView::Backend {
        code: 0,
        message: "TDengine schema 不兼容：bid/ask 必须为 NCHAR(64+)；拒绝 DOUBLE 精度降级"@,
    }
}

fn wide_text(row: &Vec<String>) -> (r: bool)
    requires
        row@.len() >= 3,
    ensures
        r == is_wide_text(config::texts(row@)),
{
    let data_type = text::lowercase(text::trim(row[1].as_str()).as_str());
    let length = number::parse_unsigned(
        text::trim(row[2].as_str()).as_str(),
        usize::MAX as u64,
    );
    text::same(data_type.as_str(), "nchar") && (match length {
        Some(n) => n >= 64,
        None => false,
    })
}

/// Accepts what `DESCRIBE` says of a table only where `bid` and `ask` are `NCHAR(64)` or wider:
/// any other type would lose digits.
pub fn validate_decimal_schema(result: &TaosExecResult) -> (r: TaosResult<()>)
    ensures
        match r {
            Ok(_) => column_is_wide(result@.rows, "bid"@) && column_is_wide(
                result@.rows,
                "ask"@,
            ),
            Err(e) => !(column_is_wide(result@.rows, "bid"@) && column_is_wide(
                result@.rows,
                "ask"@,
            )) && e@ == schema_error(),
        },
{
    let ghost rows = result@.rows;
    let mut bid_ok: bool = false;
    let mut ask_ok: bool = false;
    let mut i: usize = 0;
    assert(rows.take(0) =~= Seq::<Seq<Seq<char>>>::empty());
    proof {
        reveal_strlit("bid");
        reveal_strlit("ask");
        assert("bid"@[0] != "ask"@[0]);
    }
    while i < result.rows.len()
        invariant
            i <= result.rows@.len(),
            rows == result@.rows,
            "bid"@ != "ask"@,
            bid_ok == column_is_wide(rows.take(i as int), "bid"@),
            ask_ok == column_is_wide(rows.take(i as int), "ask"@),
        decreases result.rows@.len() - i,
    {
        let row = &result.rows[i];
        assert(rows.take(i + 1).drop_last() =~= rows.take(i as int));
        assert(rows[i as int] == config::texts(row@));
        if row.len() >= 3 {
            let field = text::lowercase(text::trim(row[0].as_str()).as_str());
            let exact = wide_text(row);
            if text::same(field.as_str(), "bid") {
                bid_ok = exact;
            } else if text::same(field.as_str(), "ask") {
                ask_ok = exact;
            }
        }
        i = i + 1;
    }
    assert(rows.take(i as int) =~= rows);
    if !bid_ok || !ask_ok {
        return Err(
            TaosError::backend(
                "TDengine schema 不兼容：bid/ask 必须为 NCHAR(64+)；拒绝 DOUBLE 精度降级",
            ),
        );
    }
    Ok(())
}

// ---------------------------------------------------------------------------
// Time stamps
// ---------------------------------------------------------------------------

/// A moment: nanoseconds since the epoch where `i64` holds them, and whole seconds.
pub type Moment = (Option<i64>, i64);

/// What `chrono::DateTime::parse_from_rfc3339` makes of a text: the moment's
/// `timestamp_nanos_opt` and `timestamp`.
pub uninterp spec fn rfc3339_moment(text: Seq<char>) -> Option<Moment>;

/// `chrono::DateTime::parse_from_rfc3339`.
#[verifier::external_body]
pub(crate) fn parse_rfc3339(text: &str) -> (r: Option<Moment>)
    ensures
        r == rfc3339_moment(text@),
{
    match chrono::DateTime::parse_from_rfc3339(text) {
        Ok(time) => Some((time.timestamp_nanos_opt(), time.timestamp())),
        Err(_) => None,
    }
}

/// What `<chrono::DateTime<Utc> as FromStr>::from_str` makes of a text: the moment's
/// `timestamp_nanos_opt` and `timestamp`.
pub uninterp spec fn utc_moment(text: Seq<char>) -> Option<Moment>;

/// `<chrono::DateTime<Utc> as FromStr>::from_str`.
#[verifier::external_body]
pub(crate) fn parse_utc(text: &str) -> (r: Option<Moment>)
    ensures
        r == utc_moment(text@),
{
    match text.parse::<chrono::DateTime<chrono::Utc>>() {
        Ok(time) => Some((time.timestamp_nanos_opt(), time.timestamp())),
        Err(_) => None,
    }
}

/// The nanoseconds of a moment, held to the range of `i64`.
pub open spec fn moment_nanos(moment: Moment) -> int {
    match moment.0 {
        Some(n) => n as int,
        None => config::enums::saturated(moment.1 * 1_000_000_000),
    }
}

/// What a time-stamp cell denotes, where the date in it was read as `rfc3339` or as `utc`.
pub open spec fn cell_nanos(
    raw: Seq<char>,
    precision: TsPrecision,
    rfc3339: Option<Moment>,
    utc: Option<Moment>,
) -> Option<int> {
    match number::signed(raw) {
        Some(n) => Some(precision.nanos(n)),
        None => match rfc3339 {
            Some(moment) => Some(moment_nanos(moment)),
            None => match utc {
                Some(moment) => Some(moment_nanos(moment)),
                None => None,
            },
        },
    }
}

/// The nanoseconds of the moment, held to the range of `i64`.
fn nanos_of_moment(moment: Moment) -> (r: i64)
    ensures
        r == moment_nanos(moment),
{
    match moment.0 {
        Some(n) => n,
        None => config::enums::multiply(moment.1, 1_000_000_000),
    }
}

/// The time stamp in a cell, given the moments that were read from it as a date: a number is in
/// the unit of the database, and goes before any date.
pub fn ts_cell_nanos(
    raw: &str,
    precision: TsPrecision,
    rfc3339: Option<Moment>,
    utc: Option<Moment>,
) -> (r: TaosResult<i64>)
    ensures
        match r {
            Ok(n) => cell_nanos(raw@, precision, rfc3339, utc) == Some(n as int),
            Err(TaosError::Invalid(m)) => cell_nanos(raw@, precision, rfc3339, utc) is None && m@
                == "无法解析时间戳: "@ + raw@,
            Err(_) => false,
        },
{
    match number::parse_signed(raw) {
        Some(n) => {
            return Ok(precision.to_nanos(n));
        },
        None => {},
    }
    match rfc3339 {
        Some(moment) => {
            return Ok(nanos_of_moment(moment));
        },
        None => {},
    }
    match utc {
        Some(moment) => {
            return Ok(nanos_of_moment(moment));
        },
        None => {},
    }
    let mut m = String::from("无法解析时间戳: ");
    text::push_text(&mut m, raw);
    Err(TaosError::Invalid(m))
}

/// The time stamp in a cell, in nanoseconds: a number in the unit of the database, or a date.
pub fn parse_ts_cell(raw: &str, precision: TsPrecision) -> (r: TaosResult<i64>)
    ensures
        match r {
            Ok(n) => cell_nanos(raw@, precision, rfc3339_moment(raw@), utc_moment(raw@)) == Some(
                n as int,
            ),
            Err(TaosError::Invalid(m)) => cell_nanos(
                raw@,
                precision,
                rfc3339_moment(raw@),
                utc_moment(raw@),
            ) is None && m@ == "无法解析时间戳: "@ + raw@,
            Err(_) => false,
        },
{
    ts_cell_nanos(raw, precision, parse_rfc3339(raw), parse_utc(raw))
}

// ---------------------------------------------------------------------------
// Laws
// ---------------------------------------------------------------------------

/// A shortened text takes at most three bytes more than the limit: those of the `…` that says
/// something is missing.
pub proof fn law_shortened_keeps_the_limit(s: Seq<char>, max: nat)
    ensures
        text::byte_len(shortened(s, max)) <= max + 3,
        !shortened(s, max).contains('\n'),
{
    let line = one_line(text::trimmed(s));
    lemma_fitting_fits(line, max);
    let cut = fitting(line, max);
    assert forall|i: int| 0 <= i < line.len() implies #[trigger] line[i] != '\n' by {}
    if text::byte_len(line) > max {
        text::lemma_encode_concat(cut, seq!['…']);
        assert(cut.push('…') =~= cut + seq!['…']);
        assert(text::byte_len(seq!['…']) == 3) by {
            reveal_with_fuel(vstd::utf8::encode_utf8, 2);
            assert(seq!['…'].drop_first() =~= Seq::<char>::empty());
        }
    }
}

proof fn lemma_fitting_fits(s: Seq<char>, max: nat)
    ensures
        text::byte_len(fitting(s, max)) <= max,
        fitting(s, max).len() <= s.len(),
        forall|i: int| 0 <= i < fitting(s, max).len() ==> #[trigger] fitting(s, max)[i] == s[i],
    decreases s.len(),
{
    if s.len() > 0 && text::byte_len(s) > max {
        lemma_fitting_fits(s.drop_last(), max);
    }
}

/// A time stamp that was written as a number is read as the time it was made of.
pub proof fn law_written_timestamp_reads_back(
    timestamp_ns: int,
    precision: TsPrecision,
    rfc3339: Option<Moment>,
    utc: Option<Moment>,
)
    requires
        i64::MIN <= timestamp_ns <= i64::MAX,
        super::sql::is_lossless(timestamp_ns, precision),
    ensures
        cell_nanos(
            number::decimal(precision.stored(timestamp_ns)),
            precision,
            rfc3339,
            utc,
        ) == Some(timestamp_ns),
{
    let stored = precision.stored(timestamp_ns);
    assert(i64::MIN <= stored <= i64::MAX);
    number::law_signed_reads_decimal(stored);
}

/// The columns are named in the order in which the response describes them: the names of two runs
/// of descriptions are those of the first, and then those of the second.
pub proof fn law_columns_keep_their_order(a: Seq<Json>, b: Seq<Json>)
    ensures
        column_names(a + b) == column_names(a) + column_names(b),
    decreases b.len(),
{
    if b.len() == 0 {
        assert(a + b =~= a);
        assert(column_names(a) + column_names(b) =~= column_names(a));
    } else {
        assert((a + b).drop_last() =~= a + b.drop_last());
        assert((a + b).last() == b.last());
        law_columns_keep_their_order(a, b.drop_last());
        assert(column_names(a + b) =~= column_names(a) + column_names(b));
    }
}

proof fn lemma_columns_are_named(metas: Seq<Json>, names: Seq<Seq<char>>)
    requires
        names.len() == metas.len(),
        forall|i: int|
            0 <= i < metas.len() ==> (#[trigger] metas[i] matches Json::Array(items)
                && items.len() > 0 && items[0] == Json::Text(names[i])),
    ensures
        column_names(metas) == names,
    decreases metas.len(),
{
    if metas.len() > 0 {
        let n = metas.len() - 1;
        assert(metas[n] matches Json::Array(items) && items[0] == Json::Text(names[n]));
        assert forall|i: int| 0 <= i < n implies (#[trigger] metas.drop_last()[i] matches Json::Array(
            items,
        ) && items.len() > 0 && items[0] == Json::Text(names.drop_last()[i])) by {
            assert(metas.drop_last()[i] == metas[i]);
        }
        lemma_columns_are_named(metas.drop_last(), names.drop_last());
        assert(names.drop_last().push(names[n]) =~= names);
    } else {
        assert(names =~= Seq::<Seq<char>>::empty());
    }
}

/// A result is laid out as its response: where each description of a column starts with a name, the
/// columns have these names, one each, in order; there is a row for each row and a cell for each
/// value, at the same place; and a cell says what the value is: the text itself, the notation of
/// a number, nothing for `null`, `true` or `false`.
pub proof fn law_result_is_laid_out_as_its_response(raw: RawView, names: Seq<Seq<char>>)
    requires
        raw.code == 0,
        names.len() == raw.column_meta.len(),
        forall|i: int|
            0 <= i < names.len() ==> (#[trigger] raw.column_meta[i] matches Json::Array(items)
                && items.len() > 0 && items[0] == Json::Text(names[i])),
    ensures
        raw.outcome() is Ok,
        ({
            let result = raw.outcome()->Ok_0;
            &&& result.code == 0
            &&& result.columns == names
            &&& result.rows.len() == raw.data.len()
            &&& forall|i: int|
                0 <= i < raw.data.len() ==> (#[trigger] result.rows[i]).len() == raw.data[i].len()
            &&& forall|i: int, j: int|
                0 <= i < raw.data.len() && 0 <= j < raw.data[i].len() ==> match raw.data[i][j] {
                    Json::Text(s) => #[trigger] result.rows[i][j] == s,
                    Json::Number(notation, _) => result.rows[i][j] == notation,
                    Json::Null => result.rows[i][j].len() == 0,
                    Json::Bool(b) => result.rows[i][j] == (if b {
                        "true"@
                    } else {
                        "false"@
                    }),
                    other => result.rows[i][j] == json::json_text(other),
                }
        }),
{
    lemma_columns_are_named(raw.column_meta, names);
}

/// A response that counts what it changed is read so: where its first column is `affected_rows`,
/// the count is the number in the first cell; where it is not, the count is what the response says
/// of its rows.
pub proof fn law_affected_rows_are_read(raw: RawView, names: Seq<Seq<char>>, n: i64, whole: Option<i64>)
    requires
        raw.code == 0,
        names.len() == raw.column_meta.len(),
        forall|i: int|
            0 <= i < names.len() ==> (#[trigger] raw.column_meta[i] matches Json::Array(items)
                && items.len() > 0 && items[0] == Json::Text(names[i])),
    ensures
        ({
            let result = raw.outcome()->Ok_0;
            &&& names.len() > 0 && names[0] == "affected_rows"@ && raw.data.len() > 0
                && raw.data[0].len() > 0 && raw.data[0][0] == Json::Number(
                number::decimal(n as int),
                whole,
            ) ==> result.affected_rows == Some(n)
            &&& names.len() == 0 || names[0] != "affected_rows"@ ==> result.affected_rows
                == raw.rows
        }),
{
    lemma_columns_are_named(raw.column_meta, names);
    number::law_signed_reads_decimal(n as int);
}

/// A response with another code than zero is an error that tells the code and what the server says
/// of it, and no result, whatever else the response holds.
pub proof fn law_refused_response_is_an_error(a: RawView, b: RawView)
    requires
        a.code != 0,
        b.code == a.code,
        b.desc == a.desc,
    ensures
        a.outcome() is Err,
        b.outcome() == a.outcome(),
        a.desc is None ==> a.outcome()->Err_0.message() == "taos code="@ + number::decimal(
            a.code as int,
        ),
        (a.desc matches Some(s) && shortened(s, 256).len() > 0) ==> a.outcome()->Err_0.message()
            == "taos code="@ + number::decimal(a.code as int) + ": "@ + shortened(a.desc->0, 256),
{
}

/// A text that fits on one line is kept; of any other, the first characters are kept, as many as
/// fit, and a `…` says that there were more.
pub proof fn law_shortened_keeps_the_start(s: Seq<char>, max: nat) -> (k: int)
    ensures
        ({
            let line = text::trimmed(s);
            let whole = forall|i: int| 0 <= i < line.len() ==> #[trigger] line[i] != '\n';
            &&& whole && text::byte_len(line) <= max ==> shortened(s, max) == line
            &&& whole && text::byte_len(line) > max ==> {
                &&& 0 <= k < line.len()
                &&& shortened(s, max) == line.take(k).push('…')
                &&& text::byte_len(line.take(k)) <= max < text::byte_len(line.take(k + 1))
            }
        }),
{
    let line = text::trimmed(s);
    if forall|i: int| 0 <= i < line.len() ==> #[trigger] line[i] != '\n' {
        assert(one_line(line) =~= line);
        if text::byte_len(line) > max {
            lemma_cut(line, max)
        } else {
            0
        }
    } else {
        0
    }
}

/// Where the longest beginning that fits ends.
proof fn lemma_cut(s: Seq<char>, max: nat) -> (k: int)
    requires
        text::byte_len(s) > max,
    ensures
        0 <= k < s.len(),
        fitting(s, max) == s.take(k),
        text::byte_len(s.take(k)) <= max < text::byte_len(s.take(k + 1)),
    decreases s.len(),
{
    if s.len() == 0 {
        assert(s =~= Seq::<char>::empty());
        0
    } else {
        let t = s.drop_last();
        assert(s.take(s.len() as int) =~= s);
        if text::byte_len(t) <= max {
            assert(fitting(t, max) == t);
            assert(t =~= s.take(s.len() - 1));
            s.len() - 1
        } else {
            let k = lemma_cut(t, max);
            assert(t.take(k) =~= s.take(k));
            assert(t.take(k + 1) =~= s.take(k + 1));
            k
        }
    }
}

/// A cell with a date is read as its moment, to the nanosecond where a time stamp can hold it, and
/// otherwise as the nearest time stamp; a cell with a number is never taken for a date.
pub proof fn law_dates_are_read_to_the_nanosecond(
    raw: Seq<char>,
    precision: TsPrecision,
    nanos: i64,
    seconds: i64,
    utc: Option<Moment>,
)
    requires
        number::signed(raw) is None,
    ensures
        cell_nanos(raw, precision, Some((Some(nanos), seconds)), utc) == Some(nanos as int),
        cell_nanos(raw, precision, None, Some((Some(nanos), seconds))) == Some(nanos as int),
        cell_nanos(raw, precision, None, None) is None,
        seconds > 9_223_372_036 ==> cell_nanos(raw, precision, Some((None, seconds)), utc) == Some(
            i64::MAX as int,
        ),
        seconds < -9_223_372_037 ==> cell_nanos(raw, precision, Some((None, seconds)), utc) == Some(
            i64::MIN as int,
        ),
{
}

/// Of a column that is described more than once the last description counts, and a column is wide
/// exactly where that says `NCHAR`, in any case, of sixty-four characters or more.
pub proof fn law_wide_columns_are_long_texts(
    rows: Seq<Seq<Seq<char>>>,
    name: Seq<char>,
    i: int,
    length: nat,
)
    requires
        0 <= i < rows.len(),
        rows[i].len() >= 3,
        text::lowered(text::trimmed(rows[i][0])) == name,
        rows[i][2] == number::decimal(length as int),
        length <= usize::MAX,
        forall|k: int|
            i < k < rows.len() ==> (#[trigger] rows[k]).len() < 3 || text::lowered(
                text::trimmed(rows[k][0]),
            ) != name,
    ensures
        column_is_wide(rows, name) == (text::lowered(text::trimmed(rows[i][1])) == "nchar"@
            && length >= 64),
    decreases rows.len(),
{
    let n = rows.len() - 1;
    if i < n {
        let before = rows.drop_last();
        assert(rows.last() == rows[n]);
        assert forall|k: int| i < k < before.len() implies (#[trigger] before[k]).len() < 3
            || text::lowered(text::trimmed(before[k][0])) != name by {
            assert(before[k] == rows[k]);
        }
        law_wide_columns_are_long_texts(before, name, i, length);
    } else {
        let size = number::decimal(length as int);
        number::law_unsigned_reads_decimal(length, usize::MAX as nat);
        number::lemma_digits_denote(length);
        assert(text::is_digit(size[0]));
        assert(text::is_digit(size[size.len() - 1]));
        assert(text::trimmed(size) == size);
    }
}

/// A table without a description of a column is not fit: the column is not there.
pub proof fn law_missing_columns_are_not_wide(rows: Seq<Seq<Seq<char>>>, name: Seq<char>)
    requires
        forall|k: int|
            0 <= k < rows.len() ==> (#[trigger] rows[k]).len() < 3 || text::lowered(
                text::trimmed(rows[k][0]),
            ) != name,
    ensures
        !column_is_wide(rows, name),
    decreases rows.len(),
{
    if rows.len() > 0 {
        let before = rows.drop_last();
        assert(rows.last() == rows[rows.len() - 1]);
        assert forall|k: int| 0 <= k < before.len() implies (#[trigger] before[k]).len() < 3
            || text::lowered(text::trimmed(before[k][0])) != name by {
            assert(before[k] == rows[k]);
        }
        law_missing_columns_are_not_wide(before, name);
    }
}

/// On one line every line end is a blank, and nothing else changes.
pub proof fn law_line_ends_become_blanks(s: Seq<char>, i: int)
    requires
        0 <= i < s.len(),
    ensures
        one_line(s).len() == s.len(),
        s[i] == '\n' ==> one_line(s)[i] == ' ',
        s[i] != '\n' ==> one_line(s)[i] == s[i],
        !one_line(s).contains('\n'),
{
}

/// A response that is no JSON of a response gives an error that no retry mends, and tells the line
/// and the column where it stopped being one.
pub proof fn law_parse_fault_tells_where(fault: JsonFault)
    ensures
        json_error(fault) is Serialization,
        text::holds(
            json_error(fault).message(),
            "line "@ + number::decimal(fault.line as int) + " "@,
        ),
        text::holds(
            json_error(fault).message(),
            "column "@ + number::decimal(fault.column as int) + "）"@,
        ),
{
    reveal_strlit("TDengine JSON 解析失败（line ");
    reveal_strlit("TDengine JSON 解析失败（");
    reveal_strlit("line ");
    reveal_strlit(" column ");
    reveal_strlit("column ");
    reveal_strlit(" ");
    let m = json_error(fault).message();
    let line = number::decimal(fault.line as int);
    let column = number::decimal(fault.column as int);
    text::lemma_holds(
        m,
        "TDengine JSON 解析失败（"@,
        "line "@ + line + " "@,
        "column "@ + column + "）"@,
    );
    text::lemma_holds(
        m,
        "TDengine JSON 解析失败（line "@ + line + " "@,
        "column "@ + column + "）"@,
        Seq::empty(),
    );
}

/// A table that would lose digits stays unfit: the error is an answer of the server with the code
/// `0`, so it is not worth a retry and does not say that the table is missing. A response over the
/// limit is worth one, and tells the limit.
pub proof fn law_unfit_tables_and_long_responses(limit: usize)
    ensures
        schema_error().taos_code() == Some(0i32),
        !schema_error().is_retryable(),
        !schema_error().is_not_found(),
        ResponseBody::too_long(limit) is Unavailable,
        ("="@ + number::decimal(limit as int)).is_suffix_of(ResponseBody::too_long(limit).message()),
{
    reveal_strlit("响应超过 max_response_bytes=");
    reveal_strlit("=");
    let m = ResponseBody::too_long(limit).message();
    let end = "="@ + number::decimal(limit as int);
    assert(m.subrange(m.len() - end.len(), m.len() as int) =~= end);
}

} // verus!
