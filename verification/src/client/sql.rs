//! Building SQL: identifiers, string literals, time stamps, and `INSERT` statements in chunks.

use vstd::prelude::*;

use crate::config::{TsPrecision, HARD_MAX_BATCH_BYTES, HARD_MAX_BATCH_ROWS, MAX_IDENT_BYTES};
use crate::error::{TaosError, TaosResult};
use crate::number;
use crate::point::TaosPoint;
use crate::text;

verus! {

/// What every `INSERT` starts with.
pub const INSERT_PREFIX: &'static str = "INSERT INTO ";

/// The most bytes of a super table's name.
pub const MAX_STABLE_NAME_BYTES: usize = 94;

/// The most bytes of a tag value, which enters the sub-table's name in hexadecimal.
pub const MAX_SYMBOL_BYTES: usize = 48;

// ---------------------------------------------------------------------------
// Identifiers
// ---------------------------------------------------------------------------

/// A character that an identifier may start with.
pub open spec fn starts_ident(c: char) -> bool {
    text::is_letter(c) || c == '_'
}

/// A character that an identifier may go on with.
pub open spec fn continues_ident(c: char) -> bool {
    text::is_alphanumeric(c) || c == '_'
}

/// A letter or an underscore, followed by letters, digits and underscores.
pub open spec fn is_word(name: Seq<char>) -> bool {
    &&& name.len() > 0
    &&& starts_ident(name[0])
    &&& forall|i: int| 1 <= i < name.len() ==> continues_ident(#[trigger] name[i])
}

/// Why a name is no identifier; `None` for an identifier.
pub open spec fn ident_fault(name: Seq<char>) -> Option<Seq<char>> {
    if name.len() == 0 || text::byte_len(name) > MAX_IDENT_BYTES {
        Some("非法标识符长度"@)
    } else if !starts_ident(name[0]) {
        Some("标识符须以字母或下划线开头"@)
    } else if !is_word(name) {
        Some("标识符含非法字符"@)
    } else {
        None
    }
}

/// Why a name is no super table's; `None` for a valid one.
pub open spec fn stable_fault(name: Seq<char>) -> Option<Seq<char>> {
    if ident_fault(name) is Some {
        ident_fault(name)
    } else if text::byte_len(name) > MAX_STABLE_NAME_BYTES {
        Some("stable 名称超过 "@ + number::decimal(MAX_STABLE_NAME_BYTES as int) + " 字节"@)
    } else {
        None
    }
}

/// The first character that is none of an identifier, from the second on.
fn rest_is_word(chars: &Vec<char>) -> (r: bool)
    requires
        chars@.len() > 0,
    ensures
        r == (forall|i: int| 1 <= i < chars@.len() ==> continues_ident(#[trigger] chars@[i])),
{
    let mut i: usize = 1;
    while i < chars.len()
        invariant
            1 <= i <= chars@.len(),
            forall|k: int| 1 <= k < i ==> continues_ident(#[trigger] chars@[k]),
        decreases chars.len() - i,
    {
        let c = chars[i];
        if !(text::alphanumeric(c) || c == '_') {
            assert(!continues_ident(chars@[i as int]));
            return false;
        }
        i = i + 1;
    }
    true
}

/// Whether a text is a letter or an underscore, followed by letters, digits and underscores.
pub fn word(name: &str) -> (r: bool)
    ensures
        r == is_word(name@),
{
    let chars = text::chars_of(name);
    if chars.len() == 0 {
        return false;
    }
    let first = chars[0];
    (text::letter(first) || first == '_') && rest_is_word(&chars)
}

/// Refuses what is no SQL identifier. The name itself does not enter the message.
pub fn validate_ident(name: &str) -> (r: TaosResult<()>)
    ensures
        match r {
            Ok(_) => ident_fault(name@) is None,
            Err(TaosError::Invalid(m)) => ident_fault(name@) == Some(m@),
            Err(_) => false,
        },
{
    if name.is_empty() || text::bytes_of(name) > MAX_IDENT_BYTES {
        return Err(TaosError::Invalid(String::from("非法标识符长度")));
    }
    let chars = text::chars_of(name);
    let first = chars[0];
    if !(text::letter(first) || first == '_') {
        return Err(TaosError::Invalid(String::from("标识符须以字母或下划线开头")));
    }
    if !rest_is_word(&chars) {
        return Err(TaosError::Invalid(String::from("标识符含非法字符")));
    }
    Ok(())
}

/// Refuses what is no super table's name.
pub fn validate_stable_ident(name: &str) -> (r: TaosResult<()>)
    ensures
        match r {
            Ok(_) => stable_fault(name@) is None,
            Err(TaosError::Invalid(m)) => stable_fault(name@) == Some(m@),
            Err(_) => false,
        },
{
    match validate_ident(name) {
        Ok(_) => {},
        Err(e) => {
            return Err(e);
        },
    }
    if text::bytes_of(name) > MAX_STABLE_NAME_BYTES {
        let mut m = String::from("stable 名称超过 ");
        text::push_text(&mut m, number::decimal_usize(MAX_STABLE_NAME_BYTES).as_str());
        text::push_text(&mut m, " 字节");
        return Err(TaosError::Invalid(m));
    }
    Ok(())
}

// ---------------------------------------------------------------------------
// Sub-table names
// ---------------------------------------------------------------------------

/// The character for a hexadecimal digit value below sixteen.
pub open spec fn hex_char(d: nat) -> char {
    if d < 10 {
        (48 + d) as char
    } else {
        (87 + d) as char
    }
}

/// Two hexadecimal digits for each byte.
pub open spec fn hex(bytes: Seq<u8>) -> Seq<char>
    decreases bytes.len(),
{
    if bytes.len() == 0 {
        Seq::empty()
    } else {
        hex(bytes.drop_last()).push(hex_char(bytes.last() as nat / 16)).push(
            hex_char(bytes.last() as nat % 16),
        )
    }
}

/// The name of the sub-table for a tag value: the super table's name, `_s`, and the value's
/// bytes in hexadecimal.
pub open spec fn subtable(stable: Seq<char>, tag: Seq<char>) -> Seq<char> {
    stable + "_s"@ + hex(vstd::utf8::encode_utf8(tag))
}

/// The message for a tag value that is too long.
pub open spec fn tag_too_long() -> Seq<char> {
    "tag 值超过 "@ + number::decimal(MAX_SYMBOL_BYTES as int) + " UTF-8 字节"@
}

fn hex_digit(d: u8) -> (r: char)
    requires
        d < 16,
    ensures
        r == hex_char(d as nat),
{
    if d < 10 {
        (48 + d) as char
    } else {
        (87 + d) as char
    }
}

fn push_hex(out: &mut String, s: &str)
    ensures
        final(out)@ == old(out)@ + hex(vstd::utf8::encode_utf8(s@)),
{
    let bytes = s.as_bytes();
    let ghost before = out@;
    let mut i: usize = 0;
    assert(out@ =~= before + hex(bytes@.take(0)));
    while i < bytes.len()
        invariant
            i <= bytes@.len(),
            out@ == before + hex(bytes@.take(i as int)),
        decreases bytes@.len() - i,
    {
        let b: u8 = bytes[i];
        out.push(hex_digit(b / 16));
        out.push(hex_digit(b % 16));
        assert(bytes@.take(i + 1).drop_last() =~= bytes@.take(i as int));
        i = i + 1;
        assert(out@ =~= before + hex(bytes@.take(i as int)));
    }
    assert(bytes@.take(i as int) =~= bytes@);
}

proof fn lemma_hex_shape(bytes: Seq<u8>)
    ensures
        hex(bytes).len() == 2 * bytes.len(),
        forall|i: int|
            0 <= i < hex(bytes).len() ==> text::is_alphanumeric(#[trigger] hex(bytes)[i])
                && hex(bytes)[i] != 's',
    decreases bytes.len(),
{
    if bytes.len() > 0 {
        lemma_hex_shape(bytes.drop_last());
    }
}

proof fn lemma_hex_injective(a: Seq<u8>, b: Seq<u8>)
    requires
        hex(a) == hex(b),
    ensures
        a == b,
    decreases a.len(),
{
    lemma_hex_shape(a);
    lemma_hex_shape(b);
    if a.len() > 0 {
        let n = hex(a).len() as int;
        lemma_hex_shape(a.drop_last());
        lemma_hex_shape(b.drop_last());
        assert(hex(a).take(n - 2) =~= hex(a.drop_last()));
        assert(hex(b).take(n - 2) =~= hex(b.drop_last()));
        lemma_hex_injective(a.drop_last(), b.drop_last());
        assert(hex(a)[n - 1] == hex_char(a.last() as nat % 16));
        assert(hex(b)[n - 1] == hex_char(b.last() as nat % 16));
        assert(hex(a)[n - 2] == hex_char(a.last() as nat / 16));
        assert(hex(b)[n - 2] == hex_char(b.last() as nat / 16));
        assert(a =~= a.drop_last().push(a.last()));
        assert(b =~= b.drop_last().push(b.last()));
    } else {
        assert(a =~= b);
    }
}

/// The name of a sub-table is an identifier, whatever the tag value holds.
pub proof fn law_subtable_is_identifier(stable: Seq<char>, tag: Seq<char>)
    requires
        stable_fault(stable) is None,
        text::byte_len(tag) <= MAX_SYMBOL_BYTES,
    ensures
        ident_fault(subtable(stable, tag)) is None,
{
    let bytes = vstd::utf8::encode_utf8(tag);
    let name = subtable(stable, tag);
    reveal_strlit("_s");
    lemma_hex_shape(bytes);
    assert forall|i: int| 1 <= i < name.len() implies continues_ident(#[trigger] name[i]) by {
        if i >= stable.len() + 2 {
            assert(name[i] == hex(bytes)[i - stable.len() - 2]);
        }
    }
    assert forall|i: int| 0 <= i < name.len() implies (#[trigger] name[i] as u32) < 128 by {
        if i == 0 {
            assert(starts_ident(name[0]));
        } else {
            assert(continues_ident(name[i]));
        }
    }
    text::lemma_byte_len_ascii(name);
    assert forall|i: int| 0 <= i < stable.len() implies (#[trigger] stable[i] as u32) < 128 by {
        assert(stable[i] == name[i]);
    }
    text::lemma_byte_len_ascii(stable);
}

/// Distinct tag values have distinct sub-tables, and so have distinct super tables.
pub proof fn law_subtable_is_injective(
    stable: Seq<char>,
    a: Seq<char>,
    other: Seq<char>,
    b: Seq<char>,
)
    requires
        subtable(stable, a) == subtable(other, b),
    ensures
        stable == other,
        a == b,
{
    let x = vstd::utf8::encode_utf8(a);
    let y = vstd::utf8::encode_utf8(b);
    reveal_strlit("_s");
    lemma_hex_shape(x);
    lemma_hex_shape(y);
    let name = subtable(stable, a);
    assert(name.len() == stable.len() + 2 + hex(x).len());
    assert(name.len() == other.len() + 2 + hex(y).len());
    assert(name[stable.len() as int + 1] == 's');
    assert(subtable(other, b)[other.len() as int + 1] == 's');
    if stable.len() < other.len() {
        assert(name[other.len() as int + 1] == hex(x)[other.len() - stable.len() - 1]);
    } else if other.len() < stable.len() {
        assert(subtable(other, b)[stable.len() as int + 1] == hex(y)[stable.len() - other.len() - 1]);
    }
    assert(stable =~= name.take(stable.len() as int));
    assert(other =~= subtable(other, b).take(other.len() as int));
    let n = (stable + "_s"@).len() as int;
    assert(subtable(stable, a).skip(n) =~= hex(x));
    assert(subtable(other, b).skip(n) =~= hex(y));
    lemma_hex_injective(x, y);
    text::lemma_encode_injective(a, b);
}

/// The name of the sub-table for a tag value. The value itself does not enter the identifier.
pub fn subtable_name(stable: &str, tag_value: &str) -> (r: TaosResult<String>)
    ensures
        match r {
            Ok(name) => stable_fault(stable@) is None && text::byte_len(tag_value@)
                <= MAX_SYMBOL_BYTES && name@ == subtable(stable@, tag_value@),
            Err(TaosError::Invalid(m)) => if stable_fault(stable@) is Some {
                stable_fault(stable@) == Some(m@)
            } else {
                text::byte_len(tag_value@) > MAX_SYMBOL_BYTES && m@ == tag_too_long()
            },
            Err(_) => false,
        },
{
    match validate_stable_ident(stable) {
        Ok(_) => {},
        Err(e) => {
            return Err(e);
        },
    }
    if text::bytes_of(tag_value) > MAX_SYMBOL_BYTES {
        let mut m = String::from("tag 值超过 ");
        text::push_text(&mut m, number::decimal_usize(MAX_SYMBOL_BYTES).as_str());
        text::push_text(&mut m, " UTF-8 字节");
        return Err(TaosError::Invalid(m));
    }
    let mut name = String::from(stable);
    text::push_text(&mut name, "_s");
    push_hex(&mut name, tag_value);
    proof {
        law_subtable_is_identifier(stable@, tag_value@);
    }
    match validate_ident(name.as_str()) {
        Ok(_) => Ok(name),
        Err(e) => Err(e),
    }
}

// ---------------------------------------------------------------------------
// String literals
// ---------------------------------------------------------------------------

/// A character inside a quoted literal.
pub open spec fn escaped_char(c: char) -> Seq<char> {
    if c == '\\' {
        seq!['\\', '\\']
    } else if c == '\'' {
        seq!['\\', '\'']
    } else if c == '\0' {
        seq!['\\', '0']
    } else {
        seq![c]
    }
}

/// A text inside a quoted literal.
pub open spec fn escaped(s: Seq<char>) -> Seq<char>
    decreases s.len(),
{
    if s.len() == 0 {
        Seq::empty()
    } else {
        escaped(s.drop_last()) + escaped_char(s.last())
    }
}

/// The text of a string literal, between its quotes: a backslash, a quote and a NUL are written
/// with a backslash before them.
pub fn escape_str(value: &str) -> (r: String)
    ensures
        r@ == escaped(value@),
{
    let chars = text::chars_of(value);
    let mut out = String::new();
    let mut i: usize = 0;
    while i < chars.len()
        invariant
            i <= chars@.len(),
            chars@ == value@,
            out@ == escaped(value@.take(i as int)),
        decreases chars@.len() - i,
    {
        let c = chars[i];
        assert(value@.take(i + 1).drop_last() =~= value@.take(i as int));
        if c == '\\' {
            out.push('\\');
            out.push('\\');
        } else if c == '\'' {
            out.push('\\');
            out.push('\'');
        } else if c == '\0' {
            out.push('\\');
            out.push('0');
        } else {
            out.push(c);
        }
        i = i + 1;
        assert(out@ =~= escaped(value@.take(i as int)));
    }
    assert(value@.take(i as int) =~= value@);
    out
}

/// How a reader of SQL takes the text after an opening quote: the value, and what follows the
/// closing quote. A backslash takes the next character with it.
pub open spec fn read_literal(s: Seq<char>) -> Option<(Seq<char>, Seq<char>)>
    decreases s.len(),
{
    if s.len() == 0 {
        None
    } else if s[0] == '\'' {
        Some((Seq::empty(), s.skip(1)))
    } else if s[0] == '\\' {
        if s.len() == 1 {
            None
        } else {
            match read_literal(s.skip(2)) {
                Some((value, rest)) => Some(
                    (
                        seq![
                            if s[1] == '0' {
                                '\0'
                            } else {
                                s[1]
                            },
                        ] + value,
                        rest,
                    ),
                ),
                None => None,
            }
        }
    } else {
        match read_literal(s.skip(1)) {
            Some((value, rest)) => Some((seq![s[0]] + value, rest)),
            None => None,
        }
    }
}

proof fn lemma_escaped_head(s: Seq<char>)
    requires
        s.len() > 0,
    ensures
        escaped(s) == escaped_char(s[0]) + escaped(s.skip(1)),
    decreases s.len(),
{
    if s.len() == 1 {
        assert(s.drop_last() =~= Seq::<char>::empty());
        assert(s.skip(1) =~= Seq::<char>::empty());
        assert(escaped(s) =~= escaped_char(s[0]) + escaped(s.skip(1)));
    } else {
        lemma_escaped_head(s.drop_last());
        assert(s.skip(1).drop_last() =~= s.drop_last().skip(1));
        assert(escaped(s) =~= escaped_char(s[0]) + escaped(s.skip(1)));
    }
}

/// An escaped literal is read back as the value it was made of, and ends at its own closing
/// quote: nothing in the value can end it earlier and be taken for SQL.
pub proof fn law_literal_reads_back(value: Seq<char>, rest: Seq<char>)
    ensures
        read_literal(escaped(value) + seq!['\''] + rest) == Some((value, rest)),
    decreases value.len(),
{
    let s = escaped(value) + seq!['\''] + rest;
    if value.len() == 0 {
        assert(s.skip(1) =~= rest);
        assert(value =~= Seq::<char>::empty());
    } else {
        lemma_escaped_head(value);
        let tail = value.skip(1);
        law_literal_reads_back(tail, rest);
        let head = escaped_char(value[0]);
        assert(s.skip(head.len() as int) =~= escaped(tail) + seq!['\''] + rest);
        assert(seq![value[0]] + tail =~= value);
    }
}

// ---------------------------------------------------------------------------
// Time stamps
// ---------------------------------------------------------------------------

/// A time in nanoseconds keeps its value at a precision.
pub open spec fn is_lossless(timestamp_ns: int, precision: TsPrecision) -> bool {
    precision.nanos(precision.stored(timestamp_ns)) == timestamp_ns
}

/// The message for a time stamp that would lose digits.
pub open spec fn timestamp_fault(timestamp_ns: int, precision: TsPrecision) -> Seq<char> {
    "时间戳 "@ + number::decimal(timestamp_ns) + " ns 无法无损表示为 "@ + precision.name()
        + " 精度（请对齐精度或改用 ns 库）"@
}

/// A time in nanoseconds as the database stores it; one that does not fit the precision is
/// refused.
pub fn encode_timestamp(timestamp_ns: i64, precision: TsPrecision) -> (r: TaosResult<i64>)
    ensures
        match r {
            Ok(stored) => is_lossless(timestamp_ns as int, precision) && stored
                == precision.stored(timestamp_ns as int),
            Err(TaosError::Invalid(m)) => !is_lossless(timestamp_ns as int, precision) && m@
                == timestamp_fault(timestamp_ns as int, precision),
            Err(_) => false,
        },
{
    let stored: i64 = precision.from_nanos(timestamp_ns);
    if precision.to_nanos(stored) != timestamp_ns {
        let mut m = String::from("时间戳 ");
        text::push_text(&mut m, number::decimal_i64(timestamp_ns).as_str());
        text::push_text(&mut m, " ns 无法无损表示为 ");
        text::push_text(&mut m, precision.as_str());
        text::push_text(&mut m, " 精度（请对齐精度或改用 ns 库）");
        return Err(TaosError::Invalid(m));
    }
    Ok(stored)
}

// ---------------------------------------------------------------------------
// Chunk size hints
// ---------------------------------------------------------------------------

/// Refuses a chunk size of zero.
pub fn validate_chunk_hint(chunk_hint: usize) -> (r: TaosResult<()>)
    ensures
        match r {
            Ok(_) => chunk_hint >= 1,
            Err(TaosError::Invalid(m)) => chunk_hint == 0 && m@ == "chunk_hint 必须 ≥ 1"@,
            Err(_) => false,
        },
{
    if chunk_hint == 0 {
        return Err(TaosError::Invalid(String::from("chunk_hint 必须 ≥ 1")));
    }
    Ok(())
}

// ---------------------------------------------------------------------------
// Laws
// ---------------------------------------------------------------------------

/// An identifier is made of ASCII letters, digits and underscores, does not start with a digit, and
/// has one to one hundred and ninety-two characters. So there is nothing in one that could end it
/// or be taken for SQL.
pub proof fn law_identifiers(name: Seq<char>)
    ensures
        (ident_fault(name) is None) == (1 <= name.len() <= 192 && !('0' <= name[0] <= '9') && (
        forall|i: int|
            0 <= i < name.len() ==> 'a' <= #[trigger] name[i] <= 'z' || 'A' <= name[i] <= 'Z' || '0'
                <= name[i] <= '9' || name[i] == '_')),
        (stable_fault(name) is None) == (ident_fault(name) is None && name.len() <= 94),
{
    let plain = forall|i: int|
        0 <= i < name.len() ==> 'a' <= #[trigger] name[i] <= 'z' || 'A' <= name[i] <= 'Z' || '0'
            <= name[i] <= '9' || name[i] == '_';
    if is_word(name) {
        assert forall|i: int| 0 <= i < name.len() implies 'a' <= #[trigger] name[i] <= 'z' || 'A'
            <= name[i] <= 'Z' || '0' <= name[i] <= '9' || name[i] == '_' by {
            if i > 0 {
                assert(continues_ident(name[i]));
            }
        }
    }
    if plain {
        assert forall|i: int| 0 <= i < name.len() implies (#[trigger] name[i] as u32) < 128 by {
        }
        text::lemma_byte_len_ascii(name);
        if name.len() > 0 && !('0' <= name[0] <= '9') {
            assert forall|i: int| 1 <= i < name.len() implies continues_ident(
                #[trigger] name[i],
            ) by {
            }
        }
    }
}

/// Escaping goes character by character, and changes only backslashes, quotes and NUL: a text
/// without them is written as it is, and no NUL is ever written.
pub proof fn law_escaping_changes_only_what_it_must(a: Seq<char>, b: Seq<char>)
    ensures
        escaped(a + b) == escaped(a) + escaped(b),
        (forall|i: int|
            0 <= i < a.len() ==> #[trigger] a[i] != '\\' && a[i] != '\'' && a[i] != '\0')
            ==> escaped(a) == a,
        !escaped(a).contains('\0'),
{
    lemma_escaped_concat(a, b);
    lemma_plain_is_kept(a);
}

proof fn lemma_escaped_concat(a: Seq<char>, b: Seq<char>)
    ensures
        escaped(a + b) == escaped(a) + escaped(b),
    decreases b.len(),
{
    if b.len() == 0 {
        assert(a + b =~= a);
        assert(escaped(a) + escaped(b) =~= escaped(a));
    } else {
        lemma_escaped_concat(a, b.drop_last());
        assert((a + b).drop_last() =~= a + b.drop_last());
        assert(escaped(a + b) =~= escaped(a) + escaped(b));
    }
}

proof fn lemma_plain_is_kept(a: Seq<char>)
    ensures
        (forall|i: int|
            0 <= i < a.len() ==> #[trigger] a[i] != '\\' && a[i] != '\'' && a[i] != '\0')
            ==> escaped(a) == a,
        forall|i: int| 0 <= i < escaped(a).len() ==> #[trigger] escaped(a)[i] != '\0',
    decreases a.len(),
{
    if a.len() > 0 {
        let before = a.drop_last();
        lemma_plain_is_kept(before);
        assert(before.push(a.last()) =~= a);
        assert forall|i: int| 0 <= i < escaped(a).len() implies #[trigger] escaped(a)[i] != '\0' by {
            if i < escaped(before).len() {
                assert(escaped(a)[i] == escaped(before)[i]);
            }
        }
        if forall|i: int|
            0 <= i < a.len() ==> #[trigger] a[i] != '\\' && a[i] != '\'' && a[i] != '\0' {
            assert forall|i: int| 0 <= i < before.len() implies #[trigger] before[i] != '\\'
                && before[i] != '\'' && before[i] != '\0' by {
                assert(before[i] == a[i]);
            }
            assert(a[a.len() - 1] != '\\');
            assert(escaped(a) =~= a);
        }
    } else {
        assert(escaped(a) =~= a);
    }
}

/// What is refused is told: a time that would lose digits with its number and the precision, and a
/// tag that is too long with the limit.
pub proof fn law_refused_values_are_told(timestamp_ns: int, precision: TsPrecision)
    ensures
        text::holds(
            timestamp_fault(timestamp_ns, precision),
            " "@ + number::decimal(timestamp_ns) + " ns "@,
        ),
        text::holds(timestamp_fault(timestamp_ns, precision), " "@ + precision.name() + " "@),
        text::holds(tag_too_long(), " "@ + number::decimal(48) + " "@),
{
    reveal_strlit("时间戳 ");
    reveal_strlit("时间戳");
    reveal_strlit(" ");
    reveal_strlit(" ns 无法无损表示为 ");
    reveal_strlit(" ns ");
    reveal_strlit("无法无损表示为 ");
    reveal_strlit(" ns 无法无损表示为");
    reveal_strlit(" 精度（请对齐精度或改用 ns 库）");
    reveal_strlit("精度（请对齐精度或改用 ns 库）");
    let m = timestamp_fault(timestamp_ns, precision);
    let n = number::decimal(timestamp_ns);
    text::lemma_holds(
        m,
        "时间戳"@,
        " "@ + n + " ns "@,
        "无法无损表示为 "@ + precision.name() + " 精度（请对齐精度或改用 ns 库）"@,
    );
    text::lemma_holds(
        m,
        "时间戳 "@ + n + " ns 无法无损表示为"@,
        " "@ + precision.name() + " "@,
        "精度（请对齐精度或改用 ns 库）"@,
    );
    reveal_strlit("tag 值超过 ");
    reveal_strlit("tag 值超过");
    reveal_strlit(" UTF-8 字节");
    reveal_strlit("UTF-8 字节");
    text::lemma_holds(
        tag_too_long(),
        "tag 值超过"@,
        " "@ + number::decimal(48) + " "@,
        "UTF-8 字节"@,
    );
}

/// What is wrong with a name is told without the name: all names that are too long or empty, all
/// that start wrong, and all that go on wrong, are refused in the same words.
pub proof fn law_names_are_not_told(a: Seq<char>, b: Seq<char>)
    requires
        ident_fault(a) is Some,
        ident_fault(b) is Some,
        (a.len() == 0 || text::byte_len(a) > 192) == (b.len() == 0 || text::byte_len(b) > 192),
        a.len() > 0 && b.len() > 0 ==> (text::is_letter(a[0]) || a[0] == '_') == (text::is_letter(
            b[0],
        ) || b[0] == '_'),
    ensures
        ident_fault(a) == ident_fault(b),
{
}

/// Each byte is two hexadecimal digits in lower case, the higher one first.
pub proof fn law_bytes_are_two_digits(bytes: Seq<u8>, i: int)
    requires
        0 <= i < bytes.len(),
    ensures
        ({
            let high = hex(bytes)[2 * i];
            let low = hex(bytes)[2 * i + 1];
            &&& hex(bytes).len() == 2 * bytes.len()
            &&& '0' <= high <= '9' || 'a' <= high <= 'f'
            &&& '0' <= low <= '9' || 'a' <= low <= 'f'
            &&& crate::ip::hex_number(seq![high, low]) == Some(bytes[i] as nat)
        }),
    decreases bytes.len(),
{
    let before = bytes.drop_last();
    lemma_hex_shape(bytes);
    lemma_hex_shape(before);
    let high = hex(bytes)[2 * i];
    let low = hex(bytes)[2 * i + 1];
    if i < before.len() {
        law_bytes_are_two_digits(before, i);
        assert(hex(bytes)[2 * i] == hex(before)[2 * i]);
        assert(hex(bytes)[2 * i + 1] == hex(before)[2 * i + 1]);
    } else {
        let b = bytes.last() as nat;
        assert(high == hex_char(b / 16));
        assert(low == hex_char(b % 16));
        reveal_with_fuel(crate::ip::hex_number, 3);
        assert(seq![high, low].drop_last() =~= seq![high]);
        assert(seq![high].drop_last() =~= Seq::<char>::empty());
        assert(crate::ip::hex_value(high) == Some(b / 16));
        assert(crate::ip::hex_value(low) == Some(b % 16));
    }
}

} // verus!
