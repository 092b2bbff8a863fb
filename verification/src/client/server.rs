//! A model of the server: how it reads the statements that it is sent, and what it answers. The
//! laws here say what the statements are for: what they make a server store and give back.

use vstd::prelude::*;

#[allow(unused_imports)]
use super::batch;
#[allow(unused_imports)]
use super::connect;
#[allow(unused_imports)]
use super::connect::{ConnectStage, ConnectView};
#[allow(unused_imports)]
use super::insert;
#[allow(unused_imports)]
use super::pool::PoolView;
#[allow(unused_imports)]
use super::query;
#[allow(unused_imports)]
use super::query::{QueryStepView, QueryView};
#[allow(unused_imports)]
use super::response;
#[allow(unused_imports)]
use super::sql;
#[allow(unused_imports)]
use super::types::TaosExecResult;
#[allow(unused_imports)]
use crate::config::TsPrecision;
#[allow(unused_imports)]
use crate::error::{ErrorView, TaosError, TaosResult};
#[allow(unused_imports)]
use crate::ip;
#[allow(unused_imports)]
use crate::number;
#[allow(unused_imports)]
use crate::point::PointView;
#[allow(unused_imports)]
use crate::text;

verus! {

// ---------------------------------------------------------------------------
// Reading
// ---------------------------------------------------------------------------

/// What follows a start, where a text starts so.
#[verifier::opaque]
pub open spec fn after(s: Seq<char>, start: Seq<char>) -> Option<Seq<char>> {
    if s.len() >= start.len() && s.take(start.len() as int) == start {
        Some(s.skip(start.len() as int))
    } else {
        None
    }
}

/// The characters that something is made of.
pub enum Class {
    /// A name between back quotes.
    Name,
    /// An integer.
    Integer,
    /// A word.
    Word,
}

impl Class {
    /// The character can be a part of it.
    pub open spec fn has(self, c: char) -> bool {
        match self {
            Class::Name => c != '`',
            Class::Integer => c == '-' || '0' <= c <= '9',
            Class::Word => c == '_' || '0' <= c <= '9' || 'a' <= c <= 'z' || 'A' <= c <= 'Z',
        }
    }
}

/// How many characters at the start of a text are of a class.
pub open spec fn span(s: Seq<char>, class: Class) -> nat
    decreases s.len(),
{
    if s.len() > 0 && class.has(s[0]) {
        1 + span(s.skip(1), class)
    } else {
        0
    }
}

/// The characters of a class at the start of a text, and what follows them.
#[verifier::opaque]
pub open spec fn read_span(s: Seq<char>, class: Class) -> (Seq<char>, Seq<char>) {
    (s.take(span(s, class) as int), s.skip(span(s, class) as int))
}

/// A name between back quotes, and what follows it.
#[verifier::opaque]
pub open spec fn read_name(s: Seq<char>) -> Option<(Seq<char>, Seq<char>)> {
    let start = after(s, seq!['`']);
    let name = read_span(start->0, Class::Name);
    let rest = after(name.1, seq!['`']);
    if start is Some && rest is Some {
        Some((name.0, rest->0))
    } else {
        None
    }
}

/// A text between quotes, and what follows it.
#[verifier::opaque]
pub open spec fn read_text(s: Seq<char>) -> Option<(Seq<char>, Seq<char>)> {
    match after(s, seq!['\'']) {
        Some(rest) => sql::read_literal(rest),
        None => None,
    }
}

/// An integer, and what follows it.
#[verifier::opaque]
pub open spec fn read_integer(s: Seq<char>) -> Option<(int, Seq<char>)> {
    let (digits, rest) = read_span(s, Class::Integer);
    match number::signed(digits) {
        Some(n) => Some((n, rest)),
        None => None,
    }
}

proof fn lemma_after(start: Seq<char>, rest: Seq<char>)
    ensures
        after(start + rest, start) == Some(rest),
{
    reveal(after);
    assert((start + rest).take(start.len() as int) =~= start);
    assert((start + rest).skip(start.len() as int) =~= rest);
}

proof fn lemma_span(a: Seq<char>, rest: Seq<char>, class: Class)
    requires
        forall|i: int| 0 <= i < a.len() ==> class.has(#[trigger] a[i]),
        rest.len() == 0 || !class.has(rest[0]),
    ensures
        span(a + rest, class) == a.len(),
        read_span(a + rest, class) == (a, rest),
    decreases a.len(),
{
    reveal(read_span);
    let s = a + rest;
    if a.len() > 0 {
        assert(s[0] == a[0]);
        assert(s.skip(1) =~= a.skip(1) + rest);
        assert forall|i: int| 0 <= i < a.skip(1).len() implies class.has(
            #[trigger] a.skip(1)[i],
        ) by {
            assert(a.skip(1)[i] == a[i + 1]);
        }
        lemma_span(a.skip(1), rest, class);
    } else {
        assert(s =~= rest);
    }
    assert(s.take(a.len() as int) =~= a);
    assert(s.skip(a.len() as int) =~= rest);
}

/// Concatenation in either order of brackets.
proof fn lemma_assoc(a: Seq<char>, b: Seq<char>, c: Seq<char>)
    ensures
        (a + b) + c == a + (b + c),
{
    assert((a + b) + c =~= a + (b + c));
}

proof fn lemma_read_name(name: Seq<char>, rest: Seq<char>)
    requires
        forall|i: int| 0 <= i < name.len() ==> #[trigger] name[i] != '`',
    ensures
        read_name(seq!['`'] + (name + (seq!['`'] + rest))) == Some((name, rest)),
{
    reveal(read_name);
    let tail = seq!['`'] + rest;
    lemma_after(seq!['`'], name + tail);
    lemma_span(name, tail, Class::Name);
    lemma_after(seq!['`'], rest);
}

proof fn lemma_read_text(value: Seq<char>, rest: Seq<char>)
    ensures
        read_text(seq!['\''] + (sql::escaped(value) + (seq!['\''] + rest))) == Some((value, rest)),
{
    reveal(read_text);
    let tail = sql::escaped(value) + (seq!['\''] + rest);
    lemma_assoc(sql::escaped(value), seq!['\''], rest);
    lemma_after(seq!['\''], tail);
    sql::law_literal_reads_back(value, rest);
}

proof fn lemma_decimal_is_integer(n: int)
    ensures
        forall|i: int|
            0 <= i < number::decimal(n).len() ==> Class::Integer.has(
                #[trigger] number::decimal(n)[i],
            ),
{
    if n < 0 {
        number::lemma_digits_denote((-n) as nat);
        assert forall|i: int| 0 <= i < number::decimal(n).len() implies Class::Integer.has(
            #[trigger] number::decimal(n)[i],
        ) by {
            if i > 0 {
                assert(number::decimal(n)[i] == number::digits((-n) as nat)[i - 1]);
                assert(text::is_digit(number::digits((-n) as nat)[i - 1]));
            }
        }
    } else {
        number::lemma_digits_denote(n as nat);
        assert forall|i: int| 0 <= i < number::decimal(n).len() implies Class::Integer.has(
            #[trigger] number::decimal(n)[i],
        ) by {
            assert(text::is_digit(number::digits(n as nat)[i]));
        }
    }
}

proof fn lemma_read_integer(n: int, rest: Seq<char>)
    requires
        i64::MIN <= n <= i64::MAX,
        rest.len() == 0 || !Class::Integer.has(rest[0]),
    ensures
        read_integer(number::decimal(n) + rest) == Some((n, rest)),
{
    reveal(read_integer);
    lemma_decimal_is_integer(n);
    lemma_span(number::decimal(n), rest, Class::Integer);
    number::law_signed_reads_decimal(n);
}

// ---------------------------------------------------------------------------
// INSERT
// ---------------------------------------------------------------------------

/// A row that a server is told to insert.
pub struct Inserted {
    /// The table that the row goes to.
    pub table: Seq<char>,
    /// The super table that this table belongs to.
    pub stable: Seq<char>,
    /// The tag of this table.
    pub tag: Seq<char>,
    /// The time stamp, in units of the database.
    pub time: int,
    pub first: Seq<char>,
    pub second: Seq<char>,
}

/// How a server reads one row, and what follows it.
#[verifier::opaque]
pub open spec fn read_row(s: Seq<char>) -> Option<(Inserted, Seq<char>)> {
    let table = read_name(s);
    let using = after((table->0).1, " USING "@);
    let stable = read_name(using->0);
    let tags = after((stable->0).1, " TAGS ("@);
    let tag = read_text(tags->0);
    let values = after((tag->0).1, ") VALUES ("@);
    let time = read_integer(values->0);
    let comma = after((time->0).1, ","@);
    let first = read_text(comma->0);
    let another = after((first->0).1, ","@);
    let second = read_text(another->0);
    let end = after((second->0).1, ")"@);
    if table is Some && using is Some && stable is Some && tags is Some && tag is Some
        && values is Some && time is Some && comma is Some && first is Some && another is Some
        && second is Some && end is Some {
        Some(
            (
                Inserted {
                    table: (table->0).0,
                    stable: (stable->0).0,
                    tag: (tag->0).0,
                    time: (time->0).0,
                    first: (first->0).0,
                    second: (second->0).0,
                },
                end->0,
            ),
        )
    } else {
        None
    }
}

/// How a server reads one or more rows.
pub open spec fn read_rows(s: Seq<char>) -> Option<Seq<Inserted>>
    decreases s.len(),
{
    match read_row(s) {
        None => None,
        Some((row, rest)) => if rest.len() == 0 {
            Some(seq![row])
        } else if after(rest, " "@) is Some && after(rest, " "@)->0.len() < s.len() {
            match read_rows(after(rest, " "@)->0) {
                Some(rows) => Some(seq![row] + rows),
                None => None,
            }
        } else {
            None
        },
    }
}

/// The rows that a statement makes a server insert.
pub open spec fn inserted_by(statement: Seq<char>) -> Option<Seq<Inserted>> {
    match after(statement, "INSERT INTO "@) {
        Some(rows) => read_rows(rows),
        None => None,
    }
}

/// The rows that some statements make a server insert, one after the other.
pub open spec fn inserted_by_all(chunks: Seq<(Seq<char>, nat)>) -> Option<Seq<Inserted>>
    decreases chunks.len(),
{
    if chunks.len() == 0 {
        Some(Seq::empty())
    } else {
        match (inserted_by_all(chunks.drop_last()), inserted_by(chunks.last().0)) {
            (Some(before), Some(rows)) => Some(before + rows),
            _ => None,
        }
    }
}

/// The bytes that pairs of hexadecimal digits denote.
pub open spec fn hex_bytes(s: Seq<char>) -> Option<Seq<u8>>
    decreases s.len(),
{
    if s.len() == 0 {
        Some(Seq::empty())
    } else if s.len() == 1 {
        None
    } else {
        match (hex_bytes(s.take(s.len() - 2)), ip::hex_value(s[s.len() - 2]), ip::hex_value(s.last())) {
            (Some(before), Some(high), Some(low)) => Some(before.push((high * 16 + low) as u8)),
            _ => None,
        }
    }
}

/// A row holds a point: the tag and both values, the time in units of the precision, and a table of
/// the super table that has the bytes of the tag in its name.
pub open spec fn holds_point(
    row: Inserted,
    table: Seq<char>,
    p: PointView,
    precision: TsPrecision,
) -> bool {
    &&& row.stable == table
    &&& row.tag == p.tag_value
    &&& row.first == p.first
    &&& row.second == p.second
    &&& row.time * precision.unit() == p.timestamp_ns
    &&& after(row.table, table + "_s"@) is Some
    &&& hex_bytes(after(row.table, table + "_s"@)->0) == Some(
        vstd::utf8::encode_utf8(p.tag_value),
    )
}

proof fn lemma_hex_bytes(bytes: Seq<u8>)
    ensures
        hex_bytes(sql::hex(bytes)) == Some(bytes),
    decreases bytes.len(),
{
    if bytes.len() > 0 {
        let before = bytes.drop_last();
        lemma_hex_bytes(before);
        let s = sql::hex(bytes);
        assert(s.take(s.len() - 2) =~= sql::hex(before));
        assert(before.push(bytes.last()) =~= bytes);
        let b = bytes.last() as nat;
        assert(s[s.len() - 2] == sql::hex_char(b / 16));
        assert(s.last() == sql::hex_char(b % 16));
        assert(b / 16 < 16);
        assert((b / 16) * 16 + b % 16 == b);
    } else {
        assert(sql::hex(bytes) =~= Seq::<char>::empty());
        assert(bytes =~= Seq::<u8>::empty());
    }
}

/// A name that is an identifier holds no back quote.
proof fn lemma_ident_is_plain(name: Seq<char>)
    requires
        sql::ident_fault(name) is None,
    ensures
        forall|i: int| 0 <= i < name.len() ==> #[trigger] name[i] != '`',
{
    assert forall|i: int| 0 <= i < name.len() implies #[trigger] name[i] != '`' by {
        if i == 0 {
            assert(sql::starts_ident(name[0]));
        } else {
            assert(sql::continues_ident(name[i]));
        }
    }
}

proof fn lemma_lossless_time(p: PointView, precision: TsPrecision)
    requires
        sql::is_lossless(p.timestamp_ns as int, precision),
    ensures
        precision.stored(p.timestamp_ns as int) * precision.unit() == p.timestamp_ns,
        i64::MIN <= precision.stored(p.timestamp_ns as int) <= i64::MAX,
{
}

/// The row of a point, part by part, with what follows it.
spec fn row_parts(table: Seq<char>, p: PointView, precision: TsPrecision, rest: Seq<char>) -> Seq<char> {
    let tick = seq!['`'];
    let quote = seq!['\''];
    let r8 = quote + (sql::escaped(p.second) + (quote + (")"@ + rest)));
    let r6 = quote + (sql::escaped(p.first) + (quote + (","@ + r8)));
    let r4 = number::decimal(precision.stored(p.timestamp_ns as int)) + (","@ + r6);
    let r2 = quote + (sql::escaped(p.tag_value) + (quote + (") VALUES ("@ + r4)));
    let r0 = tick + (table + (tick + (" TAGS ("@ + r2)));
    tick + (sql::subtable(table, p.tag_value) + (tick + (" USING "@ + r0)))
}

proof fn lemma_row_parts(table: Seq<char>, p: PointView, precision: TsPrecision, rest: Seq<char>)
    ensures
        insert::row_text(table, p, precision) + rest == row_parts(table, p, precision, rest),
{
    let tick = seq!['`'];
    let quote = seq!['\''];
    assert("`"@ == tick && "` USING `"@ == tick + (" USING "@ + tick) && "` TAGS ('"@ == tick + (
    " TAGS ("@ + quote) && "') VALUES ("@ == quote + ") VALUES ("@ && ",'"@ == ","@ + quote
        && "','"@ == quote + (","@ + quote) && "')"@ == quote + ")"@) by {
        reveal_strlit("`");
        reveal_strlit("` USING `");
        reveal_strlit("` TAGS ('");
        reveal_strlit("') VALUES (");
        reveal_strlit(",'");
        reveal_strlit("','");
        reveal_strlit("')");
        reveal_strlit(" USING ");
        reveal_strlit(" TAGS (");
        reveal_strlit(") VALUES (");
        reveal_strlit(",");
        reveal_strlit(")");
        assert("`"@ =~= tick);
        assert("` USING `"@ =~= tick + (" USING "@ + tick));
        assert("` TAGS ('"@ =~= tick + (" TAGS ("@ + quote));
        assert("') VALUES ("@ =~= quote + ") VALUES ("@);
        assert(",'"@ =~= ","@ + quote);
        assert("','"@ =~= quote + (","@ + quote));
        assert("')"@ =~= quote + ")"@);
    }
    let sub = sql::subtable(table, p.tag_value);
    let e1 = sql::escaped(p.tag_value);
    let e2 = sql::escaped(p.first);
    let e3 = sql::escaped(p.second);
    let digits = number::decimal(precision.stored(p.timestamp_ns as int));
    let x1 = "`"@ + sub;
    let x2 = x1 + "` USING `"@;
    let x3 = x2 + table;
    let x4 = x3 + "` TAGS ('"@;
    let x5 = x4 + e1;
    let x6 = x5 + "') VALUES ("@;
    let x7 = x6 + digits;
    let x8 = x7 + ",'"@;
    let x9 = x8 + e2;
    let x10 = x9 + "','"@;
    let x11 = x10 + e3;
    assert(insert::row_text(table, p, precision) == x11 + "')"@);
    let t12 = "')"@ + rest;
    let t11 = e3 + t12;
    let t10 = "','"@ + t11;
    let t9 = e2 + t10;
    let t8 = ",'"@ + t9;
    let t7 = digits + t8;
    let t6 = "') VALUES ("@ + t7;
    let t5 = e1 + t6;
    let t4 = "` TAGS ('"@ + t5;
    let t3 = table + t4;
    let t2 = "` USING `"@ + t3;
    lemma_assoc(x11, "')"@, rest);
    lemma_assoc(x10, e3, t12);
    lemma_assoc(x9, "','"@, t11);
    lemma_assoc(x8, e2, t10);
    lemma_assoc(x7, ",'"@, t9);
    lemma_assoc(x6, digits, t8);
    lemma_assoc(x5, "') VALUES ("@, t7);
    lemma_assoc(x4, e1, t6);
    lemma_assoc(x3, "` TAGS ('"@, t5);
    lemma_assoc(x2, table, t4);
    lemma_assoc(x1, "` USING `"@, t3);
    lemma_assoc("`"@, sub, t2);
    lemma_assoc(quote, ")"@, rest);
    lemma_assoc(quote, ","@ + quote, t11);
    lemma_assoc(","@, quote, t11);
    lemma_assoc(","@, quote, t9);
    lemma_assoc(quote, ") VALUES ("@, t7);
    lemma_assoc(tick, " TAGS ("@ + quote, t5);
    lemma_assoc(" TAGS ("@, quote, t5);
    lemma_assoc(tick, " USING "@ + tick, t3);
    lemma_assoc(" USING "@, tick, t3);
}

proof fn lemma_read_row(table: Seq<char>, p: PointView, precision: TsPrecision, rest: Seq<char>)
    requires
        sql::stable_fault(table) is None,
        text::byte_len(p.tag_value) <= sql::MAX_SYMBOL_BYTES,
        sql::is_lossless(p.timestamp_ns as int, precision),
    ensures
        read_row(insert::row_text(table, p, precision) + rest) is Some,
        (read_row(insert::row_text(table, p, precision) + rest)->0).1 == rest,
        holds_point(
            (read_row(insert::row_text(table, p, precision) + rest)->0).0,
            table,
            p,
            precision,
        ),
{
    let sub = sql::subtable(table, p.tag_value);
    let time = precision.stored(p.timestamp_ns as int);
    let tick = seq!['`'];
    let quote = seq!['\''];
    let r9 = ")"@ + rest;
    let r8 = quote + (sql::escaped(p.second) + (quote + r9));
    let r7 = ","@ + r8;
    let r6 = quote + (sql::escaped(p.first) + (quote + r7));
    let r5 = ","@ + r6;
    let r4 = number::decimal(time) + r5;
    let r3 = ") VALUES ("@ + r4;
    let r2 = quote + (sql::escaped(p.tag_value) + (quote + r3));
    let r1 = " TAGS ("@ + r2;
    let r0 = tick + (table + (tick + r1));
    let r = " USING "@ + r0;
    let s = tick + (sub + (tick + r));
    reveal(read_row);
    lemma_row_parts(table, p, precision, rest);
    assert(insert::row_text(table, p, precision) + rest == s);
    sql::law_subtable_is_identifier(table, p.tag_value);
    lemma_ident_is_plain(sub);
    lemma_ident_is_plain(table);
    lemma_lossless_time(p, precision);
    lemma_read_name(sub, r);
    lemma_after(" USING "@, r0);
    lemma_read_name(table, r1);
    lemma_after(" TAGS ("@, r2);
    lemma_read_text(p.tag_value, r3);
    lemma_after(") VALUES ("@, r4);
    assert(r5.len() > 0 && r5[0] == ',') by {
        reveal_strlit(",");
    }
    lemma_read_integer(time, r5);
    lemma_after(","@, r6);
    lemma_read_text(p.first, r7);
    lemma_after(","@, r8);
    lemma_read_text(p.second, r9);
    lemma_after(")"@, rest);
    let h = sql::hex(vstd::utf8::encode_utf8(p.tag_value));
    lemma_after(table + "_s"@, h);
    lemma_hex_bytes(vstd::utf8::encode_utf8(p.tag_value));
}

/// A space between the first row and the others.
proof fn lemma_spaced_head(rows: Seq<Seq<char>>)
    requires
        rows.len() > 1,
    ensures
        insert::spaced(rows) == rows[0] + (" "@ + insert::spaced(rows.skip(1))),
    decreases rows.len(),
{
    let rest = rows.skip(1);
    assert(rest.drop_last() =~= rows.drop_last().skip(1));
    if rows.len() == 2 {
        assert(insert::spaced(rows.drop_last()) == rows[0]);
        assert(insert::spaced(rest) == rows[1]);
        lemma_assoc(rows[0], " "@, rows[1]);
    } else {
        lemma_spaced_head(rows.drop_last());
        let inner = insert::spaced(rest.drop_last());
        lemma_assoc(rows[0] + (" "@ + inner), " "@, rows.last());
        lemma_assoc(rows[0], " "@ + inner, " "@ + rows.last());
        lemma_assoc(" "@, inner, " "@ + rows.last());
        lemma_assoc(inner, " "@, rows.last());
    }
}

/// A point that can be written.
spec fn is_writable(p: PointView, precision: TsPrecision) -> bool {
    &&& text::byte_len(p.tag_value) <= sql::MAX_SYMBOL_BYTES
    &&& sql::is_lossless(p.timestamp_ns as int, precision)
}

/// Rows hold points, one each, in order.
pub open spec fn hold_points(
    rows: Seq<Inserted>,
    table: Seq<char>,
    points: Seq<PointView>,
    precision: TsPrecision,
) -> bool {
    &&& rows.len() == points.len()
    &&& forall|k: int|
        0 <= k < rows.len() ==> holds_point(#[trigger] rows[k], table, points[k], precision)
}

proof fn lemma_read_rows(table: Seq<char>, points: Seq<PointView>, precision: TsPrecision)
    requires
        points.len() > 0,
        sql::stable_fault(table) is None,
        forall|k: int| 0 <= k < points.len() ==> is_writable(#[trigger] points[k], precision),
    ensures
        ({
            let rows = read_rows(insert::spaced(insert::row_texts(table, points, precision)));
            rows is Some && hold_points(rows->0, table, points, precision)
        }),
    decreases points.len(),
{
    let texts = insert::row_texts(table, points, precision);
    let s = insert::spaced(texts);
    assert(is_writable(points[0], precision));
    if points.len() == 1 {
        let none = Seq::<char>::empty();
        lemma_read_row(table, points[0], precision, none);
        assert(texts[0] + none =~= texts[0]);
    } else {
        let rest = points.skip(1);
        assert(texts.skip(1) =~= insert::row_texts(table, rest, precision));
        lemma_spaced_head(texts);
        let tail = insert::spaced(texts.skip(1));
        lemma_read_row(table, points[0], precision, " "@ + tail);
        lemma_after(" "@, tail);
        assert forall|k: int| 0 <= k < rest.len() implies is_writable(
            #[trigger] rest[k],
            precision,
        ) by {
            assert(rest[k] == points[k + 1]);
        }
        lemma_read_rows(table, rest, precision);
        assert((" "@ + tail).len() > 0 && (" "@ + tail).len() < s.len()) by {
            reveal_strlit(" ");
            assert(texts[0].len() > 0) by {
                reveal_strlit("`");
            }
        }
        let row = (read_row(s)->0).0;
        let others = read_rows(tail)->0;
        let all = seq![row] + others;
        assert(read_rows(s) == Some(all));
        assert forall|k: int| 0 <= k < all.len() implies holds_point(
            #[trigger] all[k],
            table,
            points[k],
            precision,
        ) by {
            if k > 0 {
                assert(all[k] == others[k - 1]);
                assert(points[k] == rest[k - 1]);
            }
        }
    }
}

proof fn lemma_groups_are_read(
    groups: Seq<Seq<Seq<char>>>,
    table: Seq<char>,
    points: Seq<PointView>,
    precision: TsPrecision,
)
    requires
        sql::stable_fault(table) is None,
        forall|k: int| 0 <= k < points.len() ==> is_writable(#[trigger] points[k], precision),
        forall|i: int| 0 <= i < groups.len() ==> (#[trigger] groups[i]).len() > 0,
        insert::together(groups) == insert::row_texts(table, points, precision),
    ensures
        inserted_by_all(insert::statements(groups)) is Some,
        hold_points(inserted_by_all(insert::statements(groups))->0, table, points, precision),
        forall|i: int|
            0 <= i < groups.len() ==> inserted_by(insert::statement(#[trigger] groups[i])) is Some
                && inserted_by(insert::statement(groups[i]))->0.len() == groups[i].len(),
    decreases groups.len(),
{
    let all = insert::statements(groups);
    assert(insert::row_texts(table, points, precision).len() == points.len());
    if groups.len() > 0 {
        let before = groups.drop_last();
        let group = groups.last();
        let n = insert::together(before).len() as int;
        let first = points.take(n);
        let last = points.skip(n);
        let texts = insert::row_texts(table, points, precision);
        assert(texts == insert::together(before) + group);
        assert(insert::together(before) =~= insert::row_texts(table, first, precision)) by {
            assert forall|k: int| 0 <= k < n implies insert::together(before)[k]
                == insert::row_texts(table, first, precision)[k] by {
                assert(texts[k] == insert::together(before)[k]);
            }
        }
        assert(group =~= insert::row_texts(table, last, precision)) by {
            assert forall|k: int| 0 <= k < group.len() implies group[k] == insert::row_texts(
                table,
                last,
                precision,
            )[k] by {
                assert(texts[n + k] == group[k]);
            }
        }
        assert forall|k: int| 0 <= k < first.len() implies is_writable(
            #[trigger] first[k],
            precision,
        ) by {
            assert(first[k] == points[k]);
        }
        assert forall|k: int| 0 <= k < last.len() implies is_writable(
            #[trigger] last[k],
            precision,
        ) by {
            assert(last[k] == points[n + k]);
        }
        assert forall|i: int| 0 <= i < before.len() implies (#[trigger] before[i]).len() > 0 by {
            assert(before[i] == groups[i]);
        }
        lemma_groups_are_read(before, table, first, precision);
        assert(groups[groups.len() - 1].len() > 0);
        lemma_read_rows(table, last, precision);
        lemma_after("INSERT INTO "@, insert::spaced(group));
        assert(all.drop_last() =~= insert::statements(before));
        assert(all.last().0 == insert::statement(group));
        let a = inserted_by_all(insert::statements(before))->0;
        let b = inserted_by(insert::statement(group))->0;
        let rows = inserted_by_all(all)->0;
        assert(rows == a + b);
        assert forall|k: int| 0 <= k < rows.len() implies holds_point(
            #[trigger] rows[k],
            table,
            points[k],
            precision,
        ) by {
            if k < n {
                assert(rows[k] == a[k]);
                assert(points[k] == first[k]);
            } else {
                assert(rows[k] == b[k - n]);
                assert(points[k] == last[k - n]);
            }
        }
        assert forall|i: int| 0 <= i < groups.len() implies inserted_by(
            insert::statement(#[trigger] groups[i]),
        ) is Some && inserted_by(insert::statement(groups[i]))->0.len() == groups[i].len() by {
            if i < before.len() {
                assert(before[i] == groups[i]);
            }
        }
    }
}

/// A batch is inserted as it is: the statements make a server insert one row for each point, in the
/// order of the points, and what it reads of a row is the point: its time, its tag and its values.
/// Each statement inserts as many rows as it is said to.
pub proof fn law_batch_is_inserted_as_it_is(
    table: Seq<char>,
    points: Seq<PointView>,
    precision: TsPrecision,
    max_rows: nat,
    max_bytes: nat,
)
    requires
        insert::insert_chunks(table, points, precision, max_rows, max_bytes) is Ok,
    ensures
        ({
            let chunks = insert::insert_chunks(table, points, precision, max_rows, max_bytes)->Ok_0;
            &&& inserted_by_all(chunks) is Some
            &&& hold_points(inserted_by_all(chunks)->0, table, points, precision)
            &&& forall|i: int|
                0 <= i < chunks.len() ==> inserted_by((#[trigger] chunks[i]).0) is Some
                    && inserted_by(chunks[i].0)->0.len() == chunks[i].1
        }),
{
    let rows = insert::row_texts(table, points, precision);
    let groups = insert::grouped(rows, max_rows, max_bytes);
    insert::lemma_no_fault(table, points, precision, max_bytes);
    assert forall|k: int| 0 <= k < points.len() implies is_writable(
        #[trigger] points[k],
        precision,
    ) by {
        assert(insert::point_fault(table, points[k], precision, max_bytes) is None);
    }
    insert::law_groups_partition_the_rows(rows, max_rows, max_bytes);
    insert::law_groups_are_full(rows, max_rows, max_bytes);
    lemma_groups_are_read(groups, table, points, precision);
    let chunks = insert::statements(groups);
    assert forall|i: int| 0 <= i < chunks.len() implies inserted_by((#[trigger] chunks[i]).0) is Some
        && inserted_by(chunks[i].0)->0.len() == chunks[i].1 by {
        assert(chunks[i] == (insert::statement(groups[i]), groups[i].len()));
    }
}

// ---------------------------------------------------------------------------
// SELECT
// ---------------------------------------------------------------------------

/// A row that a super table holds.
pub struct Stored {
    /// The time stamp, in units of the database.
    pub time: int,
    pub bid: Seq<char>,
    pub ask: Seq<char>,
    pub symbol: Seq<char>,
}

impl Stored {
    /// The cell of a column.
    pub open spec fn cell(self, column: Seq<char>) -> Seq<char> {
        if column == "ts"@ {
            number::decimal(self.time)
        } else if column == "bid"@ {
            self.bid
        } else if column == "ask"@ {
            self.ask
        } else if column == "symbol"@ {
            self.symbol
        } else {
            Seq::empty()
        }
    }
}

/// A question for the rows of an interval of time.
pub struct Select {
    pub columns: Seq<Seq<char>>,
    pub table: Seq<char>,
    /// The first time stamp asked for.
    pub from: int,
    /// The last time stamp asked for.
    pub to: int,
    /// The order of the rows.
    pub newest_first: bool,
    /// The most rows asked for.
    pub limit: int,
}

/// Words with commas between them, and what follows them.
#[verifier::opaque]
pub open spec fn read_words(s: Seq<char>) -> (Seq<Seq<char>>, Seq<char>)
    decreases s.len(),
{
    let (word, rest) = read_span(s, Class::Word);
    let next = after(rest, ", "@);
    if next is Some && next->0.len() < s.len() {
        let (others, end) = read_words(next->0);
        (seq![word] + others, end)
    } else {
        (seq![word], rest)
    }
}

/// How a server reads a question for the rows of an interval.
#[verifier::opaque]
pub open spec fn read_select(s: Seq<char>) -> Option<Select> {
    let start = after(s, "SELECT "@);
    let columns = read_words(start->0);
    let source = after(columns.1, " FROM "@);
    let table = read_name(source->0);
    let lower = after((table->0).1, " WHERE ts >= "@);
    let from = read_integer(lower->0);
    let upper = after((from->0).1, " AND ts <= "@);
    let to = read_integer(upper->0);
    let order = after((to->0).1, " ORDER BY ts "@);
    let direction = read_span(order->0, Class::Word);
    let most = after(direction.1, " LIMIT "@);
    let limit = read_integer(most->0);
    if start is Some && source is Some && table is Some && lower is Some && from is Some
        && upper is Some && to is Some && order is Some && most is Some && limit is Some && (
    limit->0).1.len() == 0 && (direction.0 == "ASC"@ || direction.0 == "DESC"@) {
        Some(
            Select {
                columns: columns.0,
                table: (table->0).0,
                from: (from->0).0,
                to: (to->0).0,
                newest_first: direction.0 == "DESC"@,
                limit: (limit->0).0,
            },
        )
    } else {
        None
    }
}

impl Select {
    /// These are the rows of a table that are asked for, each once, in the order asked for.
    pub open spec fn finds(self, table: Set<Stored>, rows: Seq<Stored>) -> bool {
        &&& rows.no_duplicates()
        &&& forall|r: Stored| #[trigger]
            rows.contains(r) == (table.contains(r) && self.from <= r.time <= self.to)
        &&& forall|i: int, j: int|
            0 <= i <= j < rows.len() ==> if self.newest_first {
                #[trigger] rows[i].time >= #[trigger] rows[j].time
            } else {
                rows[i].time <= rows[j].time
            }
    }

    /// The rows that are given of those that were found: no more than asked for.
    pub open spec fn given(self, rows: Seq<Stored>) -> Seq<Stored> {
        if rows.len() > self.limit {
            rows.take(self.limit)
        } else {
            rows
        }
    }

    /// The cells of a row that are asked for.
    pub open spec fn cells(self, row: Stored) -> Seq<Seq<char>> {
        self.columns.map_values(|column: Seq<char>| row.cell(column))
    }

    /// A result holds these rows.
    pub open spec fn is_answered(self, result: Seq<Seq<Seq<char>>>, rows: Seq<Stored>) -> bool {
        &&& result.len() == rows.len()
        &&& forall|i: int| 0 <= i < rows.len() ==> #[trigger] result[i] == self.cells(rows[i])
    }
}

/// A character of a class stands at each place of a text.
spec fn all_of(s: Seq<char>, class: Class) -> bool {
    forall|i: int| 0 <= i < s.len() ==> class.has(#[trigger] s[i])
}

proof fn lemma_read_words_last(word: Seq<char>, rest: Seq<char>)
    requires
        all_of(word, Class::Word),
        rest.len() > 0,
        !Class::Word.has(rest[0]),
        rest[0] != ',',
    ensures
        read_words(word + rest) == (seq![word], rest),
{
    reveal_with_fuel(read_words, 1);
    lemma_span(word, rest, Class::Word);
    reveal_strlit(", ");
    reveal(after);
    if after(rest, ", "@) is Some {
        assert(rest.take(", "@.len() as int)[0] == rest[0]);
        assert(", "@[0] == ',');
    }
}

proof fn lemma_read_words_more(word: Seq<char>, rest: Seq<char>)
    requires
        all_of(word, Class::Word),
    ensures
        read_words(word + (", "@ + rest)) == (seq![word] + read_words(rest).0, read_words(rest).1),
{
    reveal_with_fuel(read_words, 1);
    reveal_strlit(", ");
    lemma_span(word, ", "@ + rest, Class::Word);
    lemma_after(", "@, rest);
}

/// A question for the rows of an interval, part by part.
spec fn select_parts(
    table: Seq<char>,
    precision: TsPrecision,
    start_ns: i64,
    end_ns: i64,
    limit: int,
) -> Seq<char> {
    let tick = seq!['`'];
    let lo = precision.at_or_after(start_ns as int);
    let hi = precision.at_or_before(end_ns as int);
    let lo_text = number::decimal(lo);
    let hi_text = number::decimal(hi);
    let limit_text = number::decimal(limit);
    let none = Seq::<char>::empty();
    let r9 = limit_text + none;
    let r8 = " LIMIT "@ + r9;
    let r7 = "ASC"@ + r8;
    let r6 = " ORDER BY ts "@ + r7;
    let r5 = hi_text + r6;
    let r4 = " AND ts <= "@ + r5;
    let r3 = lo_text + r4;
    let r2 = " WHERE ts >= "@ + r3;
    let r1 = tick + (table + (tick + r2));
    let r0 = " FROM "@ + r1;
    let c3 = "symbol"@ + r0;
    let c2 = "ask"@ + (", "@ + c3);
    let c1 = "bid"@ + (", "@ + c2);
    let c0 = "ts"@ + (", "@ + c1);
    let s = "SELECT "@ + c0;
    s
}

proof fn lemma_select_parts(
    table: Seq<char>,
    precision: TsPrecision,
    start_ns: i64,
    end_ns: i64,
    limit: int,
)
    ensures
        query::select_text(table, precision, start_ns, end_ns, limit) == select_parts(
            table,
            precision,
            start_ns,
            end_ns,
            limit,
        ),
{
    let tick = seq!['`'];
    let lo = precision.at_or_after(start_ns as int);
    let hi = precision.at_or_before(end_ns as int);
    let lo_text = number::decimal(lo);
    let hi_text = number::decimal(hi);
    let limit_text = number::decimal(limit);
    let none = Seq::<char>::empty();
    let r9 = limit_text + none;
    let r8 = " LIMIT "@ + r9;
    let r7 = "ASC"@ + r8;
    let r6 = " ORDER BY ts "@ + r7;
    let r5 = hi_text + r6;
    let r4 = " AND ts <= "@ + r5;
    let r3 = lo_text + r4;
    let r2 = " WHERE ts >= "@ + r3;
    let r1 = tick + (table + (tick + r2));
    let r0 = " FROM "@ + r1;
    let c3 = "symbol"@ + r0;
    let c2 = "ask"@ + (", "@ + c3);
    let c1 = "bid"@ + (", "@ + c2);
    let c0 = "ts"@ + (", "@ + c1);
    let s = "SELECT "@ + c0;
        let head = "SELECT ts, bid, ask, symbol FROM `"@;
        let where_text = "` WHERE ts >= "@;
        let and_text = " AND ts <= "@;
        let order_text = " ORDER BY ts ASC LIMIT "@;
        assert(head + (table + (where_text + r3)) == s && order_text + limit_text == r6) by {
            reveal_strlit("SELECT ts, bid, ask, symbol FROM `");
            reveal_strlit("` WHERE ts >= ");
            reveal_strlit(" ORDER BY ts ASC LIMIT ");
            reveal_strlit("SELECT ");
            reveal_strlit("ts");
            reveal_strlit("bid");
            reveal_strlit("ask");
            reveal_strlit("symbol");
            reveal_strlit(", ");
            reveal_strlit(" FROM ");
            reveal_strlit(" WHERE ts >= ");
            reveal_strlit(" ORDER BY ts ");
            reveal_strlit("ASC");
            reveal_strlit(" LIMIT ");
            let names = "ts"@ + (", "@ + ("bid"@ + (", "@ + ("ask"@ + (", "@ + ("symbol"@ + (
            " FROM "@ + tick)))))));
            assert(head =~= "SELECT "@ + names);
            assert(where_text =~= tick + " WHERE ts >= "@);
            assert(order_text =~= " ORDER BY ts "@ + ("ASC"@ + " LIMIT "@));
            assert(where_text + r3 =~= tick + r2);
            assert(order_text + limit_text =~= r6);
            let body = table + (where_text + r3);
            assert(head + body =~= "SELECT "@ + (names + body));
            assert(names + body =~= c0);
        }
        let x1 = head + table;
        let x2 = x1 + where_text;
        let x3 = x2 + lo_text;
        let x4 = x3 + and_text;
        let x5 = x4 + hi_text;
        let x6 = x5 + order_text;
        assert(query::select_text(table, precision, start_ns, end_ns, limit) == x6 + limit_text);
        lemma_assoc(x5, order_text, limit_text);
        lemma_assoc(x4, hi_text, r6);
        lemma_assoc(x3, and_text, r5);
        lemma_assoc(x2, lo_text, r4);
        lemma_assoc(x1, where_text, r3);
        lemma_assoc(head, table, where_text + r3);
}

proof fn lemma_bounds_fit(precision: TsPrecision, n: i64)
    ensures
        i64::MIN <= precision.at_or_after(n as int) <= i64::MAX,
        i64::MIN <= precision.at_or_before(n as int) <= i64::MAX,
{
    let m = n as int;
    match precision {
        TsPrecision::Ms => {
            assert(precision.unit() == 1_000_000);
            assert(i64::MIN <= m / 1_000_000 <= i64::MAX && i64::MIN <= -((-m) / 1_000_000)
                <= i64::MAX);
        },
        TsPrecision::Us => {
            assert(precision.unit() == 1_000);
            assert(i64::MIN <= m / 1_000 <= i64::MAX && i64::MIN <= -((-m) / 1_000) <= i64::MAX);
        },
        TsPrecision::Ns => {
            assert(precision.unit() == 1);
            assert(m / 1 == m && (-m) / 1 == -m);
        },
    }
}

pub(crate) proof fn lemma_read_select(
    table: Seq<char>,
    precision: TsPrecision,
    start_ns: i64,
    end_ns: i64,
    limit: int,
)
    requires
        sql::stable_fault(table) is None,
        0 <= limit <= i64::MAX,
    ensures
        ({
            let select = read_select(
                query::select_text(table, precision, start_ns, end_ns, limit),
            );
            &&& select is Some
            &&& select->0.columns =~= seq!["ts"@, "bid"@, "ask"@, "symbol"@]
            &&& select->0.table == table
            &&& select->0.from == precision.at_or_after(start_ns as int)
            &&& select->0.to == precision.at_or_before(end_ns as int)
            &&& !select->0.newest_first
            &&& select->0.limit == limit
        }),
{
    let tick = seq!['`'];
    let lo = precision.at_or_after(start_ns as int);
    let hi = precision.at_or_before(end_ns as int);
    let lo_text = number::decimal(lo);
    let hi_text = number::decimal(hi);
    let limit_text = number::decimal(limit);
    let none = Seq::<char>::empty();
    let r9 = limit_text + none;
    let r8 = " LIMIT "@ + r9;
    let r7 = "ASC"@ + r8;
    let r6 = " ORDER BY ts "@ + r7;
    let r5 = hi_text + r6;
    let r4 = " AND ts <= "@ + r5;
    let r3 = lo_text + r4;
    let r2 = " WHERE ts >= "@ + r3;
    let r1 = tick + (table + (tick + r2));
    let r0 = " FROM "@ + r1;
    let c3 = "symbol"@ + r0;
    let c2 = "ask"@ + (", "@ + c3);
    let c1 = "bid"@ + (", "@ + c2);
    let c0 = "ts"@ + (", "@ + c1);
    let s = "SELECT "@ + c0;
    reveal(read_select);
    lemma_select_parts(table, precision, start_ns, end_ns, limit);
    assert(query::select_text(table, precision, start_ns, end_ns, limit) == s);
    lemma_bounds_fit(precision, start_ns);
    lemma_bounds_fit(precision, end_ns);
    assert(all_of("ts"@, Class::Word) && all_of("bid"@, Class::Word) && all_of(
        "ask"@,
        Class::Word,
    ) && all_of("symbol"@, Class::Word) && all_of("ASC"@, Class::Word) && "ASC"@ != "DESC"@
        && r0.len() > 0 && r0[0] == ' ' && r8[0] == ' ' && r8.len() > 0 && r4.len() > 0 && r4[0]
        == ' ' && r6.len() > 0 && r6[0] == ' ') by {
        reveal_strlit("ts");
        reveal_strlit("bid");
        reveal_strlit("ask");
        reveal_strlit("symbol");
        reveal_strlit("ASC");
        reveal_strlit("DESC");
        reveal_strlit(" FROM ");
        reveal_strlit(" LIMIT ");
        reveal_strlit(" AND ts <= ");
        reveal_strlit(" ORDER BY ts ");
    }
    lemma_after("SELECT "@, c0);
    lemma_read_words_last("symbol"@, r0);
    lemma_read_words_more("ask"@, c3);
    lemma_read_words_more("bid"@, c2);
    lemma_read_words_more("ts"@, c1);
    lemma_after(" FROM "@, r1);
    lemma_ident_is_plain(table);
    lemma_read_name(table, r2);
    lemma_after(" WHERE ts >= "@, r3);
    lemma_read_integer(lo, r4);
    lemma_after(" AND ts <= "@, r5);
    lemma_read_integer(hi, r6);
    lemma_after(" ORDER BY ts "@, r7);
    lemma_span("ASC"@, r8, Class::Word);
    lemma_after(" LIMIT "@, r9);
    lemma_read_integer(limit, none);
}

/// The row that a table holds is read as this point.
pub open spec fn is_point_of(p: PointView, row: Stored, precision: TsPrecision) -> bool {
    &&& p.timestamp_ns == row.time * precision.unit()
    &&& p.tag_value == row.symbol
    &&& p.first == row.bid
    &&& p.second == row.ask
}

proof fn lemma_time_fits(precision: TsPrecision, time: int)
    requires
        i64::MIN <= time * precision.unit() <= i64::MAX,
    ensures
        i64::MIN <= time <= i64::MAX,
        precision.nanos(time) == time * precision.unit(),
{
}

proof fn lemma_rows_are_points(
    rows: Seq<Stored>,
    result: Seq<Seq<Seq<char>>>,
    precision: TsPrecision,
)
    requires
        result.len() == rows.len(),
        forall|i: int|
            0 <= i < rows.len() ==> #[trigger] result[i] == seq![
                number::decimal(rows[i].time),
                rows[i].bid,
                rows[i].ask,
                rows[i].symbol,
            ],
        forall|i: int|
            0 <= i < rows.len() ==> i64::MIN <= (#[trigger] rows[i]).time * precision.unit()
                <= i64::MAX,
    ensures
        query::row_points(result, precision) is Ok,
        query::row_points(result, precision)->Ok_0.len() == rows.len(),
        forall|i: int|
            0 <= i < rows.len() ==> is_point_of(
                #[trigger] query::row_points(result, precision)->Ok_0[i],
                rows[i],
                precision,
            ),
    decreases rows.len(),
{
    if rows.len() > 0 {
        let n = rows.len() - 1;
        let before = rows.drop_last();
        let earlier = result.drop_last();
        assert forall|i: int| 0 <= i < before.len() implies #[trigger] earlier[i] == seq![
            number::decimal(before[i].time),
            before[i].bid,
            before[i].ask,
            before[i].symbol,
        ] by {
            assert(earlier[i] == result[i] && before[i] == rows[i]);
        }
        assert forall|i: int| 0 <= i < before.len() implies i64::MIN <= (
        #[trigger] before[i]).time * precision.unit() <= i64::MAX by {
            assert(before[i] == rows[i]);
        }
        lemma_rows_are_points(before, earlier, precision);
        assert(result.last() == result[n] && rows[n] == rows.last());
        lemma_time_fits(precision, rows[n].time);
        number::law_signed_reads_decimal(rows[n].time);
        let points = query::row_points(earlier, precision)->Ok_0;
        let all = query::row_points(result, precision)->Ok_0;
        assert(all.len() == points.len() + 1);
        assert forall|i: int| 0 <= i < rows.len() implies is_point_of(
            #[trigger] all[i],
            rows[i],
            precision,
        ) by {
            if i < n {
                assert(all[i] == points[i]);
                assert(before[i] == rows[i]);
            }
        }
    }
}

/// A query gives the points of its interval, all of them, each once, the oldest first. The question
/// that it sends is for the table that it was asked for; where a server finds no more rows than the
/// configuration allows, the points are the rows that the table holds from the start of the
/// interval in nanoseconds to its end, in the order of time; where it finds more, the query fails,
/// and does not give a part of them.
pub proof fn law_query_gives_the_interval_oldest_first(
    pool: PoolView,
    table: Seq<char>,
    start_ns: i64,
    end_ns: i64,
    described: TaosResult<TaosExecResult>,
    held: Set<Stored>,
    found: Seq<Stored>,
    reply: TaosResult<TaosExecResult>,
)
    requires
        sql::stable_fault(table) is None,
        pool.config.max_query_rows < i64::MAX,
        ({
            let asked = (QueryView::Describe { table, start_ns, end_ns }).after(pool, described);
            let select = read_select(asked->Running_0.next_sql())->0;
            &&& asked is Running
            &&& select.finds(held, found)
            &&& reply matches Ok(result) && select.is_answered(
                result@.rows,
                select.given(found),
            )
        }),
    ensures
        ({
            let session = (QueryView::Describe { table, start_ns, end_ns }).after(
                pool,
                described,
            )->Running_0;
            let unit = pool.precision.unit();
            &&& read_select(session.next_sql()) is Some
            &&& read_select(session.next_sql())->0.table == table
            &&& forall|row: Stored| #[trigger]
                found.contains(row) == (held.contains(row) && start_ns <= row.time * unit
                    <= end_ns)
            &&& match session.after(pool, reply) {
                QueryStepView::Done(points) => {
                    &&& found.len() <= pool.config.max_query_rows
                    &&& points.len() == found.len()
                    &&& forall|i: int|
                        0 <= i < points.len() ==> is_point_of(
                            #[trigger] points[i],
                            found[i],
                            pool.precision,
                        )
                    &&& forall|i: int, j: int|
                        0 <= i <= j < points.len() ==> (#[trigger] points[i]).timestamp_ns <= (
                        #[trigger] points[j]).timestamp_ns
                },
                QueryStepView::Failed(_) => found.len() > pool.config.max_query_rows,
                QueryStepView::Running(_) => false,
            }
        }),
{
    let precision = pool.precision;
    let unit = precision.unit();
    let max = pool.config.max_query_rows as int;
    let session = (QueryView::Describe { table, start_ns, end_ns }).after(
        pool,
        described,
    )->Running_0;
    lemma_read_select(table, precision, start_ns, end_ns, max + 1);
    let select = read_select(session.next_sql())->0;
    assert(session.next_sql() == query::select_text(table, precision, start_ns, end_ns, max + 1));
    assert forall|row: Stored| #[trigger] found.contains(row) == (held.contains(row) && start_ns
        <= row.time * unit <= end_ns) by {
        query::law_interval_is_closed(precision, start_ns as int, end_ns as int, row.time);
    }
    let result = reply->Ok_0;
    let given = select.given(found);
    assert forall|i: int| 0 <= i < given.len() implies #[trigger] result@.rows[i] == seq![
        number::decimal(given[i].time),
        given[i].bid,
        given[i].ask,
        given[i].symbol,
    ] by {
        assert(result@.rows[i] == select.cells(given[i]));
        lemma_columns_differ();
        assert(select.cells(given[i]) =~= seq![
            number::decimal(given[i].time),
            given[i].bid,
            given[i].ask,
            given[i].symbol,
        ]);
    }
    assert forall|i: int| 0 <= i < given.len() implies i64::MIN <= (#[trigger] given[i]).time * unit
        <= i64::MAX by {
        assert(given[i] == found[i]);
        assert(found.contains(found[i]));
    }
    lemma_rows_are_points(given, result@.rows, precision);
    if found.len() <= max {
        let points = query::row_points(result@.rows, precision)->Ok_0;
        assert forall|i: int, j: int| 0 <= i <= j < points.len() implies (
        #[trigger] points[i]).timestamp_ns <= (#[trigger] points[j]).timestamp_ns by {
            assert(is_point_of(points[i], found[i], precision));
            assert(is_point_of(points[j], found[j], precision));
            assert(found[i].time <= found[j].time);
            let a = found[i].time;
            let b = found[j].time;
            assert(a * unit <= b * unit) by (nonlinear_arith)
                requires
                    a <= b,
                    unit >= 0,
            ;
        }
    }
}

proof fn lemma_columns_differ()
    ensures
        "ts"@ != "bid"@,
        "ts"@ != "ask"@,
        "ts"@ != "symbol"@,
        "bid"@ != "ask"@,
        "bid"@ != "symbol"@,
        "ask"@ != "symbol"@,
{
    reveal_strlit("ts");
    reveal_strlit("bid");
    reveal_strlit("ask");
    reveal_strlit("symbol");
    assert("bid"@[0] != "ask"@[0]);
    assert("ts"@.len() != "bid"@.len());
    assert("ts"@.len() != "symbol"@.len());
    assert("bid"@.len() != "symbol"@.len());
}

// ---------------------------------------------------------------------------
// Databases
// ---------------------------------------------------------------------------

/// The word for a precision in a server's tables.
pub open spec fn precision_word(precision: TsPrecision) -> Seq<char> {
    match precision {
        TsPrecision::Ms => "ms"@,
        TsPrecision::Us => "us"@,
        TsPrecision::Ns => "ns"@,
    }
}

/// What a server with these databases answers to a question for a column of the table that tells of
/// them, of the row of one database.
pub open spec fn told_of_database(
    question: Seq<char>,
    databases: Map<Seq<char>, TsPrecision>,
) -> Option<Seq<char>> {
    let start = after(question, "SELECT "@);
    let column = read_name(start->0);
    let source = after((column->0).1, " FROM information_schema.ins_databases WHERE name="@);
    let name = read_text(source->0);
    if start is Some && column is Some && source is Some && name is Some && (name->0).1.len() == 0
        && databases.dom().contains((name->0).0) {
        if (column->0).0 == "precision"@ {
            Some(precision_word(databases[(name->0).0]))
        } else if (column->0).0 == "name"@ {
            Some((name->0).0)
        } else {
            None
        }
    } else {
        None
    }
}

/// The database that a statement makes a server create where there is none.
pub open spec fn created_by(statement: Seq<char>) -> Option<Seq<char>> {
    let start = after(statement, "CREATE DATABASE IF NOT EXISTS "@);
    let name = read_name(start->0);
    let keep = after((name->0).1, " KEEP "@);
    let days = read_integer(keep->0);
    if start is Some && name is Some && keep is Some && days is Some && (days->0).1.len() == 0
        && (days->0).0 > 0 {
        Some((name->0).0)
    } else {
        None
    }
}

/// The question for the precision of a database is answered with it: whatever databases a server
/// has, its answer is read as the precision of that one.
pub proof fn law_precision_of_the_database_is_detected(
    pool: PoolView,
    databases: Map<Seq<char>, TsPrecision>,
    reply: TaosResult<TaosExecResult>,
)
    requires
        databases.dom().contains(pool.config.database),
        reply matches Ok(result) && result@.first_cell() == told_of_database(
            ConnectStage::DetectPrecision.next_sql(pool.config.database).0,
            databases,
        ),
    ensures
        ({
            let found = databases[pool.config.database];
            let step = ConnectStage::DetectPrecision.after(pool, reply);
            &&& connect::detected(reply) == Ok::<TsPrecision, ErrorView>(found)
            &&& pool.config.precision is None || pool.config.precision == Some(found) ==> step
                == ConnectView::Running(ConnectStage::Ping)
                && ConnectStage::DetectPrecision.pool_after(pool, reply) == (PoolView {
                precision: found,
                ..pool
            })
            &&& pool.config.precision is Some && pool.config.precision != Some(found) ==> step
                is Failed && step->Failed_0 is Config
        }),
{
    let name = pool.config.database;
    let tick = seq!['`'];
    let quote = seq!['\''];
    let none = Seq::<char>::empty();
    let source = " FROM information_schema.ins_databases WHERE name="@;
    let r1 = quote + (sql::escaped(name) + (quote + none));
    let r0 = source + r1;
    let question = ConnectStage::DetectPrecision.next_sql(name).0;
    assert(question == "SELECT "@ + (tick + ("precision"@ + (tick + r0)))) by {
        reveal_strlit("SELECT `precision` FROM information_schema.ins_databases WHERE name='");
        reveal_strlit("'");
        reveal_strlit("SELECT ");
        reveal_strlit("precision");
        reveal_strlit(" FROM information_schema.ins_databases WHERE name=");
        let head = "SELECT `precision` FROM information_schema.ins_databases WHERE name='"@;
        assert("'"@ =~= quote + none);
        assert(head =~= "SELECT "@ + (tick + ("precision"@ + (tick + (source + quote)))));
        lemma_assoc(head, sql::escaped(name), "'"@);
        let tail = sql::escaped(name) + (quote + none);
        assert(head + tail =~= "SELECT "@ + (tick + ("precision"@ + (tick + (source + (quote
            + tail))))));
    }
    lemma_after("SELECT "@, tick + ("precision"@ + (tick + r0)));
    assert(forall|i: int| 0 <= i < "precision"@.len() ==> #[trigger] "precision"@[i] != '`') by {
        reveal_strlit("precision");
    }
    lemma_read_name("precision"@, r0);
    lemma_after(source, r1);
    lemma_read_text(name, none);
    lemma_precision_word(databases[name]);
}

proof fn lemma_precision_word(precision: TsPrecision)
    ensures
        TsPrecision::named(precision_word(precision)) == Some(precision),
{
    reveal_strlit("ms");
    reveal_strlit("us");
    reveal_strlit("ns");
    let word = precision_word(precision);
    assert(text::trimmed(word) == word);
    assert(text::lowered(word) =~= word);
    assert("ms"@[0] != "us"@[0]);
    assert("ms"@[0] != "ns"@[0]);
    assert("us"@[0] != "ns"@[0]);
}

/// Connecting creates the database that the configuration names, where there is none, before it
/// asks anything of it, and asks for a sign of life last. Neither the creation nor the question goes
/// to the endpoint of the database, which may not be there yet; the ping does.
pub proof fn law_connecting_creates_then_asks_then_pings(
    pool: PoolView,
    created: TaosResult<TaosExecResult>,
)
    requires
        sql::ident_fault(pool.config.database) is None,
        created is Ok,
    ensures
        created_by(ConnectStage::CreateDatabase.next_sql(pool.config.database).0) == Some(
            pool.config.database,
        ),
        !ConnectStage::CreateDatabase.next_sql(pool.config.database).1,
        !ConnectStage::DetectPrecision.next_sql(pool.config.database).1,
        ConnectStage::Ping.next_sql(pool.config.database) == ("SELECT SERVER_VERSION()"@, true),
        ConnectStage::CreateDatabase.after(pool, created) == ConnectView::Running(
            ConnectStage::DetectPrecision,
        ),
        ConnectStage::CreateDatabase.pool_after(pool, created) == pool,
{
    let name = pool.config.database;
    let tick = seq!['`'];
    let none = Seq::<char>::empty();
    let days = number::decimal(3650) + none;
    let r0 = " KEEP "@ + days;
    assert(ConnectStage::CreateDatabase.next_sql(name).0 == "CREATE DATABASE IF NOT EXISTS "@ + (tick
        + (name + (tick + r0)))) by {
        reveal_strlit("CREATE DATABASE IF NOT EXISTS `");
        reveal_strlit("` KEEP 3650");
        reveal_strlit("CREATE DATABASE IF NOT EXISTS ");
        reveal_strlit(" KEEP ");
        reveal_with_fuel(number::digits, 5);
        assert(number::decimal(3650) =~= seq!['3', '6', '5', '0']);
        let head = "CREATE DATABASE IF NOT EXISTS `"@;
        let end = "` KEEP 3650"@;
        assert(head =~= "CREATE DATABASE IF NOT EXISTS "@ + tick);
        assert(end =~= tick + r0);
        lemma_assoc(head, name, end);
        lemma_assoc("CREATE DATABASE IF NOT EXISTS "@, tick, name + end);
    }
    lemma_ident_is_plain(name);
    lemma_after("CREATE DATABASE IF NOT EXISTS "@, tick + (name + (tick + r0)));
    lemma_read_name(name, r0);
    lemma_after(" KEEP "@, days);
    lemma_read_integer(3650, none);
}

// ---------------------------------------------------------------------------
// Super tables
// ---------------------------------------------------------------------------

/// A column of a table.
pub struct Column {
    pub name: Seq<char>,
    pub kind: Seq<char>,
    pub length: int,
}

/// A super table: the columns of its rows, and the tags of its tables.
pub struct Schema {
    pub table: Seq<char>,
    pub columns: Seq<Column>,
    pub tags: Seq<Column>,
}

/// A column, and what follows it. One that is told no length has eight bytes.
#[verifier::opaque]
pub open spec fn read_column(s: Seq<char>) -> Option<(Column, Seq<char>)> {
    let (name, rest) = read_span(s, Class::Word);
    let gap = after(rest, " "@);
    let (kind, end) = read_span(gap->0, Class::Word);
    let open = after(end, "("@);
    let length = read_integer(open->0);
    let close = after((length->0).1, ")"@);
    if gap is None {
        None
    } else if open is None {
        Some((Column { name, kind, length: 8 }, end))
    } else if length is Some && close is Some {
        Some((Column { name, kind, length: (length->0).0 }, close->0))
    } else {
        None
    }
}

/// Columns with commas between them, and what follows them.
#[verifier::opaque]
pub open spec fn read_columns(s: Seq<char>) -> Option<(Seq<Column>, Seq<char>)>
    decreases s.len(),
{
    match read_column(s) {
        None => None,
        Some((column, rest)) => {
            let next = after(rest, ", "@);
            if next is Some && next->0.len() < s.len() {
                match read_columns(next->0) {
                    Some((others, end)) => Some((seq![column] + others, end)),
                    None => None,
                }
            } else {
                Some((seq![column], rest))
            }
        },
    }
}

/// The super table that a statement makes a server create where there is none.
#[verifier::opaque]
pub open spec fn stable_created_by(statement: Seq<char>) -> Option<Schema> {
    let start = after(statement, "CREATE STABLE IF NOT EXISTS "@);
    let table = read_name(start->0);
    let open = after((table->0).1, " ("@);
    let columns = read_columns(open->0);
    let between = after((columns->0).1, ") TAGS ("@);
    let tags = read_columns(between->0);
    let close = after((tags->0).1, ")"@);
    if start is Some && table is Some && open is Some && columns is Some && between is Some
        && tags is Some && close is Some && close->0.len() == 0 {
        Some(Schema { table: (table->0).0, columns: (columns->0).0, tags: (tags->0).0 })
    } else {
        None
    }
}

impl Schema {
    /// What a server says of the table: a row for each column and each tag.
    pub open spec fn described(self) -> Seq<Seq<Seq<char>>> {
        (self.columns + self.tags).map_values(
            |c: Column| seq![c.name, c.kind, number::decimal(c.length)],
        )
    }
}

proof fn lemma_not_after(s: Seq<char>, start: Seq<char>)
    requires
        start.len() > 0,
        s.len() == 0 || s[0] != start[0],
    ensures
        after(s, start) is None,
{
    reveal(after);
    if s.len() >= start.len() {
        assert(s.take(start.len() as int)[0] == s[0]);
    }
}

proof fn lemma_read_column(name: Seq<char>, kind: Seq<char>, length: int, rest: Seq<char>)
    requires
        all_of(name, Class::Word),
        all_of(kind, Class::Word),
        0 <= length <= i64::MAX,
    ensures
        read_column(name + (" "@ + (kind + ("("@ + (number::decimal(length) + (")"@ + rest))))))
            == Some((Column { name, kind, length }, rest)),
{
    reveal(read_column);
    reveal_strlit(" ");
    reveal_strlit("(");
    reveal_strlit(")");
    let r2 = number::decimal(length) + (")"@ + rest);
    let r1 = kind + ("("@ + r2);
    lemma_span(name, " "@ + r1, Class::Word);
    lemma_after(" "@, r1);
    lemma_span(kind, "("@ + r2, Class::Word);
    lemma_after("("@, r2);
    lemma_read_integer(length, ")"@ + rest);
    lemma_after(")"@, rest);
}

proof fn lemma_read_bare_column(name: Seq<char>, kind: Seq<char>, rest: Seq<char>)
    requires
        all_of(name, Class::Word),
        all_of(kind, Class::Word),
        rest.len() > 0,
        rest[0] == ',',
    ensures
        read_column(name + (" "@ + (kind + rest))) == Some((Column { name, kind, length: 8 }, rest)),
{
    reveal(read_column);
    reveal_strlit(" ");
    reveal_strlit("(");
    lemma_span(name, " "@ + (kind + rest), Class::Word);
    lemma_after(" "@, kind + rest);
    lemma_span(kind, rest, Class::Word);
    lemma_not_after(rest, "("@);
}

proof fn lemma_read_columns_last(s: Seq<char>, column: Column, rest: Seq<char>)
    requires
        read_column(s) == Some((column, rest)),
        rest.len() == 0 || rest[0] != ',',
    ensures
        read_columns(s) == Some((seq![column], rest)),
{
    reveal_with_fuel(read_columns, 1);
    reveal_strlit(", ");
    lemma_not_after(rest, ", "@);
}

proof fn lemma_read_columns_more(s: Seq<char>, column: Column, rest: Seq<char>)
    requires
        read_column(s) == Some((column, ", "@ + rest)),
        rest.len() < s.len(),
        read_columns(rest) is Some,
    ensures
        read_columns(s) == Some((seq![column] + (read_columns(rest)->0).0, (read_columns(rest)->0).1)),
{
    reveal_with_fuel(read_columns, 1);
    lemma_after(", "@, rest);
}

/// The statement that creates a super table, part by part.
spec fn stable_parts(table: Seq<char>) -> (Seq<char>, Seq<char>, Seq<char>, Seq<char>, Seq<char>) {
    let symbol = "symbol"@ + (" "@ + ("NCHAR"@ + ("("@ + (number::decimal(128) + (")"@ + ")"@)))));
    let ask = "ask"@ + (" "@ + ("NCHAR"@ + ("("@ + (number::decimal(64) + (")"@ + (") TAGS ("@
        + symbol))))));
    let bid = "bid"@ + (" "@ + ("NCHAR"@ + ("("@ + (number::decimal(64) + (")"@ + (", "@ + ask))))));
    let ts = "ts"@ + (" "@ + ("TIMESTAMP"@ + (", "@ + bid)));
    let tick = seq!['`'];
    (
        "CREATE STABLE IF NOT EXISTS "@ + (tick + (table + (tick + (" ("@ + ts)))),
        ts,
        bid,
        ask,
        symbol,
    )
}

proof fn lemma_stable_parts(table: Seq<char>)
    ensures
        batch::create_stable_text(table) == stable_parts(table).0,
{
    let tick = seq!['`'];
    let head = "CREATE STABLE IF NOT EXISTS `"@;
    let end = "` (ts TIMESTAMP, bid NCHAR(64), ask NCHAR(64)) TAGS (symbol NCHAR(128))"@;
    let ts = stable_parts(table).1;
    reveal_strlit("CREATE STABLE IF NOT EXISTS `");
    reveal_strlit("CREATE STABLE IF NOT EXISTS ");
    reveal_strlit("` (ts TIMESTAMP, bid NCHAR(64), ask NCHAR(64)) TAGS (symbol NCHAR(128))");
    reveal_strlit(" (");
    reveal_strlit("ts");
    reveal_strlit(" ");
    reveal_strlit("TIMESTAMP");
    reveal_strlit(", ");
    reveal_strlit("bid");
    reveal_strlit("NCHAR");
    reveal_strlit("(");
    reveal_strlit(")");
    reveal_strlit("ask");
    reveal_strlit(") TAGS (");
    reveal_strlit("symbol");
    reveal_with_fuel(number::digits, 4);
    assert(number::decimal(64) =~= seq!['6', '4']);
    assert(number::decimal(128) =~= seq!['1', '2', '8']);
    assert(head =~= "CREATE STABLE IF NOT EXISTS "@ + tick);
    assert(end =~= tick + (" ("@ + ts));
    lemma_assoc(head, table, end);
    lemma_assoc("CREATE STABLE IF NOT EXISTS "@, tick, table + end);
}

/// A table that was created is fit to be written to: a server that creates the super table as it is
/// told, and then says what it has created, is found to hold what a point is made of without
/// loss. Its columns are the time and the two values, in the order in which a row gives them, and
/// its one tag is long enough for any tag that is written.
pub proof fn law_created_table_is_fit(table: Seq<char>, reply: TaosResult<TaosExecResult>)
    requires
        sql::stable_fault(table) is None,
        reply matches Ok(result) && result@.rows == stable_created_by(
            batch::create_stable_text(table),
        )->0.described(),
    ensures
        ({
            let schema = stable_created_by(batch::create_stable_text(table));
            &&& schema is Some
            &&& schema->0.table == table
            &&& schema->0.columns.len() == 3
            &&& schema->0.columns[0].name == "ts"@ && schema->0.columns[0].kind == "TIMESTAMP"@
            &&& schema->0.columns[1].name == "bid"@ && schema->0.columns[1].kind == "NCHAR"@
            &&& schema->0.columns[2].name == "ask"@ && schema->0.columns[2].kind == "NCHAR"@
            &&& schema->0.columns[1].length == 64 && schema->0.columns[2].length == 64
            &&& schema->0.tags.len() == 1
            &&& schema->0.tags[0].name == "symbol"@ && schema->0.tags[0].kind == "NCHAR"@
            &&& schema->0.tags[0].length >= sql::MAX_SYMBOL_BYTES
            &&& schema->0.tags[0].length == 128
        }),
        batch::described_error(reply) is None,
        after(batch::describe_text(table), "DESCRIBE "@) is Some,
        read_name(after(batch::describe_text(table), "DESCRIBE "@)->0) == Some(
            (table, Seq::<char>::empty()),
        ),
{
    let tick = seq!['`'];
    let none = Seq::<char>::empty();
    let (s, ts, bid, ask, symbol) = stable_parts(table);
    lemma_stable_parts(table);
    lemma_ident_is_plain(table);
    assert(all_of("ts"@, Class::Word) && all_of("bid"@, Class::Word) && all_of(
        "ask"@,
        Class::Word,
    ) && all_of("symbol"@, Class::Word) && all_of("NCHAR"@, Class::Word) && all_of(
        "TIMESTAMP"@,
        Class::Word,
    )) by {
        reveal_strlit("ts");
        reveal_strlit("bid");
        reveal_strlit("ask");
        reveal_strlit("symbol");
        reveal_strlit("NCHAR");
        reveal_strlit("TIMESTAMP");
    }
    let c_ts = Column { name: "ts"@, kind: "TIMESTAMP"@, length: 8 };
    let c_bid = Column { name: "bid"@, kind: "NCHAR"@, length: 64 };
    let c_ask = Column { name: "ask"@, kind: "NCHAR"@, length: 64 };
    let c_symbol = Column { name: "symbol"@, kind: "NCHAR"@, length: 128 };
    assert((", "@ + bid).len() > 0 && (", "@ + bid)[0] == ',' && (") TAGS ("@ + symbol).len() > 0
        && (") TAGS ("@ + symbol)[0] == ')' && ")"@.len() > 0 && ")"@[0] == ')' && bid.len()
        < ts.len() && ask.len() < bid.len()) by {
        reveal_strlit(", ");
        reveal_strlit(") TAGS (");
        reveal_strlit(")");
    }
    lemma_read_column("symbol"@, "NCHAR"@, 128, ")"@);
    lemma_read_columns_last(symbol, c_symbol, ")"@);
    lemma_read_column("ask"@, "NCHAR"@, 64, ") TAGS ("@ + symbol);
    lemma_read_columns_last(ask, c_ask, ") TAGS ("@ + symbol);
    lemma_read_column("bid"@, "NCHAR"@, 64, ", "@ + ask);
    lemma_read_columns_more(bid, c_bid, ask);
    lemma_read_bare_column("ts"@, "TIMESTAMP"@, ", "@ + bid);
    lemma_read_columns_more(ts, c_ts, bid);
    lemma_after("CREATE STABLE IF NOT EXISTS "@, tick + (table + (tick + (" ("@ + ts))));
    lemma_read_name(table, " ("@ + ts);
    lemma_after(" ("@, ts);
    lemma_after(") TAGS ("@, symbol);
    assert(")"@ + none =~= ")"@);
    lemma_after(")"@, none);
    reveal(stable_created_by);
    let schema = stable_created_by(batch::create_stable_text(table))->0;
    assert(schema.columns =~= seq![c_ts, c_bid, c_ask]);
    assert(schema.tags =~= seq![c_symbol]);
    let rows = schema.described();
    lemma_described_is_wide(rows);
    assert(batch::describe_text(table) == "DESCRIBE "@ + (tick + (table + (tick + none)))) by {
        reveal_strlit("DESCRIBE `");
        reveal_strlit("DESCRIBE ");
        reveal_strlit("`");
        assert("DESCRIBE `"@ =~= "DESCRIBE "@ + tick);
        assert("`"@ =~= tick + none);
        lemma_assoc("DESCRIBE `"@, table, "`"@);
        lemma_assoc("DESCRIBE "@, tick, table + (tick + none));
    }
    lemma_after("DESCRIBE "@, tick + (table + (tick + none)));
    lemma_read_name(table, none);
}

proof fn lemma_plain_word(word: Seq<char>)
    requires
        word.len() > 0,
        !text::is_space(word[0]),
        !text::is_space(word.last()),
    ensures
        text::trimmed(word) == word,
{
}

proof fn lemma_described_is_wide(rows: Seq<Seq<Seq<char>>>)
    requires
        rows.len() == 4,
        rows[0] == seq!["ts"@, "TIMESTAMP"@, number::decimal(8)],
        rows[1] == seq!["bid"@, "NCHAR"@, number::decimal(64)],
        rows[2] == seq!["ask"@, "NCHAR"@, number::decimal(64)],
        rows[3] == seq!["symbol"@, "NCHAR"@, number::decimal(128)],
    ensures
        response::column_is_wide(rows, "bid"@),
        response::column_is_wide(rows, "ask"@),
{
    lemma_columns_differ();
    assert(text::trimmed("bid"@) == "bid"@ && text::trimmed("ask"@) == "ask"@ && text::trimmed(
        "symbol"@,
    ) == "symbol"@ && text::trimmed("NCHAR"@) == "NCHAR"@ && text::lowered("bid"@) == "bid"@
        && text::lowered("ask"@) == "ask"@ && text::lowered("symbol"@) == "symbol"@
        && text::lowered("NCHAR"@) == "nchar"@) by {
        reveal_strlit("bid");
        reveal_strlit("ask");
        reveal_strlit("symbol");
        reveal_strlit("NCHAR");
        reveal_strlit("nchar");
        lemma_plain_word("bid"@);
        lemma_plain_word("ask"@);
        lemma_plain_word("symbol"@);
        lemma_plain_word("NCHAR"@);
        assert(text::lowered("bid"@) =~= "bid"@);
        assert(text::lowered("ask"@) =~= "ask"@);
        assert(text::lowered("symbol"@) =~= "symbol"@);
        assert(text::lowered("NCHAR"@) =~= "nchar"@);
    }
    let size = number::decimal(64);
    assert(text::trimmed(size) == size && number::unsigned(size, usize::MAX as nat) == Some(
        64nat,
    )) by {
        number::law_unsigned_reads_decimal(64, usize::MAX as nat);
        number::lemma_digits_denote(64);
        assert(text::is_digit(size[0]));
        assert(text::is_digit(size[size.len() - 1]));
        lemma_plain_word(size);
    }
    let three = rows.drop_last();
    let two = three.drop_last();
    assert(rows.last() == rows[3] && three.last() == rows[2] && two.last() == rows[1]);
    reveal_with_fuel(response::column_is_wide, 4);
}

} // verus!
