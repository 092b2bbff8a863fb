//! `INSERT` statements for a batch of points, cut into chunks by rows and by bytes.

use vstd::prelude::*;

use super::sql;
use crate::config::{TsPrecision, HARD_MAX_BATCH_BYTES, HARD_MAX_BATCH_ROWS};
#[allow(unused_imports)]
use crate::error::ErrorView;
use crate::error::{TaosError, TaosResult};
use crate::number;
use crate::point;
#[allow(unused_imports)]
use crate::point::PointView;
use crate::point::TaosPoint;
use crate::text;

verus! {

/// One statement and the number of its rows.
pub type SqlChunk = (String, usize);

// ---------------------------------------------------------------------------
// One row
// ---------------------------------------------------------------------------

/// The part of an `INSERT` for one point.
pub open spec fn row_text(table: Seq<char>, p: PointView, precision: TsPrecision) -> Seq<char> {
    "`"@ + sql::subtable(table, p.tag_value) + "` USING `"@ + table + "` TAGS ('"@ + sql::escaped(
        p.tag_value,
    ) + "') VALUES ("@ + number::decimal(precision.stored(p.timestamp_ns as int)) + ",'"@
        + sql::escaped(p.first) + "','"@ + sql::escaped(p.second) + "')"@
}

/// Why a point cannot be written; `None` where it can.
pub open spec fn point_fault(
    table: Seq<char>,
    p: PointView,
    precision: TsPrecision,
    max_bytes: nat,
) -> Option<ErrorView> {
    if text::byte_len(p.tag_value) > sql::MAX_SYMBOL_BYTES {
        Some(ErrorView::Invalid(sql::tag_too_long()))
    } else if !sql::is_lossless(p.timestamp_ns as int, precision) {
        Some(ErrorView::Invalid(sql::timestamp_fault(p.timestamp_ns as int, precision)))
    } else if text::byte_len(sql::INSERT_PREFIX@) + text::byte_len(row_text(table, p, precision))
        > max_bytes {
        Some(
            ErrorView::Invalid(
                "单行 SQL 超过 batch_max_bytes="@ + number::decimal(max_bytes as int),
            ),
        )
    } else {
        None
    }
}

/// The fault of the first point that has one.
pub open spec fn first_fault(
    table: Seq<char>,
    points: Seq<PointView>,
    precision: TsPrecision,
    max_bytes: nat,
) -> Option<ErrorView>
    decreases points.len(),
{
    if points.len() == 0 {
        None
    } else {
        match first_fault(table, points.drop_last(), precision, max_bytes) {
            Some(fault) => Some(fault),
            None => point_fault(table, points.last(), precision, max_bytes),
        }
    }
}

/// The row of each point.
pub open spec fn row_texts(
    table: Seq<char>,
    points: Seq<PointView>,
    precision: TsPrecision,
) -> Seq<Seq<char>> {
    points.map_values(|p: PointView| row_text(table, p, precision))
}

// ---------------------------------------------------------------------------
// Groups of rows
// ---------------------------------------------------------------------------

/// The texts with one space between each two.
pub open spec fn spaced(rows: Seq<Seq<char>>) -> Seq<char>
    decreases rows.len(),
{
    if rows.len() == 0 {
        Seq::empty()
    } else if rows.len() == 1 {
        rows[0]
    } else {
        spaced(rows.drop_last()) + " "@ + rows.last()
    }
}

/// The statement that inserts a group of rows.
pub open spec fn statement(group: Seq<Seq<char>>) -> Seq<char> {
    sql::INSERT_PREFIX@ + spaced(group)
}

/// The group can take one more row without breaking a limit.
pub open spec fn fits(group: Seq<Seq<char>>, row: Seq<char>, max_rows: nat, max_bytes: nat) -> bool {
    &&& group.len() < max_rows
    &&& text::byte_len(statement(group)) + 1 + text::byte_len(row) <= max_bytes
}

/// The rows in groups: each row joins the group before it where it fits, and opens a new one
/// where it does not.
pub open spec fn grouped(rows: Seq<Seq<char>>, max_rows: nat, max_bytes: nat) -> Seq<
    Seq<Seq<char>>,
>
    decreases rows.len(),
{
    if rows.len() == 0 {
        Seq::empty()
    } else {
        let groups = grouped(rows.drop_last(), max_rows, max_bytes);
        if groups.len() > 0 && fits(groups.last(), rows.last(), max_rows, max_bytes) {
            groups.drop_last().push(groups.last().push(rows.last()))
        } else {
            groups.push(seq![rows.last()])
        }
    }
}

/// The statement and the number of rows of each group.
pub open spec fn statements(groups: Seq<Seq<Seq<char>>>) -> Seq<(Seq<char>, nat)> {
    groups.map_values(|group: Seq<Seq<char>>| (statement(group), group.len()))
}

/// The chunks for a batch of points, or the first reason why there are none.
pub open spec fn insert_chunks(
    table: Seq<char>,
    points: Seq<PointView>,
    precision: TsPrecision,
    max_rows: nat,
    max_bytes: nat,
) -> Result<Seq<(Seq<char>, nat)>, ErrorView> {
    if sql::stable_fault(table) is Some {
        Err(ErrorView::Invalid(sql::stable_fault(table)->0))
    } else if max_rows == 0 || max_rows > HARD_MAX_BATCH_ROWS {
        Err(
            ErrorView::Invalid(
                "max_rows 必须为 1..="@ + number::decimal(HARD_MAX_BATCH_ROWS as int),
            ),
        )
    } else if max_bytes < text::byte_len(sql::INSERT_PREFIX@) || max_bytes > HARD_MAX_BATCH_BYTES {
        Err(
            ErrorView::Invalid(
                "max_bytes 必须为 "@ + number::decimal(
                    text::byte_len(sql::INSERT_PREFIX@) as int,
                ) + "..="@ + number::decimal(HARD_MAX_BATCH_BYTES as int),
            ),
        )
    } else {
        match first_fault(table, points, precision, max_bytes) {
            Some(fault) => Err(fault),
            None => Ok(
                statements(grouped(row_texts(table, points, precision), max_rows, max_bytes)),
            ),
        }
    }
}

/// The chunks with texts as sequences of characters.
pub open spec fn chunk_views(chunks: Seq<SqlChunk>) -> Seq<(Seq<char>, nat)> {
    chunks.map_values(|chunk: SqlChunk| (chunk.0@, chunk.1 as nat))
}

// ---------------------------------------------------------------------------
// Building
// ---------------------------------------------------------------------------

/// The row of one point; the table's name is a valid one.
fn build_row(table: &str, p: &TaosPoint, precision: TsPrecision) -> (r: TaosResult<String>)
    requires
        sql::stable_fault(table@) is None,
    ensures
        match r {
            Ok(row) => text::byte_len(p@.tag_value) <= sql::MAX_SYMBOL_BYTES && sql::is_lossless(
                p@.timestamp_ns as int,
                precision,
            ) && row@ == row_text(table@, p@, precision),
            Err(e) => forall|max_bytes: nat| #[trigger]
                point_fault(table@, p@, precision, max_bytes) == Some(e@),
        },
{
    let subtable = match sql::subtable_name(table, p.tag_value.as_str()) {
        Ok(name) => name,
        Err(e) => {
            return Err(e);
        },
    };
    let tag = sql::escape_str(p.tag_value.as_str());
    let timestamp: i64 = match sql::encode_timestamp(p.timestamp_ns, precision) {
        Ok(stored) => stored,
        Err(e) => {
            return Err(e);
        },
    };
    let first = sql::escape_str(p.values[0].as_str());
    let second = sql::escape_str(p.values[1].as_str());
    let mut row = String::from("`");
    text::push_text(&mut row, subtable.as_str());
    text::push_text(&mut row, "` USING `");
    text::push_text(&mut row, table);
    text::push_text(&mut row, "` TAGS ('");
    text::push_text(&mut row, tag.as_str());
    text::push_text(&mut row, "') VALUES (");
    text::push_text(&mut row, number::decimal_i64(timestamp).as_str());
    text::push_text(&mut row, ",'");
    text::push_text(&mut row, first.as_str());
    text::push_text(&mut row, "','");
    text::push_text(&mut row, second.as_str());
    text::push_text(&mut row, "')");
    Ok(row)
}

proof fn lemma_first_fault_step(
    table: Seq<char>,
    points: Seq<PointView>,
    precision: TsPrecision,
    max_bytes: nat,
    i: int,
)
    requires
        0 <= i < points.len(),
        first_fault(table, points.take(i), precision, max_bytes) is None,
    ensures
        first_fault(table, points.take(i + 1), precision, max_bytes) == point_fault(
            table,
            points[i],
            precision,
            max_bytes,
        ),
{
    assert(points.take(i + 1).drop_last() =~= points.take(i));
}

proof fn lemma_first_fault_stays(
    table: Seq<char>,
    points: Seq<PointView>,
    precision: TsPrecision,
    max_bytes: nat,
    i: int,
)
    requires
        0 <= i <= points.len(),
        first_fault(table, points.take(i), precision, max_bytes) is Some,
    ensures
        first_fault(table, points, precision, max_bytes) == first_fault(
            table,
            points.take(i),
            precision,
            max_bytes,
        ),
    decreases points.len() - i,
{
    if i < points.len() {
        assert(points.take(i + 1).drop_last() =~= points.take(i));
        lemma_first_fault_stays(table, points, precision, max_bytes, i + 1);
    } else {
        assert(points.take(i) =~= points);
    }
}

/// A row that fits joins the last group.
proof fn lemma_row_joins(texts: Seq<Seq<char>>, i: int, max_rows: nat, max_bytes: nat)
    requires
        0 <= i < texts.len(),
        ({
            let groups = grouped(texts.take(i), max_rows, max_bytes);
            groups.len() > 0 && groups.last().len() > 0 && fits(
                groups.last(),
                texts[i],
                max_rows,
                max_bytes,
            )
        }),
    ensures
        ({
            let groups = grouped(texts.take(i), max_rows, max_bytes);
            let next = grouped(texts.take(i + 1), max_rows, max_bytes);
            &&& next.len() == groups.len()
            &&& next.last().len() == groups.last().len() + 1
            &&& next.drop_last() == groups.drop_last()
            &&& statement(next.last()) == statement(groups.last()) + " "@ + texts[i]
            &&& text::byte_len(statement(next.last())) <= max_bytes
        }),
{
    let groups = grouped(texts.take(i), max_rows, max_bytes);
    let next = grouped(texts.take(i + 1), max_rows, max_bytes);
    let group = groups.last();
    let row = texts[i];
    assert(texts.take(i + 1).drop_last() =~= texts.take(i));
    assert(next.drop_last() =~= groups.drop_last());
    assert(group.push(row).drop_last() =~= group);
    assert(statement(next.last()) =~= statement(group) + " "@ + row);
    reveal_strlit(" ");
    assert(" "@ =~= seq![' ']);
    text::lemma_encode_concat(statement(group) + " "@, row);
    text::lemma_encode_concat(statement(group), " "@);
    text::lemma_byte_len_one(' ');
}

/// A row that does not fit opens a group.
proof fn lemma_row_opens(texts: Seq<Seq<char>>, i: int, max_rows: nat, max_bytes: nat)
    requires
        0 <= i < texts.len(),
        ({
            let groups = grouped(texts.take(i), max_rows, max_bytes);
            groups.len() == 0 || !fits(groups.last(), texts[i], max_rows, max_bytes)
        }),
    ensures
        ({
            let groups = grouped(texts.take(i), max_rows, max_bytes);
            let next = grouped(texts.take(i + 1), max_rows, max_bytes);
            &&& next.len() == groups.len() + 1
            &&& next.last() == seq![texts[i]]
            &&& next.drop_last() == groups
            &&& statement(next.last()) == sql::INSERT_PREFIX@ + texts[i]
            &&& text::byte_len(statement(next.last())) == text::byte_len(sql::INSERT_PREFIX@)
                + text::byte_len(texts[i])
        }),
{
    let groups = grouped(texts.take(i), max_rows, max_bytes);
    let next = grouped(texts.take(i + 1), max_rows, max_bytes);
    assert(texts.take(i + 1).drop_last() =~= texts.take(i));
    assert(next.drop_last() =~= groups);
    text::lemma_encode_concat(sql::INSERT_PREFIX@, texts[i]);
}

/// The statements of all groups are those of all but the last, and the last one's.
proof fn lemma_statements_last(groups: Seq<Seq<Seq<char>>>)
    requires
        groups.len() > 0,
    ensures
        statements(groups) == statements(groups.drop_last()).push(
            (statement(groups.last()), groups.last().len()),
        ),
{
    assert(statements(groups) =~= statements(groups.drop_last()).push(
        (statement(groups.last()), groups.last().len()),
    ));
}

/// Closes a chunk.
fn close_chunk(chunks: &mut Vec<SqlChunk>, stmt: String, rows: usize)
    ensures
        chunk_views(final(chunks)@) == chunk_views(old(chunks)@).push((stmt@, rows as nat)),
{
    let ghost view = stmt@;
    chunks.push((stmt, rows));
    assert(chunk_views(chunks@) =~= chunk_views(old(chunks)@).push((view, rows as nat)));
}

/// The chunks for a batch of points within both limits, each with the number of its rows.
pub fn build_insert_sql_chunks_with_limits(
    table: &str,
    points: &[TaosPoint],
    precision: TsPrecision,
    max_rows: usize,
    max_bytes: usize,
) -> (r: TaosResult<Vec<SqlChunk>>)
    ensures
        match r {
            Ok(chunks) => insert_chunks(
                table@,
                point::views(points@),
                precision,
                max_rows as nat,
                max_bytes as nat,
            ) == Ok::<Seq<(Seq<char>, nat)>, ErrorView>(chunk_views(chunks@)),
            Err(e) => insert_chunks(
                table@,
                point::views(points@),
                precision,
                max_rows as nat,
                max_bytes as nat,
            ) == Err::<Seq<(Seq<char>, nat)>, ErrorView>(e@),
        },
{
    match sql::validate_stable_ident(table) {
        Ok(_) => {},
        Err(e) => {
            return Err(e);
        },
    }
    if max_rows == 0 || max_rows > HARD_MAX_BATCH_ROWS {
        let mut m = String::from("max_rows 必须为 1..=");
        text::push_text(&mut m, number::decimal_usize(HARD_MAX_BATCH_ROWS).as_str());
        return Err(TaosError::Invalid(m));
    }
    let prefix_len: usize = text::bytes_of(sql::INSERT_PREFIX);
    if max_bytes < prefix_len || max_bytes > HARD_MAX_BATCH_BYTES {
        let mut m = String::from("max_bytes 必须为 ");
        text::push_text(&mut m, number::decimal_usize(prefix_len).as_str());
        text::push_text(&mut m, "..=");
        text::push_text(&mut m, number::decimal_usize(HARD_MAX_BATCH_BYTES).as_str());
        return Err(TaosError::Invalid(m));
    }
    let ghost views = point::views(points@);
    let ghost texts = row_texts(table@, views, precision);
    let ghost mr = max_rows as nat;
    let ghost mb = max_bytes as nat;

    let mut chunks: Vec<SqlChunk> = Vec::new();
    let mut stmt = String::from(sql::INSERT_PREFIX);
    let mut rows: usize = 0;
    let mut i: usize = 0;
    assert(views.take(0) =~= Seq::<PointView>::empty());
    assert(texts.take(0) =~= Seq::<Seq<char>>::empty());
    assert(chunk_views(chunks@) =~= statements(grouped(texts.take(0), mr, mb)));
    while i < points.len()
        invariant
            i <= points@.len(),
            sql::stable_fault(table@) is None,
            1 <= max_rows <= HARD_MAX_BATCH_ROWS,
            prefix_len == text::byte_len(sql::INSERT_PREFIX@),
            prefix_len <= max_bytes <= HARD_MAX_BATCH_BYTES,
            mr == max_rows,
            mb == max_bytes,
            views == point::views(points@),
            texts == row_texts(table@, views, precision),
            first_fault(table@, views.take(i as int), precision, mb) is None,
            ({
                let groups = grouped(texts.take(i as int), mr, mb);
                &&& (rows > 0) == (groups.len() > 0)
                &&& rows == 0 ==> i == 0 && stmt@ == sql::INSERT_PREFIX@ && chunks@.len() == 0
                &&& rows > 0 ==> {
                    &&& rows == groups.last().len()
                    &&& rows <= max_rows
                    &&& stmt@ == statement(groups.last())
                    &&& text::byte_len(stmt@) <= max_bytes
                    &&& chunk_views(chunks@) == statements(groups.drop_last())
                }
            }),
        decreases points@.len() - i,
    {
        let ghost groups = grouped(texts.take(i as int), mr, mb);
        let p = &points[i];
        assert(views[i as int] == p@);
        assert(texts[i as int] == row_text(table@, p@, precision));
        proof {
            lemma_first_fault_step(table@, views, precision, mb, i as int);
        }
        let row = match build_row(table, p, precision) {
            Ok(row) => row,
            Err(e) => {
                proof {
                    lemma_first_fault_stays(table@, views, precision, mb, i + 1);
                }
                return Err(e);
            },
        };
        let row_len: usize = text::bytes_of(row.as_str());
        let stmt_len: usize = text::bytes_of(stmt.as_str());
        let mut joins: bool = rows > 0;
        if joins && (rows >= max_rows || stmt_len == max_bytes || row_len > max_bytes - stmt_len
            - 1) {
            joins = false;
        }
        assert(joins == (groups.len() > 0 && fits(groups.last(), row@, mr, mb)));
        if row_len > max_bytes - prefix_len {
            let mut m = String::from("单行 SQL 超过 batch_max_bytes=");
            text::push_text(&mut m, number::decimal_usize(max_bytes).as_str());
            proof {
                lemma_first_fault_stays(table@, views, precision, mb, i + 1);
            }
            return Err(TaosError::Invalid(m));
        }
        if joins {
            proof {
                lemma_row_joins(texts, i as int, mr, mb);
            }
            text::push_text(&mut stmt, " ");
            text::push_text(&mut stmt, row.as_str());
            rows = rows + 1;
        } else {
            proof {
                lemma_row_opens(texts, i as int, mr, mb);
            }
            if rows > 0 {
                proof {
                    lemma_statements_last(groups);
                }
                close_chunk(&mut chunks, stmt, rows);
            } else {
                assert(chunk_views(chunks@) =~= statements(groups));
            }
            stmt = String::from(sql::INSERT_PREFIX);
            text::push_text(&mut stmt, row.as_str());
            rows = 1;
        }
        i = i + 1;
    }
    assert(views.take(i as int) =~= views);
    assert(texts.take(i as int) =~= texts);
    let ghost groups = grouped(texts, mr, mb);
    if rows > 0 {
        proof {
            lemma_statements_last(groups);
        }
        close_chunk(&mut chunks, stmt, rows);
    } else {
        assert(chunk_views(chunks@) =~= statements(groups));
    }
    Ok(chunks)
}

/// The `INSERT` statements for a batch of points.
///
/// - `table` is an identifier of at most 94 bytes, or the result is [`TaosError::Invalid`];
/// - the sub-table's name is made of `table` and the tag value in hexadecimal, so that the value
///   never is part of an identifier;
/// - string literals are escaped;
/// - a time stamp that does not fit `precision` is refused, not rounded.
///
/// `max_rows` is in `1..=HARD_MAX_BATCH_ROWS`, and no row may be longer than
/// [`HARD_MAX_BATCH_BYTES`].
pub fn build_insert_sql_chunks(
    table: &str,
    points: &[TaosPoint],
    precision: TsPrecision,
    max_rows: usize,
) -> (r: TaosResult<Vec<String>>)
    ensures
        ({
            let chunks = insert_chunks(
                table@,
                point::views(points@),
                precision,
                max_rows as nat,
                HARD_MAX_BATCH_BYTES as nat,
            );
            match r {
                Ok(statements) => chunks is Ok && statements@.len() == chunks->Ok_0.len() && forall|
                    i: int,
                |
                    0 <= i < statements@.len() ==> #[trigger] statements@[i]@
                        == chunks->Ok_0[i].0,
                Err(e) => chunks == Err::<Seq<(Seq<char>, nat)>, ErrorView>(e@),
            }
        }),
{
    let chunks = match build_insert_sql_chunks_with_limits(
        table,
        points,
        precision,
        max_rows,
        HARD_MAX_BATCH_BYTES,
    ) {
        Ok(chunks) => chunks,
        Err(e) => {
            return Err(e);
        },
    };
    let mut out: Vec<String> = Vec::new();
    let mut i: usize = 0;
    while i < chunks.len()
        invariant
            i <= chunks@.len(),
            out@.len() == i,
            forall|k: int| 0 <= k < i ==> #[trigger] out@[k]@ == chunk_views(chunks@)[k].0,
        decreases chunks@.len() - i,
    {
        out.push(chunks[i].0.clone());
        i = i + 1;
    }
    Ok(out)
}

// ---------------------------------------------------------------------------
// Laws
// ---------------------------------------------------------------------------

/// The rows of all groups, in order.
pub open spec fn together(groups: Seq<Seq<Seq<char>>>) -> Seq<Seq<char>>
    decreases groups.len(),
{
    if groups.len() == 0 {
        Seq::empty()
    } else {
        together(groups.drop_last()) + groups.last()
    }
}

/// The number of rows in all chunks.
pub open spec fn total_rows(chunks: Seq<(Seq<char>, nat)>) -> nat
    decreases chunks.len(),
{
    if chunks.len() == 0 {
        0
    } else {
        total_rows(chunks.drop_last()) + chunks.last().1
    }
}

/// Grouping loses no row, doubles none, and keeps their order.
pub proof fn law_groups_partition_the_rows(rows: Seq<Seq<char>>, max_rows: nat, max_bytes: nat)
    ensures
        together(grouped(rows, max_rows, max_bytes)) == rows,
    decreases rows.len(),
{
    let all = grouped(rows, max_rows, max_bytes);
    if rows.len() > 0 {
        let groups = grouped(rows.drop_last(), max_rows, max_bytes);
        law_groups_partition_the_rows(rows.drop_last(), max_rows, max_bytes);
        if groups.len() > 0 && fits(groups.last(), rows.last(), max_rows, max_bytes) {
            assert(all.drop_last() =~= groups.drop_last());
            assert(together(all) =~= together(groups).push(rows.last()));
        } else {
            assert(all.drop_last() =~= groups);
            assert(together(all) =~= together(groups).push(rows.last()));
        }
        assert(rows.drop_last().push(rows.last()) =~= rows);
    } else {
        assert(rows =~= Seq::<Seq<char>>::empty());
    }
}

/// Where every row fits a statement of its own, every statement keeps both limits.
pub proof fn law_groups_keep_the_limits(rows: Seq<Seq<char>>, max_rows: nat, max_bytes: nat)
    requires
        max_rows >= 1,
        forall|i: int|
            0 <= i < rows.len() ==> text::byte_len(sql::INSERT_PREFIX@) + text::byte_len(
                #[trigger] rows[i],
            ) <= max_bytes,
    ensures
        forall|i: int|
            #![trigger grouped(rows, max_rows, max_bytes)[i]]
            0 <= i < grouped(rows, max_rows, max_bytes).len() ==> {
                let group = grouped(rows, max_rows, max_bytes)[i];
                1 <= group.len() <= max_rows && text::byte_len(statement(group)) <= max_bytes
            },
    decreases rows.len(),
{
    if rows.len() > 0 {
        let n = rows.len() - 1;
        let before = rows.drop_last();
        assert(forall|i: int| 0 <= i < before.len() ==> before[i] == rows[i]);
        law_groups_keep_the_limits(before, max_rows, max_bytes);
        let groups = grouped(before, max_rows, max_bytes);
        assert(rows.take(n) =~= before);
        assert(rows.take(n + 1) =~= rows);
        assert(rows.last() == rows[n]);
        let all = grouped(rows, max_rows, max_bytes);
        if groups.len() > 0 && fits(groups.last(), rows.last(), max_rows, max_bytes) {
            lemma_row_joins(rows, n, max_rows, max_bytes);
            assert(forall|i: int| 0 <= i < all.len() - 1 ==> all[i] == groups[i]);
        } else {
            lemma_row_opens(rows, n, max_rows, max_bytes);
            assert(forall|i: int| 0 <= i < all.len() - 1 ==> all[i] == groups[i]);
        }
    }
}

/// No statement could have taken the first row of the next one.
pub proof fn law_groups_are_full(rows: Seq<Seq<char>>, max_rows: nat, max_bytes: nat)
    ensures
        ({
            let groups = grouped(rows, max_rows, max_bytes);
            &&& forall|i: int| 0 <= i < groups.len() ==> #[trigger] groups[i].len() > 0
            &&& forall|i: int|
                0 <= i < groups.len() - 1 ==> !fits(
                    #[trigger] groups[i],
                    groups[i + 1][0],
                    max_rows,
                    max_bytes,
                )
        }),
    decreases rows.len(),
{
    if rows.len() > 0 {
        law_groups_are_full(rows.drop_last(), max_rows, max_bytes);
        let groups = grouped(rows.drop_last(), max_rows, max_bytes);
        let all = grouped(rows, max_rows, max_bytes);
        if groups.len() > 0 && fits(groups.last(), rows.last(), max_rows, max_bytes) {
            assert forall|i: int| 0 <= i < all.len() - 1 implies !fits(
                #[trigger] all[i],
                all[i + 1][0],
                max_rows,
                max_bytes,
            ) by {
                assert(all[i] == groups[i]);
                assert(all[i + 1][0] == groups[i + 1][0]);
            }
        } else {
            assert forall|i: int| 0 <= i < all.len() - 1 implies !fits(
                #[trigger] all[i],
                all[i + 1][0],
                max_rows,
                max_bytes,
            ) by {
                assert(all[i] == groups[i]);
                if i + 1 < groups.len() {
                    assert(all[i + 1] == groups[i + 1]);
                }
            }
        }
    }
}

proof fn lemma_total_rows(groups: Seq<Seq<Seq<char>>>)
    ensures
        total_rows(statements(groups)) == together(groups).len(),
    decreases groups.len(),
{
    if groups.len() > 0 {
        lemma_total_rows(groups.drop_last());
        lemma_statements_last(groups);
        assert(statements(groups).drop_last() =~= statements(groups.drop_last()));
    }
}

pub(crate) proof fn lemma_no_fault(
    table: Seq<char>,
    points: Seq<PointView>,
    precision: TsPrecision,
    max_bytes: nat,
)
    requires
        first_fault(table, points, precision, max_bytes) is None,
    ensures
        forall|i: int|
            0 <= i < points.len() ==> point_fault(
                table,
                #[trigger] points[i],
                precision,
                max_bytes,
            ) is None,
    decreases points.len(),
{
    if points.len() > 0 {
        lemma_no_fault(table, points.drop_last(), precision, max_bytes);
        assert forall|i: int| 0 <= i < points.len() implies point_fault(
            table,
            #[trigger] points[i],
            precision,
            max_bytes,
        ) is None by {
            if i < points.len() - 1 {
                assert(points[i] == points.drop_last()[i]);
            }
        }
    }
}

/// The chunks of a batch hold as many rows as the batch has points, and each keeps both limits.
pub proof fn law_chunks_hold_the_batch(
    table: Seq<char>,
    points: Seq<PointView>,
    precision: TsPrecision,
    max_rows: nat,
    max_bytes: nat,
)
    requires
        insert_chunks(table, points, precision, max_rows, max_bytes) is Ok,
    ensures
        ({
            let chunks = insert_chunks(table, points, precision, max_rows, max_bytes)->Ok_0;
            &&& total_rows(chunks) == points.len()
            &&& forall|i: int|
                0 <= i < chunks.len() ==> 1 <= (#[trigger] chunks[i]).1 <= max_rows
                    && text::byte_len(chunks[i].0) <= max_bytes
        }),
{
    let rows = row_texts(table, points, precision);
    let groups = grouped(rows, max_rows, max_bytes);
    let chunks = statements(groups);
    lemma_no_fault(table, points, precision, max_bytes);
    assert forall|i: int| 0 <= i < rows.len() implies text::byte_len(sql::INSERT_PREFIX@)
        + text::byte_len(#[trigger] rows[i]) <= max_bytes by {
        assert(point_fault(table, points[i], precision, max_bytes) is None);
    }
    law_groups_partition_the_rows(rows, max_rows, max_bytes);
    law_groups_keep_the_limits(rows, max_rows, max_bytes);
    lemma_total_rows(groups);
    assert forall|i: int| 0 <= i < chunks.len() implies 1 <= (#[trigger] chunks[i]).1 <= max_rows
        && text::byte_len(chunks[i].0) <= max_bytes by {
        assert(chunks[i] == (statement(groups[i]), groups[i].len()));
    }
}

/// Whether a batch can be written does not depend on how many rows a chunk may hold.
pub proof fn law_row_limit_only_cuts(
    table: Seq<char>,
    points: Seq<PointView>,
    precision: TsPrecision,
    a: nat,
    b: nat,
    max_bytes: nat,
)
    requires
        1 <= a <= HARD_MAX_BATCH_ROWS,
        1 <= b <= HARD_MAX_BATCH_ROWS,
    ensures
        insert_chunks(table, points, precision, a, max_bytes) is Ok == insert_chunks(
            table,
            points,
            precision,
            b,
            max_bytes,
        ) is Ok,
{
}

/// A batch is accepted exactly where the table has a name, both limits are in their ranges, and each
/// point can be written: its tag has at most forty-eight bytes, its time is a whole number of units
/// of the precision, and its row fits a statement of its own.
pub proof fn law_batch_is_accepted_where_each_point_is(
    table: Seq<char>,
    points: Seq<PointView>,
    precision: TsPrecision,
    max_rows: nat,
    max_bytes: nat,
)
    ensures
        (insert_chunks(table, points, precision, max_rows, max_bytes) is Ok) == (sql::stable_fault(
            table,
        ) is None && 1 <= max_rows <= 10_000 && 12 <= max_bytes <= 8_388_608 && (forall|i: int|
            0 <= i < points.len() ==> {
                let p = #[trigger] points[i];
                &&& text::byte_len(p.tag_value) <= 48
                &&& p.timestamp_ns as int % precision.unit() == 0
                &&& 12 + text::byte_len(row_text(table, p, precision)) <= max_bytes
            })),
{
    assert(text::byte_len(sql::INSERT_PREFIX@) == 12) by {
        reveal_strlit("INSERT INTO ");
        text::lemma_byte_len_ascii("INSERT INTO "@);
    }
    if first_fault(table, points, precision, max_bytes) is None {
        lemma_no_fault(table, points, precision, max_bytes);
        assert forall|i: int| 0 <= i < points.len() implies {
            let p = #[trigger] points[i];
            &&& text::byte_len(p.tag_value) <= 48
            &&& p.timestamp_ns as int % precision.unit() == 0
            &&& 12 + text::byte_len(row_text(table, p, precision)) <= max_bytes
        } by {
            assert(point_fault(table, points[i], precision, max_bytes) is None);
            crate::config::enums::law_lossless_iff_multiple(precision, points[i].timestamp_ns as int);
        }
    } else {
        let i = lemma_some_fault(table, points, precision, max_bytes);
        crate::config::enums::law_lossless_iff_multiple(precision, points[i].timestamp_ns as int);
    }
}

/// A point with a fault, and none before it.
proof fn lemma_some_fault(
    table: Seq<char>,
    points: Seq<PointView>,
    precision: TsPrecision,
    max_bytes: nat,
) -> (i: int)
    requires
        first_fault(table, points, precision, max_bytes) is Some,
    ensures
        0 <= i < points.len(),
        point_fault(table, points[i], precision, max_bytes) == first_fault(
            table,
            points,
            precision,
            max_bytes,
        ),
        forall|k: int|
            0 <= k < i ==> point_fault(table, #[trigger] points[k], precision, max_bytes) is None,
    decreases points.len(),
{
    let before = points.drop_last();
    if first_fault(table, before, precision, max_bytes) is Some {
        let i = lemma_some_fault(table, before, precision, max_bytes);
        assert forall|k: int| 0 <= k < i implies point_fault(
            table,
            #[trigger] points[k],
            precision,
            max_bytes,
        ) is None by {
            assert(before[k] == points[k]);
        }
        i
    } else {
        lemma_no_fault(table, before, precision, max_bytes);
        assert forall|k: int| 0 <= k < points.len() - 1 implies point_fault(
            table,
            #[trigger] points[k],
            precision,
            max_bytes,
        ) is None by {
            assert(before[k] == points[k]);
        }
        points.len() - 1
    }
}

/// A batch that is refused for a point is refused for its first faulty one, with the error that this
/// point gives alone: what follows it changes nothing.
pub proof fn law_first_faulty_point_decides(
    table: Seq<char>,
    points: Seq<PointView>,
    p: PointView,
    rest: Seq<PointView>,
    precision: TsPrecision,
    max_rows: nat,
    max_bytes: nat,
)
    requires
        insert_chunks(table, points, precision, max_rows, max_bytes) is Ok,
        insert_chunks(table, seq![p], precision, max_rows, max_bytes) is Err,
    ensures
        insert_chunks(table, points.push(p) + rest, precision, max_rows, max_bytes)
            == insert_chunks(table, seq![p], precision, max_rows, max_bytes),
{
    let all = points.push(p) + rest;
    let n = points.len() as int;
    assert(all.take(n) =~= points);
    lemma_first_fault_step(table, all, precision, max_bytes, n);
    assert(seq![p].drop_last() =~= Seq::<PointView>::empty());
    assert(first_fault(table, Seq::<PointView>::empty(), precision, max_bytes) is None);
    assert(first_fault(table, seq![p], precision, max_bytes) == point_fault(
        table,
        p,
        precision,
        max_bytes,
    ));
    lemma_first_fault_stays(table, all, precision, max_bytes, n + 1);
}

/// Statements are as few as they can be: one that is followed by another holds the most rows, or
/// would be too long with a space and the first row of the next.
pub proof fn law_statements_are_as_full_as_they_can_be(
    rows: Seq<Seq<char>>,
    max_rows: nat,
    max_bytes: nat,
    i: int,
)
    requires
        1 <= max_rows,
        0 <= i < grouped(rows, max_rows, max_bytes).len() - 1,
        forall|k: int|
            0 <= k < rows.len() ==> text::byte_len(sql::INSERT_PREFIX@) + text::byte_len(
                #[trigger] rows[k],
            ) <= max_bytes,
    ensures
        ({
            let groups = grouped(rows, max_rows, max_bytes);
            groups[i].len() == max_rows || text::byte_len(
                statement(groups[i]) + seq![' '] + groups[i + 1][0],
            ) > max_bytes
        }),
{
    let groups = grouped(rows, max_rows, max_bytes);
    law_groups_are_full(rows, max_rows, max_bytes);
    law_groups_keep_the_limits(rows, max_rows, max_bytes);
    assert(!fits(groups[i], groups[i + 1][0], max_rows, max_bytes));
    text::lemma_encode_concat(statement(groups[i]) + seq![' '], groups[i + 1][0]);
    text::lemma_encode_concat(statement(groups[i]), seq![' ']);
    text::lemma_byte_len_one(' ');
}

/// What is wrong with a point is looked at in one order: a tag that is too long decides alone, then
/// a time that would lose digits, whatever the table and the limit, and last the length of the row,
/// whose message tells the limit. Each says that the request is wrong.
pub proof fn law_faults_of_a_point_have_an_order(
    table: Seq<char>,
    other_table: Seq<char>,
    p: PointView,
    q: PointView,
    precision: TsPrecision,
    max_bytes: nat,
    other_max: nat,
)
    ensures
        point_fault(table, p, precision, max_bytes) matches Some(e) ==> e is Invalid,
        text::byte_len(p.tag_value) > 48 && text::byte_len(q.tag_value) > 48 ==> point_fault(
            table,
            p,
            precision,
            max_bytes,
        ) == point_fault(other_table, q, precision, other_max) && point_fault(
            table,
            p,
            precision,
            max_bytes,
        ) is Some,
        text::byte_len(p.tag_value) <= 48 && !sql::is_lossless(p.timestamp_ns as int, precision)
            ==> point_fault(table, p, precision, max_bytes) == Some(
            ErrorView::Invalid(sql::timestamp_fault(p.timestamp_ns as int, precision)),
        ),
        text::byte_len(p.tag_value) <= 48 && sql::is_lossless(p.timestamp_ns as int, precision)
            && point_fault(table, p, precision, max_bytes) is Some ==> (" batch_max_bytes="@
            + number::decimal(max_bytes as int)).is_suffix_of(
            point_fault(table, p, precision, max_bytes)->0.message(),
        ),
{
    reveal_strlit("单行 SQL 超过 batch_max_bytes=");
    reveal_strlit(" batch_max_bytes=");
    if text::byte_len(p.tag_value) <= 48 && sql::is_lossless(p.timestamp_ns as int, precision)
        && point_fault(table, p, precision, max_bytes) is Some {
        let m = point_fault(table, p, precision, max_bytes)->0.message();
        let end = " batch_max_bytes="@ + number::decimal(max_bytes as int);
        assert(m.subrange(m.len() - end.len(), m.len() as int) =~= end);
    }
}

} // verus!
