//! Querying a series: the statements to send, and what their replies come to.
//!
//! A [`QuerySession`] looks at the columns of the table and then asks for the rows of a time
//! interval. A table that does not exist has no rows.

use vstd::prelude::*;

use super::pool;
#[allow(unused_imports)]
use super::pool::PoolView;
use super::pool::TaosPool;
use super::response;
use super::sql;
use super::types::TaosExecResult;
use super::batch;
use crate::config;
use crate::config::TsPrecision;
#[allow(unused_imports)]
use crate::error::ErrorView;
use crate::error::{TaosError, TaosResult};
use crate::number;
use crate::point;
#[allow(unused_imports)]
use crate::point::PointView;
use crate::point::TaosPoint;
use crate::text;

verus! {

// ---------------------------------------------------------------------------
// Rows
// ---------------------------------------------------------------------------

/// The point in a row of time stamp, two values and tag.
pub open spec fn row_point(row: Seq<Seq<char>>, precision: TsPrecision) -> Result<
    PointView,
    ErrorView,
> {
    match response::cell_nanos(
        row[0],
        precision,
        response::rfc3339_moment(row[0]),
        response::utc_moment(row[0]),
    ) {
        Some(n) => Ok(
            PointView {
                timestamp_ns: n as i64,
                tag_value: row[3],
                first: row[1],
                second: row[2],
            },
        ),
        None => Err(ErrorView::Invalid("无法解析时间戳: "@ + row[0])),
    }
}

/// The points in a result: rows of fewer than four cells hold none, and the first time stamp that
/// cannot be read ends it.
pub open spec fn row_points(rows: Seq<Seq<Seq<char>>>, precision: TsPrecision) -> Result<
    Seq<PointView>,
    ErrorView,
>
    decreases rows.len(),
{
    if rows.len() == 0 {
        Ok(Seq::empty())
    } else {
        match row_points(rows.drop_last(), precision) {
            Err(e) => Err(e),
            Ok(before) => if rows.last().len() < 4 {
                Ok(before)
            } else {
                match row_point(rows.last(), precision) {
                    Ok(p) => Ok(before.push(p)),
                    Err(e) => Err(e),
                }
            },
        }
    }
}

proof fn lemma_row_points_error_stays(
    rows: Seq<Seq<Seq<char>>>,
    precision: TsPrecision,
    i: int,
)
    requires
        0 <= i <= rows.len(),
        row_points(rows.take(i), precision) is Err,
    ensures
        row_points(rows, precision) == row_points(rows.take(i), precision),
    decreases rows.len() - i,
{
    if i < rows.len() {
        assert(rows.take(i + 1).drop_last() =~= rows.take(i));
        lemma_row_points_error_stays(rows, precision, i + 1);
    } else {
        assert(rows.take(i) =~= rows);
    }
}

/// The points in a result.
pub fn points_of_rows(result: &TaosExecResult, precision: TsPrecision) -> (r: TaosResult<
    Vec<TaosPoint>,
>)
    ensures
        match r {
            Ok(points) => row_points(result@.rows, precision) == Ok::<Seq<PointView>, ErrorView>(
                point::views(points@),
            ),
            Err(e) => row_points(result@.rows, precision) == Err::<Seq<PointView>, ErrorView>(e@),
        },
{
    let ghost rows = result@.rows;
    let mut out: Vec<TaosPoint> = Vec::new();
    let mut i: usize = 0;
    assert(rows.take(0) =~= Seq::<Seq<Seq<char>>>::empty());
    assert(point::views(out@) =~= Seq::<PointView>::empty());
    while i < result.rows.len()
        invariant
            i <= result.rows@.len(),
            rows == result@.rows,
            row_points(rows.take(i as int), precision) == Ok::<Seq<PointView>, ErrorView>(
                point::views(out@),
            ),
        decreases result.rows@.len() - i,
    {
        let row = &result.rows[i];
        assert(rows.take(i + 1).drop_last() =~= rows.take(i as int));
        assert(rows[i as int] == config::texts(row@));
        if row.len() >= 4 {
            assert(rows[i as int][0] == row@[0]@);
            let timestamp_ns: i64 = match response::parse_ts_cell(row[0].as_str(), precision) {
                Ok(n) => n,
                Err(e) => {
                    proof {
                        lemma_row_points_error_stays(rows, precision, i + 1);
                    }
                    return Err(e);
                },
            };
            let p = TaosPoint {
                timestamp_ns,
                tag_value: row[3].clone(),
                values: [row[1].clone(), row[2].clone()],
            };
            let ghost v = p@;
            let ghost before = point::views(out@);
            out.push(p);
            assert(point::views(out@) =~= before.push(v));
        }
        i = i + 1;
    }
    assert(rows.take(i as int) =~= rows);
    Ok(out)
}

// ---------------------------------------------------------------------------
// The session
// ---------------------------------------------------------------------------

/// The statement that asks for the rows of an interval: from the first time that the database can
/// store in it to the last.
pub open spec fn select_text(
    table: Seq<char>,
    precision: TsPrecision,
    start_ns: i64,
    end_ns: i64,
    limit: int,
) -> Seq<char> {
    "SELECT ts, bid, ask, symbol FROM `"@ + table + "` WHERE ts >= "@ + number::decimal(
        precision.at_or_after(start_ns as int),
    ) + " AND ts <= "@ + number::decimal(precision.at_or_before(end_ns as int))
        + " ORDER BY ts ASC LIMIT "@ + number::decimal(limit)
}

/// The statement that asks for the rows of an interval.
#[must_use]
pub fn select_sql(
    table: &str,
    precision: TsPrecision,
    start_ns: i64,
    end_ns: i64,
    limit: usize,
) -> (r: String)
    ensures
        r@ == select_text(table@, precision, start_ns, end_ns, limit as int),
{
    let mut out = String::from("SELECT ts, bid, ask, symbol FROM `");
    text::push_text(&mut out, table);
    text::push_text(&mut out, "` WHERE ts >= ");
    text::push_text(&mut out, number::decimal_i64(precision.from_nanos_up(start_ns)).as_str());
    text::push_text(&mut out, " AND ts <= ");
    text::push_text(&mut out, number::decimal_i64(precision.from_nanos_down(end_ns)).as_str());
    text::push_text(&mut out, " ORDER BY ts ASC LIMIT ");
    text::push_text(&mut out, number::decimal_usize(limit).as_str());
    out
}

/// A query on its way.
pub enum QuerySession {
    /// The columns of the table are asked for.
    Describe { table: String, start_ns: i64, end_ns: i64 },
    /// The rows are asked for.
    Select { sql: String, precision: TsPrecision },
}

/// A [`QuerySession`] with texts as sequences of characters.
#[verifier::ext_equal]
pub enum QueryView {
    Describe { table: Seq<char>, start_ns: i64, end_ns: i64 },
    Select { sql: Seq<char>, precision: TsPrecision },
}

impl View for QuerySession {
    type V = QueryView;

    open spec fn view(&self) -> QueryView {
        match self {
            QuerySession::Describe { table, start_ns, end_ns } => QueryView::Describe {
                table: table@,
                start_ns: *start_ns,
                end_ns: *end_ns,
            },
            QuerySession::Select { sql, precision } => QueryView::Select {
                sql: sql@,
                precision: *precision,
            },
        }
    }
}

/// What a reply comes to.
pub enum QueryStep {
    /// There is more to send.
    Running(QuerySession),
    /// The points.
    Done(Vec<TaosPoint>),
    /// The query failed.
    Failed(TaosError),
}

/// A [`QueryStep`] by its values.
#[verifier::ext_equal]
pub enum QueryStepView {
    Running(QueryView),
    Done(Seq<PointView>),
    Failed(ErrorView),
}

impl View for QueryStep {
    type V = QueryStepView;

    open spec fn view(&self) -> QueryStepView {
        match self {
            QueryStep::Running(session) => QueryStepView::Running(session@),
            QueryStep::Done(points) => QueryStepView::Done(point::views(points@)),
            QueryStep::Failed(e) => QueryStepView::Failed(e@),
        }
    }
}

/// What an error comes to: a table that does not exist has no points.
pub open spec fn absent_or_failed(e: ErrorView) -> QueryStepView {
    if e.is_not_found() {
        QueryStepView::Done(Seq::empty())
    } else {
        QueryStepView::Failed(e)
    }
}

impl QueryView {
    /// What to send next.
    pub open spec fn next_sql(self) -> Seq<char> {
        match self {
            QueryView::Describe { table, start_ns, end_ns } => batch::describe_text(table),
            QueryView::Select { sql, precision } => sql,
        }
    }

    /// What a reply comes to.
    pub open spec fn after(
        self,
        pool: PoolView,
        reply: TaosResult<TaosExecResult>,
    ) -> QueryStepView {
        let max = pool.config.max_query_rows;
        match self {
            QueryView::Describe { table, start_ns, end_ns } => match batch::described_error(
                reply,
            ) {
                Some(e) => absent_or_failed(e),
                None => if max == usize::MAX {
                    QueryStepView::Failed(ErrorView::Config("max_query_rows 溢出"@))
                } else {
                    QueryStepView::Running(
                        QueryView::Select {
                            sql: select_text(table, pool.precision, start_ns, end_ns, max + 1),
                            precision: pool.precision,
                        },
                    )
                },
            },
            QueryView::Select { sql, precision } => match reply {
                Err(e) => absent_or_failed(e@),
                Ok(result) => if result@.rows.len() > max {
                    QueryStepView::Failed(pool::rows_over("查询结果"@, max))
                } else {
                    match row_points(result@.rows, precision) {
                        Ok(points) => QueryStepView::Done(points),
                        Err(e) => QueryStepView::Failed(e),
                    }
                },
            },
        }
    }
}

/// Why a query is not even started; `None` where it is.
pub open spec fn query_error(table: Seq<char>, start_ns: i64, end_ns: i64) -> Option<ErrorView> {
    if sql::stable_fault(table) is Some {
        Some(ErrorView::Invalid(sql::stable_fault(table)->0))
    } else if start_ns > end_ns {
        Some(ErrorView::Invalid("query_series: start > end"@))
    } else {
        None
    }
}

fn absent(e: TaosError) -> (r: QueryStep)
    ensures
        r@ == absent_or_failed(e@),
{
    if e.is_not_found() {
        let none: Vec<TaosPoint> = Vec::new();
        assert(point::views(none@) =~= Seq::<PointView>::empty());
        QueryStep::Done(none)
    } else {
        QueryStep::Failed(e)
    }
}

impl QuerySession {
    /// Starts a query for the points from `start_ns` to `end_ns`, both included.
    pub fn start(table: &str, start_ns: i64, end_ns: i64) -> (r: TaosResult<QuerySession>)
        ensures
            match r {
                Ok(session) => query_error(table@, start_ns, end_ns) is None && session@
                    == (QueryView::Describe { table: table@, start_ns, end_ns }),
                Err(e) => query_error(table@, start_ns, end_ns) == Some(e@),
            },
    {
        match sql::validate_stable_ident(table) {
            Ok(_) => {},
            Err(e) => {
                return Err(e);
            },
        }
        if start_ns > end_ns {
            return Err(TaosError::Invalid(String::from("query_series: start > end")));
        }
        Ok(QuerySession::Describe { table: String::from(table), start_ns, end_ns })
    }

    /// What to send next.
    #[must_use]
    pub fn sql(&self) -> (r: String)
        ensures
            r@ == self@.next_sql(),
    {
        match self {
            QuerySession::Describe { table, .. } => batch::describe_sql(table.as_str()),
            QuerySession::Select { sql, .. } => sql.clone(),
        }
    }

    /// Takes the reply to what [`QuerySession::sql`] said to send.
    pub fn reply(self, pool: &TaosPool, reply: TaosResult<TaosExecResult>) -> (r: QueryStep)
        ensures
            r@ == self@.after(pool@, reply),
    {
        let max: usize = pool.config().max_query_rows;
        match self {
            QuerySession::Describe { table, start_ns, end_ns } => {
                match batch::stable_described(reply) {
                    Ok(_) => {},
                    Err(e) => {
                        return absent(e);
                    },
                }
                if max == usize::MAX {
                    return QueryStep::Failed(
                        TaosError::Config(String::from("max_query_rows 溢出")),
                    );
                }
                let precision = pool.precision();
                QueryStep::Running(
                    QuerySession::Select {
                        sql: select_sql(table.as_str(), precision, start_ns, end_ns, max + 1),
                        precision,
                    },
                )
            },
            QuerySession::Select { precision, .. } => {
                let result = match reply {
                    Ok(result) => result,
                    Err(e) => {
                        return absent(e);
                    },
                };
                if result.rows.len() > max {
                    let mut m = String::from("查询结果");
                    text::push_text(&mut m, "超过 max_query_rows=");
                    text::push_text(&mut m, number::decimal_usize(max).as_str());
                    return QueryStep::Failed(TaosError::Unavailable(m));
                }
                match points_of_rows(&result, precision) {
                    Ok(points) => QueryStep::Done(points),
                    Err(e) => QueryStep::Failed(e),
                }
            },
        }
    }
}

// ---------------------------------------------------------------------------
// Laws
// ---------------------------------------------------------------------------

/// A query gives no more points than its result has rows, so never more than the configuration
/// allows.
pub proof fn law_points_within_limit(
    session: QueryView,
    pool: PoolView,
    reply: TaosResult<TaosExecResult>,
)
    ensures
        session.after(pool, reply) matches QueryStepView::Done(points) ==> points.len()
            <= pool.config.max_query_rows,
{
    match (session, reply) {
        (QueryView::Select { sql, precision }, Ok(result)) => {
            lemma_points_within_rows(result@.rows, precision);
        },
        _ => {},
    }
}

proof fn lemma_points_within_rows(rows: Seq<Seq<Seq<char>>>, precision: TsPrecision)
    ensures
        row_points(rows, precision) matches Ok(points) ==> points.len() <= rows.len(),
    decreases rows.len(),
{
    if rows.len() > 0 {
        lemma_points_within_rows(rows.drop_last(), precision);
    }
}

/// What was written is read back: the row that the database keeps of a point, at a precision at
/// which nothing of its time is lost, is read as that point.
pub proof fn law_written_point_reads_back(point: PointView, precision: TsPrecision)
    requires
        sql::is_lossless(point.timestamp_ns as int, precision),
    ensures
        row_point(
            seq![
                number::decimal(precision.stored(point.timestamp_ns as int)),
                point.first,
                point.second,
                point.tag_value,
            ],
            precision,
        ) == Ok::<PointView, ErrorView>(point),
{
    let cell = number::decimal(precision.stored(point.timestamp_ns as int));
    response::law_written_timestamp_reads_back(
        point.timestamp_ns as int,
        precision,
        response::rfc3339_moment(cell),
        response::utc_moment(cell),
    );
}

/// The interval of a query is closed at both ends: what the database stores is in the interval of
/// the statement exactly where its time is in the interval asked for.
pub proof fn law_interval_is_closed(
    precision: TsPrecision,
    start_ns: int,
    end_ns: int,
    stored: int,
)
    ensures
        (precision.at_or_after(start_ns) <= stored <= precision.at_or_before(end_ns)) == (start_ns
            <= stored * precision.unit() <= end_ns),
        i64::MIN <= stored * precision.unit() <= i64::MAX ==> precision.nanos(stored) == stored
            * precision.unit(),
{
    let unit = precision.unit();
    lemma_floor(-start_ns, unit, -stored);
    assert(-stored * unit == -(stored * unit)) by (nonlinear_arith);
    lemma_floor(end_ns, unit, stored);
}

proof fn lemma_floor(n: int, unit: int, stored: int)
    requires
        unit > 0,
    ensures
        (stored <= n / unit) == (stored * unit <= n),
{
    vstd::arithmetic::div_mod::lemma_fundamental_div_mod(n, unit);
    let q = n / unit;
    let rest = n % unit;
    assert((stored <= q) == (stored * unit <= n)) by (nonlinear_arith)
        requires
            n == unit * q + rest,
            0 <= rest < unit,
    ;
}

/// A query is refused before anything is sent exactly where its table has no valid name or its
/// interval ends before it starts. An interval of one instant is none of these.
pub proof fn law_query_is_refused_at_the_start(table: Seq<char>, start_ns: i64, end_ns: i64)
    ensures
        (query_error(table, start_ns, end_ns) is None) == (sql::stable_fault(table) is None
            && start_ns <= end_ns),
        query_error(table, start_ns, end_ns) matches Some(e) ==> e is Invalid,
{
}

/// A table that does not exist has no points: whichever of the two requests finds it missing, the
/// query ends well and empty. Every other error of a request ends the query as it is.
pub proof fn law_missing_table_is_empty(session: QueryView, pool: PoolView, e: crate::error::TaosError)
    ensures
        e@ matches ErrorView::Backend { code, message } && (code == 0x2603 || code == 0x2662)
            ==> session.after(pool, Err(e)) == QueryStepView::Done(Seq::empty()),
        e@ !is Backend ==> session.after(pool, Err(e)) == QueryStepView::Failed(e@),
        (e@ matches ErrorView::Backend { code, message } && code != 0x2603 && code != 0x2662)
            ==> session.after(pool, Err(e)) == QueryStepView::Failed(e@),
{
}

/// The points of a result are those of its rows, one for each and in their order: two results one
/// after the other give the points of the first and then those of the second. A row of fewer than
/// four cells gives none, and the first time stamp that cannot be read decides alone.
pub proof fn law_points_follow_the_rows(
    a: Seq<Seq<Seq<char>>>,
    b: Seq<Seq<Seq<char>>>,
    row: Seq<Seq<char>>,
    precision: TsPrecision,
)
    ensures
        row_points(a, precision) is Err ==> row_points(a + b, precision) == row_points(a, precision),
        row_points(a, precision) is Ok && row_points(b, precision) is Err ==> row_points(
            a + b,
            precision,
        ) == row_points(b, precision),
        row_points(a, precision) is Ok && row_points(b, precision) is Ok ==> row_points(
            a + b,
            precision,
        ) == Ok::<Seq<PointView>, ErrorView>(
            row_points(a, precision)->Ok_0 + row_points(b, precision)->Ok_0,
        ),
        row.len() < 4 ==> row_points(seq![row], precision) == Ok::<Seq<PointView>, ErrorView>(
            Seq::empty(),
        ),
        row.len() >= 4 ==> match row_points(seq![row], precision) {
            Ok(points) => points.len() == 1 && points[0].first == row[1] && points[0].second
                == row[2] && points[0].tag_value == row[3],
            Err(e) => e is Invalid && row[0].is_suffix_of(e.message()),
        },
    decreases b.len(),
{
    assert(seq![row].drop_last() =~= Seq::<Seq<Seq<char>>>::empty());
    reveal_with_fuel(row_points, 2);
    if row.len() >= 4 {
        let m = "无法解析时间戳: "@ + row[0];
        assert(m.subrange(m.len() - row[0].len(), m.len() as int) =~= row[0]);
    }
    if b.len() == 0 {
        assert(a + b =~= a);
        if row_points(a, precision) is Ok {
            assert(row_points(a, precision)->Ok_0 + Seq::<PointView>::empty()
                =~= row_points(a, precision)->Ok_0);
        }
    } else {
        law_points_follow_the_rows(a, b.drop_last(), row, precision);
        assert((a + b).drop_last() =~= a + b.drop_last());
        assert((a + b).last() == b.last());
        if row_points(a, precision) is Ok && row_points(b, precision) is Ok && b.last().len()
            >= 4 {
            let before = row_points(b.drop_last(), precision)->Ok_0;
            let p = row_point(b.last(), precision)->Ok_0;
            assert((row_points(a, precision)->Ok_0 + before).push(p) =~= row_points(
                a,
                precision,
            )->Ok_0 + before.push(p));
        }
    }
}

} // verus!
