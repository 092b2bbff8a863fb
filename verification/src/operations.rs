//! What the operations do, said of the operations themselves: of what is handed to them and of what
//! they hand back.

use std::time::Duration;
use vstd::prelude::*;

#[allow(unused_imports)]
use crate::batcher::{BatcherView, CloseStart, Outcome, WriteBatcher};
#[allow(unused_imports)]
use crate::client::batch::{StepView, WriteSession, WriteStage, WriteStart, WriteStep};
#[allow(unused_imports)]
use crate::client::connect::{ConnectStage, ConnectStep, ConnectView, Failover, FailoverStep};
#[allow(unused_imports)]
use crate::client::insert::SqlChunk;
#[allow(unused_imports)]
use crate::client::pool::{Permit, PoolView};
#[allow(unused_imports)]
use crate::client::query::{QuerySession, QueryStep, QueryView};
#[allow(unused_imports)]
use crate::client::response::{JsonFault, RawResponse};
#[allow(unused_imports)]
use crate::client::{connect, insert, pool, query, response, server, sql};
#[allow(unused_imports)]
use crate::client::{BatchWritePartialError, BatchWriteReport, TaosExecResult, TaosHealth, TaosPool};
#[allow(unused_imports)]
use crate::config::{ConfigView, TaosConfig, TaosConfigBuilder, TransportMode, TsPrecision};
#[allow(unused_imports)]
use crate::error::{ErrorView, TaosError, TaosResult};
#[allow(unused_imports)]
use crate::json::Json;
#[allow(unused_imports)]
use crate::point;
#[allow(unused_imports)]
use crate::point::{PointView, TaosPoint};
#[allow(unused_imports)]
use crate::metrics::{TaosMetricsSnapshot, WsProbeCounters};
#[allow(unused_imports)]
use crate::retry::RetryPolicy;
#[allow(unused_imports)]
use crate::stream::TaosQueryStream;
#[allow(unused_imports)]
use crate::{config, duration, metrics, native, number, text};

verus! {

// ---------------------------------------------------------------------------
// Statements
// ---------------------------------------------------------------------------

/// What connecting sends: the creation of the database, then a question that a server answers with
/// the precision of that database, whatever else it holds, and then a sign of life to the database.
pub proof fn law_connecting_sends_what_is_meant(
    stage: ConnectStage,
    pool: &TaosPool,
    sent: (String, bool),
    databases: Map<Seq<char>, TsPrecision>,
    reply: TaosResult<TaosExecResult>,
)
    requires
        call_ensures(ConnectStage::sql, (stage, pool), sent),
        sql::ident_fault(pool@.config.database) is None,
        databases.dom().contains(pool@.config.database),
    ensures
        sent.1 == (stage == ConnectStage::Ping),
        stage == ConnectStage::CreateDatabase ==> server::created_by(sent.0@) == Some(
            pool@.config.database,
        ) && " KEEP 3650"@.is_suffix_of(sent.0@),
        stage == ConnectStage::DetectPrecision && reply is Ok && reply->Ok_0@.first_cell()
            == server::told_of_database(sent.0@, databases) ==> connect::detected(reply) == Ok::<
            TsPrecision,
            ErrorView,
        >(databases[pool@.config.database]),
        stage == ConnectStage::Ping ==> sent.0@ == "SELECT SERVER_VERSION()"@,
{
    if stage == ConnectStage::DetectPrecision && reply is Ok && reply->Ok_0@.first_cell()
        == server::told_of_database(sent.0@, databases) {
        server::law_precision_of_the_database_is_detected(pool@, databases, reply);
    }
    server::law_connecting_creates_then_asks_then_pings(pool@, Ok(arbitrary()));
    if stage == ConnectStage::CreateDatabase {
        reveal_strlit("` KEEP 3650");
        reveal_strlit(" KEEP 3650");
        let s = sent.0@;
        assert(s.subrange(s.len() - 10, s.len() as int) =~= " KEEP 3650"@);
    }
}

/// The statements for a batch insert its points and no others, in their order: each in the sub-table
/// of its tag, with its time to the last digit and with both values.
pub proof fn law_statements_insert_the_batch(
    table: &str,
    points: &[TaosPoint],
    precision: TsPrecision,
    max_rows: usize,
    max_bytes: usize,
    r: TaosResult<Vec<SqlChunk>>,
)
    requires
        call_ensures(
            insert::build_insert_sql_chunks_with_limits,
            (table, points, precision, max_rows, max_bytes),
            r,
        ),
        r is Ok,
    ensures
        ({
            let chunks = insert::chunk_views(r->Ok_0@);
            &&& server::inserted_by_all(chunks) is Some
            &&& server::hold_points(
                server::inserted_by_all(chunks)->0,
                table@,
                point::views(points@),
                precision,
            )
            &&& forall|i: int|
                0 <= i < chunks.len() ==> (#[trigger] chunks[i]).1 <= max_rows && text::byte_len(
                    chunks[i].0,
                ) <= max_bytes
        }),
{
    server::law_batch_is_inserted_as_it_is(
        table@,
        point::views(points@),
        precision,
        max_rows as nat,
        max_bytes as nat,
    );
    insert::law_chunks_hold_the_batch(
        table@,
        point::views(points@),
        precision,
        max_rows as nat,
        max_bytes as nat,
    );
}

/// The statement for an interval asks for the four columns of the table, oldest rows first, no more
/// than the limit, and for exactly the times in the interval, both ends included.
pub proof fn law_select_asks_for_the_interval(
    table: &str,
    precision: TsPrecision,
    start_ns: i64,
    end_ns: i64,
    limit: usize,
    r: String,
    stored: int,
)
    requires
        call_ensures(query::select_sql, (table, precision, start_ns, end_ns, limit), r),
        sql::stable_fault(table@) is None,
        limit <= i64::MAX,
    ensures
        ({
            let select = server::read_select(r@);
            &&& select is Some
            &&& select->0.columns == seq!["ts"@, "bid"@, "ask"@, "symbol"@]
            &&& select->0.table == table@
            &&& !select->0.newest_first
            &&& select->0.limit == limit
            &&& (select->0.from <= stored <= select->0.to) == (start_ns <= stored
                * precision.unit() <= end_ns)
        }),
{
    server::lemma_read_select(table@, precision, start_ns, end_ns, limit as int);
    query::law_interval_is_closed(precision, start_ns as int, end_ns as int, stored);
}

/// A query asks for the columns of its table first, and then for the rows of its interval: one more
/// than a result may have, so that one that is too large is noticed.
pub proof fn law_query_asks_for_columns_and_then_rows(
    pool: &TaosPool,
    table: &str,
    start_ns: i64,
    end_ns: i64,
    started: QuerySession,
    first: String,
    described: TaosResult<TaosExecResult>,
    running: QuerySession,
    second: String,
)
    requires
        call_ensures(QuerySession::start, (table, start_ns, end_ns), Ok(started)),
        call_ensures(QuerySession::sql, (&started,), first),
        call_ensures(QuerySession::reply, (started, pool, described), QueryStep::Running(running)),
        call_ensures(QuerySession::sql, (&running,), second),
        pool@.config.max_query_rows < i64::MAX,
    ensures
        start_ns <= end_ns,
        first@ == "DESCRIBE `"@ + table@ + "`"@,
        ({
            let select = server::read_select(second@);
            &&& select is Some
            &&& select->0.table == table@
            &&& !select->0.newest_first
            &&& select->0.limit == pool@.config.max_query_rows + 1
        }),
{
    server::lemma_read_select(
        table@,
        pool@.precision,
        start_ns,
        end_ns,
        pool@.config.max_query_rows + 1,
    );
}

/// A response of success is handed on with its columns and its cells where they were.
pub proof fn law_response_is_handed_on(
    raw: RawResponse,
    names: Seq<Seq<char>>,
    r: TaosResult<TaosExecResult>,
)
    requires
        call_ensures(response::parse_taos_json, (Ok(raw),), r),
        raw@.code == 0,
        names.len() == raw@.column_meta.len(),
        forall|i: int|
            0 <= i < names.len() ==> (#[trigger] raw@.column_meta[i] matches Json::Array(items)
                && items.len() > 0 && items[0] == Json::Text(names[i])),
    ensures
        r is Ok,
        r->Ok_0@.columns == names,
        r->Ok_0@.rows.len() == raw@.data.len(),
        forall|i: int, j: int|
            0 <= i < raw@.data.len() && 0 <= j < raw@.data[i].len() && raw@.data[i][j] is Text
                ==> #[trigger] r->Ok_0@.rows[i][j] == raw@.data[i][j]->Text_0,
{
    response::law_result_is_laid_out_as_its_response(raw@, names);
}

// ---------------------------------------------------------------------------
// The batcher
// ---------------------------------------------------------------------------

/// A point that is taken is the last of the batch that is handed out, or the last that waits; the
/// batch is handed out where there are enough points, or where enough time has passed since the last
/// one, be it for this point alone.
pub proof fn law_push_is_due_by_rows_or_by_time(
    batcher: &mut WriteBatcher,
    point: TaosPoint,
    now: Duration,
    r: TaosResult<Option<Vec<TaosPoint>>>,
)
    requires
        call_ensures(WriteBatcher::push, (batcher, point, now), r),
    ensures
        ({
            let before = old(batcher)@;
            let after = final(batcher)@;
            let waiting = before.buffer.push(point@);
            let due = waiting.len() >= before.max_rows || duration::nanos(now)
                >= before.last_flush + before.flush_interval || before.flush_interval == 0;
            let taken = !before.closed && !before.closing && before.pending is None;
            &&& r is Ok == taken
            &&& !taken ==> after == before
            &&& taken && due ==> r->Ok_0 is Some && point::views(r->Ok_0->0@) == waiting
                && after.buffer.len() == 0
            &&& taken && !due ==> r->Ok_0 is None && after.buffer == waiting
            &&& taken ==> after == (BatcherView { buffer: after.buffer, ..before })
        }),
{
}

/// What a batcher hands out on request is all that waits, and the time of it is kept; nothing else
/// changes.
pub proof fn law_flush_hands_out_what_waits(
    batcher: &mut WriteBatcher,
    now: Duration,
    r: TaosResult<Vec<TaosPoint>>,
)
    requires
        call_ensures(WriteBatcher::flush, (batcher, now), r),
    ensures
        ({
            let before = old(batcher)@;
            let after = final(batcher)@;
            &&& r is Ok == (!before.closed && !before.closing && before.pending is None)
            &&& r is Err ==> after == before
            &&& r is Ok ==> point::views(r->Ok_0@) == before.buffer && after.buffer.len() == 0
                && after.last_flush == duration::nanos(now) && after == (BatcherView {
                buffer: after.buffer,
                last_flush: after.last_flush,
                ..before
            })
        }),
{
}

/// Points whose fate is not settled leave a batcher once: taken back they are handed out whole, and
/// acknowledged they are gone; then there are none. Where there are none, both are refused.
pub proof fn law_pending_points_leave_once(
    batcher: &mut WriteBatcher,
    taken: TaosResult<Vec<TaosPoint>>,
    other: &mut WriteBatcher,
    acked: TaosResult<()>,
)
    requires
        call_ensures(WriteBatcher::take_pending, (batcher,), taken),
        call_ensures(WriteBatcher::ack_pending, (other,), acked),
    ensures
        taken is Ok == old(batcher)@.pending is Some,
        taken is Ok ==> Some(point::views(taken->Ok_0@)) == old(batcher)@.pending,
        final(batcher)@ == (BatcherView { pending: None, ..old(batcher)@ }),
        acked is Ok == old(other)@.pending is Some,
        final(other)@ == (BatcherView { pending: None, ..old(other)@ }),
        taken matches Err(e) ==> e@ is Invalid,
        acked matches Err(e) ==> e@ is Invalid,
{
}

/// Closing a batcher hands out all that waits, and takes nothing more; a batcher that is closed has
/// nothing left to do, and one with points whose fate is not settled does not close.
pub proof fn law_close_hands_out_what_waits(
    batcher: &mut WriteBatcher,
    now: Duration,
    r: Result<CloseStart, crate::batcher::BatcherCloseError>,
)
    requires
        call_ensures(WriteBatcher::close, (batcher, now), r),
    ensures
        ({
            let before = old(batcher)@;
            let after = final(batcher)@;
            &&& before.closed ==> r is Ok && r->Ok_0 is AlreadyClosed && after == before
            &&& !before.closed && before.pending is Some ==> r is Err && after == before
            &&& !before.closed && before.pending is None ==> {
                &&& r is Ok
                &&& r->Ok_0 is Flush
                &&& point::views(r->Ok_0->Flush_0@) == before.buffer
                &&& after.buffer.len() == 0
                &&& after.refusal() is Some
                &&& after.total_accepted == before.total_accepted
                &&& after.total_failed == before.total_failed
            }
        }),
{
}

// ---------------------------------------------------------------------------
// The pool
// ---------------------------------------------------------------------------

/// A pool starts open, without requests and with all counters at zero, at the precision that is
/// configured, and in milliseconds where none is.
pub proof fn law_new_pools_are_open(config: TaosConfig, r: TaosResult<TaosPool>)
    requires
        call_ensures(TaosPool::new, (config,), r),
    ensures
        r is Ok == (config@.fault() is None),
        r matches Err(e) ==> e@ is Config,
        r matches Ok(pool) ==> {
            &&& !pool@.closed
            &&& pool@.in_flight == 0
            &&& pool@.config == config@
            &&& pool@.metrics.events() == 0
            &&& config.precision is Some ==> Some(pool@.precision) == config.precision
            &&& config.precision is None ==> pool@.precision == TsPrecision::Ms
        },
{
}

/// Where a request goes: to the endpoint of the database where it is meant for it, and otherwise to
/// the server's.
pub proof fn law_requests_go_to_their_endpoint(pool: &TaosPool, to_database: String, to_server: String)
    requires
        call_ensures(TaosPool::request_url, (pool, true), to_database),
        call_ensures(TaosPool::request_url, (pool, false), to_server),
    ensures
        pool@.config.database.len() > 0 ==> to_database@ == to_server@ + seq!['/']
            + pool@.config.database,
        pool@.config.database.len() == 0 ==> to_database@ == to_server@,
        "/rest/sql"@.is_suffix_of(to_server@),
        "https://"@.is_prefix_of(to_server@) == pool@.config.tls,
{
    crate::config::endpoint::law_endpoints_lead_where_configured(pool@.config);
    reveal_strlit("/");
    assert("/"@ =~= seq!['/']);
    reveal_strlit("/rest/sql");
    let url = pool@.config.rest_url();
    assert(url.subrange(url.len() - 9, url.len() as int) =~= "/rest/sql"@);
}

/// SQL is sent where it is no longer than allowed, and its bytes are counted; longer SQL is wrong,
/// and counted as a failed request.
pub proof fn law_long_sql_is_not_sent(pool: &mut TaosPool, sql: &str, r: TaosResult<()>)
    requires
        call_ensures(TaosPool::begin_sql, (pool, sql), r),
        old(pool)@.metrics.sql_bytes + text::byte_len(sql@) <= u64::MAX,
        old(pool)@.metrics.sql_err < u64::MAX,
    ensures
        r is Ok == (text::byte_len(sql@) <= old(pool)@.config.batch_max_bytes),
        r is Ok ==> final(pool)@.metrics.sql_bytes == old(pool)@.metrics.sql_bytes + text::byte_len(
            sql@,
        ) && final(pool)@.metrics.sql_err == old(pool)@.metrics.sql_err,
        r matches Err(e) ==> e@ is Invalid && final(pool)@.metrics.sql_err
            == old(pool)@.metrics.sql_err + 1 && final(pool)@.metrics.sql_bytes
            == old(pool)@.metrics.sql_bytes,
        final(pool)@.in_flight == old(pool)@.in_flight,
        final(pool)@.closed == old(pool)@.closed,
{
}

/// What goes wrong on the way: no answer in time is a time-out, any other failure is one of the
/// connection, both worth a retry, with the reason that was given; a status that is none of the 2xx
/// ones is an error, and any of these is none.
pub proof fn law_failures_on_the_way(
    reason: &str,
    late: TaosError,
    unsent: TaosError,
    unread: TaosError,
    status: u16,
    checked: TaosResult<()>,
)
    requires
        call_ensures(pool::send_error, (true, reason), late),
        call_ensures(pool::send_error, (false, reason), unsent),
        call_ensures(pool::read_error, (reason,), unread),
        call_ensures(pool::check_status, (status,), checked),
    ensures
        late@ is Timeout && unsent@ is Connection && unread@ is Connection,
        reason@.is_suffix_of(late@.message()),
        reason@.is_suffix_of(unsent@.message()),
        reason@.is_suffix_of(unread@.message()),
        checked is Ok == (status / 100 == 2),
        checked matches Err(e) ==> (e@ is Timeout) == (status == 408) && (e@ is Unavailable) == (
        status == 429 || status / 100 == 5),
{
    text::lemma_suffix("请求超时: "@, reason@);
    text::lemma_suffix("请求失败: "@, reason@);
    text::lemma_suffix("读响应失败: "@, reason@);
}

/// A permit that is granted lets one more request in, and its release lets it out again and says
/// whether it was the last; closing lets none in.
pub proof fn law_permits_come_and_go(
    pool: &mut TaosPool,
    admitted: TaosResult<()>,
    leaving: &mut TaosPool,
    last: bool,
    closing: &mut TaosPool,
)
    requires
        call_ensures(TaosPool::acquire, (pool, Permit::Granted), admitted),
        call_ensures(TaosPool::release, (leaving,), last),
        old(leaving)@.in_flight > 0,
        call_ensures(TaosPool::close, (closing,), ()),
    ensures
        admitted is Ok == (!old(pool)@.closed && old(pool)@.in_flight
            < old(pool)@.config.max_in_flight),
        admitted is Ok ==> final(pool)@.in_flight == old(pool)@.in_flight + 1,
        admitted is Err ==> final(pool)@ == old(pool)@,
        final(leaving)@.in_flight == old(leaving)@.in_flight - 1,
        last == (final(leaving)@.in_flight == 0),
        final(closing)@.closed,
        final(closing)@.in_flight == old(closing)@.in_flight,
{
}

/// A pool is drained where nothing is under way; closing that did not wait for that is a time-out.
pub proof fn law_closing_waits_for_requests(
    pool: &TaosPool,
    drained: bool,
    waited: bool,
    outcome: TaosResult<()>,
    alive: bool,
)
    requires
        call_ensures(TaosPool::is_drained, (pool,), drained),
        call_ensures(TaosPool::close_outcome, (waited,), outcome),
        call_ensures(TaosPool::liveness, (pool,), alive),
    ensures
        drained == (pool@.in_flight == 0),
        outcome is Ok == waited,
        outcome matches Err(e) ==> e@ is Timeout,
        alive == !pool@.closed,
{
}

/// A health check says what a ping says, with the version that the server gave: the first cell of
/// its reply. It is counted as one ping and one check.
pub proof fn law_health_tells_what_a_ping_says(
    pool: &mut TaosPool,
    precision: TsPrecision,
    reply: TaosResult<TaosExecResult>,
    probes: (u64, u64),
    health: TaosHealth,
)
    requires
        call_ensures(TaosPool::health_check, (pool, precision, reply, probes), health),
        old(pool)@.metrics.ping_ok < u64::MAX && old(pool)@.metrics.ping_err < u64::MAX,
        old(pool)@.metrics.health_ready < u64::MAX,
        old(pool)@.metrics.health_not_ready < u64::MAX,
    ensures
        health.ready == (reply matches Ok(result) && result.code == 0),
        health.precision == precision,
        health.stats.in_flight == old(pool)@.in_flight,
        health.stats.closed == old(pool)@.closed,
        !health.ready ==> health.server_version is None,
        health.ready && reply->Ok_0@.rows.len() > 0 && reply->Ok_0@.rows[0].len() > 0
            ==> health.server_version is Some && health.server_version->0@
            == reply->Ok_0@.rows[0][0],
        final(pool)@.metrics.ping_ok == old(pool)@.metrics.ping_ok + (if health.ready {
            1int
        } else {
            0int
        }),
        final(pool)@.metrics.ping_err == old(pool)@.metrics.ping_err + (if health.ready {
            0int
        } else {
            1int
        }),
        final(pool)@.metrics.health_ready == old(pool)@.metrics.health_ready + (if health.ready {
            1int
        } else {
            0int
        }),
        final(pool)@.metrics.health_not_ready == old(pool)@.metrics.health_not_ready + (
        if health.ready {
            0int
        } else {
            1int
        }),
{
}

/// A closed pool is not ready, and the network is not asked; an open one goes on to ask.
pub proof fn law_closed_pools_are_not_ready(
    pool: &mut TaosPool,
    probes: (u64, u64),
    r: Option<TaosHealth>,
)
    requires
        call_ensures(TaosPool::health_start, (pool, probes), r),
    ensures
        r is Some == old(pool)@.closed,
        r matches Some(health) ==> !health.ready && health.server_version is None
            && health.stats.closed && health.stats.in_flight == old(pool)@.in_flight,
        r is None ==> final(pool)@ == old(pool)@,
{
}

// ---------------------------------------------------------------------------
// Hosts, retries, streams and settings
// ---------------------------------------------------------------------------

/// Failing over tries the configuration with the next host and nothing else changed, and gives up
/// with the last error after the last host.
pub proof fn law_failover_tries_the_next_host(failover: Failover, step: FailoverStep)
    requires
        call_ensures(Failover::step, (failover,), step),
    ensures
        match step {
            FailoverStep::Try(config, rest) => {
                &&& failover@.next < failover@.hosts.len()
                &&& config@.host == failover@.hosts[failover@.next as int]
                &&& config@ == (ConfigView { host: config@.host, ..failover@.config })
                &&& rest@.next == failover@.next + 1
                &&& rest@.hosts == failover@.hosts
            },
            FailoverStep::GiveUp(e) => failover@.next >= failover@.hosts.len() && e@
                == failover@.last_error,
        },
{
}

/// Failing over starts with the host of the configuration and keeps the reason of each failure.
pub proof fn law_failover_starts_and_remembers(
    config: TaosConfig,
    started: TaosResult<Failover>,
    failover: Failover,
    error: TaosError,
    after: Failover,
)
    requires
        call_ensures(Failover::start, (config,), started),
        call_ensures(Failover::failed, (failover, error), after),
    ensures
        started is Ok == (config@.fault() is None),
        started matches Ok(s) ==> s@.next == 0 && s@.hosts.len() > 0 && s@.hosts[0] == config@.host
            && s@.last_error is Unavailable,
        started matches Err(e) ==> e@ is Config,
        after@.last_error == error@,
        after@.next == failover@.next && after@.hosts == failover@.hosts,
{
    crate::config::endpoint::law_endpoint_hosts(config@);
}

/// The policies: reads and writes that do no harm when done twice are tried three times, within five
/// and thirty seconds; a write by configuration as often as that says and at least once; and one
/// policy does not retry at all.
pub proof fn law_policies(
    read: RetryPolicy,
    write: RetryPolicy,
    attempts: u32,
    configured: RetryPolicy,
    once: RetryPolicy,
)
    requires
        call_ensures(RetryPolicy::for_read, (), read),
        call_ensures(RetryPolicy::for_idempotent_write, (), write),
        call_ensures(RetryPolicy::for_configured_write, (attempts,), configured),
        call_ensures(RetryPolicy::no_retry, (), once),
    ensures
        read.attempts() == 3 && write.attempts() == 3 && once.attempts() == 1,
        configured.attempts() == (if attempts > 1 {
            attempts as int
        } else {
            1
        }),
        read.deadline is Some && duration::nanos(read.deadline->0) == 5 * 1_000_000_000,
        write.deadline is Some && duration::nanos(write.deadline->0) == 30 * 1_000_000_000,
        configured.deadline is Some && duration::nanos(configured.deadline->0) == 30
            * 1_000_000_000,
        once.deadline is None,
        read.base(0) == 50_000_000,
        write.base(0) == 100_000_000,
        configured.base(0) == 100_000_000,
{
    vstd::arithmetic::power2::lemma2_to64();
}

/// A back-off that strayed is held to the longest and is otherwise what it is.
pub proof fn law_strayed_backoff_is_held(policy: RetryPolicy, nanos: u64, r: Duration)
    requires
        call_ensures(RetryPolicy::strayed_backoff, (&policy, nanos), r),
    ensures
        duration::nanos(r) <= nanos,
        duration::nanos(r) <= duration::nanos(policy.max_backoff),
        duration::nanos(r) == nanos || duration::nanos(r) == duration::nanos(policy.max_backoff),
{
}

/// A stream holds the points that it was made of, in their order, and hands out the first that is
/// left; a hint of zero is refused.
pub proof fn law_streams_hold_their_points(
    rows: Vec<TaosPoint>,
    hint: usize,
    plain: TaosQueryStream,
    hinted: TaosResult<TaosQueryStream>,
    stream: &mut TaosQueryStream,
    next: Option<TaosPoint>,
    left: usize,
)
    requires
        call_ensures(TaosQueryStream::from_rows, (rows,), plain),
        call_ensures(TaosQueryStream::from_rows_chunked, (rows, hint), hinted),
        call_ensures(TaosQueryStream::remaining_hint, (&plain,), left),
        call_ensures(TaosQueryStream::next_row, (stream,), next),
    ensures
        plain@.rows == point::views(rows@) && !plain@.done && plain@.chunk_hint == 1,
        left == rows@.len(),
        hinted is Ok == (hint > 0),
        hinted matches Ok(s) ==> s@.rows == point::views(rows@) && s@.chunk_hint == hint && !s@.done,
        hinted matches Err(e) ==> e@ is Invalid,
        next is Some == (!old(stream)@.done && old(stream)@.rows.len() > 0),
        next matches Some(p) ==> p@ == old(stream)@.rows[0] && final(stream)@.rows
            == old(stream)@.rows.skip(1) && !final(stream)@.done,
        next is None ==> final(stream)@.done,
{
}

// ---------------------------------------------------------------------------
// Times and identifiers
// ---------------------------------------------------------------------------

/// A time is stored in whole units of the precision, and refused where it is none; read back from
/// what is stored, it is the same.
pub proof fn law_times_are_stored_whole(
    timestamp_ns: i64,
    precision: TsPrecision,
    r: TaosResult<i64>,
    back: i64,
)
    requires
        call_ensures(sql::encode_timestamp, (timestamp_ns, precision), r),
        r is Ok ==> call_ensures(TsPrecision::to_nanos, (precision, r->Ok_0), back),
    ensures
        r is Ok == (timestamp_ns as int % precision.unit() == 0),
        r is Ok ==> back == timestamp_ns && r->Ok_0 * precision.unit() == timestamp_ns,
        r matches Err(e) ==> e@ is Invalid,
{
    let n = timestamp_ns as int;
    crate::config::enums::law_lossless_iff_multiple(precision, n);
    crate::config::enums::law_storing_rounds_toward_zero(precision, n);
    if r is Ok {
        crate::config::enums::law_nanoseconds_are_held_to_the_range(precision, r->Ok_0 as int);
    }
}

/// Rounding keeps to its side: up is the first unit that is not before the time, down the last that
/// is not after it, and otherwise it is toward zero.
pub proof fn law_rounding_keeps_to_its_side(
    precision: TsPrecision,
    timestamp_ns: i64,
    up: i64,
    down: i64,
    cut: i64,
)
    requires
        call_ensures(TsPrecision::from_nanos_up, (precision, timestamp_ns), up),
        call_ensures(TsPrecision::from_nanos_down, (precision, timestamp_ns), down),
        call_ensures(TsPrecision::from_nanos, (precision, timestamp_ns), cut),
    ensures
        (up - 1) * precision.unit() < timestamp_ns <= up * precision.unit(),
        down * precision.unit() <= timestamp_ns < (down + 1) * precision.unit(),
        cut == (if timestamp_ns >= 0 {
            down
        } else {
            up
        }),
{
    let n = timestamp_ns as int;
    let unit = precision.unit();
    query::law_interval_is_closed(precision, n, n, up as int);
    query::law_interval_is_closed(precision, n, n, up - 1);
    query::law_interval_is_closed(precision, n, n, down as int);
    query::law_interval_is_closed(precision, n, n, down + 1);
    vstd::arithmetic::div_mod::lemma_fundamental_div_mod(n, unit);
    vstd::arithmetic::div_mod::lemma_fundamental_div_mod(-n, unit);
    let d = n / unit;
    let u = (-n) / unit;
    assert(down * unit == unit * d) by (nonlinear_arith)
        requires
            down == d,
    ;
    assert((down + 1) * unit == unit * d + unit) by (nonlinear_arith)
        requires
            down == d,
    ;
    assert(up * unit == -(unit * u)) by (nonlinear_arith)
        requires
            up == -u,
    ;
    assert((up - 1) * unit == -(unit * u) - unit) by (nonlinear_arith)
        requires
            up == -u,
    ;
}

/// The cell that holds a stored time gives the time.
pub proof fn law_stored_time_is_read(raw: &str, precision: TsPrecision, stored: i64, r: TaosResult<i64>)
    requires
        call_ensures(response::parse_ts_cell, (raw, precision), r),
        raw@ == number::decimal(stored as int),
        i64::MIN <= stored * precision.unit() <= i64::MAX,
    ensures
        r is Ok,
        r->Ok_0 == stored * precision.unit(),
{
    number::law_signed_reads_decimal(stored as int);
    crate::config::enums::law_nanoseconds_are_held_to_the_range(precision, stored as int);
}

/// Names are taken where they are names: of letters, digits and underscores, not too long, and not
/// with a digit first; a super table's may be shorter only.
pub proof fn law_names_are_taken(name: &str, r: TaosResult<()>, table: TaosResult<()>)
    requires
        call_ensures(sql::validate_ident, (name,), r),
        call_ensures(sql::validate_stable_ident, (name,), table),
    ensures
        r is Ok == (1 <= name@.len() <= 192 && !('0' <= name@[0] <= '9') && forall|i: int|
            0 <= i < name@.len() ==> 'a' <= #[trigger] name@[i] <= 'z' || 'A' <= name@[i] <= 'Z'
                || '0' <= name@[i] <= '9' || name@[i] == '_'),
        table is Ok == (r is Ok && name@.len() <= 94),
        r matches Err(e) ==> e@ is Invalid,
        table matches Err(e) ==> e@ is Invalid,
{
    sql::law_identifiers(name@);
}

/// A value that was escaped is read back from the literal that it stands in.
pub proof fn law_escaped_values_are_read_back(value: &str, r: String, rest: Seq<char>)
    requires
        call_ensures(sql::escape_str, (value,), r),
    ensures
        sql::read_literal(r@ + seq!['\''] + rest) == Some((value@, rest)),
        !r@.contains('\0'),
{
    sql::law_literal_reads_back(value@, rest);
    sql::law_escaping_changes_only_what_it_must(value@, value@);
}

/// No two tags of a table have the same sub-table, and no two tables share one.
pub proof fn law_subtables_are_apart(
    table: &str,
    tag: &str,
    other: &str,
    a: TaosResult<String>,
    b: TaosResult<String>,
)
    requires
        call_ensures(sql::subtable_name, (table, tag), a),
        call_ensures(sql::subtable_name, (table, other), b),
        sql::stable_fault(table@) is None,
    ensures
        a is Ok == (text::byte_len(tag@) <= 48),
        a is Ok ==> sql::ident_fault(a->Ok_0@) is None && table@.is_prefix_of(a->Ok_0@),
        a is Ok && b is Ok && a->Ok_0@ == b->Ok_0@ ==> tag@ == other@,
        a matches Err(e) ==> e@ is Invalid,
{
    if a is Ok {
        sql::law_subtable_is_identifier(table@, tag@);
        let name = a->Ok_0@;
        assert(name.subrange(0, table@.len() as int) =~= table@);
        if b is Ok && a->Ok_0@ == b->Ok_0@ {
            sql::law_subtable_is_injective(table@, tag@, table@, other@);
        }
    }
}

// ---------------------------------------------------------------------------
// Bodies, errors and sessions
// ---------------------------------------------------------------------------

/// A body grows by its chunks in their order, and never over the limit: one chunk too many is
/// refused whole, and so is a length that is announced over it.
pub proof fn law_bodies_stay_within_their_limit(
    body: &mut response::ResponseBody,
    chunk: &[u8],
    r: TaosResult<()>,
    announced: Option<u64>,
    other: &response::ResponseBody,
    a: TaosResult<()>,
)
    requires
        call_ensures(response::ResponseBody::push, (body, chunk), r),
        old(body).within_limit(),
        call_ensures(response::ResponseBody::announce, (other, announced), a),
    ensures
        r is Ok == (old(body).bytes().len() + chunk@.len() <= old(body).limit()),
        r is Ok ==> final(body).bytes() == old(body).bytes() + chunk@,
        r is Err ==> final(body).bytes() == old(body).bytes(),
        final(body).limit() == old(body).limit(),
        a is Ok == (announced is None || announced->0 <= other.limit()),
        r matches Err(e) ==> e@ is Unavailable,
        a matches Err(e) ==> e@ is Unavailable,
{
    if r is Ok {
        assert(final(body).bytes().len() == old(body).bytes().len() + chunk@.len());
    }
}

/// The errors that codes and statuses give, by their numbers, with the context at the end.
pub proof fn law_errors_by_number(
    code: i32,
    status: u16,
    context: &str,
    a: TaosError,
    b: TaosError,
    retryable: bool,
    missing: bool,
)
    requires
        call_ensures(TaosError::from_taos_code, (code, context), a),
        call_ensures(TaosError::from_http_status, (status, context), b),
        call_ensures(TaosError::is_retryable, (&a,), retryable),
        call_ensures(TaosError::is_not_found, (&a,), missing),
    ensures
        retryable == (code == 0x380),
        missing == (code == 0x2603 || code == 0x2662),
        (b@ is Timeout) == (status == 408),
        (b@ is Unavailable) == (status == 429 || status / 100 == 5),
        context@.is_suffix_of(a@.message()),
        context@.is_suffix_of(b@.message()),
{
    crate::error::law_messages_tell_their_number(code, code, status, status, context@);
}

/// A session is opened with the credentials of the configuration and asks with the SQL that it was
/// given, at the address of the configuration; blank SQL is refused.
pub proof fn law_sessions_send_credentials_then_sql(
    config: &TaosConfig,
    sql: &str,
    r: TaosResult<native::WsSession>,
    first: String,
    place: TaosResult<String>,
    port: u16,
    limit: usize,
)
    requires
        call_ensures(native::WsSession::start, (config, sql), r),
        r is Ok ==> call_ensures(native::WsSession::payload, (&r->Ok_0,), first),
        call_ensures(native::probe_start, (config, port), place),
        call_ensures(native::ws_limit, (config,), limit),
    ensures
        r is Ok == (config@.fault() is None && text::trimmed(sql@).len() > 0),
        r matches Ok(session) ==> {
            &&& session@.url == config@.ws_url()
            &&& first@ == crate::json::json_text(
                native::conn_request(config@.user, config@.password),
            )
            &&& session@.query == crate::json::json_text(native::query_request(sql@))
        },
        place is Ok == (config@.fault() is None && port > 0),
        place matches Ok(address) ==> address@ == config@.host + seq![':'] + number::decimal(
            port as int,
        ),
        limit == config@.max_response_bytes,
{
    reveal_strlit(":");
    assert(":"@ =~= seq![':']);
}

/// A table is fit exactly where both values are texts that are long enough.
pub proof fn law_tables_are_fit_for_both_values(result: &TaosExecResult, r: TaosResult<()>)
    requires
        call_ensures(response::validate_decimal_schema, (result,), r),
    ensures
        r is Ok == (response::column_is_wide(result@.rows, "bid"@) && response::column_is_wide(
            result@.rows,
            "ask"@,
        )),
        r matches Err(e) ==> !e@.is_retryable() && !e@.is_not_found(),
{
}

/// A run goes on to its next attempt exactly where the error is worth it, an attempt is left and the
/// deadline is not reached; an error that is not worth it is handed on as it is.
pub proof fn law_runs_go_on_where_it_may_help(
    run: &mut crate::retry::RetryRun,
    error: TaosError,
    elapsed: Duration,
    delay: Duration,
    r: crate::retry::RetryStep,
)
    requires
        call_ensures(crate::retry::RetryRun::failed, (run, error, elapsed, delay), r),
        old(run)@.attempt < u32::MAX,
    ensures
        ({
            let policy = old(run)@.policy;
            let on_time = policy.deadline is None || duration::nanos(elapsed) + duration::nanos(
                delay,
            ) < duration::nanos(policy.deadline->0);
            &&& r is Retry == (error@.is_retryable() && old(run)@.attempt + 1 < policy.max_attempts
                && on_time)
            &&& r is Retry ==> final(run)@.attempt == old(run)@.attempt + 1
            &&& r is GiveUp ==> final(run)@ == old(run)@
            &&& !error@.is_retryable() ==> r is GiveUp && r->GiveUp_0@ == error@
            &&& final(run)@.policy == policy
        }),
{
}

// ---------------------------------------------------------------------------
// Configurations
// ---------------------------------------------------------------------------

/// A setter sets its own setting and no other.
pub proof fn law_setters_set_their_own(
    builder: TaosConfigBuilder,
    port: u16,
    with_port: TaosConfigBuilder,
    tls: bool,
    with_tls: TaosConfigBuilder,
    precision: TsPrecision,
    with_precision: TaosConfigBuilder,
    transport: TransportMode,
    with_transport: TaosConfigBuilder,
    max_in_flight: usize,
    with_max_in_flight: TaosConfigBuilder,
    batch_max_rows: usize,
    with_batch_max_rows: TaosConfigBuilder,
    batch_max_bytes: usize,
    with_batch_max_bytes: TaosConfigBuilder,
    max_response_bytes: usize,
    with_max_response_bytes: TaosConfigBuilder,
    max_query_rows: usize,
    with_max_query_rows: TaosConfigBuilder,
    timeout: Duration,
    with_timeout: TaosConfigBuilder,
    acquire_timeout: Duration,
    with_acquire_timeout: TaosConfigBuilder,
    close_timeout: Duration,
    with_close_timeout: TaosConfigBuilder,
    attempts: u32,
    with_attempts: TaosConfigBuilder,
)
    requires
        call_ensures(TaosConfigBuilder::port, (builder, port), with_port),
        call_ensures(TaosConfigBuilder::tls, (builder, tls), with_tls),
        call_ensures(TaosConfigBuilder::precision, (builder, precision), with_precision),
        call_ensures(TaosConfigBuilder::transport, (builder, transport), with_transport),
        call_ensures(
            TaosConfigBuilder::max_in_flight,
            (builder, max_in_flight),
            with_max_in_flight,
        ),
        call_ensures(
            TaosConfigBuilder::batch_max_rows,
            (builder, batch_max_rows),
            with_batch_max_rows,
        ),
        call_ensures(
            TaosConfigBuilder::batch_max_bytes,
            (builder, batch_max_bytes),
            with_batch_max_bytes,
        ),
        call_ensures(
            TaosConfigBuilder::max_response_bytes,
            (builder, max_response_bytes),
            with_max_response_bytes,
        ),
        call_ensures(
            TaosConfigBuilder::max_query_rows,
            (builder, max_query_rows),
            with_max_query_rows,
        ),
        call_ensures(TaosConfigBuilder::timeout, (builder, timeout), with_timeout),
        call_ensures(
            TaosConfigBuilder::acquire_timeout,
            (builder, acquire_timeout),
            with_acquire_timeout,
        ),
        call_ensures(
            TaosConfigBuilder::close_timeout,
            (builder, close_timeout),
            with_close_timeout,
        ),
        call_ensures(TaosConfigBuilder::write_max_attempts, (builder, attempts), with_attempts),
    ensures
        with_port@ == (ConfigView { port, ..builder@ }),
        with_tls@ == (ConfigView { tls, ..builder@ }),
        with_precision@ == (ConfigView { precision: Some(precision), ..builder@ }),
        with_transport@ == (ConfigView { transport, ..builder@ }),
        with_max_in_flight@ == (ConfigView { max_in_flight, ..builder@ }),
        with_batch_max_rows@ == (ConfigView { batch_max_rows, ..builder@ }),
        with_batch_max_bytes@ == (ConfigView { batch_max_bytes, ..builder@ }),
        with_max_response_bytes@ == (ConfigView { max_response_bytes, ..builder@ }),
        with_max_query_rows@ == (ConfigView { max_query_rows, ..builder@ }),
        with_timeout@ == (ConfigView { timeout: duration::nanos(timeout), ..builder@ }),
        with_acquire_timeout@ == (ConfigView {
            acquire_timeout: duration::nanos(acquire_timeout),
            ..builder@
        }),
        with_close_timeout@ == (ConfigView {
            close_timeout: duration::nanos(close_timeout),
            ..builder@
        }),
        with_attempts@ == (ConfigView {
            write_max_attempts: with_attempts@.write_max_attempts,
            ..builder@
        }),
        with_attempts@.write_max_attempts == (if attempts > 1 {
            attempts
        } else {
            1
        }),
{
}

/// The setters of texts set their own setting too.
pub proof fn law_text_setters_set_their_own(
    builder: TaosConfigBuilder,
    given: String,
    with_host: TaosConfigBuilder,
    with_database: TaosConfigBuilder,
    with_user: TaosConfigBuilder,
    with_password: TaosConfigBuilder,
    started: TaosConfigBuilder,
    config: TaosConfig,
)
    requires
        call_ensures(TaosConfigBuilder::host::<String>, (builder, given), with_host),
        call_ensures(TaosConfigBuilder::database::<String>, (builder, given), with_database),
        call_ensures(TaosConfigBuilder::user::<String>, (builder, given), with_user),
        call_ensures(TaosConfigBuilder::password::<String>, (builder, given), with_password),
        call_ensures(TaosConfigBuilder::from_config, (config,), started),
    ensures
        with_host@ == (ConfigView { host: with_host@.host, ..builder@ }),
        with_database@ == (ConfigView { database: with_database@.database, ..builder@ }),
        with_user@ == (ConfigView { user: with_user@.user, ..builder@ }),
        with_password@ == (ConfigView { password: with_password@.password, ..builder@ }),
        started@ == config@,
{
}

/// A configuration is built as it was set, where it passes; what passes is within the limits, and a
/// host that is not this machine is reached over TLS and with a password.
pub proof fn law_built_configurations_pass(
    builder: TaosConfigBuilder,
    r: TaosResult<TaosConfig>,
    config: &TaosConfig,
    v: TaosResult<()>,
)
    requires
        call_ensures(TaosConfigBuilder::build, (builder,), r),
        call_ensures(TaosConfig::validate, (config,), v),
    ensures
        r matches Ok(c) ==> c@ == builder@ && c@.field_fault() is None,
        r is Ok == (builder@.fault() is None),
        v is Ok == (config@.fault() is None),
        r matches Err(e) ==> e@ is Config,
        v matches Err(e) ==> e@ is Config,
        v is Ok ==> 1 <= config@.max_in_flight <= 1_024 && 1 <= config@.batch_max_rows <= 10_000
            && 0 < config@.timeout <= 3_600_000_000_000 && config@.port != 0,
        v is Ok && !crate::config::parse::is_loopback(config@.host) ==> config@.tls
            && text::trimmed(config@.password).len() > 0,
{
    crate::config::validate::law_settings_pass_within_their_ranges(config@);
}

/// The addresses of a configuration: TLS exactly where it is set, and the hosts to try from the
/// first on.
pub proof fn law_addresses_follow_the_configuration(
    config: &TaosConfig,
    rest: String,
    ws: String,
    hosts: Vec<String>,
)
    requires
        call_ensures(TaosConfig::rest_sql_url, (config,), rest),
        call_ensures(TaosConfig::native_ws_url, (config,), ws),
        call_ensures(TaosConfig::endpoint_hosts, (config,), hosts),
    ensures
        "https://"@.is_prefix_of(rest@) == config@.tls,
        "wss://"@.is_prefix_of(ws@) == config@.tls,
        hosts@.len() > 0,
        hosts@[0]@ == config@.host,
        crate::config::texts(hosts@).no_duplicates(),
{
    crate::config::endpoint::law_endpoints_lead_where_configured(config@);
    crate::config::endpoint::law_endpoint_hosts(config@);
    assert(crate::config::texts(hosts@)[0] == hosts@[0]@);
}

// ---------------------------------------------------------------------------
// Batches, queries and connections from one request to the next
// ---------------------------------------------------------------------------

/// A batch starts where its table has a name and the most rows of a statement are within the
/// configuration; without points it is done at once, and otherwise it starts with the table.
pub proof fn law_batches_start_with_their_table(
    pool: &mut TaosPool,
    table: &str,
    points: &[TaosPoint],
    max_rows: usize,
    r: Result<WriteStart, BatchWritePartialError>,
)
    requires
        call_ensures(WriteSession::start, (pool, table, points, max_rows), r),
        old(pool)@.metrics.write_ok < u64::MAX,
    ensures
        r is Ok == (sql::stable_fault(table@) is None && (points@.len() == 0 || 1 <= max_rows
            <= old(pool)@.config.batch_max_rows)),
        r matches Err(e) ==> e.source@ is Invalid && e.report.accepted == 0 && e.report.failed
            == points@.len() as usize,
        r is Ok ==> (r->Ok_0 is Done) == (points@.len() == 0),
        r is Ok && r->Ok_0 is Done ==> final(pool)@.metrics.write_ok
            == old(pool)@.metrics.write_ok + 1,
        r is Ok && r->Ok_0 is Running ==> {
            let session = r->Ok_0->Running_0@;
            &&& session.stage == WriteStage::Create
            &&& session.table == table@
            &&& session.points == point::views(points@)
            &&& session.max_rows == max_rows
            &&& session.accepted == 0
        },
{
}

/// A statement of a batch that succeeds is followed by the next one, and the rows that it held are
/// counted as written; one that fails ends the batch, with the rows of those before it as written.
pub proof fn law_batches_go_on_statement_by_statement(
    session: WriteSession,
    sent: String,
    pool: &mut TaosPool,
    reply: TaosResult<TaosExecResult>,
    step: WriteStep,
)
    requires
        session@.wf(),
        session@.stage == WriteStage::Insert,
        call_ensures(WriteSession::sql, (&session,), sent),
        call_ensures(WriteSession::reply, (session, pool, reply), step),
    ensures
        sent@ == session@.chunks[session@.next as int].0,
        ({
            let rows = session@.chunks[session@.next as int].1;
            let last = session@.next + 1 == session@.chunks.len();
            let ok = reply is Ok && reply->Ok_0.code == 0;
            &&& ok && !last ==> step is Running && step->Running_0@.next_sql()
                == session@.chunks[(session@.next + 1) as int].0 && step->Running_0@.accepted
                == session@.accepted + rows
            &&& ok && last ==> step is Done && step->Done_0.accepted == session@.points.len()
                && step->Done_0.failed == 0
            &&& !ok ==> step is Failed && step->Failed_0.report.accepted == session@.accepted
                && step->Failed_0.report.failed == session@.points.len() - session@.accepted
            &&& reply is Err ==> step->Failed_0.source@ == reply->Err_0@
        }),
{
    crate::client::batch::law_every_point_is_accounted_for(session@, old(pool)@, reply);
    if reply is Ok && reply->Ok_0.code == 0 {
        crate::client::batch::law_statements_are_sent_in_order(session@, old(pool)@, reply);
    } else {
        crate::client::batch::law_failed_statement_ends_the_batch(session@, old(pool)@, reply);
    }
}

/// A query ends with the points of the rows in their order, where there are not too many of them;
/// one row too many, and it ends with an error that is worth a retry.
pub proof fn law_queries_end_with_their_rows(
    session: QuerySession,
    pool: &TaosPool,
    result: TaosExecResult,
    step: QueryStep,
    e: TaosError,
    failed: QueryStep,
)
    requires
        session@ is Select,
        call_ensures(QuerySession::reply, (session, pool, Ok(result)), step),
        call_ensures(QuerySession::reply, (session, pool, Err(e)), failed),
    ensures
        result@.rows.len() > pool@.config.max_query_rows ==> step is Failed && step->Failed_0@
            is Unavailable,
        step is Done ==> result@.rows.len() <= pool@.config.max_query_rows && query::row_points(
            result@.rows,
            session@->precision,
        ) == Ok::<Seq<PointView>, ErrorView>(point::views(step->Done_0@)),
        !(step is Running),
        failed is Done == e@.is_not_found(),
        failed is Done ==> failed->Done_0@.len() == 0,
        failed is Failed ==> failed->Failed_0@ == e@,
        !(failed is Running),
{
    if failed is Done {
        assert(point::views(failed->Done_0@).len() == 0);
    }
}

/// Connecting starts with the database where there is one and with a sign of life where there is
/// none, and ends with an answer to it; the precision that a server names is the pool's from then
/// on, and another one than configured ends it.
pub proof fn law_connecting_goes_on_step_by_step(
    pool: &TaosPool,
    start: TaosResult<ConnectStage>,
    stage: ConnectStage,
    busy: &mut TaosPool,
    reply: TaosResult<TaosExecResult>,
    step: ConnectStep,
    found: TsPrecision,
)
    requires
        call_ensures(ConnectStage::start, (pool,), start),
        call_ensures(ConnectStage::reply, (stage, busy, reply), step),
    ensures
        pool@.config.database.len() == 0 ==> start == Ok::<ConnectStage, TaosError>(
            ConnectStage::Ping,
        ),
        pool@.config.database.len() > 0 && sql::ident_fault(pool@.config.database) is None
            ==> start == Ok::<ConnectStage, TaosError>(ConnectStage::CreateDatabase),
        start is Err == (pool@.config.database.len() > 0 && sql::ident_fault(
            pool@.config.database,
        ) is Some),
        reply is Err ==> step is Failed && step->Failed_0@ == reply->Err_0@,
        stage == ConnectStage::CreateDatabase && reply is Ok ==> step@ == ConnectView::Running(
            ConnectStage::DetectPrecision,
        ),
        stage == ConnectStage::DetectPrecision && connect::detected(reply) == Ok::<
            TsPrecision,
            ErrorView,
        >(found) ==> {
            let fits = old(busy)@.config.precision is None || old(busy)@.config.precision == Some(
                found,
            );
            &&& fits ==> step@ == ConnectView::Running(ConnectStage::Ping) && final(busy)@.precision
                == found
            &&& !fits ==> step is Failed && step->Failed_0@ is Config && final(busy)@ == old(busy)@
        },
        stage == ConnectStage::Ping && reply is Ok ==> (step is Done) == (reply->Ok_0.code == 0),
{
}

/// A request that was answered comes to its result where the status is one of the 2xx ones, the
/// response holds no error and there are not too many rows.
pub proof fn law_answers_come_to_their_result(
    pool: &TaosPool,
    status: u16,
    raw: RawResponse,
    r: TaosResult<TaosExecResult>,
)
    requires
        call_ensures(TaosPool::answer, (pool, status, Ok(raw)), r),
    ensures
        r is Ok == (status / 100 == 2 && raw@.outcome() is Ok && raw@.outcome()->Ok_0.rows.len()
            <= pool@.config.max_query_rows),
        r matches Ok(result) ==> Ok::<crate::client::types::ExecView, ErrorView>(result@)
            == raw@.outcome(),
        status / 100 == 2 && raw@.outcome() is Err ==> r is Err && r->Err_0@
            == raw@.outcome()->Err_0,
        r is Ok ==> raw@.code == 0,
{
}

/// What a ping comes to, and how it is counted.
pub proof fn law_pings_are_counted(
    pool: &mut TaosPool,
    reply: TaosResult<TaosExecResult>,
    r: TaosResult<()>,
)
    requires
        call_ensures(TaosPool::ping, (pool, reply), r),
        old(pool)@.metrics.ping_ok < u64::MAX && old(pool)@.metrics.ping_err < u64::MAX,
    ensures
        r is Ok == (reply is Ok && reply->Ok_0.code == 0),
        reply is Err ==> r is Err && r->Err_0@ == reply->Err_0@,
        final(pool)@.metrics.ping_ok - old(pool)@.metrics.ping_ok == (if r is Ok {
            1int
        } else {
            0int
        }),
        final(pool)@.metrics.ping_err - old(pool)@.metrics.ping_err == (if r is Ok {
            0int
        } else {
            1int
        }),
{
}

/// The ends of requests, batches and queries are counted, each under its own name.
pub proof fn law_ends_are_counted_under_their_name(
    a: &mut TaosPool,
    b: &mut TaosPool,
    c: &mut TaosPool,
    ok: bool,
    counters: &mut WsProbeCounters,
)
    requires
        call_ensures(TaosPool::end_sql, (a, ok), ()),
        call_ensures(TaosPool::end_write, (b, ok), ()),
        call_ensures(TaosPool::end_query, (c, ok), ()),
        call_ensures(metrics::record_ws_probe, (counters, ok), ()),
        old(a)@.metrics.sql_ok < u64::MAX && old(a)@.metrics.sql_err < u64::MAX,
        old(b)@.metrics.write_ok < u64::MAX && old(b)@.metrics.write_err < u64::MAX,
        old(c)@.metrics.query_ok < u64::MAX && old(c)@.metrics.query_err < u64::MAX,
        old(counters).ok < u64::MAX && old(counters).err < u64::MAX,
    ensures
        ok ==> final(a)@.metrics.sql_ok == old(a)@.metrics.sql_ok + 1 && final(a)@.metrics.sql_err
            == old(a)@.metrics.sql_err,
        !ok ==> final(a)@.metrics.sql_err == old(a)@.metrics.sql_err + 1
            && final(a)@.metrics.sql_ok == old(a)@.metrics.sql_ok,
        ok ==> final(b)@.metrics.write_ok == old(b)@.metrics.write_ok + 1,
        !ok ==> final(b)@.metrics.write_err == old(b)@.metrics.write_err + 1,
        ok ==> final(c)@.metrics.query_ok == old(c)@.metrics.query_ok + 1,
        !ok ==> final(c)@.metrics.query_err == old(c)@.metrics.query_err + 1,
        ok ==> final(counters).ok == old(counters).ok + 1 && final(counters).err
            == old(counters).err,
        !ok ==> final(counters).err == old(counters).err + 1 && final(counters).ok
            == old(counters).ok,
{
}

/// What became of a batch is kept: the rows that were written are counted, and those that were not
/// stay with the batcher; where all were written nothing stays that was not there before.
pub proof fn law_outcomes_are_kept(
    batcher: &mut WriteBatcher,
    batch: Vec<TaosPoint>,
    outcome: Outcome,
    r: TaosResult<BatchWriteReport>,
)
    requires
        call_ensures(WriteBatcher::flushed, (batcher, batch, outcome), r),
        old(batcher)@.total_accepted + batch@.len() <= usize::MAX,
        old(batcher)@.total_failed + batch@.len() <= usize::MAX,
        outcome matches Ok(report) ==> report.accepted == batch@.len(),
        outcome matches Err(partial) ==> partial.report.accepted < batch@.len(),
    ensures
        r is Ok == outcome is Ok,
        outcome is Ok ==> final(batcher)@.total_accepted == old(batcher)@.total_accepted
            + batch@.len() && final(batcher)@.pending == old(batcher)@.pending,
        outcome matches Err(partial) ==> {
            let n = partial.report.accepted;
            &&& final(batcher)@.total_accepted == old(batcher)@.total_accepted + n
            &&& final(batcher)@.total_failed == old(batcher)@.total_failed + batch@.len() - n
            &&& final(batcher)@.pending == Some(point::views(batch@).skip(n as int))
            &&& r->Err_0@.is_retryable() == partial.source@.is_retryable()
        },
        final(batcher)@.buffer == old(batcher)@.buffer,
{
}

/// The variables of the environment are put in place where they can be read, and what they give
/// passes; an error is one of the configuration.
pub proof fn law_environment_is_read(
    env: &config::env::EnvVars,
    r: TaosResult<TaosConfig>,
    config: &mut TaosConfig,
    applied: TaosResult<()>,
)
    requires
        call_ensures(TaosConfig::from_env, (env,), r),
        call_ensures(TaosConfig::apply_env_overrides, (config, env), applied),
    ensures
        r matches Ok(c) ==> c@ == env.applied(ConfigView::defaults()) && c@.fault() is None,
        r matches Err(e) ==> e@ is Config,
        applied is Ok == (env.first_fault() is None),
        applied is Ok ==> final(config)@ == env.applied(old(config)@),
        applied is Err ==> final(config)@ == env.applied_first(
            old(config)@,
            (env.first_fault()->0).1,
        ),
{
    config::env::law_environment_gives_what_passes(*env);
}

/// A document gives what its entries give, which passes and holds no password.
pub proof fn law_documents_are_read(document: &str, r: TaosResult<TaosConfig>)
    requires
        call_ensures(TaosConfig::from_toml, (document,), r),
    ensures
        r matches Ok(c) ==> c@.fault() is None && c@.password.len() == 0
            && config::document::document_config(document@) == Ok::<ConfigView, Seq<char>>(c@),
        r matches Err(e) ==> e@ is Config && config::document::document_config(document@) is Err,
{
    config::document::law_documents_hold_no_password(document@);
    match config::document::toml_entries(document@) {
        Ok(entries) => {
            config::document::law_documents_need_their_version(entries);
        },
        Err(_) => {},
    }
}

/// The export of a pool tells its counters and those of the sessions that are handed in.
pub proof fn law_pools_export_their_counters(
    pool: &TaosPool,
    ok: u64,
    err: u64,
    exported: String,
    snapshot: TaosMetricsSnapshot,
)
    requires
        call_ensures(TaosPool::metrics_prometheus, (pool, (ok, err)), exported),
        call_ensures(TaosPool::metrics, (pool, (ok, err)), snapshot),
    ensures
        metrics::exports(
            exported@,
            "taosx_ops_total{op=\"sql\",outcome=\"ok\"}"@,
            pool@.metrics.sql_ok,
        ),
        metrics::exports(exported@, "taosx_ops_total{op=\"ws_probe\",outcome=\"ok\"}"@, ok),
        metrics::exports(exported@, "taosx_ops_total{op=\"ws_probe\",outcome=\"err\"}"@, err),
        metrics::exports(
            exported@,
            "taosx_bytes_total{op=\"response\"}"@,
            pool@.metrics.response_bytes,
        ),
        snapshot.ws_probe_ok == ok && snapshot.ws_probe_err == err,
        snapshot.write_ok == pool@.metrics.write_ok,
{
    metrics::law_export_tells_every_counter(
        TaosMetricsSnapshot { ws_probe_ok: ok, ws_probe_err: err, ..pool@.metrics },
    );
}

/// What a reader sees of an error ends with its message and starts with its class, and a
/// configuration as text is the same whatever the password.
pub proof fn law_texts_for_readers(
    error: &TaosError,
    shown: String,
    a: &TaosConfig,
    b: &TaosConfig,
    text_a: String,
    text_b: String,
)
    requires
        call_ensures(TaosError::to_string, (error,), shown),
        call_ensures(TaosConfig::to_debug_string, (a,), text_a),
        call_ensures(TaosConfig::to_debug_string, (b,), text_b),
        a@ == (ConfigView { password: a@.password, ..b@ }),
    ensures
        shown@ == error@.prefix() + error@.message(),
        text_a@ == text_b@,
        config::render::tells(text_a@, "port"@, number::decimal(a@.port as int), ','),
{
    config::render::law_text_tells_each_setting(a@);
    config::render::law_text_hides_the_password(b@, a@.password);
}

// ---------------------------------------------------------------------------
// More of the batcher
// ---------------------------------------------------------------------------

/// A batcher starts open and empty, with the limits that it was given and its time at the start.
pub proof fn law_new_batchers_are_empty(
    table: String,
    config: crate::batcher::WriteBatcherConfig,
    now: Duration,
    batcher: WriteBatcher,
    points: &[TaosPoint],
    done: Option<BatchWriteReport>,
)
    requires
        call_ensures(WriteBatcher::new::<String>, (table, config, now), batcher),
        call_ensures(crate::batcher::outcome_without_points, (points,), done),
    ensures
        batcher@.buffer.len() == 0 && batcher@.refusal() is None,
        batcher@.max_rows == config.max_rows,
        batcher@.flush_interval == duration::nanos(config.flush_interval),
        batcher@.last_flush == duration::nanos(now),
        batcher@.total_accepted == 0 && batcher@.total_failed == 0,
        done is Some == (points@.len() == 0),
        done matches Some(report) ==> report.accepted == 0 && report.failed == 0,
{
}

/// A batch that was written whole moves the time of the last one; one that was not leaves it, so that
/// the batcher is due again.
pub proof fn law_only_success_moves_the_time(
    batcher: &mut WriteBatcher,
    batch: Vec<TaosPoint>,
    outcome: Outcome,
    now: Duration,
    r: TaosResult<()>,
)
    requires
        call_ensures(WriteBatcher::pushed, (batcher, batch, outcome, now), r),
    ensures
        r is Ok == outcome is Ok,
        final(batcher)@.last_flush == (if outcome is Ok {
            duration::nanos(now)
        } else {
            old(batcher)@.last_flush
        }),
        outcome is Err ==> final(batcher)@.pending is Some,
        outcome is Ok ==> final(batcher)@.pending == old(batcher)@.pending,
        final(batcher)@.buffer == old(batcher)@.buffer,
{
}

/// A batcher is closed once its last batch was written whole and nothing else is left; otherwise it
/// is open again, and what was not written stays with it.
pub proof fn law_closing_ends_with_the_last_batch(
    batcher: &mut WriteBatcher,
    batch: Vec<TaosPoint>,
    outcome: Outcome,
    r: Result<BatchWriteReport, crate::batcher::BatcherCloseError>,
)
    requires
        call_ensures(WriteBatcher::close_done, (batcher, batch, outcome), r),
        !old(batcher)@.closed,
        old(batcher)@.pending is None,
    ensures
        r is Ok == outcome is Ok,
        final(batcher)@.closed == outcome is Ok,
        outcome is Ok ==> r->Ok_0 == outcome->Ok_0,
        outcome is Err ==> !final(batcher)@.closing && final(batcher)@.pending is Some
            && r->Err_0.summary.total_failed == final(batcher)@.total_failed
            && r->Err_0.summary.last_flush == outcome->Err_0.report,
{
}

/// What a batcher tells of itself is how it stands.
pub proof fn law_batchers_tell_how_they_stand(
    batcher: &WriteBatcher,
    pending: bool,
    left: usize,
    totals: (usize, usize),
    report: crate::batcher::BatcherCloseReport,
)
    requires
        call_ensures(WriteBatcher::has_pending, (batcher,), pending),
        call_ensures(WriteBatcher::pending_len, (batcher,), left),
        call_ensures(WriteBatcher::totals, (batcher,), totals),
        call_ensures(WriteBatcher::close_report, (batcher,), report),
    ensures
        pending == batcher@.pending is Some,
        !pending ==> left == 0 && report.pending == 0,
        pending ==> left == batcher@.pending->0.len() && report.pending == left,
        totals.0 == batcher@.total_accepted && totals.1 == batcher@.total_failed,
        report.total_accepted == totals.0 && report.total_failed == totals.1,
{
}

// ---------------------------------------------------------------------------
// More of retries, results and texts
// ---------------------------------------------------------------------------

/// The back-off after the first attempt is the first one, and after each it is no longer than the
/// longest; a run starts with its first attempt.
pub proof fn law_backoffs_start_and_end(
    policy: RetryPolicy,
    attempt: u32,
    first: Duration,
    later: Duration,
    run: crate::retry::RetryRun,
)
    requires
        call_ensures(RetryPolicy::exponential_backoff, (&policy, 0u32), first),
        call_ensures(RetryPolicy::exponential_backoff, (&policy, attempt), later),
        call_ensures(crate::retry::RetryRun::start, (policy,), run),
    ensures
        duration::nanos(policy.initial_backoff) <= duration::nanos(policy.max_backoff)
            ==> duration::nanos(first) == duration::nanos(policy.initial_backoff),
        duration::nanos(later) <= duration::nanos(policy.max_backoff),
        run@.attempt == 0 && run@.policy == policy,
{
    vstd::arithmetic::power2::lemma2_to64();
    crate::retry::law_backoff_doubles(policy, 0);
}

/// After an error there is another attempt exactly where the error is worth it, an attempt is left
/// and the deadline is not reached.
pub proof fn law_errors_are_retried_where_it_may_help(
    policy: RetryPolicy,
    attempt: u32,
    error: TaosError,
    elapsed: Duration,
    delay: Duration,
    r: crate::retry::RetryStep,
    worth: bool,
)
    requires
        call_ensures(RetryPolicy::after_error, (&policy, attempt, error, elapsed, delay), r),
        call_ensures(RetryPolicy::is_retryable, (&error,), worth),
    ensures
        r is Retry == (worth && attempt + 1 < policy.max_attempts && (policy.deadline is None
            || duration::nanos(elapsed) + duration::nanos(delay) < duration::nanos(
            policy.deadline->0,
        ))),
        worth == (error@ is Connection || error@ is Unavailable || error@ is Timeout || error@
            is Io),
        !worth ==> r is GiveUp && r->GiveUp_0@ == error@,
{
}

/// A state of zero is replaced by the seed, any other leads to the next, and none leads to zero; a
/// sample is less than two to the power of fifty-three.
pub proof fn law_jitter_starts_with_the_seed(
    state: u64,
    seed: u64,
    next: u64,
    fresh: u64,
    sample: u64,
)
    requires
        call_ensures(crate::retry::next_jitter_state, (state, seed), next),
        call_ensures(crate::retry::next_jitter_state, (0u64, seed), fresh),
        call_ensures(crate::retry::unit_sample, (state,), sample),
        state != 0,
    ensures
        next == crate::retry::shifted(state) && next != 0,
        fresh == crate::retry::shifted(seed | 1) && fresh != 0,
        sample == state / 2048,
{
    crate::retry::law_jitter_state_stays_alive(state);
    assert(seed | 1 != 0) by (bit_vector);
    crate::retry::law_jitter_state_stays_alive(seed | 1);
    assert(state >> 11 == state / 2048) by (bit_vector);
}

/// A text that is shortened keeps to its bytes, and a body is read as the text that it encodes.
pub proof fn law_texts_keep_to_their_bytes(
    s: &str,
    max: usize,
    r: String,
    body: response::ResponseBody,
    read: TaosResult<String>,
    empty: response::ResponseBody,
)
    requires
        call_ensures(response::truncate, (s, max), r),
        call_ensures(response::ResponseBody::finish, (body,), read),
        call_ensures(response::ResponseBody::new, (max,), empty),
    ensures
        text::byte_len(r@) <= max + 3,
        !r@.contains('\n'),
        read is Ok == vstd::utf8::valid_utf8(body.bytes()),
        read matches Ok(t) ==> t@ == vstd::utf8::decode_utf8(body.bytes()),
        read matches Err(e) ==> e@ is Serialization,
        empty.bytes().len() == 0 && empty.limit() == max,
{
    response::law_shortened_keeps_the_limit(s@, max as nat);
}

/// What a result and a report tell is what they hold, and a report as text is that of its cause.
pub proof fn law_results_tell_what_they_hold(
    result: &TaosExecResult,
    cell: Option<&String>,
    report: BatchWriteReport,
    whole: bool,
    partial: &BatchWritePartialError,
    shown: String,
    counters: TaosMetricsSnapshot,
    events: u64,
)
    requires
        call_ensures(TaosExecResult::first_cell, (result,), cell),
        call_ensures(BatchWriteReport::is_complete, (&report,), whole),
        call_ensures(BatchWritePartialError::to_string, (partial,), shown),
        counters.events() <= u64::MAX,
        call_ensures(TaosMetricsSnapshot::total_events, (&counters,), events),
    ensures
        cell is Some == (result@.rows.len() > 0 && result@.rows[0].len() > 0),
        cell matches Some(c) ==> c@ == result@.rows[0][0],
        whole == (report.failed == 0 && report.chunks_ok == report.chunks_total),
        partial.source@.display().is_suffix_of(shown@),
        text::holds(
            shown@,
            " accepted="@ + number::decimal(partial.report.accepted as int) + " "@,
        ),
        events == counters.sql_ok + counters.sql_err + counters.write_ok + counters.write_err
            + counters.query_ok + counters.query_err + counters.ping_ok + counters.ping_err
            + counters.health_ready + counters.health_not_ready + counters.ws_probe_ok
            + counters.ws_probe_err,
{
    crate::client::types::law_partial_text_tells_names(partial.report, partial.source@);
}

/// A pool tells how it stands, takes the precision that it is given and nothing else with it, and
/// refuses work once it is closed.
pub proof fn law_pools_tell_how_they_stand(
    pool: &TaosPool,
    stats: crate::client::TaosPoolStats,
    open: TaosResult<()>,
    other: &mut TaosPool,
    precision: TsPrecision,
    shown: String,
)
    requires
        call_ensures(TaosPool::stats, (pool,), stats),
        call_ensures(TaosPool::ensure_open, (pool,), open),
        call_ensures(TaosPool::set_precision, (other, precision), ()),
        call_ensures(TaosPool::to_debug_string, (pool,), shown),
    ensures
        stats.in_flight == pool@.in_flight && stats.closed == pool@.closed,
        open is Ok == !pool@.closed,
        open matches Err(e) ==> e@ is Closed,
        final(other)@ == (PoolView { precision, ..old(other)@ }),
        config::render::tells(
            shown@,
            "precision"@,
            config::render::precision_text(pool@.precision),
            ',',
        ),
        config::render::tells(shown@, "in_flight"@, number::decimal(pool@.in_flight as int), ','),
{
    pool::law_pool_text_tells_its_state(pool@);
}

/// The statements without their numbers of rows are the same statements, held to the greatest
/// length of all.
pub proof fn law_plain_statements_insert_the_batch(
    table: &str,
    points: &[TaosPoint],
    precision: TsPrecision,
    max_rows: usize,
    r: TaosResult<Vec<String>>,
    chunks: TaosResult<Vec<SqlChunk>>,
)
    requires
        call_ensures(insert::build_insert_sql_chunks, (table, points, precision, max_rows), r),
        call_ensures(
            insert::build_insert_sql_chunks_with_limits,
            (table, points, precision, max_rows, 8_388_608usize),
            chunks,
        ),
    ensures
        r is Ok == chunks is Ok,
        r is Ok ==> r->Ok_0@.len() == chunks->Ok_0@.len() && forall|i: int|
            0 <= i < r->Ok_0@.len() ==> (#[trigger] r->Ok_0@[i])@ == chunks->Ok_0@[i].0@,
        r is Err ==> r->Err_0@ == chunks->Err_0@,
{
    if r is Ok {
        let views = insert::chunk_views(chunks->Ok_0@);
        assert forall|i: int| 0 <= i < r->Ok_0@.len() implies (#[trigger] r->Ok_0@[i])@
            == chunks->Ok_0@[i].0@ by {
            assert(views[i].0 == chunks->Ok_0@[i].0@);
        }
    }
}

/// A handshake leads to the service over WebSocket, with TLS exactly where it is set, and is made in
/// that mode only.
pub proof fn law_handshakes_lead_to_the_service(
    config: &TaosConfig,
    start: TaosResult<String>,
    needed: bool,
)
    requires
        call_ensures(native::handshake_start, (config,), start),
        call_ensures(connect::needs_handshake, (config,), needed),
    ensures
        start is Ok == (config@.fault() is None && config@.transport == TransportMode::NativeWs),
        start matches Ok(url) ==> url@ == config@.ws_url() && "wss://"@.is_prefix_of(url@)
            == config@.tls,
        start matches Err(e) ==> e@ is Config,
        needed == (config@.transport == TransportMode::NativeWs),
{
    config::endpoint::law_endpoints_lead_where_configured(config@);
}

/// A file that cannot be read is a fault of the configuration, and is told with its path and the
/// reason.
pub proof fn law_unreadable_files_are_told(
    path: &str,
    kind: &str,
    document: TaosError,
    authority: TaosError,
)
    requires
        call_ensures(config::document::toml_file_error, (path, kind), document),
        call_ensures(connect::tls_ca_read_error, (path, kind), authority),
    ensures
        document@ is Config && authority@ is Config,
        kind@.is_suffix_of(document@.message()),
        text::holds(authority@.message(), "`"@ + path@ + "`"@),
{
    text::lemma_suffix("TOML 文件读取失败 `"@ + path@ + "`: "@, kind@);
    reveal_strlit("无法读取 TLS CA `");
    reveal_strlit("无法读取 TLS CA ");
    reveal_strlit("`（");
    reveal_strlit("`");
    reveal_strlit("（");
    text::lemma_holds(
        authority@.message(),
        "无法读取 TLS CA "@,
        "`"@ + path@ + "`"@,
        "（"@ + kind@ + "）"@,
    );
}

} // verus!
