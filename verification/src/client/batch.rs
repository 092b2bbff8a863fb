//! Writing a batch: the statements to send, in order, and what their replies come to.
//!
//! A [`WriteSession`] says what to send next and takes the reply. It creates the super table
//! where there is none, looks at its columns, and inserts chunk by chunk. It stops at the first
//! failure, and says how many rows were committed before it; nothing is sent twice.

use vstd::prelude::*;

use super::insert;
use super::insert::SqlChunk;
#[allow(unused_imports)]
use super::pool::PoolView;
use super::pool::TaosPool;
use super::response;
use super::sql;
use super::types::{BatchWritePartialError, BatchWriteReport, TaosExecResult};
#[allow(unused_imports)]
use crate::config::TsPrecision;
use crate::error;
#[allow(unused_imports)]
use crate::error::ErrorView;
use crate::error::{TaosError, TaosResult};
use crate::number;
use crate::point;
#[allow(unused_imports)]
use crate::point::PointView;
use crate::point::TaosPoint;
use crate::text;

verus! {

// ---------------------------------------------------------------------------
// The super table
// ---------------------------------------------------------------------------

/// The statement that creates the super table where there is none.
pub open spec fn create_stable_text(table: Seq<char>) -> Seq<char> {
    "CREATE STABLE IF NOT EXISTS `"@ + table
        + "` (ts TIMESTAMP, bid NCHAR(64), ask NCHAR(64)) TAGS (symbol NCHAR(128))"@
}

/// The statement that asks for the columns of a table.
pub open spec fn describe_text(table: Seq<char>) -> Seq<char> {
    "DESCRIBE `"@ + table + "`"@
}

/// Why the reply to the creation of the super table ends the work; `None` where it goes on.
pub open spec fn created_error(reply: TaosResult<TaosExecResult>) -> Option<ErrorView> {
    match reply {
        Ok(result) => if result.code != 0 {
            Some(error::error_of_code(result.code, "ensure_stable 失败"@))
        } else {
            None
        },
        Err(e) => Some(e@),
    }
}

/// Why the columns of the table end the work; `None` where it goes on.
pub open spec fn described_error(reply: TaosResult<TaosExecResult>) -> Option<ErrorView> {
    match reply {
        Ok(result) => if response::column_is_wide(result@.rows, "bid"@)
            && response::column_is_wide(result@.rows, "ask"@) {
            None
        } else {
            Some(response::schema_error())
        },
        Err(e) => Some(e@),
    }
}

/// The statement that creates the super table where there is none.
#[must_use]
pub fn create_stable_sql(table: &str) -> (r: String)
    ensures
        r@ == create_stable_text(table@),
{
    let mut out = String::from("CREATE STABLE IF NOT EXISTS `");
    text::push_text(&mut out, table);
    text::push_text(
        &mut out,
        "` (ts TIMESTAMP, bid NCHAR(64), ask NCHAR(64)) TAGS (symbol NCHAR(128))",
    );
    out
}

/// The statement that asks for the columns of a table.
#[must_use]
pub fn describe_sql(table: &str) -> (r: String)
    ensures
        r@ == describe_text(table@),
{
    let mut out = String::from("DESCRIBE `");
    text::push_text(&mut out, table);
    text::push_text(&mut out, "`");
    out
}

/// Takes the reply to the creation of the super table.
pub fn stable_created(reply: TaosResult<TaosExecResult>) -> (r: TaosResult<()>)
    ensures
        match r {
            Ok(_) => created_error(reply) is None,
            Err(e) => created_error(reply) == Some(e@),
        },
{
    match reply {
        Ok(result) => {
            if result.code != 0 {
                Err(TaosError::from_taos_code(result.code, "ensure_stable 失败"))
            } else {
                Ok(())
            }
        },
        Err(e) => Err(e),
    }
}

/// Takes the columns of the table.
pub fn stable_described(reply: TaosResult<TaosExecResult>) -> (r: TaosResult<()>)
    ensures
        match r {
            Ok(_) => described_error(reply) is None,
            Err(e) => described_error(reply) == Some(e@),
        },
{
    match reply {
        Ok(result) => response::validate_decimal_schema(&result),
        Err(e) => Err(e),
    }
}

/// The work on a super table before anything is written to it: it is created where there is none,
/// and its columns are looked at.
pub enum StableSession {
    /// The super table is created.
    Create { table: String },
    /// The columns are asked for.
    Describe { table: String },
}

/// A [`StableSession`] with texts as sequences of characters.
#[verifier::ext_equal]
pub enum StableView {
    Create { table: Seq<char> },
    Describe { table: Seq<char> },
}

impl View for StableSession {
    type V = StableView;

    open spec fn view(&self) -> StableView {
        match self {
            StableSession::Create { table } => StableView::Create { table: table@ },
            StableSession::Describe { table } => StableView::Describe { table: table@ },
        }
    }
}

/// What a reply comes to.
pub enum StableStep {
    /// There is more to send.
    Running(StableSession),
    /// The table is fit.
    Done,
    /// The table is not fit, or was not reached.
    Failed(TaosError),
}

/// A [`StableStep`] by its values.
#[verifier::ext_equal]
pub enum StableStepView {
    Running(StableView),
    Done,
    Failed(ErrorView),
}

impl View for StableStep {
    type V = StableStepView;

    open spec fn view(&self) -> StableStepView {
        match self {
            StableStep::Running(session) => StableStepView::Running(session@),
            StableStep::Done => StableStepView::Done,
            StableStep::Failed(e) => StableStepView::Failed(e@),
        }
    }
}

impl StableView {
    /// What to send next.
    pub open spec fn next_sql(self) -> Seq<char> {
        match self {
            StableView::Create { table } => create_stable_text(table),
            StableView::Describe { table } => describe_text(table),
        }
    }

    /// What a reply comes to.
    pub open spec fn after(self, reply: TaosResult<TaosExecResult>) -> StableStepView {
        match self {
            StableView::Create { table } => match created_error(reply) {
                Some(e) => StableStepView::Failed(e),
                None => StableStepView::Running(StableView::Describe { table }),
            },
            StableView::Describe { table } => match described_error(reply) {
                Some(e) => StableStepView::Failed(e),
                None => StableStepView::Done,
            },
        }
    }
}

impl StableSession {
    /// Starts the work on a super table, where its name is one.
    pub fn start(table: &str) -> (r: TaosResult<StableSession>)
        ensures
            match r {
                Ok(session) => sql::stable_fault(table@) is None && session@ == (
                StableView::Create { table: table@ }),
                Err(TaosError::Invalid(m)) => sql::stable_fault(table@) == Some(m@),
                Err(_) => false,
            },
    {
        match sql::validate_stable_ident(table) {
            Ok(_) => Ok(StableSession::Create { table: String::from(table) }),
            Err(e) => Err(e),
        }
    }

    /// What to send next.
    #[must_use]
    pub fn sql(&self) -> (r: String)
        ensures
            r@ == self@.next_sql(),
    {
        match self {
            StableSession::Create { table } => create_stable_sql(table.as_str()),
            StableSession::Describe { table } => describe_sql(table.as_str()),
        }
    }

    /// Takes the reply to what [`StableSession::sql`] said to send.
    pub fn reply(self, reply: TaosResult<TaosExecResult>) -> (r: StableStep)
        ensures
            r@ == self@.after(reply),
    {
        match self {
            StableSession::Create { table } => match stable_created(reply) {
                Ok(_) => StableStep::Running(StableSession::Describe { table }),
                Err(e) => StableStep::Failed(e),
            },
            StableSession::Describe { .. } => match stable_described(reply) {
                Ok(_) => StableStep::Done,
                Err(e) => StableStep::Failed(e),
            },
        }
    }
}

// ---------------------------------------------------------------------------
// The session
// ---------------------------------------------------------------------------

/// What a session sends next.
#[derive(Debug, Clone, Copy, PartialEq, Eq, Structural)]
pub enum WriteStage {
    /// The creation of the super table.
    Create,
    /// The question for its columns.
    Describe,
    /// A chunk of the batch.
    Insert,
}

/// A batch on its way.
pub struct WriteSession<'a> {
    table: &'a str,
    points: &'a [TaosPoint],
    max_rows: usize,
    stage: WriteStage,
    chunks: Vec<SqlChunk>,
    next: usize,
    accepted: usize,
}

/// A [`WriteSession`] by its values.
#[verifier::ext_equal]
pub struct WriteView {
    pub table: Seq<char>,
    pub points: Seq<PointView>,
    pub max_rows: usize,
    pub stage: WriteStage,
    /// The chunks of the batch, with the number of their rows; none before the columns are known.
    pub chunks: Seq<(Seq<char>, nat)>,
    /// How many chunks were committed.
    pub next: nat,
    /// How many rows were committed.
    pub accepted: nat,
}

impl<'a> View for WriteSession<'a> {
    type V = WriteView;

    closed spec fn view(&self) -> WriteView {
        WriteView {
            table: self.table@,
            points: point::views(self.points@),
            max_rows: self.max_rows,
            stage: self.stage,
            chunks: insert::chunk_views(self.chunks@),
            next: self.next as nat,
            accepted: self.accepted as nat,
        }
    }
}

/// How a session starts.
pub enum WriteStart<'a> {
    /// There is nothing to write.
    Done(BatchWriteReport),
    /// There is something to send.
    Running(WriteSession<'a>),
}

/// What a reply comes to.
pub enum WriteStep<'a> {
    /// There is more to send.
    Running(WriteSession<'a>),
    /// The batch was written whole.
    Done(BatchWriteReport),
    /// The batch stopped.
    Failed(BatchWritePartialError),
}

/// A [`WriteStep`] by its values.
#[verifier::ext_equal]
pub enum StepView {
    Running(WriteView),
    Done(BatchWriteReport),
    Failed(BatchWriteReport, ErrorView),
}

impl<'a> View for WriteStep<'a> {
    type V = StepView;

    open spec fn view(&self) -> StepView {
        match self {
            WriteStep::Running(session) => StepView::Running(session@),
            WriteStep::Done(report) => StepView::Done(*report),
            WriteStep::Failed(e) => StepView::Failed(e.report, e.source@),
        }
    }
}

impl WriteView {
    /// The session is at a point that a session can be at.
    pub open spec fn wf(self) -> bool {
        &&& sql::stable_fault(self.table) is None
        &&& 0 < self.points.len() <= usize::MAX
        &&& forall|i: int| 0 <= i < self.chunks.len() ==> (#[trigger] self.chunks[i]).1 >= 1
        &&& self.stage == WriteStage::Insert ==> {
            &&& self.next < self.chunks.len()
            &&& insert::total_rows(self.chunks) == self.points.len()
            &&& self.accepted == insert::total_rows(self.chunks.take(self.next as int))
        }
        &&& self.stage != WriteStage::Insert ==> {
            &&& self.chunks.len() == 0
            &&& self.next == 0
            &&& self.accepted == 0
        }
    }

    /// What to send next.
    pub open spec fn next_sql(self) -> Seq<char> {
        match self.stage {
            WriteStage::Create => create_stable_text(self.table),
            WriteStage::Describe => describe_text(self.table),
            WriteStage::Insert => self.chunks[self.next as int].0,
        }
    }

    /// The report of a batch of which nothing was written.
    pub open spec fn untouched(points: nat) -> BatchWriteReport {
        BatchWriteReport { accepted: 0, failed: points as usize, chunks_ok: 0, chunks_total: 0 }
    }

    /// The report of a batch that stops where the session is.
    pub open spec fn stopped(self) -> BatchWriteReport {
        BatchWriteReport {
            accepted: self.accepted as usize,
            failed: (self.points.len() - self.accepted) as usize,
            chunks_ok: self.next as usize,
            chunks_total: self.chunks.len() as usize,
        }
    }

    /// The session after the columns were found fit.
    pub open spec fn with_chunks(self, pool: PoolView) -> StepView {
        match insert::insert_chunks(
            self.table,
            self.points,
            pool.precision,
            self.max_rows as nat,
            pool.config.batch_max_bytes as nat,
        ) {
            Ok(chunks) => StepView::Running(
                WriteView { stage: WriteStage::Insert, chunks, next: 0, accepted: 0, ..self },
            ),
            Err(e) => StepView::Failed(Self::untouched(self.points.len()), e),
        }
    }

    /// The session after one more chunk was committed.
    pub open spec fn committed(self) -> StepView {
        let accepted = self.accepted + self.chunks[self.next as int].1;
        if self.next + 1 == self.chunks.len() {
            StepView::Done(
                BatchWriteReport {
                    accepted: accepted as usize,
                    failed: 0,
                    chunks_ok: self.chunks.len() as usize,
                    chunks_total: self.chunks.len() as usize,
                },
            )
        } else {
            StepView::Running(WriteView { next: self.next + 1, accepted, ..self })
        }
    }

    /// What a reply comes to.
    pub open spec fn after(self, pool: PoolView, reply: TaosResult<TaosExecResult>) -> StepView {
        match self.stage {
            WriteStage::Create => match created_error(reply) {
                Some(e) => StepView::Failed(Self::untouched(self.points.len()), e),
                None => StepView::Running(WriteView { stage: WriteStage::Describe, ..self }),
            },
            WriteStage::Describe => match described_error(reply) {
                Some(e) => StepView::Failed(Self::untouched(self.points.len()), e),
                None => self.with_chunks(pool),
            },
            WriteStage::Insert => match reply {
                Ok(result) => if result.code == 0 {
                    self.committed()
                } else {
                    StepView::Failed(
                        self.stopped(),
                        error::error_of_code(result.code, "write_batch 失败"@),
                    )
                },
                Err(e) => StepView::Failed(self.stopped(), e@),
            },
        }
    }

    /// How the pool counts what a reply comes to: a batch that is done, and one that stopped at
    /// one of its chunks.
    pub open spec fn counted(self, pool: PoolView, step: StepView) -> PoolView {
        match step {
            StepView::Running(_) => pool,
            StepView::Done(_) => pool.counted_write(true),
            StepView::Failed(_, _) => if self.stage == WriteStage::Insert {
                pool.counted_write(false)
            } else {
                pool
            },
        }
    }
}

/// Why a batch is not even started; `None` where it is.
pub open spec fn start_error(
    pool: PoolView,
    table: Seq<char>,
    points: nat,
    max_rows: usize,
) -> Option<ErrorView> {
    if sql::stable_fault(table) is Some {
        Some(ErrorView::Invalid(sql::stable_fault(table)->0))
    } else if points > 0 && (max_rows == 0 || max_rows > pool.config.batch_max_rows) {
        Some(
            ErrorView::Invalid(
                "max_rows 必须为 1..="@ + number::decimal(pool.config.batch_max_rows as int)
                    + "（配置上限）"@,
            ),
        )
    } else {
        None
    }
}

fn untouched(points: usize, source: TaosError) -> (r: BatchWritePartialError)
    ensures
        r.report == WriteView::untouched(points as nat),
        r.source == source,
{
    BatchWritePartialError {
        report: BatchWriteReport { accepted: 0, failed: points, chunks_ok: 0, chunks_total: 0 },
        source,
    }
}

proof fn lemma_total_rows_take(chunks: Seq<(Seq<char>, nat)>, i: int)
    requires
        0 <= i <= chunks.len(),
    ensures
        insert::total_rows(chunks.take(i)) <= insert::total_rows(chunks),
        i < chunks.len() ==> insert::total_rows(chunks.take(i + 1)) == insert::total_rows(
            chunks.take(i),
        ) + chunks[i].1 && insert::total_rows(chunks.take(i + 1)) <= insert::total_rows(chunks),
    decreases chunks.len() - i,
{
    if i < chunks.len() {
        assert(chunks.take(i + 1).drop_last() =~= chunks.take(i));
        lemma_total_rows_take(chunks, i + 1);
    } else {
        assert(chunks.take(i) =~= chunks);
    }
}

/// Where no chunk is empty there are at most as many chunks as rows.
proof fn lemma_chunks_within_rows(chunks: Seq<(Seq<char>, nat)>)
    requires
        forall|i: int| 0 <= i < chunks.len() ==> (#[trigger] chunks[i]).1 >= 1,
    ensures
        chunks.len() <= insert::total_rows(chunks),
    decreases chunks.len(),
{
    if chunks.len() > 0 {
        let before = chunks.drop_last();
        assert forall|i: int| 0 <= i < before.len() implies (#[trigger] before[i]).1 >= 1 by {
            assert(before[i] == chunks[i]);
        }
        lemma_chunks_within_rows(before);
    }
}

impl<'a> WriteSession<'a> {
    /// Starts a batch. A batch without points is done at once.
    pub fn start(
        pool: &mut TaosPool,
        table: &'a str,
        points: &'a [TaosPoint],
        max_rows: usize,
    ) -> (r: Result<WriteStart<'a>, BatchWritePartialError>)
        ensures
            match r {
                Ok(WriteStart::Done(report)) => start_error(
                    old(pool)@,
                    table@,
                    points@.len(),
                    max_rows,
                ) is None && points@.len() == 0 && report == BatchWriteReport::nothing()
                    && final(pool)@ == old(pool)@.counted_write(true),
                Ok(WriteStart::Running(session)) => start_error(
                    old(pool)@,
                    table@,
                    points@.len(),
                    max_rows,
                ) is None && points@.len() > 0 && session@ == (WriteView {
                    table: table@,
                    points: point::views(points@),
                    max_rows,
                    stage: WriteStage::Create,
                    chunks: Seq::empty(),
                    next: 0,
                    accepted: 0,
                }) && session@.wf() && final(pool)@ == old(pool)@,
                Err(e) => start_error(old(pool)@, table@, points@.len(), max_rows) == Some(
                    e.source@,
                ) && e.report == WriteView::untouched(points@.len()) && final(pool)@
                    == old(pool)@,
            },
    {
        match sql::validate_stable_ident(table) {
            Ok(_) => {},
            Err(e) => {
                return Err(untouched(points.len(), e));
            },
        }
        if points.len() == 0 {
            pool.end_write(true);
            return Ok(WriteStart::Done(BatchWriteReport::default()));
        }
        let most: usize = pool.config().batch_max_rows;
        if max_rows == 0 || max_rows > most {
            let mut m = String::from("max_rows 必须为 1..=");
            text::push_text(&mut m, number::decimal_usize(most).as_str());
            text::push_text(&mut m, "（配置上限）");
            return Err(untouched(points.len(), TaosError::Invalid(m)));
        }
        let chunks: Vec<SqlChunk> = Vec::new();
        assert(insert::chunk_views(chunks@) =~= Seq::<(Seq<char>, nat)>::empty());
        Ok(
            WriteStart::Running(
                WriteSession {
                    table,
                    points,
                    max_rows,
                    stage: WriteStage::Create,
                    chunks,
                    next: 0,
                    accepted: 0,
                },
            ),
        )
    }

    /// What to send next.
    #[must_use]
    pub fn sql(&self) -> (r: String)
        requires
            self@.wf(),
        ensures
            r@ == self@.next_sql(),
    {
        match self.stage {
            WriteStage::Create => create_stable_sql(self.table),
            WriteStage::Describe => describe_sql(self.table),
            WriteStage::Insert => {
                assert(insert::chunk_views(self.chunks@)[self.next as int]
                    == (self.chunks@[self.next as int].0@, self.chunks@[self.next as int].1 as nat));
                self.chunks[self.next].0.clone()
            },
        }
    }

    fn stop(self, pool: &mut TaosPool, source: TaosError) -> (r: WriteStep<'a>)
        requires
            self@.wf(),
        ensures
            r@ == StepView::Failed(self@.stopped(), source@),
            final(pool)@ == old(pool)@.counted_write(false),
    {
        proof {
            if self@.stage == WriteStage::Insert {
                lemma_total_rows_take(self@.chunks, self@.next as int);
            }
        }
        pool.end_write(false);
        WriteStep::Failed(
            BatchWritePartialError {
                report: BatchWriteReport {
                    accepted: self.accepted,
                    failed: self.points.len() - self.accepted,
                    chunks_ok: self.next,
                    chunks_total: self.chunks.len(),
                },
                source,
            },
        )
    }

    fn commit(self, pool: &mut TaosPool) -> (r: WriteStep<'a>)
        requires
            self@.wf(),
            self@.stage == WriteStage::Insert,
        ensures
            r@ == self@.committed(),
            r@ matches StepView::Running(after) ==> after.wf(),
            final(pool)@ == self@.counted(old(pool)@, r@),
    {
        let ghost before = self@;
        proof {
            lemma_total_rows_take(before.chunks, before.next as int);
            lemma_chunks_within_rows(before.chunks);
            assert(before.chunks[self.next as int].1 == self.chunks@[self.next as int].1);
        }
        let accepted: usize = self.accepted + self.chunks[self.next].1;
        let next: usize = self.next + 1;
        let total: usize = self.chunks.len();
        if next == total {
            pool.end_write(true);
            WriteStep::Done(
                BatchWriteReport { accepted, failed: 0, chunks_ok: next, chunks_total: total },
            )
        } else {
            let mut session = self;
            session.accepted = accepted;
            session.next = next;
            WriteStep::Running(session)
        }
    }

    fn cut(self, pool: &TaosPool) -> (r: WriteStep<'a>)
        requires
            self@.wf(),
            self@.stage == WriteStage::Describe,
        ensures
            r@ == self@.with_chunks(pool@),
            r@ matches StepView::Running(after) ==> after.wf(),
    {
        let ghost before = self@;
        match insert::build_insert_sql_chunks_with_limits(
            self.table,
            self.points,
            pool.precision(),
            self.max_rows,
            pool.config().batch_max_bytes,
        ) {
            Ok(chunks) => {
                let total: usize = chunks.len();
                proof {
                    insert::law_chunks_hold_the_batch(
                        before.table,
                        before.points,
                        pool@.precision,
                        before.max_rows as nat,
                        pool@.config.batch_max_bytes as nat,
                    );
                    let views = insert::chunk_views(chunks@);
                    assert(views.take(0) =~= Seq::<(Seq<char>, nat)>::empty());
                    assert(views.len() == total);
                }
                let mut session = self;
                session.chunks = chunks;
                session.stage = WriteStage::Insert;
                session.next = 0;
                session.accepted = 0;
                WriteStep::Running(session)
            },
            Err(e) => WriteStep::Failed(untouched(self.points.len(), e)),
        }
    }

    /// Takes the reply to what [`WriteSession::sql`] said to send.
    pub fn reply(self, pool: &mut TaosPool, reply: TaosResult<TaosExecResult>) -> (r: WriteStep<
        'a,
    >)
        requires
            self@.wf(),
        ensures
            r@ == self@.after(old(pool)@, reply),
            r@ matches StepView::Running(after) ==> after.wf(),
            final(pool)@ == self@.counted(old(pool)@, r@),
    {
        match self.stage {
            WriteStage::Create => match stable_created(reply) {
                Ok(_) => {
                    let mut session = self;
                    session.stage = WriteStage::Describe;
                    WriteStep::Running(session)
                },
                Err(e) => WriteStep::Failed(untouched(self.points.len(), e)),
            },
            WriteStage::Describe => match stable_described(reply) {
                Ok(_) => self.cut(pool),
                Err(e) => WriteStep::Failed(untouched(self.points.len(), e)),
            },
            WriteStage::Insert => match reply {
                Ok(result) => {
                    if result.code == 0 {
                        self.commit(pool)
                    } else {
                        self.stop(
                            pool,
                            TaosError::from_taos_code(result.code, "write_batch 失败"),
                        )
                    }
                },
                Err(e) => self.stop(pool, e),
            },
        }
    }
}

// ---------------------------------------------------------------------------
// Laws
// ---------------------------------------------------------------------------

/// A batch is not written before its table is fit: until its first chunk, a session sends what
/// the work on the table sends, fails where that fails, and goes on to the chunks only where that
/// is done.
pub proof fn law_table_is_fit_before_rows(
    session: WriteView,
    pool: PoolView,
    reply: TaosResult<TaosExecResult>,
)
    requires
        session.stage != WriteStage::Insert,
    ensures
        ({
            let stable = if session.stage == WriteStage::Create {
                StableView::Create { table: session.table }
            } else {
                StableView::Describe { table: session.table }
            };
            &&& session.next_sql() == stable.next_sql()
            &&& match stable.after(reply) {
                StableStepView::Failed(e) => session.after(pool, reply) == StepView::Failed(
                    WriteView::untouched(session.points.len()),
                    e,
                ),
                StableStepView::Running(_) => session.after(pool, reply) == StepView::Running(
                    WriteView { stage: WriteStage::Describe, ..session },
                ),
                StableStepView::Done => session.after(pool, reply) == session.with_chunks(pool),
            }
        }),
{
}

/// However a batch ends, every point is either accepted or failed, and a batch that is done
/// accepted all of them.
pub proof fn law_every_point_is_accounted_for(
    session: WriteView,
    pool: PoolView,
    reply: TaosResult<TaosExecResult>,
)
    requires
        session.wf(),
    ensures
        match session.after(pool, reply) {
            StepView::Running(after) => after.wf() && after.points == session.points
                && after.accepted >= session.accepted,
            StepView::Done(report) => report.complete() && report.accepted
                == session.points.len(),
            StepView::Failed(report, e) => report.accepted + report.failed
                == session.points.len() && report.failed > 0 && report.accepted
                == session.accepted && report.chunks_ok <= report.chunks_total,
        },
{
    if session.stage == WriteStage::Insert {
        let chunks = session.chunks;
        let i = session.next as int;
        lemma_total_rows_take(chunks, i);
        assert(chunks.take(chunks.len() as int) =~= chunks);
        lemma_chunks_within_rows(chunks);
    }
    if session.stage == WriteStage::Describe {
        match insert::insert_chunks(
            session.table,
            session.points,
            pool.precision,
            session.max_rows as nat,
            pool.config.batch_max_bytes as nat,
        ) {
            Ok(chunks) => {
                insert::law_chunks_hold_the_batch(
                    session.table,
                    session.points,
                    pool.precision,
                    session.max_rows as nat,
                    pool.config.batch_max_bytes as nat,
                );
                assert(chunks.take(0) =~= Seq::<(Seq<char>, nat)>::empty());
            },
            Err(_) => {},
        }
    }
}

/// A batch is refused before anything is sent exactly where its table has no valid name, or there
/// are points and the most rows of a statement are none or more than configured. The error says
/// that the request is wrong, so it is not worth a retry.
pub proof fn law_batch_is_refused_at_the_start(
    pool: PoolView,
    table: Seq<char>,
    points: nat,
    max_rows: usize,
)
    ensures
        (start_error(pool, table, points, max_rows) is None) == (sql::stable_fault(table) is None
            && (points == 0 || 1 <= max_rows <= pool.config.batch_max_rows)),
        start_error(pool, table, points, max_rows) matches Some(e) ==> e is Invalid
            && !e.is_retryable(),
{
}

/// A session sends the statements of its batch one after the other, each once and in order: after
/// the columns come the first, after the success of one comes the next, and after that of the last
/// there is nothing more to send. They are the statements for the batch at the precision of the
/// pool and within both limits.
pub proof fn law_statements_are_sent_in_order(
    session: WriteView,
    pool: PoolView,
    reply: TaosResult<TaosExecResult>,
)
    requires
        session.wf(),
        reply matches Ok(result) && result.code == 0,
    ensures
        session.stage == WriteStage::Create ==> session.next_sql() == create_stable_text(
            session.table,
        ) && session.after(pool, reply) == StepView::Running(
            WriteView { stage: WriteStage::Describe, ..session },
        ),
        session.stage == WriteStage::Describe ==> session.next_sql() == describe_text(
            session.table,
        ),
        session.stage == WriteStage::Describe && described_error(reply) is None ==> {
            let chunks = insert::insert_chunks(
                session.table,
                session.points,
                pool.precision,
                session.max_rows as nat,
                pool.config.batch_max_bytes as nat,
            );
            match session.after(pool, reply) {
                StepView::Running(first) => chunks == Ok::<Seq<(Seq<char>, nat)>, ErrorView>(
                    first.chunks,
                ) && first.stage == WriteStage::Insert && first.next_sql() == first.chunks[0].0
                    && first.accepted == 0,
                StepView::Failed(report, e) => chunks == Err::<Seq<(Seq<char>, nat)>, ErrorView>(e)
                    && report.accepted == 0,
                StepView::Done(_) => false,
            }
        },
        session.stage == WriteStage::Insert ==> {
            &&& session.next_sql() == session.chunks[session.next as int].0
            &&& match session.after(pool, reply) {
                StepView::Running(then) => then.chunks == session.chunks && then.next_sql()
                    == session.chunks[(session.next + 1) as int].0 && then.accepted == session.accepted
                    + session.chunks[session.next as int].1,
                StepView::Done(report) => session.next + 1 == session.chunks.len()
                    && report.chunks_ok == report.chunks_total && report.chunks_total
                    == session.chunks.len() && report.failed == 0,
                StepView::Failed(_, _) => false,
            }
        },
{
    if session.stage == WriteStage::Insert {
        lemma_total_rows_take(session.chunks, session.next as int);
        lemma_chunks_within_rows(session.chunks);
    }
}

/// A statement that fails ends its batch with the reason: the error of the request, or that of the
/// code in the reply. The report tells the rows of the statements before it, and no others, as
/// written.
pub proof fn law_failed_statement_ends_the_batch(
    session: WriteView,
    pool: PoolView,
    reply: TaosResult<TaosExecResult>,
)
    requires
        session.wf(),
        reply matches Ok(result) ==> result.code != 0 && session.stage != WriteStage::Describe,
    ensures
        match session.after(pool, reply) {
            StepView::Failed(report, e) => {
                &&& report.accepted == insert::total_rows(
                    session.chunks.take(session.next as int),
                )
                &&& report.chunks_ok == session.next
                &&& report.chunks_total == session.chunks.len()
                &&& match reply {
                    Err(cause) => e == cause@,
                    Ok(result) => e.is_retryable() == (result.code == 0x380) && e.is_not_found()
                        == (result.code == 0x2603 || result.code == 0x2662),
                }
            },
            _ => false,
        },
{
    assert(session.chunks.take(session.next as int).len() == session.next);
    if session.stage == WriteStage::Insert {
        lemma_total_rows_take(session.chunks, session.next as int);
        lemma_chunks_within_rows(session.chunks);
    }
}

/// A batch is counted once: as written where it is done, as failed where one of its statements
/// failed. One that failed before its first statement, and one that goes on, is not counted.
pub proof fn law_batch_is_counted_once(
    session: WriteView,
    pool: PoolView,
    reply: TaosResult<TaosExecResult>,
)
    requires
        session.wf(),
        pool.metrics.write_ok < u64::MAX && pool.metrics.write_err < u64::MAX,
    ensures
        ({
            let step = session.after(pool, reply);
            let after = session.counted(pool, step).metrics;
            &&& after.write_ok == pool.metrics.write_ok + (if step is Done {
                1int
            } else {
                0int
            })
            &&& after.write_err == pool.metrics.write_err + (if step is Failed && session.stage
                == WriteStage::Insert {
                1int
            } else {
                0int
            })
        }),
{
}

} // verus!
