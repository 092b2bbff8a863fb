//! Connecting: which host to try, what to send first, and what the replies come to.

use vstd::prelude::*;

use super::pool;
use super::pool::PING_SQL;
#[allow(unused_imports)]
use super::pool::PoolView;
use super::pool::TaosPool;
use super::sql;
use super::types::TaosExecResult;
use crate::config;
use crate::config::render;
#[allow(unused_imports)]
use crate::config::ConfigView;
use crate::config::{TaosConfig, TransportMode, TsPrecision};
#[allow(unused_imports)]
use crate::error::ErrorView;
use crate::error::{TaosError, TaosResult};
use crate::text;

verus! {

/// The error for a file with a certificate authority that cannot be read.
pub fn tls_ca_read_error(path: &str, kind: &str) -> (r: TaosError)
    ensures
        r@ == ErrorView::Config("无法读取 TLS CA `"@ + path@ + "`（"@ + kind@ + "）"@),
{
    let mut m = String::from("无法读取 TLS CA `");
    text::push_text(&mut m, path);
    text::push_text(&mut m, "`（");
    text::push_text(&mut m, kind);
    text::push_text(&mut m, "）");
    TaosError::Config(m)
}

// ---------------------------------------------------------------------------
// Hosts
// ---------------------------------------------------------------------------

/// The hosts that are still to be tried, and why the last one failed.
pub struct Failover {
    config: TaosConfig,
    hosts: Vec<String>,
    next: usize,
    last_error: TaosError,
}

/// A [`Failover`] by its values.
#[verifier::ext_equal]
pub struct FailoverView {
    pub config: ConfigView,
    pub hosts: Seq<Seq<char>>,
    /// How many hosts were tried.
    pub next: nat,
    pub last_error: ErrorView,
}

impl View for Failover {
    type V = FailoverView;

    closed spec fn view(&self) -> FailoverView {
        FailoverView {
            config: self.config@,
            hosts: config::texts(self.hosts@),
            next: self.next as nat,
            last_error: self.last_error@,
        }
    }
}

impl FailoverView {
    /// The configuration for the next host; `None` where all were tried.
    pub open spec fn attempt(self) -> Option<ConfigView> {
        if self.next < self.hosts.len() {
            Some(ConfigView { host: self.hosts[self.next as int], ..self.config })
        } else {
            None
        }
    }
}

/// What to do next.
pub enum FailoverStep {
    /// Try this configuration; on failure go on with [`Failover::failed`].
    Try(TaosConfig, Failover),
    /// All hosts were tried.
    GiveUp(TaosError),
}

impl Failover {
    /// Starts with the host of the configuration, where the configuration passes.
    pub fn start(config: TaosConfig) -> (r: TaosResult<Failover>)
        ensures
            match r {
                Ok(failover) => config@.fault() is None && failover@ == (FailoverView {
                    config: config@,
                    hosts: config@.endpoint_hosts(),
                    next: 0,
                    last_error: ErrorView::Unavailable("无可用 TDengine endpoint"@),
                }),
                Err(TaosError::Config(m)) => config@.fault() == Some(m@),
                Err(_) => false,
            },
    {
        match config.validate() {
            Ok(_) => {},
            Err(e) => {
                return Err(e);
            },
        }
        let hosts = config.endpoint_hosts();
        Ok(
            Failover {
                config,
                hosts,
                next: 0,
                last_error: TaosError::Unavailable(String::from("无可用 TDengine endpoint")),
            },
        )
    }

    /// The next host to try, or why there is none.
    pub fn step(self) -> (r: FailoverStep)
        ensures
            match r {
                FailoverStep::Try(config, rest) => self@.attempt() == Some(config@) && rest@ == (
                FailoverView { next: self@.next + 1, ..self@ }),
                FailoverStep::GiveUp(e) => self@.attempt() is None && e@ == self@.last_error,
            },
    {
        if self.next >= self.hosts.len() {
            return FailoverStep::GiveUp(self.last_error);
        }
        let mut config = self.config.clone();
        assert(config::texts(self.hosts@)[self.next as int] == self.hosts@[self.next as int]@);
        config.host = self.hosts[self.next].clone();
        let mut rest = self;
        rest.next = rest.next + 1;
        FailoverStep::Try(config, rest)
    }

    /// Takes the reason why the last host failed.
    pub fn failed(self, error: TaosError) -> (r: Failover)
        ensures
            r@ == (FailoverView { last_error: error@, ..self@ }),
    {
        let mut rest = self;
        rest.last_error = error;
        rest
    }
}

// ---------------------------------------------------------------------------
// One host
// ---------------------------------------------------------------------------

/// Whether a WebSocket handshake comes before anything else.
#[must_use]
pub fn needs_handshake(config: &TaosConfig) -> (r: bool)
    ensures
        r == (config.transport == TransportMode::NativeWs),
{
    config.transport == TransportMode::NativeWs
}

/// What connecting sends next.
#[derive(Debug, Clone, Copy, PartialEq, Eq, Structural)]
pub enum ConnectStage {
    /// The creation of the database where there is none.
    CreateDatabase,
    /// The question for the precision of its time stamps.
    DetectPrecision,
    /// A sign of life.
    Ping,
}

/// What a reply comes to.
pub enum ConnectStep {
    /// There is more to send.
    Running(ConnectStage),
    /// The client is connected.
    Done,
    /// The client is not connected.
    Failed(TaosError),
}

/// A [`ConnectStep`] by its values.
#[verifier::ext_equal]
pub enum ConnectView {
    Running(ConnectStage),
    Done,
    Failed(ErrorView),
}

impl View for ConnectStep {
    type V = ConnectView;

    open spec fn view(&self) -> ConnectView {
        match self {
            ConnectStep::Running(stage) => ConnectView::Running(*stage),
            ConnectStep::Done => ConnectView::Done,
            ConnectStep::Failed(e) => ConnectView::Failed(e@),
        }
    }
}

/// The statement that creates the database where there is none.
pub open spec fn create_database_text(database: Seq<char>) -> Seq<char> {
    "CREATE DATABASE IF NOT EXISTS `"@ + database + "` KEEP 3650"@
}

/// The statement that asks for the precision of a database.
pub open spec fn detect_precision_text(database: Seq<char>) -> Seq<char> {
    "SELECT `precision` FROM information_schema.ins_databases WHERE name='"@ + sql::escaped(
        database,
    ) + "'"@
}

/// The precision that a reply names.
pub open spec fn detected(reply: TaosResult<TaosExecResult>) -> Result<TsPrecision, ErrorView> {
    match reply {
        Err(e) => Err(e@),
        Ok(result) => {
            let named = match result@.first_cell() {
                Some(cell) => TsPrecision::named(cell),
                None => None,
            };
            match named {
                Some(p) => Ok(p),
                None => Err(
                    ErrorView::Unavailable("无法从 information_schema 探测数据库精度"@),
                ),
            }
        },
    }
}

/// The error for a database with another precision than the configuration's.
pub open spec fn precision_conflict(configured: TsPrecision, found: TsPrecision) -> ErrorView {
    ErrorView::Config(
        "配置精度 "@ + render::precision_text(configured) + " 与数据库精度 "@ + render::precision_text(found)
            + " 不一致"@,
    )
}

impl ConnectStage {
    /// What to send, and whether to the database's own endpoint.
    pub open spec fn next_sql(self, database: Seq<char>) -> (Seq<char>, bool) {
        match self {
            ConnectStage::CreateDatabase => (create_database_text(database), false),
            ConnectStage::DetectPrecision => (detect_precision_text(database), false),
            ConnectStage::Ping => (PING_SQL@, true),
        }
    }

    /// What a reply comes to.
    pub open spec fn after(
        self,
        pool: PoolView,
        reply: TaosResult<TaosExecResult>,
    ) -> ConnectView {
        match self {
            ConnectStage::CreateDatabase => match reply {
                Ok(_) => ConnectView::Running(ConnectStage::DetectPrecision),
                Err(e) => ConnectView::Failed(e@),
            },
            ConnectStage::DetectPrecision => match detected(reply) {
                Err(e) => ConnectView::Failed(e),
                Ok(found) => match pool.config.precision {
                    Some(configured) => if configured != found {
                        ConnectView::Failed(precision_conflict(configured, found))
                    } else {
                        ConnectView::Running(ConnectStage::Ping)
                    },
                    None => ConnectView::Running(ConnectStage::Ping),
                },
            },
            ConnectStage::Ping => match pool::ping_error(reply) {
                Some(e) => ConnectView::Failed(e),
                None => ConnectView::Done,
            },
        }
    }

    /// The pool after a reply: with the precision of the database, and with pings counted.
    pub open spec fn pool_after(
        self,
        pool: PoolView,
        reply: TaosResult<TaosExecResult>,
    ) -> PoolView {
        match self {
            ConnectStage::CreateDatabase => pool,
            ConnectStage::DetectPrecision => match (detected(reply), self.after(pool, reply)) {
                (Ok(found), ConnectView::Running(_)) => PoolView { precision: found, ..pool },
                _ => pool,
            },
            ConnectStage::Ping => pool.counted_ping(pool::is_success(reply)),
        }
    }
}

/// The precision that the reply names.
pub fn detect_precision(reply: TaosResult<TaosExecResult>) -> (r: TaosResult<TsPrecision>)
    ensures
        match r {
            Ok(p) => detected(reply) == Ok::<TsPrecision, ErrorView>(p),
            Err(e) => detected(reply) == Err::<TsPrecision, ErrorView>(e@),
        },
{
    let result = match reply {
        Ok(result) => result,
        Err(e) => {
            return Err(e);
        },
    };
    let named = match result.first_cell() {
        Some(cell) => TsPrecision::parse(cell.as_str()),
        None => None,
    };
    match named {
        Some(p) => Ok(p),
        None => Err(
            TaosError::Unavailable(String::from("无法从 information_schema 探测数据库精度")),
        ),
    }
}

impl ConnectStage {
    /// Where connecting starts: with the database, where the configuration names one.
    pub fn start(pool: &TaosPool) -> (r: TaosResult<ConnectStage>)
        ensures
            ({
                let database = pool@.config.database;
                match r {
                    Ok(ConnectStage::Ping) => database.len() == 0,
                    Ok(ConnectStage::CreateDatabase) => database.len() > 0 && sql::ident_fault(
                        database,
                    ) is None,
                    Ok(ConnectStage::DetectPrecision) => false,
                    Err(e) => database.len() > 0 && sql::ident_fault(database) is Some && e@
                        == ErrorView::Invalid(sql::ident_fault(database)->0),
                }
            }),
    {
        let database = pool.config().database.as_str();
        if database.is_empty() {
            return Ok(ConnectStage::Ping);
        }
        match sql::validate_ident(database) {
            Ok(_) => Ok(ConnectStage::CreateDatabase),
            Err(e) => Err(e),
        }
    }

    /// What to send next, and whether to the database's own endpoint.
    #[must_use]
    pub fn sql(self, pool: &TaosPool) -> (r: (String, bool))
        ensures
            (r.0@, r.1) == self.next_sql(pool@.config.database),
    {
        let database = pool.config().database.as_str();
        match self {
            ConnectStage::CreateDatabase => {
                let mut out = String::from("CREATE DATABASE IF NOT EXISTS `");
                text::push_text(&mut out, database);
                text::push_text(&mut out, "` KEEP 3650");
                (out, false)
            },
            ConnectStage::DetectPrecision => {
                let mut out = String::from(
                    "SELECT `precision` FROM information_schema.ins_databases WHERE name='",
                );
                text::push_text(&mut out, sql::escape_str(database).as_str());
                text::push_text(&mut out, "'");
                (out, false)
            },
            ConnectStage::Ping => (String::from(PING_SQL), true),
        }
    }

    /// Takes the reply to what [`ConnectStage::sql`] said to send.
    pub fn reply(self, pool: &mut TaosPool, reply: TaosResult<TaosExecResult>) -> (r: ConnectStep)
        ensures
            r@ == self.after(old(pool)@, reply),
            final(pool)@ == self.pool_after(old(pool)@, reply),
    {
        match self {
            ConnectStage::CreateDatabase => match reply {
                Ok(_) => ConnectStep::Running(ConnectStage::DetectPrecision),
                Err(e) => ConnectStep::Failed(e),
            },
            ConnectStage::DetectPrecision => {
                let found = match detect_precision(reply) {
                    Ok(p) => p,
                    Err(e) => {
                        return ConnectStep::Failed(e);
                    },
                };
                let wanted = pool.config().precision;
                match wanted {
                    Some(configured) => {
                        if configured != found {
                            let mut m = String::from("配置精度 ");
                            text::push_text(&mut m, render::precision_str(configured));
                            text::push_text(&mut m, " 与数据库精度 ");
                            text::push_text(&mut m, render::precision_str(found));
                            text::push_text(&mut m, " 不一致");
                            return ConnectStep::Failed(TaosError::Config(m));
                        }
                    },
                    None => {},
                }
                pool.set_precision(found);
                ConnectStep::Running(ConnectStage::Ping)
            },
            ConnectStage::Ping => match pool.ping(reply) {
                Ok(_) => ConnectStep::Done,
                Err(e) => ConnectStep::Failed(e),
            },
        }
    }
}

// ---------------------------------------------------------------------------
// Laws
// ---------------------------------------------------------------------------

/// A pool comes out of connecting with the precision that the configuration asks for, or does not
/// come out of it.
pub proof fn law_precision_agrees_after_detection(
    pool: PoolView,
    reply: TaosResult<TaosExecResult>,
    configured: TsPrecision,
)
    requires
        pool.config.precision == Some(configured),
        ConnectStage::DetectPrecision.after(pool, reply) == ConnectView::Running(
            ConnectStage::Ping,
        ),
    ensures
        ConnectStage::DetectPrecision.pool_after(pool, reply).precision == configured,
{
}

/// The name of a database that is an identifier stands in the question for its precision as it
/// is: there is nothing in it to escape.
pub proof fn law_identifier_needs_no_escape(name: Seq<char>)
    requires
        sql::is_word(name),
    ensures
        sql::escaped(name) == name,
{
    lemma_plain_is_not_escaped(name);
}

proof fn lemma_plain_is_not_escaped(s: Seq<char>)
    requires
        forall|i: int| 0 <= i < s.len() ==> sql::continues_ident(#[trigger] s[i]),
    ensures
        sql::escaped(s) == s,
    decreases s.len(),
{
    if s.len() > 0 {
        let before = s.drop_last();
        assert forall|i: int| 0 <= i < before.len() implies sql::continues_ident(
            #[trigger] before[i],
        ) by {
            assert(before[i] == s[i]);
        }
        lemma_plain_is_not_escaped(before);
        assert(sql::continues_ident(s[s.len() - 1]));
        assert(before + seq![s.last()] =~= s);
    } else {
        assert(sql::escaped(s) =~= s);
    }
}

/// Failing over tries the hosts in order, each once, and gives up after the last.
pub proof fn law_failover_tries_each_host_once(start: FailoverView, k: nat)
    requires
        start.next == 0,
        start.hosts == start.config.endpoint_hosts(),
    ensures
        ({
            let now = FailoverView { next: k, ..start };
            now.attempt() == (if k < start.config.endpoint_hosts().len() {
                Some(
                    ConfigView {
                        host: start.config.endpoint_hosts()[k as int],
                        ..start.config
                    },
                )
            } else {
                None
            })
        }),
        start.config.endpoint_hosts().no_duplicates(),
{
    config::endpoint::law_endpoint_hosts(start.config);
}

/// Whatever a request comes to, connecting fails with its error as it is, and leaves the pool as it
/// was but for a ping, which is counted. A precision that cannot be read is worth a retry, as the
/// database may not be ready.
pub proof fn law_connecting_fails_with_its_request(
    stage: ConnectStage,
    pool: PoolView,
    e: TaosError,
    result: TaosExecResult,
)
    ensures
        stage.after(pool, Err(e)) == ConnectView::Failed(e@),
        stage != ConnectStage::Ping ==> stage.pool_after(pool, Err(e)) == pool,
        result@.rows.len() == 0 ==> detected(Ok(result)) is Err && detected(Ok(result))->Err_0
            is Unavailable,
        ConnectStage::Ping.after(pool, Ok(result)) == ConnectView::Done <==> result.code == 0,
        ConnectStage::Ping.pool_after(pool, Ok(result)).precision == pool.precision,
{
}

/// Two precisions that do not agree are told, each for what it is.
pub proof fn law_precision_conflict_tells_both(configured: TsPrecision, found: TsPrecision)
    ensures
        precision_conflict(configured, found) is Config,
        text::holds(
            precision_conflict(configured, found).message(),
            "配置精度 "@ + render::precision_text(configured) + " "@,
        ),
        text::holds(
            precision_conflict(configured, found).message(),
            "数据库精度 "@ + render::precision_text(found) + " "@,
        ),
{
    reveal_strlit(" 与数据库精度 ");
    reveal_strlit(" 与");
    reveal_strlit("与数据库精度 ");
    reveal_strlit("数据库精度 ");
    reveal_strlit(" 不一致");
    reveal_strlit("不一致");
    reveal_strlit(" ");
    let m = precision_conflict(configured, found).message();
    let a = render::precision_text(configured);
    let b = render::precision_text(found);
    text::lemma_holds(
        m,
        Seq::empty(),
        "配置精度 "@ + a + " "@,
        "与数据库精度 "@ + b + " 不一致"@,
    );
    text::lemma_holds(
        m,
        "配置精度 "@ + a + " 与"@,
        "数据库精度 "@ + b + " "@,
        "不一致"@,
    );
}

/// A precision that cannot be used leaves the pool as it was.
pub proof fn law_failed_detection_leaves_the_pool(
    pool: PoolView,
    reply: TaosResult<TaosExecResult>,
)
    requires
        ConnectStage::DetectPrecision.after(pool, reply) is Failed,
    ensures
        ConnectStage::DetectPrecision.pool_after(pool, reply) == pool,
{
}

} // verus!
