//! Whether a configuration can be used.

use std::time::Duration;
use vstd::prelude::*;

use super::endpoint;
use super::parse;
#[allow(unused_imports)]
use super::ConfigView;
use super::TaosConfig;
use super::{
    hard_max_close_timeout, hard_max_timeout, HARD_MAX_BATCH_BYTES, HARD_MAX_BATCH_ROWS,
    HARD_MAX_CLOSE_TIMEOUT_SECS, HARD_MAX_IN_FLIGHT, HARD_MAX_QUERY_ROWS, HARD_MAX_RESPONSE_BYTES,
    HARD_MAX_TIMEOUT_SECS, HARD_MAX_WRITE_MAX_ATTEMPTS,
};
use crate::client::sql;
use crate::duration;
use crate::error::{TaosError, TaosResult};
use crate::number;
use crate::text;

verus! {

/// The message for a number that is out of `1..=max`; `None` for one that is in it.
pub open spec fn range_fault(name: Seq<char>, value: usize, max: usize) -> Option<Seq<char>> {
    if value < 1 || value > max {
        Some(name + " 必须为 1..="@ + number::decimal(max as int))
    } else {
        None
    }
}

/// The message for a time of zero; `None` for another.
pub open spec fn zero_fault(name: Seq<char>, nanos: nat) -> Option<Seq<char>> {
    if nanos == 0 {
        Some(name + " 必须大于 0（当前 "@ + duration::rounded_text(nanos) + "）"@)
    } else {
        None
    }
}

/// The message for a time over its limit; `None` for another.
pub open spec fn long_fault(name: Seq<char>, nanos: nat, max: nat) -> Option<Seq<char>> {
    if nanos > max {
        Some(
            name + " 超过上限 "@ + duration::rounded_text(max) + "（当前 "@
                + duration::rounded_text(nanos) + "）"@,
        )
    } else {
        None
    }
}

/// The first spare host that is none.
pub open spec fn spare_fault(hosts: Seq<Seq<char>>) -> Option<Seq<char>>
    decreases hosts.len(),
{
    if hosts.len() == 0 {
        None
    } else {
        match spare_fault(hosts.drop_last()) {
            Some(m) => Some(m),
            None => if parse::is_host(hosts.last()) {
                None
            } else {
                Some("备用 host 非法: "@ + hosts.last())
            },
        }
    }
}

/// The first of two findings.
pub open spec fn either(a: Option<Seq<char>>, b: Option<Seq<char>>) -> Option<Seq<char>> {
    match a {
        Some(m) => Some(m),
        None => b,
    }
}

impl ConfigView {
    /// The first number that is out of its range.
    pub open spec fn limits_fault(self) -> Option<Seq<char>> {
        either(
            range_fault("max_in_flight"@, self.max_in_flight, HARD_MAX_IN_FLIGHT),
            either(
                range_fault("batch_max_rows"@, self.batch_max_rows, HARD_MAX_BATCH_ROWS),
                either(
                    range_fault("batch_max_bytes"@, self.batch_max_bytes, HARD_MAX_BATCH_BYTES),
                    either(
                        range_fault(
                            "max_response_bytes"@,
                            self.max_response_bytes,
                            HARD_MAX_RESPONSE_BYTES,
                        ),
                        range_fault("max_query_rows"@, self.max_query_rows, HARD_MAX_QUERY_ROWS),
                    ),
                ),
            ),
        )
    }

    /// The first time that is zero or over its limit.
    pub open spec fn timeouts_fault(self) -> Option<Seq<char>> {
        let close_max = HARD_MAX_CLOSE_TIMEOUT_SECS as nat * 1_000_000_000;
        let max = HARD_MAX_TIMEOUT_SECS as nat * 1_000_000_000;
        either(
            zero_fault("timeout"@, self.timeout),
            either(
                zero_fault("acquire_timeout"@, self.acquire_timeout),
                either(
                    zero_fault("close_timeout"@, self.close_timeout),
                    either(
                        long_fault("close_timeout"@, self.close_timeout, close_max),
                        either(
                            long_fault("timeout"@, self.timeout, max),
                            long_fault("acquire_timeout"@, self.acquire_timeout, max),
                        ),
                    ),
                ),
            ),
        )
    }

    /// What is wrong with the hosts or the port.
    pub open spec fn hosts_fault(self) -> Option<Seq<char>> {
        if !parse::is_host(self.host) || self.port == 0 {
            Some("host/port 非法"@)
        } else {
            spare_fault(self.hosts)
        }
    }

    /// What is wrong with the attempts, the database or the user.
    pub open spec fn identity_fault(self) -> Option<Seq<char>> {
        if self.write_max_attempts == 0 {
            Some("write_max_attempts 必须 ≥ 1"@)
        } else if self.write_max_attempts > HARD_MAX_WRITE_MAX_ATTEMPTS {
            Some(
                "write_max_attempts 必须为 1..="@ + number::decimal(
                    HARD_MAX_WRITE_MAX_ATTEMPTS as int,
                ) + "（当前 "@ + number::decimal(self.write_max_attempts as int) + "）"@,
            )
        } else if self.database.len() > 0 && sql::ident_fault(self.database) is Some {
            Some("database 标识符非法"@)
        } else if text::trimmed(self.user).len() == 0 {
            Some("user 不能为空"@)
        } else {
            None
        }
    }

    /// What is wrong with how the connection is protected.
    pub open spec fn security_fault(self) -> Option<Seq<char>> {
        if self.tls_ca_file is Some && !self.tls {
            Some("配置 tls_ca_file 时必须启用 tls"@)
        } else if !parse::is_loopback(self.host) && !self.tls {
            Some("远程 TDengine 必须使用 TLS"@)
        } else if !parse::is_loopback(self.host) && text::trimmed(self.password).len() == 0 {
            Some("远程 TDengine 必须配置认证密码"@)
        } else {
            None
        }
    }

    /// The first thing that is wrong with a field.
    pub open spec fn field_fault(self) -> Option<Seq<char>> {
        either(
            self.limits_fault(),
            either(
                self.timeouts_fault(),
                either(
                    self.hosts_fault(),
                    either(self.identity_fault(), self.security_fault()),
                ),
            ),
        )
    }

    /// What is wrong with the endpoints.
    pub open spec fn endpoint_fault(self) -> Option<Seq<char>> {
        match (endpoint::url_parse(self.rest_url()), endpoint::url_parse(self.ws_url())) {
            (Err(e), _) => Some(endpoint::endpoint_fault("REST"@, e)),
            (_, Err(e)) => Some(endpoint::endpoint_fault("Native WS"@, e)),
            _ => None,
        }
    }

    /// The first thing that is wrong with the configuration.
    pub open spec fn fault(self) -> Option<Seq<char>> {
        either(self.field_fault(), self.endpoint_fault())
    }
}

pub(super) fn out_of_range(name: &str, value: usize, max: usize) -> (r: Option<String>)
    ensures
        parse::optional(r) == range_fault(name@, value, max),
{
    if value < 1 || value > max {
        let mut m = String::from(name);
        text::push_text(&mut m, " 必须为 1..=");
        text::push_text(&mut m, number::decimal_usize(max).as_str());
        Some(m)
    } else {
        None
    }
}

fn is_zero(name: &str, time: &Duration) -> (r: Option<String>)
    ensures
        parse::optional(r) == zero_fault(name@, duration::nanos(*time)),
{
    if time.as_nanos() == 0 {
        let mut m = String::from(name);
        text::push_text(&mut m, " 必须大于 0（当前 ");
        text::push_text(&mut m, duration::rounded(time).as_str());
        text::push_text(&mut m, "）");
        Some(m)
    } else {
        None
    }
}

fn is_long(name: &str, time: &Duration, max: &Duration) -> (r: Option<String>)
    ensures
        parse::optional(r) == long_fault(name@, duration::nanos(*time), duration::nanos(*max)),
{
    if time.as_nanos() > max.as_nanos() {
        let mut m = String::from(name);
        text::push_text(&mut m, " 超过上限 ");
        text::push_text(&mut m, duration::rounded(max).as_str());
        text::push_text(&mut m, "（当前 ");
        text::push_text(&mut m, duration::rounded(time).as_str());
        text::push_text(&mut m, "）");
        Some(m)
    } else {
        None
    }
}

pub(super) fn first(a: Option<String>, b: Option<String>) -> (r: Option<String>)
    ensures
        parse::optional(r) == either(parse::optional(a), parse::optional(b)),
{
    match a {
        Some(m) => Some(m),
        None => b,
    }
}

proof fn lemma_spare_fault_stays(hosts: Seq<Seq<char>>, i: int)
    requires
        0 <= i <= hosts.len(),
        spare_fault(hosts.take(i)) is Some,
    ensures
        spare_fault(hosts) == spare_fault(hosts.take(i)),
    decreases hosts.len() - i,
{
    if i < hosts.len() {
        assert(hosts.take(i + 1).drop_last() =~= hosts.take(i));
        lemma_spare_fault_stays(hosts, i + 1);
    } else {
        assert(hosts.take(i) =~= hosts);
    }
}

impl TaosConfig {
    fn limits(&self) -> (r: Option<String>)
        ensures
            parse::optional(r) == self@.limits_fault(),
    {
        first(
            out_of_range("max_in_flight", self.max_in_flight, HARD_MAX_IN_FLIGHT),
            first(
                out_of_range("batch_max_rows", self.batch_max_rows, HARD_MAX_BATCH_ROWS),
                first(
                    out_of_range("batch_max_bytes", self.batch_max_bytes, HARD_MAX_BATCH_BYTES),
                    first(
                        out_of_range(
                            "max_response_bytes",
                            self.max_response_bytes,
                            HARD_MAX_RESPONSE_BYTES,
                        ),
                        out_of_range("max_query_rows", self.max_query_rows, HARD_MAX_QUERY_ROWS),
                    ),
                ),
            ),
        )
    }

    fn timeouts(&self) -> (r: Option<String>)
        ensures
            parse::optional(r) == self@.timeouts_fault(),
    {
        let close_max = hard_max_close_timeout();
        let max = hard_max_timeout();
        first(
            is_zero("timeout", &self.timeout),
            first(
                is_zero("acquire_timeout", &self.acquire_timeout),
                first(
                    is_zero("close_timeout", &self.close_timeout),
                    first(
                        is_long("close_timeout", &self.close_timeout, &close_max),
                        first(
                            is_long("timeout", &self.timeout, &max),
                            is_long("acquire_timeout", &self.acquire_timeout, &max),
                        ),
                    ),
                ),
            ),
        )
    }

    pub(super) fn spare_hosts(&self) -> (r: Option<String>)
        ensures
            parse::optional(r) == spare_fault(self@.hosts),
    {
        let ghost hosts = self@.hosts;
        let mut i: usize = 0;
        assert(hosts.take(0) =~= Seq::<Seq<char>>::empty());
        while i < self.hosts.len()
            invariant
                i <= self.hosts@.len(),
                hosts == self@.hosts,
                spare_fault(hosts.take(i as int)) is None,
            decreases self.hosts@.len() - i,
        {
            let host = self.hosts[i].as_str();
            assert(hosts.take(i + 1).drop_last() =~= hosts.take(i as int));
            assert(hosts[i as int] == host@);
            if !parse::valid_host(host) {
                let mut m = String::from("备用 host 非法: ");
                text::push_text(&mut m, host);
                proof {
                    lemma_spare_fault_stays(hosts, i + 1);
                }
                return Some(m);
            }
            i = i + 1;
        }
        assert(hosts.take(i as int) =~= hosts);
        None
    }

    fn hosts_and_port(&self) -> (r: Option<String>)
        ensures
            parse::optional(r) == self@.hosts_fault(),
    {
        if !parse::valid_host(self.host.as_str()) || self.port == 0 {
            Some(String::from("host/port 非法"))
        } else {
            self.spare_hosts()
        }
    }

    fn identity(&self) -> (r: Option<String>)
        ensures
            parse::optional(r) == self@.identity_fault(),
    {
        if self.write_max_attempts == 0 {
            Some(String::from("write_max_attempts 必须 ≥ 1"))
        } else if self.write_max_attempts > HARD_MAX_WRITE_MAX_ATTEMPTS {
            let mut m = String::from("write_max_attempts 必须为 1..=");
            text::push_text(
                &mut m,
                number::decimal_u64(HARD_MAX_WRITE_MAX_ATTEMPTS as u64).as_str(),
            );
            text::push_text(&mut m, "（当前 ");
            text::push_text(&mut m, number::decimal_u64(self.write_max_attempts as u64).as_str());
            text::push_text(&mut m, "）");
            Some(m)
        } else if !self.database.as_str().is_empty() && !parse::valid_ident(
            self.database.as_str(),
        ) {
            Some(String::from("database 标识符非法"))
        } else if text::trim(self.user.as_str()).as_str().is_empty() {
            Some(String::from("user 不能为空"))
        } else {
            None
        }
    }

    pub(super) fn security(&self) -> (r: Option<String>)
        ensures
            parse::optional(r) == self@.security_fault(),
    {
        if self.tls_ca_file.is_some() && !self.tls {
            return Some(String::from("配置 tls_ca_file 时必须启用 tls"));
        }
        if !parse::host_is_loopback(self.host.as_str()) {
            if !self.tls {
                return Some(String::from("远程 TDengine 必须使用 TLS"));
            }
            if text::trim(self.password.as_str()).as_str().is_empty() {
                return Some(String::from("远程 TDengine 必须配置认证密码"));
            }
        }
        None
    }

    /// Checks every field: hard limits, time-outs, hosts and port, attempts, database, user, and
    /// what a remote host needs. Whether the endpoints are URLs is not asked here.
    pub fn validate_fields(&self) -> (r: TaosResult<()>)
        ensures
            match r {
                Ok(_) => self@.field_fault() is None,
                Err(TaosError::Config(m)) => self@.field_fault() == Some(m@),
                Err(_) => false,
            },
    {
        let found = first(
            self.limits(),
            first(
                self.timeouts(),
                first(self.hosts_and_port(), first(self.identity(), self.security())),
            ),
        );
        match found {
            Some(m) => Err(TaosError::Config(m)),
            None => Ok(()),
        }
    }

    /// Checks the configuration: every field, and that the endpoints are URLs.
    pub fn validate(&self) -> (r: TaosResult<()>)
        ensures
            match r {
                Ok(_) => self@.fault() is None,
                Err(TaosError::Config(m)) => self@.fault() == Some(m@),
                Err(_) => false,
            },
    {
        match self.validate_fields() {
            Ok(_) => {},
            Err(e) => {
                return Err(e);
            },
        }
        match self.rest_sql_endpoint() {
            Ok(_) => {},
            Err(e) => {
                return Err(e);
            },
        }
        match self.native_ws_endpoint() {
            Ok(_) => {},
            Err(e) => {
                return Err(e);
            },
        }
        Ok(())
    }
}

// ---------------------------------------------------------------------------
// Laws
// ---------------------------------------------------------------------------

/// A configuration that passes keeps every hard limit.
pub proof fn law_valid_keeps_hard_limits(config: ConfigView)
    requires
        config.fault() is None,
    ensures
        1 <= config.max_in_flight <= HARD_MAX_IN_FLIGHT,
        1 <= config.batch_max_rows <= HARD_MAX_BATCH_ROWS,
        1 <= config.batch_max_bytes <= HARD_MAX_BATCH_BYTES,
        1 <= config.max_response_bytes <= HARD_MAX_RESPONSE_BYTES,
        1 <= config.max_query_rows <= HARD_MAX_QUERY_ROWS,
        1 <= config.write_max_attempts <= HARD_MAX_WRITE_MAX_ATTEMPTS,
        0 < config.close_timeout <= HARD_MAX_CLOSE_TIMEOUT_SECS * 1_000_000_000,
        0 < config.timeout <= HARD_MAX_TIMEOUT_SECS * 1_000_000_000,
        0 < config.acquire_timeout <= HARD_MAX_TIMEOUT_SECS * 1_000_000_000,
        config.port != 0,
{
}

/// A configuration that passes reaches a remote host only over TLS and with a password.
pub proof fn law_remote_needs_tls_and_password(config: ConfigView)
    requires
        config.fault() is None,
        !parse::is_loopback(config.host),
    ensures
        config.tls,
        text::trimmed(config.password).len() > 0,
{
}

/// A configuration that passes names only hosts that are hosts.
pub proof fn law_valid_hosts(config: ConfigView, i: int)
    requires
        config.fault() is None,
        0 <= i < config.endpoint_hosts().len(),
    ensures
        parse::is_host(config.endpoint_hosts()[i]),
{
    endpoint::law_endpoint_hosts(config);
    let h = config.endpoint_hosts()[i];
    assert(config.endpoint_hosts().contains(h));
    if h != config.host {
        let k = choose|k: int| 0 <= k < config.hosts.len() && config.hosts[k] == h;
        lemma_spare_host_is_host(config.hosts, k);
    }
}

proof fn lemma_spare_host_is_host(hosts: Seq<Seq<char>>, i: int)
    requires
        spare_fault(hosts) is None,
        0 <= i < hosts.len(),
    ensures
        parse::is_host(hosts[i]),
    decreases hosts.len(),
{
    if i < hosts.len() - 1 {
        lemma_spare_host_is_host(hosts.drop_last(), i);
        assert(hosts.drop_last()[i] == hosts[i]);
    }
}

/// Whether a configuration passes does not depend on what the password is, but for whether it is
/// blank.
pub proof fn law_password_only_matters_as_blank(config: ConfigView, password: Seq<char>)
    requires
        (text::trimmed(password).len() == 0) == (text::trimmed(config.password).len() == 0),
    ensures
        (ConfigView { password, ..config }).fault() == config.fault(),
{
}

/// The settings pass exactly where each number is in its range, each time is positive and within
/// its limit, the hosts are hosts, the names are names, and a host that is not this machine is
/// reached over TLS and with a password.
pub proof fn law_settings_pass_within_their_ranges(config: ConfigView)
    ensures
        (config.field_fault() is None) == {
            &&& 1 <= config.max_in_flight <= 1_024
            &&& 1 <= config.batch_max_rows <= 10_000
            &&& 1 <= config.batch_max_bytes <= 8_388_608
            &&& 1 <= config.max_response_bytes <= 67_108_864
            &&& 1 <= config.max_query_rows <= 100_000
            &&& 1 <= config.write_max_attempts <= 10
            &&& 0 < config.timeout <= 3_600_000_000_000
            &&& 0 < config.acquire_timeout <= 3_600_000_000_000
            &&& 0 < config.close_timeout <= 30_000_000_000
            &&& parse::is_host(config.host)
            &&& config.port != 0
            &&& forall|i: int|
                0 <= i < config.hosts.len() ==> parse::is_host(#[trigger] config.hosts[i])
            &&& config.database.len() == 0 || sql::ident_fault(config.database) is None
            &&& text::trimmed(config.user).len() > 0
            &&& config.tls_ca_file is Some ==> config.tls
            &&& parse::is_loopback(config.host) || (config.tls && text::trimmed(
                config.password,
            ).len() > 0)
        },
{
    lemma_spare_hosts(config.hosts);
}

proof fn lemma_spare_hosts(hosts: Seq<Seq<char>>)
    ensures
        (spare_fault(hosts) is None) == (forall|i: int|
            0 <= i < hosts.len() ==> parse::is_host(#[trigger] hosts[i])),
    decreases hosts.len(),
{
    if hosts.len() > 0 {
        let before = hosts.drop_last();
        lemma_spare_hosts(before);
        if spare_fault(before) is None {
            assert forall|i: int| 0 <= i < hosts.len() - 1 implies parse::is_host(
                #[trigger] hosts[i],
            ) by {
                assert(before[i] == hosts[i]);
            }
        } else {
            let i = choose|i: int| 0 <= i < before.len() && !parse::is_host(#[trigger] before[i]);
            assert(hosts[i] == before[i]);
        }
    }
}

/// What is refused is named: the message for a number out of its range starts with the setting and
/// ends with the limit, and no two limits give the same message.
pub proof fn law_range_messages_tell_setting_and_limit(
    name: Seq<char>,
    value: usize,
    max: usize,
    other: usize,
)
    requires
        value < 1 || (value > max && value > other),
    ensures
        range_fault(name, value, max) is Some,
        name.is_prefix_of(range_fault(name, value, max)->0),
        number::decimal(max as int).is_suffix_of(range_fault(name, value, max)->0),
        range_fault(name, value, max) == range_fault(name, value, other) && max <= i64::MAX && other
            <= i64::MAX ==> max == other,
{
    let m = range_fault(name, value, max)->0;
    let limit = number::decimal(max as int);
    let none = Seq::<char>::empty();
    assert(m.subrange(0, name.len() as int) =~= name);
    assert(m.subrange(m.len() - limit.len(), m.len() as int) =~= limit);
    if range_fault(name, value, max) == range_fault(name, value, other) && max <= i64::MAX && other
        <= i64::MAX {
        let head = name + " 必须为 1..="@;
        assert(head + limit + none =~= m);
        assert(head + number::decimal(other as int) + none =~= range_fault(
            name,
            value,
            other,
        )->0);
        crate::error::lemma_middle_is_told(head, max as int, other as int, none);
    }
}

/// A message that starts with a setting and ends with its limit.
pub open spec fn names_limit(message: Option<Seq<char>>, setting: Seq<char>, max: int) -> bool {
    &&& message is Some
    &&& (setting + " "@).is_prefix_of(message->0)
    &&& (" 1..="@ + number::decimal(max)).is_suffix_of(message->0)
}

/// A message is about what is wrong: where one number alone is out of its range it starts with that
/// setting and ends with its limit.
pub proof fn law_refused_number_is_named(c: ConfigView)
    ensures
        ({
            let a = 1 <= c.max_in_flight <= 1_024;
            let b = 1 <= c.batch_max_rows <= 10_000;
            let r = 1 <= c.batch_max_bytes <= 8_388_608;
            let d = 1 <= c.max_response_bytes <= 67_108_864;
            let e = 1 <= c.max_query_rows <= 100_000;
            &&& !a && b && r && d && e ==> names_limit(c.limits_fault(), "max_in_flight"@, 1_024)
            &&& a && !b && r && d && e ==> names_limit(c.limits_fault(), "batch_max_rows"@, 10_000)
            &&& a && b && !r && d && e ==> names_limit(c.limits_fault(), "batch_max_bytes"@, 8_388_608)
            &&& a && b && r && !d && e ==> names_limit(
                c.limits_fault(),
                "max_response_bytes"@,
                67_108_864,
            )
            &&& a && b && r && d && !e ==> names_limit(c.limits_fault(), "max_query_rows"@, 100_000)
        }),
{
    lemma_names_limit("max_in_flight"@, c.max_in_flight, 1_024);
    lemma_names_limit("batch_max_rows"@, c.batch_max_rows, 10_000);
    lemma_names_limit("batch_max_bytes"@, c.batch_max_bytes, 8_388_608);
    lemma_names_limit("max_response_bytes"@, c.max_response_bytes, 67_108_864);
    lemma_names_limit("max_query_rows"@, c.max_query_rows, 100_000);
}

proof fn lemma_names_limit(setting: Seq<char>, value: usize, max: usize)
    ensures
        !(1 <= value <= max) ==> names_limit(range_fault(setting, value, max), setting, max as int),
{
    if !(1 <= value <= max) {
        reveal_strlit(" 必须为 1..=");
        reveal_strlit(" 1..=");
        reveal_strlit(" ");
        let m = range_fault(setting, value, max)->0;
        let start = setting + " "@;
        let end = " 1..="@ + number::decimal(max as int);
        assert(m.subrange(0, start.len() as int) =~= start);
        assert(m.subrange(m.len() - end.len(), m.len() as int) =~= end);
    }
}

/// A message about a time starts with its name: where one time alone is zero or too long it is about
/// that one.
pub proof fn law_refused_time_is_named(c: ConfigView)
    ensures
        ({
            let a = 0 < c.timeout <= 3_600_000_000_000;
            let b = 0 < c.acquire_timeout <= 3_600_000_000_000;
            let r = 0 < c.close_timeout <= 30_000_000_000;
            &&& !a && b && r ==> c.timeouts_fault() is Some && ("timeout"@ + " "@).is_prefix_of(
                c.timeouts_fault()->0,
            )
            &&& a && !b && r ==> c.timeouts_fault() is Some && ("acquire_timeout"@ + " "@).is_prefix_of(
                c.timeouts_fault()->0,
            )
            &&& a && b && !r ==> c.timeouts_fault() is Some && ("close_timeout"@ + " "@).is_prefix_of(
                c.timeouts_fault()->0,
            )
        }),
{
    lemma_names_time("timeout"@, c.timeout, 3_600_000_000_000);
    lemma_names_time("acquire_timeout"@, c.acquire_timeout, 3_600_000_000_000);
    lemma_names_time("close_timeout"@, c.close_timeout, 30_000_000_000);
}

proof fn lemma_names_time(name: Seq<char>, nanos: nat, max: nat)
    ensures
        zero_fault(name, nanos) matches Some(m) ==> (name + " "@).is_prefix_of(m),
        long_fault(name, nanos, max) matches Some(m) ==> (name + " "@).is_prefix_of(m),
{
    reveal_strlit(" 必须大于 0（当前 ");
    reveal_strlit(" 超过上限 ");
    reveal_strlit(" ");
    let start = name + " "@;
    if nanos == 0 {
        let m = zero_fault(name, nanos)->0;
        assert(m.subrange(0, start.len() as int) =~= start);
    }
    if nanos > max {
        let m = long_fault(name, nanos, max)->0;
        assert(m.subrange(0, start.len() as int) =~= start);
    }
}

/// What is wrong is looked at in one order: numbers, times, hosts, then attempts, database and user,
/// then how the connection is protected, and last the endpoints. An earlier fault decides alone.
pub proof fn law_faults_have_an_order(c: ConfigView)
    ensures
        c.limits_fault() is Some ==> c.fault() == c.limits_fault(),
        c.limits_fault() is None && c.timeouts_fault() is Some ==> c.fault() == c.timeouts_fault(),
        c.limits_fault() is None && c.timeouts_fault() is None && c.hosts_fault() is Some
            ==> c.fault() == c.hosts_fault(),
        c.limits_fault() is None && c.timeouts_fault() is None && c.hosts_fault() is None
            && c.identity_fault() is Some ==> c.fault() == c.identity_fault(),
        c.limits_fault() is None && c.timeouts_fault() is None && c.hosts_fault() is None
            && c.identity_fault() is None && c.security_fault() is Some ==> c.fault()
            == c.security_fault(),
        c.field_fault() is None ==> c.fault() == c.endpoint_fault(),
{
}

/// The first spare host that is none is the one that is told, whatever follows it.
pub proof fn law_first_bad_host_is_told(
    before: Seq<Seq<char>>,
    host: Seq<char>,
    after: Seq<Seq<char>>,
)
    requires
        spare_fault(before) is None,
        !parse::is_host(host),
    ensures
        spare_fault(before.push(host) + after) is Some,
        host.is_suffix_of(spare_fault(before.push(host) + after)->0),
    decreases after.len(),
{
    let all = before.push(host) + after;
    if after.len() == 0 {
        assert(all.drop_last() =~= before);
        assert(all.last() == host);
        text::lemma_suffix("备用 host 非法: "@, host);
    } else {
        assert(all.drop_last() =~= before.push(host) + after.drop_last());
        law_first_bad_host_is_told(before, host, after.drop_last());
    }
}

/// Both endpoints have to be URLs, and REST is looked at first.
pub proof fn law_endpoints_are_urls(c: ConfigView)
    ensures
        (c.endpoint_fault() is None) == (endpoint::url_parse(c.rest_url()) is Ok
            && endpoint::url_parse(c.ws_url()) is Ok),
        endpoint::url_parse(c.rest_url()) is Err ==> ("REST"@ + " "@).is_prefix_of(
            c.endpoint_fault()->0,
        ),
        endpoint::url_parse(c.rest_url()) is Ok && endpoint::url_parse(c.ws_url()) is Err ==> (
        "Native WS"@ + " "@).is_prefix_of(c.endpoint_fault()->0),
{
    match (endpoint::url_parse(c.rest_url()), endpoint::url_parse(c.ws_url())) {
        (Err(e), _) => {
            endpoint::law_endpoint_messages("REST"@, e);
        },
        (_, Err(e)) => {
            endpoint::law_endpoint_messages("Native WS"@, e);
        },
        _ => {},
    }
}

} // verus!
