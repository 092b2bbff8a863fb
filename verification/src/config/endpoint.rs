//! The URLs and hosts that a configuration stands for.

use vstd::prelude::*;

use super::parse;
use super::TaosConfig;
#[allow(unused_imports)]
use super::ConfigView;
use crate::error::{TaosError, TaosResult};
use crate::number;
use crate::text;

verus! {

#[verifier::external_type_specification]
#[verifier::external_body]
pub struct ExUrl(url::Url);

#[verifier::external_type_specification]
#[verifier::external_body]
pub struct ExUrlParseError(url::ParseError);

/// What [`url::Url::parse`] makes of a text.
pub uninterp spec fn url_parse(input: Seq<char>) -> Result<url::Url, url::ParseError>;

/// [`url::Url::parse`].
#[verifier::external_body]
pub(crate) fn parse_url(input: &str) -> (r: Result<url::Url, url::ParseError>)
    ensures
        r == url_parse(input@),
{
    url::Url::parse(input)
}

/// The text that a [`url::ParseError`] displays as.
pub uninterp spec fn url_fault_text(error: url::ParseError) -> Seq<char>;

/// `Display` of [`url::ParseError`].
#[verifier::external_body]
pub(crate) fn text_of_url_fault(error: &url::ParseError) -> (r: String)
    ensures
        r@ == url_fault_text(*error),
{
    error.to_string()
}

impl ConfigView {
    /// The REST endpoint on a host.
    pub open spec fn rest_url_for(self, host: Seq<char>) -> Seq<char> {
        (if self.tls {
            "https"@
        } else {
            "http"@
        }) + "://"@ + parse::url_form(host) + ":"@ + number::decimal(self.port as int)
            + "/rest/sql"@
    }

    /// The REST endpoint.
    pub open spec fn rest_url(self) -> Seq<char> {
        self.rest_url_for(self.host)
    }

    /// The REST endpoint for the database.
    pub open spec fn rest_db_url(self) -> Seq<char> {
        if self.database.len() == 0 {
            self.rest_url()
        } else {
            self.rest_url() + "/"@ + self.database
        }
    }

    /// The WebSocket endpoint.
    pub open spec fn ws_url(self) -> Seq<char> {
        (if self.tls {
            "wss"@
        } else {
            "ws"@
        }) + "://"@ + parse::url_form(self.host) + ":"@ + number::decimal(self.port as int)
            + "/rest/ws"@
    }

    /// The hosts to try: the host, then the spare ones, each once.
    pub open spec fn endpoint_hosts(self) -> Seq<Seq<char>> {
        once_each(self.host, self.hosts)
    }
}

/// The first text and those of the rest that did not occur before, in order.
pub open spec fn once_each(first: Seq<char>, rest: Seq<Seq<char>>) -> Seq<Seq<char>>
    decreases rest.len(),
{
    if rest.len() == 0 {
        seq![first]
    } else {
        let before = once_each(first, rest.drop_last());
        if before.contains(rest.last()) {
            before
        } else {
            before.push(rest.last())
        }
    }
}

/// The message for an endpoint that is no URL.
pub open spec fn endpoint_fault(label: Seq<char>, error: url::ParseError) -> Seq<char> {
    label + " 端点非法（"@ + url_fault_text(error) + "）"@
}

/// What became of reading an endpoint: the URL, or the reason why it is none.
pub fn endpoint(label: &str, parsed: Result<url::Url, url::ParseError>) -> (r: TaosResult<url::Url>)
    ensures
        match r {
            Ok(u) => parsed == Ok::<url::Url, url::ParseError>(u),
            Err(TaosError::Config(m)) => parsed matches Err(e) && m@ == endpoint_fault(label@, e),
            Err(_) => false,
        },
{
    match parsed {
        Ok(u) => Ok(u),
        Err(error) => {
            let mut m = String::from(label);
            text::push_text(&mut m, " 端点非法（");
            text::push_text(&mut m, text_of_url_fault(&error).as_str());
            text::push_text(&mut m, "）");
            Err(TaosError::Config(m))
        },
    }
}

fn url_text(scheme: &str, host: &str, port: u16, path: &str) -> (r: String)
    ensures
        r@ == scheme@ + "://"@ + parse::url_form(host@) + ":"@ + number::decimal(port as int)
            + path@,
{
    let mut out = String::from(scheme);
    text::push_text(&mut out, "://");
    text::push_text(&mut out, parse::url_host(host).as_str());
    text::push_text(&mut out, ":");
    text::push_text(&mut out, number::decimal_u64(port as u64).as_str());
    text::push_text(&mut out, path);
    out
}

fn contains_text(list: &Vec<String>, s: &String) -> (r: bool)
    ensures
        r == super::texts(list@).contains(s@),
{
    let mut i: usize = 0;
    while i < list.len()
        invariant
            i <= list@.len(),
            forall|k: int| 0 <= k < i ==> #[trigger] super::texts(list@)[k] != s@,
        decreases list@.len() - i,
    {
        assert(super::texts(list@)[i as int] == list@[i as int]@);
        if list[i] == *s {
            return true;
        }
        i = i + 1;
    }
    false
}

impl TaosConfig {
    /// The REST endpoint: `http(s)://host:port/rest/sql`.
    #[must_use]
    pub fn rest_sql_url(&self) -> (r: String)
        ensures
            r@ == self@.rest_url(),
    {
        self.rest_sql_url_for(self.host.as_str())
    }

    /// The REST endpoint on a host.
    #[must_use]
    pub fn rest_sql_url_for(&self, host: &str) -> (r: String)
        ensures
            r@ == self@.rest_url_for(host@),
    {
        let scheme = if self.tls {
            "https"
        } else {
            "http"
        };
        url_text(scheme, host, self.port, "/rest/sql")
    }

    /// The REST endpoint for the database; without a database, that for none.
    #[must_use]
    pub fn rest_sql_db_url(&self) -> (r: String)
        ensures
            r@ == self@.rest_db_url(),
    {
        let mut out = self.rest_sql_url();
        if !self.database.as_str().is_empty() {
            text::push_text(&mut out, "/");
            text::push_text(&mut out, self.database.as_str());
        }
        out
    }

    /// The WebSocket endpoint: `ws(s)://host:port/rest/ws`.
    #[must_use]
    pub fn native_ws_url(&self) -> (r: String)
        ensures
            r@ == self@.ws_url(),
    {
        let scheme = if self.tls {
            "wss"
        } else {
            "ws"
        };
        url_text(scheme, self.host.as_str(), self.port, "/rest/ws")
    }

    /// The REST endpoint as a URL.
    pub fn rest_sql_endpoint(&self) -> (r: TaosResult<url::Url>)
        ensures
            match r {
                Ok(u) => url_parse(self@.rest_url()) == Ok::<url::Url, url::ParseError>(u),
                Err(TaosError::Config(m)) => url_parse(self@.rest_url()) matches Err(e) && m@
                    == endpoint_fault("REST"@, e),
                Err(_) => false,
            },
    {
        endpoint("REST", parse_url(self.rest_sql_url().as_str()))
    }

    /// The WebSocket endpoint as a URL.
    pub fn native_ws_endpoint(&self) -> (r: TaosResult<url::Url>)
        ensures
            match r {
                Ok(u) => url_parse(self@.ws_url()) == Ok::<url::Url, url::ParseError>(u),
                Err(TaosError::Config(m)) => url_parse(self@.ws_url()) matches Err(e) && m@
                    == endpoint_fault("Native WS"@, e),
                Err(_) => false,
            },
    {
        endpoint("Native WS", parse_url(self.native_ws_url().as_str()))
    }

    /// The hosts to try, in order: the host, then the spare ones, each once.
    #[must_use]
    pub fn endpoint_hosts(&self) -> (r: Vec<String>)
        ensures
            super::texts(r@) == self@.endpoint_hosts(),
    {
        let ghost spare = super::texts(self.hosts@);
        let mut out: Vec<String> = Vec::new();
        out.push(self.host.clone());
        let mut i: usize = 0;
        assert(spare.take(0) =~= Seq::<Seq<char>>::empty());
        assert(super::texts(out@) =~= seq![self.host@]);
        while i < self.hosts.len()
            invariant
                i <= self.hosts@.len(),
                spare == super::texts(self.hosts@),
                super::texts(out@) == once_each(self.host@, spare.take(i as int)),
            decreases self.hosts@.len() - i,
        {
            let host = &self.hosts[i];
            assert(spare.take(i + 1).drop_last() =~= spare.take(i as int));
            assert(spare.take(i + 1).last() == host@);
            if !contains_text(&out, host) {
                let ghost before = super::texts(out@);
                out.push(host.clone());
                assert(super::texts(out@) =~= before.push(host@));
            }
            i = i + 1;
        }
        assert(spare.take(i as int) =~= spare);
        out
    }
}

// ---------------------------------------------------------------------------
// Laws
// ---------------------------------------------------------------------------

/// The hosts to try start with the host itself, hold no host twice, and hold exactly the host
/// and the spare ones.
pub proof fn law_endpoint_hosts(config: ConfigView)
    ensures
        config.endpoint_hosts().len() > 0,
        config.endpoint_hosts()[0] == config.host,
        config.endpoint_hosts().no_duplicates(),
        forall|h: Seq<char>| #[trigger]
            config.endpoint_hosts().contains(h) == (h == config.host || config.hosts.contains(h)),
{
    lemma_once_each(config.host, config.hosts);
}

proof fn lemma_once_each(first: Seq<char>, rest: Seq<Seq<char>>)
    ensures
        once_each(first, rest).len() > 0,
        once_each(first, rest)[0] == first,
        once_each(first, rest).no_duplicates(),
        forall|h: Seq<char>| #[trigger]
            once_each(first, rest).contains(h) == (h == first || rest.contains(h)),
    decreases rest.len(),
{
    let all = once_each(first, rest);
    if rest.len() == 0 {
        assert forall|h: Seq<char>| #[trigger] all.contains(h) == (h == first || rest.contains(
            h,
        )) by {
            if h == first {
                assert(all[0] == h);
            }
        }
    } else {
        lemma_once_each(first, rest.drop_last());
        let before = once_each(first, rest.drop_last());
        let last = rest.last();
        assert(rest =~= rest.drop_last().push(last));
        assert forall|h: Seq<char>| #[trigger] all.contains(h) == (h == first || rest.contains(
            h,
        )) by {
            assert(before.contains(h) == (h == first || rest.drop_last().contains(h)));
            assert(rest.contains(h) == (rest.drop_last().contains(h) || h == last)) by {
                if rest.contains(h) {
                    let k = choose|k: int| 0 <= k < rest.len() && rest[k] == h;
                    if k < rest.len() - 1 {
                        assert(rest.drop_last()[k] == h);
                    }
                }
                if rest.drop_last().contains(h) {
                    let k = choose|k: int|
                        0 <= k < rest.drop_last().len() && rest.drop_last()[k] == h;
                    assert(rest[k] == h);
                }
                if h == last {
                    assert(rest[rest.len() - 1] == h);
                }
            }
            if !before.contains(last) {
                assert(all == before.push(last));
                assert(all.contains(h) == (before.contains(h) || h == last)) by {
                    if all.contains(h) {
                        let k = choose|k: int| 0 <= k < all.len() && all[k] == h;
                        if k < before.len() {
                            assert(before[k] == h);
                        }
                    }
                    if before.contains(h) {
                        let k = choose|k: int| 0 <= k < before.len() && before[k] == h;
                        assert(all[k] == h);
                    }
                    if h == last {
                        assert(all[all.len() - 1] == h);
                    }
                }
            }
        }
    }
}

/// Spare hosts are tried in the order in which they are given: with one more at the end, the hosts
/// are those from before, and then that one where it is new.
pub proof fn law_spare_hosts_keep_their_order(config: ConfigView, spare: Seq<char>)
    ensures
        ({
            let more = ConfigView { hosts: config.hosts.push(spare), ..config };
            more.endpoint_hosts() == (if spare == config.host || config.hosts.contains(spare) {
                config.endpoint_hosts()
            } else {
                config.endpoint_hosts().push(spare)
            })
        }),
        (ConfigView { hosts: Seq::empty(), ..config }).endpoint_hosts() == seq![config.host],
{
    law_endpoint_hosts(config);
    assert(config.hosts.push(spare).drop_last() =~= config.hosts);
}

/// Where requests go: to the host and the port of the configuration, with TLS exactly where it is
/// set, REST and WebSocket at the same place and each at its own path.
pub proof fn law_endpoints_lead_where_configured(config: ConfigView)
    ensures
        ({
            let place = parse::url_form(config.host) + ":"@ + number::decimal(config.port as int);
            &&& "https://"@.is_prefix_of(config.rest_url()) == config.tls
            &&& "http://"@.is_prefix_of(config.rest_url()) == !config.tls
            &&& "wss://"@.is_prefix_of(config.ws_url()) == config.tls
            &&& "ws://"@.is_prefix_of(config.ws_url()) == !config.tls
            &&& (place + "/rest/sql"@).is_suffix_of(config.rest_url())
            &&& (place + "/rest/ws"@).is_suffix_of(config.ws_url())
            &&& config.rest_url().len() == place.len() + (if config.tls {
                17int
            } else {
                16int
            })
            &&& config.ws_url().len() == place.len() + (if config.tls {
                14int
            } else {
                13int
            })
            &&& config.database.len() == 0 ==> config.rest_db_url() == config.rest_url()
            &&& config.database.len() > 0 ==> config.rest_url().is_prefix_of(config.rest_db_url())
                && (seq!['/'] + config.database).is_suffix_of(config.rest_db_url())
                && config.rest_db_url().len() == config.rest_url().len() + 1
                + config.database.len()
        }),
{
    reveal_strlit("https");
    reveal_strlit("http");
    reveal_strlit("wss");
    reveal_strlit("ws");
    reveal_strlit("://");
    reveal_strlit("https://");
    reveal_strlit("http://");
    reveal_strlit("wss://");
    reveal_strlit("ws://");
    reveal_strlit("/rest/sql");
    reveal_strlit("/rest/ws");
    reveal_strlit("/");
    let place = parse::url_form(config.host) + ":"@ + number::decimal(config.port as int);
    let rest = config.rest_url();
    let ws = config.ws_url();
    let db = config.rest_db_url();
    let r = place + "/rest/sql"@;
    let w = place + "/rest/ws"@;
    assert(rest.subrange(rest.len() - r.len(), rest.len() as int) =~= r);
    assert(ws.subrange(ws.len() - w.len(), ws.len() as int) =~= w);
    if config.tls {
        assert(rest.subrange(0, 8) =~= "https://"@);
        assert(rest.subrange(0, 7)[4] == 's');
        assert("http://"@[4] == ':');
        assert(ws.subrange(0, 6) =~= "wss://"@);
        assert(ws.subrange(0, 5)[2] == 's');
        assert("ws://"@[2] == ':');
    } else {
        assert(rest.subrange(0, 7) =~= "http://"@);
        assert(rest.subrange(0, 8)[4] == ':');
        assert("https://"@[4] == 's');
        assert(ws.subrange(0, 5) =~= "ws://"@);
        assert(ws.subrange(0, 6)[2] == ':');
        assert("wss://"@[2] == 's');
    }
    if config.database.len() > 0 {
        assert(db.subrange(0, rest.len() as int) =~= rest);
        let end = seq!['/'] + config.database;
        assert(db.subrange(db.len() - end.len(), db.len() as int) =~= end);
    }
}

/// A message about an endpoint starts with which one it is and tells what is wrong with the URL.
pub proof fn law_endpoint_messages(label: Seq<char>, error: url::ParseError)
    ensures
        (label + " "@).is_prefix_of(endpoint_fault(label, error)),
        text::holds(endpoint_fault(label, error), "（"@ + url_fault_text(error) + "）"@),
{
    reveal_strlit(" 端点非法（");
    reveal_strlit(" 端点非法");
    reveal_strlit("（");
    reveal_strlit(" ");
    let m = endpoint_fault(label, error);
    let start = label + " "@;
    assert(m.subrange(0, start.len() as int) =~= start);
    text::lemma_holds(
        m,
        label + " 端点非法"@,
        "（"@ + url_fault_text(error) + "）"@,
        Seq::empty(),
    );
}

} // verus!
