//! A configuration as text, for logs: everything but the password.

use std::path::PathBuf;
use vstd::prelude::*;

#[allow(unused_imports)]
use super::ConfigView;
use super::{TaosConfig, TransportMode, TsPrecision};
use crate::duration;
use crate::number;
use crate::text;

verus! {

/// What `{:?}` makes of a text.
pub uninterp spec fn quoted_text(s: Seq<char>) -> Seq<char>;

/// `Debug` of [`str`].
#[verifier::external_body]
pub(crate) fn quoted(s: &str) -> (r: String)
    ensures
        r@ == quoted_text(s@),
{
    format!("{s:?}")
}

/// What `{:?}` makes of a path.
pub uninterp spec fn path_text(path: PathBuf) -> Seq<char>;

/// `Debug` of [`PathBuf`].
#[verifier::external_body]
pub(crate) fn debug_path(path: &PathBuf) -> (r: String)
    ensures
        r@ == path_text(*path),
{
    format!("{path:?}")
}

/// A truth value as text.
pub open spec fn bool_text(b: bool) -> Seq<char> {
    if b {
        "true"@
    } else {
        "false"@
    }
}

/// An optional path as text.
pub open spec fn optional_path_text(path: Option<PathBuf>) -> Seq<char> {
    match path {
        Some(p) => "Some("@ + path_text(p) + ")"@,
        None => "None"@,
    }
}

/// A precision as text.
pub open spec fn precision_text(precision: TsPrecision) -> Seq<char> {
    match precision {
        TsPrecision::Ms => "Ms"@,
        TsPrecision::Us => "Us"@,
        TsPrecision::Ns => "Ns"@,
    }
}

/// An optional precision as text.
pub open spec fn optional_precision_text(precision: Option<TsPrecision>) -> Seq<char> {
    match precision {
        Some(p) => "Some("@ + precision_text(p) + ")"@,
        None => "None"@,
    }
}

/// A transport mode as text.
pub open spec fn transport_text(mode: TransportMode) -> Seq<char> {
    match mode {
        TransportMode::Rest => "Rest"@,
        TransportMode::NativeWs => "NativeWs"@,
    }
}

/// Texts in quotes with commas between them.
pub open spec fn list_text(list: Seq<Seq<char>>) -> Seq<char>
    decreases list.len(),
{
    if list.len() == 0 {
        Seq::empty()
    } else if list.len() == 1 {
        quoted_text(list[0])
    } else {
        list_text(list.drop_last()) + ", "@ + quoted_text(list.last())
    }
}

impl ConfigView {
    /// The configuration as text, with `***` in place of the password.
    pub open spec fn rendered(self) -> Seq<char> {
        "TaosConfig { host: "@ + quoted_text(self.host) + ", port: "@ + number::decimal(
            self.port as int,
        ) + ", database: "@ + quoted_text(self.database) + ", user: "@ + quoted_text(self.user)
            + ", password: \"***\", tls: "@ + bool_text(self.tls) + ", tls_ca_file: "@
            + optional_path_text(self.tls_ca_file) + ", timeout: "@ + duration::debug_text(
            self.timeout,
        ) + ", precision: "@ + optional_precision_text(self.precision) + ", transport: "@
            + transport_text(self.transport) + ", max_in_flight: "@ + number::decimal(
            self.max_in_flight as int,
        ) + ", acquire_timeout: "@ + duration::debug_text(self.acquire_timeout)
            + ", batch_max_rows: "@ + number::decimal(self.batch_max_rows as int)
            + ", batch_max_bytes: "@ + number::decimal(self.batch_max_bytes as int)
            + ", max_response_bytes: "@ + number::decimal(self.max_response_bytes as int)
            + ", max_query_rows: "@ + number::decimal(self.max_query_rows as int)
            + ", close_timeout: "@ + duration::debug_text(self.close_timeout) + ", hosts: ["@
            + list_text(self.hosts) + "], write_max_attempts: "@ + number::decimal(
            self.write_max_attempts as int,
        ) + " }"@
    }
}

pub(crate) fn push_bool(out: &mut String, b: bool)
    ensures
        final(out)@ == old(out)@ + bool_text(b),
{
    if b {
        text::push_text(out, "true");
    } else {
        text::push_text(out, "false");
    }
}

fn push_path(out: &mut String, path: &Option<PathBuf>)
    ensures
        final(out)@ == old(out)@ + optional_path_text(*path),
{
    match path {
        Some(p) => {
            let mut inner = String::from("Some(");
            text::push_text(&mut inner, debug_path(p).as_str());
            text::push_text(&mut inner, ")");
            text::push_text(out, inner.as_str());
        },
        None => {
            text::push_text(out, "None");
        },
    }
}

pub(crate) fn precision_str(precision: TsPrecision) -> (r: &'static str)
    ensures
        r@ == precision_text(precision),
{
    match precision {
        TsPrecision::Ms => "Ms",
        TsPrecision::Us => "Us",
        TsPrecision::Ns => "Ns",
    }
}

fn push_precision(out: &mut String, precision: Option<TsPrecision>)
    ensures
        final(out)@ == old(out)@ + optional_precision_text(precision),
{
    match precision {
        Some(p) => {
            let mut inner = String::from("Some(");
            text::push_text(&mut inner, precision_str(p));
            text::push_text(&mut inner, ")");
            text::push_text(out, inner.as_str());
        },
        None => {
            text::push_text(out, "None");
        },
    }
}

pub(crate) fn transport_str(mode: TransportMode) -> (r: &'static str)
    ensures
        r@ == transport_text(mode),
{
    match mode {
        TransportMode::Rest => "Rest",
        TransportMode::NativeWs => "NativeWs",
    }
}

fn list_of(list: &Vec<String>) -> (r: String)
    ensures
        r@ == list_text(super::texts(list@)),
{
    let ghost all = super::texts(list@);
    let mut out = String::new();
    let mut i: usize = 0;
    assert(all.take(0) =~= Seq::<Seq<char>>::empty());
    while i < list.len()
        invariant
            i <= list@.len(),
            all == super::texts(list@),
            out@ == list_text(all.take(i as int)),
        decreases list@.len() - i,
    {
        let item = quoted(list[i].as_str());
        assert(all.take(i + 1).drop_last() =~= all.take(i as int));
        assert(all[i as int] == list@[i as int]@);
        if i > 0 {
            text::push_text(&mut out, ", ");
        }
        text::push_text(&mut out, item.as_str());
        i = i + 1;
        assert(i == 1 ==> out@ =~= quoted_text(all[0]));
    }
    assert(all.take(i as int) =~= all);
    out
}

impl TaosConfig {
    /// The configuration as text, with `***` in place of the password.
    #[must_use]
    pub fn to_debug_string(&self) -> (r: String)
        ensures
            r@ == self@.rendered(),
    {
        let mut out = String::from("TaosConfig { host: ");
        text::push_text(&mut out, quoted(self.host.as_str()).as_str());
        text::push_text(&mut out, ", port: ");
        text::push_text(&mut out, number::decimal_u64(self.port as u64).as_str());
        text::push_text(&mut out, ", database: ");
        text::push_text(&mut out, quoted(self.database.as_str()).as_str());
        text::push_text(&mut out, ", user: ");
        text::push_text(&mut out, quoted(self.user.as_str()).as_str());
        text::push_text(&mut out, ", password: \"***\", tls: ");
        push_bool(&mut out, self.tls);
        text::push_text(&mut out, ", tls_ca_file: ");
        push_path(&mut out, &self.tls_ca_file);
        text::push_text(&mut out, ", timeout: ");
        text::push_text(&mut out, duration::debug(&self.timeout).as_str());
        text::push_text(&mut out, ", precision: ");
        push_precision(&mut out, self.precision);
        text::push_text(&mut out, ", transport: ");
        text::push_text(&mut out, transport_str(self.transport));
        text::push_text(&mut out, ", max_in_flight: ");
        text::push_text(&mut out, number::decimal_usize(self.max_in_flight).as_str());
        text::push_text(&mut out, ", acquire_timeout: ");
        text::push_text(&mut out, duration::debug(&self.acquire_timeout).as_str());
        text::push_text(&mut out, ", batch_max_rows: ");
        text::push_text(&mut out, number::decimal_usize(self.batch_max_rows).as_str());
        text::push_text(&mut out, ", batch_max_bytes: ");
        text::push_text(&mut out, number::decimal_usize(self.batch_max_bytes).as_str());
        text::push_text(&mut out, ", max_response_bytes: ");
        text::push_text(&mut out, number::decimal_usize(self.max_response_bytes).as_str());
        text::push_text(&mut out, ", max_query_rows: ");
        text::push_text(&mut out, number::decimal_usize(self.max_query_rows).as_str());
        text::push_text(&mut out, ", close_timeout: ");
        text::push_text(&mut out, duration::debug(&self.close_timeout).as_str());
        text::push_text(&mut out, ", hosts: [");
        text::push_text(&mut out, list_of(&self.hosts).as_str());
        text::push_text(&mut out, "], write_max_attempts: ");
        text::push_text(&mut out, number::decimal_u64(self.write_max_attempts as u64).as_str());
        text::push_text(&mut out, " }");
        out
    }
}

/// The text of a configuration is the same whatever the password: nothing of it can be read there.
pub proof fn law_text_hides_the_password(config: ConfigView, password: Seq<char>)
    ensures
        (ConfigView { password, ..config }).rendered() == config.rendered(),
{
}

/// The name of a setting stands in a text with the value behind it, and with what ends it.
pub open spec fn tells(text: Seq<char>, name: Seq<char>, value: Seq<char>, end: char) -> bool {
    text::holds(text, seq![' '] + name + ": "@ + value + seq![end])
}

/// The text tells each setting under its name.
pub proof fn law_text_tells_each_setting(c: ConfigView)
    ensures
        tells(c.rendered(), "host"@, quoted_text(c.host), ','),
        tells(c.rendered(), "port"@, number::decimal(c.port as int), ','),
        tells(c.rendered(), "database"@, quoted_text(c.database), ','),
        tells(c.rendered(), "user"@, quoted_text(c.user), ','),
        tells(c.rendered(), "tls"@, bool_text(c.tls), ','),
        tells(c.rendered(), "tls_ca_file"@, optional_path_text(c.tls_ca_file), ','),
        tells(c.rendered(), "timeout"@, duration::debug_text(c.timeout), ','),
        tells(c.rendered(), "precision"@, optional_precision_text(c.precision), ','),
        tells(c.rendered(), "transport"@, transport_text(c.transport), ','),
        tells(c.rendered(), "max_in_flight"@, number::decimal(c.max_in_flight as int), ','),
        tells(c.rendered(), "acquire_timeout"@, duration::debug_text(c.acquire_timeout), ','),
        tells(c.rendered(), "batch_max_rows"@, number::decimal(c.batch_max_rows as int), ','),
        tells(c.rendered(), "batch_max_bytes"@, number::decimal(c.batch_max_bytes as int), ','),
        tells(
            c.rendered(),
            "max_response_bytes"@,
            number::decimal(c.max_response_bytes as int),
            ',',
        ),
        tells(c.rendered(), "max_query_rows"@, number::decimal(c.max_query_rows as int), ','),
        tells(c.rendered(), "close_timeout"@, duration::debug_text(c.close_timeout), ','),
        text::holds(c.rendered(), " hosts: ["@ + list_text(c.hosts) + "]"@),
        tells(
            c.rendered(),
            "write_max_attempts"@,
            number::decimal(c.write_max_attempts as int),
            ' ',
        ),
{
    let p = pieces(c);
    assert(c.rendered() == text::concat(p)) by {
        lemma_pieces(c);
    }
    assert(tells(c.rendered(), "host"@, quoted_text(c.host), ',')) by {
        reveal_strlit("TaosConfig { host: ");
        reveal_strlit(", port: ");
        reveal_strlit("host");
        reveal_strlit(": ");
        text::lemma_piece_between(p, 0, seq![' '] + "host"@ + ": "@, seq![',']);
    }
    assert(tells(c.rendered(), "port"@, number::decimal(c.port as int), ',')) by {
        reveal_strlit(", port: ");
        reveal_strlit(", database: ");
        reveal_strlit("port");
        reveal_strlit(": ");
        text::lemma_piece_between(p, 2, seq![' '] + "port"@ + ": "@, seq![',']);
    }
    assert(tells(c.rendered(), "database"@, quoted_text(c.database), ',')) by {
        reveal_strlit(", database: ");
        reveal_strlit(", user: ");
        reveal_strlit("database");
        reveal_strlit(": ");
        text::lemma_piece_between(p, 4, seq![' '] + "database"@ + ": "@, seq![',']);
    }
    assert(tells(c.rendered(), "user"@, quoted_text(c.user), ',')) by {
        reveal_strlit(", user: ");
        reveal_strlit(", password: \"***\", tls: ");
        reveal_strlit("user");
        reveal_strlit(": ");
        text::lemma_piece_between(p, 6, seq![' '] + "user"@ + ": "@, seq![',']);
    }
    assert(tells(c.rendered(), "tls"@, bool_text(c.tls), ',')) by {
        reveal_strlit(", password: \"***\", tls: ");
        reveal_strlit(", tls_ca_file: ");
        reveal_strlit("tls");
        reveal_strlit(": ");
        text::lemma_piece_between(p, 8, seq![' '] + "tls"@ + ": "@, seq![',']);
    }
    assert(tells(c.rendered(), "tls_ca_file"@, optional_path_text(c.tls_ca_file), ',')) by {
        reveal_strlit(", tls_ca_file: ");
        reveal_strlit(", timeout: ");
        reveal_strlit("tls_ca_file");
        reveal_strlit(": ");
        text::lemma_piece_between(p, 10, seq![' '] + "tls_ca_file"@ + ": "@, seq![',']);
    }
    assert(tells(c.rendered(), "timeout"@, duration::debug_text(c.timeout), ',')) by {
        reveal_strlit(", timeout: ");
        reveal_strlit(", precision: ");
        reveal_strlit("timeout");
        reveal_strlit(": ");
        text::lemma_piece_between(p, 12, seq![' '] + "timeout"@ + ": "@, seq![',']);
    }
    assert(tells(c.rendered(), "precision"@, optional_precision_text(c.precision), ',')) by {
        reveal_strlit(", precision: ");
        reveal_strlit(", transport: ");
        reveal_strlit("precision");
        reveal_strlit(": ");
        text::lemma_piece_between(p, 14, seq![' '] + "precision"@ + ": "@, seq![',']);
    }
    assert(tells(c.rendered(), "transport"@, transport_text(c.transport), ',')) by {
        reveal_strlit(", transport: ");
        reveal_strlit(", max_in_flight: ");
        reveal_strlit("transport");
        reveal_strlit(": ");
        text::lemma_piece_between(p, 16, seq![' '] + "transport"@ + ": "@, seq![',']);
    }
    assert(tells(c.rendered(), "max_in_flight"@, number::decimal(c.max_in_flight as int), ',')) by {
        reveal_strlit(", max_in_flight: ");
        reveal_strlit(", acquire_timeout: ");
        reveal_strlit("max_in_flight");
        reveal_strlit(": ");
        text::lemma_piece_between(p, 18, seq![' '] + "max_in_flight"@ + ": "@, seq![',']);
    }
    assert(tells(
        c.rendered(),
        "acquire_timeout"@,
        duration::debug_text(c.acquire_timeout),
        ',',
    )) by {
        reveal_strlit(", acquire_timeout: ");
        reveal_strlit(", batch_max_rows: ");
        reveal_strlit("acquire_timeout");
        reveal_strlit(": ");
        text::lemma_piece_between(p, 20, seq![' '] + "acquire_timeout"@ + ": "@, seq![',']);
    }
    assert(tells(
        c.rendered(),
        "batch_max_rows"@,
        number::decimal(c.batch_max_rows as int),
        ',',
    )) by {
        reveal_strlit(", batch_max_rows: ");
        reveal_strlit(", batch_max_bytes: ");
        reveal_strlit("batch_max_rows");
        reveal_strlit(": ");
        text::lemma_piece_between(p, 22, seq![' '] + "batch_max_rows"@ + ": "@, seq![',']);
    }
    assert(tells(
        c.rendered(),
        "batch_max_bytes"@,
        number::decimal(c.batch_max_bytes as int),
        ',',
    )) by {
        reveal_strlit(", batch_max_bytes: ");
        reveal_strlit(", max_response_bytes: ");
        reveal_strlit("batch_max_bytes");
        reveal_strlit(": ");
        text::lemma_piece_between(p, 24, seq![' '] + "batch_max_bytes"@ + ": "@, seq![',']);
    }
    assert(tells(
        c.rendered(),
        "max_response_bytes"@,
        number::decimal(c.max_response_bytes as int),
        ',',
    )) by {
        reveal_strlit(", max_response_bytes: ");
        reveal_strlit(", max_query_rows: ");
        reveal_strlit("max_response_bytes");
        reveal_strlit(": ");
        text::lemma_piece_between(p, 26, seq![' '] + "max_response_bytes"@ + ": "@, seq![',']);
    }
    assert(tells(
        c.rendered(),
        "max_query_rows"@,
        number::decimal(c.max_query_rows as int),
        ',',
    )) by {
        reveal_strlit(", max_query_rows: ");
        reveal_strlit(", close_timeout: ");
        reveal_strlit("max_query_rows");
        reveal_strlit(": ");
        text::lemma_piece_between(p, 28, seq![' '] + "max_query_rows"@ + ": "@, seq![',']);
    }
    assert(tells(c.rendered(), "close_timeout"@, duration::debug_text(c.close_timeout), ',')) by {
        reveal_strlit(", close_timeout: ");
        reveal_strlit(", hosts: [");
        reveal_strlit("close_timeout");
        reveal_strlit(": ");
        text::lemma_piece_between(p, 30, seq![' '] + "close_timeout"@ + ": "@, seq![',']);
    }
    assert(text::holds(c.rendered(), " hosts: ["@ + list_text(c.hosts) + "]"@)) by {
        reveal_strlit(", hosts: [");
        reveal_strlit("], write_max_attempts: ");
        reveal_strlit(" hosts: [");
        reveal_strlit("]");
        text::lemma_piece_between(p, 32, " hosts: ["@, "]"@);
    }
    assert(tells(
        c.rendered(),
        "write_max_attempts"@,
        number::decimal(c.write_max_attempts as int),
        ' ',
    )) by {
        reveal_strlit("], write_max_attempts: ");
        reveal_strlit(" }");
        reveal_strlit("write_max_attempts");
        reveal_strlit(": ");
        text::lemma_piece_between(p, 34, seq![' '] + "write_max_attempts"@ + ": "@, seq![' ']);
    }
}

/// The names and the values, in their order.
spec fn pieces(c: ConfigView) -> Seq<Seq<char>> {
    seq![
        "TaosConfig { host: "@,
        quoted_text(c.host),
        ", port: "@,
        number::decimal(c.port as int),
        ", database: "@,
        quoted_text(c.database),
        ", user: "@,
        quoted_text(c.user),
        ", password: \"***\", tls: "@,
        bool_text(c.tls),
        ", tls_ca_file: "@,
        optional_path_text(c.tls_ca_file),
        ", timeout: "@,
        duration::debug_text(c.timeout),
        ", precision: "@,
        optional_precision_text(c.precision),
        ", transport: "@,
        transport_text(c.transport),
        ", max_in_flight: "@,
        number::decimal(c.max_in_flight as int),
        ", acquire_timeout: "@,
        duration::debug_text(c.acquire_timeout),
        ", batch_max_rows: "@,
        number::decimal(c.batch_max_rows as int),
        ", batch_max_bytes: "@,
        number::decimal(c.batch_max_bytes as int),
        ", max_response_bytes: "@,
        number::decimal(c.max_response_bytes as int),
        ", max_query_rows: "@,
        number::decimal(c.max_query_rows as int),
        ", close_timeout: "@,
        duration::debug_text(c.close_timeout),
        ", hosts: ["@,
        list_text(c.hosts),
        "], write_max_attempts: "@,
        number::decimal(c.write_max_attempts as int),
        " }"@,
    ]
}

proof fn lemma_pieces(c: ConfigView)
    ensures
        c.rendered() == text::concat(pieces(c)),
{
    let p = pieces(c);
    let t1 = seq![p[0]];
    assert(text::concat(t1) == p[0]);
    let t2 = t1.push(p[1]);
    assert(t2.drop_last() =~= t1);
    assert(text::concat(t2) == text::concat(t1) + p[1]);
    let t3 = t2.push(p[2]);
    assert(t3.drop_last() =~= t2);
    assert(text::concat(t3) == text::concat(t2) + p[2]);
    let t4 = t3.push(p[3]);
    assert(t4.drop_last() =~= t3);
    assert(text::concat(t4) == text::concat(t3) + p[3]);
    let t5 = t4.push(p[4]);
    assert(t5.drop_last() =~= t4);
    assert(text::concat(t5) == text::concat(t4) + p[4]);
    let t6 = t5.push(p[5]);
    assert(t6.drop_last() =~= t5);
    assert(text::concat(t6) == text::concat(t5) + p[5]);
    let t7 = t6.push(p[6]);
    assert(t7.drop_last() =~= t6);
    assert(text::concat(t7) == text::concat(t6) + p[6]);
    let t8 = t7.push(p[7]);
    assert(t8.drop_last() =~= t7);
    assert(text::concat(t8) == text::concat(t7) + p[7]);
    let t9 = t8.push(p[8]);
    assert(t9.drop_last() =~= t8);
    assert(text::concat(t9) == text::concat(t8) + p[8]);
    let t10 = t9.push(p[9]);
    assert(t10.drop_last() =~= t9);
    assert(text::concat(t10) == text::concat(t9) + p[9]);
    let t11 = t10.push(p[10]);
    assert(t11.drop_last() =~= t10);
    assert(text::concat(t11) == text::concat(t10) + p[10]);
    let t12 = t11.push(p[11]);
    assert(t12.drop_last() =~= t11);
    assert(text::concat(t12) == text::concat(t11) + p[11]);
    let t13 = t12.push(p[12]);
    assert(t13.drop_last() =~= t12);
    assert(text::concat(t13) == text::concat(t12) + p[12]);
    let t14 = t13.push(p[13]);
    assert(t14.drop_last() =~= t13);
    assert(text::concat(t14) == text::concat(t13) + p[13]);
    let t15 = t14.push(p[14]);
    assert(t15.drop_last() =~= t14);
    assert(text::concat(t15) == text::concat(t14) + p[14]);
    let t16 = t15.push(p[15]);
    assert(t16.drop_last() =~= t15);
    assert(text::concat(t16) == text::concat(t15) + p[15]);
    let t17 = t16.push(p[16]);
    assert(t17.drop_last() =~= t16);
    assert(text::concat(t17) == text::concat(t16) + p[16]);
    let t18 = t17.push(p[17]);
    assert(t18.drop_last() =~= t17);
    assert(text::concat(t18) == text::concat(t17) + p[17]);
    let t19 = t18.push(p[18]);
    assert(t19.drop_last() =~= t18);
    assert(text::concat(t19) == text::concat(t18) + p[18]);
    let t20 = t19.push(p[19]);
    assert(t20.drop_last() =~= t19);
    assert(text::concat(t20) == text::concat(t19) + p[19]);
    let t21 = t20.push(p[20]);
    assert(t21.drop_last() =~= t20);
    assert(text::concat(t21) == text::concat(t20) + p[20]);
    let t22 = t21.push(p[21]);
    assert(t22.drop_last() =~= t21);
    assert(text::concat(t22) == text::concat(t21) + p[21]);
    let t23 = t22.push(p[22]);
    assert(t23.drop_last() =~= t22);
    assert(text::concat(t23) == text::concat(t22) + p[22]);
    let t24 = t23.push(p[23]);
    assert(t24.drop_last() =~= t23);
    assert(text::concat(t24) == text::concat(t23) + p[23]);
    let t25 = t24.push(p[24]);
    assert(t25.drop_last() =~= t24);
    assert(text::concat(t25) == text::concat(t24) + p[24]);
    let t26 = t25.push(p[25]);
    assert(t26.drop_last() =~= t25);
    assert(text::concat(t26) == text::concat(t25) + p[25]);
    let t27 = t26.push(p[26]);
    assert(t27.drop_last() =~= t26);
    assert(text::concat(t27) == text::concat(t26) + p[26]);
    let t28 = t27.push(p[27]);
    assert(t28.drop_last() =~= t27);
    assert(text::concat(t28) == text::concat(t27) + p[27]);
    let t29 = t28.push(p[28]);
    assert(t29.drop_last() =~= t28);
    assert(text::concat(t29) == text::concat(t28) + p[28]);
    let t30 = t29.push(p[29]);
    assert(t30.drop_last() =~= t29);
    assert(text::concat(t30) == text::concat(t29) + p[29]);
    let t31 = t30.push(p[30]);
    assert(t31.drop_last() =~= t30);
    assert(text::concat(t31) == text::concat(t30) + p[30]);
    let t32 = t31.push(p[31]);
    assert(t32.drop_last() =~= t31);
    assert(text::concat(t32) == text::concat(t31) + p[31]);
    let t33 = t32.push(p[32]);
    assert(t33.drop_last() =~= t32);
    assert(text::concat(t33) == text::concat(t32) + p[32]);
    let t34 = t33.push(p[33]);
    assert(t34.drop_last() =~= t33);
    assert(text::concat(t34) == text::concat(t33) + p[33]);
    let t35 = t34.push(p[34]);
    assert(t35.drop_last() =~= t34);
    assert(text::concat(t35) == text::concat(t34) + p[34]);
    let t36 = t35.push(p[35]);
    assert(t36.drop_last() =~= t35);
    assert(text::concat(t36) == text::concat(t35) + p[35]);
    let t37 = t36.push(p[36]);
    assert(t37.drop_last() =~= t36);
    assert(text::concat(t37) == text::concat(t36) + p[36]);
    assert(t37 =~= p);
}

/// The words for a truth value, a precision and a transport mode are read back as what they stand
/// for, and one that is not given is told from all that are.
pub proof fn law_words_read_back(b: bool, precision: TsPrecision, mode: TransportMode)
    ensures
        super::parse::bool_reading(Some(bool_text(b))) == super::parse::Reading::Value(b),
        TsPrecision::named(precision_text(precision)) == Some(precision),
        TransportMode::named(transport_text(mode)) == Some(mode),
        optional_precision_text(Some(precision)) == "Some("@ + precision_text(precision) + ")"@,
        optional_precision_text(None) == "None"@,
{
    reveal_strlit("true");
    reveal_strlit("false");
    reveal_strlit("Ms");
    reveal_strlit("Us");
    reveal_strlit("Ns");
    reveal_strlit("Rest");
    reveal_strlit("NativeWs");
    reveal_strlit("rest");
    reveal_strlit("nativews");
    assert(text::trimmed(bool_text(b)) == bool_text(b));
    assert(text::lowered("true"@) =~= "true"@);
    assert(text::lowered("false"@) =~= "false"@);
    super::parse::law_truth_words(bool_text(b));
    assert(text::trimmed(precision_text(precision)) == precision_text(precision));
    assert(text::lowered("Ms"@) =~= seq!['m', 's']);
    assert(text::lowered("Us"@) =~= seq!['u', 's']);
    assert(text::lowered("Ns"@) =~= seq!['n', 's']);
    super::enums::law_names_are_words(precision_text(precision));
    assert(text::trimmed(transport_text(mode)) == transport_text(mode));
    assert(text::lowered("Rest"@) =~= "rest"@);
    assert(text::lowered("NativeWs"@) =~= "nativews"@);
    super::enums::law_names_are_words(transport_text(mode));
}

/// A list is told in its order: with one more at the end, its text goes on with a comma, a blank and
/// that one.
pub proof fn law_lists_are_told_in_order(list: Seq<Seq<char>>, one: Seq<char>)
    ensures
        list_text(Seq::empty()).len() == 0,
        list_text(seq![one]) == quoted_text(one),
        list.len() > 0 ==> list_text(list.push(one)) == list_text(list) + seq![',', ' ']
            + quoted_text(one),
{
    reveal_strlit(", ");
    assert(", "@ =~= seq![',', ' ']);
    assert(list.push(one).drop_last() =~= list);
}

} // verus!
