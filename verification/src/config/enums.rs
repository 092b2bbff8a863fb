//! Time-stamp precision and transport mode.

use vstd::prelude::*;

use crate::text;

verus! {

/// The precision of a database's time stamps. A point's own time stamp is always in
/// nanoseconds and is converted when it is written.
#[derive(Debug, Clone, Copy, PartialEq, Eq, Structural)]
pub enum TsPrecision {
    /// Milliseconds, TDengine's default.
    Ms,
    /// Microseconds.
    Us,
    /// Nanoseconds.
    Ns,
}

/// Division that rounds toward zero.
pub open spec fn toward_zero(n: int, unit: int) -> int {
    if n >= 0 {
        n / unit
    } else {
        -((-n) / unit)
    }
}

/// The nearest value that a 64-bit signed integer can hold.
pub open spec fn saturated(n: int) -> int {
    if n > i64::MAX {
        i64::MAX as int
    } else if n < i64::MIN {
        i64::MIN as int
    } else {
        n
    }
}

impl TsPrecision {
    /// The name of the precision.
    pub open spec fn name(self) -> Seq<char> {
        match self {
            TsPrecision::Ms => "ms"@,
            TsPrecision::Us => "us"@,
            TsPrecision::Ns => "ns"@,
        }
    }

    /// How many nanoseconds one unit is.
    pub open spec fn unit(self) -> int {
        match self {
            TsPrecision::Ms => 1_000_000,
            TsPrecision::Us => 1_000,
            TsPrecision::Ns => 1,
        }
    }

    /// A time in nanoseconds in this unit, rounded toward zero.
    pub open spec fn stored(self, nanos: int) -> int {
        toward_zero(nanos, self.unit())
    }

    /// The first time in this unit that is not before a time in nanoseconds.
    pub open spec fn at_or_after(self, nanos: int) -> int {
        -((-nanos) / self.unit())
    }

    /// The last time in this unit that is not after a time in nanoseconds.
    pub open spec fn at_or_before(self, nanos: int) -> int {
        nanos / self.unit()
    }

    /// A time in this unit in nanoseconds, held to the range of `i64`.
    pub open spec fn nanos(self, stored: int) -> int {
        saturated(
            match self {
                TsPrecision::Ms => stored * 1_000_000,
                TsPrecision::Us => stored * 1_000,
                TsPrecision::Ns => stored,
            },
        )
    }

    /// The precision that a text names: case and surrounding white space do not matter.
    pub open spec fn named(text: Seq<char>) -> Option<TsPrecision> {
        let word = text::lowered(text::trimmed(text));
        if word == "ms"@ {
            Some(TsPrecision::Ms)
        } else if word == "us"@ {
            Some(TsPrecision::Us)
        } else if word == "ns"@ {
            Some(TsPrecision::Ns)
        } else {
            None
        }
    }

    /// Reads `ms`, `us` or `ns`; case and surrounding white space do not matter.
    #[must_use]
    pub fn parse(text: &str) -> (r: Option<Self>)
        ensures
            r == Self::named(text@),
    {
        let trimmed = text::trim(text);
        let word = text::lowercase(trimmed.as_str());
        if text::same(word.as_str(), "ms") {
            Some(TsPrecision::Ms)
        } else if text::same(word.as_str(), "us") {
            Some(TsPrecision::Us)
        } else if text::same(word.as_str(), "ns") {
            Some(TsPrecision::Ns)
        } else {
            None
        }
    }

    /// The name of the precision, as TDengine's `PRECISION` writes it.
    #[must_use]
    pub fn as_str(self) -> (r: &'static str)
        ensures
            r@ == self.name(),
    {
        match self {
            TsPrecision::Ms => "ms",
            TsPrecision::Us => "us",
            TsPrecision::Ns => "ns",
        }
    }

    /// Nanoseconds in this unit, rounded toward zero. Whether anything was lost is not checked
    /// here: building an `INSERT` is what refuses a time stamp that does not fit its unit.
    #[must_use]
    pub fn from_nanos(self, timestamp_ns: i64) -> (r: i64)
        ensures
            r == self.stored(timestamp_ns as int),
    {
        match self {
            TsPrecision::Ns => timestamp_ns,
            TsPrecision::Us => divide(timestamp_ns, 1_000),
            TsPrecision::Ms => divide(timestamp_ns, 1_000_000),
        }
    }

    /// The first time in this unit that is not before a time in nanoseconds.
    #[must_use]
    pub fn from_nanos_up(self, timestamp_ns: i64) -> (r: i64)
        ensures
            r == self.at_or_after(timestamp_ns as int),
    {
        match self {
            TsPrecision::Ns => timestamp_ns,
            TsPrecision::Us => divide_up(timestamp_ns, 1_000),
            TsPrecision::Ms => divide_up(timestamp_ns, 1_000_000),
        }
    }

    /// The last time in this unit that is not after a time in nanoseconds.
    #[must_use]
    pub fn from_nanos_down(self, timestamp_ns: i64) -> (r: i64)
        ensures
            r == self.at_or_before(timestamp_ns as int),
    {
        match self {
            TsPrecision::Ns => timestamp_ns,
            TsPrecision::Us => divide_down(timestamp_ns, 1_000),
            TsPrecision::Ms => divide_down(timestamp_ns, 1_000_000),
        }
    }

    /// A time in this unit in nanoseconds, held to the range of `i64`.
    #[must_use]
    pub fn to_nanos(self, timestamp: i64) -> (r: i64)
        ensures
            r == self.nanos(timestamp as int),
    {
        match self {
            TsPrecision::Ns => timestamp,
            TsPrecision::Us => multiply(timestamp, 1_000),
            TsPrecision::Ms => multiply(timestamp, 1_000_000),
        }
    }
}

impl Default for TsPrecision {
    fn default() -> (r: Self)
        ensures
            r == TsPrecision::Ms,
    {
        TsPrecision::Ms
    }
}

/// `n / unit`, rounded toward zero.
pub(crate) fn divide(n: i64, unit: u64) -> (r: i64)
    requires
        1 < unit,
    ensures
        r == toward_zero(n as int, unit as int),
{
    if n >= 0 {
        let q: u64 = n as u64 / unit;
        q as i64
    } else {
        let magnitude: u64 = if n == i64::MIN {
            0x8000_0000_0000_0000u64
        } else {
            (-n) as u64
        };
        let q: u64 = magnitude / unit;
        assert(q < 0x8000_0000_0000_0000u64) by (nonlinear_arith)
            requires
                q == magnitude / unit,
                unit > 1,
                magnitude <= 0x8000_0000_0000_0000u64,
        ;
        -(q as i64)
    }
}

/// `n / unit`, rounded up.
fn divide_up(n: i64, unit: u64) -> (r: i64)
    requires
        1 < unit,
    ensures
        r == -((-n) / (unit as int)),
{
    if n > 0 {
        let q: u64 = (n - 1) as u64 / unit;
        proof {
            lemma_next_multiple(n - 1, unit as int);
        }
        assert(q <= n - 1) by (nonlinear_arith)
            requires
                q == (n - 1) as u64 / unit,
                unit > 1,
                n > 0,
        ;
        q as i64 + 1
    } else {
        divide(n, unit)
    }
}

/// `n / unit`, rounded down.
fn divide_down(n: i64, unit: u64) -> (r: i64)
    requires
        1 < unit,
    ensures
        r == (n as int) / (unit as int),
{
    if n >= 0 {
        divide(n, unit)
    } else {
        let m: i64 = -1 - n;
        let q: u64 = m as u64 / unit;
        proof {
            lemma_next_multiple(m as int, unit as int);
        }
        assert(q <= m) by (nonlinear_arith)
            requires
                q == m as u64 / unit,
                unit > 1,
                m >= 0,
        ;
        -1 - q as i64
    }
}

proof fn lemma_next_multiple(m: int, unit: int)
    requires
        0 < unit,
    ensures
        (-1 - m) / unit == -1 - m / unit,
{
    let q = m / unit;
    let rest = m % unit;
    vstd::arithmetic::div_mod::lemma_fundamental_div_mod(m, unit);
    assert(-1 - m == (-1 - q) * unit + (unit - 1 - rest)) by (nonlinear_arith)
        requires
            m == unit * q + rest,
    ;
    vstd::arithmetic::div_mod::lemma_fundamental_div_mod_converse(
        -1 - m,
        unit,
        -1 - q,
        unit - 1 - rest,
    );
}

/// `n * unit`, held to the range of `i64`.
pub(crate) fn multiply(n: i64, unit: u32) -> (r: i64)
    ensures
        r == saturated(n * unit),
{
    let bound: i128 = 0x8000_0000_0000_0000i128;
    assert(-0x8000_0000_0000_0000_0000_0000i128 <= n * unit
        <= 0x8000_0000_0000_0000_0000_0000i128) by (nonlinear_arith)
        requires
            i64::MIN <= n <= i64::MAX,
            0 <= unit <= u32::MAX,
    ;
    let product: i128 = n as i128 * unit as i128;
    if product >= bound {
        i64::MAX
    } else if product < -bound {
        i64::MIN
    } else {
        product as i64
    }
}

/// How SQL travels: over HTTP or over a WebSocket.
#[derive(Debug, Clone, Copy, PartialEq, Eq, Structural)]
pub enum TransportMode {
    /// HTTP (`/rest/sql`).
    Rest,
    /// WebSocket (`/rest/ws`).
    NativeWs,
}

impl TransportMode {
    /// The name of the mode.
    pub open spec fn name(self) -> Seq<char> {
        match self {
            TransportMode::Rest => "rest"@,
            TransportMode::NativeWs => "nativews"@,
        }
    }

    /// The mode that a text names: case and surrounding white space do not matter.
    pub open spec fn named(text: Seq<char>) -> Option<TransportMode> {
        let word = text::lowered(text::trimmed(text));
        if word == "rest"@ || word == "http"@ {
            Some(TransportMode::Rest)
        } else if word == "native"@ || word == "ws"@ || word == "nativews"@ || word
            == "native_ws"@ || word == "native-ws"@ {
            Some(TransportMode::NativeWs)
        } else {
            None
        }
    }

    /// Reads `rest`, `http`, `native`, `ws`, `nativews`, `native_ws` or `native-ws`; case and
    /// surrounding white space do not matter.
    #[must_use]
    pub fn parse(text: &str) -> (r: Option<Self>)
        ensures
            r == Self::named(text@),
    {
        let trimmed = text::trim(text);
        let word = text::lowercase(trimmed.as_str());
        let w = word.as_str();
        if text::same(w, "rest") || text::same(w, "http") {
            Some(TransportMode::Rest)
        } else if text::same(w, "native") || text::same(w, "ws") || text::same(w, "nativews")
            || text::same(w, "native_ws") || text::same(w, "native-ws") {
            Some(TransportMode::NativeWs)
        } else {
            None
        }
    }

    /// The name of the mode.
    #[must_use]
    pub fn as_str(self) -> (r: &'static str)
        ensures
            r@ == self.name(),
    {
        match self {
            TransportMode::Rest => "rest",
            TransportMode::NativeWs => "nativews",
        }
    }
}

impl Default for TransportMode {
    fn default() -> (r: Self)
        ensures
            r == TransportMode::Rest,
    {
        TransportMode::Rest
    }
}

// ---------------------------------------------------------------------------
// Laws
// ---------------------------------------------------------------------------

/// A word in lower case with no white space at its ends is read as itself.
proof fn lemma_word_is_plain(word: Seq<char>)
    requires
        forall|i: int| 0 <= i < word.len() ==> 'a' <= #[trigger] word[i] <= 'z',
    ensures
        text::lowered(text::trimmed(word)) == word,
{
    assert(text::trimmed(word) == word);
    assert(text::lowered(word) =~= word);
}

/// Reading the name of a precision gives the precision.
pub proof fn law_precision_name_reads_back(precision: TsPrecision)
    ensures
        TsPrecision::named(precision.name()) == Some(precision),
{
    reveal_strlit("ms");
    reveal_strlit("us");
    reveal_strlit("ns");
    lemma_word_is_plain(precision.name());
    assert("ms"@[0] != "us"@[0]);
    assert("ms"@[0] != "ns"@[0]);
    assert("us"@[0] != "ns"@[0]);
}

/// Reading the name of a transport mode gives the mode.
pub proof fn law_transport_name_reads_back(mode: TransportMode)
    ensures
        TransportMode::named(mode.name()) == Some(mode),
{
    reveal_strlit("rest");
    reveal_strlit("http");
    reveal_strlit("nativews");
    lemma_word_is_plain(mode.name());
    assert("nativews"@[0] != "rest"@[0]);
    assert("nativews"@[0] != "http"@[0]);
}

/// A stored time that `i64` can hold in nanoseconds is stored as itself again.
pub proof fn law_stored_time_survives(precision: TsPrecision, stored: int)
    requires
        i64::MIN <= stored * precision.unit() <= i64::MAX,
    ensures
        precision.stored(precision.nanos(stored)) == stored,
{
    let unit = precision.unit();
    let n = stored * unit;
    if stored >= 0 {
        assert((stored * unit) / unit == stored) by (nonlinear_arith)
            requires
                unit > 0,
        ;
        assert(n >= 0) by (nonlinear_arith)
            requires
                n == stored * unit,
                stored >= 0,
                unit > 0,
        ;
    } else {
        assert((-stored * unit) / unit == -stored) by (nonlinear_arith)
            requires
                unit > 0,
        ;
        assert(-n == -stored * unit && n < 0) by (nonlinear_arith)
            requires
                n == stored * unit,
                stored < 0,
                unit > 0,
        ;
    }
}

/// Rounding a time to a precision loses nothing exactly when the time is a multiple of the unit.
pub proof fn law_lossless_iff_multiple(precision: TsPrecision, nanos: int)
    requires
        i64::MIN <= nanos <= i64::MAX,
    ensures
        (precision.nanos(precision.stored(nanos)) == nanos) == (nanos % precision.unit() == 0),
{
    let unit = precision.unit();
    let q = precision.stored(nanos);
    if nanos >= 0 {
        vstd::arithmetic::div_mod::lemma_fundamental_div_mod(nanos, unit);
        assert(unit * q == q * unit) by (nonlinear_arith);
        assert(q * unit <= nanos);
        assert(0 <= q * unit) by (nonlinear_arith)
            requires
                q >= 0,
                unit > 0,
        ;
    } else {
        let m = -nanos;
        vstd::arithmetic::div_mod::lemma_fundamental_div_mod(m, unit);
        vstd::arithmetic::div_mod::lemma_fundamental_div_mod(nanos, unit);
        let k = m / unit;
        assert(q * unit == -(unit * k)) by (nonlinear_arith)
            requires
                q == -k,
        ;
        assert(unit * k >= 0) by (nonlinear_arith)
            requires
                k >= 0,
                unit > 0,
        ;
        let d = nanos / unit;
        if m % unit == 0 {
            vstd::arithmetic::div_mod::lemma_mod_multiples_basic(-k, unit);
            assert(nanos == -k * unit) by (nonlinear_arith)
                requires
                    nanos == -(unit * k),
            ;
        }
        if nanos % unit == 0 {
            vstd::arithmetic::div_mod::lemma_mod_multiples_basic(-d, unit);
            assert(m == -d * unit) by (nonlinear_arith)
                requires
                    m == -(unit * d),
            ;
        }
    }
}

/// A millisecond is a thousand microseconds, a microsecond a thousand nanoseconds, and a second a
/// thousand milliseconds.
pub proof fn law_units(precision: TsPrecision)
    ensures
        TsPrecision::Ns.unit() == 1,
        TsPrecision::Us.unit() == 1_000 * TsPrecision::Ns.unit(),
        TsPrecision::Ms.unit() == 1_000 * TsPrecision::Us.unit(),
        1_000 * TsPrecision::Ms.unit() == 1_000_000_000,
        precision.unit() > 0,
{
}

/// A time in nanoseconds is a whole number of units at least: what is stored is as far from zero as
/// it can be without going beyond the time, and on the same side.
pub proof fn law_storing_rounds_toward_zero(precision: TsPrecision, nanos: int)
    ensures
        nanos >= 0 ==> 0 <= precision.stored(nanos) * precision.unit() <= nanos && nanos < (
        precision.stored(nanos) + 1) * precision.unit(),
        nanos < 0 ==> nanos <= precision.stored(nanos) * precision.unit() <= 0 && (
        precision.stored(nanos) - 1) * precision.unit() < nanos,
{
    let unit = precision.unit();
    let n = if nanos >= 0 {
        nanos
    } else {
        -nanos
    };
    let q = n / unit;
    vstd::arithmetic::div_mod::lemma_fundamental_div_mod(n, unit);
    assert(0 <= unit * q) by (nonlinear_arith)
        requires
            q >= 0,
            unit > 0,
    ;
    assert(q * unit == unit * q) by (nonlinear_arith);
    assert((q + 1) * unit == unit * q + unit) by (nonlinear_arith);
    assert((-q) * unit == -(unit * q)) by (nonlinear_arith);
    assert((-q - 1) * unit == -(unit * q) - unit) by (nonlinear_arith);
}

/// Back in nanoseconds a stored time is that many units, and the nearest end of the range of `i64`
/// where it is beyond it.
pub proof fn law_nanoseconds_are_held_to_the_range(precision: TsPrecision, stored: int)
    ensures
        ({
            let n = stored * precision.unit();
            &&& i64::MIN <= n <= i64::MAX ==> precision.nanos(stored) == n
            &&& n > i64::MAX ==> precision.nanos(stored) == 9_223_372_036_854_775_807
            &&& n < i64::MIN ==> precision.nanos(stored) == -9_223_372_036_854_775_808
        }),
{
}

/// A precision has one name and a transport mode a few, in any case and with any white space around
/// them; nothing else names one.
pub proof fn law_names_are_words(text: Seq<char>)
    ensures
        ({
            let word = text::lowered(text::trimmed(text));
            &&& TsPrecision::named(text) == Some(TsPrecision::Ms) <==> word == seq!['m', 's']
            &&& TsPrecision::named(text) == Some(TsPrecision::Us) <==> word == seq!['u', 's']
            &&& TsPrecision::named(text) == Some(TsPrecision::Ns) <==> word == seq!['n', 's']
            &&& TransportMode::named(text) == Some(TransportMode::Rest) <==> (word == "rest"@
                || word == "http"@)
            &&& TransportMode::named(text) == Some(TransportMode::NativeWs) <==> (word
                == "native"@ || word == "ws"@ || word == "nativews"@ || word == "native_ws"@ || word
                == "native-ws"@)
        }),
{
    reveal_strlit("ms");
    reveal_strlit("us");
    reveal_strlit("ns");
    reveal_strlit("rest");
    reveal_strlit("http");
    reveal_strlit("native");
    reveal_strlit("ws");
    reveal_strlit("nativews");
    reveal_strlit("native_ws");
    reveal_strlit("native-ws");
    assert("ms"@ =~= seq!['m', 's']);
    assert("us"@ =~= seq!['u', 's']);
    assert("ns"@ =~= seq!['n', 's']);
    assert("ms"@[0] != "us"@[0] && "ms"@[0] != "ns"@[0] && "us"@[0] != "ns"@[0]);
    assert("rest"@[0] == 'r' && "http"@[0] == 'h' && "native"@[0] == 'n' && "ws"@[0] == 'w'
        && "nativews"@[0] == 'n' && "native_ws"@[0] == 'n' && "native-ws"@[0] == 'n');
}

} // verus!
