//! What the library relies on of [`std::time::Duration`].

use std::time::Duration;
use vstd::prelude::*;

verus! {

/// The length of a duration in nanoseconds, as [`Duration::as_nanos`] returns it.
pub uninterp spec fn nanos(d: Duration) -> nat;

/// [`Duration::as_nanos`]: at most those of `u64::MAX` whole seconds and a fraction of one.
pub assume_specification[ Duration::as_nanos ](d: &Duration) -> (r: u128)
    ensures
        r == nanos(*d),
        r < 0x1_0000_0000_0000_0000 * 1_000_000_000,
;

/// [`Duration::new`]: whole seconds and nanoseconds.
pub assume_specification[ Duration::new ](secs: u64, nanos: u32) -> (r: Duration)
    requires
        secs + nanos / 1_000_000_000 <= u64::MAX,
    ensures
        self::nanos(r) == secs * 1_000_000_000 + nanos,
;

/// [`Duration::from_secs`]: a thousand million nanoseconds for each second.
pub assume_specification[ Duration::from_secs ](secs: u64) -> (r: Duration)
    ensures
        nanos(r) == secs * 1_000_000_000,
;

/// [`Duration::from_millis`]: a million nanoseconds for each millisecond.
pub assume_specification[ Duration::from_millis ](millis: u64) -> (r: Duration)
    ensures
        nanos(r) == millis * 1_000_000,
;

/// What `{:.0?}` makes of a duration of so many nanoseconds.
pub uninterp spec fn rounded_text(nanos: nat) -> Seq<char>;

/// `Debug` of [`Duration`] with no digits after the point.
#[verifier::external_body]
pub(crate) fn rounded(d: &Duration) -> (r: String)
    ensures
        r@ == rounded_text(nanos(*d)),
{
    format!("{d:.0?}")
}

/// What `{:?}` makes of a duration of so many nanoseconds.
pub uninterp spec fn debug_text(nanos: nat) -> Seq<char>;

/// `Debug` of [`Duration`].
#[verifier::external_body]
pub(crate) fn debug(d: &Duration) -> (r: String)
    ensures
        r@ == debug_text(nanos(*d)),
{
    format!("{d:?}")
}

} // verus!
