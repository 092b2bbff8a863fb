//! The point that is written and read.

use vstd::prelude::*;

verus! {

/// One row: a time stamp in nanoseconds, a tag value (the `symbol` tag) and two text cells (the
/// `bid` and `ask` columns). The column names are those of existing tables; the point gives them
/// no meaning.
///
/// The time stamp is converted to the precision of the database when the point is written. One
/// that does not fit is refused, not rounded.
#[derive(Debug, PartialEq, Eq)]
pub struct TaosPoint {
    /// Nanoseconds since the epoch.
    pub timestamp_ns: i64,
    /// The value of the `symbol` tag.
    pub tag_value: String,
    /// The two cells.
    pub values: [String; 2],
}

/// A [`TaosPoint`] with texts as sequences of characters.
#[verifier::ext_equal]
pub struct PointView {
    pub timestamp_ns: i64,
    pub tag_value: Seq<char>,
    pub first: Seq<char>,
    pub second: Seq<char>,
}

impl View for TaosPoint {
    type V = PointView;

    open spec fn view(&self) -> PointView {
        PointView {
            timestamp_ns: self.timestamp_ns,
            tag_value: self.tag_value@,
            first: self.values@[0]@,
            second: self.values@[1]@,
        }
    }
}

/// The views of a sequence of points.
pub open spec fn views(points: Seq<TaosPoint>) -> Seq<PointView> {
    points.map_values(|p: TaosPoint| p@)
}

impl TaosPoint {
    /// Makes a point.
    #[must_use]
    pub fn new<T: Into<String>, A: Into<String>, B: Into<String>>(
        tag_value: T,
        timestamp_ns: i64,
        first_value: A,
        second_value: B,
    ) -> (r: Self)
        ensures
            r.timestamp_ns == timestamp_ns,
            call_ensures(<T as Into<String>>::into, (tag_value,), r.tag_value),
            call_ensures(<A as Into<String>>::into, (first_value,), r.values@[0]),
            call_ensures(<B as Into<String>>::into, (second_value,), r.values@[1]),
    {
        TaosPoint {
            timestamp_ns,
            tag_value: tag_value.into(),
            values: [first_value.into(), second_value.into()],
        }
    }
}

impl Clone for TaosPoint {
    fn clone(&self) -> (r: Self)
        ensures
            r@ == self@,
    {
        TaosPoint {
            timestamp_ns: self.timestamp_ns,
            tag_value: self.tag_value.clone(),
            values: [self.values[0].clone(), self.values[1].clone()],
        }
    }
}

} // verus!
