//! The points of a query, one at a time.
//!
//! A response comes whole, within the limits on rows and bytes, so a stream is not a cursor on the
//! server: its points are there before the first one is read.

use std::collections::VecDeque;
use vstd::prelude::*;

use crate::client::sql;
#[allow(unused_imports)]
use crate::error::TaosError;
use crate::error::TaosResult;
use crate::point;
#[allow(unused_imports)]
use crate::point::PointView;
use crate::point::TaosPoint;

verus! {

/// The points of a query that were not read yet.
#[derive(Debug)]
pub struct TaosQueryStream {
    rows: VecDeque<TaosPoint>,
    chunk_hint: usize,
    done: bool,
}

/// A [`TaosQueryStream`] by its values.
#[verifier::ext_equal]
pub struct StreamView {
    pub rows: Seq<PointView>,
    pub chunk_hint: usize,
    /// The end was reached.
    pub done: bool,
}

impl View for TaosQueryStream {
    type V = StreamView;

    closed spec fn view(&self) -> StreamView {
        StreamView {
            rows: point::views(self.rows@),
            chunk_hint: self.chunk_hint,
            done: self.done,
        }
    }
}

impl StreamView {
    /// The point that is read next.
    pub open spec fn head(self) -> Option<PointView> {
        if !self.done && self.rows.len() > 0 {
            Some(self.rows[0])
        } else {
            None
        }
    }

    /// The stream after one more point was asked for.
    pub open spec fn tail(self) -> StreamView {
        if self.done {
            self
        } else if self.rows.len() > 0 {
            StreamView { rows: self.rows.skip(1), ..self }
        } else {
            StreamView { done: true, ..self }
        }
    }
}

fn queue(rows: Vec<TaosPoint>) -> (r: VecDeque<TaosPoint>)
    ensures
        point::views(r@) == point::views(rows@),
{
    let ghost all = rows@;
    let mut out: VecDeque<TaosPoint> = VecDeque::new();
    for row in iter: rows
        invariant
            iter.seq() == all,
            out@ == all.take(iter.index()),
    {
        out.push_back(row);
        assert(out@ =~= all.take(iter.index() + 1));
    }
    assert(out@ =~= all);
    out
}

impl TaosQueryStream {
    /// A stream of these points.
    #[must_use]
    pub fn from_rows(rows: Vec<TaosPoint>) -> (r: Self)
        ensures
            r@ == (StreamView { rows: point::views(rows@), chunk_hint: 1, done: false }),
    {
        TaosQueryStream { rows: queue(rows), chunk_hint: 1, done: false }
    }

    /// A stream of these points with a hint of how many to fetch at a time, at least one.
    pub fn from_rows_chunked(rows: Vec<TaosPoint>, chunk_hint: usize) -> (r: TaosResult<Self>)
        ensures
            match r {
                Ok(stream) => chunk_hint >= 1 && stream@ == (StreamView {
                    rows: point::views(rows@),
                    chunk_hint,
                    done: false,
                }),
                Err(TaosError::Invalid(m)) => chunk_hint == 0 && m@ == "chunk_hint 必须 ≥ 1"@,
                Err(_) => false,
            },
    {
        match sql::validate_chunk_hint(chunk_hint) {
            Ok(_) => {},
            Err(e) => {
                return Err(e);
            },
        }
        Ok(TaosQueryStream { rows: queue(rows), chunk_hint, done: false })
    }

    /// How many points are left.
    #[must_use]
    pub fn remaining_hint(&self) -> (r: usize)
        ensures
            r == self@.rows.len(),
    {
        self.rows.len()
    }

    /// How many points to fetch at a time.
    #[must_use]
    pub fn chunk_hint(&self) -> (r: usize)
        ensures
            r == self@.chunk_hint,
    {
        self.chunk_hint
    }

    /// The next point; `None` at the end, and ever after.
    pub fn next_row(&mut self) -> (r: Option<TaosPoint>)
        ensures
            match r {
                Some(p) => old(self)@.head() == Some(p@),
                None => old(self)@.head() is None,
            },
            final(self)@ == old(self)@.tail(),
    {
        if self.done {
            return None;
        }
        let ghost before = self.rows@;
        match self.rows.pop_front() {
            Some(p) => {
                assert(point::views(self.rows@) =~= point::views(before).skip(1));
                Some(p)
            },
            None => {
                self.done = true;
                None
            },
        }
    }
}

// ---------------------------------------------------------------------------
// Laws
// ---------------------------------------------------------------------------

/// The stream after so many points were asked for.
pub open spec fn after_reads(stream: StreamView, n: nat) -> StreamView
    decreases n,
{
    if n == 0 {
        stream
    } else {
        after_reads(stream, (n - 1) as nat).tail()
    }
}

/// A stream gives all its points, in order, and then nothing, for ever.
pub proof fn law_stream_gives_all_then_nothing(stream: StreamView, n: nat)
    requires
        !stream.done,
    ensures
        after_reads(stream, n).head() == (if n < stream.rows.len() {
            Some(stream.rows[n as int])
        } else {
            None
        }),
        n <= stream.rows.len() ==> after_reads(stream, n).rows == stream.rows.skip(n as int),
        n > stream.rows.len() ==> after_reads(stream, n).done,
        n <= stream.rows.len() ==> !after_reads(stream, n).done,
    decreases n,
{
    if n == 0 {
        assert(stream.rows.skip(0) =~= stream.rows);
    } else {
        law_stream_gives_all_then_nothing(stream, (n - 1) as nat);
        let before = after_reads(stream, (n - 1) as nat);
        if n <= stream.rows.len() {
            assert(before.rows.skip(1) =~= stream.rows.skip(n as int));
        }
    }
}

} // verus!
