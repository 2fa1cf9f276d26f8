//! What the receiving side works out of each datum.

use vstd::prelude::*;

verus! {

/// A point in time: whole seconds since the Unix epoch, and the milliseconds
/// into that second.
#[derive(Debug, Clone, Copy, PartialEq, Eq, Structural)]
pub struct Timestamp {
    pub secs: i64,
    pub millis: u32,
}

/// What a datum carries.
#[derive(Debug, Clone, Copy, PartialEq, Eq, Structural)]
pub enum DatumType {
    /// A frame of the live stream, sent at this rung of the ladder.
    Live(u64),
    /// Filler that the receiver passes over.
    Dummy,
}

/// One message on the wire.
#[derive(Debug, PartialEq, Eq)]
pub struct Datum {
    pub datum_type: DatumType,
    /// When the sender handed the datum to the transport.
    pub ts: Timestamp,
    /// The frame itself; the receiver does not look into it.
    pub payload: Vec<u8>,
}

/// The milliseconds from `b` to `a`; negative where `a` is the earlier.
pub open spec fn millis_between(a: Timestamp, b: Timestamp) -> int {
    (a.secs - b.secs) * 1000 + (a.millis - b.millis)
}

/// What the receiver records of a datum that arrives at `now`: for a live
/// frame its level and its latency in milliseconds, for any other datum
/// nothing.
pub open spec fn recorded(datum_type: DatumType, ts: Timestamp, now: Timestamp) -> Option<
    (u64, i128),
> {
    match datum_type {
        DatumType::Live(level) => Some((level, millis_between(now, ts) as i128)),
        DatumType::Dummy => None,
    }
}

/// The milliseconds from `b` to `a`.
pub fn time_diff_in_ms(a: Timestamp, b: Timestamp) -> (diff: i128)
    ensures
        diff == millis_between(a, b),
{
    let secs: i128 = a.secs as i128 - b.secs as i128;
    let millis: i128 = a.millis as i128 - b.millis as i128;
    secs * 1000 + millis
}

/// A datum as a value: its kind, its timestamp and the bytes of its payload.
pub struct DatumView {
    pub datum_type: DatumType,
    pub ts: Timestamp,
    pub payload: Seq<u8>,
}

impl View for Datum {
    type V = DatumView;

    open spec fn view(&self) -> DatumView {
        DatumView { datum_type: self.datum_type, ts: self.ts, payload: self.payload@ }
    }
}

impl Clone for Datum {
    fn clone(&self) -> (copy: Self)
        ensures
            copy@ == self@,
    {
        Datum { datum_type: self.datum_type, ts: self.ts, payload: self.payload.clone() }
    }
}

impl Datum {
    /// The kind of the datum.
    pub fn datum_type(&self) -> (t: DatumType)
        ensures
            t == self.datum_type,
    {
        self.datum_type
    }

    /// What the receiver records of this datum when it arrives at `now`.
    pub fn observe(&self, now: Timestamp) -> (r: Option<(u64, i128)>)
        ensures
            r == recorded(self.datum_type, self.ts, now),
    {
        match self.datum_type {
            DatumType::Live(level) => Some((level, time_diff_in_ms(now, self.ts))),
            DatumType::Dummy => None,
        }
    }
}

} // verus!
