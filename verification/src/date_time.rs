//! Points in time, counted in intervals of 100 nanoseconds since the start
//! of the year 1601 (UTC).

use vstd::prelude::*;
use crate::encoding::{BinaryEncoder, EncodingResult};
use crate::status_codes::StatusCode;

verus! {

/// The number of ticks in a second.
pub const TICKS_PER_SECOND: u64 = 10_000_000;

/// The seconds between the start of 1601 and the start of 1970.
pub const SECONDS_TO_UNIX_EPOCH: u64 = 11_644_473_600;

/// A point in time.
#[derive(Debug, Clone, Copy, PartialEq, Eq, Structural, Hash)]
pub struct DateTime {
    /// Intervals of 100 nanoseconds since 1601-01-01 00:00:00 UTC.
    pub ticks: i64,
}

impl View for DateTime {
    type V = i64;

    open spec fn view(&self) -> i64 {
        self.ticks
    }
}

/// The ticks at `secs` seconds and `nanos` nanoseconds after the start of
/// 1970, or the largest count where that does not fit.
pub open spec fn ticks_of_unix(secs: u64, nanos: u32) -> i64 {
    let ticks = (secs + SECONDS_TO_UNIX_EPOCH) * TICKS_PER_SECOND + nanos / 100;
    if ticks > i64::MAX {
        i64::MAX
    } else {
        ticks as i64
    }
}

/// The time of the system clock: whole seconds since the start of 1970
/// and the nanoseconds into the second, or nothing where the clock is set
/// before 1970.
///
/// Wraps `SystemTime::now` and `SystemTime::duration_since`, and hands out
/// `Duration::as_secs` and `Duration::subsec_nanos`, the latter of which is
/// below one billion.
#[verifier::external_body]
fn system_clock() -> (r: Option<(u64, u32)>)
    ensures
        r matches Some(time) ==> time.1 < 1_000_000_000,
{
    match std::time::SystemTime::now().duration_since(std::time::UNIX_EPOCH) {
        Ok(elapsed) => Some((elapsed.as_secs(), elapsed.subsec_nanos())),
        Err(_) => None,
    }
}

impl DateTime {
    /// The point in time `ticks` intervals after the start of 1601.
    pub fn new(ticks: i64) -> (r: DateTime)
        ensures
            r@ == ticks,
    {
        DateTime { ticks }
    }

    /// The point in time at `secs` seconds and `nanos` nanoseconds after
    /// the start of 1970.
    pub fn from_unix(secs: u64, nanos: u32) -> (r: DateTime)
        ensures
            r@ == ticks_of_unix(secs, nanos),
    {
        let fraction: u64 = (nanos / 100) as u64;
        if secs > 910_692_730_085 {
            assert((secs + SECONDS_TO_UNIX_EPOCH) * TICKS_PER_SECOND + nanos / 100 > i64::MAX)
                by (nonlinear_arith)
                requires
                    secs > 910_692_730_085,
                    SECONDS_TO_UNIX_EPOCH == 11_644_473_600,
                    TICKS_PER_SECOND == 10_000_000,
                    nanos >= 0,
            ;
            return DateTime { ticks: i64::MAX };
        }
        assert((secs + SECONDS_TO_UNIX_EPOCH) * TICKS_PER_SECOND <= 9_223_372_036_850_000_000)
            by (nonlinear_arith)
            requires
                secs <= 910_692_730_085,
                SECONDS_TO_UNIX_EPOCH == 11_644_473_600,
                TICKS_PER_SECOND == 10_000_000,
        ;
        let ticks: u64 = (secs + SECONDS_TO_UNIX_EPOCH) * TICKS_PER_SECOND + fraction;
        if ticks > 9_223_372_036_854_775_807 {
            DateTime { ticks: i64::MAX }
        } else {
            DateTime { ticks: ticks as i64 }
        }
    }

    /// The time of the system clock. A clock that is set before 1970
    /// reads as the start of 1970.
    pub fn now() -> (r: DateTime)
        ensures
            exists|secs: u64, nanos: u32| r@ == ticks_of_unix(secs, nanos),
    {
        match system_clock() {
            Some((secs, nanos)) => DateTime::from_unix(secs, nanos),
            None => DateTime::from_unix(0, 0),
        }
    }
}

impl BinaryEncoder for DateTime {
    /// The count of ticks in eight bytes.
    open spec fn wire(v: i64) -> Seq<u8> {
        i64::wire(v)
    }

    open spec fn parse(s: Seq<u8>) -> Result<(i64, int), StatusCode> {
        i64::parse(s)
    }

    open spec fn encodable(v: i64) -> bool {
        true
    }

    open spec fn canonical(v: i64) -> bool {
        true
    }

    proof fn lemma_round_trip(v: i64, rest: Seq<u8>) {
        i64::lemma_round_trip(v, rest);
    }

    proof fn lemma_parse_consumes(s: Seq<u8>) {
    }

    fn is_encodable(&self) -> (r: bool) {
        true
    }

    fn byte_len(&self) -> (n: usize) {
        8
    }

    fn encode(&self, stream: &mut Vec<u8>) -> (r: EncodingResult<usize>) {
        self.ticks.encode(stream)
    }

    fn decode(stream: &[u8]) -> (r: EncodingResult<(Self, usize)>) {
        let (ticks, n) = i64::decode(stream)?;
        Ok((DateTime { ticks }, n))
    }
}

} // verus!
