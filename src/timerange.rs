use vstd::prelude::*;

use crate::error::SyncError;
use crate::ratio::Ratio;
use crate::timecode::{parse_timecode, parse_timecode_at, sync_text, timecode_text, TimeCode};
use vstd::string::StringSliceAdditionalSpecFns;

verus! {

/// The start and end instants of one subtitle cue, written `<start> --> <end>`.
#[derive(Clone, Copy, Debug, PartialEq, Eq, Structural)]
pub struct TimeRange {
    pub beginning: TimeCode,
    pub end: TimeCode,
}

/// The five characters between the two instants of a cue.
pub open spec fn arrow_text() -> Seq<char> {
    seq![' ', '-', '-', '>', ' ']
}

/// The width in bytes of `<start> --> <end>`.
pub const RANGE_WIDTH: usize = 29;

/// What reading a cue from the first 29 bytes of `b` gives: the start from
/// bytes 0 to 12, the end from bytes 17 to 29; the five bytes between are not
/// looked at.
pub open spec fn parse_timerange(b: Seq<u8>) -> Result<TimeRange, SyncError> {
    if b.len() < RANGE_WIDTH {
        Err(SyncError::MalformedTimestamp)
    } else {
        match parse_timecode(b) {
            Err(e) => Err(e),
            Ok(beginning) => match parse_timecode(b.subrange(17, b.len() as int)) {
                Err(e) => Err(e),
                Ok(end) => Ok(TimeRange { beginning, end }),
            },
        }
    }
}

/// The text of a cue with both instants stretched by `ratio`.
pub open spec fn range_sync_text(t: TimeRange, ratio: Ratio) -> Result<Seq<char>, SyncError> {
    match sync_text(t.beginning, ratio) {
        Err(e) => Err(e),
        Ok(x) => match sync_text(t.end, ratio) {
            Err(e) => Err(e),
            Ok(y) => Ok(x + arrow_text() + y),
        },
    }
}

/// The canonical text `<start> --> <end>` of a cue.
pub open spec fn timerange_text(t: TimeRange) -> Seq<char> {
    timecode_text(t.beginning) + arrow_text() + timecode_text(t.end)
}

/// Reads a cue from the first 29 bytes of `b`.
pub(crate) fn parse_timerange_bytes(b: &[u8]) -> (r: Result<TimeRange, SyncError>)
    ensures
        r == parse_timerange(b@),
{
    if b.len() < RANGE_WIDTH {
        return Err(SyncError::MalformedTimestamp);
    }
    assert(b@.subrange(0, b@.len() as int) =~= b@);
    let beginning = match parse_timecode_at(b, 0) {
        Err(e) => {
            return Err(e);
        },
        Ok(t) => t,
    };
    let end = match parse_timecode_at(b, 17) {
        Err(e) => {
            return Err(e);
        },
        Ok(t) => t,
    };
    Ok(TimeRange { beginning, end })
}

impl TimeRange {
    /// Reads `<start> --> <end>` from the first 29 bytes of `time_range`.
    /// `MalformedTimestamp` where the text is shorter or either instant is
    /// malformed.
    pub fn from_str(time_range: &str) -> (r: Result<TimeRange, SyncError>)
        ensures
            r == parse_timerange(time_range.spec_bytes()),
    {
        parse_timerange_bytes(time_range.as_bytes())
    }

    /// `<start> --> <end>` with both instants stretched by `ratio`, the start
    /// first.
    pub fn sync(&self, ratio: Ratio) -> (r: Result<String, SyncError>)
        ensures
            crate::error::text_result(r) == range_sync_text(*self, ratio),
    {
        proof {
            reveal_strlit(" --> ");
        }
        let mut out = match self.beginning.sync(ratio) {
            Err(e) => {
                return Err(e);
            },
            Ok(s) => s,
        };
        let end_sync = match self.end.sync(ratio) {
            Err(e) => {
                return Err(e);
            },
            Ok(s) => s,
        };
        let ghost x = out@;
        out.append(" --> ");
        out.append(end_sync.as_str());
        assert(out@ =~= x + arrow_text() + end_sync@);
        Ok(out)
    }
}

} // verus!
