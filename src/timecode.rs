use vstd::prelude::*;

use crate::decimal::{append_padded, digit_at, digit_value, is_digit_byte, padded};
use crate::error::SyncError;
use crate::ratio::Ratio;
use vstd::string::StringSliceAdditionalSpecFns;

verus! {

/// The largest millisecond total the library computes with.
pub const MAX_MS: u32 = 0xffff_ffff;

/// One instant of a subtitle track: hours, minutes, seconds and milliseconds.
/// No field is bounded: the fields are whatever was parsed or decomposed.
#[derive(Clone, Copy, Debug, PartialEq, Eq, Structural)]
pub struct TimeCode {
    pub h: u32,
    pub m: u32,
    pub s: u32,
    pub ms: u32,
}

/// The number of milliseconds an instant stands for.
pub open spec fn total_ms(t: TimeCode) -> nat {
    (((t.h * 60 + t.m) * 60 + t.s) * 1000 + t.ms) as nat
}

/// The instant that a millisecond total decomposes into.
pub open spec fn from_ms_spec(n: nat) -> TimeCode {
    TimeCode {
        h: (n / 3600000) as u32,
        m: ((n % 3600000) / 60000) as u32,
        s: ((n % 3600000) % 60000 / 1000) as u32,
        ms: (n % 1000) as u32,
    }
}

/// The canonical text `HH:MM:SS,mmm` of an instant, each field zero-padded.
pub open spec fn timecode_text(t: TimeCode) -> Seq<char> {
    padded(t.h as nat, 2) + seq![':'] + padded(t.m as nat, 2) + seq![':'] + padded(t.s as nat, 2)
        + seq![','] + padded(t.ms as nat, 3)
}

/// Whether the first twelve bytes hold digits at every digit place of `HH:MM:SS,mmm`.
/// The bytes at the separator places are not looked at.
pub open spec fn has_timecode_digits(b: Seq<u8>) -> bool {
    &&& b.len() >= 12
    &&& is_digit_byte(b[0]) && is_digit_byte(b[1])
    &&& is_digit_byte(b[3]) && is_digit_byte(b[4])
    &&& is_digit_byte(b[6]) && is_digit_byte(b[7])
    &&& is_digit_byte(b[9]) && is_digit_byte(b[10]) && is_digit_byte(b[11])
}

/// The value of the two digits at `b[i]` and `b[i + 1]`.
pub open spec fn two_digits(b: Seq<u8>, i: int) -> nat {
    10 * digit_value(b[i]) + digit_value(b[i + 1])
}

/// What reading an instant from the first twelve bytes of `b` gives.
pub open spec fn parse_timecode(b: Seq<u8>) -> Result<TimeCode, SyncError> {
    if has_timecode_digits(b) {
        Ok(
            TimeCode {
                h: two_digits(b, 0) as u32,
                m: two_digits(b, 3) as u32,
                s: two_digits(b, 6) as u32,
                ms: (100 * digit_value(b[9]) + two_digits(b, 10)) as u32,
            },
        )
    } else {
        Err(SyncError::MalformedTimestamp)
    }
}

/// The millisecond total of an instant, or `Overflow` where it does not fit in 32 bits.
pub open spec fn ms_outcome(t: TimeCode) -> Result<u32, SyncError> {
    if total_ms(t) <= MAX_MS {
        Ok(total_ms(t) as u32)
    } else {
        Err(SyncError::Overflow)
    }
}

/// The millisecond total of `t` stretched by `r`, truncated toward zero.
pub open spec fn scaled_total(t: TimeCode, r: Ratio) -> nat {
    total_ms(t) * r.numer() / r.denom()
}

/// The stretched millisecond total, or `Overflow` where the total or its
/// stretched value does not fit in 32 bits.
pub open spec fn sync_outcome(t: TimeCode, r: Ratio) -> Result<nat, SyncError> {
    if total_ms(t) > MAX_MS || scaled_total(t, r) > MAX_MS {
        Err(SyncError::Overflow)
    } else {
        Ok(scaled_total(t, r))
    }
}

/// The text of the stretched instant.
pub open spec fn sync_text(t: TimeCode, r: Ratio) -> Result<Seq<char>, SyncError> {
    match sync_outcome(t, r) {
        Ok(x) => Ok(timecode_text(from_ms_spec(x))),
        Err(e) => Err(e),
    }
}

/// Reads an instant from the twelve bytes of `b` that begin at `start`.
pub(crate) fn parse_timecode_at(b: &[u8], start: usize) -> (r: Result<TimeCode, SyncError>)
    requires
        start + 12 <= b@.len(),
    ensures
        r == parse_timecode(b@.subrange(start as int, b@.len() as int)),
{
    let ghost tail = b@.subrange(start as int, b@.len() as int);
    let len = b.len();
    assert(start + 12 <= len);
    let d0 = digit_at(b, start);
    let d1 = digit_at(b, start + 1);
    let d3 = digit_at(b, start + 3);
    let d4 = digit_at(b, start + 4);
    let d6 = digit_at(b, start + 6);
    let d7 = digit_at(b, start + 7);
    let d9 = digit_at(b, start + 9);
    let d10 = digit_at(b, start + 10);
    let d11 = digit_at(b, start + 11);
    match (d0, d1, d3, d4, d6, d7, d9, d10, d11) {
        (Some(a0), Some(a1), Some(a3), Some(a4), Some(a6), Some(a7), Some(a9), Some(a10), Some(a11)) => {
            assert(has_timecode_digits(tail));
            Ok(TimeCode { h: 10 * a0 + a1, m: 10 * a3 + a4, s: 10 * a6 + a7, ms: 100 * a9 + 10 * a10 + a11 })
        },
        _ => {
            assert(!has_timecode_digits(tail));
            Err(SyncError::MalformedTimestamp)
        },
    }
}

impl TimeCode {
    /// The millisecond total `((h * 60 + m) * 60 + s) * 1000 + ms`; `Overflow`
    /// where it does not fit in 32 bits.
    pub fn to_ms(&self) -> (r: Result<u32, SyncError>)
        ensures
            r == ms_outcome(*self),
    {
        let h = self.h as u64;
        let m = self.m as u64;
        let s = self.s as u64;
        let ms = self.ms as u64;
        assert(h * 60 + m <= 0xffff_ffff * 61) by (nonlinear_arith)
            requires h <= 0xffff_ffff, m <= 0xffff_ffff;
        let a = h * 60 + m;
        assert(a * 60 + s <= 0xffff_ffff * 3661) by (nonlinear_arith)
            requires a <= 0xffff_ffff * 61, s <= 0xffff_ffff;
        let b = a * 60 + s;
        assert(b * 1000 + ms <= 0xffff_ffff * 3661001) by (nonlinear_arith)
            requires b <= 0xffff_ffff * 3661, ms <= 0xffff_ffff;
        let total = b * 1000 + ms;
        if total <= MAX_MS as u64 {
            Ok(total as u32)
        } else {
            Err(SyncError::Overflow)
        }
    }

    /// The canonical text `HH:MM:SS,mmm`, each field zero-padded to its width;
    /// a field too wide for its width is written whole.
    pub fn to_string(&self) -> (r: String)
        ensures
            r@ == timecode_text(*self),
    {
        proof {
            reveal_strlit(":");
            reveal_strlit(",");
        }
        let mut out = String::new();
        append_padded(&mut out, self.h, 2);
        out.append(":");
        append_padded(&mut out, self.m, 2);
        out.append(":");
        append_padded(&mut out, self.s, 2);
        out.append(",");
        append_padded(&mut out, self.ms, 3);
        assert(out@ =~= timecode_text(*self));
        out
    }

    /// The instant that `ms_total` milliseconds decompose into.
    pub fn from_ms(ms_total: &u32) -> (r: TimeCode)
        ensures
            r == from_ms_spec(*ms_total as nat),
    {
        let n = *ms_total;
        let h = n / 3600000;
        let m = (n % 3600000) / 60000;
        let s = ((n % 3600000) % 60000) / 1000;
        let ms = n % 1000;
        TimeCode { h, m, s, ms }
    }

    /// Reads `HH:MM:SS,mmm` from the first twelve bytes of `time_code`; the
    /// separators are not checked. `MalformedTimestamp` where the text is
    /// shorter or a digit place holds no decimal digit.
    pub fn from_str(time_code: &str) -> (r: Result<TimeCode, SyncError>)
        ensures
            r == parse_timecode(time_code.spec_bytes()),
    {
        let b = time_code.as_bytes();
        if b.len() < 12 {
            Err(SyncError::MalformedTimestamp)
        } else {
            assert(b@.subrange(0, b@.len() as int) =~= b@);
            parse_timecode_at(b, 0)
        }
    }

    /// The text of this instant stretched by `ratio`: the millisecond total is
    /// multiplied by the ratio, truncated toward zero, and decomposed again.
    pub fn sync(&self, ratio: Ratio) -> (r: Result<String, SyncError>)
        ensures
            crate::error::text_result(r) == sync_text(*self, ratio),
    {
        match self.to_ms() {
            Err(e) => Err(e),
            Ok(total) => {
                let num = ratio.num() as u64;
                let den = ratio.den() as u64;
                let t = total as u64;
                assert(t * num <= 0xffff_ffff * 0xffff_ffff) by (nonlinear_arith)
                    requires t <= 0xffff_ffff, num <= 0xffff_ffff;
                let scaled = t * num / den;
                if scaled > MAX_MS as u64 {
                    Err(SyncError::Overflow)
                } else {
                    let final_ms = scaled as u32;
                    let time_code_sync = TimeCode::from_ms(&final_ms);
                    Ok(time_code_sync.to_string())
                }
            },
        }
    }
}

} // verus!
