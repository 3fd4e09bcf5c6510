use vstd::prelude::*;

use crate::error::SyncError;
use crate::timecode::{ms_outcome, parse_timecode, TimeCode};
use vstd::string::StringSliceAdditionalSpecFns;

verus! {

/// A non-negative stretch factor `num / den`, kept as an exact fraction of two
/// millisecond counts.
#[derive(Clone, Copy, Debug)]
pub struct Ratio {
    num: u32,
    den: u32,
}

impl Ratio {
    #[verifier::type_invariant]
    spec fn positive_den(self) -> bool {
        self.den > 0
    }

    /// The numerator of the fraction.
    pub closed spec fn numer(self) -> nat {
        self.num as nat
    }

    /// The denominator of the fraction.
    pub closed spec fn denom(self) -> nat {
        self.den as nat
    }

    /// The fraction `num / den`; a zero denominator is refused.
    pub fn new(num: u32, den: u32) -> (r: Result<Ratio, SyncError>)
        ensures
            den == 0 ==> r == Err::<Ratio, SyncError>(SyncError::DivisionByZero),
            den != 0 ==> (r matches Ok(q) && q.numer() == num && q.denom() == den),
    {
        if den == 0 {
            Err(SyncError::DivisionByZero)
        } else {
            Ok(Ratio { num, den })
        }
    }

    pub fn num(&self) -> (r: u32)
        ensures
            r == self.numer(),
    {
        self.num
    }

    pub fn den(&self) -> (r: u32)
        ensures
            r == self.denom(),
            r > 0,
    {
        proof {
            use_type_invariant(self);
        }
        self.den
    }
}


/// What computing the ratio from the bytes of two reference instants gives:
/// the pair (numerator, denominator) of millisecond totals, `to` over `from`.
pub open spec fn ratio_outcome(from: Seq<u8>, to: Seq<u8>) -> Result<(nat, nat), SyncError> {
    match parse_timecode(from) {
        Err(e) => Err(e),
        Ok(f) => match parse_timecode(to) {
            Err(e) => Err(e),
            Ok(t) => match ms_outcome(f) {
                Err(e) => Err(e),
                Ok(fm) => match ms_outcome(t) {
                    Err(e) => Err(e),
                    Ok(tm) => if fm == 0 {
                        Err(SyncError::DivisionByZero)
                    } else {
                        Ok((tm as nat, fm as nat))
                    },
                },
            },
        },
    }
}

/// The ratio that stretches the instant `from`, read in the track, onto the
/// instant `to`, read in the video: `to` milliseconds over `from` milliseconds.
pub fn compute_ratio(from: &str, to: &str) -> (r: Result<Ratio, SyncError>)
    ensures
        match ratio_outcome(from.spec_bytes(), to.spec_bytes()) {
            Ok((n, d)) => r matches Ok(q) && q.numer() == n && q.denom() == d,
            Err(e) => r == Err::<Ratio, SyncError>(e),
        },
{
    let from_tc = match TimeCode::from_str(from) {
        Err(e) => {
            return Err(e);
        },
        Ok(t) => t,
    };
    let to_tc = match TimeCode::from_str(to) {
        Err(e) => {
            return Err(e);
        },
        Ok(t) => t,
    };
    let from_ms = match from_tc.to_ms() {
        Err(e) => {
            return Err(e);
        },
        Ok(n) => n,
    };
    let to_ms = match to_tc.to_ms() {
        Err(e) => {
            return Err(e);
        },
        Ok(n) => n,
    };
    Ratio::new(to_ms, from_ms)
}

} // verus!
