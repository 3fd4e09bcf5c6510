use vstd::prelude::*;

verus! {

/// The ways in which rescaling a subtitle track can fail.
#[derive(Debug, Clone, Copy, PartialEq, Eq, Structural)]
pub enum SyncError {
    /// A timestamp slice is too short or one of its digit groups is not a decimal number.
    MalformedTimestamp,
    /// A millisecond total does not fit in 32 bits.
    Overflow,
    /// The reference timestamp taken from the track is zero.
    DivisionByZero,
}


/// What a fallible function that renders text returns, with the text seen as characters.
pub open spec fn text_result(r: Result<String, SyncError>) -> Result<Seq<char>, SyncError> {
    match r {
        Ok(s) => Ok(s@),
        Err(e) => Err(e),
    }
}

} // verus!
