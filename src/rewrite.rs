use vstd::prelude::*;

use crate::error::{text_result, SyncError};
use crate::ratio::Ratio;
use crate::timecode::has_timecode_digits;
use crate::timerange::{parse_timerange, parse_timerange_bytes, range_sync_text, RANGE_WIDTH};
use vstd::string::StringSliceAdditionalSpecFns;
use vstd::utf8::{
    decode_utf8, encode_utf8, is_char_boundary, is_leading_byte_width_1, length_of_first_scalar,
    pop_first_scalar, valid_utf8,
};

verus! {

/// Whether the bytes `-->` start at position `i` of `b`.
pub open spec fn arrow_at(b: Seq<u8>, i: int) -> bool {
    0 <= i && i + 3 <= b.len() && b[i] == 45u8 && b[i + 1] == 45u8 && b[i + 2] == 62u8
}

/// Whether `-->` stands anywhere in `b`.
pub open spec fn has_arrow(b: Seq<u8>) -> bool {
    exists|i: int| arrow_at(b, i)
}

/// Whether a line is taken for a cue line: at least 29 bytes long, with `-->` in it.
pub open spec fn is_cue_line(b: Seq<u8>) -> bool {
    b.len() >= RANGE_WIDTH && has_arrow(b)
}

/// What a line becomes, newline included. A cue line has its first 29 bytes
/// read as a cue and replaced by the stretched cue, the rest kept; any other
/// line is kept whole.
pub open spec fn rewrite_outcome(line: Seq<char>, ratio: Ratio) -> Result<Seq<char>, SyncError> {
    let b = encode_utf8(line);
    if is_cue_line(b) {
        match parse_timerange(b) {
            Err(e) => Err(e),
            Ok(t) => match range_sync_text(t, ratio) {
                Err(e) => Err(e),
                Ok(x) => Ok(x + decode_utf8(b.subrange(RANGE_WIDTH as int, b.len() as int)) + seq!['\n']),
            },
        }
    } else {
        Ok(line + seq!['\n'])
    }
}

/// Whether a line is taken for a cue line but its cue cannot be read.
pub open spec fn is_malformed_cue_line(b: Seq<u8>) -> bool {
    is_cue_line(b) && parse_timerange(b) is Err
}

/// In well-formed UTF-8, the byte after an ASCII byte that starts a character
/// starts a character too.
proof fn lemma_boundary_after_ascii(b: Seq<u8>, i: int)
    requires
        valid_utf8(b),
        0 <= i < b.len(),
        is_char_boundary(b, i),
        is_leading_byte_width_1(b[i]),
    ensures
        is_char_boundary(b, i + 1),
    decreases b.len(),
{
    let l = length_of_first_scalar(b);
    let rest = pop_first_scalar(b);
    assert(1 <= l <= b.len());
    assert(rest.len() == b.len() - l);
    assert(valid_utf8(rest));
    if i == 0 {
        assert(l == 1);
        assert(is_char_boundary(rest, 0));
    } else {
        assert(is_char_boundary(rest, i - l));
        assert(i - l >= 0);
        assert(rest[i - l] == b[i]);
        lemma_boundary_after_ascii(rest, i - l);
    }
}

/// A line whose cue reads well has a character boundary right after the cue.
proof fn lemma_cue_ends_on_boundary(line: Seq<char>)
    requires
        parse_timerange(encode_utf8(line)) is Ok,
    ensures
        is_char_boundary(encode_utf8(line), RANGE_WIDTH as int),
{
    let b = encode_utf8(line);
    vstd::utf8::encode_utf8_valid_utf8(line);
    assert(has_timecode_digits(b.subrange(17, b.len() as int)));
    assert(b[28] == b.subrange(17, b.len() as int)[11]);
    vstd::utf8::is_char_boundary_iff_is_leading_byte(b, 28);
    lemma_boundary_after_ascii(b, 28);
}

/// Whether `-->` stands anywhere in `b`.
fn contains_arrow(b: &[u8]) -> (r: bool)
    ensures
        r == has_arrow(b@),
{
    let len = b.len();
    let mut i: usize = 0;
    while len >= 3 && i <= len - 3
        invariant
            len == b@.len(),
            i <= len,
            forall|j: int| 0 <= j < i ==> !arrow_at(b@, j),
        decreases len - i,
    {
        if b[i] == 45 && b[i + 1] == 45 && b[i + 2] == 62 {
            assert(arrow_at(b@, i as int));
            return true;
        }
        i = i + 1;
    }
    assert(i + 3 > len);
    assert forall|j: int| !arrow_at(b@, j) by {
        if 0 <= j < i {
        }
    }
    false
}

/// The line with its cue, if it is a cue line, stretched by `ratio`, and a
/// newline appended. A cue line whose cue cannot be read or stretched gives
/// the error.
pub fn update_line(content: String, ratio: Ratio) -> (r: Result<String, SyncError>)
    ensures
        text_result(r) == rewrite_outcome(content@, ratio),
        !is_cue_line(encode_utf8(content@)) ==> (r matches Ok(s) && s@ == content@ + seq!['\n']),
        is_malformed_cue_line(encode_utf8(content@)) ==> r == Err::<String, SyncError>(
            SyncError::MalformedTimestamp,
        ),
{
    proof {
        reveal_strlit("\n");
    }
    let text = content.as_str();
    let b = text.as_bytes();
    assert(b@ == encode_utf8(content@));
    if b.len() >= RANGE_WIDTH && contains_arrow(b) {
        let time_range = match parse_timerange_bytes(b) {
            Err(e) => {
                return Err(e);
            },
            Ok(t) => t,
        };
        let mut out = match time_range.sync(ratio) {
            Err(e) => {
                return Err(e);
            },
            Ok(s) => s,
        };
        proof {
            lemma_cue_ends_on_boundary(content@);
        }
        let (_head, tail) = text.split_at(RANGE_WIDTH);
        proof {
            vstd::utf8::encode_utf8_decode_utf8(tail@);
            assert(tail.spec_bytes() =~= b@.subrange(RANGE_WIDTH as int, b@.len() as int));
        }
        let ghost x = out@;
        out.append(tail);
        out.append("\n");
        assert(out@ =~= x + tail@ + seq!['\n']);
        assert(is_cue_line(b@));
        assert(range_sync_text(time_range, ratio) == Ok::<Seq<char>, SyncError>(x));
        assert(decode_utf8(b@.subrange(RANGE_WIDTH as int, b@.len() as int)) == tail@);
        Ok(out)
    } else {
        let mut out = content;
        out.append("\n");
        assert(!is_cue_line(b@));
        assert(out@ == content@ + seq!['\n']);
        Ok(out)
    }
}


/// Whether every line of `lines` before index `k` is rewritten without error.
pub open spec fn all_rewritten_before(lines: Seq<String>, ratio: Ratio, k: int) -> bool {
    forall|i: int| 0 <= i < k ==> (#[trigger] rewrite_outcome(lines[i]@, ratio)) is Ok
}

/// Rewrites every line of a track in order, as `update_line` does. The first
/// line that fails stops the whole run with its error: no output is given
/// for a track with a bad cue.
pub fn transform(lines: &Vec<String>, ratio: Ratio) -> (r: Result<Vec<String>, SyncError>)
    ensures
        match r {
            Ok(out) => out.len() == lines.len() && forall|i: int|
                0 <= i < lines.len() ==> rewrite_outcome(lines[i]@, ratio) == Ok::<
                    Seq<char>,
                    SyncError,
                >(#[trigger] out[i]@),
            Err(e) => exists|k: int|
                0 <= k < lines.len() && all_rewritten_before(lines@, ratio, k)
                    && #[trigger] rewrite_outcome(lines[k]@, ratio) == Err::<Seq<char>, SyncError>(
                    e,
                ),
        },
        (exists|k: int|
            0 <= k < lines.len() && is_malformed_cue_line(encode_utf8(#[trigger] lines[k]@)))
            ==> r is Err,
{
    let mut out: Vec<String> = Vec::new();
    let mut i: usize = 0;
    while i < lines.len()
        invariant
            i <= lines.len(),
            out.len() == i,
            forall|j: int|
                0 <= j < i ==> rewrite_outcome(lines[j]@, ratio) == Ok::<Seq<char>, SyncError>(
                    #[trigger] out[j]@,
                ),
        decreases lines.len() - i,
    {
        match update_line(lines[i].clone(), ratio) {
            Err(e) => {
                assert forall|j: int| 0 <= j < i implies (#[trigger] rewrite_outcome(
                    lines@[j]@,
                    ratio,
                )) is Ok by {
                    assert(rewrite_outcome(lines[j]@, ratio) == Ok::<Seq<char>, SyncError>(out[j]@));
                }
                assert(all_rewritten_before(lines@, ratio, i as int));
                return Err(e);
            },
            Ok(s) => {
                out.push(s);
            },
        }
        i = i + 1;
    }
    assert forall|k: int| 0 <= k < lines.len() implies !is_malformed_cue_line(
        encode_utf8(#[trigger] lines[k]@),
    ) by {
        assert(rewrite_outcome(lines[k]@, ratio) == Ok::<Seq<char>, SyncError>(out[k]@));
    }
    Ok(out)
}

} // verus!
