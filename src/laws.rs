use vstd::prelude::*;

use crate::decimal::{digit_char, digit_value, is_digit_byte, lemma_padded_three, lemma_padded_two};
use crate::error::SyncError;
use crate::ratio::Ratio;
use crate::timecode::{
    from_ms_spec, parse_timecode, scaled_total, sync_outcome, sync_text, timecode_text, total_ms,
    TimeCode, MAX_MS,
};
use vstd::arithmetic::div_mod::lemma_fundamental_div_mod_converse;
use vstd::utf8::{encode_utf8, is_ascii_chars, is_ascii_chars_encode_utf8};

verus! {

/// Whether a character is a decimal digit.
pub open spec fn is_digit_char(c: char) -> bool {
    '0' <= c <= '9'
}

/// Whether `s` is written exactly `HH:MM:SS,mmm`: twelve characters, digits
/// at the digit places, `:` `:` `,` at the separator places.
pub open spec fn is_timecode_form(s: Seq<char>) -> bool {
    &&& s.len() == 12
    &&& is_digit_char(s[0]) && is_digit_char(s[1]) && s[2] == ':'
    &&& is_digit_char(s[3]) && is_digit_char(s[4]) && s[5] == ':'
    &&& is_digit_char(s[6]) && is_digit_char(s[7]) && s[8] == ','
    &&& is_digit_char(s[9]) && is_digit_char(s[10]) && is_digit_char(s[11])
}

/// The instant read back from the text of an instant, as `TimeCode::from_str` reads it.
pub open spec fn reread(text: Seq<char>) -> Result<TimeCode, SyncError> {
    parse_timecode(encode_utf8(text))
}

proof fn lemma_digit_char(d: nat)
    requires
        d < 10,
    ensures
        digit_char(d) as u32 == d + 48,
        is_digit_char(digit_char(d)),
        is_digit_byte(digit_char(d) as u8),
        digit_value(digit_char(d) as u8) == d,
{
}

proof fn lemma_digit_of_char(c: char)
    requires
        is_digit_char(c),
    ensures
        is_digit_byte(c as u8),
        digit_value(c as u8) < 10,
        digit_char(digit_value(c as u8)) == c,
{
    vstd::utf8::char_u32_cast(c, c as u32);
}

/// The millisecond total of a decomposed total is that total.
pub proof fn lemma_total_of_from_ms(x: nat)
    requires
        x <= MAX_MS,
    ensures
        total_ms(from_ms_spec(x)) == x,
        from_ms_spec(x).h < 1194,
        from_ms_spec(x).m < 60,
        from_ms_spec(x).s < 60,
        from_ms_spec(x).ms < 1000,
{
    let t = from_ms_spec(x);
    let q1 = x / 3600000;
    let r1 = x % 3600000;
    let q2 = r1 / 60000;
    let r2 = r1 % 60000;
    let q3 = r2 / 1000;
    let r3 = r2 % 1000;
    assert(x == q1 * 3600000 + r1);
    assert(r1 == q2 * 60000 + r2);
    assert(r2 == q3 * 1000 + r3);
    let k = q1 * 3600 + q2 * 60 + q3;
    assert(x == k * 1000 + r3) by (nonlinear_arith)
        requires
            x == q1 * 3600000 + r1,
            r1 == q2 * 60000 + r2,
            r2 == q3 * 1000 + r3,
            k == q1 * 3600 + q2 * 60 + q3,
    ;
    lemma_fundamental_div_mod_converse(x as int, 1000, k as int, r3 as int);
    assert(t.h == q1 && t.m == q2 && t.s == q3 && t.ms == r3);
    assert(total_ms(t) == ((q1 * 60 + q2) * 60 + q3) * 1000 + r3);
    assert(((q1 * 60 + q2) * 60 + q3) * 1000 + r3 == k * 1000 + r3) by (nonlinear_arith)
        requires
            k == q1 * 3600 + q2 * 60 + q3,
    ;
}

/// An instant whose fields are within their ranges is what its millisecond
/// total decomposes into.
pub proof fn lemma_from_ms_of_total(t: TimeCode)
    requires
        t.m < 60,
        t.s < 60,
        t.ms < 1000,
    ensures
        from_ms_spec(total_ms(t)) == t,
{
    let n = total_ms(t);
    let (h, m, s, ms) = (t.h as int, t.m as int, t.s as int, t.ms as int);
    let r1 = m * 60000 + s * 1000 + ms;
    let r2 = s * 1000 + ms;
    assert(n == h * 3600000 + r1) by (nonlinear_arith)
        requires
            n == ((h * 60 + m) * 60 + s) * 1000 + ms,
            r1 == m * 60000 + s * 1000 + ms,
    ;
    lemma_fundamental_div_mod_converse(n as int, 3600000, h, r1);
    lemma_fundamental_div_mod_converse(r1, 60000, m, r2);
    lemma_fundamental_div_mod_converse(r2, 1000, s, ms);
    assert(n == (h * 3600 + m * 60 + s) * 1000 + ms) by (nonlinear_arith)
        requires
            n == ((h * 60 + m) * 60 + s) * 1000 + ms,
    ;
    lemma_fundamental_div_mod_converse(n as int, 1000, h * 3600 + m * 60 + s, ms);
}

/// Formatting then reading back gives the same instant, for every instant
/// whose fields fit their printed widths.
pub proof fn lemma_format_then_parse(t: TimeCode)
    requires
        t.h < 100,
        t.m < 100,
        t.s < 100,
        t.ms < 1000,
    ensures
        reread(timecode_text(t)) == Ok::<TimeCode, SyncError>(t),
{
    lemma_padded_two(t.h as nat);
    lemma_padded_two(t.m as nat);
    lemma_padded_two(t.s as nat);
    lemma_padded_three(t.ms as nat);
    let text = timecode_text(t);
    let ds = seq![
        t.h / 10, t.h % 10, 0, t.m / 10, t.m % 10, 0, t.s / 10, t.s % 10, 0,
        t.ms / 100, (t.ms / 10) % 10, t.ms % 10,
    ];
    assert(text =~= seq![
        digit_char(ds[0] as nat), digit_char(ds[1] as nat), ':',
        digit_char(ds[3] as nat), digit_char(ds[4] as nat), ':',
        digit_char(ds[6] as nat), digit_char(ds[7] as nat), ',',
        digit_char(ds[9] as nat), digit_char(ds[10] as nat), digit_char(ds[11] as nat),
    ]);
    assert forall|i: int| 0 <= i < 12 && i != 2 && i != 5 && i != 8 implies text[i] == digit_char(
        ds[i] as nat,
    ) && ds[i] < 10 by {}
    assert forall|i: int| 0 <= i < 12 && i != 2 && i != 5 && i != 8 implies digit_value(
        text[i] as u8,
    ) == ds[i] && is_digit_byte(text[i] as u8) && text[i] <= '\u{7f}' by {
        lemma_digit_char(ds[i] as nat);
    }
    assert(is_ascii_chars(text));
    is_ascii_chars_encode_utf8(text);
    let b = encode_utf8(text);
    assert forall|i: int| 0 <= i < 12 implies b[i] == text[i] as u8 by {}
    assert(t.ms == 100 * (t.ms / 100) + 10 * ((t.ms / 10) % 10) + t.ms % 10);
}

/// Reading a well-formed `HH:MM:SS,mmm` and formatting the instant gives the
/// same text back.
pub proof fn law_parse_then_format(s: Seq<char>)
    requires
        is_timecode_form(s),
    ensures
        reread(s) matches Ok(t) && timecode_text(t) == s,
{
    assert(is_ascii_chars(s)) by {
        assert forall|i: int| 0 <= i < s.len() implies '\0' <= #[trigger] s[i] <= '\u{7f}' by {}
    }
    is_ascii_chars_encode_utf8(s);
    let b = encode_utf8(s);
    assert forall|i: int| 0 <= i < 12 && i != 2 && i != 5 && i != 8 implies is_digit_byte(
        #[trigger] b[i],
    ) && digit_value(b[i]) < 10 && digit_char(digit_value(b[i])) == s[i] by {
        lemma_digit_of_char(s[i]);
    }
    let t = reread(s)->Ok_0;
    let dv = |i: int| digit_value(b[i]);
    lemma_padded_two(t.h as nat);
    lemma_padded_two(t.m as nat);
    lemma_padded_two(t.s as nat);
    lemma_padded_three(t.ms as nat);
    assert(t.h / 10 == dv(0) && t.h % 10 == dv(1));
    assert(t.m / 10 == dv(3) && t.m % 10 == dv(4));
    assert(t.s / 10 == dv(6) && t.s % 10 == dv(7));
    assert(t.ms / 100 == dv(9) && (t.ms / 10) % 10 == dv(10) && t.ms % 10 == dv(11));
    assert(timecode_text(t) =~= s);
}

/// Stretching by a ratio of one gives the instant's own text, for every
/// instant whose fields are within their ranges and whose total fits in 32
/// bits.
pub proof fn law_identity_ratio(t: TimeCode, r: Ratio)
    requires
        r.denom() > 0,
        r.numer() == r.denom(),
        t.m < 60,
        t.s < 60,
        t.ms < 1000,
        total_ms(t) <= MAX_MS,
    ensures
        sync_text(t, r) == Ok::<Seq<char>, SyncError>(timecode_text(t)),
{
    let n = total_ms(t);
    let d = r.denom();
    assert(n * d / d == n) by {
        lemma_fundamental_div_mod_converse((n * d) as int, d as int, n as int, 0);
    }
    lemma_from_ms_of_total(t);
}

/// The stretched total is truncated toward zero: it is the largest whole
/// number of milliseconds not above the exact product.
pub proof fn law_truncation(t: TimeCode, r: Ratio)
    requires
        r.denom() > 0,
        sync_outcome(t, r) is Ok,
    ensures
        sync_outcome(t, r) matches Ok(x) && x * r.denom() <= total_ms(t) * r.numer() < (x + 1)
            * r.denom(),
{
    let p = total_ms(t) * r.numer();
    let d = r.denom();
    let x = p / d;
    assert(x * d <= p < (x + 1) * d) by (nonlinear_arith)
        requires
            d > 0,
            x == p / d,
    ;
}

/// A larger ratio never gives an earlier instant: read back from their
/// texts, the instant stretched by `r1` is not after the one stretched by
/// `r2`, where `r1 < r2` and the larger stretch stays below one hundred hours.
pub proof fn law_monotone(t: TimeCode, r1: Ratio, r2: Ratio)
    requires
        r1.denom() > 0,
        r2.denom() > 0,
        r1.numer() > 0,
        r1.numer() * r2.denom() < r2.numer() * r1.denom(),
        0 < total_ms(t) <= MAX_MS,
        scaled_total(t, r2) < 360000000,
    ensures
        sync_text(t, r1) matches Ok(a) && sync_text(t, r2) matches Ok(b) && reread(a) matches Ok(
            u1,
        ) && reread(b) matches Ok(u2) && total_ms(u1) <= total_ms(u2),
{
    let n = total_ms(t);
    let (a, b, c, d) = (r1.numer(), r1.denom(), r2.numer(), r2.denom());
    let x1 = scaled_total(t, r1);
    let x2 = scaled_total(t, r2);
    assert(x1 <= x2) by (nonlinear_arith)
        requires
            b > 0,
            d > 0,
            a * d < c * b,
            x1 == n * a / b,
            x2 == n * c / d,
    {
        assert(x1 * b <= n * a);
        assert(x1 * b * d <= n * a * d);
        assert(n * a * d <= n * c * b);
        assert(x1 * d * b <= n * c * b);
        assert(x1 * d <= n * c);
        assert(x1 * d < (x2 + 1) * d);
    }
    lemma_total_of_from_ms(x1);
    lemma_total_of_from_ms(x2);
    lemma_format_then_parse(from_ms_spec(x1));
    lemma_format_then_parse(from_ms_spec(x2));
}

} // verus!
