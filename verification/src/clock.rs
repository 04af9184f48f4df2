//! Civil-calendar rendering: a count of seconds since the Unix epoch as an
//! RFC 3339 UTC timestamp. The date arithmetic follows the proleptic
//! Gregorian calendar over 400-year eras.

use vstd::prelude::*;

use crate::strutil::dec_digits_of;

verus! {

/// The proleptic-Gregorian date of an epoch day count: year, month and day,
/// via the day-of-era decomposition.
pub open spec fn spec_civil_from_days(days: nat) -> (int, int, int) {
    let z = days + 719468;
    let era = z / 146097;
    let doe = z % 146097;
    let yoe = (doe - doe / 1460 + doe / 36524 - doe / 146096) / 365;
    let y = yoe + era * 400;
    let doy = doe - (365 * yoe + yoe / 4 - yoe / 100);
    let mp = (5 * doy + 2) / 153;
    let d = doy - (153 * mp + 2) / 5 + 1;
    let m = if mp < 10 {
        mp + 3
    } else {
        mp - 9
    };
    (
        if m <= 2 {
            y + 1
        } else {
            y
        },
        m,
        d,
    )
}

/// The decomposed date lies in calendar ranges: the month in 1 to 12, the
/// day in 1 to 31, the year nonnegative.
proof fn lemma_civil_ranges(days: nat)
    ensures
        ({
            let (y, m, d) = spec_civil_from_days(days);
            &&& 1 <= m <= 12
            &&& 1 <= d <= 31
            &&& 0 <= y
        }),
{
    let z = days + 719468;
    let era = z / 146097;
    let doe = z % 146097;
    let adj = doe - doe / 1460 + doe / 36524 - doe / 146096;
    let yoe = adj / 365;
    let doy = doe - (365 * yoe + yoe / 4 - yoe / 100);
    let mp = (5 * doy + 2) / 153;
    let d = doy - (153 * mp + 2) / 5 + 1;
    assert(0 <= doe < 146097) by (nonlinear_arith)
        requires
            z >= 0,
            era == z / 146097,
            doe == z % 146097,
    ;
    assert(0 <= doy <= 365) by (nonlinear_arith)
        requires
            0 <= doe < 146097,
            adj == doe - doe / 1460 + doe / 36524 - doe / 146096,
            yoe == adj / 365,
            doy == doe - (365 * yoe + yoe / 4 - yoe / 100),
    ;
    assert(0 <= mp <= 11) by (nonlinear_arith)
        requires
            0 <= doy <= 365,
            mp == (5 * doy + 2) / 153,
    ;
    assert(1 <= d <= 31) by (nonlinear_arith)
        requires
            0 <= doy <= 365,
            mp == (5 * doy + 2) / 153,
            d == doy - (153 * mp + 2) / 5 + 1,
    ;
    assert(yoe >= 0 && era >= 0) by (nonlinear_arith)
        requires
            z >= 0,
            0 <= doe < 146097,
            era == z / 146097,
            adj == doe - doe / 1460 + doe / 36524 - doe / 146096,
            yoe == adj / 365,
    ;
}

/// The date of an epoch day count.
pub fn civil_from_days(days: u64) -> (r: (u64, u64, u64))
    requires
        days <= 0x8000_0000_0000_0000,
    ensures
        (r.0 as int, r.1 as int, r.2 as int) == spec_civil_from_days(days as nat),
{
    proof {
        lemma_civil_ranges(days as nat);
    }
    let z: u64 = days + 719468;
    let era: u64 = z / 146097;
    let doe: u64 = z % 146097;
    let adj: u64 = doe - doe / 1460 + doe / 36524;
    proof {
        assert(adj >= doe / 146096) by (nonlinear_arith)
            requires
                doe < 146097,
                adj == doe - doe / 1460 + doe / 36524,
        ;
    }
    let adj2: u64 = adj - doe / 146096;
    let yoe: u64 = adj2 / 365;
    let y: u64 = yoe + era * 400;
    proof {
        assert(doe >= 365 * yoe + yoe / 4 - yoe / 100) by (nonlinear_arith)
            requires
                doe < 146097,
                adj2 == doe - doe / 1460 + doe / 36524 - doe / 146096,
                yoe == adj2 / 365,
        ;
    }
    let doy: u64 = doe - (365 * yoe + yoe / 4 - yoe / 100);
    let mp: u64 = (5 * doy + 2) / 153;
    proof {
        assert(doy + 1 >= (153 * mp + 2) / 5) by (nonlinear_arith)
            requires
                doy <= 365,
                mp == (5 * doy + 2) / 153,
        ;
    }
    let d: u64 = doy - (153 * mp + 2) / 5 + 1;
    let m: u64 = if mp < 10 {
        mp + 3
    } else {
        mp - 9
    };
    let year: u64 = if m <= 2 {
        y + 1
    } else {
        y
    };
    (year, m, d)
}

/// A nonnegative value rendered in decimal, left-padded with zeros to at
/// least `width` digits.
pub open spec fn padded_digits(v: nat, width: nat) -> Seq<u8>
    decreases width,
{
    if dec_digits_of(v).len() >= width {
        dec_digits_of(v)
    } else {
        seq![48u8] + padded_digits(v, (width - 1) as nat)
    }
}

/// Append the decimal rendering of `v`, zero-padded to at least `width`
/// digits.
fn push_padded(out: &mut Vec<u8>, v: u64, width: usize)
    ensures
        final(out)@ == old(out)@ + padded_digits(v as nat, width as nat),
    decreases width,
{
    let digits = crate::strutil::dec_render(v);
    if digits.len() >= width {
        crate::strutil::push_bytes(out, digits.as_slice());
        assert(out@ =~= old(out)@ + padded_digits(v as nat, width as nat));
    } else {
        out.push(48);
        push_padded(out, v, width - 1);
        assert(out@ =~= old(out)@ + padded_digits(v as nat, width as nat));
    }
}

/// The RFC 3339 UTC rendering of an epoch second count: the civil date of
/// the day, then the time of day, each field zero-padded.
pub open spec fn spec_rfc3339(secs: nat) -> Seq<u8> {
    let (y, m, d) = spec_civil_from_days(secs / 86400);
    let tod = secs % 86400;
    padded_digits(y as nat, 4) + seq![45u8] + padded_digits(m as nat, 2) + seq![45u8]
        + padded_digits(d as nat, 2) + seq![84u8] + padded_digits(tod / 3600, 2) + seq![58u8]
        + padded_digits((tod % 3600) / 60, 2) + seq![58u8] + padded_digits(tod % 60, 2) + seq![
        90u8,
    ]
}

/// Render an epoch second count as an RFC 3339 UTC timestamp.
pub fn rfc3339_from_epoch(secs: u64) -> (r: String)
    ensures
        vstd::utf8::encode_utf8(r@) == spec_rfc3339(secs as nat),
{
    proof {
        lemma_civil_ranges((secs / 86400) as nat);
    }
    let (y, m, d) = civil_from_days(secs / 86400);
    let tod = secs % 86400;
    let mut out: Vec<u8> = Vec::new();
    push_padded(&mut out, y, 4);
    out.push(45);
    push_padded(&mut out, m, 2);
    out.push(45);
    push_padded(&mut out, d, 2);
    out.push(84);
    push_padded(&mut out, tod / 3600, 2);
    out.push(58);
    push_padded(&mut out, (tod % 3600) / 60, 2);
    out.push(58);
    push_padded(&mut out, tod % 60, 2);
    out.push(90);
    assert(out@ =~= spec_rfc3339(secs as nat));
    proof {
        lemma_padded_ascii(y as nat, 4);
        lemma_padded_ascii(m as nat, 2);
        lemma_padded_ascii(d as nat, 2);
        lemma_padded_ascii((tod / 3600) as nat, 2);
        lemma_padded_ascii(((tod % 3600) / 60) as nat, 2);
        lemma_padded_ascii((tod % 60) as nat, 2);
        lemma_rfc3339_ascii(secs as nat);
    }
    match crate::crypto::string_from_utf8(out) {
        Ok(text) => text,
        Err(()) => String::new(),
    }
}

/// Padded decimal digits are ASCII.
proof fn lemma_padded_ascii(v: nat, width: nat)
    ensures
        forall|i: int| 0 <= i < padded_digits(v, width).len() ==> #[trigger] padded_digits(
            v,
            width,
        )[i] < 128,
    decreases width,
{
    crate::obs::lemma_dec_digits_ascii(v);
    if dec_digits_of(v).len() < width {
        lemma_padded_ascii(v, (width - 1) as nat);
        assert forall|i: int| 0 <= i < padded_digits(v, width).len() implies #[trigger] padded_digits(
            v,
            width,
        )[i] < 128 by {
            if i > 0 {
                assert(padded_digits(v, width)[i] == padded_digits(v, (width - 1) as nat)[i - 1]);
            }
        }
    }
}

/// The whole timestamp is ASCII, hence valid UTF-8.
proof fn lemma_rfc3339_ascii(secs: nat)
    ensures
        vstd::utf8::valid_utf8(spec_rfc3339(secs)),
{
    let (y, m, d) = spec_civil_from_days(secs / 86400);
    lemma_civil_ranges(secs / 86400);
    let tod = secs % 86400;
    lemma_padded_ascii(y as nat, 4);
    lemma_padded_ascii(m as nat, 2);
    lemma_padded_ascii(d as nat, 2);
    lemma_padded_ascii(tod / 3600, 2);
    lemma_padded_ascii((tod % 3600) / 60, 2);
    lemma_padded_ascii(tod % 60, 2);
    assert(forall|i: int| 0 <= i < spec_rfc3339(secs).len() ==> #[trigger] spec_rfc3339(
        secs,
    )[i] < 128);
    crate::obs::lemma_ascii_valid_utf8(spec_rfc3339(secs));
}

} // verus!
