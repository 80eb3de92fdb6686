//
// The clock line of the bar: the local wall-clock time rendered as
// `YYYY-MM-DD HH:MM:SS`. Reading the clock is the one outside call;
// everything from the six calendar fields to the final string is verified.
//
use vstd::prelude::*;
use vstd::string::StringExecFns;
use chrono::Datelike;
use chrono::Timelike;

verus! {

/// The character for one decimal digit.
pub open spec fn spec_digit_char(d: int) -> char {
    if d == 0 {
        '0'
    } else if d == 1 {
        '1'
    } else if d == 2 {
        '2'
    } else if d == 3 {
        '3'
    } else if d == 4 {
        '4'
    } else if d == 5 {
        '5'
    } else if d == 6 {
        '6'
    } else if d == 7 {
        '7'
    } else if d == 8 {
        '8'
    } else {
        '9'
    }
}

/// A number rendered as two decimal digits, zero padded.
pub open spec fn spec_two_digits(n: int) -> Seq<char> {
    seq![spec_digit_char((n / 10) % 10), spec_digit_char(n % 10)]
}

/// A number rendered as four decimal digits, zero padded.
pub open spec fn spec_four_digits(n: int) -> Seq<char> {
    seq![
        spec_digit_char((n / 1000) % 10),
        spec_digit_char((n / 100) % 10),
        spec_digit_char((n / 10) % 10),
        spec_digit_char(n % 10),
    ]
}

/// A non-negative number rendered in decimal with no padding.
pub open spec fn spec_decimal_digits(n: int) -> Seq<char>
    decreases n,
{
    if n < 10 {
        seq![spec_digit_char(n)]
    } else {
        spec_decimal_digits(n / 10).push(spec_digit_char(n % 10))
    }
}

/// The year part of the clock line: zero padded to four digits within
/// 0..=9999, plain decimal digits beyond that, and a leading minus sign
/// for years before year zero.
pub open spec fn spec_year_chars(y: int) -> Seq<char> {
    if 0 <= y <= 9999 {
        spec_four_digits(y)
    } else if y > 9999 {
        spec_decimal_digits(y)
    } else if -y <= 9999 {
        seq!['-'] + spec_four_digits(-y)
    } else {
        seq!['-'] + spec_decimal_digits(-y)
    }
}

/// The whole clock line `YYYY-MM-DD HH:MM:SS` for the six calendar fields.
pub open spec fn spec_format_ts(y: int, mo: int, d: int, h: int, mi: int, s: int) -> Seq<char> {
    spec_year_chars(y) + seq!['-'] + spec_two_digits(mo) + seq!['-'] + spec_two_digits(d)
        + seq![' '] + spec_two_digits(h) + seq![':'] + spec_two_digits(mi) + seq![':']
        + spec_two_digits(s)
}

fn digit_str(d: u8) -> (r: &'static str)
    requires
        d < 10,
    ensures
        r@ == seq![spec_digit_char(d as int)],
{
    proof {
        reveal_strlit("0");
        reveal_strlit("1");
        reveal_strlit("2");
        reveal_strlit("3");
        reveal_strlit("4");
        reveal_strlit("5");
        reveal_strlit("6");
        reveal_strlit("7");
        reveal_strlit("8");
        reveal_strlit("9");
    }
    let r: &'static str = if d == 0 {
        "0"
    } else if d == 1 {
        "1"
    } else if d == 2 {
        "2"
    } else if d == 3 {
        "3"
    } else if d == 4 {
        "4"
    } else if d == 5 {
        "5"
    } else if d == 6 {
        "6"
    } else if d == 7 {
        "7"
    } else if d == 8 {
        "8"
    } else {
        "9"
    };
    proof {
        assert(r@ =~= seq![spec_digit_char(d as int)]);
    }
    r
}

fn push_digit(out: &mut String, d: u8)
    requires
        d < 10,
    ensures
        final(out)@ == old(out)@.push(spec_digit_char(d as int)),
{
    let s = digit_str(d);
    out.append(s);
    proof {
        assert(final(out)@ =~= old(out)@.push(spec_digit_char(d as int)));
    }
}

fn push_two_digits(out: &mut String, n: u8)
    requires
        n < 100,
    ensures
        final(out)@ == old(out)@ + spec_two_digits(n as int),
{
    push_digit(out, n / 10);
    push_digit(out, n % 10);
    proof {
        assert(final(out)@ =~= old(out)@ + spec_two_digits(n as int));
    }
}

fn push_four_digits(out: &mut String, n: u32)
    requires
        n <= 9999,
    ensures
        final(out)@ == old(out)@ + spec_four_digits(n as int),
{
    push_digit(out, (n / 1000 % 10) as u8);
    push_digit(out, (n / 100 % 10) as u8);
    push_digit(out, (n / 10 % 10) as u8);
    push_digit(out, (n % 10) as u8);
    proof {
        assert(final(out)@ =~= old(out)@ + spec_four_digits(n as int));
    }
}

fn push_decimal_digits(out: &mut String, n: u32)
    ensures
        final(out)@ == old(out)@ + spec_decimal_digits(n as int),
    decreases n,
{
    if n < 10 {
        push_digit(out, n as u8);
        proof {
            assert(final(out)@ =~= old(out)@ + spec_decimal_digits(n as int));
        }
    } else {
        push_decimal_digits(out, n / 10);
        push_digit(out, (n % 10) as u8);
        proof {
            assert(final(out)@ =~= old(out)@ + spec_decimal_digits(n as int));
        }
    }
}

fn push_year(out: &mut String, y: i32)
    ensures
        final(out)@ == old(out)@ + spec_year_chars(y as int),
{
    proof {
        reveal_strlit("-");
    }
    if 0 <= y && y <= 9999 {
        push_four_digits(out, y as u32);
        proof {
            assert(final(out)@ =~= old(out)@ + spec_year_chars(y as int));
        }
    } else if y > 9999 {
        push_decimal_digits(out, y as u32);
        proof {
            assert(final(out)@ =~= old(out)@ + spec_year_chars(y as int));
        }
    } else {
        let mag: u32 = (-(y as i64)) as u32;
        proof {
            assert(mag as int == -(y as int));
        }
        out.append("-");
        if mag <= 9999 {
            push_four_digits(out, mag);
        } else {
            push_decimal_digits(out, mag);
        }
        proof {
            assert(final(out)@ =~= old(out)@ + spec_year_chars(y as int));
        }
    }
}

/// Renders the six calendar fields as `YYYY-MM-DD HH:MM:SS`.
pub fn format_timestamp(y: i32, mo: u8, d: u8, h: u8, mi: u8, s: u8) -> (r: String)
    requires
        mo < 100,
        d < 100,
        h < 100,
        mi < 100,
        s < 100,
    ensures
        r@ == spec_format_ts(y as int, mo as int, d as int, h as int, mi as int, s as int),
{
    proof {
        reveal_strlit("-");
        reveal_strlit(" ");
        reveal_strlit(":");
    }
    let mut out = String::new();
    push_year(&mut out, y);
    out.append("-");
    push_two_digits(&mut out, mo);
    out.append("-");
    push_two_digits(&mut out, d);
    out.append(" ");
    push_two_digits(&mut out, h);
    out.append(":");
    push_two_digits(&mut out, mi);
    out.append(":");
    push_two_digits(&mut out, s);
    proof {
        assert(out@ =~= spec_format_ts(
            y as int,
            mo as int,
            d as int,
            h as int,
            mi as int,
            s as int,
        ));
    }
    out
}

/// A decimal digit character.
pub open spec fn is_digit_char(c: char) -> bool {
    c == '0' || c == '1' || c == '2' || c == '3' || c == '4' || c == '5' || c == '6' || c == '7'
        || c == '8' || c == '9'
}

/// The shape `DDDD-DD-DD DD:DD:DD` with a digit at every `D`.
pub open spec fn is_timestamp_shape(t: Seq<char>) -> bool {
    &&& t.len() == 19
    &&& t[4] == '-'
    &&& t[7] == '-'
    &&& t[10] == ' '
    &&& t[13] == ':'
    &&& t[16] == ':'
    &&& forall|i: int|
        0 <= i < 19 && i != 4 && i != 7 && i != 10 && i != 13 && i != 16 ==> is_digit_char(
            #[trigger] t[i],
        )
}

/// Within the four-digit year range, the clock line always takes the
/// shape `DDDD-DD-DD DD:DD:DD`.
pub proof fn lemma_clock_shape(y: int, mo: int, d: int, h: int, mi: int, s: int)
    requires
        0 <= y <= 9999,
    ensures
        is_timestamp_shape(spec_format_ts(y, mo, d, h, mi, s)),
{
    let t = spec_format_ts(y, mo, d, h, mi, s);
    assert(spec_year_chars(y) == spec_four_digits(y));
    assert(t.len() == 19);
    assert(t[0] == spec_digit_char((y / 1000) % 10));
    assert(t[1] == spec_digit_char((y / 100) % 10));
    assert(t[2] == spec_digit_char((y / 10) % 10));
    assert(t[3] == spec_digit_char(y % 10));
    assert(t[4] == '-');
    assert(t[5] == spec_digit_char((mo / 10) % 10));
    assert(t[6] == spec_digit_char(mo % 10));
    assert(t[7] == '-');
    assert(t[8] == spec_digit_char((d / 10) % 10));
    assert(t[9] == spec_digit_char(d % 10));
    assert(t[10] == ' ');
    assert(t[11] == spec_digit_char((h / 10) % 10));
    assert(t[12] == spec_digit_char(h % 10));
    assert(t[13] == ':');
    assert(t[14] == spec_digit_char((mi / 10) % 10));
    assert(t[15] == spec_digit_char(mi % 10));
    assert(t[16] == ':');
    assert(t[17] == spec_digit_char((s / 10) % 10));
    assert(t[18] == spec_digit_char(s % 10));
    assert forall|i: int|
        0 <= i < 19 && i != 4 && i != 7 && i != 10 && i != 13 && i != 16 implies is_digit_char(
        t[i],
    ) by {}
}

/// Relies on chrono::Local::now and chrono's Datelike/Timelike getters:
/// month() is 1..=12 and day() is 1..=31, hour() is 0..=23, and minute()
/// and second() are 0..=59 (leap seconds surface only in nanoseconds).
/// The reading itself depends on the machine's clock, so nothing more is
/// promised of the values.
#[verifier::external_body]
fn local_now() -> (r: (i32, u8, u8, u8, u8, u8))
    ensures
        1 <= r.1 <= 12,
        1 <= r.2 <= 31,
        r.3 <= 23,
        r.4 <= 59,
        r.5 <= 59,
{
    let t = chrono::Local::now();
    (t.year(), t.month() as u8, t.day() as u8, t.hour() as u8, t.minute() as u8, t.second() as u8)
}

/// The current local wall-clock time as `YYYY-MM-DD HH:MM:SS`.
pub fn now() -> (r: String)
    ensures
        exists|y: int, mo: int, d: int, h: int, mi: int, s: int|
            1 <= mo <= 12 && 1 <= d <= 31 && 0 <= h <= 23 && 0 <= mi <= 59 && 0 <= s <= 59
                && r@ == #[trigger] spec_format_ts(y, mo, d, h, mi, s),
{
    let (y, mo, d, h, mi, s) = local_now();
    let r = format_timestamp(y, mo, d, h, mi, s);
    proof {
        assert(r@ == spec_format_ts(y as int, mo as int, d as int, h as int, mi as int, s as int));
    }
    r
}

} // verus!
