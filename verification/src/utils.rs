//! Small verified utilities: decimal formatting of download counts, and
//! the calendar helpers the stats aggregation uses.

use vstd::prelude::*;
use crate::strutil::push_char;

verus! {

/// The decimal digit character of a value below ten.
pub open spec fn spec_digit(d: int) -> char
    recommends
        0 <= d < 10,
{
    ((48 + d) as u8) as char
}

/// The decimal digits of a number, most significant first.
pub open spec fn spec_dec(n: int) -> Seq<char>
    recommends
        n >= 0,
    decreases n,
{
    if n < 10 {
        seq![spec_digit(n)]
    } else {
        spec_dec(n / 10) + seq![spec_digit(n % 10)]
    }
}

/// The decimal digits of a number.
pub fn u64_to_string(n: u64) -> (r: String)
    ensures
        r@ == spec_dec(n as int),
    decreases n,
{
    if n < 10 {
        let mut s = String::new();
        push_char(&mut s, ((48 + n) as u8) as char);
        proof {
            assert(s@ =~= seq![spec_digit(n as int)]);
        }
        s
    } else {
        let mut s = u64_to_string(n / 10);
        push_char(&mut s, ((48 + (n % 10)) as u8) as char);
        proof {
            assert(s@ =~= spec_dec(n as int));
        }
        s
    }
}

/// Whole and tenth parts of `count / divisor`, rounded half up to one
/// decimal place.
pub open spec fn spec_scaled(count: int, divisor: int) -> (int, int)
    recommends
        divisor >= 10,
{
    let whole = count / divisor;
    let tenths = ((count % divisor) * 10 + divisor / 2) / divisor;
    if tenths == 10 {
        (whole + 1, 0)
    } else {
        (whole, tenths)
    }
}

/// The display form of a download count: millions and thousands shown to
/// one decimal place with an `M` or `K` suffix, smaller counts in full.
pub open spec fn spec_format_download_count(count: u64) -> Seq<char> {
    if count >= 1000000 {
        let (w, t) = spec_scaled(count as int, 1000000);
        spec_dec(w) + seq!['.', spec_digit(t), 'M']
    } else if count >= 1000 {
        let (w, t) = spec_scaled(count as int, 1000);
        spec_dec(w) + seq!['.', spec_digit(t), 'K']
    } else {
        spec_dec(count as int)
    }
}

/// One scaled rendering, shared by the two suffixed branches.
fn format_scaled(count: u64, divisor: u64, suffix: char) -> (r: String)
    requires
        divisor == 1000000 || divisor == 1000,
    ensures
        ({
            let (w, t) = spec_scaled(count as int, divisor as int);
            r@ == spec_dec(w) + seq!['.', spec_digit(t), suffix]
        }),
{
    let whole = count / divisor;
    let rem = count % divisor;
    let tenths = (rem * 10 + divisor / 2) / divisor;
    let (whole, tenths) = if tenths == 10 {
        (whole + 1, 0u64)
    } else {
        (whole, tenths)
    };
    let mut s = u64_to_string(whole);
    push_char(&mut s, '.');
    push_char(&mut s, ((48 + tenths) as u8) as char);
    push_char(&mut s, suffix);
    proof {
        let (w, t) = spec_scaled(count as int, divisor as int);
        assert(s@ =~= spec_dec(w) + seq!['.', spec_digit(t), suffix]);
    }
    s
}

/// Format a download count for display: e.g. tens of millions as
/// `"10.2M"`, thousands as `"5.3K"`, and smaller counts in full.
pub fn format_download_count(count: u64) -> (r: String)
    ensures
        r@ == spec_format_download_count(count),
{
    if count >= 1000000 {
        format_scaled(count, 1000000, 'M')
    } else if count >= 1000 {
        format_scaled(count, 1000, 'K')
    } else {
        u64_to_string(count)
    }
}

/// Whether a year is a leap year of the Gregorian calendar.
pub fn leap_year(year: u16) -> (r: bool)
    ensures
        r == (year as int % 4 == 0 && (year as int % 100 != 0 || year as int % 400 == 0)),
{
    year % 4 == 0 && (year % 100 != 0 || year % 400 == 0)
}

/// The number of days of a month, for the per-day stats aggregation; the
/// month must be between 1 and 12.
pub fn days_in_month(year: u16, month: u8) -> (r: u8)
    requires
        1 <= month <= 12,
    ensures
        month == 2 ==> r == (if year as int % 4 == 0 && (year as int % 100 != 0 || year as int % 400
            == 0) {
            29int
        } else {
            28int
        }),
        month == 4 || month == 6 || month == 9 || month == 11 ==> r == 30,
        month == 1 || month == 3 || month == 5 || month == 7 || month == 8 || month == 10 || month
            == 12 ==> r == 31,
{
    match month {
        1 | 3 | 5 | 7 | 8 | 10 | 12 => 31,
        4 | 6 | 9 | 11 => 30,
        _ => {
            if leap_year(year) {
                29
            } else {
                28
            }
        },
    }
}

} // verus!
