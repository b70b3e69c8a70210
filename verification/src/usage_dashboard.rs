//! Calendar arithmetic and markup pieces of the usage report.
use vstd::prelude::*;
use crate::text::{decimal, push_decimal_padded, push_str, zero_pad};

verus! {

/// The proleptic Gregorian date (year, month, day) of the day `z` counted
/// from 1970-01-01, by the era decomposition of Howard Hinnant's
/// `civil_from_days`: 400-year eras of 146097 days, years that begin on
/// March 1st.
pub open spec fn civil_date(z: int) -> (int, int, int) {
    let zz = z + 719468;
    let era = zz / 146097;
    let doe = zz - era * 146097;
    let yoe = (doe - doe / 1460 + doe / 36524 - doe / 146096) / 365;
    let y = yoe + era * 400;
    let doy = doe - (365 * yoe + yoe / 4 - yoe / 100);
    let mp = (5 * doy + 2) / 153;
    let d = doy - (153 * mp + 2) / 5 + 1;
    let m = if mp < 10 {
        mp + 3
    } else {
        mp - 9
    };
    (if m <= 2 {
        y + 1
    } else {
        y
    }, m, d)
}

/// The day count from 1970-01-01 of a proleptic Gregorian date (Howard
/// Hinnant's `days_from_civil`).
pub open spec fn days_from_civil(y: int, m: int, d: int) -> int {
    let yy = if m <= 2 {
        y - 1
    } else {
        y
    };
    let era = yy / 400;
    let yoe = yy - era * 400;
    let mp = if m > 2 {
        m - 3
    } else {
        m + 9
    };
    let doy = (153 * mp + 2) / 5 + d - 1;
    let doe = yoe * 365 + yoe / 4 - yoe / 100 + doy;
    era * 146097 + doe - 719468
}

/// Whether `y` is a leap year of the Gregorian calendar.
pub open spec fn is_leap(y: int) -> bool {
    y % 4 == 0 && (y % 100 != 0 || y % 400 == 0)
}

/// The number of days of month `m` of year `y`.
pub open spec fn month_days(y: int, m: int) -> int {
    if m == 2 {
        if is_leap(y) {
            29
        } else {
            28
        }
    } else if m == 4 || m == 6 || m == 9 || m == 11 {
        30
    } else {
        31
    }
}

/// The range of day counts whose year fits an `i32`.
pub open spec fn civil_in_range(z: int) -> bool {
    -784_000_000_000 <= z <= 784_000_000_000
}

/// Civil date from days since 1970-01-01 (Howard Hinnant's algorithm).
pub fn civil_from_days(z: i64) -> (r: (i32, u32, u32))
    requires
        civil_in_range(z as int),
    ensures
        (r.0 as int, r.1 as int, r.2 as int) == civil_date(z as int),
        1 <= r.1 <= 12,
        1 <= r.2 <= month_days(r.0 as int, r.1 as int),
        days_from_civil(r.0 as int, r.1 as int, r.2 as int) == z,
{
    proof {
        law_civil_date_counts_back(z as int);
    }
    let zz = z + 719468;
    let era: i64 = if zz >= 0 {
        zz / 146097
    } else {
        -((146096 - zz) / 146097)
    };
    assert(era == zz / 146097) by (nonlinear_arith)
        requires
            zz >= 0 ==> era == zz / 146097,
            zz < 0 ==> era == -((146096 - zz) / 146097),
    {
        if zz < 0 {
            let w = 146096 - zz;
            assert(w == 146097 * (w / 146097) + w % 146097);
            assert(0 <= w % 146097 < 146097);
            assert(zz == 146097 * (-(w / 146097)) + (146096 - w % 146097));
        }
    }
    assert(0 <= zz - era * 146097 < 146097) by (nonlinear_arith)
        requires
            era == zz / 146097,
    {
    }
    assert(-5_366_400 <= era <= 5_366_400) by (nonlinear_arith)
        requires
            0 <= zz - era * 146097 < 146097,
            -784_000_000_000 + 719468 <= zz <= 784_000_000_000 + 719468,
    {
    }
    let doe = (zz - era * 146097) as u32;
    let yoe = (doe - doe / 1460 + doe / 36524 - doe / 146096) / 365;
    assert(yoe <= 400);
    let y = (yoe as i64 + era * 400) as i32;
    let doy = doe - (365 * yoe + yoe / 4 - yoe / 100);
    let mp = (5 * doy + 2) / 153;
    let d = doy - (153 * mp + 2) / 5 + 1;
    let m = if mp < 10 {
        mp + 3
    } else {
        mp - 9
    };
    let y = if m <= 2 {
        y + 1
    } else {
        y
    };
    (y, m, d)
}

/// The `YYYY-MM-DD` text of a date, each field padded with zeros.
pub open spec fn date_text(y: nat, m: nat, d: nat) -> Seq<char> {
    zero_pad(decimal(y), 4) + "-"@ + zero_pad(decimal(m), 2) + "-"@ + zero_pad(decimal(d), 2)
}

/// The `YYYY-MM-DD` date (UTC) of an instant given in milliseconds since
/// the epoch.
pub fn format_date_from_ms(ms: u64) -> (s: String)
    ensures
        ({
            let (y, m, d) = civil_date((ms / 86_400_000) as int);
            &&& y >= 0 && m >= 1 && d >= 1
            &&& s@ == date_text(y as nat, m as nat, d as nat)
        }),
{
    let days = (ms / 1000 / 86400) as i64;
    assert(ms / 1000 / 86400 == ms / 86_400_000) by (nonlinear_arith);
    let (y, m, d) = civil_from_days(days);
    let mut s = String::new();
    push_decimal_padded(&mut s, y as u64, 4);
    push_str(&mut s, "-");
    push_decimal_padded(&mut s, m as u64, 2);
    push_str(&mut s, "-");
    push_decimal_padded(&mut s, d as u64, 2);
    s
}

/// Appends a summary card of the usage report: a value over its label.
pub fn push_stat_card(html: &mut String, value: &str, label: &str)
    ensures
        final(html)@ == old(html)@ + "<div class='stat'><div class='stat-value'>"@ + value@
            + "</div><div class='stat-label'>"@ + label@ + "</div></div>"@,
{
    push_str(html, "<div class='stat'><div class='stat-value'>");
    push_str(html, value);
    push_str(html, "</div><div class='stat-label'>");
    push_str(html, label);
    push_str(html, "</div></div>");
}

/// The year of an era and the day of that year that a day of the era falls
/// on: the year lies in `0..400` and the day in `0..=365`.
proof fn lemma_year_of_era(doe: int)
    requires
        0 <= doe <= 146096,
    ensures
        ({
            let yoe = (doe - doe / 1460 + doe / 36524 - doe / 146096) / 365;
            let doy = doe - (365 * yoe + yoe / 4 - yoe / 100);
            &&& 0 <= yoe <= 399
            &&& 0 <= doy <= 365
            &&& doy == 365 ==> (yoe + 1) % 4 == 0 && ((yoe + 1) % 100 != 0 || yoe == 399)
        }),
{
}

/// The civil date of a day count counts back to that day: its month lies in
/// `1..=12`, its day is one of that month of that year, and `days_from_civil` of it is the day
/// count again.
pub proof fn law_civil_date_counts_back(z: int)
    ensures
        ({
            let (y, m, d) = civil_date(z);
            &&& 1 <= m <= 12
            &&& 1 <= d <= month_days(y, m)
            &&& days_from_civil(y, m, d) == z
        }),
{
    let zz = z + 719468;
    let era = zz / 146097;
    let doe = zz - era * 146097;
    assert(0 <= doe < 146097);
    lemma_year_of_era(doe);
    let yoe = (doe - doe / 1460 + doe / 36524 - doe / 146096) / 365;
    let doy = doe - (365 * yoe + yoe / 4 - yoe / 100);
    let mp = (5 * doy + 2) / 153;
    assert(0 <= mp <= 11);
    assert((yoe + era * 400) / 400 == era);
    let y = yoe + era * 400 + 1;
    if mp == 11 && doy == 365 {
        assert(y % 4 == (yoe + 1) % 4);
        assert(y % 100 == (yoe + 1) % 100 || yoe == 399);
        assert(yoe == 399 ==> y % 400 == 0);
    }
}

} // verus!
