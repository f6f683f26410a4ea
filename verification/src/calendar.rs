//! Proleptic Gregorian calendar arithmetic for date labels.
//!
//! The store works on day numbers (days since 1970-01-01, UTC); only the
//! rendered labels need calendar dates. `civil_from_days` inverts the civil
//! day-number formula: the returned date is a valid calendar date whose day
//! number is exactly the input.

use vstd::prelude::*;

verus! {

/// A calendar year with a 29-day February.
pub open spec fn is_leap_year(y: int) -> bool {
    y % 4 == 0 && (y % 100 != 0 || y % 400 == 0)
}

/// Days in a month of a calendar year.
pub open spec fn days_in_month(y: int, m: int) -> int {
    if m == 2 {
        if is_leap_year(y) {
            29
        } else {
            28
        }
    } else if m == 4 || m == 6 || m == 9 || m == 11 {
        30
    } else {
        31
    }
}

/// A valid calendar date.
pub open spec fn valid_date(y: int, m: int, d: int) -> bool {
    1 <= m <= 12 && 1 <= d <= days_in_month(y, m)
}

/// Days since 1970-01-01 of a calendar date: the civil day-number formula
/// over 400-year eras of 146097 days, counting from March so that the leap
/// day falls last in the year.
pub open spec fn days_from_civil(y: int, m: int, d: int) -> int {
    let yy = if m <= 2 {
        y - 1
    } else {
        y
    };
    let era = yy / 400;
    let yoe = yy - era * 400;
    let mp = if m > 2 {
        m - 3
    } else {
        m + 9
    };
    let doy = (153 * mp + 2) / 5 + d - 1;
    let doe = yoe * 365 + yoe / 4 - yoe / 100 + doy;
    era * 146097 + doe - 719468
}

/// Largest supported day number: 9999-12-31, the last date with a four-digit
/// year label.
pub const MAX_DAY: i64 = 2_932_896;

/// Largest supported timestamp: the last second of the last supported day.
pub const MAX_TIME: i64 = 253_402_300_799;

/// The steps of `civil_from_days` over unbounded integers, as the
/// specification of what the conversion returns. `civil_from_days` proves
/// that on the supported range this triple is a valid calendar date whose
/// day number is exactly `z`.
pub open spec fn spec_civil_from_days(z: int) -> (int, int, int) {
    let z1 = z + 719468;
    let era = z1 / 146097;
    let doe = z1 % 146097;
    let yoe = (doe - doe / 1460 + doe / 36524 - doe / 146096) / 365;
    let y = yoe + era * 400;
    let doy = doe - (365 * yoe + yoe / 4 - yoe / 100);
    let mp = (5 * doy + 2) / 153;
    let d = doy - (153 * mp + 2) / 5 + 1;
    let m = if mp < 10 {
        mp + 3
    } else {
        mp - 9
    };
    let yy = if m <= 2 {
        y + 1
    } else {
        y
    };
    (yy, m, d)
}

/// The calendar date of a day number: the unique valid date whose civil day
/// number is the input.
#[verifier::rlimit(100)]
pub fn civil_from_days(z: i64) -> (ymd: (i64, u8, u8))
    requires
        0 <= z <= MAX_DAY,
    ensures
        (ymd.0 as int, ymd.1 as int, ymd.2 as int) == spec_civil_from_days(z as int),
        valid_date(ymd.0 as int, ymd.1 as int, ymd.2 as int),
        days_from_civil(ymd.0 as int, ymd.1 as int, ymd.2 as int) == z,
        1970 <= ymd.0 <= 9999,
{
    let z1 = z + 719468;
    let era = z1 / 146097;
    let doe = z1 % 146097;
    proof {
        vstd::arithmetic::div_mod::lemma_fundamental_div_mod(z1 as int, 146097);
        lemma_yoe_bounds(doe as int);
    }
    let yoe = (doe - doe / 1460 + doe / 36524 - doe / 146096) / 365;
    let y = yoe + era * 400;
    let doy = doe - (365 * yoe + yoe / 4 - yoe / 100);
    proof {
        assert(0 <= doy <= 365);
        vstd::arithmetic::div_mod::lemma_fundamental_div_mod(5 * (doy as int) + 2, 153);
    }
    let mp = (5 * doy + 2) / 153;
    proof {
        assert(0 <= mp <= 11);
        vstd::arithmetic::div_mod::lemma_fundamental_div_mod(153 * (mp as int) + 2, 5);
    }
    let d = doy - (153 * mp + 2) / 5 + 1;
    let m = if mp < 10 {
        mp + 3
    } else {
        mp - 9
    };
    let yy = if m <= 2 {
        y + 1
    } else {
        y
    };
    proof {
        // The construction inverts the day-number formula term by term.
        vstd::arithmetic::div_mod::lemma_fundamental_div_mod_converse(
            y as int,
            400,
            era as int,
            yoe as int,
        );
        assert(days_from_civil(yy as int, m as int, d as int) == z);
        // The day of month stays within its month, the leap day only in a
        // leap year's February.
        assert(1 <= d);
        assert(d <= days_in_month(yy as int, m as int)) by {
            if mp == 11 && d == 29 {
                // doy is the last day of a 366-day year of the era.
                vstd::arithmetic::div_mod::lemma_mod_multiples_vanish(
                    100 * (era as int),
                    yoe as int + 1,
                    4,
                );
                vstd::arithmetic::div_mod::lemma_mod_multiples_vanish(
                    4 * (era as int),
                    yoe as int + 1,
                    100,
                );
                vstd::arithmetic::div_mod::lemma_mod_multiples_vanish(
                    era as int,
                    yoe as int + 1,
                    400,
                );
                if yoe == 399 {
                    vstd::arithmetic::div_mod::lemma_mod_multiples_vanish(
                        era as int + 1,
                        0,
                        400,
                    );
                }
                assert(is_leap_year(yy as int));
            }
        }
        assert(0 <= yy <= 9999);
    }
    (yy, m as u8, d as u8)
}

/// The year-of-era read off a day-of-era is in range and starts no later
/// than the day: the day falls inside that year of the era.
#[verifier::rlimit(100)]
proof fn lemma_yoe_bounds(doe: int)
    requires
        0 <= doe <= 146096,
    ensures
        ({
            let yoe = (doe - doe / 1460 + doe / 36524 - doe / 146096) / 365;
            let start = yoe * 365 + yoe / 4 - yoe / 100;
            &&& 0 <= yoe <= 399
            &&& start <= doe
            &&& doe - start <= 365
            &&& doe - start == 365 ==> (yoe + 1) % 4 == 0 && ((yoe + 1) % 100 != 0 || yoe + 1
                == 400)
        }),
{
    let q1 = doe / 1460;
    let q2 = doe / 36524;
    let q3 = doe / 146096;
    vstd::arithmetic::div_mod::lemma_fundamental_div_mod(doe, 1460);
    vstd::arithmetic::div_mod::lemma_fundamental_div_mod(doe, 36524);
    vstd::arithmetic::div_mod::lemma_fundamental_div_mod(doe, 146096);
    let t = doe - q1 + q2 - q3;
    let yoe = t / 365;
    vstd::arithmetic::div_mod::lemma_fundamental_div_mod(t, 365);
    assert(0 <= yoe <= 399);
    vstd::arithmetic::div_mod::lemma_fundamental_div_mod(yoe, 4);
    vstd::arithmetic::div_mod::lemma_fundamental_div_mod(yoe, 100);
    vstd::arithmetic::div_mod::lemma_fundamental_div_mod(yoe + 1, 4);
    vstd::arithmetic::div_mod::lemma_fundamental_div_mod(yoe + 1, 100);
    let start = yoe * 365 + yoe / 4 - yoe / 100;
    assert(start <= doe && doe - start <= 365);
    if doe - start == 365 {
        assert((yoe + 1) % 4 == 0 && ((yoe + 1) % 100 != 0 || yoe + 1 == 400));
    }
}

} // verus!
