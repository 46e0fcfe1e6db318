use yunying_server::calendar::{civil_from_days, utc_iso};

fn reference_days(y: i64, m: i64, d: i64) -> i64 {
    // Days from 1970-01-01 by counting whole years and months.
    let leap = |y: i64| (y % 4 == 0 && y % 100 != 0) || y % 400 == 0;
    let month_len = |y: i64, m: i64| match m {
        1 | 3 | 5 | 7 | 8 | 10 | 12 => 31,
        4 | 6 | 9 | 11 => 30,
        _ => {
            if leap(y) {
                29
            } else {
                28
            }
        }
    };
    let mut days = 0i64;
    if y >= 1970 {
        for yy in 1970..y {
            days += if leap(yy) { 366 } else { 365 };
        }
    } else {
        for yy in y..1970 {
            days -= if leap(yy) { 366 } else { 365 };
        }
    }
    for mm in 1..m {
        days += month_len(y, mm);
    }
    days + d - 1
}

#[test]
fn epoch_day_is_new_year_1970() {
    assert_eq!(civil_from_days(0), (1970, 1, 1));
    assert_eq!(civil_from_days(-1), (1969, 12, 31));
    assert_eq!(civil_from_days(19723), (2024, 1, 1));
    assert_eq!(civil_from_days(19782), (2024, 2, 29));
    assert_eq!(civil_from_days(11016), (2000, 2, 29));
    assert_eq!(civil_from_days(-719468), (0, 3, 1));
}

#[test]
fn day_numbers_round_trip_over_centuries() {
    let mut z = -200_000i64;
    while z <= 200_000 {
        let (y, m, d) = civil_from_days(z);
        assert!((1..=12).contains(&m));
        assert!(d >= 1 && d <= 31);
        assert_eq!(reference_days(y, m, d), z);
        z += 97;
    }
}

#[test]
fn utc_timestamps_are_written_in_iso_form() {
    assert_eq!(utc_iso(0, 0), "1970-01-01T00:00:00.000Z");
    assert_eq!(utc_iso(1_704_067_200, 5), "2024-01-01T00:00:00.005Z");
    assert_eq!(utc_iso(1_709_251_199, 999), "2024-02-29T23:59:59.999Z");
    assert_eq!(utc_iso(86_399, 120), "1970-01-01T23:59:59.120Z");
}
