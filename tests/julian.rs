use indrajala::event::IndraEvent;
use indrajala::julian::{now_utc, utc_at_unix_time, UtcDateTime, DAY_MICROS, MAX_UNIX_SECONDS, UNIX_EPOCH_JULIAN_MICROS};

fn dt(year: i32, month: u32, day: u32, hour: u32, minute: u32, second: u32, microsecond: u32) -> UtcDateTime {
    UtcDateTime { year, month, day, hour, minute, second, microsecond }
}

#[test]
fn j2000_epoch() {
    let jd = IndraEvent::datetime_to_julian(&dt(2000, 1, 1, 12, 0, 0, 0));
    assert_eq!(jd, 2_451_545 * DAY_MICROS);
}

#[test]
fn midnight_is_half_a_day_earlier() {
    let jd = IndraEvent::datetime_to_julian(&dt(2000, 1, 1, 0, 0, 0, 0));
    assert_eq!(jd, 2_451_545 * DAY_MICROS - DAY_MICROS / 2);
}

#[test]
fn fractions_of_a_day() {
    let jd = IndraEvent::datetime_to_julian(&dt(2024, 2, 29, 18, 30, 15, 250));
    let base = IndraEvent::datetime_to_julian(&dt(2024, 2, 29, 12, 0, 0, 0));
    assert_eq!(base, 2_460_370 * DAY_MICROS);
    assert_eq!(jd - base, 6 * 3_600_000_000 + 30 * 60_000_000 + 15 * 1_000_000 + 250);
}

#[test]
fn gregorian_reform_day() {
    let jd = IndraEvent::datetime_to_julian(&dt(1582, 10, 15, 12, 0, 0, 0));
    assert_eq!(jd, 2_299_161 * DAY_MICROS);
}

#[test]
fn now_is_after_2020() {
    let now = now_utc().unwrap();
    assert!(now.year >= 2020);
    let e = IndraEvent::new().unwrap();
    assert!(e.time_jd_start > 2_458_850 * DAY_MICROS);
    assert!(e.domain.is_empty() && e.from_id.is_empty() && e.data.is_empty());
    assert!(e.seq_no.is_none() && e.time_jd_end.is_none());
}

#[test]
fn julian_round_trip_on_pseudo_random_dates() {
    let mut state: u64 = 0x2545_F491_4F6C_DD1D;
    let mut next = move |n: u64| {
        state ^= state << 13;
        state ^= state >> 7;
        state ^= state << 17;
        state % n
    };
    for _ in 0..1000 {
        let year = 1583 + next(8000) as i32;
        let month = 1 + next(12) as u32;
        let leap = (year % 4 == 0 && year % 100 != 0) || year % 400 == 0;
        let days = match month {
            2 => if leap { 29 } else { 28 },
            4 | 6 | 9 | 11 => 30,
            _ => 31,
        };
        let d = dt(
            year,
            month,
            1 + next(days) as u32,
            next(24) as u32,
            next(60) as u32,
            next(60) as u32,
            next(1_000_000) as u32,
        );
        let jd = IndraEvent::datetime_to_julian(&d);
        assert_eq!(IndraEvent::julian_to_datetime(jd), d);
    }
}

#[test]
fn reform_day_and_the_day_before() {
    let after = IndraEvent::julian_to_datetime(2_299_161 * DAY_MICROS);
    assert_eq!(after, dt(1582, 10, 15, 12, 0, 0, 0));
    let before = IndraEvent::julian_to_datetime(2_299_160 * DAY_MICROS);
    assert_eq!(before, dt(1582, 10, 4, 12, 0, 0, 0));
}

#[test]
fn start_of_the_julian_period() {
    assert_eq!(IndraEvent::julian_to_datetime(0), dt(-4712, 1, 1, 12, 0, 0, 0));
    assert_eq!(
        IndraEvent::julian_to_datetime(DAY_MICROS / 2 - 1),
        dt(-4712, 1, 1, 23, 59, 59, 999_999)
    );
}

#[test]
fn julian_calendar_leap_day_before_reform() {
    // 1500 is a leap year in the Julian calendar only.
    let jd = 2_268_992 * DAY_MICROS;
    assert_eq!(IndraEvent::julian_to_datetime(jd), dt(1500, 2, 29, 12, 0, 0, 0));
}

#[test]
fn last_microsecond_of_the_range() {
    let last = dt(262142, 12, 31, 23, 59, 59, 999_999);
    let jd = IndraEvent::datetime_to_julian(&last);
    assert_eq!(jd, 8_421_133_636_799_999_999);
    assert_eq!(IndraEvent::julian_to_datetime(jd), last);
}

#[test]
fn unix_epoch_and_later_times() {
    assert_eq!(utc_at_unix_time(0, 0), Some(dt(1970, 1, 1, 0, 0, 0, 0)));
    assert_eq!(
        IndraEvent::datetime_to_julian(&dt(1970, 1, 1, 0, 0, 0, 0)),
        UNIX_EPOCH_JULIAN_MICROS
    );
    assert_eq!(
        utc_at_unix_time(1_431_648_000, 1_500),
        Some(dt(2015, 5, 15, 0, 0, 0, 1))
    );
    assert_eq!(
        utc_at_unix_time(MAX_UNIX_SECONDS, 999_999_999),
        Some(dt(262142, 12, 31, 23, 59, 59, 999_999))
    );
    assert_eq!(utc_at_unix_time(MAX_UNIX_SECONDS + 1, 0), None);
}

#[test]
fn event_stamped_at_unix_time() {
    let e = IndraEvent::at_unix_time(86_400, 2_999).unwrap();
    assert_eq!(e.time_jd_start, UNIX_EPOCH_JULIAN_MICROS + DAY_MICROS + 2);
    assert!(e.domain.is_empty() && e.data.is_empty() && e.time_jd_end.is_none());
    assert!(IndraEvent::at_unix_time(MAX_UNIX_SECONDS + 1, 0).is_none());
    let last = IndraEvent::at_unix_time(MAX_UNIX_SECONDS, 999_999_999).unwrap();
    assert_eq!(last.time_jd_start, 8_421_133_636_799_999_999);
}
