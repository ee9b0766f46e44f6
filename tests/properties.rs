use epochs::{
    apfs, chrome, cocoa, epoch2time, google_calendar, icq_from_parts, icq_milliseconds, java,
    minus_month, ndays_in_month, plus_month, plus_months, time2epoch, to_apfs, to_chrome,
    to_google_calendar, to_java, to_unix, to_windows_date, to_windows_file, unix, windows_date,
    windows_file, CivilDateTime, UniformFormat, MAX_DAYS, MAX_YEAR, MILLIS_PER_DAY, MIN_YEAR,
};

fn at(y: i32, mo: u32, d: u32, h: u32, mi: u32, s: u32, n: u32) -> CivilDateTime {
    CivilDateTime::new(y, mo, d, h, mi, s, n).unwrap()
}

const ALL_FORMATS: [UniformFormat; 10] = [
    UniformFormat::Apfs,
    UniformFormat::Chrome,
    UniformFormat::Cocoa,
    UniformFormat::Java,
    UniformFormat::Mozilla,
    UniformFormat::Symbian,
    UniformFormat::Unix,
    UniformFormat::UuidV1,
    UniformFormat::WindowsDate,
    UniformFormat::WindowsFile,
];

#[test]
fn february_follows_the_leap_year_rule() {
    assert_eq!(ndays_in_month(2000, 2), Some(29));
    assert_eq!(ndays_in_month(1900, 2), Some(28));
    assert_eq!(ndays_in_month(2004, 2), Some(29));
    assert_eq!(ndays_in_month(2001, 2), Some(28));
    assert_eq!(ndays_in_month(-4, 2), Some(29));
    assert_eq!(ndays_in_month(-100, 2), Some(28));
}

#[test]
fn month_lengths_and_their_limits() {
    assert_eq!(ndays_in_month(2009, 1), Some(31));
    assert_eq!(ndays_in_month(2009, 4), Some(30));
    assert_eq!(ndays_in_month(2009, 12), Some(31));
    assert_eq!(ndays_in_month(2009, 0), None);
    assert_eq!(ndays_in_month(2009, 13), None);
    assert_eq!(ndays_in_month(MIN_YEAR, 1), Some(31));
    assert_eq!(ndays_in_month(MAX_YEAR, 11), Some(30));
    assert_eq!(ndays_in_month(MAX_YEAR, 12), None);
    assert_eq!(ndays_in_month(MAX_YEAR + 1, 1), None);
    // The following month starts on the first supported day.
    assert_eq!(ndays_in_month(MIN_YEAR - 1, 12), Some(31));
    assert_eq!(ndays_in_month(MIN_YEAR - 1, 11), None);
    assert_eq!(ndays_in_month(MIN_YEAR - 2, 12), None);
}

#[test]
fn twelve_months_is_the_same_day_next_year() {
    let dt = at(2009, 2, 13, 23, 31, 30, 5);
    assert_eq!(plus_months(dt, 0), Some(dt));
    assert_eq!(plus_months(dt, 12), Some(at(2010, 2, 13, 23, 31, 30, 5)));
    assert_eq!(plus_months(dt, 24), Some(at(2011, 2, 13, 23, 31, 30, 5)));
    // The 29th of February does not exist in the following year.
    assert_eq!(plus_months(at(2008, 2, 29, 0, 0, 0, 0), 12), None);
}

#[test]
fn months_step_by_the_length_of_the_month_left() {
    assert_eq!(plus_month(at(2009, 1, 31, 0, 0, 0, 0)), Some(at(2009, 3, 3, 0, 0, 0, 0)));
    assert_eq!(plus_month(at(2008, 1, 31, 0, 0, 0, 0)), Some(at(2008, 3, 2, 0, 0, 0, 0)));
    assert_eq!(plus_months(at(2009, 1, 15, 6, 0, 0, 0), 2), Some(at(2009, 3, 15, 6, 0, 0, 0)));
    assert_eq!(plus_months(at(2009, 11, 30, 0, 0, 0, 0), 13), Some(at(2010, 12, 30, 0, 0, 0, 0)));
    // Negative counts step back, each step by the length of the month before.
    assert_eq!(plus_months(at(2009, 5, 10, 0, 0, 0, 0), -13), Some(at(2008, 4, 10, 0, 0, 0, 0)));
    assert_eq!(plus_months(at(2009, 2, 13, 23, 31, 30, 0), -1), Some(at(2009, 1, 13, 23, 31, 30, 0)));
    assert_eq!(plus_months(at(2009, 3, 31, 0, 0, 0, 0), -1), Some(at(2009, 3, 3, 0, 0, 0, 0)));
    assert_eq!(plus_months(at(2009, 1, 20, 0, 0, 0, 0), -2), Some(at(2008, 11, 20, 0, 0, 0, 0)));
    assert_eq!(minus_month(at(2008, 3, 1, 0, 0, 0, 0)), Some(at(2008, 2, 1, 0, 0, 0, 0)));
    assert_eq!(minus_month(at(MIN_YEAR, 1, 31, 0, 0, 0, 0)), None);
    assert_eq!(plus_months(at(2009, 5, 10, 0, 0, 0, 0), i64::MIN), None);
    assert_eq!(plus_month(at(MAX_YEAR, 12, 1, 0, 0, 0, 0)), None);
    assert_eq!(plus_months(at(2009, 5, 10, 0, 0, 0, 0), i64::MAX), None);
}

#[test]
fn uniform_round_trips() {
    assert_eq!(to_windows_file(windows_file(0x1cabbaa00ca9000).unwrap()), 0x1cabbaa00ca9000);
    assert_eq!(to_apfs(apfs(1_234_567_890_123_456_789).unwrap()), 1_234_567_890_123_456_789);
    assert_eq!(to_chrome(chrome(12_912_187_816_559_001).unwrap()), 12_912_187_816_559_001);
    assert_eq!(to_unix(unix(-1234567890).unwrap()), -1234567890);
    for f in ALL_FORMATS {
        for t in [0i64, 1, 999_999_999, 1_234_567_890_123, 63_401_787_090_000_000] {
            if let Some(dt) = f.to_datetime(t) {
                assert_eq!(f.from_datetime(dt), t);
            }
        }
    }
}

#[test]
fn catalog_matches_the_named_formats() {
    let t = 1_234_567_890_000_000i64;
    assert_eq!(UniformFormat::Chrome.to_datetime(t), chrome(t));
    assert_eq!(UniformFormat::Cocoa.to_datetime(t), cocoa(t));
    assert_eq!(UniformFormat::Java.to_datetime(t), java(t));
    assert_eq!(UniformFormat::WindowsDate.ticks_per_second(), 10_000_000);
    assert_eq!(UniformFormat::WindowsDate.offset_seconds(), -62_135_596_800);
    let dt = at(2009, 2, 13, 23, 31, 30, 0);
    assert_eq!(UniformFormat::WindowsFile.from_datetime(dt), to_windows_file(dt));
}

#[test]
fn conversions_fail_outside_the_supported_years() {
    let last = unix(8_210_266_876_799).unwrap();
    assert_eq!(last, at(MAX_YEAR, 12, 31, 23, 59, 59, 0));
    assert_eq!(unix(8_210_266_876_800), None);
    let first = unix(-8_334_601_228_800).unwrap();
    assert_eq!(first, at(MIN_YEAR, 1, 1, 0, 0, 0, 0));
    assert_eq!(unix(-8_334_601_228_801), None);
    assert_eq!(unix(i64::MAX), None);
    assert_eq!(unix(i64::MIN), None);
    assert_eq!(cocoa(i64::MAX), None);
    assert_eq!(google_calendar(i64::MAX), None);
    assert_eq!(google_calendar(i64::MIN), None);
}

#[test]
fn negative_ticks_keep_their_fraction() {
    assert_eq!(java(-1), Some(at(1969, 12, 31, 23, 59, 59, 999_000_000)));
    assert_eq!(java(-1).unwrap().to_string(), "1969-12-31 23:59:59.999");
    assert_eq!(epoch2time(-1, 1000, 0), Some(at(1969, 12, 31, 23, 59, 59, 999_000_000)));
    assert_eq!(java(-1000), Some(at(1969, 12, 31, 23, 59, 59, 0)));
    assert_eq!(java(-1500), Some(at(1969, 12, 31, 23, 59, 58, 500_000_000)));
    assert_eq!(to_java(java(-1500).unwrap()), -1500);
    let dt = windows_date(i64::MIN).unwrap();
    assert_eq!(to_windows_date(dt), i64::MIN);
    // One tick before the first supported second.
    assert_eq!(java(-8_334_601_228_800_000), Some(at(MIN_YEAR, 1, 1, 0, 0, 0, 0)));
    assert_eq!(java(-8_334_601_228_800_001), None);
}

#[test]
fn generic_transform_exact_values() {
    assert_eq!(epoch2time(1500, 1000, 0), Some(at(1970, 1, 1, 0, 0, 1, 500_000_000)));
    assert_eq!(epoch2time(7, 1, 86_400), Some(at(1970, 1, 2, 0, 0, 7, 0)));
    assert_eq!(time2epoch(at(1970, 1, 1, 0, 0, 1, 999_999_999), 1000, 0), 1999);
    assert_eq!(time2epoch(at(1969, 12, 31, 23, 59, 58, 500_000_000), 1, 0), -1);
    assert_eq!(time2epoch(at(1970, 1, 2, 0, 0, 0, 0), 1, 86_400), 0);
}

#[test]
fn backward_conversions_saturate() {
    assert_eq!(to_apfs(at(2500, 1, 1, 0, 0, 0, 0)), i64::MAX);
    assert_eq!(to_apfs(at(1500, 1, 1, 0, 0, 0, 0)), i64::MIN);
    assert_eq!(to_java(at(MAX_YEAR, 12, 31, 23, 59, 59, 0)), 8_210_266_876_799_000);
}

#[test]
fn google_calendar_details() {
    assert_eq!(google_calendar(0), Some(at(1969, 12, 31, 0, 0, 0, 0)));
    assert_eq!(google_calendar(-1), Some(at(1969, 12, 30, 23, 59, 59, 0)));
    // One synthetic 32-day month later is one calendar month later.
    assert_eq!(google_calendar(32 * 86_400), Some(at(1970, 1, 31, 0, 0, 0, 0)));
    let dt = at(2009, 2, 13, 23, 31, 30, 0);
    assert_eq!(google_calendar(to_google_calendar(dt)), Some(dt));
    assert_eq!(to_google_calendar(at(1970, 1, 1, 0, 0, 0, 0)), 86_400);
    // A negative synthetic month steps back one calendar month.
    assert_eq!(google_calendar(-32 * 86_400), Some(at(1969, 12, 1, 0, 0, 0, 0)));
}

#[test]
fn icq_limits_and_values() {
    assert_eq!(MAX_DAYS, i64::MAX / MILLIS_PER_DAY);
    assert_eq!(icq_from_parts(0, 0), Some(at(1899, 12, 30, 0, 0, 0, 0)));
    assert_eq!(icq_from_parts(1, 1), Some(at(1899, 12, 31, 0, 0, 0, 1_000_000)));
    assert_eq!(icq_from_parts(-1, -1), Some(at(1899, 12, 28, 23, 59, 59, 999_000_000)));
    assert_eq!(icq_from_parts(MAX_DAYS + 1, 0), None);
    assert_eq!(icq_from_parts(-MAX_DAYS - 1, 0), None);
    assert_eq!(icq_from_parts(MAX_DAYS, 0), None);
    assert_eq!(icq_from_parts(1, i64::MIN), None);
    assert_eq!(icq_milliseconds(at(1899, 12, 30, 0, 0, 0, 0)), 0);
    assert_eq!(icq_milliseconds(at(1899, 12, 29, 23, 59, 59, 999_500_000)), 0);
    assert_eq!(icq_milliseconds(at(1899, 12, 29, 23, 59, 59, 0)), -1000);
    assert_eq!(icq_milliseconds(at(2009, 2, 13, 23, 31, 30, 57_000_000)), 3_443_729_490_057);
}

#[test]
fn construction_checks_every_field() {
    assert!(CivilDateTime::new(2009, 2, 29, 0, 0, 0, 0).is_none());
    assert!(CivilDateTime::new(2008, 2, 29, 0, 0, 0, 0).is_some());
    assert!(CivilDateTime::new(2009, 4, 31, 0, 0, 0, 0).is_none());
    assert!(CivilDateTime::new(2009, 13, 1, 0, 0, 0, 0).is_none());
    assert!(CivilDateTime::new(2009, 0, 1, 0, 0, 0, 0).is_none());
    assert!(CivilDateTime::new(2009, 1, 0, 0, 0, 0, 0).is_none());
    assert!(CivilDateTime::new(2009, 1, 1, 24, 0, 0, 0).is_none());
    assert!(CivilDateTime::new(2009, 1, 1, 0, 60, 0, 0).is_none());
    assert!(CivilDateTime::new(2009, 1, 1, 0, 0, 60, 0).is_none());
    assert!(CivilDateTime::new(2009, 1, 1, 0, 0, 0, 1_000_000_000).is_none());
    assert!(CivilDateTime::new(MAX_YEAR, 12, 31, 23, 59, 59, 999_999_999).is_some());
    assert!(CivilDateTime::new(MAX_YEAR + 1, 1, 1, 0, 0, 0, 0).is_none());
    assert!(CivilDateTime::new(MIN_YEAR - 1, 12, 31, 0, 0, 0, 0).is_none());
}

#[test]
fn rendering_shows_the_fraction_when_present() {
    assert_eq!(at(2009, 2, 13, 23, 31, 30, 0).to_string(), "2009-02-13 23:31:30");
    assert_eq!(at(2009, 2, 13, 23, 31, 30, 57_000_000).to_string(), "2009-02-13 23:31:30.057");
    assert_eq!(at(1, 1, 1, 0, 0, 0, 1).to_string(), "0001-01-01 00:00:00.000000001");
}
