//! Conversions between the numeric timestamps of many systems (filesystems,
//! browsers, operating systems, calendar services, UUIDs) and civil
//! date-times: proleptic-Gregorian dates with a time of day, no time zone.
pub mod backend;
pub mod civil;
pub mod formats;
pub mod google;
pub mod icq;
pub mod months;
pub mod uniform;

pub use civil::{CivilDateTime, MAX_YEAR, MIN_YEAR};
pub use formats::{
    apfs, chrome, cocoa, java, mozilla, symbian, to_apfs, to_chrome, to_cocoa, to_java,
    to_mozilla, to_symbian, to_unix, to_uuid_v1, to_windows_date, to_windows_file, unix, uuid_v1,
    windows_date, windows_file, UniformFormat,
};
pub use google::{google_calendar, to_google_calendar};
pub use icq::{icq_from_parts, icq_milliseconds, MAX_DAYS, MILLIS_PER_DAY};
pub use months::{minus_month, ndays_in_month, plus_month, plus_months};
pub use uniform::{epoch2time, time2epoch};
