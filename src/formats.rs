//! The catalog of uniform formats: each one is a tick resolution and an
//! offset from the Unix epoch, applied through the generic conversions.
use crate::civil::CivilDateTime;
use crate::uniform::{
    datetime_to_ticks, epoch2time, lemma_ticks_round_trip, ticks_to_datetime, time2epoch,
    valid_divisor,
};
use vstd::prelude::*;

verus! {

/// A named uniform format.
#[derive(Clone, Copy, Debug, PartialEq, Eq, Structural)]
pub enum UniformFormat {
    /// APFS time: nanoseconds since the Unix epoch.
    Apfs,
    /// Chrome time: microseconds since 1601-01-01, which is 11,644,473,600
    /// seconds before the Unix epoch.
    Chrome,
    /// Cocoa time: seconds since 2001-01-01, which is 978,307,200 seconds after
    /// the Unix epoch.
    Cocoa,
    /// Java time: milliseconds since the Unix epoch.
    Java,
    /// Mozilla time (Firefox): microseconds since the Unix epoch.
    Mozilla,
    /// Symbian time: microseconds since the year 0, which is 62,167,219,200
    /// seconds before the Unix epoch.
    Symbian,
    /// Unix time: seconds since 1970-01-01.
    Unix,
    /// UUID version 1 time: hectonanoseconds (100 ns) since 1582-10-15, which
    /// is 12,219,292,800 seconds before the Unix epoch.
    UuidV1,
    /// Windows date time (.NET): hectonanoseconds since 0001-01-01, which is
    /// 62,135,596,800 seconds before the Unix epoch.
    WindowsDate,
    /// Windows file time (NTFS): hectonanoseconds since 1601-01-01, which is
    /// 11,644,473,600 seconds before the Unix epoch.
    WindowsFile,
}

impl UniformFormat {
    /// Ticks per second.
    pub open spec fn spec_ticks_per_second(self) -> int {
        match self {
            UniformFormat::Apfs => 1_000_000_000,
            UniformFormat::Chrome => 1_000_000,
            UniformFormat::Cocoa => 1,
            UniformFormat::Java => 1_000,
            UniformFormat::Mozilla => 1_000_000,
            UniformFormat::Symbian => 1_000_000,
            UniformFormat::Unix => 1,
            UniformFormat::UuidV1 => 10_000_000,
            UniformFormat::WindowsDate => 10_000_000,
            UniformFormat::WindowsFile => 10_000_000,
        }
    }

    /// Seconds to add to the whole seconds of a tick count to get Unix seconds.
    pub open spec fn spec_offset_seconds(self) -> int {
        match self {
            UniformFormat::Apfs => 0,
            UniformFormat::Chrome => -11_644_473_600,
            UniformFormat::Cocoa => 978_307_200,
            UniformFormat::Java => 0,
            UniformFormat::Mozilla => 0,
            UniformFormat::Symbian => -62_167_219_200,
            UniformFormat::Unix => 0,
            UniformFormat::UuidV1 => -12_219_292_800,
            UniformFormat::WindowsDate => -62_135_596_800,
            UniformFormat::WindowsFile => -11_644_473_600,
        }
    }

    /// Ticks per second.
    pub fn ticks_per_second(self) -> (r: i64)
        ensures
            r == self.spec_ticks_per_second(),
            valid_divisor(r as int),
    {
        match self {
            UniformFormat::Apfs => 1_000_000_000,
            UniformFormat::Chrome => 1_000_000,
            UniformFormat::Cocoa => 1,
            UniformFormat::Java => 1_000,
            UniformFormat::Mozilla => 1_000_000,
            UniformFormat::Symbian => 1_000_000,
            UniformFormat::Unix => 1,
            UniformFormat::UuidV1 => 10_000_000,
            UniformFormat::WindowsDate => 10_000_000,
            UniformFormat::WindowsFile => 10_000_000,
        }
    }

    /// Seconds to add to the whole seconds of a tick count to get Unix seconds.
    pub fn offset_seconds(self) -> (r: i64)
        ensures
            r == self.spec_offset_seconds(),
    {
        match self {
            UniformFormat::Apfs => 0,
            UniformFormat::Chrome => -11_644_473_600,
            UniformFormat::Cocoa => 978_307_200,
            UniformFormat::Java => 0,
            UniformFormat::Mozilla => 0,
            UniformFormat::Symbian => -62_167_219_200,
            UniformFormat::Unix => 0,
            UniformFormat::UuidV1 => -12_219_292_800,
            UniformFormat::WindowsDate => -62_135_596_800,
            UniformFormat::WindowsFile => -11_644_473_600,
        }
    }

    /// The civil date-time that `num` ticks of this format stand for.
    pub fn to_datetime(self, num: i64) -> (r: Option<CivilDateTime>)
        ensures
            r == ticks_to_datetime(
                num as int,
                self.spec_ticks_per_second(),
                self.spec_offset_seconds(),
            ),
    {
        epoch2time(num, self.ticks_per_second(), self.offset_seconds())
    }

    /// The ticks of this format that stand for `ndt`.
    pub fn from_datetime(self, ndt: CivilDateTime) -> (r: i64)
        requires
            ndt.wf(),
        ensures
            r == datetime_to_ticks(ndt, self.spec_ticks_per_second(), self.spec_offset_seconds()),
    {
        time2epoch(ndt, self.ticks_per_second(), self.offset_seconds())
    }
}

/// For every format of the catalog, converting a tick count to a civil
/// date-time and back gives the same tick count, whenever the first
/// conversion succeeds.
pub proof fn lemma_format_round_trip(f: UniformFormat, t: i64)
    ensures
        ticks_to_datetime(t as int, f.spec_ticks_per_second(), f.spec_offset_seconds()) matches Some(
            dt,
        ) ==> datetime_to_ticks(dt, f.spec_ticks_per_second(), f.spec_offset_seconds()) == t,
{
    if ticks_to_datetime(t as int, f.spec_ticks_per_second(), f.spec_offset_seconds()) is Some {
        lemma_ticks_round_trip(t, f.spec_ticks_per_second(), f.spec_offset_seconds());
    }
}

/// APFS time: nanoseconds since the Unix epoch.
pub fn apfs(num: i64) -> (r: Option<CivilDateTime>)
    ensures
        r == ticks_to_datetime(num as int, 1_000_000_000, 0),
{
    epoch2time(num, 1_000_000_000, 0)
}

/// Converts `ndt` into the ticks of [`apfs`].
pub fn to_apfs(ndt: CivilDateTime) -> (r: i64)
    requires
        ndt.wf(),
    ensures
        r == datetime_to_ticks(ndt, 1_000_000_000, 0),
{
    time2epoch(ndt, 1_000_000_000, 0)
}

/// Chrome time: microseconds since 1601-01-01, which is 11,644,473,600
/// seconds before the Unix epoch.
pub fn chrome(num: i64) -> (r: Option<CivilDateTime>)
    ensures
        r == ticks_to_datetime(num as int, 1_000_000, -11_644_473_600),
{
    epoch2time(num, 1_000_000, -11_644_473_600)
}

/// Converts `ndt` into the ticks of [`chrome`].
pub fn to_chrome(ndt: CivilDateTime) -> (r: i64)
    requires
        ndt.wf(),
    ensures
        r == datetime_to_ticks(ndt, 1_000_000, -11_644_473_600),
{
    time2epoch(ndt, 1_000_000, -11_644_473_600)
}

/// Cocoa time: seconds since 2001-01-01, which is 978,307,200 seconds after
/// the Unix epoch.
pub fn cocoa(num: i64) -> (r: Option<CivilDateTime>)
    ensures
        r == ticks_to_datetime(num as int, 1, 978_307_200),
{
    epoch2time(num, 1, 978_307_200)
}

/// Converts `ndt` into the ticks of [`cocoa`].
pub fn to_cocoa(ndt: CivilDateTime) -> (r: i64)
    requires
        ndt.wf(),
    ensures
        r == datetime_to_ticks(ndt, 1, 978_307_200),
{
    time2epoch(ndt, 1, 978_307_200)
}

/// Java time: milliseconds since the Unix epoch.
pub fn java(num: i64) -> (r: Option<CivilDateTime>)
    ensures
        r == ticks_to_datetime(num as int, 1_000, 0),
{
    epoch2time(num, 1_000, 0)
}

/// Converts `ndt` into the ticks of [`java`].
pub fn to_java(ndt: CivilDateTime) -> (r: i64)
    requires
        ndt.wf(),
    ensures
        r == datetime_to_ticks(ndt, 1_000, 0),
{
    time2epoch(ndt, 1_000, 0)
}

/// Mozilla time (Firefox): microseconds since the Unix epoch.
pub fn mozilla(num: i64) -> (r: Option<CivilDateTime>)
    ensures
        r == ticks_to_datetime(num as int, 1_000_000, 0),
{
    epoch2time(num, 1_000_000, 0)
}

/// Converts `ndt` into the ticks of [`mozilla`].
pub fn to_mozilla(ndt: CivilDateTime) -> (r: i64)
    requires
        ndt.wf(),
    ensures
        r == datetime_to_ticks(ndt, 1_000_000, 0),
{
    time2epoch(ndt, 1_000_000, 0)
}

/// Symbian time: microseconds since the year 0, which is 62,167,219,200
/// seconds before the Unix epoch.
pub fn symbian(num: i64) -> (r: Option<CivilDateTime>)
    ensures
        r == ticks_to_datetime(num as int, 1_000_000, -62_167_219_200),
{
    epoch2time(num, 1_000_000, -62_167_219_200)
}

/// Converts `ndt` into the ticks of [`symbian`].
pub fn to_symbian(ndt: CivilDateTime) -> (r: i64)
    requires
        ndt.wf(),
    ensures
        r == datetime_to_ticks(ndt, 1_000_000, -62_167_219_200),
{
    time2epoch(ndt, 1_000_000, -62_167_219_200)
}

/// Unix time: seconds since 1970-01-01.
pub fn unix(num: i64) -> (r: Option<CivilDateTime>)
    ensures
        r == ticks_to_datetime(num as int, 1, 0),
{
    epoch2time(num, 1, 0)
}

/// Converts `ndt` into the ticks of [`unix`].
pub fn to_unix(ndt: CivilDateTime) -> (r: i64)
    requires
        ndt.wf(),
    ensures
        r == datetime_to_ticks(ndt, 1, 0),
{
    time2epoch(ndt, 1, 0)
}

/// UUID version 1 time: hectonanoseconds (100 ns) since 1582-10-15, which
/// is 12,219,292,800 seconds before the Unix epoch.
pub fn uuid_v1(num: i64) -> (r: Option<CivilDateTime>)
    ensures
        r == ticks_to_datetime(num as int, 10_000_000, -12_219_292_800),
{
    epoch2time(num, 10_000_000, -12_219_292_800)
}

/// Converts `ndt` into the ticks of [`uuid_v1`].
pub fn to_uuid_v1(ndt: CivilDateTime) -> (r: i64)
    requires
        ndt.wf(),
    ensures
        r == datetime_to_ticks(ndt, 10_000_000, -12_219_292_800),
{
    time2epoch(ndt, 10_000_000, -12_219_292_800)
}

/// Windows date time (.NET): hectonanoseconds since 0001-01-01, which is
/// 62,135,596,800 seconds before the Unix epoch.
pub fn windows_date(num: i64) -> (r: Option<CivilDateTime>)
    ensures
        r == ticks_to_datetime(num as int, 10_000_000, -62_135_596_800),
{
    epoch2time(num, 10_000_000, -62_135_596_800)
}

/// Converts `ndt` into the ticks of [`windows_date`].
pub fn to_windows_date(ndt: CivilDateTime) -> (r: i64)
    requires
        ndt.wf(),
    ensures
        r == datetime_to_ticks(ndt, 10_000_000, -62_135_596_800),
{
    time2epoch(ndt, 10_000_000, -62_135_596_800)
}

/// Windows file time (NTFS): hectonanoseconds since 1601-01-01, which is
/// 11,644,473,600 seconds before the Unix epoch.
pub fn windows_file(num: i64) -> (r: Option<CivilDateTime>)
    ensures
        r == ticks_to_datetime(num as int, 10_000_000, -11_644_473_600),
{
    epoch2time(num, 10_000_000, -11_644_473_600)
}

/// Converts `ndt` into the ticks of [`windows_file`].
pub fn to_windows_file(ndt: CivilDateTime) -> (r: i64)
    requires
        ndt.wf(),
    ensures
        r == datetime_to_ticks(ndt, 10_000_000, -11_644_473_600),
{
    time2epoch(ndt, 10_000_000, -11_644_473_600)
}

} // verus!
