//! When a package was built: the time that the container records for the
//! bundle's executable, read as wall-clock time at a configured offset.
//!
//! A container stores calendar fields without an offset. The administrator
//! names the offset of the machine that built the packages, in whole hours;
//! the `chrono` crate turns fields and offset into a point in time.

use crate::archive::{modified_at, package_of, stamp_at, Container, Package, Stamp};
use crate::descriptor::path_below;
use crate::error::Error;
use chrono::FixedOffset;
use chrono::TimeZone;
use vstd::prelude::*;
use vstd::string::*;

verus! {

/// A point in time with the offset at which it was recorded.
#[derive(Clone, Copy, Debug, PartialEq, Eq, Structural)]
pub struct Timestamp {
    /// Seconds since 1970-01-01T00:00:00Z, leap seconds not counted.
    pub seconds: i64,
    /// The offset of the wall clock from UTC, in seconds, east positive.
    pub offset: i32,
}

/// The seconds in an hour.
pub const SECONDS_PER_HOUR: i32 = 3600;

/// Whether `year` is a leap year of the Gregorian calendar.
pub open spec fn is_leap_year(year: int) -> bool {
    year % 4 == 0 && (year % 100 != 0 || year % 400 == 0)
}

/// The number of days of a month; 0 for a month that does not exist.
pub open spec fn days_in_month(year: int, month: int) -> int {
    if month == 2 {
        if is_leap_year(year) {
            29
        } else {
            28
        }
    } else if month == 4 || month == 6 || month == 9 || month == 11 {
        30
    } else if 1 <= month <= 12 {
        31
    } else {
        0
    }
}

/// The fields name a day of the calendar and a time of that day.
pub open spec fn is_civil(stamp: Stamp) -> bool {
    &&& 1 <= stamp.month <= 12
    &&& 1 <= stamp.day <= days_in_month(stamp.year as int, stamp.month as int)
    &&& stamp.hour < 24
    &&& stamp.minute < 60
    &&& stamp.second < 60
}

/// An offset of that many hours is one that a clock can have: less than a
/// day on either side of UTC.
pub open spec fn is_offset(timezone: int) -> bool {
    -24 < timezone < 24
}

/// An offset of that many seconds is less than a day on either side of UTC.
pub open spec fn is_offset_seconds(offset: int) -> bool {
    -86400 < offset && offset < 86400
}

/// The seconds in a day.
pub const SECONDS_PER_DAY: i64 = 86400;

/// The number of leap years from the year 0 up to, not including, `year`,
/// for a year that is not negative. The year 0 is a leap year.
pub open spec fn leap_years_before(year: int) -> int {
    (year - 1) / 4 - (year - 1) / 100 + (year - 1) / 400 + 1
}

/// The number of days from the first day of the year 0 to the first day of
/// `year` in the proleptic Gregorian calendar.
pub open spec fn days_before_year(year: int) -> int {
    365 * year + leap_years_before(year)
}

/// The number of days of `year` that lie before the first day of `month`.
pub open spec fn days_before_month(year: int, month: int) -> int {
    (if month <= 1 {
        0int
    } else if month == 2 {
        31
    } else if month == 3 {
        59
    } else if month == 4 {
        90
    } else if month == 5 {
        120
    } else if month == 6 {
        151
    } else if month == 7 {
        181
    } else if month == 8 {
        212
    } else if month == 9 {
        243
    } else if month == 10 {
        273
    } else if month == 11 {
        304
    } else {
        334
    }) + if month > 2 && is_leap_year(year) {
        1int
    } else {
        0int
    }
}

/// The number of the day that the fields name, the first day of 1970 being
/// day 0.
pub open spec fn day_number(stamp: Stamp) -> int {
    days_before_year(stamp.year as int) + days_before_month(stamp.year as int, stamp.month as int)
        + (stamp.day - 1) - days_before_year(1970)
}

/// The seconds from the beginning of the day to the time that the fields
/// name.
pub open spec fn seconds_of_day(stamp: Stamp) -> int {
    stamp.hour * 3600 + stamp.minute * 60 + stamp.second
}

/// The point in time that the fields name when they are read as wall-clock
/// time `offset` seconds east of UTC, in seconds since
/// 1970-01-01T00:00:00Z, leap seconds not counted: a clock east of UTC shows
/// a time that UTC reaches later, so the offset is taken off.
pub open spec fn instant(stamp: Stamp, offset: int) -> int {
    day_number(stamp) * SECONDS_PER_DAY + seconds_of_day(stamp) - offset
}

/// Calls `chrono::FixedOffset::east_opt` for the offset,
/// `chrono::TimeZone::with_ymd_and_hms` on it for the fields, and
/// `chrono::DateTime::timestamp` on the result. The first gives an offset
/// for less than a day on either side; the second gives exactly one time
/// where the day exists in the proleptic Gregorian calendar and hour, minute
/// and second lie below 24, 60 and 60, and takes the fields as local time
/// at the offset; the third counts the days since 1970-01-01 in UTC, 86400
/// seconds each, and adds the seconds since midnight.
#[verifier::external_body]
fn local_instant(stamp: Stamp, offset: i32) -> (seconds: Option<i64>)
    ensures
        seconds == (if is_civil(stamp) && is_offset_seconds(offset as int) {
            Some(instant(stamp, offset as int) as i64)
        } else {
            None::<i64>
        }),
{
    match FixedOffset::east_opt(offset) {
        Some(zone) => zone.with_ymd_and_hms(
            i32::from(stamp.year),
            u32::from(stamp.month),
            u32::from(stamp.day),
            u32::from(stamp.hour),
            u32::from(stamp.minute),
            u32::from(stamp.second),
        ).single().map(|at| at.timestamp()),
        None => None,
    }
}

/// The point in time that `stamp` names at an offset of `timezone` hours:
/// there is one exactly where the fields name a time of a day that exists
/// and the offset is less than a day.
pub open spec fn resolved(stamp: Stamp, timezone: int) -> Option<Timestamp> {
    if is_civil(stamp) && is_offset(timezone) {
        Some(
            Timestamp {
                seconds: instant(stamp, SECONDS_PER_HOUR * timezone) as i64,
                offset: (SECONDS_PER_HOUR * timezone) as i32,
            },
        )
    } else {
        None
    }
}

/// Reads the fields of `stamp` as wall-clock time at `timezone` hours east
/// of UTC. There is a result exactly where the fields name a time of a day
/// that exists and the offset is less than a day.
pub fn resolve_timestamp(stamp: Stamp, timezone: i32) -> (at: Option<Timestamp>)
    ensures
        at == resolved(stamp, timezone as int),
        at is Some <==> is_civil(stamp) && is_offset(timezone as int),
        at matches Some(t) ==> t.offset == SECONDS_PER_HOUR * timezone && t.seconds == instant(
            stamp,
            SECONDS_PER_HOUR * timezone,
        ),
{
    if timezone <= -24 || timezone >= 24 {
        return None;
    }
    let offset: i32 = SECONDS_PER_HOUR * timezone;
    proof {
        lemma_instant_fits(stamp, offset as int);
    }
    match local_instant(stamp, offset) {
        Some(seconds) => Some(Timestamp { seconds, offset }),
        None => None,
    }
}

/// The seconds of any time that the fields of a container can name lie far
/// within what a point in time can hold.
pub proof fn lemma_instant_fits(stamp: Stamp, offset: int)
    requires
        is_offset_seconds(offset),
    ensures
        -70_000_000_000 < instant(stamp, offset) < 2_100_000_000_000,
        instant(stamp, offset) as i64 == instant(stamp, offset),
{
    let year = stamp.year as int;
    assert(-1 <= (year - 1) / 4 <= 16384);
    assert(-1 <= (year - 1) / 100 <= 656);
    assert(-1 <= (year - 1) / 400 <= 164);
    assert(0 <= days_before_month(year, stamp.month as int) <= 335);
    assert(-719528 - 700 <= day_number(stamp) <= 24_000_000);
}

/// Each year adds its days: 366 for a leap year, 365 for any other.
pub proof fn lemma_year_adds_its_days(year: int)
    requires
        0 <= year,
    ensures
        days_before_year(0) == 0,
        days_before_year(year + 1) == days_before_year(year) + if is_leap_year(year) {
            366int
        } else {
            365int
        },
{
}

/// Each month adds its days.
pub proof fn lemma_month_adds_its_days(year: int, month: int)
    requires
        1 <= month < 12,
    ensures
        days_before_month(year, 1) == 0,
        days_before_month(year, month + 1) == days_before_month(year, month) + days_in_month(
            year,
            month,
        ),
{
}

/// The epoch is the point in time 0.
pub proof fn lemma_epoch()
    ensures
        instant(Stamp { year: 1970, month: 1, day: 1, hour: 0, minute: 0, second: 0 }, 0) == 0,
{
}

/// The same fields one hour further east name a point in time one hour
/// earlier.
pub proof fn lemma_east_is_earlier(stamp: Stamp, timezone: int)
    requires
        is_civil(stamp),
        is_offset(timezone),
        is_offset(timezone + 1),
    ensures
        resolved(stamp, timezone + 1)->0.seconds == resolved(stamp, timezone)->0.seconds
            - SECONDS_PER_HOUR,
{
    lemma_instant_fits(stamp, SECONDS_PER_HOUR * timezone);
    lemma_instant_fits(stamp, SECONDS_PER_HOUR * (timezone + 1));
}

/// One second later on the clock is one second later in time.
pub proof fn lemma_clock_counts_seconds(stamp: Stamp, offset: int)
    requires
        stamp.second < 59,
    ensures
        instant(Stamp { second: (stamp.second + 1) as u8, ..stamp }, offset) == instant(
            stamp,
            offset,
        ) + 1,
{
}

/// The number of characters of the payload folder in front of a bundle's
/// name.
pub const PAYLOAD_DIR_LEN: usize = 8;

/// The number of characters of the bundle suffix behind a bundle's base
/// name.
pub const BUNDLE_SUFFIX_LEN: usize = 5;

/// The base name of the bundle directory at `root`, empty where `root` is
/// too short to hold one.
pub open spec fn base_name(root: Seq<char>) -> Seq<char> {
    if root.len() >= PAYLOAD_DIR_LEN + BUNDLE_SUFFIX_LEN {
        root.subrange(PAYLOAD_DIR_LEN as int, root.len() - BUNDLE_SUFFIX_LEN)
    } else {
        Seq::empty()
    }
}

/// The path of the bundle's executable: below the root, under the name that
/// the descriptor gives, or under the bundle's base name where it gives none.
pub open spec fn executable_path(root: Seq<char>, binary: Option<Seq<char>>) -> Seq<char> {
    match binary {
        Some(name) => root + name,
        None => root + base_name(root),
    }
}

/// When the bundle at `root` was built: `BinaryEntryMissing` where the
/// container has no executable entry that can be opened, where the recorded
/// fields name no time of a day that exists, or where the offset is a day or
/// more; else the recorded time read at the offset.
pub open spec fn built_at(
    package: Package,
    root: Seq<char>,
    binary: Option<Seq<char>>,
    timezone: int,
) -> Result<Timestamp, Error> {
    match stamp_at(package, executable_path(root, binary)) {
        Some(stamp) => match resolved(stamp, timezone) {
            Some(at) => Ok(at),
            None => Err(Error::BinaryEntryMissing),
        },
        None => Err(Error::BinaryEntryMissing),
    }
}

/// The path of the executable of the bundle at `root`.
pub fn binary_path(root: &str, binary: Option<&str>) -> (path: String)
    ensures
        path@ == executable_path(root@, match binary {
            Some(name) => Some(name@),
            None => None,
        }),
{
    match binary {
        Some(name) => path_below(root, name),
        None => {
            let length = root.unicode_len();
            if length >= PAYLOAD_DIR_LEN + BUNDLE_SUFFIX_LEN {
                let base = root.substring_char(PAYLOAD_DIR_LEN, length - BUNDLE_SUFFIX_LEN);
                path_below(root, base)
            } else {
                let path = root.to_owned();
                assert(root@ + Seq::<char>::empty() =~= root@);
                path
            }
        },
    }
}

/// Derives the build time of the bundle at `app_dir_path` from the time that
/// the container records for its executable, read at `timezone` hours east
/// of UTC.
pub fn binary_last_change(
    archive: &mut Container,
    app_dir_path: &str,
    binary: Option<&str>,
    timezone: i32,
) -> (found: Result<Timestamp, Error>)
    ensures
        package_of(*final(archive)) == package_of(*old(archive)),
        found == built_at(package_of(*old(archive)), app_dir_path@, match binary {
            Some(name) => Some(name@),
            None => None,
        }, timezone as int),
        found matches Err(e) ==> e == Error::BinaryEntryMissing,
        found is Ok <==> (stamp_at(
            package_of(*old(archive)),
            executable_path(app_dir_path@, match binary {
                Some(name) => Some(name@),
                None => None,
            }),
        ) matches Some(stamp) && is_civil(stamp) && is_offset(timezone as int)),
        found matches Ok(at) ==> at.offset == SECONDS_PER_HOUR * timezone,
        !package_of(*old(archive)).names.contains(
            executable_path(app_dir_path@, match binary {
                Some(name) => Some(name@),
                None => None,
            }),
        ) ==> found is Err,
{
    let path = binary_path(app_dir_path, binary);
    match modified_at(archive, path.as_str()) {
        Some(stamp) => match resolve_timestamp(stamp, timezone) {
            Some(at) => Ok(at),
            None => Err(Error::BinaryEntryMissing),
        },
        None => Err(Error::BinaryEntryMissing),
    }
}

/// The base name of a bundle root is what stands between the payload folder
/// and the bundle suffix, and it is not empty.
pub proof fn lemma_base_name_of_root(root: Seq<char>)
    requires
        crate::archive::is_bundle_root(root),
    ensures
        base_name(root).len() > 0,
        root == crate::archive::payload_dir() + base_name(root) + crate::archive::bundle_suffix(),
{
    reveal_strlit("Payload/");
    reveal_strlit(".app/");
    assert(root =~= crate::archive::payload_dir() + base_name(root)
        + crate::archive::bundle_suffix());
}

/// There is a build time exactly where the executable's entry can be opened,
/// its recorded fields name a time of a day that exists, and the offset is
/// less than a day; the build time is then that time at the offset.
pub proof fn lemma_built_at_is_owed(
    package: Package,
    root: Seq<char>,
    binary: Option<Seq<char>>,
    timezone: int,
)
    ensures
        built_at(package, root, binary, timezone) is Ok <==> (stamp_at(
            package,
            executable_path(root, binary),
        ) matches Some(stamp) && is_civil(stamp) && is_offset(timezone)),
        built_at(package, root, binary, timezone) matches Ok(at) ==> at.offset == SECONDS_PER_HOUR
            * timezone && at.seconds == instant(
            stamp_at(package, executable_path(root, binary))->0,
            SECONDS_PER_HOUR * timezone,
        ),
{
    if let Some(stamp) = stamp_at(package, executable_path(root, binary)) {
        if is_offset(timezone) {
            lemma_instant_fits(stamp, SECONDS_PER_HOUR * timezone);
        }
    }
}

/// In a package whose openable entries are all listed, a bundle whose
/// executable the directory does not list has no build time.
pub proof fn lemma_unlisted_executable(
    package: Package,
    root: Seq<char>,
    binary: Option<Seq<char>>,
    timezone: int,
)
    requires
        crate::archive::is_listed(package),
        !package.names.contains(executable_path(root, binary)),
    ensures
        built_at(package, root, binary, timezone) == Err::<Timestamp, Error>(
            Error::BinaryEntryMissing,
        ),
{
}

/// A build time always carries the configured offset.
pub proof fn lemma_built_at_has_offset(
    package: Package,
    root: Seq<char>,
    binary: Option<Seq<char>>,
    timezone: int,
)
    ensures
        built_at(package, root, binary, timezone) matches Ok(at) ==> is_offset(timezone)
            && at.offset == SECONDS_PER_HOUR * timezone,
{
}

} // verus!
