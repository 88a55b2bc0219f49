//! Rider profile shaping: age, address and display names.
use vstd::prelude::*;
use vstd::string::*;

use crate::helper::current_time_ms;
use crate::text::chars_of;

verus! {

/// A calendar date.
#[derive(Clone, Copy, Debug, PartialEq, Eq, Structural)]
pub struct CalendarDate {
    pub year: i32,
    pub month: u8,
    pub day: u8,
}

/// A rider's postal address.
#[derive(Clone, Debug, PartialEq, Eq)]
pub struct AddressData {
    pub street: Option<String>,
    pub city: Option<String>,
    pub state: Option<String>,
    pub zip: Option<String>,
}

/// A profile's Google link: whether it is linked, and the account's email
/// and identity token.
#[derive(Clone, Debug, PartialEq, Eq)]
pub struct LinkGoogleInput {
    pub google_linked: bool,
    pub google_email: Option<String>,
    pub id_token: Option<String>,
}

/// A rider's address as submitted; every part may be left out.
#[derive(Clone, Debug, PartialEq, Eq)]
pub struct AddressInput {
    pub street: Option<String>,
    pub city: Option<String>,
    pub state: Option<String>,
    pub zip: Option<String>,
}

/// Whole years between a date of birth and `today`.
pub open spec fn age_on(dob: CalendarDate, today: CalendarDate) -> int {
    let years = today.year - dob.year;
    if today.month < dob.month || (today.month == dob.month && today.day < dob.day) {
        years - 1
    } else {
        years
    }
}

/// The name shown for a rider in a driver's reviews: the first name and the
/// first character of the last name with a dot, or just the first name.
pub open spec fn masked_name(first: Seq<char>, last: Seq<char>) -> Seq<char> {
    if last.len() > 0 {
        first + " "@ + seq![last[0]] + "."@
    } else {
        first
    }
}

/// Whether `year` is a leap year of the proleptic Gregorian calendar.
pub open spec fn is_leap_year(year: int) -> bool {
    year % 4 == 0 && (year % 100 != 0 || year % 400 == 0)
}

/// The number of days of a month.
pub open spec fn days_in_month(year: int, month: int) -> int {
    if month == 2 {
        if is_leap_year(year) {
            29
        } else {
            28
        }
    } else if month == 4 || month == 6 || month == 9 || month == 11 {
        30
    } else {
        31
    }
}

/// Whether a date exists in the calendar, within the years the `time` crate
/// represents by default.
pub open spec fn valid_date(d: CalendarDate) -> bool {
    &&& -9999 <= d.year <= 9999
    &&& 1 <= d.month <= 12
    &&& 1 <= d.day <= days_in_month(d.year as int, d.month as int)
}

/// The first and the last second of the years the `time` crate represents by
/// default: -9999-01-01 00:00:00 and 9999-12-31 23:59:59 UTC.
pub const MIN_UNIX_SECS: i64 = -377_705_116_800;
pub const MAX_UNIX_SECS: i64 = 253_402_300_799;

/// The UTC calendar date (year, month, day) of an instant given in seconds
/// since the Unix epoch, as the `time` crate computes it; `None` outside the
/// years it represents.
pub uninterp spec fn utc_date_of(unix_secs: i64) -> Option<(i32, u8, u8)>;

/// Whether `d` is the date `utc_date_of` gives.
pub open spec fn date_is(d: CalendarDate, ymd: (i32, u8, u8)) -> bool {
    d.year == ymd.0 && d.month == ymd.1 && d.day == ymd.2
}

/// Calls `time::OffsetDateTime::from_unix_timestamp` and takes the date.
/// Claimed: the date depends on the instant alone; there is one exactly when
/// the instant lies in the crate's default year range (±9999, checked before
/// any conversion), and it is a valid calendar date of that range.
#[verifier::external_body]
fn unix_date(unix_secs: i64) -> (r: Option<CalendarDate>)
    ensures
        r is Some <==> MIN_UNIX_SECS <= unix_secs <= MAX_UNIX_SECS,
        r is Some <==> utc_date_of(unix_secs) is Some,
        r matches Some(d) ==> valid_date(d) && date_is(d, utc_date_of(unix_secs)->0),
{
    match time::OffsetDateTime::from_unix_timestamp(unix_secs) {
        Ok(t) => Some(CalendarDate { year: t.year(), month: t.month() as u8, day: t.day() }),
        Err(_) => None,
    }
}

/// The UTC date of an instant given in milliseconds since the Unix epoch.
pub fn date_at(now_ms: u64) -> (r: Option<CalendarDate>)
    ensures
        r is Some <==> utc_date_of((now_ms / 1000) as i64) is Some,
        r is Some <==> now_ms / 1000 <= MAX_UNIX_SECS,
        r matches Some(d) ==> valid_date(d) && date_is(d, utc_date_of((now_ms / 1000) as i64)->0),
{
    unix_date((now_ms / 1000) as i64)
}

/// Today's date in UTC, from the system clock; `None` when the clock reads a
/// time outside the years the `time` crate represents.
pub fn today_utc() -> (r: Option<CalendarDate>)
    ensures
        r matches Some(d) ==> valid_date(d),
{
    match current_time_ms() {
        Some(ms) => date_at(ms),
        None => None,
    }
}

/// Age in whole years of someone born on `dob`, on `today`.
pub fn age_on_date(dob: CalendarDate, today: CalendarDate) -> (age: i32)
    requires
        -0x2000_0000 <= dob.year <= 0x2000_0000,
        -0x2000_0000 <= today.year <= 0x2000_0000,
    ensures
        age == age_on(dob, today),
{
    let mut age = today.year - dob.year;
    if today.month < dob.month || (today.month == dob.month && today.day < dob.day) {
        age = age - 1;
    }
    age
}

/// Age in whole years of someone born on `dob`, at the instant `now_ms`
/// (milliseconds since the Unix epoch, UTC); `None` when that instant has no
/// date in the years the `time` crate represents.
pub fn age_at(dob: CalendarDate, now_ms: u64) -> (age: Option<i32>)
    requires
        -0x2000_0000 <= dob.year <= 0x2000_0000,
    ensures
        age is Some <==> now_ms / 1000 <= MAX_UNIX_SECS,
        age matches Some(a) ==> exists|today: CalendarDate|
            date_is(today, utc_date_of((now_ms / 1000) as i64)->0) && valid_date(today) && a
                == age_on(dob, today),
{
    match date_at(now_ms) {
        Some(today) => Some(age_on_date(dob, today)),
        None => None,
    }
}

/// Age in whole years of someone born on `dob`, today (UTC); `None` when the
/// clock cannot be read as a date.
pub fn calculate_age(dob: CalendarDate) -> (age: Option<i32>)
    requires
        -0x2000_0000 <= dob.year <= 0x2000_0000,
    ensures
        age matches Some(a) ==> exists|today: CalendarDate| valid_date(today) && a == age_on(
            dob,
            today,
        ),
{
    match current_time_ms() {
        Some(ms) => age_at(dob, ms),
        None => None,
    }
}

/// The address of a profile, present when any of its parts is.
pub fn address_from(
    street: Option<String>,
    city: Option<String>,
    state: Option<String>,
    zip: Option<String>,
) -> (a: Option<AddressData>)
    ensures
        a is Some <==> (street is Some || city is Some || state is Some || zip is Some),
        a matches Some(d) ==> d.street == street && d.city == city && d.state == state && d.zip
            == zip,
{
    if street.is_some() || city.is_some() || state.is_some() || zip.is_some() {
        Some(AddressData { street, city, state, zip })
    } else {
        None
    }
}

/// The country calling code of a profile, "+254" when none is recorded.
pub fn mobile_country_code_or_default(code: Option<String>) -> (c: String)
    ensures
        c@ == match code {
            Some(s) => s@,
            None => "+254"@,
        },
{
    match code {
        Some(s) => s,
        None => String::from_str("+254"),
    }
}

/// The name shown for a rider in a driver's reviews, e.g. "Alex M.".
pub fn mask_rider_name(first_name: &str, last_name: &str) -> (name: String)
    ensures
        name@ == masked_name(first_name@, last_name@),
{
    let last = chars_of(last_name);
    if last.len() > 0 {
        let mut s = String::from_str(first_name);
        s.append(" ");
        s.push(last[0]);
        s.append(".");
        proof {
            reveal_strlit(" ");
            reveal_strlit(".");
        }
        assert(s@ =~= masked_name(first_name@, last_name@));
        s
    } else {
        String::from_str(first_name)
    }
}


/// The vehicle shown with a ride's driver.
#[derive(Clone, Debug, PartialEq, Eq)]
pub struct VehicleDetail {
    pub make: Option<String>,
    pub model: Option<String>,
    pub color: String,
    pub plate_number: String,
}

/// The name shown for the driver of a ride: the first name ("Unknown" when
/// there is none) and the initial of the last name, e.g. "Jane D.".
pub fn ride_driver_name(first_name: Option<&str>, last_name: Option<&str>) -> (name: String)
    ensures
        name@ == masked_name(
            match first_name {
                Some(f) => f@,
                None => "Unknown"@,
            },
            match last_name {
                Some(l) => l@,
                None => Seq::<char>::empty(),
            },
        ),
{
    let first = match first_name {
        Some(f) => f,
        None => "Unknown",
    };
    match last_name {
        Some(l) => mask_rider_name(first, l),
        None => {
            let name = String::from_str(first);
            assert(masked_name(first@, Seq::<char>::empty()) == first@);
            name
        },
    }
}

/// The vehicle of a ride's driver; a missing colour or plate shows as empty.
pub fn vehicle_detail(
    make: Option<String>,
    model: Option<String>,
    color: Option<String>,
    plate_number: Option<String>,
) -> (v: VehicleDetail)
    ensures
        v.make == make,
        v.model == model,
        v.color@ == match color {
            Some(c) => c@,
            None => Seq::<char>::empty(),
        },
        v.plate_number@ == match plate_number {
            Some(p) => p@,
            None => Seq::<char>::empty(),
        },
{
    let color = match color {
        Some(c) => c,
        None => String::new(),
    };
    let plate_number = match plate_number {
        Some(p) => p,
        None => String::new(),
    };
    VehicleDetail { make, model, color, plate_number }
}

} // verus!
