use sitwego_api::profile::{age_at, date_at};
use sitwego_api::profile::{
    address_from, age_on_date, calculate_age, mask_rider_name, mobile_country_code_or_default,
    AddressData, CalendarDate,
};

fn date(year: i32, month: u8, day: u8) -> CalendarDate {
    CalendarDate { year, month, day }
}

#[test]
fn age_counts_whole_years() {
    assert_eq!(age_on_date(date(1990, 6, 15), date(2025, 6, 14)), 34);
    assert_eq!(age_on_date(date(1990, 6, 15), date(2025, 6, 15)), 35);
    assert_eq!(age_on_date(date(1990, 6, 15), date(2025, 1, 31)), 34);
    assert_eq!(age_on_date(date(2000, 2, 29), date(2001, 2, 28)), 0);
    assert_eq!(age_on_date(date(2000, 2, 29), date(2001, 3, 1)), 1);
}

#[test]
fn age_today_is_plausible() {
    let age = calculate_age(date(2000, 1, 1)).unwrap();
    assert!((24..=200).contains(&age));
}

#[test]
fn address_present_when_any_part_is() {
    assert_eq!(address_from(None, None, None, None), None);
    assert_eq!(
        address_from(None, Some("Nairobi".to_string()), None, None),
        Some(AddressData { street: None, city: Some("Nairobi".to_string()), state: None, zip: None })
    );
}

#[test]
fn country_code_defaults_to_kenya() {
    assert_eq!(mobile_country_code_or_default(None), "+254");
    assert_eq!(mobile_country_code_or_default(Some("+44".to_string())), "+44");
}

#[test]
fn rider_names_are_masked() {
    assert_eq!(mask_rider_name("Alex", "Mwangi"), "Alex M.");
    assert_eq!(mask_rider_name("Alex", ""), "Alex");
    assert_eq!(mask_rider_name("Zoë", "Ørsted"), "Zoë Ø.");
}

use sitwego_api::profile::{ride_driver_name, vehicle_detail, VehicleDetail};

#[test]
fn ride_driver_names() {
    assert_eq!(ride_driver_name(Some("Jane"), Some("Doe")), "Jane D.");
    assert_eq!(ride_driver_name(Some("Jane"), None), "Jane");
    assert_eq!(ride_driver_name(None, Some("Doe")), "Unknown D.");
    assert_eq!(ride_driver_name(None, None), "Unknown");
    assert_eq!(ride_driver_name(Some("Jane"), Some("")), "Jane");
}

#[test]
fn vehicle_detail_defaults_missing_colour_and_plate() {
    assert_eq!(
        vehicle_detail(Some("Toyota".to_string()), None, None, Some("KDA 123A".to_string())),
        VehicleDetail {
            make: Some("Toyota".to_string()),
            model: None,
            color: String::new(),
            plate_number: "KDA 123A".to_string(),
        }
    );
}

#[test]
fn date_at_reads_utc_dates() {
    assert_eq!(date_at(0), Some(date(1970, 1, 1)));
    assert_eq!(date_at(951_782_400_000), Some(date(2000, 2, 29)));
    assert_eq!(date_at(253_402_300_799_999), Some(date(9999, 12, 31)));
    assert_eq!(date_at(253_402_300_800_000), None);
}

#[test]
fn age_at_counts_to_the_instant() {
    // 2025-06-14 12:00 UTC
    assert_eq!(age_at(date(1990, 6, 15), 1_749_902_400_000), Some(34));
    assert_eq!(age_at(date(1990, 6, 14), 1_749_902_400_000), Some(35));
    assert_eq!(age_at(date(1990, 6, 14), u64::MAX), None);
}
