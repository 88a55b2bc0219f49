use sitwego_api::vehicle::{all_vehicle_categories, expand_vehicle_categories, VehicleCategory};

use VehicleCategory::{Bike, Comfort, Executive, Standard, Swift, Women, Xl};

#[test]
fn tiered_categories_serve_lower_tiers() {
    assert_eq!(Swift.eligible_serving_categories(), vec![Swift]);
    assert_eq!(Comfort.eligible_serving_categories(), vec![Swift, Standard, Comfort]);
    assert_eq!(
        Executive.eligible_serving_categories(),
        vec![Swift, Standard, Comfort, Xl, Executive]
    );
}

#[test]
fn bike_and_women_serve_only_themselves() {
    assert_eq!(Bike.eligible_serving_categories(), vec![Bike]);
    assert_eq!(Women.eligible_serving_categories(), vec![Women]);
}

#[test]
fn ranks_follow_declaration_order() {
    let ranks: Vec<usize> = all_vehicle_categories().iter().map(|c| c.rank()).collect();
    assert_eq!(ranks, vec![0, 1, 2, 3, 4, 5, 6]);
}

#[test]
fn expansion_is_sorted_and_deduplicated() {
    assert_eq!(expand_vehicle_categories(&[Swift]), vec![Swift, Standard, Comfort, Xl, Executive]);
    assert_eq!(expand_vehicle_categories(&[Xl, Women, Comfort]), vec![Comfort, Xl, Executive, Women]);
    assert_eq!(expand_vehicle_categories(&[Bike, Bike]), vec![Bike]);
    assert!(expand_vehicle_categories(&[]).is_empty());
}

use sitwego_api::vehicle::qualifying_mappings;

#[test]
fn retained_categories_keep_their_active_choice() {
    let prior = [(Swift, false), (Comfort, true), (Swift, true), (Bike, false)];
    assert_eq!(
        qualifying_mappings(&prior, &[Swift, Bike, Xl]),
        vec![(Swift, true), (Bike, false), (Xl, true)]
    );
    assert!(qualifying_mappings(&prior, &[]).is_empty());
    assert_eq!(qualifying_mappings(&[], &[Women]), vec![(Women, true)]);
}

use sitwego_api::vehicle::check_vehicle_owned;

#[test]
fn category_assignment_needs_the_drivers_vehicle() {
    assert_eq!(check_vehicle_owned(true, "veh-1"), Ok(()));
    assert_eq!(check_vehicle_owned(false, "veh-1"), Err("Vehicle veh-1 not found for this driver".to_string()));
}
