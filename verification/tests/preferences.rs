use sitwego_api::preferences::{merge_field, Chattiness, MusicPreference, PetPreference, SmokingPreference};

#[test]
fn absent_update_keeps_current() {
    assert_eq!(merge_field(Some(Chattiness::Quiet), None), Some(Chattiness::Quiet));
    assert_eq!(merge_field::<MusicPreference>(None, None), None);
}

#[test]
fn present_update_replaces_even_with_no_preference() {
    assert_eq!(merge_field(Some(MusicPreference::Chill), Some(Some(MusicPreference::Silent))), Some(MusicPreference::Silent));
    assert_eq!(merge_field(Some(SmokingPreference::Allowed), Some(None)), None);
    assert_eq!(merge_field(None, Some(Some(PetPreference::NoPets))), Some(PetPreference::NoPets));
}

#[test]
fn applying_an_update_twice_is_applying_it_once() {
    let update = Some(Some(Chattiness::Considerate));
    let once = merge_field(Some(Chattiness::Chatty), update);
    assert_eq!(merge_field(once, update), once);
}

use sitwego_api::preferences::{TravelChoices, TravelChoicesUpdate};

#[test]
fn partial_update_of_travel_choices() {
    let mut prefs = TravelChoices {
        chattiness: Some(Chattiness::Chatty),
        music: Some(MusicPreference::Mood),
        smoking: None,
        pets: Some(PetPreference::PetsAllowed),
    };
    prefs.merge(TravelChoicesUpdate {
        chattiness: None,
        music: Some(None),
        smoking: Some(Some(SmokingPreference::NoSmoking)),
        pets: None,
    });
    assert_eq!(
        prefs,
        TravelChoices {
            chattiness: Some(Chattiness::Chatty),
            music: None,
            smoking: Some(SmokingPreference::NoSmoking),
            pets: Some(PetPreference::PetsAllowed),
        }
    );
    let before = prefs;
    prefs.merge(TravelChoicesUpdate { chattiness: None, music: None, smoking: None, pets: None });
    assert_eq!(prefs, before);
}
