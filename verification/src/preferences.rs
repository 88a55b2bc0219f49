//! A driver's travel preferences and how partial updates apply to them.
use vstd::prelude::*;

verus! {

#[derive(Clone, Copy, Debug, PartialEq, Eq, Structural)]
pub enum Chattiness {
    Chatty,
    Quiet,
    Considerate,
}

#[derive(Clone, Copy, Debug, PartialEq, Eq, Structural)]
pub enum MusicPreference {
    Chill,
    Mood,
    Silent,
}

#[derive(Clone, Copy, Debug, PartialEq, Eq, Structural)]
pub enum SmokingPreference {
    Allowed,
    Considerate,
    NoSmoking,
}

#[derive(Clone, Copy, Debug, PartialEq, Eq, Structural)]
pub enum PetPreference {
    PetsAllowed,
    Considerate,
    NoPets,
}

/// One field after a partial update: an absent update keeps the current
/// value; a present one replaces it.
pub open spec fn merged<T>(current: Option<T>, update: Option<Option<T>>) -> Option<T> {
    match update {
        Some(v) => v,
        None => current,
    }
}

/// Apply one field of a partial update: an absent update keeps the current
/// value; a present one replaces it, including with "no preference".
pub fn merge_field<T>(current: Option<T>, update: Option<Option<T>>) -> (result: Option<T>)
    ensures
        result == merged(current, update),
{
    match update {
        Some(v) => v,
        None => current,
    }
}

/// Law: applying the same update twice gives what applying it once gives.
pub proof fn law_merge_is_idempotent<T>(current: Option<T>, update: Option<Option<T>>)
    ensures
        merged(merged(current, update), update) == merged(current, update),
{
}

/// A driver's choices of travel preferences; `None` means not set.
#[derive(Clone, Copy, Debug, PartialEq, Eq, Structural)]
pub struct TravelChoices {
    pub chattiness: Option<Chattiness>,
    pub music: Option<MusicPreference>,
    pub smoking: Option<SmokingPreference>,
    pub pets: Option<PetPreference>,
}

/// A partial update of the choices: per field, absent (`None`), cleared
/// (`Some(None)`) or set (`Some(Some(v))`).
#[derive(Clone, Copy, Debug, PartialEq, Eq, Structural)]
pub struct TravelChoicesUpdate {
    pub chattiness: Option<Option<Chattiness>>,
    pub music: Option<Option<MusicPreference>>,
    pub smoking: Option<Option<SmokingPreference>>,
    pub pets: Option<Option<PetPreference>>,
}

/// The choices after a partial update, field by field.
pub open spec fn merged_choices(current: TravelChoices,
    update: TravelChoicesUpdate) -> TravelChoices {
    TravelChoices {
        chattiness: merged(current.chattiness, update.chattiness),
        music: merged(current.music, update.music),
        smoking: merged(current.smoking, update.smoking),
        pets: merged(current.pets, update.pets),
    }
}

impl TravelChoices {
    /// Applies a partial update: absent fields are left alone, cleared ones
    /// are unset, and set ones are overwritten.
    pub fn merge(&mut self, update: TravelChoicesUpdate)
        ensures
            *final(self) == merged_choices(*old(self), update),
            update.chattiness matches Some(v) ==> final(self).chattiness == v,
            update.chattiness is None ==> final(self).chattiness == old(self).chattiness,
            update.music matches Some(v) ==> final(self).music == v,
            update.music is None ==> final(self).music == old(self).music,
            update.smoking matches Some(v) ==> final(self).smoking == v,
            update.smoking is None ==> final(self).smoking == old(self).smoking,
            update.pets matches Some(v) ==> final(self).pets == v,
            update.pets is None ==> final(self).pets == old(self).pets,
    {
        self.chattiness = merge_field(self.chattiness, update.chattiness);
        self.music = merge_field(self.music, update.music);
        self.smoking = merge_field(self.smoking, update.smoking);
        self.pets = merge_field(self.pets, update.pets);
    }
}

/// Law: applying the same partial update twice leaves the choices as applying
/// it once does.
pub proof fn law_choices_merge_is_idempotent(current: TravelChoices, update: TravelChoicesUpdate)
    ensures
        merged_choices(merged_choices(current, update), update) == merged_choices(current, update),
{
}

/// Law: every field an update carries is applied, and every field it leaves
/// out is kept: a present field (a value, or "no preference") replaces the
/// current one, an absent field leaves it as it was.
pub proof fn law_update_fields_apply(current: TravelChoices, update: TravelChoicesUpdate)
    ensures
        update.chattiness matches Some(v) ==> merged_choices(current, update).chattiness == v,
        update.chattiness is None ==> merged_choices(current, update).chattiness
            == current.chattiness,
        update.music matches Some(v) ==> merged_choices(current, update).music == v,
        update.music is None ==> merged_choices(current, update).music == current.music,
        update.smoking matches Some(v) ==> merged_choices(current, update).smoking == v,
        update.smoking is None ==> merged_choices(current, update).smoking == current.smoking,
        update.pets matches Some(v) ==> merged_choices(current, update).pets == v,
        update.pets is None ==> merged_choices(current, update).pets == current.pets,
{
}

/// Law: an update that leaves every field absent changes nothing.
pub proof fn law_empty_update_changes_nothing(current: TravelChoices)
    ensures
        merged_choices(
            current,
            TravelChoicesUpdate { chattiness: None, music: None, smoking: None, pets: None },
        ) == current,
{
}

} // verus!
