//! Driver onboarding documents: which documents a vehicle class needs, how
//! they are labelled, and what still blocks a driver's activation.
use vstd::prelude::*;
use vstd::string::*;

use crate::text::{chars_of, lower, lower_chars, occurs, occurs_in};

verus! {

/// The identity document a driver submits: its number and subtype, and for
/// each side the stored file with the nonce and wrapped key it was encrypted
/// under.
#[derive(Debug)]
pub struct DriverIdentityInputs<'a> {
    pub id_number: &'a str,
    pub document_subtype: &'a str,
    pub file_id_front: &'a str,
    pub front_nonce: &'a [u8],
    pub front_encrypted_key: &'a [u8],
    pub back_nonce: &'a [u8],
    pub back_encrypted_key: &'a [u8],
    pub file_id_back: &'a str,
}

/// The metadata stored with a document: its expiry date.
#[derive(Clone, Copy, Debug)]
pub struct Metadata<'a> {
    pub exp: &'a str,
}

/// The kinds of typed documents a driver uploads.
#[derive(Clone, Copy, Debug, PartialEq, Eq, Structural)]
pub enum DriverDocumentType {
    DrivingLicense,
    PsvBadge,
    PsvInsurance,
    CertificateOfGoodConduct,
    VehicleInspectionSticker,
    Kra,
    Unspecified,
}

/// Broad vehicle classes that drive which documents a driver must provide and
/// how they are labelled.
#[derive(Clone, Copy, Debug, PartialEq, Eq, Structural)]
pub enum VehicleClass {
    /// Four-wheeled taxi — the full PSV document set applies.
    Car,
    /// Motorcycle / boda boda.
    Bike,
    /// Three-wheeled auto-rickshaw / tuk-tuk.
    Auto,
}

/// How a document type applies to a given vehicle class.
#[derive(Clone, Copy, Debug, PartialEq, Eq, Structural)]
pub enum DocRequirement {
    /// Must be uploaded and approved before the driver can be activated.
    Required,
    /// Collected and reviewable, but never blocks activation.
    Optional,
    /// Not applicable to this vehicle class.
    Hidden,
}

/// Admin verification state of an uploaded document.
#[derive(Clone, Copy, Debug, PartialEq, Eq, Structural)]
pub enum DocumentReviewStatus {
    Pending,
    Approved,
    Rejected,
}

/// Which table a review action targets.
#[derive(Clone, Copy, Debug, PartialEq, Eq, Structural)]
pub enum DocKind {
    /// Typed documents: license, PSV badge/insurance, good conduct, etc.
    Document,
    /// Identity documents: national ID / passport.
    Identity,
}

/// The review state of one active typed document.
pub struct TypedDocumentStatus {
    pub document_type: DriverDocumentType,
    pub review_status: DocumentReviewStatus,
}

/// The class a free-form vehicle type names: keywords for three-wheelers win,
/// then keywords for motorcycles, and anything else is a car.
pub open spec fn class_of(raw: Seq<char>) -> VehicleClass {
    let s = lower(raw);
    if occurs_in(s, "tuk"@) || occurs_in(s, "auto"@) || occurs_in(s, "rickshaw"@) || occurs_in(
        s,
        "bajaj"@,
    ) {
        VehicleClass::Auto
    } else if occurs_in(s, "bike"@) || occurs_in(s, "boda"@) || occurs_in(s, "moto"@) {
        VehicleClass::Bike
    } else {
        VehicleClass::Car
    }
}

/// Law: a vehicle type naming a tuk-tuk, an auto, a rickshaw or a Bajaj (in
/// any letter case) is an auto; otherwise one naming a bike, a boda or a
/// motorbike is a bike; anything else is a car.
pub proof fn law_vehicle_keywords_decide_the_class(raw: Seq<char>)
    ensures
        occurs_in(lower(raw), "tuk"@) ==> class_of(raw) == VehicleClass::Auto,
        occurs_in(lower(raw), "auto"@) ==> class_of(raw) == VehicleClass::Auto,
        occurs_in(lower(raw), "rickshaw"@) ==> class_of(raw) == VehicleClass::Auto,
        occurs_in(lower(raw), "bajaj"@) ==> class_of(raw) == VehicleClass::Auto,
        class_of(raw) == VehicleClass::Bike <==> (!occurs_in(lower(raw), "tuk"@) && !occurs_in(
            lower(raw),
            "auto"@,
        ) && !occurs_in(lower(raw), "rickshaw"@) && !occurs_in(lower(raw), "bajaj"@) && (
        occurs_in(lower(raw), "bike"@) || occurs_in(lower(raw), "boda"@) || occurs_in(
            lower(raw),
            "moto"@,
        ))),
        class_of(raw) == VehicleClass::Car <==> !(occurs_in(lower(raw), "tuk"@) || occurs_in(
            lower(raw),
            "auto"@,
        ) || occurs_in(lower(raw), "rickshaw"@) || occurs_in(lower(raw), "bajaj"@) || occurs_in(
            lower(raw),
            "bike"@,
        ) || occurs_in(lower(raw), "boda"@) || occurs_in(lower(raw), "moto"@)),
{
}

/// Two- and three-wheelers share the reduced document set.
pub open spec fn small(class: VehicleClass) -> bool {
    class == VehicleClass::Bike || class == VehicleClass::Auto
}

/// The onboarding matrix: how a document type applies to a vehicle class.
pub open spec fn requirement(ty: DriverDocumentType, class: VehicleClass) -> DocRequirement {
    match ty {
        DriverDocumentType::DrivingLicense => DocRequirement::Required,
        DriverDocumentType::CertificateOfGoodConduct => DocRequirement::Required,
        DriverDocumentType::PsvBadge => if small(class) {
            DocRequirement::Hidden
        } else {
            DocRequirement::Required
        },
        DriverDocumentType::VehicleInspectionSticker => if small(class) {
            DocRequirement::Hidden
        } else {
            DocRequirement::Optional
        },
        DriverDocumentType::PsvInsurance => DocRequirement::Optional,
        DriverDocumentType::Kra => DocRequirement::Optional,
        DriverDocumentType::Unspecified => DocRequirement::Hidden,
    }
}

/// The display name of a document type for a vehicle class.
pub open spec fn label(ty: DriverDocumentType, class: VehicleClass) -> Seq<char> {
    match ty {
        DriverDocumentType::DrivingLicense => if class == VehicleClass::Car {
            "Driving License"@
        } else {
            "Motorcycle Driving Licence (Class A)"@
        },
        DriverDocumentType::PsvInsurance => if class == VehicleClass::Car {
            "PSV Insurance"@
        } else {
            "Valid Motorcycle/Auto Insurance"@
        },
        DriverDocumentType::PsvBadge => "PSV Badge"@,
        DriverDocumentType::CertificateOfGoodConduct => "Certificate of Good Conduct"@,
        DriverDocumentType::VehicleInspectionSticker => "Vehicle Inspection Sticker"@,
        DriverDocumentType::Kra => "KRA PIN"@,
        DriverDocumentType::Unspecified => "Document"@,
    }
}

/// Every document type, in declaration order.
pub open spec fn all_document_types() -> Seq<DriverDocumentType> {
    seq![
        DriverDocumentType::DrivingLicense,
        DriverDocumentType::PsvBadge,
        DriverDocumentType::PsvInsurance,
        DriverDocumentType::CertificateOfGoodConduct,
        DriverDocumentType::VehicleInspectionSticker,
        DriverDocumentType::Kra,
        DriverDocumentType::Unspecified,
    ]
}

/// Whether some active document of type `ty` exists.
pub open spec fn has_doc(typed: Seq<TypedDocumentStatus>, ty: DriverDocumentType) -> bool {
    exists|i: int| 0 <= i < typed.len() && typed[i].document_type == ty
}

/// Whether some active document of type `ty` is not approved.
pub open spec fn has_unapproved_doc(typed: Seq<TypedDocumentStatus>,
    ty: DriverDocumentType) -> bool {
    exists|i: int|
        0 <= i < typed.len() && typed[i].document_type == ty && typed[i].review_status
            != DocumentReviewStatus::Approved
}

/// The blocker, if any, that document type `ty` raises.
pub open spec fn doc_blocker(
    ty: DriverDocumentType,
    class: VehicleClass,
    typed: Seq<TypedDocumentStatus>,
) -> Seq<Seq<char>> {
    if requirement(ty, class) != DocRequirement::Required {
        Seq::empty()
    } else if !has_doc(typed, ty) {
        seq![label(ty, class) + " not uploaded"@]
    } else if has_unapproved_doc(typed, ty) {
        seq![label(ty, class) + " not approved"@]
    } else {
        Seq::empty()
    }
}

/// The blockers raised by the typed documents of the first `n` document types.
pub open spec fn doc_blockers_upto(
    n: int,
    class: VehicleClass,
    typed: Seq<TypedDocumentStatus>,
) -> Seq<Seq<char>>
    decreases n,
{
    if n <= 0 {
        Seq::empty()
    } else {
        doc_blockers_upto(n - 1, class, typed) + doc_blocker(
            all_document_types()[n - 1],
            class,
            typed,
        )
    }
}

/// The blocker, if any, the profile photo raises (`None`: no photo uploaded).
pub open spec fn photo_blocker(photo: Option<DocumentReviewStatus>) -> Seq<Seq<char>> {
    match photo {
        Some(status) => if status != DocumentReviewStatus::Approved {
            seq!["Profile photo not approved"@]
        } else {
            Seq::empty()
        },
        None => seq!["Profile photo not uploaded"@],
    }
}

/// The blocker, if any, the identity documents raise.
pub open spec fn identity_blocker(identity: Seq<DocumentReviewStatus>) -> Seq<Seq<char>> {
    if identity.len() == 0 {
        seq!["Identity document not uploaded"@]
    } else if exists|i: int| 0 <= i < identity.len()
        && identity[i] != DocumentReviewStatus::Approved {
        seq!["Identity document not approved"@]
    } else {
        Seq::empty()
    }
}

/// Everything that still blocks a driver's activation, in review order.
pub open spec fn activation_blockers(
    class: VehicleClass,
    photo: Option<DocumentReviewStatus>,
    identity: Seq<DocumentReviewStatus>,
    typed: Seq<TypedDocumentStatus>,
    category_count: u64,
) -> Seq<Seq<char>> {
    photo_blocker(photo) + identity_blocker(identity) + doc_blockers_upto(7, class, typed)
        + if category_count
        == 0 {
        seq!["No vehicle category assigned"@]
    } else {
        Seq::<Seq<char>>::empty()
    }
}

/// A driver is ready for activation when the photo and every identity document
/// are approved, every document the class requires is uploaded with all its
/// active versions approved, and a vehicle category is assigned.
pub open spec fn ready_for_activation(
    class: VehicleClass,
    photo: Option<DocumentReviewStatus>,
    identity: Seq<DocumentReviewStatus>,
    typed: Seq<TypedDocumentStatus>,
    category_count: u64,
) -> bool {
    &&& photo == Some(DocumentReviewStatus::Approved)
    &&& identity.len() > 0
    &&& forall|i: int| 0 <= i < identity.len() ==> identity[i] == DocumentReviewStatus::Approved
    &&& forall|ty: DriverDocumentType|
        requirement(ty, class) == DocRequirement::Required ==> has_doc(typed, ty)
            && !has_unapproved_doc(typed, ty)
    &&& category_count > 0
}

impl VehicleClass {
    /// Classify a free-form `vehicle_type` string, matching loosely on keywords
    /// and falling back to `Car` for anything unrecognised.
    pub fn from_vehicle_type(raw: &str) -> (class: VehicleClass)
        ensures
            class == class_of(raw@),
    {
        let s = lower_chars(chars_of(raw).as_slice());
        if occurs(s.as_slice(), chars_of("tuk").as_slice()) || occurs(
            s.as_slice(),
            chars_of("auto").as_slice(),
        ) || occurs(s.as_slice(), chars_of("rickshaw").as_slice()) || occurs(
            s.as_slice(),
            chars_of("bajaj").as_slice(),
        ) {
            VehicleClass::Auto
        } else if occurs(s.as_slice(), chars_of("bike").as_slice()) || occurs(
            s.as_slice(),
            chars_of("boda").as_slice(),
        ) || occurs(s.as_slice(), chars_of("moto").as_slice()) {
            VehicleClass::Bike
        } else {
            VehicleClass::Car
        }
    }

    /// Whether this is a two- or three-wheeler.
    pub fn is_small(self) -> (b: bool)
        ensures
            b == small(self),
    {
        match self {
            VehicleClass::Bike | VehicleClass::Auto => true,
            VehicleClass::Car => false,
        }
    }
}

impl DriverDocumentType {
    /// Vehicle-class-aware display name shown in the admin review UI.
    pub fn label_for(&self, class: VehicleClass) -> (name: &'static str)
        ensures
            name@ == label(*self, class),
    {
        match self {
            DriverDocumentType::DrivingLicense => match class {
                VehicleClass::Car => "Driving License",
                _ => "Motorcycle Driving Licence (Class A)",
            },
            DriverDocumentType::PsvInsurance => match class {
                VehicleClass::Car => "PSV Insurance",
                _ => "Valid Motorcycle/Auto Insurance",
            },
            DriverDocumentType::PsvBadge => "PSV Badge",
            DriverDocumentType::CertificateOfGoodConduct => "Certificate of Good Conduct",
            DriverDocumentType::VehicleInspectionSticker => "Vehicle Inspection Sticker",
            DriverDocumentType::Kra => "KRA PIN",
            DriverDocumentType::Unspecified => "Document",
        }
    }

    /// How this document type applies to a vehicle class.
    pub fn requirement_for(&self, class: VehicleClass) -> (r: DocRequirement)
        ensures
            r == requirement(*self, class),
    {
        match self {
            DriverDocumentType::DrivingLicense | DriverDocumentType::CertificateOfGoodConduct => {
                DocRequirement::Required
            },
            DriverDocumentType::PsvBadge => {
                if class.is_small() {
                    DocRequirement::Hidden
                } else {
                    DocRequirement::Required
                }
            },
            DriverDocumentType::VehicleInspectionSticker => {
                if class.is_small() {
                    DocRequirement::Hidden
                } else {
                    DocRequirement::Optional
                }
            },
            DriverDocumentType::PsvInsurance | DriverDocumentType::Kra => DocRequirement::Optional,
            DriverDocumentType::Unspecified => DocRequirement::Hidden,
        }
    }
}

/// The class of a driver's vehicle: from its recorded vehicle type if there is
/// one, else `Car`, the strictest set.
pub fn driver_vehicle_class(vehicle_type: Option<&str>) -> (class: VehicleClass)
    ensures
        class == match vehicle_type {
            Some(t) => class_of(t@),
            None => VehicleClass::Car,
        },
{
    match vehicle_type {
        Some(t) => VehicleClass::from_vehicle_type(t),
        None => VehicleClass::Car,
    }
}

/// Every document type, in declaration order.
pub fn document_types() -> (v: Vec<DriverDocumentType>)
    ensures
        v@ == all_document_types(),
{
    let v = vec![
        DriverDocumentType::DrivingLicense,
        DriverDocumentType::PsvBadge,
        DriverDocumentType::PsvInsurance,
        DriverDocumentType::CertificateOfGoodConduct,
        DriverDocumentType::VehicleInspectionSticker,
        DriverDocumentType::Kra,
        DriverDocumentType::Unspecified,
    ];
    assert(v@ =~= all_document_types());
    v
}

/// A text made of a static label and a static suffix.
fn joined(first: &str, second: &str) -> (s: String)
    ensures
        s@ == first@ + second@,
{
    let s = String::from_str(first);
    s.concat(second)
}

/// Everything that still blocks a driver's activation, in review order: the
/// profile photo, the identity documents, each document type the vehicle class
/// requires, and the vehicle categories.
///
/// `photo` is the photo's review state, or `None` when no photo is uploaded;
/// `identity` and `typed` hold the driver's active documents.
pub fn driver_activation_blockers(
    class: VehicleClass,
    photo: Option<DocumentReviewStatus>,
    identity: &[DocumentReviewStatus],
    typed: &[TypedDocumentStatus],
    category_count: u64,
) -> (blockers: Vec<String>)
    ensures
        blockers@.map_values(|b: String| b@) == activation_blockers(
            class,
            photo,
            identity@,
            typed@,
            category_count,
        ),
{
    let mut blockers: Vec<String> = Vec::new();
    match photo {
        Some(status) => {
            if status != DocumentReviewStatus::Approved {
                blockers.push(String::from_str("Profile photo not approved"));
            }
        },
        None => blockers.push(String::from_str("Profile photo not uploaded")),
    }
    assert(blockers@.map_values(|b: String| b@) =~= photo_blocker(photo));
    let ghost after_photo = blockers@.map_values(|b: String| b@);

    if identity.len() == 0 {
        blockers.push(String::from_str("Identity document not uploaded"));
    } else {
        let mut any_unapproved = false;
        let mut i: usize = 0;
        while i < identity.len()
            invariant
                i <= identity@.len(),
                any_unapproved <==> exists|j: int|
                    0 <= j < i && identity@[j] != DocumentReviewStatus::Approved,
            decreases identity@.len() - i,
        {
            if identity[i] != DocumentReviewStatus::Approved {
                any_unapproved = true;
            }
            i = i + 1;
        }
        if any_unapproved {
            blockers.push(String::from_str("Identity document not approved"));
        }
    }
    assert(blockers@.map_values(|b: String| b@) =~= after_photo + identity_blocker(identity@));

    let types = document_types();
    let ghost before_docs = blockers@.map_values(|b: String| b@);
    let mut t: usize = 0;
    while t < types.len()
        invariant
            types@ == all_document_types(),
            t <= types@.len(),
            blockers@.map_values(|b: String| b@) == before_docs + doc_blockers_upto(
                t as int,
                class,
                typed@,
            ),
        decreases types@.len() - t,
    {
        let ty = types[t];
        let ghost before = blockers@.map_values(|b: String| b@);
        if ty.requirement_for(class) == DocRequirement::Required {
            let mut found = false;
            let mut unapproved = false;
            let mut k: usize = 0;
            while k < typed.len()
                invariant
                    k <= typed@.len(),
                    found <==> exists|j: int| 0 <= j < k && typed@[j].document_type == ty,
                    unapproved <==> exists|j: int|
                        0 <= j < k && typed@[j].document_type == ty && typed@[j].review_status
                            != DocumentReviewStatus::Approved,
                decreases typed@.len() - k,
            {
                if typed[k].document_type == ty {
                    found = true;
                    if typed[k].review_status != DocumentReviewStatus::Approved {
                        unapproved = true;
                    }
                }
                k = k + 1;
            }
            if !found {
                blockers.push(joined(ty.label_for(class), " not uploaded"));
            } else if unapproved {
                blockers.push(joined(ty.label_for(class), " not approved"));
            }
        }
        proof {
            assert(blockers@.map_values(|b: String| b@) =~= before + doc_blocker(
                all_document_types()[t as int],
                class,
                typed@,
            ));
            assert(doc_blockers_upto(t + 1, class, typed@) == doc_blockers_upto(
                t as int,
                class,
                typed@,
            ) + doc_blocker(all_document_types()[t as int], class, typed@));
        }
        t = t + 1;
    }

    let ghost before_categories = blockers@.map_values(|b: String| b@);
    if category_count == 0 {
        blockers.push(String::from_str("No vehicle category assigned"));
    }
    assert(blockers@.map_values(|b: String| b@) =~= activation_blockers(
        class,
        photo,
        identity@,
        typed@,
        category_count,
    ));
    blockers
}

/// Which table an entry of the review list comes from.
#[derive(Clone, Copy, Debug, PartialEq, Eq, Structural)]
pub enum ListingKind {
    Photo,
    Identity,
    Document,
}

/// An identity document row: its subtype (national ID, passport, ...) and
/// whether it is the active version.
pub struct IdentityDocRow {
    pub document_subtype: String,
    pub is_active: bool,
}

/// A typed document row: its type and whether it is the active version.
#[derive(Clone, Copy, Debug, PartialEq, Eq, Structural)]
pub struct TypedDocRow {
    pub document_type: DriverDocumentType,
    pub is_active: bool,
}

/// One entry of the admin review list: where it comes from (the kind and the
/// row's position among the rows of that kind), its name and whether it must
/// be approved before activation.
pub struct ListingEntry {
    pub kind: ListingKind,
    pub position: usize,
    pub doc_type: String,
    pub required: bool,
}

/// The view of an entry the contracts speak of.
pub open spec fn entry_view(e: ListingEntry) -> (ListingKind, int, Seq<char>, bool) {
    (e.kind, e.position as int, e.doc_type@, e.required)
}

/// The entries of the active identity documents, in order.
pub open spec fn identity_entries(rows: Seq<IdentityDocRow>) -> Seq<(ListingKind, int, Seq<char>, bool)>
    decreases rows.len(),
{
    if rows.len() == 0 {
        Seq::empty()
    } else {
        let rest = identity_entries(rows.drop_last());
        if rows.last().is_active {
            rest.push((ListingKind::Identity, rows.len() - 1, rows.last().document_subtype@, true))
        } else {
            rest
        }
    }
}

/// The entries of the active typed documents that apply to the class, in order.
pub open spec fn typed_entries(class: VehicleClass, rows: Seq<TypedDocRow>) -> Seq<
    (ListingKind, int, Seq<char>, bool),
>
    decreases rows.len(),
{
    if rows.len() == 0 {
        Seq::empty()
    } else {
        let rest = typed_entries(class, rows.drop_last());
        let ty = rows.last().document_type;
        if rows.last().is_active && requirement(ty, class) != DocRequirement::Hidden {
            rest.push(
                (
                    ListingKind::Document,
                    rows.len() - 1,
                    label(ty, class),
                    requirement(ty, class) == DocRequirement::Required,
                ),
            )
        } else {
            rest
        }
    }
}

/// The whole review list: the profile photo first (when one is uploaded),
/// then the active identity documents, then the active typed documents that
/// apply to the vehicle class.
pub open spec fn review_listing(
    class: VehicleClass,
    has_photo: bool,
    identity: Seq<IdentityDocRow>,
    typed: Seq<TypedDocRow>,
) -> Seq<(ListingKind, int, Seq<char>, bool)> {
    (if has_photo {
        seq![(ListingKind::Photo, 0int, "Profile photo"@, true)]
    } else {
        Seq::empty()
    }) + identity_entries(identity) + typed_entries(class, typed)
}

/// The admin review list of a driver's documents: the profile photo first
/// (when one is uploaded), then each active identity document (always
/// required), then each active typed document whose type applies to the
/// vehicle class, with its class-aware name and whether it is required.
pub fn driver_document_listing(
    class: VehicleClass,
    has_photo: bool,
    identity: &[IdentityDocRow],
    typed: &[TypedDocRow],
) -> (v: Vec<ListingEntry>)
    ensures
        v@.map_values(|e: ListingEntry| entry_view(e)) == review_listing(class, has_photo, identity@, typed@),
{
    let mut v: Vec<ListingEntry> = Vec::new();
    if has_photo {
        v.push(
            ListingEntry {
                kind: ListingKind::Photo,
                position: 0,
                doc_type: String::from_str("Profile photo"),
                required: true,
            },
        );
    }
    let ghost photo = v@.map_values(|e: ListingEntry| entry_view(e));
    assert(photo =~= (if has_photo {
        seq![(ListingKind::Photo, 0int, "Profile photo"@, true)]
    } else {
        Seq::empty()
    }));
    let mut i: usize = 0;
    while i < identity.len()
        invariant
            i <= identity@.len(),
            v@.map_values(|e: ListingEntry| entry_view(e)) == photo + identity_entries(
                identity@.subrange(0, i as int),
            ),
        decreases identity@.len() - i,
    {
        proof {
            assert(identity@.subrange(0, i + 1).drop_last() =~= identity@.subrange(0, i as int));
        }
        if identity[i].is_active {
            let entry = ListingEntry {
                kind: ListingKind::Identity,
                position: i,
                doc_type: identity[i].document_subtype.clone(),
                required: true,
            };
            let ghost before = v@;
            v.push(entry);
            proof {
                assert(v@.map_values(|e: ListingEntry| entry_view(e)) =~= before.map_values(
                    |e: ListingEntry| entry_view(e),
                ).push(entry_view(entry)));
            }
        }
        i = i + 1;
    }
    assert(identity@.subrange(0, identity@.len() as int) =~= identity@);
    let ghost with_identity = v@.map_values(|e: ListingEntry| entry_view(e));
    let mut k: usize = 0;
    while k < typed.len()
        invariant
            k <= typed@.len(),
            with_identity == photo + identity_entries(identity@),
            v@.map_values(|e: ListingEntry| entry_view(e)) == with_identity + typed_entries(
                class,
                typed@.subrange(0, k as int),
            ),
        decreases typed@.len() - k,
    {
        proof {
            assert(typed@.subrange(0, k + 1).drop_last() =~= typed@.subrange(0, k as int));
        }
        let row = typed[k];
        let req = row.document_type.requirement_for(class);
        if row.is_active && req != DocRequirement::Hidden {
            let entry = ListingEntry {
                kind: ListingKind::Document,
                position: k,
                doc_type: String::from_str(row.document_type.label_for(class)),
                required: req == DocRequirement::Required,
            };
            let ghost before = v@;
            v.push(entry);
            proof {
                assert(v@.map_values(|e: ListingEntry| entry_view(e)) =~= before.map_values(
                    |e: ListingEntry| entry_view(e),
                ).push(entry_view(entry)));
            }
        }
        k = k + 1;
    }
    assert(typed@.subrange(0, typed@.len() as int) =~= typed@);
    v
}

/// The blockers raised by the first `n` document types are empty exactly when
/// each of them that the class requires is uploaded with all versions approved.
pub proof fn lemma_doc_blockers_empty(n: int, class: VehicleClass, typed: Seq<TypedDocumentStatus>)
    requires
        0 <= n <= 7,
    ensures
        doc_blockers_upto(n, class, typed).len() == 0 <==> forall|k: int|
            0 <= k < n && requirement(all_document_types()[k], class) == DocRequirement::Required
                ==> has_doc(typed, all_document_types()[k]) && !has_unapproved_doc(
                typed,
                all_document_types()[k],
            ),
    decreases n,
{
    if n > 0 {
        lemma_doc_blockers_empty(n - 1, class, typed);
    }
}

/// Law: nothing blocks a driver's activation exactly when the driver is ready
/// for it.
pub proof fn law_no_blockers_iff_ready(
    class: VehicleClass,
    photo: Option<DocumentReviewStatus>,
    identity: Seq<DocumentReviewStatus>,
    typed: Seq<TypedDocumentStatus>,
    category_count: u64,
)
    ensures
        activation_blockers(class, photo, identity, typed, category_count).len() == 0
            <==> ready_for_activation(class, photo, identity, typed, category_count),
{
    lemma_doc_blockers_empty(7, class, typed);
    let ready = ready_for_activation(class, photo, identity, typed, category_count);
    if activation_blockers(class, photo, identity, typed, category_count).len() == 0 {
        assert forall|ty: DriverDocumentType|
            requirement(ty, class) == DocRequirement::Required implies has_doc(typed, ty)
            && !has_unapproved_doc(typed, ty) by {
            let k: int = match ty {
                DriverDocumentType::DrivingLicense => 0,
                DriverDocumentType::PsvBadge => 1,
                DriverDocumentType::PsvInsurance => 2,
                DriverDocumentType::CertificateOfGoodConduct => 3,
                DriverDocumentType::VehicleInspectionSticker => 4,
                DriverDocumentType::Kra => 5,
                DriverDocumentType::Unspecified => 6,
            };
            assert(all_document_types()[k] == ty);
        }
        assert(ready);
    }
}

} // verus!
