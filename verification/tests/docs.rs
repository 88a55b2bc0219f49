use sitwego_api::docs::{
    document_types, driver_activation_blockers, driver_document_listing, driver_vehicle_class,
    IdentityDocRow, ListingEntry, ListingKind, TypedDocRow,
    DocRequirement, DocumentReviewStatus, DriverDocumentType, TypedDocumentStatus, VehicleClass,
};

use DocumentReviewStatus::{Approved, Pending, Rejected};
use DriverDocumentType::{
    CertificateOfGoodConduct, DrivingLicense, Kra, PsvBadge, PsvInsurance, Unspecified,
    VehicleInspectionSticker,
};

fn doc(document_type: DriverDocumentType, review_status: DocumentReviewStatus) -> TypedDocumentStatus {
    TypedDocumentStatus { document_type, review_status }
}

#[test]
fn vehicle_type_keywords_pick_the_class() {
    assert_eq!(VehicleClass::from_vehicle_type("Bajaj RE"), VehicleClass::Auto);
    assert_eq!(VehicleClass::from_vehicle_type("TUK-TUK"), VehicleClass::Auto);
    assert_eq!(VehicleClass::from_vehicle_type("Boda Boda"), VehicleClass::Bike);
    assert_eq!(VehicleClass::from_vehicle_type("Motorbike"), VehicleClass::Bike);
    assert_eq!(VehicleClass::from_vehicle_type("Auto bike"), VehicleClass::Auto);
    assert_eq!(VehicleClass::from_vehicle_type("Toyota Axio"), VehicleClass::Car);
    assert_eq!(driver_vehicle_class(None), VehicleClass::Car);
    assert_eq!(driver_vehicle_class(Some("pikipiki moto")), VehicleClass::Bike);
}

#[test]
fn small_vehicles_share_the_reduced_set() {
    assert!(VehicleClass::Bike.is_small());
    assert!(VehicleClass::Auto.is_small());
    assert!(!VehicleClass::Car.is_small());
}

#[test]
fn requirement_matrix() {
    assert_eq!(PsvBadge.requirement_for(VehicleClass::Car), DocRequirement::Required);
    assert_eq!(PsvBadge.requirement_for(VehicleClass::Bike), DocRequirement::Hidden);
    assert_eq!(VehicleInspectionSticker.requirement_for(VehicleClass::Car), DocRequirement::Optional);
    assert_eq!(VehicleInspectionSticker.requirement_for(VehicleClass::Auto), DocRequirement::Hidden);
    assert_eq!(DrivingLicense.requirement_for(VehicleClass::Bike), DocRequirement::Required);
    assert_eq!(CertificateOfGoodConduct.requirement_for(VehicleClass::Auto), DocRequirement::Required);
    assert_eq!(Kra.requirement_for(VehicleClass::Car), DocRequirement::Optional);
    assert_eq!(PsvInsurance.requirement_for(VehicleClass::Bike), DocRequirement::Optional);
    assert_eq!(Unspecified.requirement_for(VehicleClass::Car), DocRequirement::Hidden);
}

#[test]
fn labels_depend_on_class() {
    assert_eq!(DrivingLicense.label_for(VehicleClass::Car), "Driving License");
    assert_eq!(DrivingLicense.label_for(VehicleClass::Bike), "Motorcycle Driving Licence (Class A)");
    assert_eq!(PsvInsurance.label_for(VehicleClass::Car), "PSV Insurance");
    assert_eq!(PsvInsurance.label_for(VehicleClass::Auto), "Valid Motorcycle/Auto Insurance");
    assert_eq!(Kra.label_for(VehicleClass::Bike), "KRA PIN");
    assert_eq!(Unspecified.label_for(VehicleClass::Car), "Document");
}

#[test]
fn document_types_in_declaration_order() {
    assert_eq!(
        document_types(),
        vec![
            DrivingLicense,
            PsvBadge,
            PsvInsurance,
            CertificateOfGoodConduct,
            VehicleInspectionSticker,
            Kra,
            Unspecified
        ]
    );
}

#[test]
fn nothing_uploaded_blocks_everything() {
    let blockers = driver_activation_blockers(VehicleClass::Car, None, &[], &[], 0);
    assert_eq!(
        blockers,
        vec![
            "Profile photo not uploaded",
            "Identity document not uploaded",
            "Driving License not uploaded",
            "PSV Badge not uploaded",
            "Certificate of Good Conduct not uploaded",
            "No vehicle category assigned",
        ]
    );
}

#[test]
fn bike_needs_no_psv_badge() {
    let blockers = driver_activation_blockers(
        VehicleClass::Bike,
        Some(Pending),
        &[Approved, Rejected],
        &[doc(DrivingLicense, Approved), doc(CertificateOfGoodConduct, Pending)],
        2,
    );
    assert_eq!(
        blockers,
        vec![
            "Profile photo not approved",
            "Identity document not approved",
            "Certificate of Good Conduct not approved",
        ]
    );
}

#[test]
fn fully_approved_driver_has_no_blockers() {
    let blockers = driver_activation_blockers(
        VehicleClass::Car,
        Some(Approved),
        &[Approved],
        &[
            doc(DrivingLicense, Approved),
            doc(PsvBadge, Approved),
            doc(CertificateOfGoodConduct, Approved),
            doc(Kra, Rejected),
        ],
        1,
    );
    assert!(blockers.is_empty());
}

#[test]
fn one_unapproved_version_blocks() {
    let blockers = driver_activation_blockers(
        VehicleClass::Auto,
        Some(Approved),
        &[Approved],
        &[
            doc(DrivingLicense, Approved),
            doc(DrivingLicense, Rejected),
            doc(CertificateOfGoodConduct, Approved),
        ],
        1,
    );
    assert_eq!(blockers, vec!["Motorcycle Driving Licence (Class A) not approved"]);
}

fn typed(document_type: DriverDocumentType, is_active: bool) -> TypedDocRow {
    TypedDocRow { document_type, is_active }
}

fn summary(v: &[ListingEntry]) -> Vec<(ListingKind, usize, &str, bool)> {
    v.iter().map(|e| (e.kind, e.position, e.doc_type.as_str(), e.required)).collect()
}

#[test]
fn review_list_hides_documents_that_do_not_apply() {
    let listed = driver_document_listing(
        VehicleClass::Bike,
        false,
        &[],
        &[typed(PsvBadge, true), typed(DrivingLicense, true), typed(VehicleInspectionSticker, true), typed(Kra, true)],
    );
    assert_eq!(
        summary(&listed),
        vec![
            (ListingKind::Document, 1, "Motorcycle Driving Licence (Class A)", true),
            (ListingKind::Document, 3, "KRA PIN", false)
        ]
    );
    let car = driver_document_listing(
        VehicleClass::Car,
        false,
        &[],
        &[typed(VehicleInspectionSticker, true), typed(PsvBadge, true)],
    );
    assert_eq!(
        summary(&car),
        vec![
            (ListingKind::Document, 0, "Vehicle Inspection Sticker", false),
            (ListingKind::Document, 1, "PSV Badge", true)
        ]
    );
}

#[test]
fn review_list_puts_photo_then_identity_then_typed_and_skips_inactive() {
    let identity = [
        IdentityDocRow { document_subtype: "NATIONAL_ID".to_string(), is_active: true },
        IdentityDocRow { document_subtype: "PASSPORT".to_string(), is_active: false },
    ];
    let listed = driver_document_listing(
        VehicleClass::Car,
        true,
        &identity,
        &[typed(DrivingLicense, false), typed(Kra, true)],
    );
    assert_eq!(
        summary(&listed),
        vec![
            (ListingKind::Photo, 0, "Profile photo", true),
            (ListingKind::Identity, 0, "NATIONAL_ID", true),
            (ListingKind::Document, 1, "KRA PIN", false)
        ]
    );
}
