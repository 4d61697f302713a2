use coconutpak::license::SPDXLicense;

#[test]
fn mit_is_looked_up() {
    let mit = SPDXLicense::new("MIT").unwrap();
    assert_eq!(mit.id(), "MIT");
    assert_eq!(mit.name(), "MIT License");
    assert!(mit.osi());
    assert!(mit.libre());
    assert_eq!(
        mit.addendum(),
        "https://opensource.org/license/MIT , https://gitlab.freedesktop.org/xorg/xserver/-/blob/dd5c2595a42d3ff0c4f18d9b53d1f6c3fd934fd4/COPYING#L365-389"
    );
}

#[test]
fn unknown_ids_are_refused() {
    assert!(SPDXLicense::new("NotALicense").is_err());
    assert!(SPDXLicense::new("mit").is_err());
    assert!(SPDXLicense::new("").is_err());
}

#[test]
fn unknown_ids_fall_back_to_all_rights_reserved() {
    let l = SPDXLicense::from_id("no such license".to_string());
    assert_eq!(l.name(), "All Rights Reserved");
    assert_eq!(l.id(), "AllRightsReserved");
    assert!(!l.osi());
    assert!(!l.libre());
    assert_eq!(l.addendum(), "");
    assert_eq!(l, SPDXLicense::default());
}

#[test]
fn a_license_is_stored_by_its_id() {
    assert_eq!(SPDXLicense::from_id("Apache-2.0".to_string()).into_id(), "Apache-2.0");
    assert_eq!(SPDXLicense::from_id("bogus".to_string()).into_id(), "AllRightsReserved");
    assert_eq!(SPDXLicense::default().into_id(), "AllRightsReserved");
}

#[test]
fn licenses_read_back_from_their_ids() {
    let d = SPDXLicense::default();
    assert!(SPDXLicense::new("AllRightsReserved").is_err());
    assert_eq!(SPDXLicense::from_id(d.clone().into_id()), d);
    for id in ["MIT", "Apache-2.0", "GPL-3.0-only"] {
        let l = SPDXLicense::new(id).unwrap();
        assert_eq!(SPDXLicense::from_id(l.clone().into_id()), l);
    }
}
