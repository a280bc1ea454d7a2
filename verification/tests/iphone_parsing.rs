use panicbase::iphone::{
    iphone_product_type_from_cpid_bdid, looks_like_strict_unplugged, looks_like_trust_or_lockdown,
    parse_irecovery_query, parse_lockdown_root_plist_xml,
};


#[test]
fn trust_detection_not_fired_on_bare_lockdownd_word() {
    assert!(!looks_like_trust_or_lockdown(
        "some random lockdownd noise on disconnect"
    ));
    assert!(looks_like_trust_or_lockdown(
        "Could not connect to lockdownd, error -2"
    ));
}

#[test]
fn unplug_messages_take_strict_path() {
    assert!(looks_like_strict_unplugged("No device found"));
}


#[test]
fn parse_flat_lockdown_dict() {
    let xml = "<?xml version=\"1.0\"?><plist version=\"1.0\"><dict><key>ActivationState</key><string>Activated</string><key>ChipID</key><integer>33104</integer><key>BrickState</key><false/></dict></plist>";
    let v = parse_lockdown_root_plist_xml(xml);
    assert!(v.iter().any(|f| f.id == "ActivationState" && f.value == "Activated"));
    assert!(v.iter().any(|f| f.id == "ChipID" && f.value == "33104"));
    assert!(v.iter().any(|f| f.id == "BrickState" && f.value == "false"));
}

#[test]
fn parse_nested_dict_placeholder() {
    let xml = "<plist><dict><key>Outer</key><dict><key>Inner</key><string>x</string></dict></dict></plist>";
    let v = parse_lockdown_root_plist_xml(xml);
    assert_eq!(v.len(), 1);
    assert_eq!(v[0].id, "Outer");
    assert_eq!(v[0].value, "(objet)");
}


#[test]
fn cpid_bdid_resolves_iphone_17_pro() {
    assert_eq!(
        iphone_product_type_from_cpid_bdid(0x8150, 0x0c),
        Some("iPhone18,1")
    );
}

#[test]
fn parse_irecovery_cpid_bdid_case_insensitive_keys() {
    let blob = "CPID: 0x8150\nbdid: 0x0c\nMODE: Recovery\n";
    let p = parse_irecovery_query(blob);
    assert_eq!(p.cpid, Some(0x8150));
    assert_eq!(p.bdid, Some(0x0c));
    assert_eq!(p.mode.as_deref(), Some("Recovery"));
}

#[test]
fn parse_irecovery_product_name_when_present() {
    let blob = "PRODUCT: iPhone18,1\nNAME: iPhone 17 Pro\nCPID: 0x8150\n";
    let p = parse_irecovery_query(blob);
    assert_eq!(p.product.as_deref(), Some("iPhone18,1"));
    assert_eq!(p.irecovery_display_name.as_deref(), Some("iPhone 17 Pro"));
}
