use panicbase::repair_wiki::{explanations_for_mask, sensor_array_nonzero_decimal_masks, RwTier};

#[test]
fn parses_hex_sensor_masks() {
    let text = r#"S.sensor array 0 - 4 is 0x0, 0x100000, 0x0, 0x0"#;
    assert_eq!(sensor_array_nonzero_decimal_masks(text), vec![0x100000]);
}

#[test]
fn parses_iphone15_combo_mask() {
    let text = r#"S.sensor array 0 - 5 is 0, 2621440, 0, 0, 0"#;
    assert_eq!(sensor_array_nonzero_decimal_masks(text), vec![2621440]);
    let ex =
        explanations_for_mask(2621440, RwTier::Iphone1515Plus, "", "");
    assert!(ex.iter().any(|(s, _)| {
        let l = s.to_lowercase();
        l.contains("280000")
            || l.contains("magsafe")
            || l.contains("sans fil")
            || l.contains("bobine")
            || l.contains("combo")
            || l.contains("qi")
    }), "{ex:?}");
}

#[test]
fn iphone15_plus_mask_0x380000_triple_wireless_charge_proximity() {
    let ex = explanations_for_mask(3_670_016, RwTier::Iphone1515Plus, "", "");
    let sl = |s: &str| s.to_lowercase();
    assert!(
        ex.iter().any(|(s, _)| {
            s.contains("0x380000")
                && sl(s).contains("triple")
                && sl(s).contains("proximit")
                && (sl(s).contains("sans fil") || sl(s).contains("recharge"))
        }),
        "{ex:?}"
    );
}

#[test]
fn iphone15_plus_mask_0xa1_battery_data() {
    let ex = explanations_for_mask(161, RwTier::Iphone1515Plus, "", "");
    assert!(
        ex.iter().any(|(s, _)| {
            s.to_lowercase().contains("0xa1") && s.to_lowercase().contains("batter")
        }),
        "{ex:?}"
    );
}

