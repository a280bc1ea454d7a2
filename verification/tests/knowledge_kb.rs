use panicbase::knowledge::{
    marketing_matches_key, match_panic_kb, KnowledgeBase, ModelFailures, ModelPanicMatch,
    ModelPanicRule, Pattern, SourceEntry, BugTypeLabel,
};

fn strings(v: &[&str]) -> Vec<String> {
    v.iter().map(|s| s.to_string()).collect()
}

fn pattern(signature: &str, cause: &str, confidence: u32) -> Pattern {
    Pattern {
        signature: signature.to_string(),
        causes: vec![cause.to_string()],
        confidence,
        models: None,
        reliability_note: None,
        evidence_level: None,
        source_ids: None,
        require_all_substrings: None,
        require_any_substrings: None,
        symptoms: None,
        repair_priority: None,
        aftermarket_part_risk: None,
        false_positive_common: None,
        requires_known_good_test: None,
        confirmed_by_repair: None,
        repair_notes: None,
        kb_source_line: None,
    }
}

/// A small knowledge base with the entries that the scenarios below rely on.
fn fixture_kb() -> KnowledgeBase {
    let mut thermal_mic1 = pattern("No successful checkins from thermalmonitord", "Module micro du bas", 9000);
    thermal_mic1.models = Some(strings(&["iPhone 15"]));
    thermal_mic1.require_all_substrings = Some(strings(&["mic1"]));

    let mut hex_300000 = pattern("0x300000", "Nappe recharge sans fil", 8800);
    hex_300000.models = Some(strings(&["iPhone 15"]));

    let mut hex_80000 = pattern("0x80000", "Capteur du module bas", 8700);
    hex_80000.models = Some(strings(&["iPhone 15"]));

    let pmap = pattern("pmap_mark_page_as_ppl_page", "Memoire / NAND", 7000);
    let gfx = pattern("GFXEndpoint", "GPU", 7200);
    let mipi = pattern("AppleSynopsysMIPIDSIController", "Nappe ecran", 7400);

    let generic_watchdog = pattern("userspace watchdog timeout", "Logiciel", 5000);
    let mut wifid = pattern("userspace watchdog timeout", "Module wifi", 7000);
    wifid.require_all_substrings = Some(strings(&["wifid"]));

    let mut long_thermal = pattern(
        "userspace watchdog timeout: no successful checkins from thermalmonitord",
        "Capteur thermique absent",
        8000,
    );
    long_thermal.repair_notes = Some("tester la nappe du dock".to_string());

    KnowledgeBase {
        common_panic_patterns: vec![
            thermal_mic1, hex_300000, hex_80000, pmap, gfx, mipi, generic_watchdog, wifid, long_thermal,
        ],
        model_specific_failures: vec![ModelFailures {
            model: "iPhone 11".to_string(),
            failures: strings(&["nappe dock"]),
        }],
        bug_type_mapping: vec![BugTypeLabel { code: "210".to_string(), label: "kernel panic".to_string() }],
        source_registry: Some(vec![SourceEntry {
            id: "wiki".to_string(),
            title: "Repair notes".to_string(),
            url: "https://example.org".to_string(),
            quality: None,
            notes: None,
        }]),
        model_panic_rules: Some(vec![ModelPanicRule {
            models: strings(&["iPhone X"]),
            match_spec: ModelPanicMatch {
                panic_contains: Some(strings(&["thermalmonitord"])),
                missing_sensor_any: Some(strings(&["prs0"])),
                smc_sensor_array_any: None,
            },
            likely_component: "Nappe du connecteur de charge".to_string(),
            confidence: 8500,
            repair_order: Some(strings(&["dock", "carte"])),
            source_ids: Some(strings(&["wiki"])),
            evidence_level: None,
            note: None,
        }]),
    }
}
#[test]
fn iphone15_thermal_mic1_compound_matches() {
    let log = "panic â€¦ no successful checkins from thermalmonitord â€¦ mic1 â€¦";
    let m = match_panic_kb(&fixture_kb(), log, Some("iPhone 15 Pro"));
    assert!(m.is_some());
    let m = m.expect("kb");
    assert!(m.matched_signature.contains("thermalmonitord"));
    assert!(m.matched_signature.contains("mic1"));
}

#[test]
fn iphone15_hex_mask_matches() {
    let m = match_panic_kb(&fixture_kb(), "sensor array 0x300000", Some("iPhone 15"));
    assert!(m.is_some());
}

#[test]
fn iphone15_non_pro_sensor_mask_0x80000_matches() {
    let log = "SMC PANIC â€¦ S.sensor array 0 - 4 is 0x0, 0x80000, 0x0, 0x0";
    let m = match_panic_kb(&fixture_kb(), log, Some("iPhone 15"));
    assert!(m.is_some());
    let m = m.expect("kb");
    assert!(
        m.matched_signature.contains("0x80000") || m.explanation.contains("0x80000"),
        "{}",
        m.matched_signature
    );
}

#[test]
fn pmap_ppl_pattern_matches() {
    let log = "panic(cpu 0 â€¦): pmap_mark_page_as_ppl_page_internal: page still has mappings, pa=0x8bf880000";
    let m = match_panic_kb(&fixture_kb(), log, None);
    assert!(m.is_some());
    assert!(
        m.expect("kb")
            .matched_signature
            .to_lowercase()
            .contains("pmap_mark")
    );
}

#[test]
fn gfx_endpoint_pattern_matches() {
    let log = "panic(cpu 1): GFX NMI: GFXEndpoint2: send msg=0x83000000000008 error=0xe00002db";
    let m = match_panic_kb(&fixture_kb(), log, Some("iPhone 11 Pro Max"));
    assert!(m.is_some());
    let m = m.expect("kb");
    assert!(m.matched_signature.to_lowercase().contains("gfxendpoint"));
}

#[test]
fn mipi_dsi_pattern_matches() {
    let log = "panic â€¦ @AppleSynopsysMIPIDSIController.cpp:842 â€¦ Timing out on commit";
    let m = match_panic_kb(&fixture_kb(), log, None);
    assert!(m.is_some());
    assert!(m.expect("kb").matched_signature.contains("MIPIDSI"));
}

#[test]
fn watchdog_wifid_compound_prefers_over_generic() {
    let log = "panic(cpu 1): userspace watchdog timeout: no successful checkins from wifid in 180 seconds\nwifid has not exited";
    let m = match_panic_kb(&fixture_kb(), log, Some("iPhone 12"));
    assert!(m.is_some());
    let m = m.expect("kb");
    assert!(m.matched_signature.contains("wifid") || m.explanation.to_lowercase().contains("wifid"));
}

#[test]
fn iphone6_not_matches_iphone16_keys() {
    assert!(!marketing_matches_key("iPhone 16 Pro", "iPhone 6"));
    assert!(marketing_matches_key("iPhone 6 Plus", "iPhone 6"));
}

#[test]
fn model_panic_rule_fallback_dock_prs0() {
    let log = "panicString â€¦ thermalmonitord â€¦ prs0 â€¦";
    let m = match_panic_kb(&fixture_kb(), log, Some("iPhone X")).expect("model rule");
    assert!(
        m.matched_signature.starts_with("model_rule:"),
        "{}",
        m.matched_signature
    );
    assert!(m.probable_cause.to_lowercase().contains("charg"));
}

#[test]
fn repair_notes_appended_for_long_thermal_watchdog() {
    let log = "userspace watchdog timeout: no successful checkins from thermalmonitord";
    let m = match_panic_kb(&fixture_kb(), log, Some("iPhone 12")).expect("kb");
    assert!(m.explanation.contains("Note atelier (KB)"));
}
