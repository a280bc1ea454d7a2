use panicbase::cause_rules::{cause_marks, score_cause_rules, wireless_demotion_percent};
use panicbase::critical_lines::extract_critical_signal_lines;
use panicbase::diagnosis_input::{device_display, prepare_diagnosis, signature_device, signatures_with_missing, wide_text_exec};
use panicbase::findings::CauseBoard;
use panicbase::focus::{
    build_evidence_markers, evidence_markers_from, extract_i2c_bus_names, focus_search, hardware_precision_rank, i2c_bus_names_from,
    infer_search_query_from_blob, reference_section, section_choice_from,
};
use panicbase::panic_diagnostic::{build_dangerous_workflow, extract_fields, merge_redundant_names, resolve_panic_type, ConfidenceBand};
use panicbase::repair_wiki::apply_repair_wiki_correlations;

fn strings(v: &[&str]) -> Vec<String> {
    v.iter().map(|s| s.to_string()).collect()
}

const FIXTURE_ANS2: &str = "ProductType: iPhone14,5\npanicString \"ANS2 Recoverable Panic test\"";

#[test]
fn regression_fixture_ans2_normalizes_storage() {
    let d = prepare_diagnosis(FIXTURE_ANS2, Some("iPhone14,5"), None);
    assert!(
        d.normalized.iter().any(|s| s.contains("ANS2") || s.to_lowercase().contains("ans2")),
        "{:?}",
        d.normalized
    );
}

#[test]
fn ips_envelope_injects_product_for_scoring() {
    let env = r#"{"product":"iPhone14,7","bug_type":"210"}"#;
    let d = prepare_diagnosis("SMC PANIC BSC", None, Some(env));
    assert_eq!(d.device, "iPhone14,7");
    assert!(
        d.marketing.as_ref().map(|s| s.contains('4')).unwrap_or(false),
        "marketing attendu pour iPhone14,7, got {:?}",
        d.marketing
    );
}

#[test]
fn smc_panic_extracts_sensor_lines_and_mask() {
    let log = r#"{"product" : "iPhone15,4","panicString" : "panic(cpu 0): SMC PANIC - ASSERT: BSC failure
S.sensor array 0 - 5 is 0, 2621440, 0, 0, 0
F.sensor array 0 - 1 is 0
OUTBOX1 not ready"}"#;

    let lines = extract_critical_signal_lines(log);
    assert!(lines.iter().any(|l| l.contains("S.sensor array") && l.contains("2621440")), "{lines:?}");
    assert!(lines.iter().any(|l| l.contains("0x280000")), "{lines:?}");

    let d = prepare_diagnosis(log, Some("iPhone15,4"), None);
    assert_eq!(resolve_panic_type(&d.extracted, &d.normalized), "smc_bsc_outbox_chain");
    assert!(!extract_critical_signal_lines(&d.wide).is_empty());
}

#[test]
fn excerpt_missing_sensor_line_overrides_stale_mic2_from_ips_envelope() {
    let env = "legacy panic block\nMissing sensor(s): mic2\n--- separator ---\n";
    let excerpt = "panicString \"\u{e2}\u{20ac}\u{a6}\"\nMissing sensor(s): tg0v\nProductType: iPhone12,1\n";
    let d = prepare_diagnosis(excerpt, None, Some(env));
    assert!(
        !d.normalized.iter().any(|s| s.to_lowercase().contains("mic2") && s.contains("Capteur absent")),
        "sig={:?}",
        d.normalized
    );
    assert!(d.normalized.iter().any(|s| s.to_lowercase().contains("tg0v")), "sig={:?}", d.normalized);
    let mut board = CauseBoard::new();
    score_cause_rules(
        &mut board,
        &d.normalized,
        d.extracted.product.as_deref(),
        d.extracted.bug_type.as_deref(),
        d.marketing.as_deref(),
        &d.missing_sensors,
        &d.log_lc,
        d.resolved_hint.as_deref(),
    );
    let mut wiki = CauseBoard::new();
    apply_repair_wiki_correlations(
        &mut wiki,
        d.extracted.product.as_deref(),
        d.resolved_hint.as_deref(),
        d.extracted.soc_id.as_deref(),
        &d.log_lc,
        &d.log_wide,
        &d.missing_sensors,
    );
    let blob = board
        .causes
        .iter()
        .chain(wiki.causes.iter())
        .map(|(n, _)| n.as_str())
        .collect::<Vec<_>>()
        .join(" | ")
        .to_lowercase();
    assert!(!blob.contains("mic2 \u{c2}\u{b7} iphone 11"), "causes={blob}");
}

#[test]
fn envelope_text_comes_before_the_excerpt() {
    assert_eq!(wide_text_exec("log", Some("  env  ")), "env\nlog");
    assert_eq!(wide_text_exec("log", Some("   ")), "log");
    assert_eq!(wide_text_exec("log", None), "log");
}

#[test]
fn missing_sensors_add_labels_once() {
    let out = signatures_with_missing(&strings(&["SMC", "Capteur absent (mic2)"]), &strings(&["mic2", "tg0b"]));
    assert_eq!(out, strings(&["SMC", "Capteur absent (mic2)", "Capteur absent (tg0b)", "Missing sensor"]));
    let out = signatures_with_missing(&strings(&["missing SENSOR"]), &strings(&["prs0"]));
    assert_eq!(out, strings(&["missing SENSOR", "Capteur absent (prs0)"]));
    assert_eq!(signatures_with_missing(&strings(&["A"]), &[]), strings(&["A"]));
}

#[test]
fn prepared_device_falls_back_to_hint_then_unknown() {
    let d = prepare_diagnosis("no product here", Some("  iPhone12,1 "), None);
    assert_eq!(d.device, "iPhone12,1");
    assert_eq!(d.resolved_hint.as_deref(), Some("iPhone12,1"));
    let d = prepare_diagnosis("no product here", None, None);
    assert_eq!(d.device, "unknown");
    assert_eq!(d.resolved_hint, None);
    assert_eq!(d.marketing, None);
    assert_eq!(d.log_lc, "no product here");
}

#[test]
fn device_display_rules() {
    assert_eq!(device_display(Some("iPhone 11"), "iPhone12,1", None), "iPhone 11");
    assert_eq!(device_display(Some("iPhone 11"), "Board X", None), "iPhone 11 \u{c2}\u{b7} Board X");
    assert_eq!(device_display(Some("iPhone 11"), " iphone 11 ", None), "iPhone 11");
    assert_eq!(device_display(Some("iPhone 11"), "unknown", None), "iPhone 11");
    assert_eq!(device_display(None, " iPhone12,1 ", None), "iPhone12,1");
    assert_eq!(device_display(None, "unknown", Some("  my phone ")), "my phone");
    assert_eq!(device_display(None, "unknown", None), "Non renseign\u{c3}\u{a9}");
}

#[test]
fn signature_device_rules() {
    assert_eq!(signature_device(" iPhone12,1 ", None), "iPhone12,1");
    assert_eq!(signature_device("UNKNOWN", Some(" hint ")), "hint");
    assert_eq!(signature_device("unknown", None), "unknown_model");
    assert_eq!(signature_device("", Some("   ")), "unknown_model");
}

#[test]
fn precision_rank_orders_specific_causes_first() {
    assert_eq!(hardware_precision_rank("  0x280000 masque"), 5);
    assert_eq!(hardware_precision_rank("MIC2 \u{c2}\u{b7} nappe power"), 7);
    // Lowercasing turns the marker's first character into another one.
    assert_eq!(hardware_precision_rank("MIC2 \u{c2}\u{b7} autre"), 0);
    assert_eq!(hardware_precision_rank("mic2 \u{c2}\u{b7} autre"), 0);
    assert_eq!(hardware_precision_rank("iPhone 11 TG0B batterie"), 7);
    assert_eq!(hardware_precision_rank("Rails alim vers SMC"), 4);
    assert_eq!(hardware_precision_rank("Lignes SMC"), 3);
    assert_eq!(hardware_precision_rank("ThermalMonitorD sans check-ins"), 2);
    assert_eq!(hardware_precision_rank("Cha\u{c3}\u{ae}ne thermique"), 0);
}

#[test]
fn bus_names_are_labelled_and_deduplicated() {
    let got = i2c_bus_names_from(&strings(&["I2C0", "i2c0", " i2c ab ", "scl", "sda"]));
    assert_eq!(got, strings(&["I2C0", "i2c-ab", "scl", "sda"]));
    let many: Vec<String> = (0..20).map(|i| format!("uart{i}")).collect();
    assert_eq!(i2c_bus_names_from(&many).len(), 12);
    let found = extract_i2c_bus_names("stall on i2c2 then scl stuck, i2c2 again");
    assert_eq!(found, strings(&["i2c2", "scl"]));
}

#[test]
fn evidence_markers_list_model_sensors_signatures_buses_lines() {
    let out = evidence_markers_from(
        Some("iPhone 11"),
        "iPhone12,1",
        &strings(&["mic2", "tg0b"]),
        &strings(&["SMC", "SMC"]),
        &strings(&["i2c2"]),
        &strings(&["a\\b line"]),
    );
    assert_eq!(
        out,
        strings(&[
            "Mod\u{c3}\u{a8}le r\u{c3}\u{a9}solu : iPhone 11",
            "Capteurs manquants lus : mic2, tg0b",
            "Signature : SMC",
            "Bus cit\u{c3}\u{a9} : i2c2",
            "Ligne critique : ab line",
        ])
    );
    let none = evidence_markers_from(None, "unknown", &[], &[], &[], &[]);
    assert_eq!(none, strings(&["Aucune preuve forte extraite : importer le panic-full le plus r\u{c3}\u{a9}cent."]));
    let dev = evidence_markers_from(None, "iPhone12,1", &[], &[], &[], &[]);
    assert_eq!(dev, strings(&["Identifiant produit : iPhone12,1"]));
    let sigs: Vec<String> = (0..9).map(|i| format!("s{i}")).collect();
    let lines: Vec<String> = (0..9).map(|i| format!("l{i}")).collect();
    let capped = evidence_markers_from(Some("M"), "d", &strings(&["x"]), &sigs, &strings(&["b1", "b2"]), &lines);
    assert_eq!(capped.len(), 10);
    assert_eq!(capped[2], "Signature : s0");
    let long = "x".repeat(200);
    let one = evidence_markers_from(None, "unknown", &[], &[], &[], &[long]);
    assert_eq!(one[0].chars().count(), "Ligne critique : ".chars().count() + 150);
    let via_log = build_evidence_markers(None, "unknown", &[], &[], "bus i2c3 failed", &[]);
    assert_eq!(via_log, strings(&["Bus cit\u{c3}\u{a9} : i2c3"]));
}

#[test]
fn search_query_prefers_missing_sensor_then_mask() {
    assert_eq!(infer_search_query_from_blob("missing sensor(s): mic2, tg0b"), "MIC2");
    assert_eq!(infer_search_query_from_blob("s.sensor array 0 - 5 is 0x280000"), "0X280000");
    assert_eq!(infer_search_query_from_blob("s.sensor array 0 - 5 is 2621440"), "0x280000");
    assert_eq!(infer_search_query_from_blob("an smc panic here"), "SMC PANIC");
    assert_eq!(infer_search_query_from_blob("nothing"), "");
    assert_eq!(focus_search("No successful checkins from thermalmonitord", "", &[], &[]), "thermalmonitord");
    assert_eq!(focus_search("x", "cause", &strings(&["baseband"]), &[]), "Baseband");
}

#[test]
fn reference_section_follows_the_strongest_hint() {
    assert_eq!(reference_section(Some("iPhone12,1"), "unknown", None, "", "log"), ("iphone-11", 1000));
    assert_eq!(reference_section(None, " iPhone15,4 ", None, "", "log"), ("iphone-15", 970));
    assert_eq!(reference_section(None, "unknown", Some("iPhone 13 mini"), "", "log"), ("iphone-13", 920));
    assert_eq!(reference_section(None, "unknown", None, "", "ProductType: iPhone14,2"), ("iphone-13-pro", 950));
    assert_eq!(reference_section(None, "unknown", None, "", "seen on iPhone 12 Pro Max"), ("iphone-12-pro", 800));
    assert_eq!(reference_section(None, "unknown", None, "", "soc t8015 here"), ("iphone-11", 550));
    assert_eq!(reference_section(None, "unknown", None, "", "nothing"), ("iphone-x", 0));
    assert_eq!(section_choice_from(None, "unknown", None, "", "T8120", None, None), ("iphone-15-pro", 600));
}

#[test]
fn wireless_demotion_and_cause_marks() {
    assert_eq!(wireless_demotion_percent("MagSafe / Qi"), 100);
    assert_eq!(wireless_demotion_percent("BSC / liaison batterie-bus"), 26);
    assert_eq!(wireless_demotion_percent("Gas gauge"), 30);
    assert_eq!(wireless_demotion_percent("Rails alim SMC"), 52);
    assert_eq!(wireless_demotion_percent("PMIC"), 48);
    assert_eq!(wireless_demotion_percent("USB-C"), 42);
    assert_eq!(wireless_demotion_percent("Autre"), 100);
    assert_eq!(cause_marks("Capteur MIC2"), (true, false));
    assert_eq!(cause_marks("Type bug g\u{c3}\u{a9}n\u{c3}\u{a9}rique"), (false, true));
}

#[test]
fn workflow_is_bounded_without_repeats_and_starts_with_backup() {
    let causes = strings(&["MIC1 dock", "Batterie / BMS", "NAND ans2", "I2C timeout", "Qi wireless"]);
    let sigs = strings(&["smc panic", "aop panic", "baseband", "mic2"]);
    let plan = build_dangerous_workflow(
        "iPhone12,1",
        Some("iPhone 11"),
        &causes,
        &sigs,
        ConfidenceBand::Low,
        "thermalmonitord missing sensor(s): mic1 mic2 prs0 tg0b nvme i2c magsafe",
        &strings(&["mic2"]),
    );
    assert!(plan.action_plan.len() <= 10);
    assert!(plan.danger_flags.len() <= 8 && plan.isolation.len() <= 8 && plan.parts.len() <= 8);
    assert_eq!(plan.action_plan[0], "0. Sauvegarde client si l\u{e2}\u{20ac}\u{2122}iPhone tient.");
    for list in [&plan.action_plan, &plan.danger_flags, &plan.isolation, &plan.parts] {
        for (i, x) in list.iter().enumerate() {
            assert!(!list[i + 1..].contains(x), "{x}");
        }
    }
}

#[test]
fn fields_are_bare_tokens() {
    let f = extract_fields("ProductType: iPhone12,1 build 17A\nProductVersion: 17.4 (21E219)\n");
    assert_eq!(f.product, Some("iPhone12,1".to_string()));
    assert_eq!(f.os_version, Some("17.4".to_string()));
}

#[test]
fn redundant_cause_names_merge_into_the_longer() {
    let long = "Nappe connecteur de charge / dock oxyd\u{e9}e (cas terrain)".to_string();
    let short = "nappe connecteur de charge / dock oxyd\u{e9}e".to_string();
    let other = "Batterie".to_string();
    let (kept, targets) = merge_redundant_names(&[short.clone(), other.clone(), long.clone()]);
    assert_eq!(kept, vec![long, other]);
    assert_eq!(targets, vec![None, None, Some(0)]);
    let (kept2, targets2) = merge_redundant_names(&["abc".to_string(), "abcd".to_string()]);
    assert_eq!(kept2, vec!["abc".to_string(), "abcd".to_string()]);
    assert_eq!(targets2, vec![None, None]);
}
