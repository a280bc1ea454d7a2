use panicbase::findings::CauseBoard;
use panicbase::panic_logs_chart::apply_panic_logs_chart_pdf;
use panicbase::panic_parser::parse_panic_log;
use panicbase::repair_wiki::{apply_repair_wiki_correlations, explanations_for_mask, RwTier};

#[test]
fn iphone15_bottom_mic_module_when_mic1_and_thermal() {
    let mut board = CauseBoard::new();
    let log = "producttype iphone15,4\nno successful checkins from thermalmonitord\nmissing sensor(s): mic1\n";
    let missing = parse_panic_log(log).missing_sensors;
    let ui = apply_repair_wiki_correlations(
        &mut board,
        Some("iPhone15,4"),
        None,
        None,
        log,
        log,
        missing.as_slice(),
    );
    let acc = &board.causes;
    let checks = &board.checks;
    assert!(
        acc.iter().map(|(k, _)| k).any(|k| k.contains("Module micro du bas")),
        "{acc:?}"
    );
    assert!(
        checks.iter().any(|c| c.contains("MEMS")),
        "{checks:?}"
    );
    assert!(ui.iter().any(|l| l.contains("Module micro bas")), "{ui:?}");
}

#[test]
fn iphone15_plus_correlation_adds_workshop_checks_when_mask_present() {
    let mut board = CauseBoard::new();
    let log = r#"S.sensor array 0 - 5 is 0, 3670016, 0, 0, 0"#;
    let _ui = apply_repair_wiki_correlations(
        &mut board,
        Some("iPhone15,4"),
        None,
        None,
        "smc panic assertion failed",
        log,
        &[],
    );
    let checks = &board.checks;
    assert!(
        checks.iter().any(|c| c.contains("sandwich")),
        "{checks:?}"
    );
}

#[test]
fn iphone11_missing_sensor_text_hooks_tg_and_dock_rules() {
    let mut board = CauseBoard::new();
    let log_lc = "missing sensor(s): tg0b, prs0, mic2\nproducttype iphone12,1\n";
    let missing = parse_panic_log(log_lc).missing_sensors;
    let ui = apply_repair_wiki_correlations(
        &mut board,
        Some("iPhone12,1"),
        None,
        None,
        log_lc,
        "",
        missing.as_slice(),
    );
    let acc = &board.causes;
    let checks = &board.checks;
    assert!(acc.iter().map(|(k, _)| k).any(|k| k.contains("TG0B") && k.contains("TG0V")), "{acc:?}");
    assert!(acc.iter().map(|(k, _)| k).any(|k| k.contains("PRS0") && k.contains("MIC1")), "{acc:?}");
    assert!(
        acc.iter().map(|(k, _)| k).any(|k| {
            let l = k.to_lowercase();
            l.contains("mic2")
                && l.contains("iphone 11")
                && (l.contains("power") || l.contains("flash") || l.contains("bouton") || l.contains("micro"))
        }),
        "{acc:?}"
    );
    assert!(
        checks
            .iter()
            .any(|c| c.to_lowercase().contains("aftermarket")),
        "{checks:?}"
    );
    assert!(
        ui.iter().any(|l| l.contains("Capteur TG")),
        "{ui:?}"
    );
}

#[test]
fn iphone11_mic2_not_triggered_by_mic2_substring_without_missing_line() {
    let mut board = CauseBoard::new();
    let log_lc = "thermalmonitord complained\nNo successful checkins from thermalmonitord\nAppleSocHot\nproducttype iphone12,1\nsomeblobmic2noise_without_missing_declaration\nmissing sensor(s): tg0v\n";
    let missing = parse_panic_log(log_lc).missing_sensors;
    assert!(
        missing.iter().all(|s| s != "mic2"),
        "fixture doit Ãªtre tg0v seulement Â· missing={missing:?}"
    );
    apply_repair_wiki_correlations(
        &mut board,
        Some("iPhone12,1"),
        None,
        None,
        log_lc,
        "",
        missing.as_slice(),
    );
    let acc = &board.causes;
    assert!(
        !acc.iter().map(|(k, _)| k).any(|k| {
            let l = k.to_lowercase();
            l.contains("iphone 11")
                && l.contains("mic2")
                && (l.contains("power")
                    || l.contains("flash")
                    || l.contains("Ã©couteur")
                    || l.contains("earpiece"))
        }),
        "MIC2 iPhone 11 ne doit pas apparaÃ®tre sans mic2 sur Missing sensor(s): Â· acc={acc:?}"
    );
}

#[test]
fn iphone13_mini_sensor_mask_0x400_bottom_board_not_regular_13() {
    let mini = explanations_for_mask(1024, RwTier::Series13Identifiers, "", "iphone14,4");
    assert!(
        mini.iter().any(|(s, _)| {
            s.to_lowercase().contains("iphone 13 mini") && s.to_lowercase().contains("gyroscope")
        }),
        "{mini:?}"
    );

    let regular = explanations_for_mask(1024, RwTier::Series13Identifiers, "", "iphone14,5");
    assert!(
        !regular
            .iter()
            .any(|(s, _)| s.to_lowercase().contains("iphone 13 mini")),
        "0x400 ne doit pas forcer scÃ©nario mini hors iPhone14,4: {regular:?}"
    );
}

#[test]
fn iphone13_mini_0xc00_combo_bottom_and_dock() {
    let ex = explanations_for_mask(3072, RwTier::Series13Identifiers, "", "iphone14,4");
    let sl = |s: &str| s.to_lowercase();
    assert!(
        ex.iter().any(|(s, _)| {
            s.contains("0xC00")
                && sl(s).contains("bottom board")
                && sl(s).contains("port de charge")
        }),
        "{ex:?}"
    );
}

#[test]
fn iphone13_battery_data_mask_0x4000() {
    let ex = explanations_for_mask(16_384, RwTier::Series13Identifiers, "", "iphone14,5");
    assert!(
        ex.iter().any(|(s, _)| s.contains("0x4000") && s.to_lowercase().contains("batter")),
        "{ex:?}"
    );
}

#[test]
fn iphone11_mic2_strong_correlation() {
    let mut board = CauseBoard::new();
    let log_lc = "missing sensor(s): mic2";
    let missing = parse_panic_log(log_lc).missing_sensors;
    apply_repair_wiki_correlations(
        &mut board,
        Some("iPhone12,1"),
        None,
        None,
        log_lc,
        "",
        missing.as_slice(),
    );
    let acc = &board.causes;
    assert!(acc.iter().any(|(k, _)| {
        let l = k.to_lowercase();
        l.contains("mic2")
            && l.contains("iphone 11")
            && (l.contains("power") || l.contains("flash") || l.contains("bouton"))
    }));
}

#[test]
fn iphone11_mic2_thermalmonitord_adds_flash_power_lead() {
    let mut board = CauseBoard::new();
    let log_lc = "missing sensor(s): mic2 thermalmonitord complained";
    let missing = parse_panic_log(log_lc).missing_sensors;
    let ui = apply_repair_wiki_correlations(
        &mut board,
        Some("iPhone12,1"),
        None,
        None,
        log_lc,
        "",
        missing.as_slice(),
    );
    let acc = &board.causes;
    let checks = &board.checks;
    let joined_acc = acc.iter().map(|(k, _)| k).map(|k| k.to_lowercase()).collect::<Vec<_>>().join(" | ");
    assert!(
        joined_acc.contains("flash") || joined_acc.contains("bouton power"),
        "attendu piste flash/power secondaire Â· acc={acc:?}"
    );
    assert!(
        checks.iter().any(|c| {
            let l = c.to_lowercase();
            l.contains("flash") && (l.contains("thermalmonitord") || l.contains("thermal"))
        }),
        "{checks:?}"
    );
    assert!(
        ui.iter().any(|l| l.to_lowercase().contains("flash")),
        "{ui:?}"
    );
}

#[test]
fn se2020_mic1_special_case() {
    let mut board = CauseBoard::new();
    let log_lc = "missing sensor(s): mic1";
    let missing = parse_panic_log(log_lc).missing_sensors;
    let ui = apply_repair_wiki_correlations(
        &mut board,
        Some("iPhone12,8"),
        None,
        None,
        log_lc,
        "",
        missing.as_slice(),
    );
    let acc = &board.causes;
    assert!(
        ui.iter().any(|l| l.to_lowercase().contains("mic1")),
        "{ui:?}"
    );
    assert!(acc.iter().map(|(k, _)| k).any(|k| k.contains("SE 2020") || k.contains("MIC1")));
}

#[test]
fn smc_taop_taoj_hints_post_wireless_intervention() {
    let mut board = CauseBoard::new();
    apply_repair_wiki_correlations(
        &mut board,
        None,
        None,
        None,
        "smc panic bsc taop taoj",
        "",
        &[],
    );
    let checks = &board.checks;
    assert!(
        checks.iter().any(|c| c.contains("Qi") || c.contains("MagSafe")),
        "{checks:?}"
    );
}

#[test]
fn chart_nvme_adds_cause() {
    let mut board = CauseBoard::new();
    let mut ui = Vec::new();
    apply_panic_logs_chart_pdf(
        "kernel nvme controller error",
        None,
        None,
        &mut board,
        &mut ui,
    );
    let acc = &board.causes;
    assert!(acc.iter().map(|(k, _)| k).any(|k| k.to_lowercase().contains("nvme")), "{acc:?}");
    assert!(!ui.is_empty());
}

#[test]
fn chart_nvme_summary_line() {
    let mut board = CauseBoard::new();
    let mut ui = Vec::new();
    apply_panic_logs_chart_pdf(
        "kernel nvme controller error",
        None,
        None,
        &mut board,
        &mut ui,
    );
    assert_eq!(board.causes.len(), 1);
    assert!(board.causes.iter().all(|(k, w)| k.to_lowercase().contains("nvme") && *w == 700));
    assert_eq!(board.checks.len(), 1);
    assert_eq!(ui.len(), 1);
    assert!(ui[0].starts_with("PANIC LOGS chart : 1 motif(s)"), "{ui:?}");
}

#[test]
fn chart_i2c_hint_with_product() {
    let mut board = CauseBoard::new();
    let mut ui = Vec::new();
    apply_panic_logs_chart_pdf(
        "timeout on i2c1 bus",
        Some("iphone14,5"),
        Some("s8000"),
        &mut board,
        &mut ui,
    );
    let checks = &board.checks;
    assert!(
        checks.iter().any(|c| c.contains("IÂ²C") && c.contains("iphone14,5")),
        "{checks:?}"
    );
}

#[test]
fn correlations_never_lower_a_weight_nor_drop_a_check() {
    let mut board = CauseBoard::new();
    board.push_cause("MIC1 \u{c2}\u{b7} probl\u{c3}\u{a8}me li\u{c3}\u{a9} \u{c3}\u{a0} la nappe du connecteur de charge", 990);
    board.push_cause("Autre cause", 10);
    board.add_check("Contr\u{c3}\u{b4}le initial".to_string());
    let before = board.causes.clone();
    let ui = apply_repair_wiki_correlations(
        &mut board,
        Some("iPhone10,3"),
        None,
        None,
        "panic mic1 missing sensor(s): mic1 thermalmonitord nvme",
        "",
        &["mic1".to_string()],
    );
    assert!(!ui.is_empty());
    for (name, w0) in &before {
        let w1 = board.causes.iter().find(|(n, _)| n == name).map(|(_, w)| *w);
        assert!(w1.map_or(false, |w| w >= *w0), "{name}: {w1:?}");
    }
    assert!(board.checks.iter().any(|c| c == "Contr\u{c3}\u{b4}le initial"));
    for (name, w) in &board.causes {
        assert!(*w > 0, "{name}");
    }
}
