use panicbase::cause_rules::{score_cause_rules, score_named_missing_sensors};
use panicbase::critical_lines::extract_critical_signal_lines;
use panicbase::findings::CauseBoard;
use panicbase::repair_wiki::{IPHONE11_MIC2_CAUSE, IPHONE11_MIC2_THERMAL_FLASH_POWER_CAUSE};

fn strings(v: &[&str]) -> Vec<String> {
    v.iter().map(|s| s.to_string()).collect()
}

fn weight(board: &CauseBoard, name: &str) -> Option<u32> {
    board.causes.iter().find(|(n, _)| n == name).map(|(_, w)| *w)
}

#[test]
fn board_keeps_the_highest_weight_per_cause() {
    let mut b = CauseBoard::new();
    b.push_cause("A", 500);
    b.push_cause("B", 300);
    b.push_cause("A", 700);
    b.push_cause("A", 600);
    assert_eq!(b.causes, vec![("A".to_string(), 700), ("B".to_string(), 300)]);
    b.add_check("x".to_string());
    b.add_check("x".to_string());
    assert_eq!(b.checks, strings(&["x"]));
}

#[test]
fn iphone11_mic2_with_thermal_daemon() {
    let mut b = CauseBoard::new();
    let normalized = strings(&["No successful checkins from thermalmonitord", "Capteur absent (mic2)", "Missing sensor"]);
    let missing = strings(&["mic2"]);
    score_cause_rules(
        &mut b,
        &normalized,
        Some("iPhone12,1"),
        None,
        Some("iPhone 11"),
        &missing,
        "no successful checkins from thermalmonitord\nmissing sensor(s): mic2",
        None,
    );
    assert_eq!(weight(&b, IPHONE11_MIC2_CAUSE), Some(950));
    assert_eq!(weight(&b, IPHONE11_MIC2_THERMAL_FLASH_POWER_CAUSE), Some(720));
    assert_eq!(weight(&b, "Nappe charge et connecteur"), None);
    assert!(b.checks.iter().any(|c| c == "Nappe charge et connecteur"));
    assert_eq!(weight(&b, "Connecteur battery FPC"), None);
    assert!(b.causes.iter().any(|(n, w)| n.starts_with("Nappe / dock ou FPC") && *w == 580));
}

#[test]
fn bug_type_only_gives_a_fallback_cause() {
    let mut b = CauseBoard::new();
    score_cause_rules(&mut b, &[], None, Some("210"), None, &[], "nothing", None);
    assert_eq!(b.causes, vec![("Type bug 210 (watchdog timeout)".to_string(), 700)]);
}

#[test]
fn named_sensors_prs0_outside_iphone11() {
    let mut b = CauseBoard::new();
    score_named_missing_sensors(&mut b, &strings(&["prs0"]), Some("iPhone X"), Some("iPhone10,3"), None);
    assert!(b.causes.iter().any(|(n, w)| n.starts_with("PRS0") && *w == 920));
    assert!(b.causes.iter().any(|(n, w)| n.starts_with("Capteur(s) list") && *w == 790));
}

#[test]
fn critical_lines_keep_panic_lines_and_decode_masks() {
    let log = "foo\npanic(cpu 0): x\nS.sensor array 0 - 5 is 0, 2621440, 0\nother";
    let lines = extract_critical_signal_lines(log);
    assert_eq!(
        lines,
        strings(&[
            "panic(cpu 0): x",
            "S.sensor array 0 - 5 is 0, 2621440, 0",
            "Sensor bitmask (extrait) : 2621440 \u{e2}\u{2020}\u{2019} 0x280000",
        ])
    );
}

#[test]
fn critical_lines_of_a_one_line_report() {
    let log = "{\"panicString\":\"x F.sensor array 1 is 161, 0 y\"}";
    let lines = extract_critical_signal_lines(log);
    assert_eq!(lines[0], log);
    assert!(lines.iter().any(|l| l == "F.sensor array 1 is 161, 0 y\"}"));
    assert!(lines.iter().any(|l| l.starts_with("Sensor bitmask (extrait) : 161 ")));
}
