use panicbase::panic_pull::{
    afc_candidate_sort_ms, afc_child_path, download_summary_message, effective_panic_sort_ms, embedded_panic_full_timestamp_ms,
    empty_pull_message, filename_is_likely_panic, is_afc_panic_entry, iso_label, pull_summary_message, recency_order,
    extract_panic_logs_outcome, pick_next_action, safe_local_filename, CrashReportRun, truncate_snippet, utf8_is_kernel_panic, PickAction, MAX_PANICS,
};

#[test]
fn panic_full_name_carries_its_utc_time() {
    assert_eq!(embedded_panic_full_timestamp_ms("panic-full-2024-03-05-101530.0002.ips"), Some(1709633730000));
    assert_eq!(embedded_panic_full_timestamp_ms("PANIC-FULL-2024-03-05-101530.ips"), Some(1709633730000));
    assert_eq!(embedded_panic_full_timestamp_ms("panic-full-2023-02-30-101530.ips"), None);
    assert_eq!(embedded_panic_full_timestamp_ms("panic-full-2024-03-05-256000.ips"), None);
    assert_eq!(embedded_panic_full_timestamp_ms("JetsamEvent-2024-03-05.ips"), None);
}

#[test]
fn afc_candidates_fall_back_to_file_times() {
    assert_eq!(afc_candidate_sort_ms("panic-full-2024-03-05-101530.ips", 5, 7), 1709633730000);
    assert_eq!(afc_candidate_sort_ms("other.ips", 1_709_633_730_000_000_000, 0), 1_709_633_730_000);
    assert_eq!(afc_candidate_sort_ms("other.ips", 0, 1_709_633_730_000_000_000), 1_709_633_730_000);
    assert_eq!(afc_candidate_sort_ms("other.ips", 0, 42), 42);
    assert_eq!(effective_panic_sort_ms("other.ips", 99), 99);
    assert_eq!(effective_panic_sort_ms("panic-full-2024-03-05-101530.ips", 99), 1709633730000);
}

#[test]
fn kernel_panic_detection() {
    assert!(utf8_is_kernel_panic("{\"panicString\":\"x\"}"));
    assert!(utf8_is_kernel_panic("bug PANIC-FULL report"));
    assert!(!utf8_is_kernel_panic("JetsamEvent"));
    assert!(filename_is_likely_panic(Some("Panic_Full-2024.ips")));
    assert!(!filename_is_likely_panic(Some("Jetsam.ips")));
    assert!(is_afc_panic_entry("panic-full-2024.IPS"));
    assert!(is_afc_panic_entry("x_panic_full.panic"));
    assert!(!is_afc_panic_entry("panic-full-2024.txt"));
    assert!(!is_afc_panic_entry("jetsam.ips"));
}

#[test]
fn afc_paths_and_local_names() {
    assert_eq!(afc_child_path("/", "a.ips"), "/a.ips");
    assert_eq!(afc_child_path("/Logs", "a.ips"), "/Logs/a.ips");
    assert_eq!(safe_local_filename("a:b?c.ips"), "a_b_c.ips");
    assert_eq!(safe_local_filename("   "), "panic-full.ips");
    assert_eq!(safe_local_filename(""), "panic-full.ips");
}

#[test]
fn snippets_are_trimmed_and_capped() {
    assert_eq!(truncate_snippet("  short text  "), "short text");
    let long = "y".repeat(230);
    let s = truncate_snippet(&long);
    assert_eq!(s, format!("{}\u{e2}\u{20ac}\u{a6}", "y".repeat(220)));
    assert_eq!(truncate_snippet(&"z".repeat(220)), "z".repeat(220));
}

#[test]
fn labels_and_messages() {
    assert_eq!(iso_label(1709633730000), "2024-03-05 10:15 UTC");
    assert_eq!(iso_label(i64::MAX), "\u{e2}\u{20ac}\u{201d}");
    assert_eq!(
        pull_summary_message(2, 3, "AFC direct"),
        "2 panic(s) noyau (max 5), les plus r\u{c3}\u{a9}cents via AFC direct sur 3 fichier(s)."
    );
    assert_eq!(
        download_summary_message(1, 12),
        "1 panic(s) noyau (max 5), les plus r\u{c3}\u{a9}cents sur 12 fichier(s) t\u{c3}\u{a9}l\u{c3}\u{a9}charg\u{c3}\u{a9}s."
    );
    assert!(empty_pull_message(0).starts_with("Aucun fichier .ips/.crash"));
    assert_eq!(
        empty_pull_message(4),
        "Aucun panic noyau parmi les 4 fichier(s) t\u{c3}\u{a9}l\u{c3}\u{a9}charg\u{c3}\u{a9}s. Seuls les rapports contenant \u{c2}\u{ab} panic-full \u{c2}\u{bb} ou \u{c2}\u{ab} panicString \u{c2}\u{bb} sont retenus."
    );
}

#[test]
fn recency_order_is_a_stable_latest_first_sort() {
    assert_eq!(recency_order(&[10, 30, 20, 30, 5]), vec![1, 3, 2, 0, 4]);
    assert_eq!(recency_order(&[]), Vec::<usize>::new());
    assert_eq!(recency_order(&[7, 7, 7]), vec![0, 1, 2]);
}

#[test]
fn pick_trusts_a_panic_name_and_tests_other_files_twice() {
    assert_eq!(pick_next_action(0, true, None, None), PickAction::ReadFull);
    assert_eq!(pick_next_action(0, true, None, Some(false)), PickAction::Keep);
    assert_eq!(pick_next_action(2, false, None, None), PickAction::ReadPrescan);
    assert_eq!(pick_next_action(2, false, Some(false), None), PickAction::Skip);
    assert_eq!(pick_next_action(2, false, Some(true), None), PickAction::ReadFull);
    assert_eq!(pick_next_action(2, false, Some(true), Some(false)), PickAction::Skip);
    assert_eq!(pick_next_action(2, false, Some(true), Some(true)), PickAction::Keep);
}

#[test]
fn pick_stops_once_enough_panics_are_kept() {
    assert_eq!(pick_next_action(MAX_PANICS, true, None, Some(true)), PickAction::Stop);
    assert_eq!(pick_next_action(MAX_PANICS - 1, true, None, Some(true)), PickAction::Keep);
}

#[test]
fn extraction_outcome_names_folder_and_count_or_the_failure() {
    let ok = extract_panic_logs_outcome(
        "/tmp/r",
        CrashReportRun::Exited { success: true, status: "exit status: 0".into(), stdout: String::new(), stderr: String::new() },
        3,
    );
    assert_eq!(
        ok,
        Ok("Extraction termin\u{c3}\u{a9}e dans \u{c2}\u{ab} /tmp/r \u{c2}\u{bb} \u{c2}\u{b7} 3 fichier(s) .ips / .crash visibles.".to_string())
    );
    let failed = extract_panic_logs_outcome(
        "/tmp/r",
        CrashReportRun::Exited { success: false, status: "exit status: 1".into(), stdout: " a \n".into(), stderr: "\tb ".into() },
        0,
    );
    assert_eq!(failed, Err("idevicecrashreport (exit status: 1) stdout: a stderr: b".to_string()));
    assert!(extract_panic_logs_outcome("/tmp/r", CrashReportRun::NotFound, 0).unwrap_err().starts_with("idevicecrashreport introuvable"));
    assert!(extract_panic_logs_outcome("/tmp/r", CrashReportRun::TimedOut, 0).unwrap_err().contains("USB lent"));
    assert_eq!(
        extract_panic_logs_outcome("/tmp/r", CrashReportRun::StartFailed { error: "denied".into() }, 0),
        Err("denied".to_string())
    );
}
