use panicbase::contacts_transfer::{build_vcard, escape_vcard, MultiValue, Person};
use panicbase::panic_parser::{extract_missing_sensors_last, parse_panic_log};
use panicbase::signature::{build_signature, bundle_from_log, hash_signature};
use panicbase::usb_probe::{
    recovery_exit_action, recovery_exit_next, recovery_exit_start, usb_probe_next, RecoveryExitAction,
    RecoveryExitEvent, RecoveryExitStep, UsbEvent, UsbProbeStep,
};
use panicbase::panic_pull::{filename_is_likely_panic, safe_local_filename, truncate_snippet, utf8_is_kernel_panic};

fn strings(v: &[&str]) -> Vec<String> {
    v.iter().map(|s| s.to_string()).collect()
}

#[test]
fn signature_sorts_and_dedups_keywords() {
    let s = build_signature("iPhone 11", "thermalmonitord", &strings(&["mic2", "ans2", "mic2"]));
    assert_eq!(s, "iPhone 11|thermalmonitord|ans2|mic2");
}

#[test]
fn signature_ignores_keyword_order() {
    let a = build_signature("m", "p", &strings(&["tg0b", "prs0", "mic1"]));
    let b = build_signature("m", "p", &strings(&["mic1", "tg0b", "prs0", "prs0"]));
    assert_eq!(a, b);
}

#[test]
fn signature_with_no_keywords_ends_with_separator() {
    assert_eq!(build_signature("m", "unknown", &[]), "m|unknown|");
}

#[test]
fn hash_signature_is_lowercase_sha256_hex() {
    assert_eq!(
        hash_signature("abc"),
        "ba7816bf8f01cfea414140de5dae2223b00361a396177a9cb410ff61f20015ad"
    );
    assert_ne!(hash_signature("abc"), "abc");
}

#[test]
fn bundle_uses_unknown_model_when_blank() {
    let b = bundle_from_log("No successful checkins from thermalmonitord\nMissing sensor(s): mic2", "  ".to_string());
    assert_eq!(b.panic_type, "thermalmonitord");
    assert_eq!(b.signature, "unknown_model|thermalmonitord|mic2|thermalmonitord");
    assert_eq!(b.signature_hash, hash_signature(&b.signature));
    assert_eq!(b.keywords, strings(&["thermalmonitord", "mic2"]));
}

#[test]
fn parse_panic_log_types_and_keywords() {
    let p = parse_panic_log("userspace WATCHDOG timeout, SMC PANIC\nmissing sensor(s): [prs0], \"tg0v\", x");
    assert_eq!(p.panic_type, "userspace_watchdog");
    assert_eq!(p.keywords, strings(&["watchdog", "prs0", "tg0v", "smc panic"]));
    assert_eq!(p.missing_sensors, strings(&["prs0", "tg0v"]));
    assert_eq!(parse_panic_log("nothing here").panic_type, "unknown");
    assert_eq!(parse_panic_log("AOP PANIC").panic_type, "aop_panic");
    assert_eq!(parse_panic_log("baseband reset").panic_type, "baseband");
}

#[test]
fn missing_sensors_last_reads_the_last_line_only() {
    let v = extract_missing_sensors_last("Missing sensor(s): mic2\nmore\nMissing sensor(s): tg0v, prs0\n");
    assert_eq!(v, strings(&["tg0v", "prs0"]));
    assert!(extract_missing_sensors_last("no sensors").is_empty());
}

#[test]
fn vcard_escaping() {
    assert_eq!(escape_vcard("a,b;c\\d\ne"), "a\\,b\\;c\\\\d\\ne");
    assert_eq!(escape_vcard("plain"), "plain");
}

#[test]
fn vcard_full_card() {
    let p = Person {
        row_id: 1,
        first: Some("Jean".to_string()),
        last: Some("Dupont".to_string()),
        organization: Some("ACME, SA".to_string()),
        department: None,
        job_title: Some("Tech".to_string()),
        note: Some("  ".to_string()),
    };
    let mv = vec![
        MultiValue { property: 3, value: "0601".to_string(), label: Some("_$!<Mobile>!$_".to_string()) },
        MultiValue { property: 4, value: "j@x.fr".to_string(), label: None },
        MultiValue { property: 5, value: "x.fr".to_string(), label: None },
        MultiValue { property: 9, value: "ignored".to_string(), label: None },
    ];
    let card = build_vcard(&p, &mv);
    assert_eq!(
        card,
        "BEGIN:VCARD\r\nVERSION:3.0\r\nFN:Jean Dupont\r\nN:Dupont;Jean;;;\r\nORG:ACME\\, SA;\r\nTITLE:Tech\r\nTEL;TYPE=CELL:0601\r\nEMAIL;TYPE=INTERNET:j@x.fr\r\nURL:x.fr\r\nEND:VCARD\r\n"
    );
}

#[test]
fn vcard_without_name_or_organization() {
    let p = Person {
        row_id: 2,
        first: None,
        last: None,
        organization: None,
        department: None,
        job_title: None,
        note: Some("hello".to_string()),
    };
    let card = build_vcard(&p, &[]);
    assert_eq!(card, "BEGIN:VCARD\r\nVERSION:3.0\r\nFN:Inconnu\r\nN:;;;;\r\nNOTE:hello\r\nEND:VCARD\r\n");
}

#[test]
fn usb_probe_timeout_goes_to_probe_without_udid() {
    let next = usb_probe_next(UsbProbeStep::ListDevices, UsbEvent::ListTimedOut);
    assert!(matches!(next, UsbProbeStep::ProbeWithoutUdid { .. }));
}

#[test]
fn usb_probe_listed_udid_reads_keys() {
    let udid = "00008150-001A2B3C4D5E6F70";
    let next = usb_probe_next(
        UsbProbeStep::ListDevices,
        UsbEvent::Listed {
            success: true,
            exit_status: "0".to_string(),
            stdout: format!("{udid}\n"),
            stderr: String::new(),
            tool_dir: None,
        },
    );
    match next {
        UsbProbeStep::ReadKeys { udids } => assert_eq!(udids, vec![udid.to_string()]),
        _ => panic!("expected ReadKeys"),
    }
}

#[test]
fn usb_probe_done_ignores_further_events() {
    let done = usb_probe_next(UsbProbeStep::ListDevices, UsbEvent::ListFailed { error: "boom".to_string() });
    assert!(matches!(done, UsbProbeStep::Done { .. }));
    let again = usb_probe_next(done, UsbEvent::ListTimedOut);
    assert!(matches!(again, UsbProbeStep::Done { .. }));
}

#[test]
fn recovery_exit_without_tool_finishes_with_error() {
    assert!(matches!(
        recovery_exit_start(false),
        RecoveryExitStep::Finished { outcome: Err(_) }
    ));
    assert!(matches!(recovery_exit_start(true), RecoveryExitStep::RunCommand { index: 0 }));
}

#[test]
fn recovery_exit_success_finishes_ok() {
    let ran = || RecoveryExitEvent::Ran {
        success: true,
        exit_status: "0".to_string(),
        stdout: String::new(),
        stderr: String::new(),
    };
    let step = recovery_exit_next(RecoveryExitStep::RunCommand { index: 0 }, ran());
    assert!(matches!(step, RecoveryExitStep::RunCommand { index: 1 }));
    let step = recovery_exit_next(step, ran());
    assert!(matches!(step, RecoveryExitStep::RunCommand { index: 2 }));
    let step = recovery_exit_next(step, ran());
    match step {
        RecoveryExitStep::Finished { outcome: Ok(s) } => assert_eq!(s, "setenv auto-boot true; saveenv; reboot"),
        _ => panic!("expected a finished chain"),
    }
}

#[test]
fn recovery_exit_failure_tries_next_command() {
    let next = recovery_exit_next(
        RecoveryExitStep::RunCommand { index: 0 },
        RecoveryExitEvent::StartFailed { error: "x".to_string() },
    );
    assert!(!matches!(next, RecoveryExitStep::RunCommand { index: 0 }));
}

#[test]
fn workshop_file_names() {
    assert_eq!(safe_local_filename("a<b>:c?.ips"), "a_b__c_.ips");
    assert_eq!(safe_local_filename("   "), "panic-full.ips");
    assert!(filename_is_likely_panic(Some("Panic-Full-2024.ips")));
    assert!(filename_is_likely_panic(Some("x_panic_full.txt")));
    assert!(!filename_is_likely_panic(Some("report.ips")));
    assert!(!filename_is_likely_panic(None));
}

#[test]
fn workshop_kernel_panic_markers() {
    assert!(!utf8_is_kernel_panic("nothing"));
    assert!(utf8_is_kernel_panic("{\"panicString\":\"x\"}"));
}

#[test]
fn truncate_snippet_keeps_short_text() {
    assert_eq!(truncate_snippet("  short  "), "short");
}

fn action_args(step: &RecoveryExitStep) -> Option<Vec<String>> {
    match recovery_exit_action(step) {
        RecoveryExitAction::Irecovery { args } => Some(args),
        RecoveryExitAction::Done { .. } => None,
    }
}

#[test]
fn recovery_exit_runs_the_chain_then_reboot() {
    let step = recovery_exit_start(true);
    assert_eq!(action_args(&step), Some(vec!["-c".to_string(), "setenv auto-boot true".to_string()]));
    assert_eq!(
        action_args(&RecoveryExitStep::RunCommand { index: 2 }),
        Some(vec!["-c".to_string(), "reboot".to_string()])
    );
    assert_eq!(
        action_args(&RecoveryExitStep::RunReboot { last_error: String::new() }),
        Some(vec!["-n".to_string()])
    );
    match recovery_exit_action(&RecoveryExitStep::Finished { outcome: Err("x".to_string()) }) {
        RecoveryExitAction::Done { outcome } => assert_eq!(outcome, Err("x".to_string())),
        RecoveryExitAction::Irecovery { .. } => panic!("a finished step runs nothing"),
    }
}
