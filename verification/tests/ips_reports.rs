use panicbase::gallery_afc::list_media;
use panicbase::ips::{extract_from_plist_xml, extract_ips_body, ips_body_from, ips_is_binary_plist};

#[test]
fn binary_plist_magic() {
    assert!(ips_is_binary_plist("bplist00\u{1}rest"));
    assert!(!ips_is_binary_plist("{\"bug_type\":\"210\"}"));
    assert!(!ips_is_binary_plist(" bplist"));
}

#[test]
fn json_report_gives_panic_and_device() {
    let raw = "\u{feff}  {\"bug_type\":\"210\",\"product\":\" iPhone12,1 \",\"payload\":{\"panicString\":\"panic(cpu 0): watchdog\"}}  ";
    let (text, device, method) = extract_ips_body(raw);
    assert_eq!(text, "panic(cpu 0): watchdog");
    assert_eq!(device.as_deref(), Some("iPhone12,1"));
    assert_eq!(method, "json");
}

#[test]
fn json_report_nested_in_array_uses_snake_case_key() {
    let raw = "[{\"x\":1},{\"inner\":{\"panic_string\":\"SMC PANIC\",\"model\":\"iPhone15,4\"}}]";
    let (text, device, method) = extract_ips_body(raw);
    assert_eq!(text, "SMC PANIC");
    assert_eq!(device.as_deref(), Some("iPhone15,4"));
    assert_eq!(method, "json");
}

#[test]
fn json_without_panic_text_falls_back_to_plain_text() {
    let (text, device, method) = extract_ips_body("{\"panicString\":\"   \"}");
    assert_eq!(text, "{\"panicString\":\"   \"}");
    assert_eq!(device, None);
    assert_eq!(method, "plaintext");
}

#[test]
fn plist_report_gives_the_string_value() {
    let raw = "<plist><dict><key> PanicString </key>\n<string>  panic(cpu 1): kernel  </string></dict></plist>";
    let (text, device, method) = extract_ips_body(raw);
    assert_eq!(text, "panic(cpu 1): kernel");
    assert_eq!(device, None);
    assert_eq!(method, "plist-xml");
    assert_eq!(
        extract_from_plist_xml("<key>panicString</key>![CDATA[abc]]>"),
        Some("abc".to_string())
    );
    assert_eq!(extract_from_plist_xml("<key>panicString</key><![CDATA[abc]]>"), None);
    assert_eq!(extract_from_plist_xml("<key>panicString</key><string>   </string>"), None);
}

#[test]
fn plain_and_raw_reports() {
    assert_eq!(extract_ips_body("  panic(cpu 0): x  ").2, "plaintext");
    assert_eq!(extract_ips_body("hello world").2, "raw");
    assert_eq!(extract_ips_body("hello world").0, "hello world");
}

#[test]
fn body_from_unparsed_text() {
    let (text, device, method) = ips_body_from("nothing", None);
    assert_eq!((text.as_str(), device, method), ("nothing", None, "raw"));
}

#[test]
fn manifest_rows_become_media_items() {
    let rows = vec![
        ("ab12".to_string(), "Media/DCIM/100APPLE/IMG_0001.HEIC".to_string()),
        ("cd34".to_string(), "Media/DCIM/100APPLE/clip.MOV".to_string()),
        ("ef56".to_string(), "Media/PhotoData/notes.plist".to_string()),
        ("gh78".to_string(), "pic.jpg".to_string()),
    ];
    let items = list_media(&rows);
    assert_eq!(items.len(), 3);
    assert_eq!(items[0].filename, "IMG_0001.HEIC");
    assert_eq!(items[0].extension, "heic");
    assert!(!items[0].is_video);
    assert_eq!(items[0].folder, "100APPLE");
    assert_eq!(items[1].extension, "mov");
    assert!(items[1].is_video);
    assert_eq!(items[2].folder, "Camera Roll");
    assert_eq!(items[2].size_bytes, 0);
}
