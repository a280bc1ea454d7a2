use panicbase::icloud::ICloudSession;
use panicbase::icloud_photos::{
    ICloudAsset,
    album_page_items, albums_of_page, asset_from_record, listing_offsets, merge_fresh, next_probe_wave, paged_listing_done, ck_query_url, classify_folder, cloudkit_http_error, parse_records_page,
    read_asset_pair, resolve_download_url,
};
use panicbase::ips::JsonValue;

fn json(text: &str) -> JsonValue {
    fn conv(v: serde_json::Value) -> JsonValue {
        match v {
            serde_json::Value::Null => JsonValue::Null,
            serde_json::Value::Bool(b) => JsonValue::Bool(b),
            serde_json::Value::Number(n) => JsonValue::Number(n.to_string()),
            serde_json::Value::String(t) => JsonValue::Text(t),
            serde_json::Value::Array(a) => JsonValue::Array(a.into_iter().map(conv).collect()),
            serde_json::Value::Object(m) => JsonValue::Object(m.into_iter().map(|(k, x)| (k, conv(x))).collect()),
        }
    }
    conv(serde_json::from_str(text).expect("json"))
}

const ASSET: &str = r#"{"recordName":"ASSET-1","recordType":"CPLAsset","fields":{
  "masterRef":{"value":{"recordName":"MASTER-1"}},
  "assetDate":{"value":1700000000000},
  "isFavorite":{"value":1},
  "isHidden":{"value":0}
}}"#;

const MASTER: &str = r#"{"recordName":"MASTER-1","recordType":"CPLMaster","fields":{
  "filenameEnc":{"value":"SU1HXzAwMDEuSEVJQw=="},
  "itemType":{"value":"public.heic"},
  "resJPEGThumbRes":{"value":{"downloadURL":"https://cvws.example/B/${f}/thumb?o=1","fileChecksum":"ab/c+d=="}},
  "resOriginalRes":{"value":{"downloadURL":"https://cvws.example/orig","size":1234}},
  "imageWidth":{"value":4032},
  "imageHeight":{"value":3024}
}}"#;

#[test]
fn asset_and_master_make_one_photo() {
    let a = json(ASSET);
    let m = json(MASTER);
    let r = read_asset_pair(&a, Some(&m)).expect("asset");
    assert_eq!(r.record_name, "ASSET-1");
    assert_eq!(r.master_ref.as_deref(), Some("MASTER-1"));
    assert_eq!(r.filename, "IMG_0001.HEIC");
    assert_eq!(r.extension, "heic");
    assert!(!r.is_video);
    assert_eq!(r.date_created_ms, 1700000000000);
    assert_eq!(r.thumb_url.as_deref(), Some("https://cvws.example/B/ab_c-d/thumb?o=1"));
    assert_eq!(r.original_url.as_deref(), Some("https://cvws.example/orig"));
    assert_eq!(r.size_bytes, 1234);
    assert!(r.is_favorite);
    assert!(!r.is_hidden);
    assert!(!r.is_in_trash);
    assert_eq!(r.image_width, Some(4032));
    assert_eq!(r.image_height, Some(3024));
    assert_eq!(r.subtype, None);
    let asset = asset_from_record(r, false, false);
    assert_eq!(asset.folder, "Cam\u{c3}\u{a9}ra");
}

#[test]
fn asset_without_name_or_master() {
    assert!(read_asset_pair(&json(r#"{"fields":{}}"#), None).is_none());
    let r = read_asset_pair(&json(r#"{"recordName":"ABCDEFGHIJKL","fields":{"isDeleted":{"value":1}}}"#), None).expect("asset");
    assert_eq!(r.filename, "ICLD_ABCDEFGH.unknown");
    assert_eq!(r.extension, "");
    assert!(r.is_in_trash);
    assert_eq!(r.size_bytes, 0);
    assert_eq!(r.thumb_url, None);
    let short = read_asset_pair(&json(r#"{"recordName":"AB"}"#), None).expect("asset");
    assert_eq!(short.filename, "ICLD_AB.unknown");
}

#[test]
fn video_original_comes_from_the_video_rendition() {
    let a = json(
        r#"{"recordName":"V1","fields":{"filenameEnc":{"value":"Y2xpcC5NT1Y="},
        "resVidFullRes":{"value":{"downloadURL":"https://v/full","size":99}},
        "videoFrameRate":{"value":120.0},"subtype":{"value":131072}}}"#,
    );
    let r = read_asset_pair(&a, None).expect("asset");
    assert_eq!(r.filename, "clip.MOV");
    assert_eq!(r.extension, "mov");
    assert!(r.is_video);
    assert!(r.has_live_video);
    assert_eq!(r.original_url.as_deref(), Some("https://v/full"));
    assert_eq!(r.size_bytes, 99);
    assert_eq!(r.frame_rate.as_deref(), Some("120.0"));
    assert_eq!(r.subtype, Some(131072));
    assert_eq!(asset_from_record(r, false, true).folder, "Ralentis");
}

#[test]
fn download_urls() {
    assert_eq!(resolve_download_url(&json(r#"{"value":{"downloadURL":"https://a/b"}}"#)).as_deref(), Some("https://a/b"));
    assert_eq!(
        resolve_download_url(&json(r#"{"value":{"downloadURL":"https://a/${f}/${f}","referenceChecksum":"x+y/z="}}"#)).as_deref(),
        Some("https://a/x-y_z/x-y_z")
    );
    assert_eq!(resolve_download_url(&json(r#"{"value":{"downloadURL":"https://a/${f}"}}"#)), None);
    assert_eq!(resolve_download_url(&json(r#"{"value":{}}"#)), None);
    assert_eq!(resolve_download_url(&json(r#"{"other":1}"#)), None);
}

#[test]
fn folders_follow_subtype_name_shape_and_kind() {
    assert_eq!(classify_folder("IMG_1.HEIC", "heic", false, false, Some(16), false, false), "Portraits");
    assert_eq!(classify_folder("IMG_1.HEIC", "heic", false, false, Some(8), false, false), "Live Photos");
    assert_eq!(classify_folder("IMG_1.HEIC", "heic", true, false, Some(8), false, false), "Vid\u{c3}\u{a9}os cam\u{c3}\u{a9}ra");
    assert_eq!(classify_folder("IMG-20200101-WA0001.jpg", "jpg", false, false, None, false, false), "WhatsApp");
    assert_eq!(classify_folder("RPReplay_Final.mp4", "mp4", true, false, None, false, false), "Enregistrements d'\u{c3}\u{a9}cran");
    assert_eq!(classify_folder("a.GIF", "GIF", false, false, None, false, false), "Animations");
    assert_eq!(classify_folder("pano.jpg", "jpg", false, false, None, true, false), "Panoramas");
    assert_eq!(classify_folder("shot.png", "png", false, false, None, false, false), "Captures d'\u{c3}\u{a9}cran");
    assert_eq!(classify_folder("FaceTime 1.jpg", "jpg", false, false, None, false, false), "FaceTime");
    assert_eq!(classify_folder("IMG_2.HEIC", "heic", false, true, None, false, false), "Live Photos");
    assert_eq!(classify_folder("IMG_3.jpg", "jpg", false, false, None, false, false), "Cam\u{c3}\u{a9}ra");
}

#[test]
fn a_page_pairs_assets_with_their_masters() {
    let page = json(&format!(
        r#"{{"records":[{MASTER},{ASSET},
        {{"recordName":"T","recordType":"CPLAsset","fields":{{"isInTrash":{{"value":1}}}}}},
        {{"recordType":"CPLAsset"}},
        {{"recordName":"X","recordType":"Other"}}]}}"#
    ));
    let (assets, count) = parse_records_page(&page);
    assert_eq!(count, 3);
    assert_eq!(assets.len(), 1);
    assert_eq!(assets[0].filename, "IMG_0001.HEIC");
    let (none, zero) = parse_records_page(&json(r#"{"nothing":[]}"#));
    assert!(none.is_empty());
    assert_eq!(zero, 0);
}

#[test]
fn albums_of_a_page() {
    let page = json(
        r#"{"records":[
        {"recordName":"ALB-0001-XYZ","fields":{"albumNameEnc":{"value":"VmFjYW5jZXMgw6l0w6k="}}},
        {"recordName":"ALB-0002-XYZ","fields":{}},
        {"recordName":"ALB-0003","fields":{"isDeleted":{"value":1}}},
        {"fields":{}}]}"#,
    );
    let albums = albums_of_page(&page);
    assert_eq!(albums.len(), 2);
    assert_eq!(albums[0].record_name, "ALB-0001-XYZ");
    assert_eq!(albums[0].name, "Vacances \u{e9}t\u{e9}");
    assert_eq!(albums[1].name, "Album ALB-0002");
    let rel = json(
        r#"{"records":[
        {"fields":{"itemId":{"value":{"recordName":"A1"}}}},
        {"fields":{"itemId":{"value":"A2"}}},
        {"fields":{}}]}"#,
    );
    let (items, n) = album_page_items(&rel);
    assert_eq!(items, vec!["A1".to_string(), "A2".to_string()]);
    assert_eq!(n, 3);
}

#[test]
fn query_url_and_http_errors() {
    let mut s = ICloudSession {
        cookie_header: String::new(),
        dsid: "123".to_string(),
        apple_id: None,
        full_name: None,
        webservices: vec![("ckdatabasews".to_string(), "https://ck.example//".to_string())],
        client_id: "cid".to_string(),
    };
    assert_eq!(
        ck_query_url(&s).unwrap(),
        "https://ck.example/database/1/com.apple.photos.cloud/production/private/records/query?remapEnums=True&getCurrentSyncToken=True&dsid=123&clientId=cid&clientBuildNumber=2421Project53&clientMasteringNumber=2421B25&clientVersion=5.4&ckjsBuildVersion=2421Project53&ckjsVersion=2.6.4"
    );
    s.webservices.clear();
    assert_eq!(ck_query_url(&s), Err("ckdatabasews missing from session.webservices".to_string()));
    assert_eq!(cloudkit_http_error(404, "nope"), "CloudKit HTTP 404 \u{e2}\u{20ac}\u{201d} nope");
    assert!(cloudkit_http_error(503, "x").ends_with("R\u{c3}\u{a9}essaie dans quelques minutes."));
    assert!(cloudkit_http_error(401, "x").contains("Session iCloud expir"));
    assert!(cloudkit_http_error(421, "x").contains("Apple a refus"));
    let long = "b".repeat(600);
    assert_eq!(cloudkit_http_error(404, &long).len(), "CloudKit HTTP 404 \u{e2}\u{20ac}\u{201d} ".len() + 500);
}

fn asset(name: &str) -> ICloudAsset {
    ICloudAsset {
        record_name: name.to_string(),
        master_ref: None,
        filename: format!("{name}.jpg"),
        extension: "jpg".to_string(),
        is_video: false,
        date_created_ms: 0,
        duration_ms: 0,
        size_bytes: 0,
        thumb_url: None,
        original_url: None,
        is_hidden: false,
        is_favorite: false,
        is_in_trash: false,
        folder: String::new(),
    }
}

#[test]
fn listing_pages_and_waves() {
    assert_eq!(listing_offsets(0), Vec::<i64>::new());
    assert_eq!(listing_offsets(1), vec![0]);
    assert_eq!(listing_offsets(500), vec![0]);
    assert_eq!(listing_offsets(1201), vec![0, 500, 1000]);
    assert_eq!(listing_offsets(u64::MAX), Vec::<i64>::new());
    let mut results = Vec::new();
    let mut seen = vec!["A".to_string()];
    let n = merge_fresh(&mut results, &mut seen, vec![asset("A"), asset("B"), asset("C"), asset("B")]);
    assert_eq!(n, 2);
    assert_eq!(results.iter().map(|a| a.record_name.as_str()).collect::<Vec<_>>(), vec!["B", "C"]);
    assert_eq!(seen, vec!["A".to_string(), "B".to_string(), "C".to_string()]);
    assert_eq!(next_probe_wave(0, 3, 2, 10), Some(400));
    assert_eq!(next_probe_wave(400, 0, 2, 10), None);
    assert_eq!(next_probe_wave(400, 3, 0, 10), None);
    assert_eq!(next_probe_wave(400, 3, 2, 100001), None);
    assert!(paged_listing_done(10, 10));
    assert!(!paged_listing_done(9, 10));
    assert!(paged_listing_done(200001, u64::MAX));
}
