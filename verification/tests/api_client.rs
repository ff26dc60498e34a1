use mimick::config::ConfigData;
use mimick::api_client::{
    album_assets_url, albums_url, build_upload_request, created_album_id, file_timestamps_iso,
    interpret_upload_reply, is_success_status, mime_for_extension, mime_for_path, ping_endpoint,
    ping_succeeded, unix_to_iso8601, AlbumCache, AlbumClaim, ProbeStep, ServerSettings, UploadReply,
};

#[test]
fn test_unix_to_iso8601() {
    assert_eq!(unix_to_iso8601(0), "1970-01-01T00:00:00.000Z");
    assert_eq!(unix_to_iso8601(1704067200), "2024-01-01T00:00:00.000Z");
}

#[test]
fn test_mime_for_path() {
    assert_eq!(mime_for_path("test.jpg"), "image/jpeg");
    assert_eq!(mime_for_path("test.PNG"), "image/png");
    assert_eq!(mime_for_path("test.mp4"), "video/mp4");
    assert_eq!(mime_for_path("test.unknown"), "application/octet-stream");
}

#[test]
fn iso8601_leap_day_and_time_of_day() {
    // 2024-02-29 12:34:56 UTC
    assert_eq!(unix_to_iso8601(1709210096), "2024-02-29T12:34:56.000Z");
    // last second of 1999
    assert_eq!(unix_to_iso8601(946684799), "1999-12-31T23:59:59.000Z");
    // 2000 is a leap year (divisible by 400)
    assert_eq!(unix_to_iso8601(951782400), "2000-02-29T00:00:00.000Z");
    // 2100 is not a leap year: 2100-02-28 is followed by 2100-03-01
    assert_eq!(unix_to_iso8601(4107456000), "2100-02-28T00:00:00.000Z");
    assert_eq!(unix_to_iso8601(4107542400), "2100-03-01T00:00:00.000Z");
}

#[test]
fn iso8601_years_past_9999_are_not_truncated() {
    // 10000-01-01T00:00:00Z
    assert_eq!(unix_to_iso8601(253402300800), "10000-01-01T00:00:00.000Z");
}

#[test]
fn timestamps_fall_back_to_now() {
    let (c, m) = file_timestamps_iso(None, Some(86400), 0);
    assert_eq!(c, "1970-01-01T00:00:00.000Z");
    assert_eq!(m, "1970-01-02T00:00:00.000Z");
}

#[test]
fn mime_covers_every_known_extension() {
    assert_eq!(mime_for_path("/x/a.JPEG"), "image/jpeg");
    assert_eq!(mime_for_path("a.mov"), "video/quicktime");
    assert_eq!(mime_for_path("a.gif"), "image/gif");
    assert_eq!(mime_for_path("a.webp"), "image/webp");
    assert_eq!(mime_for_path("a.heic"), "image/heic");
    assert_eq!(mime_for_path("a.TIF"), "image/tiff");
    assert_eq!(mime_for_path("a.tiff"), "image/tiff");
    assert_eq!(mime_for_path("noext"), "application/octet-stream");
    assert_eq!(mime_for_path(".jpg"), "application/octet-stream");
    assert_eq!(mime_for_extension(Some("png")), "image/png");
    assert_eq!(mime_for_extension(None), "application/octet-stream");
}

#[test]
fn server_settings_drop_trailing_slashes() {
    let s = ServerSettings::new("http://lan:2283//".to_string(), "https://wan/".to_string(), "k".to_string());
    assert_eq!(s.internal_url, "http://lan:2283");
    assert_eq!(s.external_url, "https://wan");
    assert_eq!(s.api_key, "k");
    assert_eq!(s.select_active_url(true, true), Some("http://lan:2283".to_string()));
    assert_eq!(s.select_active_url(false, true), Some("https://wan".to_string()));
    assert_eq!(s.select_active_url(false, false), None);
}

#[test]
fn ping_endpoint_and_answer() {
    assert_eq!(ping_endpoint(""), None);
    assert_eq!(ping_endpoint("http://a/"), Some("http://a/api/server/ping".to_string()));
    assert!(ping_succeeded(200, Some("PONG".to_string())));
    assert!(ping_succeeded(200, Some("pong".to_string())));
    assert!(!ping_succeeded(200, Some("ping".to_string())));
    assert!(!ping_succeeded(404, Some("pong".to_string())));
    assert!(!ping_succeeded(200, None));
}

#[test]
fn upload_request_fields() {
    let r = build_upload_request("http://h", "/p/IMG_1.JPG", "abc");
    assert_eq!(r.url, "http://h/api/assets");
    assert_eq!(r.filename, "IMG_1.JPG");
    assert_eq!(r.device_asset_id, "mimick-rust-abc");
    assert_eq!(r.device_id, "mimick-rust-client");
    assert_eq!(r.mime, "image/jpeg");
    let r2 = build_upload_request("http://h", "/", "x");
    assert_eq!(r2.filename, "upload");
}

#[test]
fn upload_replies() {
    let ok = interpret_upload_reply(UploadReply::Answered { status: 201, id: Some("a1".to_string()) });
    assert_eq!(ok, (Some("a1".to_string()), false));
    let unreadable = interpret_upload_reply(UploadReply::Answered { status: 200, id: None });
    assert_eq!(unreadable, (None, false));
    let dup = interpret_upload_reply(UploadReply::Answered { status: 409, id: None });
    assert_eq!(dup, (Some("DUPLICATE".to_string()), false));
    let dup_id = interpret_upload_reply(UploadReply::Answered { status: 409, id: Some("z".to_string()) });
    assert_eq!(dup_id, (Some("z".to_string()), false));
    assert_eq!(interpret_upload_reply(UploadReply::Answered { status: 413, id: None }), (None, true));
    assert_eq!(interpret_upload_reply(UploadReply::Answered { status: 502, id: None }), (None, true));
    assert_eq!(interpret_upload_reply(UploadReply::Answered { status: 504, id: None }), (None, true));
    assert_eq!(interpret_upload_reply(UploadReply::Answered { status: 500, id: None }), (None, false));
    assert_eq!(interpret_upload_reply(UploadReply::NetworkError), (None, true));
}

#[test]
fn album_urls() {
    assert_eq!(albums_url("http://h"), "http://h/api/albums");
    assert_eq!(album_assets_url("http://h", "A", 2), Some("http://h/api/albums/A/assets".to_string()));
    assert_eq!(album_assets_url("http://h", "", 2), None);
    assert_eq!(album_assets_url("http://h", "A", 0), None);
    assert!(is_success_status(204));
    assert!(!is_success_status(300));
    assert_eq!(created_album_id(201, Some("n".to_string())), Some("n".to_string()));
    assert_eq!(created_album_id(400, Some("n".to_string())), None);
}

#[test]
fn album_cache_listing_lookup_and_creation() {
    let mut c = AlbumCache::new();
    assert!(c.needs_fetch());
    c.absorb_listing(vec![
        (Some("Trip".to_string()), Some("1".to_string())),
        (None, Some("2".to_string())),
        (Some("Home".to_string()), None),
        (Some("Trip".to_string()), Some("3".to_string())),
    ]);
    assert!(!c.needs_fetch());
    assert_eq!(c.lookup("Trip"), Some("3".to_string()));
    assert_eq!(c.lookup("Home"), None);
    c.record_created("Home".to_string(), "9".to_string());
    assert_eq!(c.lookup("Home"), Some("9".to_string()));
    assert_eq!(c.lookup("Trip"), Some("3".to_string()));
    let snap = c.snapshot();
    assert_eq!(snap.len(), 2);
    assert!(snap.contains(&("Trip".to_string(), "3".to_string())));
    assert!(snap.contains(&("Home".to_string(), "9".to_string())));
}

#[test]
fn disabled_addresses_are_never_probed() {
    let mut d = ConfigData::default();
    d.internal_url = "http://lan/".to_string();
    d.external_url = "https://wan/".to_string();
    d.internal_url_enabled = false;
    let s = ServerSettings::from_config(&d, "k".to_string());
    assert_eq!(s.internal_url, "");
    assert_eq!(s.external_url, "https://wan");
    assert_eq!(ping_endpoint(&s.internal_url), None);
    assert_eq!(s.select_active_url(false, true), Some("https://wan".to_string()));
}

#[test]
fn probing_order() {
    let s = ServerSettings::new("http://lan".to_string(), "https://wan".to_string(), "k".to_string());
    assert!(matches!(s.probe_step(None, None), ProbeStep::Ping(u) if u == "http://lan"));
    assert!(matches!(s.probe_step(Some(true), None), ProbeStep::Settled(Some(u)) if u == "http://lan"));
    assert!(matches!(s.probe_step(Some(false), None), ProbeStep::Ping(u) if u == "https://wan"));
    assert!(matches!(s.probe_step(Some(false), Some(true)), ProbeStep::Settled(Some(u)) if u == "https://wan"));
    assert!(matches!(s.probe_step(Some(false), Some(false)), ProbeStep::Settled(None)));
}

#[test]
fn one_creator_per_album() {
    let mut c = AlbumCache::new();
    c.absorb_listing(vec![(Some("Trip".to_string()), Some("1".to_string()))]);
    assert!(matches!(c.claim("Trip"), AlbumClaim::Known(id) if id == "1"));
    assert!(matches!(c.claim("New"), AlbumClaim::Create));
    assert!(matches!(c.claim("New"), AlbumClaim::Wait));
    c.record_created("New".to_string(), "7".to_string());
    assert!(matches!(c.claim("New"), AlbumClaim::Known(id) if id == "7"));
    assert!(matches!(c.claim("Other"), AlbumClaim::Create));
    c.abandon("Other");
    assert!(matches!(c.claim("Other"), AlbumClaim::Create));
}
