use mimick::config::{
    album_config_for, api_key_from_lookup, default_true, Config, ConfigData, ConfigSource,
    WatchPathEntry,
};
use std::path::PathBuf;

#[test]
fn test_config_data_defaults() {
    let data = ConfigData::default();
    assert!(data.internal_url_enabled);
    assert!(data.external_url_enabled);
    assert!(!data.album_sync); // default is false for bool
}

#[test]
fn test_watch_path_strings_helper() {
    let mut data = ConfigData::default();
    data.watch_paths.push(WatchPathEntry::Simple("/a".into()));
    data.watch_paths.push(WatchPathEntry::WithConfig {
        path: "/b".into(),
        album_id: None,
        album_name: None,
    });

    let config = Config {
        data,
        config_file: PathBuf::from("dummy.json"),
    };

    let strings = config.watch_path_strings();
    assert_eq!(strings, vec!["/a".to_string(), "/b".to_string()]);
}

#[test]
fn watch_path_entry_accessors() {
    let simple = WatchPathEntry::Simple("/home/nick/Pictures".to_string());
    assert_eq!(simple.path(), "/home/nick/Pictures");
    assert!(simple.album_id().is_none());
    assert!(simple.album_name().is_none());
    let with = WatchPathEntry::WithConfig {
        path: "/home/nick/Pictures".to_string(),
        album_id: Some("abc-123".to_string()),
        album_name: Some("My Album".to_string()),
    };
    assert_eq!(with.path(), "/home/nick/Pictures");
    assert_eq!(with.album_id().unwrap(), "abc-123");
    assert_eq!(with.album_name().unwrap(), "My Album");
}

#[test]
fn default_toggle_is_on() {
    assert!(default_true());
}

#[test]
fn loading_outcomes() {
    let mut c = Config::with_defaults(PathBuf::from("c.json"));
    assert_eq!(c.apply_source(ConfigSource::Unreadable), (false, false));
    assert_eq!(c.apply_source(ConfigSource::Malformed), (false, false));
    assert!(c.data.watch_paths.is_empty());
    assert_eq!(c.apply_source(ConfigSource::Missing), (false, true));
    assert!(c.watch_path_strings().is_empty());
    let mut parsed = ConfigData::default();
    parsed.internal_url = "http://lan".to_string();
    assert_eq!(c.apply_source(ConfigSource::Parsed(parsed)), (true, false));
    assert_eq!(c.data.internal_url, "http://lan");
    assert!(c.data.watch_paths.is_empty());
    assert_eq!(c.config_file, PathBuf::from("c.json"));
}

#[test]
fn api_key_lookup() {
    assert_eq!(api_key_from_lookup(true, "  key123\n"), Some("key123".to_string()));
    assert_eq!(api_key_from_lookup(true, " \n"), None);
    assert_eq!(api_key_from_lookup(false, "key123"), None);
}

#[test]
fn album_config_for_first_matching_folder() {
    let entries = vec![
        WatchPathEntry::Simple("/pics".to_string()),
        WatchPathEntry::WithConfig {
            path: "/pics/trip".to_string(),
            album_id: Some("id1".to_string()),
            album_name: Some("Trip".to_string()),
        },
        WatchPathEntry::WithConfig {
            path: "/pics".to_string(),
            album_id: None,
            album_name: Some("All".to_string()),
        },
    ];
    assert_eq!(
        album_config_for("/pics/trip/a.jpg", &entries),
        (Some("id1".to_string()), Some("Trip".to_string()))
    );
    assert_eq!(album_config_for("/pics/b.jpg", &entries), (None, Some("All".to_string())));
    assert_eq!(album_config_for("/other/c.jpg", &entries), (None, None));
}

#[test]
fn api_key_lookup_trims_unicode_white_space() {
    assert_eq!(api_key_from_lookup(true, "\u{3000}\tkey\u{a0}\u{2028}"), Some("key".to_string()));
    assert_eq!(api_key_from_lookup(true, "a b\n"), Some("a b".to_string()));
}
