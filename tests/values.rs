use addon_catalog::config::{AppConfig, ConfigError, FolderCheck, InitData, StaticData, default_as_true};
use addon_catalog::events::{deleted_filenames, ItemResult, Notification, NotificationType, ProgressPayload, SelectedSort};
use addon_catalog::flags::{AddonContent, AddonFlags, SOUND, CAMPAIGN, WORKSHOP};
use addon_catalog::hash::{FileHash, HashParseError};

#[test]
fn hash_hex_round_trip() {
    let h = FileHash(vec![0x00, 0xab, 0x10, 0xff]);
    assert_eq!(h.to_hex(), "00ab10ff");
    let back = FileHash::from_str("00AB10ff").unwrap();
    assert_eq!(back.0, vec![0x00, 0xab, 0x10, 0xff]);
    assert_eq!(FileHash::from_str("abc").unwrap_err(), HashParseError::InvalidHex);
    assert_eq!(FileHash::from_str("zz").unwrap_err(), HashParseError::InvalidHex);
    assert_eq!(FileHash::from_str("").unwrap().0, Vec::<u8>::new());
}

#[test]
fn flags_from_content() {
    let c = AddonContent {
        is_campaign: true,
        is_map: true,
        is_skin: true,
        is_weapon: false,
        is_boss_infected: false,
        is_common_infected: false,
        is_survivor: false,
        is_sound: false,
        is_music: true,
        is_script: false,
        is_prop: false,
    };
    let f = AddonFlags::from_content(&c);
    assert_eq!(f.bits(), CAMPAIGN | SOUND);
    assert!(f.contains(SOUND));
    assert!(!f.contains(WORKSHOP));
    assert_eq!(f.union(WORKSHOP).difference(CAMPAIGN).bits(), WORKSHOP | SOUND);
    assert_eq!(AddonFlags::from(5u32).0, 5);
}

fn config(key: Option<&str>, folder: Option<&str>) -> AppConfig {
    let mut c = AppConfig::new("cfg.json".to_string());
    c.steam_apikey = key.map(|k| k.to_string());
    c.addons_folder = folder.map(|f| f.to_string());
    c.startup_scan = true;
    c
}

#[test]
fn config_replace_validates() {
    let mut c = AppConfig::new("cfg.json".to_string());
    assert_eq!(c.replace(config(Some("short"), None), FolderCheck::Directory), Err(ConfigError::ApiKeyLength));
    assert_eq!(c.steam_apikey, None);
    assert_eq!(c.replace(config(None, Some("/x")), FolderCheck::Missing), Err(ConfigError::FolderMissing));
    assert_eq!(c.replace(config(None, Some("/x")), FolderCheck::NotDirectory), Err(ConfigError::FolderNotDirectory));
    let key = "0123456789abcdef0123456789abcdef";
    assert_eq!(c.replace(config(Some(key), Some("/x")), FolderCheck::Directory), Ok(()));
    assert_eq!(c.steam_apikey.as_deref(), Some(key));
    assert_eq!(c.addons_folder.as_deref(), Some("/x"));
    assert!(c.startup_scan);
    assert_eq!(c.save_path, "cfg.json");
    assert_eq!(c.replace(config(Some(""), None), FolderCheck::Missing), Ok(()));
    assert_eq!(ConfigError::ApiKeyLength.message(), "Steam API Key must be 32 characters long");
    assert!(default_as_true());
}

#[test]
fn init_route_depends_on_folder() {
    let data = StaticData { app_version: "1.0".to_string(), git_commit: None, is_prod: true };
    let init = InitData::new(config(None, None), data, None);
    assert_eq!(init.initial_route.name.as_deref(), Some("setup"));
    let data = StaticData { app_version: "1.0".to_string(), git_commit: None, is_prod: true };
    let init = InitData::new(config(None, Some("/games/addons")), data, Some("/s".to_string()));
    assert_eq!(init.initial_route.name.as_deref(), Some("addons-manual"));
}

#[test]
fn sort_clause() {
    assert_eq!(SelectedSort::new("title", true).get_sql(), "title DESC");
    assert_eq!(SelectedSort::new("time_updated", false).get_sql(), "time_updated ASC");
}

#[test]
fn item_results_and_deleted_names() {
    let results = vec![
        ItemResult::ok("a.vpk".to_string()),
        ItemResult::error("b.vpk".to_string(), "locked".to_string()),
        ItemResult::ok("c.vpk".to_string()),
    ];
    assert_eq!(deleted_filenames(&results), vec!["a.vpk".to_string(), "c.vpk".to_string()]);
}

#[test]
fn small_values() {
    let p = ProgressPayload::new(3, 10);
    assert_eq!((p.value, p.total), (3, 10));
    let n = Notification::new(NotificationType::Warn, "t".to_string(), Some("x".to_string()));
    assert_eq!(n.kind.label(), "warn");
    assert_eq!(NotificationType::Custom("mine".to_string()).label(), "mine");
    assert_eq!(NotificationType::Info.label(), "info");
}
