use addon_catalog::catalog::{AddonStorage, WorkshopItem};
use addon_catalog::flags::WORKSHOP;
use addon_catalog::workshop::{pending_workshop_ids, workshop_batches};
use addon_catalog::ids::{workshop_id_from_matches, find_workshop_id, get_workshop_folder_ws_ids, parse_i64};
use addon_catalog::catalog::AddonInfo;
use addon_catalog::flags::AddonContent;

fn item(id: i64, title: &str) -> WorkshopItem {
    WorkshopItem {
        publishedfileid: id,
        title: title.to_string(),
        time_created: 100,
        time_updated: 200,
        file_size: 300,
        description: "d".to_string(),
        file_url: None,
        creator: "c".to_string(),
        tags: vec!["Maps".to_string(), "Campaigns".to_string()],
    }
}

#[test]
fn batches_of_250_ids_are_100_100_50() {
    let ids: Vec<i64> = (1..=250).collect();
    let batches = workshop_batches(&ids);
    let sizes: Vec<usize> = batches.iter().map(|b| b.len()).collect();
    assert_eq!(sizes, vec![100, 100, 50]);
    let joined: Vec<i64> = batches.concat();
    assert_eq!(joined, ids);
}

#[test]
fn batches_of_nothing_and_exact_hundred() {
    assert!(workshop_batches(&vec![]).is_empty());
    let ids: Vec<i64> = (0..100).collect();
    assert_eq!(workshop_batches(&ids).len(), 1);
}

#[test]
fn pending_ids_skip_known_and_duplicates() {
    let discovered = vec![5, 6, 5, 7];
    let folder = vec![7, 8, 9];
    let known = vec![6, 9];
    assert_eq!(pending_workshop_ids(&discovered, &folder, &known), vec![5, 7, 8]);
}

#[test]
fn resolver_never_refetches_known_ids() {
    let discovered: Vec<i64> = (1..=260).collect();
    let known: Vec<i64> = (1..=10).collect();
    let pending = pending_workshop_ids(&discovered, &vec![], &known);
    assert_eq!(pending.len(), 250);
    let batches = workshop_batches(&pending);
    assert_eq!(batches.iter().map(|b| b.len()).collect::<Vec<_>>(), vec![100, 100, 50]);
    assert!(batches.iter().flatten().all(|id| !known.contains(id)));
}

#[test]
fn presence_is_resynced_not_added() {
    let mut store = AddonStorage::new();
    store.add_workshop_items(vec![item(5, "five"), item(9, "nine")]);
    store.mark_workshop_ids(&vec![5, 9]);
    assert!(store.workshop.iter().all(|w| w.flags.0 & WORKSHOP == WORKSHOP));
    store.mark_workshop_ids(&vec![9]);
    let five = store.workshop.iter().find(|w| w.publishedfileid == 5).unwrap();
    let nine = store.workshop.iter().find(|w| w.publishedfileid == 9).unwrap();
    assert_eq!(five.flags.0 & WORKSHOP, 0);
    assert_eq!(nine.flags.0 & WORKSHOP, WORKSHOP);
    assert_eq!(store.counts(), (0, 1));
}

#[test]
fn workshop_items_are_replaced_by_id() {
    let mut store = AddonStorage::new();
    store.add_workshop_items(vec![item(5, "old"), item(6, "six")]);
    store.add_workshop_items(vec![item(5, "new")]);
    assert_eq!(store.workshop.len(), 2);
    assert_eq!(store.workshop[0].title, "new");
    assert_eq!(store.workshop[0].tags, "Maps,Campaigns");
    assert_eq!(store.workshop[0].time_updated, Some(200));
    assert_eq!(store.list_workshop_ids(), vec![5, 6]);
}

fn plain_info(url: Option<&str>) -> AddonInfo {
    AddonInfo {
        title: None,
        version: None,
        author: None,
        description: None,
        tagline: None,
        addon_url: url.map(|u| u.to_string()),
        content: AddonContent {
            is_campaign: false,
            is_map: false,
            is_skin: false,
            is_weapon: false,
            is_boss_infected: false,
            is_common_infected: false,
            is_survivor: false,
            is_sound: false,
            is_music: false,
            is_script: false,
            is_prop: false,
        },
    }
}

#[test]
fn workshop_id_from_filename_first() {
    let url = "https://steamcommunity.com/sharedfiles/filedetails/?id=2222";
    assert_eq!(find_workshop_id("my_1234567.vpk", &plain_info(Some(url))), Some(1234567));
    assert_eq!(find_workshop_id("mymap.vpk", &plain_info(Some(url))), Some(2222));
    assert_eq!(find_workshop_id("map123.vpk", &plain_info(None)), None);
    assert_eq!(find_workshop_id("mymap.vpk", &plain_info(Some("https://example.com/?id=55555"))), None);
}

#[test]
fn workshop_folder_stems_keep_numbers_only() {
    let stems = vec!["123".to_string(), "abc".to_string(), "-4".to_string(), "".to_string(), "99999999999999999999".to_string()];
    assert_eq!(get_workshop_folder_ws_ids(&stems), vec![123, -4]);
}

#[test]
fn integer_parsing_edges() {
    assert_eq!(parse_i64("9223372036854775807"), Some(i64::MAX));
    assert_eq!(parse_i64("9223372036854775808"), None);
    assert_eq!(parse_i64("-9223372036854775808"), Some(i64::MIN));
    assert_eq!(parse_i64("+42"), Some(42));
    assert_eq!(parse_i64("+"), None);
    assert_eq!(parse_i64("4a"), None);
    assert_eq!(parse_i64("007"), Some(7));
}

#[test]
fn id_from_matches_prefers_the_file_name() {
    let some = |t: &str| Some(t.to_string());
    assert_eq!(workshop_id_from_matches(&some("1234"), &some("99")), Some(1234));
    assert_eq!(workshop_id_from_matches(&None, &some("99")), Some(99));
    assert_eq!(workshop_id_from_matches(&some("99999999999999999999"), &some("5")), Some(5));
    assert_eq!(workshop_id_from_matches(&None, &None), None);
}
