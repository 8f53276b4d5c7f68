use policy_images::assets::filter_self_reference;
use policy_images::directory::{check_status, collection_ids, resolve, Collection, CollectionDirectory};
use policy_images::errors::{FetchError, PolicyError};
use policy_images::metadata::{extract_sources, lookup_value, parse_file, MetaEntry, MetaValue};
use policy_images::pipeline::{collect_image_sources, plan_run, RunPlan};
use policy_images::sources::{accumulate, normalize_source, ImageSourceSet};

fn s(x: &str) -> String {
    String::from(x)
}

fn entry(id: &str) -> Collection {
    Collection {
        collection_id: s(id),
        description: s("a collection"),
        blockchain: s("cardano"),
        network: s("mainnet"),
    }
}

fn dir_of(ids: &[&str]) -> CollectionDirectory {
    CollectionDirectory {
        collection_type: s("collections"),
        entries: ids.iter().map(|id| entry(id)).collect(),
    }
}

fn text_entry(key: &str, value: &str) -> MetaEntry {
    MetaEntry { key: s(key), value: MetaValue::Text(s(value)) }
}

fn file_record(media_type: &str, name: &str, src: &str) -> MetaValue {
    MetaValue::Record(vec![
        text_entry("mediaType", media_type),
        text_entry("name", name),
        text_entry("src", src),
    ])
}

fn files_meta(srcs: &[&str]) -> Option<Vec<MetaEntry>> {
    let files: Vec<MetaValue> =
        srcs.iter().map(|src| file_record("image/png", "img", src)).collect();
    Some(vec![MetaEntry { key: s("files"), value: MetaValue::List(files) }])
}

fn set_values(set: &ImageSourceSet) -> Vec<String> {
    set.as_vec().clone()
}

#[test]
fn directory_duplicates_collapse() {
    let dir = dir_of(&["policy1", "policy2", "policy1", "policy3", "policy2"]);
    let ids = collection_ids(&dir);
    assert_eq!(ids.len(), 3);
    assert!(ids.contains(&s("policy1")));
    assert!(ids.contains(&s("policy2")));
    assert!(ids.contains(&s("policy3")));
}

#[test]
fn directory_membership_present_and_absent() {
    let dir = dir_of(&["policy1", "policy2", "policy1"]);
    assert!(resolve(&s("policy1"), &dir).is_ok());
    assert!(resolve(&s("policy2"), &dir).is_ok());
    assert!(resolve(&s("policy3"), &dir).is_err());
}

#[test]
fn resolve_absent_reports_not_found() {
    let dir = dir_of(&["policy1"]);
    match resolve(&s("missing"), &dir) {
        Err(PolicyError::NotFound(id)) => assert_eq!(id, s("missing")),
        other => panic!("expected NotFound, got {:?}", other),
    }
}

#[test]
fn plan_skips_enumeration_for_unknown_policy() {
    let dir = dir_of(&["policy1"]);
    match plan_run(&Some(s("policy2")), &dir) {
        Err(PolicyError::NotFound(id)) => assert_eq!(id, s("policy2")),
        other => panic!("expected NotFound, got {:?}", other),
    }
}

#[test]
fn plan_lists_directory_without_policy() {
    let dir = dir_of(&["policy1"]);
    assert!(matches!(plan_run(&None, &dir), Ok(RunPlan::ListDirectory)));
}

#[test]
fn plan_enumerates_known_policy() {
    let dir = dir_of(&["policy1", "policy2"]);
    match plan_run(&Some(s("policy2")), &dir) {
        Ok(RunPlan::EnumerateAssets(p)) => assert_eq!(p, s("policy2")),
        other => panic!("expected EnumerateAssets, got {:?}", other),
    }
}

#[test]
fn enumeration_excludes_policy_itself() {
    let assets = vec![s("policy1"), s("asset1"), s("asset2")];
    let filtered = filter_self_reference(&assets, &s("policy1"));
    assert_eq!(filtered, vec![s("asset1"), s("asset2")]);
}

#[test]
fn enumeration_without_self_reference_is_kept() {
    let assets = vec![s("asset1"), s("asset2")];
    let filtered = filter_self_reference(&assets, &s("policy1"));
    assert_eq!(filtered, vec![s("asset1"), s("asset2")]);
}

#[test]
fn enumeration_excludes_every_echo() {
    let assets = vec![s("policy1"), s("asset1"), s("policy1")];
    let filtered = filter_self_reference(&assets, &s("policy1"));
    assert_eq!(filtered, vec![s("asset1")]);
}

#[test]
fn normalize_strips_prefix_once() {
    assert_eq!(normalize_source(&s("ipfs://abc")), s("abc"));
    assert_eq!(normalize_source(&s("ipfs://")), s(""));
    assert_eq!(normalize_source(&s("ipfs://ipfs://a")), s("ipfs://a"));
}

#[test]
fn normalize_keeps_other_sources_verbatim() {
    assert_eq!(normalize_source(&s("abc")), s("abc"));
    assert_eq!(normalize_source(&s("ipfs:/x")), s("ipfs:/x"));
    assert_eq!(normalize_source(&s("")), s(""));
    assert_eq!(normalize_source(&s("IPFS://a")), s("IPFS://a"));
}

#[test]
fn normalize_twice_is_normalize_once() {
    let once = normalize_source(&s("ipfs://abc"));
    let twice = normalize_source(&once);
    assert_eq!(twice, once);
    let plain_once = normalize_source(&s("xyz"));
    let plain_twice = normalize_source(&plain_once);
    assert_eq!(plain_twice, plain_once);
}

#[test]
fn quota_boundary_duplicates_do_not_consume() {
    let sources = vec![s("ipfs://a"), s("ipfs://a"), s("ipfs://b"), s("ipfs://c")];
    let mut set = ImageSourceSet::new();
    let stop = accumulate(&sources, 2, &mut set);
    assert!(stop);
    assert_eq!(set.len(), 2);
    assert!(set.contains(&s("a")));
    assert!(set.contains(&s("b")));
    assert!(!set.contains(&s("c")));
    assert!(!set.contains(&s("ipfs://a")));
}

#[test]
fn quota_stops_inside_one_asset() {
    let sources = vec![s("a"), s("b")];
    let mut set = ImageSourceSet::new();
    let stop = accumulate(&sources, 1, &mut set);
    assert!(stop);
    assert_eq!(set.len(), 1);
    assert!(set.contains(&s("a")));
    assert!(!set.contains(&s("b")));
}

#[test]
fn accumulate_below_quota_signals_continue() {
    let sources = vec![s("ipfs://a"), s("b")];
    let mut set = ImageSourceSet::new();
    let stop = accumulate(&sources, 10, &mut set);
    assert!(!stop);
    assert_eq!(set.len(), 2);
}

#[test]
fn source_set_deduplicates_inserts() {
    let mut set = ImageSourceSet::new();
    set.insert(s("a"));
    set.insert(s("a"));
    set.insert(s("b"));
    assert_eq!(set.len(), 2);
    let mut values = set_values(&set);
    values.sort();
    assert_eq!(values, vec![s("a"), s("b")]);
}

#[test]
fn zero_assets_yield_empty_set() {
    let metas: Vec<Option<Vec<MetaEntry>>> = Vec::new();
    let set = collect_image_sources(&metas, 5).unwrap();
    assert_eq!(set.len(), 0);
    assert!(set_values(&set).is_empty());
}

#[test]
fn missing_files_key_yields_no_sources() {
    let meta = Some(vec![text_entry("name", "asset without files")]);
    let srcs = extract_sources(&meta).unwrap();
    assert!(srcs.is_empty());
}

#[test]
fn absent_metadata_yields_no_sources() {
    let srcs = extract_sources(&None).unwrap();
    assert!(srcs.is_empty());
}

#[test]
fn walk_continues_past_assets_without_files() {
    let metas = vec![
        Some(vec![text_entry("name", "no files here")]),
        None,
        files_meta(&["ipfs://x"]),
    ];
    let set = collect_image_sources(&metas, 10).unwrap();
    assert_eq!(set.len(), 1);
    assert!(set.contains(&s("x")));
}

#[test]
fn extraction_returns_srcs_in_order() {
    let meta = files_meta(&["ipfs://x", "z", "ipfs://y"]);
    let srcs = extract_sources(&meta).unwrap();
    assert_eq!(srcs, vec![s("ipfs://x"), s("z"), s("ipfs://y")]);
}

#[test]
fn files_that_are_not_a_list_fail_parsing() {
    let meta = Some(vec![MetaEntry { key: s("files"), value: MetaValue::Text(s("x")) }]);
    assert_eq!(extract_sources(&meta), Err(FetchError::ParseError));
}

#[test]
fn file_entry_missing_src_fails_parsing() {
    let bad = MetaValue::Record(vec![text_entry("mediaType", "image/png"), text_entry("name", "img")]);
    let meta = Some(vec![MetaEntry { key: s("files"), value: MetaValue::List(vec![bad]) }]);
    assert_eq!(extract_sources(&meta), Err(FetchError::ParseError));
}

#[test]
fn file_entry_with_non_text_src_fails_parsing() {
    let bad = MetaValue::Record(vec![
        text_entry("mediaType", "image/png"),
        text_entry("name", "img"),
        MetaEntry { key: s("src"), value: MetaValue::Other },
    ]);
    let meta = Some(vec![MetaEntry { key: s("files"), value: MetaValue::List(vec![bad]) }]);
    assert_eq!(extract_sources(&meta), Err(FetchError::ParseError));
}

#[test]
fn parse_failure_aborts_the_walk() {
    let metas = vec![
        files_meta(&["ipfs://x"]),
        Some(vec![MetaEntry { key: s("files"), value: MetaValue::Other }]),
    ];
    assert_eq!(collect_image_sources(&metas, 10).err(), Some(FetchError::ParseError));
}

#[test]
fn parse_file_reads_all_three_fields() {
    let value = file_record("image/png", "cover", "ipfs://q");
    let file = parse_file(&value).unwrap();
    assert_eq!(file.media_type, s("image/png"));
    assert_eq!(file.name, s("cover"));
    assert_eq!(file.src, s("ipfs://q"));
}

#[test]
fn lookup_finds_first_match() {
    let entries = vec![text_entry("k", "first"), text_entry("k", "second")];
    match lookup_value(&entries, "k") {
        Some(MetaValue::Text(v)) => assert_eq!(*v, s("first")),
        other => panic!("expected text, got {:?}", other.is_some()),
    }
    assert!(lookup_value(&entries, "absent").is_none());
}

#[test]
fn status_in_2xx_succeeds() {
    assert!(check_status(200).is_ok());
    assert!(check_status(299).is_ok());
}

#[test]
fn status_outside_2xx_is_reported() {
    assert_eq!(check_status(199), Err(FetchError::BadStatus(199)));
    assert_eq!(check_status(300), Err(FetchError::BadStatus(300)));
    assert_eq!(check_status(404), Err(FetchError::BadStatus(404)));
}

#[test]
fn end_to_end_scenario() {
    let dir = dir_of(&["policy1"]);
    assert!(check_status(200).is_ok());
    let plan = plan_run(&Some(s("policy1")), &dir);
    let policy = match plan {
        Ok(RunPlan::EnumerateAssets(p)) => p,
        other => panic!("expected EnumerateAssets, got {:?}", other.is_ok()),
    };
    let enumerated = vec![s("policy1"), s("asset1"), s("asset2")];
    let assets = filter_self_reference(&enumerated, &policy);
    assert_eq!(assets, vec![s("asset1"), s("asset2")]);
    let metas = vec![files_meta(&["ipfs://x", "ipfs://y"]), files_meta(&["z"])];
    let set = collect_image_sources(&metas, 10).unwrap();
    assert_eq!(set.len(), 3);
    assert!(set.contains(&s("x")));
    assert!(set.contains(&s("y")));
    assert!(set.contains(&s("z")));
}
