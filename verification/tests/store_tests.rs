use path_genie::paths::{PathInfo, PathSection, PathStore};
use std::path::PathBuf;

#[test]
fn add_paths_to_store() {
    let mut store = PathStore::new();
    store.add_path("pippo".to_owned());
    store.add_path("pluto".to_owned());

    assert_eq!(2, store.list_sorted_paths().len());
}

#[test]
fn duplicate_add_keeps_one_entry() {
    let mut store = PathStore::new();
    store.add_path("a".to_owned());
    store.add_path("b".to_owned());
    store.add_path("a".to_owned());
    let listed = store.list_sorted_paths();
    assert_eq!(listed, vec!["a", "b"]);
    let hits = listed.iter().filter(|p| **p == "a").count();
    assert_eq!(hits, 1);
}

#[test]
fn adds_preserve_first_added_order() {
    let mut store = PathStore::new();
    store.add_path("zeta".to_owned());
    store.add_path("alpha".to_owned());
    store.add_path("midway".to_owned());
    assert_eq!(store.list_sorted_paths(), vec!["zeta", "alpha", "midway"]);
}

#[test]
fn entries_reload_into_fresh_store_unchanged() {
    let mut store = PathStore::new();
    store.add_path("/one".to_owned());
    store.add_path("/two".to_owned());
    let snapshot: Vec<PathInfo> = store.entries().clone();

    let mut fresh = PathStore::new();
    fresh.apply_loaded(snapshot);

    let before = store.entries();
    let after = fresh.entries();
    assert_eq!(before.len(), after.len());
    let mut i: usize = 0;
    while i < before.len() {
        assert_eq!(before[i].path, after[i].path);
        assert_eq!(before[i].section, after[i].section);
        i += 1;
    }
}

#[test]
fn persisted_document_round_trip() {
    let mut store = PathStore::new();
    store.add_path("/home/someone".to_owned());
    store.add_path("/tmp".to_owned());

    // Serialize the entries in the persisted document shape: one top-level
    // mapping holding the key "paths", each item a mapping of path and section.
    let mut items = Vec::new();
    for entry in store.entries() {
        let mut item = serde_yaml::Mapping::new();
        item.insert(
            serde_yaml::Value::String("path".to_owned()),
            serde_yaml::Value::String(entry.path.clone()),
        );
        let tag = match entry.section {
            PathSection::Visited => "Visited",
            PathSection::Top => "Top",
        };
        item.insert(
            serde_yaml::Value::String("section".to_owned()),
            serde_yaml::Value::String(tag.to_owned()),
        );
        items.push(serde_yaml::Value::Mapping(item));
    }
    let mut top = serde_yaml::Mapping::new();
    top.insert(
        serde_yaml::Value::String("paths".to_owned()),
        serde_yaml::Value::Sequence(items),
    );
    let text = serde_yaml::to_string(&serde_yaml::Value::Mapping(top)).unwrap();

    let parsed: serde_yaml::Value = serde_yaml::from_str(&text).unwrap();
    let mut loaded = Vec::new();
    for item in parsed.get("paths").unwrap().as_sequence().unwrap() {
        let path = item.get("path").unwrap().as_str().unwrap().to_owned();
        let section = match item.get("section").unwrap().as_str().unwrap() {
            "Top" => PathSection::Top,
            _ => PathSection::Visited,
        };
        loaded.push(PathInfo { path, section });
    }
    let mut fresh = PathStore::new();
    fresh.apply_loaded(loaded);

    let before = store.entries();
    let after = fresh.entries();
    assert_eq!(before.len(), after.len());
    let mut i: usize = 0;
    while i < before.len() {
        assert_eq!(before[i].path, after[i].path);
        assert_eq!(before[i].section, after[i].section);
        i += 1;
    }
}

#[test]
fn missing_location_is_rejected() {
    let mut store = PathStore::new();
    store.add_path("kept".to_owned());
    let r = store.add_path_buf(PathBuf::from("/no/such/location/for-this-store"));
    assert_eq!(r.unwrap(), false);
    assert_eq!(store.list_sorted_paths(), vec!["kept"]);
}

#[test]
fn existing_location_is_added_canonicalized() {
    let mut store = PathStore::new();
    let r = store.add_path_buf(PathBuf::from("/"));
    assert_eq!(r.unwrap(), true);
    assert_eq!(store.list_sorted_paths(), vec!["/"]);
}

#[test]
fn load_without_config_reports_missing_config() {
    let mut store = PathStore::new();
    store.add_path("kept".to_owned());
    let r = store.config_source();
    match r {
        Ok(_) => panic!("an unbound store must not offer a load source"),
        Err(e) => assert_eq!(e.message().as_str(), "Missing config file"),
    }
    assert_eq!(store.list_sorted_paths(), vec!["kept"]);
}

#[test]
fn save_without_config_is_a_no_op() {
    let store = PathStore::new();
    assert!(store.save_source().is_none());
}

#[test]
fn bound_config_is_the_load_and_save_source() {
    let mut store = PathStore::new();
    store.config_file = Some("config.yaml".to_owned());
    assert_eq!(store.config_source().unwrap().as_str(), "config.yaml");
    assert_eq!(store.save_source().unwrap().as_str(), "config.yaml");
}
