use gpui::assets::{
    iter_ondemand, iter_preloaded, loaded_data, preloaded_entry, AssetData, AssetEntry, AssetLoader,
    AssetRegistry, AssetSource, ImageId, RenderImageParams, SourceLoader,
};
use std::sync::Arc;

fn example_assets() -> Vec<(&'static str, AssetData)> {
    vec![
        ("asset0", vec![0u8]),
        ("asset1", vec![1u8]),
        ("asset2", vec![2u8]),
        ("asset3", vec![3u8]),
    ]
}

fn test_load_from<L: AssetLoader>(registry: &AssetRegistry<L>) {
    for (key, value) in example_assets() {
        let loaded = registry.load(key).map(|cow| cow.to_vec());
        assert_eq!(loaded, Some(value));
    }
}

struct StubAssetSource;

impl AssetSource for StubAssetSource {
    fn load(&self, path: &str) -> Result<Option<AssetData>, String> {
        for (key, data) in example_assets() {
            if key == path {
                return Ok(Some(data));
            }
        }
        panic!("not implemented for {path}")
    }

    fn list(&self, _path: &str) -> Result<Vec<String>, String> {
        Ok(example_assets()
            .into_iter()
            .map(|(key, _)| key.to_string())
            .collect())
    }
}

/// Loads fixed bytes on demand.
struct Fixed(Vec<u8>);

impl AssetLoader for Fixed {
    fn load(&self) -> Option<AssetData> {
        Some(self.0.clone())
    }
}

/// A source whose listing fails.
struct Broken;

impl AssetSource for Broken {
    fn load(&self, _path: &str) -> Result<Option<AssetData>, String> {
        Err("unreadable".to_string())
    }

    fn list(&self, _path: &str) -> Result<Vec<String>, String> {
        Err("unlistable".to_string())
    }
}

/// A source that lists two paths and has only one of them.
struct HalfThere;

impl AssetSource for HalfThere {
    fn load(&self, path: &str) -> Result<Option<AssetData>, String> {
        if path == "here" {
            Ok(Some(vec![7u8]))
        } else if path == "broken" {
            Err("unreadable".to_string())
        } else {
            Ok(None)
        }
    }

    fn list(&self, _path: &str) -> Result<Vec<String>, String> {
        Ok(vec!["here".to_string(), "gone".to_string(), "broken".to_string()])
    }
}

fn preloaded(data: AssetData) -> AssetEntry<Fixed> {
    AssetEntry::from(data)
}

#[test]
fn test_from_assetsource() {
    let assets = AssetRegistry::from_source(StubAssetSource);
    test_load_from(&assets);
}

#[test]
fn test_from_arc_assetsource() {
    let arc = Arc::new(StubAssetSource);
    let assets = AssetRegistry::from_shared(arc);
    test_load_from(&assets);
}

#[test]
fn test_fromiter_assetdata() {
    let assets = AssetRegistry::from_iter(
        example_assets()
            .into_iter()
            .map(|(key, value)| (key.to_string(), preloaded(value)))
            .collect(),
    );
    test_load_from(&assets);
}

#[test]
fn test_fromiter_assetentry() {
    let mut entries: Vec<(String, AssetEntry<Fixed>)> = example_assets()
        .into_iter()
        .map(|(key, value)| (key.to_string(), AssetEntry::from(value)))
        .collect();
    entries.push(("asset6".to_string(), AssetEntry::OnDemand(Fixed(vec![6u8]))));
    let assets = AssetRegistry::from_iter(entries);
    test_load_from(&assets);
    assert_eq!(assets.load("asset6").map(|cow| cow.to_vec()), Some(vec![6u8]));
}

#[test]
fn test_insert() {
    let mut assets: AssetRegistry<Fixed> = AssetRegistry::new();
    for (key, value) in example_assets() {
        let result = assets.insert(key.to_string(), AssetEntry::from(value));
        assert!(result.is_ok());
    }
    test_load_from(&assets);
}

#[test]
fn test_extend() {
    let mut assets: AssetRegistry<Fixed> = AssetRegistry::new();
    let result = assets.extend(
        example_assets()
            .into_iter()
            .map(|(key, value)| (key.to_string(), AssetEntry::PreLoaded(value)))
            .collect(),
    );
    assert!(result.is_ok());
    test_load_from(&assets);
}

#[test]
fn test_extend_assetsource_preloaded() {
    let mut assets: AssetRegistry<Fixed> = AssetRegistry::new();
    let result = assets.extend(iter_preloaded(&StubAssetSource));
    assert!(result.is_ok());
    test_load_from(&assets);
}

#[test]
fn test_extend_assetsource_ondemand() {
    let mut assets: AssetRegistry<SourceLoader<StubAssetSource>> = AssetRegistry::new();
    let result = assets.extend(iter_ondemand(Arc::new(StubAssetSource)));
    assert!(result.is_ok());
    test_load_from(&assets);
}

#[test]
fn duplicate_insert_is_refused_and_keeps_the_first_entry() {
    let mut assets: AssetRegistry<Fixed> = AssetRegistry::new();
    assert!(assets.insert("a".to_string(), preloaded(vec![1])).is_ok());
    let err = assets.insert("a".to_string(), preloaded(vec![2])).unwrap_err();
    assert_eq!(err.0, "a");
    assert_eq!(assets.load("a").map(|cow| cow.to_vec()), Some(vec![1]));
}

#[test]
fn extend_reports_each_duplicate_in_order() {
    let mut assets: AssetRegistry<Fixed> = AssetRegistry::new();
    assert!(assets.insert("b".to_string(), preloaded(vec![9])).is_ok());
    let result = assets.extend(vec![
        ("a".to_string(), preloaded(vec![1])),
        ("b".to_string(), preloaded(vec![2])),
        ("a".to_string(), preloaded(vec![3])),
        ("c".to_string(), preloaded(vec![4])),
    ]);
    let duplicates: Vec<String> = result.unwrap_err().into_iter().map(|d| d.0).collect();
    assert_eq!(duplicates, vec!["b".to_string(), "a".to_string()]);
    assert_eq!(assets.load("a").map(|cow| cow.to_vec()), Some(vec![1]));
    assert_eq!(assets.load("b").map(|cow| cow.to_vec()), Some(vec![9]));
    assert_eq!(assets.load("c").map(|cow| cow.to_vec()), Some(vec![4]));
}

#[test]
fn missing_paths_load_nothing() {
    let assets: AssetRegistry<Fixed> = AssetRegistry::new();
    assert_eq!(assets.load("nowhere").map(|cow| cow.to_vec()), None);
    let assets = AssetRegistry::from_source(());
    assert_eq!(assets.load("asset0").map(|cow| cow.to_vec()), None);
}

#[test]
fn a_source_that_cannot_list_gives_no_entries() {
    let entries: Vec<(String, AssetEntry<Fixed>)> = iter_preloaded(&Broken);
    assert!(entries.is_empty());
    assert!(iter_ondemand(Arc::new(Broken)).is_empty());
}

#[test]
fn preloading_keeps_only_the_assets_that_loaded() {
    let entries: Vec<(String, AssetEntry<Fixed>)> = iter_preloaded(&HalfThere);
    assert_eq!(entries.len(), 1);
    assert_eq!(entries[0].0, "here");
    assert!(matches!(&entries[0].1, AssetEntry::PreLoaded(data) if data == &vec![7u8]));
    let kept: Option<(String, AssetEntry<Fixed>)> = preloaded_entry("x".to_string(), Ok(None));
    assert!(kept.is_none());
    let kept: Option<(String, AssetEntry<Fixed>)> =
        preloaded_entry("x".to_string(), Err("bad".to_string()));
    assert!(kept.is_none());
}

#[test]
fn on_demand_entries_load_their_own_path() {
    let entries = iter_ondemand(Arc::new(HalfThere));
    let paths: Vec<String> = entries.iter().map(|(path, _)| path.clone()).collect();
    assert_eq!(paths, vec!["here", "gone", "broken"]);
    for (path, entry) in &entries {
        match entry {
            AssetEntry::OnDemand(loader) => assert_eq!(&loader.path, path),
            AssetEntry::PreLoaded(_) => panic!("expected an on-demand entry"),
        }
    }
    let assets = AssetRegistry::from_shared(Arc::new(HalfThere));
    assert_eq!(assets.load("here").map(|cow| cow.to_vec()), Some(vec![7u8]));
    assert_eq!(assets.load("gone").map(|cow| cow.to_vec()), None);
    assert_eq!(assets.load("broken").map(|cow| cow.to_vec()), None);
}

#[test]
fn image_ids_compare_by_value() {
    let params = RenderImageParams {
        image_id: ImageId(3),
        frame_index: 1,
    };
    assert_eq!(params.clone(), params);
    assert!(ImageId(2) < ImageId(3));
}

#[test]
fn on_demand_loading_maps_the_source_result() {
    assert_eq!(loaded_data(Ok(Some(vec![1u8]))), Some(vec![1u8]));
    assert_eq!(loaded_data(Ok(None)), None);
    assert_eq!(loaded_data(Err("bad".to_string())), None);
    assert_eq!(().load("anything"), Ok(None));
    assert_eq!(().list(""), Ok(Vec::new()));
}

#[test]
fn preloaded_bytes_are_lent_without_copying() {
    let mut assets: AssetRegistry<Fixed> = AssetRegistry::new();
    assert!(assets.insert("a".to_string(), preloaded(vec![4, 5])).is_ok());
    assets
        .insert("b".to_string(), AssetEntry::OnDemand(Fixed(vec![6])))
        .unwrap();
    assert!(matches!(assets.load("a"), Some(std::borrow::Cow::Borrowed(&[4, 5]))));
    assert!(matches!(assets.load("b"), Some(std::borrow::Cow::Owned(ref v)) if v == &vec![6u8]));
}
