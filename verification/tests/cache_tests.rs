use std::cell::Cell;

use pumpkin_assets::asset_path::{chest_loot_table_file, set_cache_root, try_set_cache_root, get_cache_root, CacheRoot};
use pumpkin_assets::cache::{LoadError, TemplateCache};
use pumpkin_assets::path::AssetPath;

fn loader(calls: &Cell<u32>) -> impl Fn(&str) -> Option<Result<String, String>> + '_ {
    move |id: &str| {
        calls.set(calls.get() + 1);
        match id {
            "missing" => None,
            "broken" => Some(Err(format!("bad {id}"))),
            _ => Some(Ok(format!("template {id}"))),
        }
    }
}

#[test]
fn hit_is_returned_without_loading() {
    let calls = Cell::new(0);
    let load = loader(&calls);
    let mut cache: TemplateCache<String> = TemplateCache::new();
    assert!(cache.is_empty());
    let a = cache.get("minecraft:village/a", &load).unwrap();
    assert_eq!(*a, "template village/a");
    assert_eq!(calls.get(), 1);
    let b = cache.get("village/a", &load).unwrap();
    assert_eq!(*b, "template village/a");
    assert_eq!(calls.get(), 1);
    assert_eq!(cache.len(), 1);
}

#[test]
fn failures_are_not_cached() {
    let calls = Cell::new(0);
    let load = loader(&calls);
    let mut cache: TemplateCache<String> = TemplateCache::new();
    assert!(matches!(cache.get_or_error("minecraft:missing", &load), Err(LoadError::NotFound)));
    match cache.get_or_error("broken", &load) {
        Err(LoadError::Invalid(e)) => assert_eq!(e, "bad broken"),
        _ => panic!("expected a parse error"),
    }
    assert!(cache.get("broken", &load).is_none());
    assert_eq!(calls.get(), 3);
    assert!(cache.is_empty());
}

#[test]
fn preload_caches_what_loads_and_clear_forgets() {
    let calls = Cell::new(0);
    let load = loader(&calls);
    let mut cache: TemplateCache<String> = TemplateCache::new();
    cache.preload(&["minecraft:a", "missing", "b", "broken", "a"], &load);
    assert_eq!(cache.len(), 2);
    assert_eq!(calls.get(), 4);
    cache.clear();
    assert_eq!(cache.len(), 0);
}

#[test]
fn chest_key_names_its_loot_table_file() {
    let mut root = CacheRoot::new();
    assert!(chest_loot_table_file(&root, "chests/abandoned_mineshaft").is_none());
    set_cache_root(&mut root, AssetPath::from_text("/srv/cache"));
    assert_eq!(
        chest_loot_table_file(&root, "chests/abandoned_mineshaft").map(|p| p.as_text().to_string()).as_deref(),
        Some("/srv/cache/data/minecraft/loot_tables/chests/abandoned_mineshaft.json")
    );
}

#[test]
fn cache_root_is_set_once() {
    let mut root = CacheRoot::new();
    assert!(try_set_cache_root(&mut root, AssetPath::from_text("/a")));
    assert!(!try_set_cache_root(&mut root, AssetPath::from_text("/b")));
    assert_eq!(get_cache_root(&root).map(|p| p.as_text()), Some("/a"));
}

#[test]
fn cached_asset_stays_through_later_calls_until_clear() {
    let calls = Cell::new(0);
    let load = loader(&calls);
    let mut cache: TemplateCache<String> = TemplateCache::new();
    let first = cache.get("village/a", &load).unwrap();
    let _ = cache.get("village/b", &load);
    let _ = cache.get_or_error("missing", &load);
    cache.preload(&["broken", "village/c", "minecraft:village/a"], &load);
    assert_eq!(calls.get(), 5);
    let again = cache.get("minecraft:village/a", &load).unwrap();
    assert!(std::sync::Arc::ptr_eq(&first, &again));
    assert_eq!(calls.get(), 5);
    cache.clear();
    let reloaded = cache.get("village/a", &load).unwrap();
    assert!(!std::sync::Arc::ptr_eq(&first, &reloaded));
    assert_eq!(calls.get(), 6);
}
