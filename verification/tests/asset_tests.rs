use pumpkin_assets::asset_path::{
    chest_loot_dir, data_dir, get_cache_root, lang_dir, list_pool_templates, pool_dir,
    processor_list_dir, processor_list_file, set_cache_root, structure_file, structures_dir,
    template_pool_dir, template_pool_file, CacheRoot,
};
use pumpkin_assets::path::AssetPath;
use pumpkin_assets::templates::{get_pool_elements, strip_namespace};

fn text(p: Option<AssetPath>) -> Option<String> {
    p.map(|p| p.as_text().to_string())
}

fn strings(v: &[&str]) -> Vec<String> {
    v.iter().map(|s| s.to_string()).collect()
}

#[test]
fn join_puts_one_separator() {
    assert_eq!(AssetPath::from_text("a").join("b").as_text(), "a/b");
    assert_eq!(AssetPath::from_text("a/").join("b").as_text(), "a/b");
    assert_eq!(AssetPath::from_text("").join("b").as_text(), "b");
    assert_eq!(AssetPath::from_text("/").join("b").as_text(), "/b");
}

#[test]
fn join_of_absolute_component_replaces() {
    assert_eq!(AssetPath::from_text("a/b").join("/c").as_text(), "/c");
}

#[test]
fn nothing_is_derived_before_the_root_is_set() {
    let c = CacheRoot::new();
    assert!(get_cache_root(&c).is_none());
    assert!(lang_dir(&c).is_none());
    assert!(data_dir(&c).is_none());
    assert!(chest_loot_dir(&c).is_none());
    assert!(structures_dir(&c).is_none());
    assert!(template_pool_dir(&c).is_none());
    assert!(processor_list_dir(&c).is_none());
    assert!(structure_file(&c, "x").is_none());
}

#[test]
fn directories_lie_under_the_root() {
    let mut c = CacheRoot::new();
    set_cache_root(&mut c, AssetPath::from_text("/srv/cache"));
    assert_eq!(get_cache_root(&c).map(|p| p.as_text()), Some("/srv/cache"));
    assert_eq!(text(lang_dir(&c)).as_deref(), Some("/srv/cache/assets/minecraft/lang"));
    assert_eq!(text(data_dir(&c)).as_deref(), Some("/srv/cache/data/minecraft"));
    assert_eq!(
        text(chest_loot_dir(&c)).as_deref(),
        Some("/srv/cache/data/minecraft/loot_tables/chests")
    );
    assert_eq!(text(structures_dir(&c)).as_deref(), Some("/srv/cache/data/minecraft/structures"));
    assert_eq!(
        text(template_pool_dir(&c)).as_deref(),
        Some("/srv/cache/data/minecraft/worldgen/template_pool")
    );
    assert_eq!(
        text(processor_list_dir(&c)).as_deref(),
        Some("/srv/cache/data/minecraft/worldgen/processor_list")
    );
}

#[test]
fn files_get_their_extension() {
    let mut c = CacheRoot::new();
    set_cache_root(&mut c, AssetPath::from_text("cache/"));
    assert_eq!(
        text(structure_file(&c, "village/plains/houses/a")).as_deref(),
        Some("cache/data/minecraft/structures/village/plains/houses/a.nbt")
    );
    assert_eq!(
        text(template_pool_file(&c, "village/plains/town_centers")).as_deref(),
        Some("cache/data/minecraft/worldgen/template_pool/village/plains/town_centers.json")
    );
    assert_eq!(
        text(processor_list_file(&c, "mossify")).as_deref(),
        Some("cache/data/minecraft/worldgen/processor_list/mossify.json")
    );
    assert_eq!(
        text(pool_dir(&c, "village/plains")).as_deref(),
        Some("cache/data/minecraft/structures/village/plains")
    );
}

#[test]
fn pool_listing_keeps_nbt_files() {
    let names = strings(&["a.nbt", "b.json", ".nbt", "c.d.nbt", "noext", "e.NBT", "f.nbt.bak"]);
    assert_eq!(
        list_pool_templates("village/plains", &names),
        strings(&["village/plains/a", "village/plains/c.d"])
    );
}

#[test]
fn pool_elements_strip_the_namespace() {
    let names = strings(&["x.nbt", "y.txt"]);
    assert_eq!(
        get_pool_elements("minecraft:village/plains", &names),
        Some(strings(&["village/plains/x"]))
    );
    assert_eq!(get_pool_elements("minecraft:village", &strings(&["y.txt"])), None);
    assert_eq!(get_pool_elements("minecraft:village", &Vec::new()), None);
}

#[test]
fn namespace_is_stripped_only_when_present() {
    assert_eq!(strip_namespace("minecraft:chests/abandoned_mineshaft"), "chests/abandoned_mineshaft");
    assert_eq!(strip_namespace("other:thing"), "other:thing");
    assert_eq!(strip_namespace("minecraft:"), "");
    assert_eq!(strip_namespace("minecraft"), "minecraft");
}
