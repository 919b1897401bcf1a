use pumpkin_assets::chest_loot::{
    convert_table, one, table_weights_fit, CountValue, RawChestLootTable, RawEntry, RawFunction, RawPool, RollsValue,
};

fn func(name: &str, count: Option<CountValue>) -> RawFunction {
    RawFunction { function: name.to_string(), count }
}

fn entry(kind: &str, name: Option<&str>, weight: i32, functions: Vec<RawFunction>) -> RawEntry {
    RawEntry { entry_type: kind.to_string(), name: name.map(|s| s.to_string()), weight, functions }
}

#[test]
fn default_weight_is_one() {
    assert_eq!(one(), 1);
}

#[test]
fn bounds_default_to_one() {
    assert_eq!(RollsValue::Constant(3).min(), 3);
    assert_eq!(RollsValue::Constant(3).max(), 3);
    assert_eq!(RollsValue::Object { min: None, max: Some(4) }.min(), 1);
    assert_eq!(RollsValue::Object { min: None, max: Some(4) }.max(), 4);
    assert_eq!(CountValue::Object { min: Some(2), max: None }.min(), 2);
    assert_eq!(CountValue::Object { min: Some(2), max: None }.max(), 1);
}

#[test]
fn pools_are_converted() {
    let raw = RawChestLootTable {
        pools: vec![
            RawPool {
                rolls: RollsValue::Object { min: None, max: Some(3) },
                entries: vec![
                    entry("minecraft:empty", None, 3, vec![]),
                    entry(
                        "minecraft:item",
                        Some("minecraft:apple"),
                        5,
                        vec![
                            func("minecraft:enchant_randomly", None),
                            func("minecraft:set_count", Some(CountValue::Object { min: Some(2), max: Some(4) })),
                            func("minecraft:set_count", Some(CountValue::Constant(9))),
                        ],
                    ),
                    entry("minecraft:item", None, 7, vec![]),
                    entry("minecraft:tag", Some("minecraft:logs"), 1, vec![]),
                    entry("minecraft:item", Some("minecraft:bread"), 1, vec![func("minecraft:set_count", None)]),
                    entry("minecraft:empty", Some("ignored"), 2, vec![]),
                ],
            },
            RawPool { rolls: RollsValue::Constant(1), entries: vec![] },
        ],
    };
    let table = convert_table(raw);
    assert_eq!(table.pools.len(), 2);
    let p = &table.pools[0];
    assert_eq!(p.min_rolls, 1);
    assert_eq!(p.max_rolls, 3);
    assert_eq!(p.empty_weight, 5);
    assert_eq!(p.entries.len(), 2);
    assert_eq!(p.entries[0].item, "minecraft:apple");
    assert_eq!(p.entries[0].weight, 5);
    assert_eq!((p.entries[0].min_count, p.entries[0].max_count), (2, 4));
    assert_eq!(p.entries[1].item, "minecraft:bread");
    assert_eq!((p.entries[1].min_count, p.entries[1].max_count), (1, 1));
    let q = &table.pools[1];
    assert_eq!((q.min_rolls, q.max_rolls, q.empty_weight), (1, 1, 0));
    assert!(q.entries.is_empty());
}

#[test]
fn empty_weights_must_fit_i32() {
    let pool = |w: Vec<i32>| RawPool {
        rolls: RollsValue::Constant(1),
        entries: w.into_iter().map(|x| entry("minecraft:empty", None, x, vec![])).collect(),
    };
    assert!(table_weights_fit(&RawChestLootTable { pools: vec![pool(vec![i32::MAX, -5])] }));
    assert!(!table_weights_fit(&RawChestLootTable { pools: vec![pool(vec![i32::MAX, 1, -5])] }));
    assert!(!table_weights_fit(&RawChestLootTable { pools: vec![pool(vec![1]), pool(vec![i32::MIN, -1])] }));
    let items = RawPool {
        rolls: RollsValue::Constant(1),
        entries: vec![entry("minecraft:item", Some("a"), i32::MAX, vec![]), entry("minecraft:item", Some("b"), i32::MAX, vec![])],
    };
    assert!(table_weights_fit(&RawChestLootTable { pools: vec![items] }));
}
