//! Chest loot tables: from the vanilla JSON shape to the runtime shape.
//!
//! The numbers of the JSON shape (roll and count bounds) arrive rounded to
//! whole numbers.
use vstd::prelude::*;
use crate::text::str_eq;

verus! {

/// The number of rolls of a pool: a constant, or bounds that default to 1.
pub enum RollsValue {
    Constant(i32),
    Object { min: Option<i32>, max: Option<i32> },
}

/// The number of items of a `set_count` function: a constant, or bounds that
/// default to 1.
pub enum CountValue {
    Constant(i32),
    Object { min: Option<i32>, max: Option<i32> },
}

/// The lower bound of a rolls value.
pub open spec fn rolls_min(r: RollsValue) -> i32 {
    match r {
        RollsValue::Constant(v) => v,
        RollsValue::Object { min, .. } => match min {
            Some(m) => m,
            None => 1,
        },
    }
}

/// The upper bound of a rolls value.
pub open spec fn rolls_max(r: RollsValue) -> i32 {
    match r {
        RollsValue::Constant(v) => v,
        RollsValue::Object { max, .. } => match max {
            Some(m) => m,
            None => 1,
        },
    }
}

/// The lower bound of a count value.
pub open spec fn count_min(c: CountValue) -> i32 {
    match c {
        CountValue::Constant(v) => v,
        CountValue::Object { min, .. } => match min {
            Some(m) => m,
            None => 1,
        },
    }
}

/// The upper bound of a count value.
pub open spec fn count_max(c: CountValue) -> i32 {
    match c {
        CountValue::Constant(v) => v,
        CountValue::Object { max, .. } => match max {
            Some(m) => m,
            None => 1,
        },
    }
}

impl RollsValue {
    /// The lower bound.
    pub fn min(&self) -> (r: i32)
        ensures
            r == rolls_min(*self),
    {
        match self {
            RollsValue::Constant(v) => *v,
            RollsValue::Object { min, .. } => match min {
                Some(m) => *m,
                None => 1,
            },
        }
    }

    /// The upper bound.
    pub fn max(&self) -> (r: i32)
        ensures
            r == rolls_max(*self),
    {
        match self {
            RollsValue::Constant(v) => *v,
            RollsValue::Object { max, .. } => match max {
                Some(m) => *m,
                None => 1,
            },
        }
    }
}

impl CountValue {
    /// The lower bound.
    pub fn min(&self) -> (r: i32)
        ensures
            r == count_min(*self),
    {
        match self {
            CountValue::Constant(v) => *v,
            CountValue::Object { min, .. } => match min {
                Some(m) => *m,
                None => 1,
            },
        }
    }

    /// The upper bound.
    pub fn max(&self) -> (r: i32)
        ensures
            r == count_max(*self),
    {
        match self {
            CountValue::Constant(v) => *v,
            CountValue::Object { max, .. } => match max {
                Some(m) => *m,
                None => 1,
            },
        }
    }
}

/// A function applied to an item entry.
pub struct RawFunction {
    pub function: String,
    pub count: Option<CountValue>,
}

/// An entry of a pool as the JSON gives it.
pub struct RawEntry {
    pub entry_type: String,
    pub name: Option<String>,
    pub weight: i32,
    pub functions: Vec<RawFunction>,
}

/// A pool as the JSON gives it.
pub struct RawPool {
    pub rolls: RollsValue,
    pub entries: Vec<RawEntry>,
}

/// A chest loot table as the JSON gives it.
pub struct RawChestLootTable {
    pub pools: Vec<RawPool>,
}

/// The weight an entry has when the JSON gives none.
pub fn one() -> (r: i32)
    ensures
        r == 1,
{
    1
}

/// An item that a chest can hold.
pub struct ChestLootEntry {
    pub item: String,
    pub weight: i32,
    pub min_count: i32,
    pub max_count: i32,
}

/// A pool of items, rolled between `min_rolls` and `max_rolls` times.
pub struct ChestLootPool {
    pub entries: Vec<ChestLootEntry>,
    pub min_rolls: i32,
    pub max_rolls: i32,
    pub empty_weight: i32,
}

/// A chest loot table.
pub struct ChestLootTable {
    pub pools: Vec<ChestLootPool>,
}

/// An item as (item, weight, least count, greatest count).
pub type EntryModel = (Seq<char>, i32, i32, i32);

/// A pool as (items, least rolls, greatest rolls, weight of rolling nothing).
pub type PoolModel = (Seq<EntryModel>, i32, i32, i32);

/// The model of an item.
pub open spec fn entry_model(e: ChestLootEntry) -> EntryModel {
    (e.item@, e.weight, e.min_count, e.max_count)
}

/// The model of a pool.
pub open spec fn pool_model(p: ChestLootPool) -> PoolModel {
    (p.entries@.map_values(|e: ChestLootEntry| entry_model(e)), p.min_rolls, p.max_rolls, p.empty_weight)
}

/// The model of a table.
pub open spec fn table_model(t: ChestLootTable) -> Seq<PoolModel> {
    t.pools@.map_values(|p: ChestLootPool| pool_model(p))
}

/// The count bounds of an item: those of the first `minecraft:set_count`
/// function from position `i` on, or (1, 1) when there is none or it has no
/// count.
pub open spec fn count_bounds_from(fs: Seq<RawFunction>, i: int) -> (i32, i32)
    decreases fs.len() - i,
{
    if i < 0 || i >= fs.len() {
        (1, 1)
    } else if fs[i].function@ == "minecraft:set_count"@ {
        match fs[i].count {
            Some(c) => (count_min(c), count_max(c)),
            None => (1, 1),
        }
    } else {
        count_bounds_from(fs, i + 1)
    }
}

/// A constant count, or a constant number of rolls, is both its own lower
/// and its own upper bound; bounds given as an object are the ones given, and
/// 1 where one is left out.
pub proof fn law_bounds_of_values(v: i32, lo: Option<i32>, hi: Option<i32>)
    ensures
        count_min(CountValue::Constant(v)) == v,
        count_max(CountValue::Constant(v)) == v,
        rolls_min(RollsValue::Constant(v)) == v,
        rolls_max(RollsValue::Constant(v)) == v,
        lo is Some ==> count_min(CountValue::Object { min: lo, max: hi }) == lo->0
            && rolls_min(RollsValue::Object { min: lo, max: hi }) == lo->0,
        lo is None ==> count_min(CountValue::Object { min: lo, max: hi }) == 1
            && rolls_min(RollsValue::Object { min: lo, max: hi }) == 1,
        hi is Some ==> count_max(CountValue::Object { min: lo, max: hi }) == hi->0
            && rolls_max(RollsValue::Object { min: lo, max: hi }) == hi->0,
        hi is None ==> count_max(CountValue::Object { min: lo, max: hi }) == 1
            && rolls_max(RollsValue::Object { min: lo, max: hi }) == 1,
{
}

/// An item whose first `minecraft:set_count` function (at `j`) has the
/// constant count `c` is converted with least and greatest count `c`.
pub proof fn law_constant_set_count(fs: Seq<RawFunction>, j: int, c: i32)
    requires
        0 <= j < fs.len(),
        fs[j].function@ == "minecraft:set_count"@,
        fs[j].count == Some(CountValue::Constant(c)),
        forall|i: int| 0 <= i < j ==> (#[trigger] fs[i]).function@ != "minecraft:set_count"@,
    ensures
        count_bounds_from(fs, 0) == (c, c),
{
    lemma_bounds_from_first_set_count(fs, j, 0);
}

/// An item none of whose `minecraft:set_count` functions gives a count (or
/// that has none) holds exactly one of its item: least and greatest count 1.
pub proof fn law_default_count(fs: Seq<RawFunction>)
    requires
        forall|i: int| 0 <= i < fs.len() && (#[trigger] fs[i]).function@ == "minecraft:set_count"@ ==> fs[i].count is None,
    ensures
        count_bounds_from(fs, 0) == (1i32, 1i32),
{
    lemma_default_from(fs, 0);
}

proof fn lemma_default_from(fs: Seq<RawFunction>, i: int)
    requires
        0 <= i,
        forall|j: int| 0 <= j < fs.len() && (#[trigger] fs[j]).function@ == "minecraft:set_count"@ ==> fs[j].count is None,
    ensures
        count_bounds_from(fs, i) == (1i32, 1i32),
    decreases fs.len() - i,
{
    if i < fs.len() {
        if fs[i].function@ != "minecraft:set_count"@ {
            lemma_default_from(fs, i + 1);
        }
    }
}

/// The bounds from position `i` on are those of the first `set_count` at or
/// after `i`.
proof fn lemma_bounds_from_first_set_count(fs: Seq<RawFunction>, j: int, i: int)
    requires
        0 <= i <= j < fs.len(),
        fs[j].function@ == "minecraft:set_count"@,
        forall|k: int| 0 <= k < j ==> (#[trigger] fs[k]).function@ != "minecraft:set_count"@,
    ensures
        count_bounds_from(fs, i) == count_bounds_from(fs, j),
    decreases j - i,
{
    if i < j {
        lemma_bounds_from_first_set_count(fs, j, i + 1);
    }
}

/// Entry types.
pub open spec fn is_empty_entry(e: RawEntry) -> bool {
    e.entry_type@ == "minecraft:empty"@
}

/// Entry types.
pub open spec fn is_item_entry(e: RawEntry) -> bool {
    e.entry_type@ == "minecraft:item"@
}

/// The summed weight of the empty entries among the first `n`.
pub open spec fn empty_weight_upto(es: Seq<RawEntry>, n: int) -> int
    decreases n,
{
    if n <= 0 {
        0
    } else {
        empty_weight_upto(es, n - 1) + if is_empty_entry(es[n - 1]) {
            es[n - 1].weight as int
        } else {
            0
        }
    }
}

/// The items among the first `n` entries: item entries with a name, in order.
pub open spec fn items_upto(es: Seq<RawEntry>, n: int) -> Seq<EntryModel>
    decreases n,
{
    if n <= 0 {
        Seq::empty()
    } else {
        let prev = items_upto(es, n - 1);
        let e = es[n - 1];
        if is_item_entry(e) && e.name is Some {
            let bounds = count_bounds_from(e.functions@, 0);
            prev.push((e.name->0@, e.weight, bounds.0, bounds.1))
        } else {
            prev
        }
    }
}

/// The runtime pool of a JSON pool.
pub open spec fn converted_pool(p: RawPool) -> PoolModel {
    (
        items_upto(p.entries@, p.entries@.len() as int),
        rolls_min(p.rolls),
        rolls_max(p.rolls),
        empty_weight_upto(p.entries@, p.entries@.len() as int) as i32,
    )
}

/// Every running sum of empty weights of a pool fits in `i32`.
pub open spec fn empty_weights_fit(p: RawPool) -> bool {
    forall|n: int|
        0 <= n <= p.entries@.len() ==> i32::MIN <= #[trigger] empty_weight_upto(p.entries@, n)
            <= i32::MAX
}

/// The count bounds of an item entry.
fn count_bounds(functions: &Vec<RawFunction>) -> (r: (i32, i32))
    ensures
        r == count_bounds_from(functions@, 0),
{
    let n = functions.len();
    let mut i: usize = 0;
    while i < n
        invariant
            n == functions@.len(),
            i <= n,
            count_bounds_from(functions@, 0) == count_bounds_from(functions@, i as int),
        decreases n - i,
    {
        if str_eq(functions[i].function.as_str(), "minecraft:set_count") {
            return match &functions[i].count {
                Some(c) => (c.min(), c.max()),
                None => (1, 1),
            };
        }
        i = i + 1;
    }
    (1, 1)
}

/// The runtime pool of a JSON pool.
fn convert_pool(pool: &RawPool) -> (r: ChestLootPool)
    requires
        empty_weights_fit(*pool),
    ensures
        pool_model(r) == converted_pool(*pool),
{
    let es = &pool.entries;
    let n = es.len();
    let mut empty_weight: i32 = 0;
    let mut entries: Vec<ChestLootEntry> = Vec::new();
    let mut i: usize = 0;
    while i < n
        invariant
            n == es@.len(),
            es@ == pool.entries@,
            empty_weights_fit(*pool),
            i <= n,
            empty_weight as int == empty_weight_upto(es@, i as int),
            entries@.map_values(|e: ChestLootEntry| entry_model(e)) == items_upto(es@, i as int),
        decreases n - i,
    {
        let entry = &es[i];
        let ghost prev = entries@.map_values(|e: ChestLootEntry| entry_model(e));
        proof {
            reveal_strlit("minecraft:empty");
            reveal_strlit("minecraft:item");
            assert("minecraft:empty"@.len() == 15);
            assert("minecraft:item"@.len() == 14);
            assert(es@[i as int] == *entry);
        }
        assert(i32::MIN <= empty_weight_upto(es@, i + 1) <= i32::MAX);
        if str_eq(entry.entry_type.as_str(), "minecraft:empty") {
            empty_weight = empty_weight + entry.weight;
        } else if str_eq(entry.entry_type.as_str(), "minecraft:item") {
            match &entry.name {
                Some(name) => {
                    let (min_count, max_count) = count_bounds(&entry.functions);
                    entries.push(ChestLootEntry {
                        item: name.clone(),
                        weight: entry.weight,
                        min_count,
                        max_count,
                    });
                    assert(entries@.map_values(|e: ChestLootEntry| entry_model(e)) =~= prev.push(
                        (name@, entry.weight, min_count, max_count),
                    ));
                },
                None => {},
            }
        }
        assert(entries@.map_values(|e: ChestLootEntry| entry_model(e)) =~= items_upto(es@, i + 1));
        i = i + 1;
    }
    ChestLootPool {
        entries,
        min_rolls: pool.rolls.min(),
        max_rolls: pool.rolls.max(),
        empty_weight,
    }
}

/// The runtime table of a JSON chest loot table: per pool, the summed weight
/// of its empty entries, and its item entries that have a name, with the
/// count bounds of their first `minecraft:set_count` function.
pub fn convert_table(raw: RawChestLootTable) -> (r: ChestLootTable)
    requires
        forall|i: int| 0 <= i < raw.pools@.len() ==> empty_weights_fit(#[trigger] raw.pools@[i]),
    ensures
        table_model(r) == raw.pools@.map_values(|p: RawPool| converted_pool(p)),
{
    let n = raw.pools.len();
    let mut pools: Vec<ChestLootPool> = Vec::new();
    let mut i: usize = 0;
    while i < n
        invariant
            n == raw.pools@.len(),
            forall|i: int| 0 <= i < raw.pools@.len() ==> empty_weights_fit(#[trigger] raw.pools@[i]),
            i <= n,
            pools@.len() == i,
            forall|j: int| 0 <= j < i ==> pool_model(#[trigger] pools@[j]) == converted_pool(raw.pools@[j]),
        decreases n - i,
    {
        let p = convert_pool(&raw.pools[i]);
        pools.push(p);
        i = i + 1;
    }
    let t = ChestLootTable { pools };
    assert(table_model(t) =~= raw.pools@.map_values(|p: RawPool| converted_pool(p)));
    t
}

/// Whether every running sum of empty weights, in every pool, fits in `i32`.
pub fn table_weights_fit(raw: &RawChestLootTable) -> (r: bool)
    ensures
        r == forall|i: int| 0 <= i < raw.pools@.len() ==> empty_weights_fit(#[trigger] raw.pools@[i]),
{
    let n = raw.pools.len();
    let mut i: usize = 0;
    while i < n
        invariant
            n == raw.pools@.len(),
            i <= n,
            forall|k: int| 0 <= k < i ==> empty_weights_fit(#[trigger] raw.pools@[k]),
        decreases n - i,
    {
        let es = &raw.pools[i].entries;
        let ghost pool = raw.pools@[i as int];
        let m = es.len();
        let mut sum: i64 = 0;
        let mut j: usize = 0;
        while j < m
            invariant
                m == es@.len(),
                es@ == pool.entries@,
                pool == raw.pools@[i as int],
                i < n,
                n == raw.pools@.len(),
                j <= m,
                sum as int == empty_weight_upto(es@, j as int),
                forall|k: int| 0 <= k <= j ==> i32::MIN <= #[trigger] empty_weight_upto(es@, k) <= i32::MAX,
            decreases m - j,
        {
            proof {
                reveal_strlit("minecraft:empty");
            }
            if str_eq(es[j].entry_type.as_str(), "minecraft:empty") {
                sum = sum + es[j].weight as i64;
            }
            if sum < i32::MIN as i64 || sum > i32::MAX as i64 {
                proof {
                    assert(!(i32::MIN <= empty_weight_upto(pool.entries@, j + 1) <= i32::MAX));
                    assert(!empty_weights_fit(raw.pools@[i as int]));
                }
                return false;
            }
            j = j + 1;
        }
        assert(empty_weights_fit(pool));
        i = i + 1;
    }
    true
}

} // verus!
