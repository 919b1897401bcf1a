//! Locations inside the extracted Minecraft asset cache.
//!
//! The cache root is set once; every directory below it is derived from it,
//! and nothing is derived while it is unset.
use vstd::prelude::*;
use crate::path::{AssetPath, path_join};
use crate::text::{str_eq, texts};

verus! {

/// The text of an optional path.
pub open spec fn opt_path(p: Option<AssetPath>) -> Option<Seq<char>> {
    match p {
        Some(q) => Some(q@),
        None => None,
    }
}

/// `root/assets/minecraft/lang`.
pub open spec fn lang_dir_of(root: Seq<char>) -> Seq<char> {
    path_join(path_join(path_join(root, "assets"@), "minecraft"@), "lang"@)
}

/// `root/data/minecraft`.
pub open spec fn data_dir_of(root: Seq<char>) -> Seq<char> {
    path_join(path_join(root, "data"@), "minecraft"@)
}

/// `root/data/minecraft/loot_tables/chests`.
pub open spec fn chest_loot_dir_of(root: Seq<char>) -> Seq<char> {
    path_join(path_join(data_dir_of(root), "loot_tables"@), "chests"@)
}

/// `root/data/minecraft/structures`.
pub open spec fn structures_dir_of(root: Seq<char>) -> Seq<char> {
    path_join(data_dir_of(root), "structures"@)
}

/// `root/data/minecraft/worldgen/template_pool`.
pub open spec fn template_pool_dir_of(root: Seq<char>) -> Seq<char> {
    path_join(path_join(data_dir_of(root), "worldgen"@), "template_pool"@)
}

/// `root/data/minecraft/worldgen/processor_list`.
pub open spec fn processor_list_dir_of(root: Seq<char>) -> Seq<char> {
    path_join(path_join(data_dir_of(root), "worldgen"@), "processor_list"@)
}

/// A directory derived from the root, when the root is set.
pub open spec fn derived(root: Option<Seq<char>>, f: spec_fn(Seq<char>) -> Seq<char>) -> Option<
    Seq<char>,
> {
    match root {
        Some(r) => Some(f(r)),
        None => None,
    }
}

/// The root of the extracted asset cache, set at most once.
pub struct CacheRoot {
    root: Option<AssetPath>,
}

impl View for CacheRoot {
    type V = Option<Seq<char>>;

    closed spec fn view(&self) -> Option<Seq<char>> {
        opt_path(self.root)
    }
}

impl CacheRoot {
    /// A cache root that is not set yet.
    pub fn new() -> (c: CacheRoot)
        ensures
            c@ == None::<Seq<char>>,
    {
        CacheRoot { root: None }
    }
}

/// Sets the root of the extracted asset cache: the directory that holds the
/// `assets/minecraft/` and `data/minecraft/` trees. It can be set once.
pub fn set_cache_root(cache: &mut CacheRoot, path: AssetPath)
    requires
        old(cache)@ == None::<Seq<char>>,
    ensures
        final(cache)@ == Some(path@),
{
    cache.root = Some(path);
}

/// The root after an attempt to set it to `path`: the path when the root was
/// not set, else the root as it was.
pub open spec fn root_after_set(root: Option<Seq<char>>, path: Seq<char>) -> Option<Seq<char>> {
    match root {
        None => Some(path),
        Some(r) => Some(r),
    }
}

/// The root after attempts to set it to each of `paths` in turn.
pub open spec fn root_after_attempts(root: Option<Seq<char>>, paths: Seq<Seq<char>>) -> Option<Seq<char>>
    decreases paths.len(),
{
    if paths.len() == 0 {
        root
    } else {
        root_after_attempts(root_after_set(root, paths[0]), paths.drop_first())
    }
}

/// The cache root is written once: the first attempt on an unset root sets
/// it, and no later attempt changes it.
pub proof fn law_root_is_set_once(first: Seq<char>, later: Seq<Seq<char>>, root: Seq<char>)
    ensures
        root_after_attempts(None, seq![first] + later) == Some(first),
        root_after_attempts(Some(root), later) == Some(root),
{
    law_set_root_stays(first, later);
    law_set_root_stays(root, later);
    assert((seq![first] + later).drop_first() =~= later);
}

/// A set root stays through any run of attempts.
proof fn law_set_root_stays(root: Seq<char>, paths: Seq<Seq<char>>)
    ensures
        root_after_attempts(Some(root), paths) == Some(root),
    decreases paths.len(),
{
    if paths.len() > 0 {
        law_set_root_stays(root, paths.drop_first());
    }
}

/// Sets the cache root when it is not set yet, and tells whether it did; a
/// root that is set already stays as it is.
pub fn try_set_cache_root(cache: &mut CacheRoot, path: AssetPath) -> (set: bool)
    ensures
        set == (old(cache)@ == None::<Seq<char>>),
        set ==> final(cache)@ == Some(path@),
        !set ==> final(cache)@ == old(cache)@,
        final(cache)@ == root_after_set(old(cache)@, path@),
{
    match &cache.root {
        Some(_) => false,
        None => {
            cache.root = Some(path);
            true
        },
    }
}

/// The cache root, or `None` if it is not set.
pub fn get_cache_root(cache: &CacheRoot) -> (r: Option<&AssetPath>)
    ensures
        match r {
            Some(p) => cache@ == Some(p@),
            None => cache@ == None::<Seq<char>>,
        },
{
    match &cache.root {
        Some(p) => Some(p),
        None => None,
    }
}

/// `assets/minecraft/lang/` under the root (language files).
pub fn lang_dir(cache: &CacheRoot) -> (r: Option<AssetPath>)
    ensures
        opt_path(r) == derived(cache@, |root: Seq<char>| lang_dir_of(root)),
{
    match &cache.root {
        Some(root) => Some(root.join("assets").join("minecraft").join("lang")),
        None => None,
    }
}

/// `data/minecraft/` under the root (loot tables, structures, worldgen).
pub fn data_dir(cache: &CacheRoot) -> (r: Option<AssetPath>)
    ensures
        opt_path(r) == derived(cache@, |root: Seq<char>| data_dir_of(root)),
{
    match &cache.root {
        Some(root) => Some(root.join("data").join("minecraft")),
        None => None,
    }
}

/// `data/minecraft/loot_tables/chests/` under the root.
pub fn chest_loot_dir(cache: &CacheRoot) -> (r: Option<AssetPath>)
    ensures
        opt_path(r) == derived(cache@, |root: Seq<char>| chest_loot_dir_of(root)),
{
    match data_dir(cache) {
        Some(d) => Some(d.join("loot_tables").join("chests")),
        None => None,
    }
}

/// `data/minecraft/structures/` under the root.
pub fn structures_dir(cache: &CacheRoot) -> (r: Option<AssetPath>)
    ensures
        opt_path(r) == derived(cache@, |root: Seq<char>| structures_dir_of(root)),
{
    match data_dir(cache) {
        Some(d) => Some(d.join("structures")),
        None => None,
    }
}

/// `data/minecraft/worldgen/template_pool/` under the root.
pub fn template_pool_dir(cache: &CacheRoot) -> (r: Option<AssetPath>)
    ensures
        opt_path(r) == derived(cache@, |root: Seq<char>| template_pool_dir_of(root)),
{
    match data_dir(cache) {
        Some(d) => Some(d.join("worldgen").join("template_pool")),
        None => None,
    }
}

/// `data/minecraft/worldgen/processor_list/` under the root.
pub fn processor_list_dir(cache: &CacheRoot) -> (r: Option<AssetPath>)
    ensures
        opt_path(r) == derived(cache@, |root: Seq<char>| processor_list_dir_of(root)),
{
    match data_dir(cache) {
        Some(d) => Some(d.join("worldgen").join("processor_list")),
        None => None,
    }
}

/// `name` followed by `suffix`.
fn with_suffix(name: &str, suffix: &str) -> (r: String)
    ensures
        r@ == name@ + suffix@,
{
    let mut s = name.to_owned();
    s.append(suffix);
    s
}

/// The file of an optional directory, named `name` with an extension.
pub open spec fn file_in(dir: Option<Seq<char>>, name: Seq<char>, ext: Seq<char>) -> Option<Seq<char>> {
    match dir {
        Some(d) => Some(path_join(d, name + ext)),
        None => None,
    }
}

/// The structure file `<name>.nbt`, when the root is set.
pub fn structure_file(cache: &CacheRoot, name: &str) -> (r: Option<AssetPath>)
    ensures
        opt_path(r) == file_in(derived(cache@, |root: Seq<char>| structures_dir_of(root)), name@, ".nbt"@),
{
    match structures_dir(cache) {
        Some(d) => {
            let file = with_suffix(name, ".nbt");
            Some(d.join(file.as_str()))
        },
        None => None,
    }
}

/// `root/data/minecraft/loot_tables`.
pub open spec fn loot_tables_dir_of(root: Seq<char>) -> Seq<char> {
    path_join(data_dir_of(root), "loot_tables"@)
}

/// The file of the chest loot table `id` (a key without its `minecraft:`
/// namespace, such as `chests/abandoned_mineshaft`): `<id>.json` under
/// `data/minecraft/loot_tables`, when the root is set.
pub fn chest_loot_table_file(cache: &CacheRoot, id: &str) -> (r: Option<AssetPath>)
    ensures
        opt_path(r) == file_in(derived(cache@, |root: Seq<char>| loot_tables_dir_of(root)), id@, ".json"@),
{
    match data_dir(cache) {
        Some(d) => {
            let file = with_suffix(id, ".json");
            Some(d.join("loot_tables").join(file.as_str()))
        },
        None => None,
    }
}

/// The template pool file `<name>.json`, when the root is set.
pub fn template_pool_file(cache: &CacheRoot, name: &str) -> (r: Option<AssetPath>)
    ensures
        opt_path(r) == file_in(derived(cache@, |root: Seq<char>| template_pool_dir_of(root)), name@, ".json"@),
{
    match template_pool_dir(cache) {
        Some(d) => {
            let file = with_suffix(name, ".json");
            Some(d.join(file.as_str()))
        },
        None => None,
    }
}

/// The processor list file `<name>.json`, when the root is set.
pub fn processor_list_file(cache: &CacheRoot, name: &str) -> (r: Option<AssetPath>)
    ensures
        opt_path(r) == file_in(derived(cache@, |root: Seq<char>| processor_list_dir_of(root)), name@, ".json"@),
{
    match processor_list_dir(cache) {
        Some(d) => {
            let file = with_suffix(name, ".json");
            Some(d.join(file.as_str()))
        },
        None => None,
    }
}

/// The directory of the structures under `pool_prefix`, when the root is set.
pub fn pool_dir(cache: &CacheRoot, pool_prefix: &str) -> (r: Option<AssetPath>)
    ensures
        opt_path(r) == match derived(cache@, |root: Seq<char>| structures_dir_of(root)) {
            Some(d) => Some(path_join(d, pool_prefix@)),
            None => None,
        },
{
    match structures_dir(cache) {
        Some(d) => Some(d.join(pool_prefix)),
        None => None,
    }
}

/// The position of the last `.` among the first `n` characters, or -1.
pub open spec fn last_dot(name: Seq<char>, n: int) -> int
    decreases n,
{
    if n <= 0 {
        -1
    } else if name[n - 1] == '.' {
        n - 1
    } else {
        last_dot(name, n - 1)
    }
}

/// The stem of a file name whose extension is `nbt`: the part before the
/// last `.`, when that dot is not the first character and `nbt` follows it.
pub open spec fn nbt_stem(name: Seq<char>) -> Option<Seq<char>> {
    let d = last_dot(name, name.len() as int);
    if d <= 0 {
        None
    } else if name.subrange(d + 1, name.len() as int) == "nbt"@ {
        Some(name.subrange(0, d))
    } else {
        None
    }
}

/// `prefix/stem` for each of the first `n` file names that is an `nbt` file,
/// in order.
pub open spec fn pool_templates_upto(prefix: Seq<char>, names: Seq<Seq<char>>, n: int) -> Seq<
    Seq<char>,
>
    decreases n,
{
    if n <= 0 {
        Seq::empty()
    } else {
        let prev = pool_templates_upto(prefix, names, n - 1);
        match nbt_stem(names[n - 1]) {
            Some(stem) => prev.push(prefix + seq!['/'] + stem),
            None => prev,
        }
    }
}

/// The stem of `name` when its extension is `nbt`.
fn nbt_stem_of(name: &str) -> (r: Option<&str>)
    ensures
        match r {
            Some(s) => nbt_stem(name@) == Some(s@),
            None => nbt_stem(name@) is None,
        },
{
    let n = name.unicode_len();
    let mut i: usize = n;
    while i > 0 && name.get_char(i - 1) != '.'
        invariant
            n == name@.len(),
            i <= n,
            last_dot(name@, n as int) == last_dot(name@, i as int),
        decreases i,
    {
        i = i - 1;
    }
    if i <= 1 {
        return None;
    }
    let d = i - 1;
    let ext = name.substring_char(d + 1, n);
    if str_eq(ext, "nbt") {
        Some(name.substring_char(0, d))
    } else {
        None
    }
}

/// The structure templates of a pool directory, given the names of the files
/// in it: `pool_prefix/stem` for each `nbt` file, in the order given.
pub fn list_pool_templates(pool_prefix: &str, file_names: &Vec<String>) -> (r: Vec<String>)
    ensures
        texts(r@) == pool_templates_upto(pool_prefix@, texts(file_names@), file_names@.len() as int),
{
    let mut results: Vec<String> = Vec::new();
    let mut i: usize = 0;
    while i < file_names.len()
        invariant
            i <= file_names@.len(),
            texts(results@) == pool_templates_upto(pool_prefix@, texts(file_names@), i as int),
        decreases file_names@.len() - i,
    {
        let ghost names = texts(file_names@);
        let ghost prev = texts(results@);
        assert(names[i as int] == file_names@[i as int]@);
        assert(pool_templates_upto(pool_prefix@, names, i + 1) == match nbt_stem(names[i as int]) {
            Some(stem) => prev.push(pool_prefix@ + seq!['/'] + stem),
            None => prev,
        });
        match nbt_stem_of(file_names[i].as_str()) {
            Some(stem) => {
                let mut entry = pool_prefix.to_owned();
                let slash = "/";
                proof {
                    reveal_strlit("/");
                    assert(slash@ =~= seq!['/']);
                }
                entry.append(slash);
                entry.append(stem);
                assert(entry@ =~= pool_prefix@ + seq!['/'] + stem@);
                results.push(entry);
                assert(texts(results@) =~= prev.push(pool_prefix@ + seq!['/'] + stem@));
            },
            None => {
                assert(texts(results@) =~= prev);
            },
        }
        i = i + 1;
    }
    results
}

} // verus!
