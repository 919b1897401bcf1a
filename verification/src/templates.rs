//! Names of structure templates, template pools and processor lists.
use vstd::prelude::*;
use crate::asset_path::{file_in, list_pool_templates, loot_tables_dir_of, pool_templates_upto};
use crate::path::path_join;
use crate::text::{starts_with, texts};

verus! {

/// The name without a leading `minecraft:` namespace.
pub open spec fn without_namespace(name: Seq<char>) -> Seq<char> {
    let ns = "minecraft:"@;
    if ns.len() <= name.len() && name.subrange(0, ns.len() as int) == ns {
        name.subrange(ns.len() as int, name.len() as int)
    } else {
        name
    }
}

/// Removes a leading `minecraft:` namespace from a name.
pub fn strip_namespace(name: &str) -> (r: &str)
    ensures
        r@ == without_namespace(name@),
{
    let ns = "minecraft:";
    proof {
        reveal_strlit("minecraft:");
    }
    if starts_with(name, ns) {
        name.substring_char(10, name.unicode_len())
    } else {
        name
    }
}

/// The template pool elements of a pool, given the names of the files in its
/// structure directory: the pool's `nbt` templates, or `None` when it has none.
pub fn get_pool_elements(pool_id: &str, file_names: &Vec<String>) -> (r: Option<Vec<String>>)
    ensures
        ({
            let templates = pool_templates_upto(without_namespace(pool_id@), texts(file_names@), file_names@.len() as int);
            match r {
                Some(v) => templates.len() > 0 && texts(v@) == templates,
                None => templates.len() == 0,
            }
        }),
{
    let id = strip_namespace(pool_id);
    let templates = list_pool_templates(id, file_names);
    if templates.len() == 0 {
        None
    } else {
        Some(templates)
    }
}

/// A chest loot table key `minecraft:<id>` names the file `<id>.json` under
/// `data/minecraft/loot_tables`.
pub proof fn law_chest_key_names_its_file(root: Seq<char>, id: Seq<char>)
    ensures
        file_in(Some(loot_tables_dir_of(root)), without_namespace("minecraft:"@ + id), ".json"@) == Some(
            path_join(loot_tables_dir_of(root), id + ".json"@),
        ),
{
    reveal_strlit("minecraft:");
    let k = "minecraft:"@ + id;
    assert(k.subrange(0, 10) =~= "minecraft:"@);
    assert(k.subrange(10, k.len() as int) =~= id);
}

} // verus!
