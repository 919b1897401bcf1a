//! A cache of assets loaded by name: a name is looked up without its
//! `minecraft:` namespace, a hit is returned without loading, and only a
//! successful load is stored.
use std::sync::Arc;
use vstd::prelude::*;
use vstd::hash_map::StringHashMap;
use crate::templates::{strip_namespace, without_namespace};

verus! {

/// Calls `Arc::clone`, which makes another pointer to the same value.
#[verifier::external_body]
fn share<T>(a: &Arc<T>) -> (r: Arc<T>)
    ensures
        r == *a,
{
    Arc::clone(a)
}

/// Why an asset could not be had.
pub enum LoadError<E> {
    /// No file holds it ("template file not found").
    NotFound,
    /// Its file could not be read as the asset.
    Invalid(E),
}

/// Assets loaded so far, by name without namespace.
#[verifier::reject_recursive_types(T)]
pub struct TemplateCache<T> {
    cache: StringHashMap<Arc<T>>,
}

impl<T> View for TemplateCache<T> {
    type V = Map<Seq<char>, Arc<T>>;

    closed spec fn view(&self) -> Map<Seq<char>, Arc<T>> {
        self.cache@
    }
}

/// What a load reported: nothing found, an error, or the asset.
pub open spec fn load_outcome_fits<T, E>(
    old_cache: Map<Seq<char>, Arc<T>>,
    new_cache: Map<Seq<char>, Arc<T>>,
    id: Seq<char>,
    outcome: Option<Result<T, E>>,
    r: Result<Arc<T>, LoadError<E>>,
) -> bool {
    match outcome {
        None => r is Err && r->Err_0 is NotFound && new_cache == old_cache,
        Some(Err(e)) => r == Err::<Arc<T>, LoadError<E>>(LoadError::Invalid(e)) && new_cache == old_cache,
        Some(Ok(t)) => r is Ok && r->Ok_0 == t && new_cache == old_cache.insert(id, r->Ok_0),
    }
}

/// Every entry of `before` is in `after`, with the same value.
pub open spec fn keeps_entries<T>(before: Map<Seq<char>, Arc<T>>, after: Map<Seq<char>, Arc<T>>) -> bool {
    forall|k: Seq<char>| #[trigger] before.contains_key(k) ==> after.contains_key(k) && after[k] == before[k]
}

impl<T> TemplateCache<T> {
    /// An empty cache.
    pub fn new() -> (c: TemplateCache<T>)
        ensures
            c@ == Map::<Seq<char>, Arc<T>>::empty(),
    {
        TemplateCache { cache: StringHashMap::new() }
    }

    /// The number of cached assets.
    pub fn len(&self) -> (n: usize)
        ensures
            n == self@.len(),
    {
        self.cache.len()
    }

    /// Whether nothing is cached.
    pub fn is_empty(&self) -> (b: bool)
        ensures
            b == self@.is_empty(),
    {
        self.cache.is_empty()
    }

    /// Forgets every cached asset.
    pub fn clear(&mut self)
        ensures
            final(self)@ == Map::<Seq<char>, Arc<T>>::empty(),
    {
        self.cache.clear();
    }

    /// The asset `name`: the cached one when there is one, else the one that
    /// `load` gives for the name without namespace, which is then cached.
    /// Nothing found, or an error, is given back and nothing is cached.
    pub fn get_or_error<E, F: Fn(&str) -> Option<Result<T, E>>>(&mut self, name: &str, load: &F) -> (r:
        Result<Arc<T>, LoadError<E>>)
        requires
            forall|id: &str| load.requires((id,)),
        ensures
            ({
                let id = without_namespace(name@);
                if old(self)@.contains_key(id) {
                    r == Ok::<Arc<T>, LoadError<E>>(old(self)@[id]) && final(self)@ == old(self)@
                } else {
                    exists|s: &str, outcome: Option<Result<T, E>>|
                        s@ == id && #[trigger] load.ensures((s,), outcome)
                            && load_outcome_fits(old(self)@, final(self)@, id, outcome, r)
                }
            }),
            keeps_entries(old(self)@, final(self)@),
    {
        let id = strip_namespace(name);
        match self.cache.get(id) {
            Some(hit) => {
                return Ok(share(hit));
            },
            None => {},
        }
        let outcome = load(id);
        let ghost seen = outcome;
        match outcome {
            None => {
                assert(load_outcome_fits(old(self)@, self@, id@, seen, Err::<Arc<T>, LoadError<E>>(LoadError::NotFound)));
                Err(LoadError::NotFound)
            },
            Some(Err(e)) => Err(LoadError::Invalid(e)),
            Some(Ok(t)) => {
                let a = Arc::new(t);
                let kept = share(&a);
                self.cache.insert(id.to_owned(), kept);
                Ok(a)
            },
        }
    }

    /// Loads each of `names` into the cache, as `get_or_error` does; names
    /// that cannot be had are passed over. Cached assets stay as they are,
    /// only the given names are added, and each of them is cached afterwards
    /// unless a load of it found nothing or failed.
    pub fn preload<E, F: Fn(&str) -> Option<Result<T, E>>>(&mut self, names: &[&str], load: &F)
        requires
            forall|id: &str| load.requires((id,)),
        ensures
            keeps_entries(old(self)@, final(self)@),
            forall|k: Seq<char>| old(self)@.contains_key(k) ==> #[trigger] final(self)@.contains_key(k)
                && final(self)@[k] == old(self)@[k],
            forall|k: Seq<char>| #[trigger] final(self)@.contains_key(k) ==> old(self)@.contains_key(k)
                || exists|i: int| 0 <= i < names@.len() && without_namespace(names@[i]@) == k,
            forall|i: int| 0 <= i < names@.len() ==> final(self)@.contains_key(without_namespace(#[trigger] names@[i]@))
                || exists|s: &str, outcome: Option<Result<T, E>>|
                    s@ == without_namespace(names@[i]@) && #[trigger] load.ensures((s,), outcome)
                        && !(outcome matches Some(Ok(_))),
    {
        let n = names.len();
        let mut i: usize = 0;
        while i < n
            invariant
                n == names@.len(),
                i <= n,
                forall|id: &str| load.requires((id,)),
                forall|k: Seq<char>| old(self)@.contains_key(k) ==> #[trigger] self@.contains_key(k)
                    && self@[k] == old(self)@[k],
                forall|k: Seq<char>| #[trigger] self@.contains_key(k) ==> old(self)@.contains_key(k)
                    || exists|j: int| 0 <= j < i && without_namespace(names@[j]@) == k,
                forall|j: int| 0 <= j < i ==> self@.contains_key(without_namespace(#[trigger] names@[j]@))
                    || exists|s: &str, outcome: Option<Result<T, E>>|
                        s@ == without_namespace(names@[j]@) && #[trigger] load.ensures((s,), outcome)
                            && !(outcome matches Some(Ok(_))),
            decreases n - i,
        {
            let ghost before = self@;
            let name = names[i];
            let _ = self.get_or_error(name, load);
            proof {
                let id = without_namespace(names@[i as int]@);
                assert(names@[i as int] == name);
                assert forall|k: Seq<char>| #[trigger] self@.contains_key(k) implies old(self)@.contains_key(k)
                    || exists|j: int| 0 <= j < i + 1 && without_namespace(names@[j]@) == k by {
                    if !before.contains_key(k) {
                        assert(k == id);
                        assert(without_namespace(names@[i as int]@) == k);
                    }
                }
                assert forall|j: int| 0 <= j < i + 1 implies self@.contains_key(without_namespace(#[trigger] names@[j]@))
                    || exists|s: &str, outcome: Option<Result<T, E>>|
                        s@ == without_namespace(names@[j]@) && #[trigger] load.ensures((s,), outcome)
                            && !(outcome matches Some(Ok(_))) by {
                    if j < i {
                        if before.contains_key(without_namespace(names@[j]@)) {
                            assert(self@.contains_key(without_namespace(names@[j]@)));
                        }
                    }
                }
            }
            i = i + 1;
        }
    }

    /// The asset `name` as `get_or_error` gives it, or `None` when it could
    /// not be had.
    pub fn get<E, F: Fn(&str) -> Option<Result<T, E>>>(&mut self, name: &str, load: &F) -> (r: Option<Arc<T>>)
        requires
            forall|id: &str| load.requires((id,)),
        ensures
            ({
                let id = without_namespace(name@);
                if old(self)@.contains_key(id) {
                    r == Some(old(self)@[id]) && final(self)@ == old(self)@
                } else {
                    exists|s: &str, outcome: Option<Result<T, E>>|
                        s@ == id && #[trigger] load.ensures((s,), outcome) && match outcome {
                            Some(Ok(t)) => r is Some && r->0 == t && final(self)@ == old(self)@.insert(id, r->0),
                            _ => r is None && final(self)@ == old(self)@,
                        }
                }
            }),
            keeps_entries(old(self)@, final(self)@),
    {
        match self.get_or_error(name, load) {
            Ok(t) => Some(t),
            Err(_) => None,
        }
    }
}

/// An asset that a cache holds stays cached, as the same value, through any
/// run of later calls each of which keeps every entry, as `get`,
/// `get_or_error` and `preload` do; only `clear` drops it. A later lookup of
/// its name, with or without the `minecraft:` namespace, finds it.
pub proof fn law_cached_asset_stays<T>(states: Seq<Map<Seq<char>, Arc<T>>>, name: Seq<char>)
    requires
        states.len() > 0,
        forall|i: int| 0 <= i < states.len() - 1 ==> keeps_entries(#[trigger] states[i], states[i + 1]),
        states[0].contains_key(without_namespace(name)),
    ensures
        states.last().contains_key(without_namespace(name)),
        states.last()[without_namespace(name)] == states[0][without_namespace(name)],
        without_namespace("minecraft:"@ + without_namespace(name)) == without_namespace(name),
    decreases states.len(),
{
    let id = without_namespace(name);
    if states.len() > 1 {
        let prev = states.drop_last();
        assert forall|i: int| 0 <= i < prev.len() - 1 implies keeps_entries(#[trigger] prev[i], prev[i + 1]) by {
            assert(prev[i] == states[i]);
            assert(prev[i + 1] == states[i + 1]);
        }
        law_cached_asset_stays(prev, name);
        assert(keeps_entries(states[states.len() - 2], states[states.len() - 1]));
        assert(prev.last() == states[states.len() - 2]);
        assert(states[states.len() - 2].contains_key(id));
    }
    reveal_strlit("minecraft:");
    let k = "minecraft:"@ + id;
    assert(k.subrange(0, 10) =~= "minecraft:"@);
    assert(k.subrange(10, k.len() as int) =~= id);
}

} // verus!
