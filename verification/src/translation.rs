//! Translation tables: one map from namespaced key to text per locale.
use vstd::prelude::*;
use vstd::hash_map::StringHashMap;
use crate::locale::{Locale, LOCALE_COUNT, locale_index, lemma_locale_index};
use crate::text::{lowercase, to_lowercase, contains_char};

verus! {

/// What `serde_json` reads from a JSON text as an object of string values:
/// its entries in key order, or `None` when the text is not such an object.
pub uninterp spec fn json_string_map(text: Seq<char>) -> Option<Seq<(Seq<char>, Seq<char>)>>;

/// Calls `serde_json::from_str` to read a JSON object whose values are all
/// strings into a `BTreeMap<String, String>`, and hands its entries out in
/// key order. The contract names the result `json_string_map` of the text;
/// it states nothing about which texts are accepted.
#[verifier::external_body]
fn parse_string_map(text: &str) -> (r: Option<Vec<(String, String)>>)
    ensures
        r.deep_view() == json_string_map(text@),
{
    match serde_json::from_str::<std::collections::BTreeMap<String, String>>(text) {
        Ok(m) => Some(m.into_iter().collect()),
        Err(_) => None,
    }
}

/// `a:b`, the namespaced form of a key.
pub open spec fn namespaced(namespace: Seq<char>, key: Seq<char>) -> Seq<char> {
    namespace + seq![':'] + key
}

/// The key under which a vanilla `en_us` entry is stored: keys that already
/// hold a `:` are only lowercased, others get the `minecraft` namespace first.
pub open spec fn vanilla_key(key: Seq<char>) -> Seq<char> {
    if key.contains(':') {
        lowercase(key)
    } else {
        lowercase(namespaced("minecraft"@, key))
    }
}

/// The first `n` entries of `pairs` inserted in order into `m`, each under
/// the key that `f` makes of its own key.
pub open spec fn insert_entries(
    m: Map<Seq<char>, Seq<char>>,
    pairs: Seq<(Seq<char>, Seq<char>)>,
    f: spec_fn(Seq<char>) -> Seq<char>,
    n: int,
) -> Map<Seq<char>, Seq<char>>
    decreases n,
{
    if n <= 0 {
        m
    } else {
        insert_entries(m, pairs, f, n - 1).insert(f(pairs[n - 1].0), pairs[n - 1].1)
    }
}

/// The table of one locale.
pub open spec fn locale_table(tables: Seq<Map<Seq<char>, Seq<char>>>, locale: Locale) -> Map<
    Seq<char>,
    Seq<char>,
> {
    tables[locale_index(locale)]
}

/// What a lookup of `key` gives: the key is lowercased, looked up in the
/// locale's table, then in the `en_us` table, and is itself the answer when
/// neither holds it.
pub open spec fn translation_lookup(
    tables: Seq<Map<Seq<char>, Seq<char>>>,
    key: Seq<char>,
    locale: Locale,
) -> Seq<char> {
    let k = lowercase(key);
    if locale_table(tables, locale).contains_key(k) {
        locale_table(tables, locale)[k]
    } else if locale_table(tables, Locale::EnUs).contains_key(k) {
        locale_table(tables, Locale::EnUs)[k]
    } else {
        k
    }
}

/// The tables after `m` replaced the table of `locale`.
pub open spec fn with_table(
    tables: Seq<Map<Seq<char>, Seq<char>>>,
    locale: Locale,
    m: Map<Seq<char>, Seq<char>>,
) -> Seq<Map<Seq<char>, Seq<char>>> {
    tables.update(locale_index(locale), m)
}

/// The tables after each of `writes` in turn, a write storing a text under
/// a key in the table of a locale.
pub open spec fn apply_writes(
    tables: Seq<Map<Seq<char>, Seq<char>>>,
    writes: Seq<(Locale, Seq<char>, Seq<char>)>,
) -> Seq<Map<Seq<char>, Seq<char>>>
    decreases writes.len(),
{
    if writes.len() == 0 {
        tables
    } else {
        let t = apply_writes(tables, writes.drop_last());
        let w = writes.last();
        with_table(t, w.0, locale_table(t, w.0).insert(w.1, w.2))
    }
}

/// The writes that storing the first `n` entries of `pairs` in the table of
/// `locale`, each under the key that `f` makes of its own key, amounts to.
pub open spec fn entry_writes(
    locale: Locale,
    pairs: Seq<(Seq<char>, Seq<char>)>,
    f: spec_fn(Seq<char>) -> Seq<char>,
    n: int,
) -> Seq<(Locale, Seq<char>, Seq<char>)> {
    Seq::new(n as nat, |i: int| (locale, f(pairs[i].0), pairs[i].1))
}

/// Translations of every locale.
pub struct Translations {
    tables: Vec<StringHashMap<String>>,
}

impl View for Translations {
    type V = Seq<Map<Seq<char>, Seq<char>>>;

    closed spec fn view(&self) -> Seq<Map<Seq<char>, Seq<char>>> {
        Seq::new(LOCALE_COUNT as nat, |i: int| self.tables@[i]@.map_values(|s: String| s@))
    }
}

impl Translations {
    #[verifier::type_invariant]
    closed spec fn one_table_per_locale(&self) -> bool {
        self.tables@.len() == LOCALE_COUNT
    }

    /// Every translations value holds one table per locale.
    pub proof fn lemma_one_table_per_locale(t: Translations)
        ensures
            t@.len() == LOCALE_COUNT,
    {
    }

    /// Empty tables for every locale.
    pub fn new() -> (t: Translations)
        ensures
            t@.len() == LOCALE_COUNT,
            forall|i: int| 0 <= i < LOCALE_COUNT ==> #[trigger] t@[i] == Map::<Seq<char>, Seq<char>>::empty(),
    {
        let mut tables: Vec<StringHashMap<String>> = Vec::new();
        let mut i: usize = 0;
        while i < LOCALE_COUNT
            invariant
                i <= LOCALE_COUNT,
                tables@.len() == i,
                forall|j: int| 0 <= j < i ==> #[trigger] tables@[j]@ == Map::<Seq<char>, String>::empty(),
            decreases LOCALE_COUNT - i,
        {
            tables.push(StringHashMap::new());
            i = i + 1;
        }
        let t = Translations { tables };
        assert forall|i: int| 0 <= i < LOCALE_COUNT implies #[trigger] t@[i] == Map::<Seq<char>, Seq<char>>::empty() by {
            assert(t@[i] =~= Map::<Seq<char>, Seq<char>>::empty());
        }
        t
    }

    /// Stores `value` under `key` in the table of `locale`.
    fn insert(&mut self, locale: Locale, key: String, value: String)
        ensures
            final(self)@ == with_table(old(self)@, locale, locale_table(old(self)@, locale).insert(key@, value@)),
    {
        proof {
            use_type_invariant(&*self);
            lemma_locale_index(locale);
        }
        let i = locale.index();
        let ghost before = self.tables@[i as int]@;
        self.tables[i].insert(key, value);
        proof {
            assert(self.tables@[i as int]@.map_values(|s: String| s@) =~= before.map_values(
                |s: String| s@,
            ).insert(key@, value@));
            assert(self@ =~= with_table(old(self)@, locale, locale_table(old(self)@, locale).insert(key@, value@)));
        }
    }

    /// The text stored under `key` in the table of `locale`, if any.
    fn lookup(&self, locale: Locale, key: &str) -> (r: Option<&String>)
        ensures
            match r {
                Some(v) => locale_table(self@, locale).contains_key(key@)
                    && v@ == locale_table(self@, locale)[key@],
                None => !locale_table(self@, locale).contains_key(key@),
            },
    {
        proof {
            use_type_invariant(self);
            lemma_locale_index(locale);
        }
        let i = locale.index();
        self.tables[i].get(key)
    }

    /// Stores each entry of `pairs` in order in the table of `locale`, under
    /// the key that `style` makes of `namespace` and its own key.
    fn insert_all(&mut self, locale: Locale, style: KeyStyle, namespace: &str, pairs: &Vec<(String, String)>)
        ensures
            final(self)@ == with_table(
                old(self)@,
                locale,
                insert_entries(
                    locale_table(old(self)@, locale),
                    pairs.deep_view(),
                    |k: Seq<char>| styled_key(style, namespace@, k),
                    pairs@.len() as int,
                ),
            ),
    {
        let ghost f = |k: Seq<char>| styled_key(style, namespace@, k);
        let ghost start = locale_table(self@, locale);
        let ghost start_all = self@;
        proof {
            lemma_locale_index(locale);
            assert(self@ =~= with_table(start_all, locale, insert_entries(start, pairs.deep_view(), f, 0)));
        }
        let n = pairs.len();
        let mut i: usize = 0;
        while i < n
            invariant
                n == pairs@.len(),
                i <= n,
                f == (|k: Seq<char>| styled_key(style, namespace@, k)),
                self@ == with_table(start_all, locale, insert_entries(start, pairs.deep_view(), f, i as int)),
                start == locale_table(start_all, locale),
                start_all.len() == LOCALE_COUNT,
            decreases n - i,
        {
            proof { lemma_locale_index(locale); }
            let key = make_key(style, namespace, pairs[i].0.as_str());
            let value = pairs[i].1.clone();
            self.insert(locale, key, value);
            proof {
                assert(self@ =~= with_table(start_all, locale, insert_entries(start, pairs.deep_view(), f, i + 1)));
            }
            i = i + 1;
        }
    }

    /// Stores bundled entries for `locale`, each under `namespace:key` (the
    /// key keeps its case), in order.
    pub fn insert_bundled_entries(&mut self, locale: Locale, namespace: &str, pairs: &Vec<(String, String)>)
        ensures
            final(self)@ == with_table(
                old(self)@,
                locale,
                insert_entries(
                    locale_table(old(self)@, locale),
                    pairs.deep_view(),
                    |k: Seq<char>| namespaced(namespace@, k),
                    pairs@.len() as int,
                ),
            ),
    {
        self.insert_all(locale, KeyStyle::Namespaced, namespace, pairs);
        proof {
            assert((|k: Seq<char>| styled_key(KeyStyle::Namespaced, namespace@, k)) =~= (|k: Seq<char>|
                namespaced(namespace@, k)));
        }
    }

    /// Reads a bundled JSON object of texts for `locale` and stores each
    /// entry under `namespace:key` (the key keeps its case). Nothing is stored
    /// when the text is not such an object.
    pub fn register_bundled(&mut self, locale: Locale, namespace: &str, json: &str)
        ensures
            match json_string_map(json@) {
                Some(pairs) => final(self)@ == with_table(
                    old(self)@,
                    locale,
                    insert_entries(
                        locale_table(old(self)@, locale),
                        pairs,
                        |k: Seq<char>| namespaced(namespace@, k),
                        pairs.len() as int,
                    ),
                ),
                None => final(self)@ == old(self)@,
            },
    {
        match parse_string_map(json) {
            None => {},
            Some(pairs) => self.insert_bundled_entries(locale, namespace, &pairs),
        }
    }
}

/// How the stored key is made of a namespace and an entry's key.
#[derive(Clone, Copy)]
enum KeyStyle {
    /// `namespace:key`.
    Namespaced,
    /// `namespace:key`, lowercased.
    Lowercased,
    /// The vanilla key.
    Vanilla,
}

/// The stored key in a style.
spec fn styled_key(style: KeyStyle, namespace: Seq<char>, key: Seq<char>) -> Seq<char> {
    match style {
        KeyStyle::Namespaced => namespaced(namespace, key),
        KeyStyle::Lowercased => lowercase(namespaced(namespace, key)),
        KeyStyle::Vanilla => vanilla_key(key),
    }
}

/// The stored key in a style, as a new string.
fn make_key(style: KeyStyle, namespace: &str, key: &str) -> (r: String)
    ensures
        r@ == styled_key(style, namespace@, key@),
{
    match style {
        KeyStyle::Namespaced => namespaced_key(namespace, key),
        KeyStyle::Lowercased => {
            let joined = namespaced_key(namespace, key);
            to_lowercase(joined.as_str())
        },
        KeyStyle::Vanilla => {
            if contains_char(key, ':') {
                to_lowercase(key)
            } else {
                let joined = namespaced_key("minecraft", key);
                to_lowercase(joined.as_str())
            }
        },
    }
}

/// Adds or overrides a single translation: `translation` is stored in the
/// table of `locale` under the lowercased `namespace:key`.
pub fn add_translation(
    translations: &mut Translations,
    namespace: &str,
    key: &str,
    translation: &str,
    locale: Locale,
)
    ensures
        final(translations)@ == with_table(
            old(translations)@,
            locale,
            locale_table(old(translations)@, locale).insert(
                lowercase(namespaced(namespace@, key@)),
                translation@,
            ),
        ),
        final(translations)@ == apply_writes(
            old(translations)@,
            seq![(locale, lowercase(namespaced(namespace@, key@)), translation@)],
        ),
{
    let joined = namespaced_key(namespace, key);
    let lowered = to_lowercase(joined.as_str());
    translations.insert(locale, lowered, translation.to_owned());
    proof {
        let w = seq![(locale, lowercase(namespaced(namespace@, key@)), translation@)];
        assert(w.drop_last() =~= Seq::<(Locale, Seq<char>, Seq<char>)>::empty());
        assert(apply_writes(old(translations)@, w.drop_last()) == old(translations)@);
        assert(w.last() == (locale, lowercase(namespaced(namespace@, key@)), translation@));
    }
}

/// Stores entries in the table of `locale`, each under the lowercased
/// `namespace:key`, in order.
pub fn insert_translation_entries(
    translations: &mut Translations,
    namespace: &str,
    pairs: &Vec<(String, String)>,
    locale: Locale,
)
    ensures
        final(translations)@ == with_table(
            old(translations)@,
            locale,
            insert_entries(
                locale_table(old(translations)@, locale),
                pairs.deep_view(),
                |k: Seq<char>| lowercase(namespaced(namespace@, k)),
                pairs@.len() as int,
            ),
        ),
{
    translations.insert_all(locale, KeyStyle::Lowercased, namespace, pairs);
    proof {
        assert((|k: Seq<char>| styled_key(KeyStyle::Lowercased, namespace@, k)) =~= (|k: Seq<char>|
            lowercase(namespaced(namespace@, k))));
    }
}

/// Reads a JSON object of texts and stores each entry in the table of
/// `locale` under the lowercased `namespace:key`, in key order. Nothing is
/// stored when the text is not such an object or holds no entry.
pub fn add_translation_file(
    translations: &mut Translations,
    namespace: &str,
    json: &str,
    locale: Locale,
)
    ensures
        match json_string_map(json@) {
            Some(pairs) => final(translations)@ == if pairs.len() == 0 {
                old(translations)@
            } else {
                with_table(
                    old(translations)@,
                    locale,
                    insert_entries(
                        locale_table(old(translations)@, locale),
                        pairs,
                        |k: Seq<char>| lowercase(namespaced(namespace@, k)),
                        pairs.len() as int,
                    ),
                )
            },
            None => final(translations)@ == old(translations)@,
        },
{
    match parse_string_map(json) {
        None => {},
        Some(pairs) => {
            if pairs.len() == 0 {
                return;
            }
            insert_translation_entries(translations, namespace, &pairs, locale);
        },
    }
}

/// Stores vanilla `en_us` entries in the `en_us` table, each under its
/// vanilla key, in order.
pub fn insert_vanilla_entries(translations: &mut Translations, pairs: &Vec<(String, String)>)
    ensures
        final(translations)@ == with_table(
            old(translations)@,
            Locale::EnUs,
            insert_entries(
                locale_table(old(translations)@, Locale::EnUs),
                pairs.deep_view(),
                |k: Seq<char>| vanilla_key(k),
                pairs@.len() as int,
            ),
        ),
{
    translations.insert_all(Locale::EnUs, KeyStyle::Vanilla, "", pairs);
    proof {
        assert((|k: Seq<char>| styled_key(KeyStyle::Vanilla, ""@, k)) =~= (|k: Seq<char>| vanilla_key(k)));
    }
}

/// Reads the vanilla `en_us` language file (a JSON object of texts) and
/// stores each entry in the `en_us` table under its vanilla key. A text that
/// is not such an object stores nothing.
pub fn init_vanilla_translations(translations: &mut Translations, en_us_json: &str)
    ensures
        match json_string_map(en_us_json@) {
            Some(pairs) => final(translations)@ == with_table(
                old(translations)@,
                Locale::EnUs,
                insert_entries(
                    locale_table(old(translations)@, Locale::EnUs),
                    pairs,
                    |k: Seq<char>| vanilla_key(k),
                    pairs.len() as int,
                ),
            ),
            None => final(translations)@ == old(translations)@,
        },
{
    match parse_string_map(en_us_json) {
        None => {},
        Some(pairs) => insert_vanilla_entries(translations, &pairs),
    }
}

/// The translation of `key` for `locale`: the key is lowercased and looked
/// up in the locale's table, then in the `en_us` table; when neither holds
/// it, the lowercased key itself is the answer.
pub fn get_translation(translations: &Translations, key: &str, locale: Locale) -> (r: String)
    ensures
        r@ == translation_lookup(translations@, key@, locale),
{
    let lowered = to_lowercase(key);
    match translations.lookup(locale, lowered.as_str()) {
        Some(v) => v.clone(),
        None => match translations.lookup(Locale::EnUs, lowered.as_str()) {
            Some(v) => v.clone(),
            None => lowered,
        },
    }
}

/// A translation that was just added is what a lookup gives back in its
/// locale, for every key that lowercases to the same text as `namespace:key`.
pub proof fn law_lookup_after_add(
    tables: Seq<Map<Seq<char>, Seq<char>>>,
    namespace: Seq<char>,
    key: Seq<char>,
    text: Seq<char>,
    locale: Locale,
    query: Seq<char>,
)
    requires
        tables.len() == LOCALE_COUNT,
        lowercase(query) == lowercase(namespaced(namespace, key)),
    ensures
        translation_lookup(
            with_table(tables, locale, locale_table(tables, locale).insert(lowercase(namespaced(namespace, key)), text)),
            query,
            locale,
        ) == text,
{
    lemma_locale_index(locale);
}

/// A translation added to `en_us` is what every other locale gives back for
/// that key while its own table lacks the key.
pub proof fn law_en_us_fallback_after_add(
    tables: Seq<Map<Seq<char>, Seq<char>>>,
    namespace: Seq<char>,
    key: Seq<char>,
    text: Seq<char>,
    locale: Locale,
    query: Seq<char>,
)
    requires
        tables.len() == LOCALE_COUNT,
        lowercase(query) == lowercase(namespaced(namespace, key)),
        !locale_table(tables, locale).contains_key(lowercase(query)),
    ensures
        translation_lookup(
            with_table(tables, Locale::EnUs, locale_table(tables, Locale::EnUs).insert(lowercase(namespaced(namespace, key)), text)),
            query,
            locale,
        ) == text,
{
    lemma_locale_index(locale);
    lemma_locale_index(Locale::EnUs);
    if locale != Locale::EnUs {
        assert(locale_index(locale) != locale_index(Locale::EnUs));
    }
}

/// Adding a translation for a locale other than `en_us` changes no lookup in
/// any other locale.
pub proof fn law_add_is_local(
    tables: Seq<Map<Seq<char>, Seq<char>>>,
    namespace: Seq<char>,
    key: Seq<char>,
    text: Seq<char>,
    locale: Locale,
    other: Locale,
    query: Seq<char>,
)
    requires
        tables.len() == LOCALE_COUNT,
        locale != other,
        locale != Locale::EnUs,
    ensures
        translation_lookup(
            with_table(tables, locale, locale_table(tables, locale).insert(lowercase(namespaced(namespace, key)), text)),
            query,
            other,
        ) == translation_lookup(tables, query, other),
{
    lemma_locale_index(locale);
    lemma_locale_index(other);
    lemma_locale_index(Locale::EnUs);
    assert(locale_index(locale) != locale_index(other));
    assert(locale_index(locale) != locale_index(Locale::EnUs));
}

/// Writes none of which stores `k` in the table of `locale` keep the number
/// of tables and the entry of `k` there.
proof fn lemma_writes_keep_entry(
    tables: Seq<Map<Seq<char>, Seq<char>>>,
    writes: Seq<(Locale, Seq<char>, Seq<char>)>,
    locale: Locale,
    k: Seq<char>,
)
    requires
        tables.len() == LOCALE_COUNT,
        forall|i: int| 0 <= i < writes.len() ==> !(#[trigger] writes[i].0 == locale && writes[i].1 == k),
    ensures
        apply_writes(tables, writes).len() == LOCALE_COUNT,
        locale_table(apply_writes(tables, writes), locale).contains_key(k) == locale_table(tables, locale).contains_key(k),
        locale_table(apply_writes(tables, writes), locale)[k] == locale_table(tables, locale)[k],
    decreases writes.len(),
{
    lemma_locale_index(locale);
    if writes.len() > 0 {
        let prev = writes.drop_last();
        assert forall|i: int| 0 <= i < prev.len() implies !(#[trigger] prev[i].0 == locale && prev[i].1 == k) by {
            assert(prev[i] == writes[i]);
        }
        lemma_writes_keep_entry(tables, prev, locale, k);
        let w = writes.last();
        assert(!(writes[writes.len() - 1].0 == locale && writes[writes.len() - 1].1 == k));
        lemma_locale_index(w.0);
        if w.0 != locale {
            assert(locale_index(w.0) != locale_index(locale));
        }
    }
}

/// A translation added under `namespace:key` is what every later lookup in
/// its locale gives, for any query that lowercases to the same text as
/// `namespace:key`, through any run of later writes none of which stores that
/// key in that locale again.
pub proof fn law_lookup_after_add_until_rewritten(
    tables: Seq<Map<Seq<char>, Seq<char>>>,
    namespace: Seq<char>,
    key: Seq<char>,
    text: Seq<char>,
    locale: Locale,
    writes: Seq<(Locale, Seq<char>, Seq<char>)>,
    query: Seq<char>,
)
    requires
        tables.len() == LOCALE_COUNT,
        lowercase(query) == lowercase(namespaced(namespace, key)),
        forall|i: int|
            0 <= i < writes.len() ==> !(#[trigger] writes[i].0 == locale && writes[i].1 == lowercase(
                namespaced(namespace, key),
            )),
    ensures
        translation_lookup(
            apply_writes(
                with_table(tables, locale, locale_table(tables, locale).insert(lowercase(namespaced(namespace, key)), text)),
                writes,
            ),
            query,
            locale,
        ) == text,
{
    lemma_locale_index(locale);
    let added = with_table(tables, locale, locale_table(tables, locale).insert(lowercase(namespaced(namespace, key)), text));
    lemma_writes_keep_entry(added, writes, locale, lowercase(namespaced(namespace, key)));
}

/// Storing entries in the table of a locale, as the loading functions do, is
/// the run of single writes of those entries in order.
pub proof fn law_entries_are_writes(
    tables: Seq<Map<Seq<char>, Seq<char>>>,
    locale: Locale,
    pairs: Seq<(Seq<char>, Seq<char>)>,
    f: spec_fn(Seq<char>) -> Seq<char>,
    n: int,
)
    requires
        tables.len() == LOCALE_COUNT,
        0 <= n <= pairs.len(),
    ensures
        with_table(tables, locale, insert_entries(locale_table(tables, locale), pairs, f, n)) == apply_writes(
            tables,
            entry_writes(locale, pairs, f, n),
        ),
    decreases n,
{
    lemma_locale_index(locale);
    let ws = entry_writes(locale, pairs, f, n);
    if n == 0 {
        assert(with_table(tables, locale, locale_table(tables, locale)) =~= tables);
    } else {
        law_entries_are_writes(tables, locale, pairs, f, n - 1);
        assert(ws.drop_last() =~= entry_writes(locale, pairs, f, n - 1));
        let m = insert_entries(locale_table(tables, locale), pairs, f, n - 1);
        let t = with_table(tables, locale, m);
        assert(locale_table(t, locale) == m);
        assert(with_table(t, locale, m.insert(f(pairs[n - 1].0), pairs[n - 1].1)) =~= with_table(
            tables,
            locale,
            m.insert(f(pairs[n - 1].0), pairs[n - 1].1),
        ));
    }
}

/// `namespace:key` as a new string.
fn namespaced_key(namespace: &str, key: &str) -> (r: String)
    ensures
        r@ == namespaced(namespace@, key@),
{
    let mut s = namespace.to_owned();
    let colon = ":";
    proof {
        reveal_strlit(":");
    }
    s.append(colon);
    s.append(key);
    s
}

} // verus!
