use pumpkin_assets::locale::Locale;
use pumpkin_assets::substitution::{
    get_translation_text, reorder_substitutions, substitution_fits, translation_to_pretty,
    try_get_translation_text, try_translation_to_pretty, SubstitutionRange,
};
use pumpkin_assets::translation::{
    add_translation, add_translation_file, get_translation, init_vanilla_translations,
    insert_translation_entries, insert_vanilla_entries, Translations,
};

fn strings(v: &[&str]) -> Vec<String> {
    v.iter().map(|s| s.to_string()).collect()
}

fn range(start: usize, end: usize) -> SubstitutionRange {
    SubstitutionRange { start, end }
}

#[test]
fn locale_count_and_positions() {
    assert_eq!(Locale::COUNT, 128);
    assert_eq!(Locale::AfZa.index(), 0);
    assert_eq!(Locale::EnUs.index(), 25);
    assert_eq!(Locale::ZlmArab.index(), 127);
    assert_eq!(Locale::from_index(25), Locale::EnUs);
}

#[test]
fn locale_from_name_ignores_case_and_defaults_to_en_us() {
    assert_eq!(Locale::from_name("de_de"), Locale::DeDe);
    assert_eq!(Locale::from_name("DE_DE"), Locale::DeDe);
    assert_eq!(Locale::from_name("Zh_Cn"), Locale::ZhCn);
    assert_eq!(Locale::from_name("zlm_arab"), Locale::ZlmArab);
    assert_eq!(Locale::from_name("en_us"), Locale::EnUs);
    assert_eq!(Locale::from_name("xx_yy"), Locale::EnUs);
    assert_eq!(Locale::from_name(""), Locale::EnUs);
    assert_eq!("fr_FR".parse::<Locale>(), Ok(Locale::FrFr));
}

#[test]
fn every_locale_name_parses_back() {
    for i in 0..Locale::COUNT {
        let l = Locale::from_index(i);
        assert_eq!(Locale::from_name(l.name()), l);
        assert_eq!(l.index(), i);
    }
}

#[test]
fn added_translation_is_found_case_insensitively() {
    let mut t = Translations::new();
    add_translation(&mut t, "Pumpkin", "Hello.World", "Hi", Locale::EnUs);
    assert_eq!(get_translation(&t, "pumpkin:hello.world", Locale::EnUs), "Hi");
    assert_eq!(get_translation(&t, "PUMPKIN:HELLO.WORLD", Locale::EnUs), "Hi");
}

#[test]
fn lookup_falls_back_to_en_us_then_to_the_key() {
    let mut t = Translations::new();
    add_translation(&mut t, "pumpkin", "greet", "Hello", Locale::EnUs);
    add_translation(&mut t, "pumpkin", "greet", "Hallo", Locale::DeDe);
    assert_eq!(get_translation(&t, "pumpkin:greet", Locale::DeDe), "Hallo");
    assert_eq!(get_translation(&t, "pumpkin:greet", Locale::FrFr), "Hello");
    assert_eq!(get_translation(&t, "Missing:Key", Locale::FrFr), "missing:key");
}

#[test]
fn adding_to_one_locale_leaves_others() {
    let mut t = Translations::new();
    add_translation(&mut t, "a", "b", "x", Locale::JaJp);
    assert_eq!(get_translation(&t, "a:b", Locale::KoKr), "a:b");
    add_translation(&mut t, "a", "b", "y", Locale::JaJp);
    assert_eq!(get_translation(&t, "a:b", Locale::JaJp), "y");
}

#[test]
fn translation_file_is_namespaced_and_lowercased() {
    let mut t = Translations::new();
    add_translation_file(&mut t, "NS", r#"{"B":"two","a":"one"}"#, Locale::FrFr);
    assert_eq!(get_translation(&t, "ns:a", Locale::FrFr), "one");
    assert_eq!(get_translation(&t, "ns:b", Locale::FrFr), "two");
    assert_eq!(get_translation(&t, "ns:a", Locale::EnUs), "ns:a");
}

#[test]
fn bad_translation_file_stores_nothing() {
    let mut t = Translations::new();
    add_translation_file(&mut t, "ns", "not json", Locale::EnUs);
    add_translation_file(&mut t, "ns", r#"{"a": 1}"#, Locale::EnUs);
    add_translation_file(&mut t, "ns", "{}", Locale::EnUs);
    assert_eq!(get_translation(&t, "ns:a", Locale::EnUs), "ns:a");
}

#[test]
fn vanilla_keys_get_the_minecraft_namespace() {
    let mut t = Translations::new();
    init_vanilla_translations(&mut t, r#"{"block.minecraft.Stone":"Stone","custom:Key":"X"}"#);
    assert_eq!(get_translation(&t, "minecraft:block.minecraft.stone", Locale::EnUs), "Stone");
    assert_eq!(get_translation(&t, "custom:key", Locale::DeDe), "X");
    assert_eq!(get_translation(&t, "block.minecraft.stone", Locale::EnUs), "block.minecraft.stone");
}

#[test]
fn vanilla_file_that_does_not_parse_stores_nothing() {
    let mut t = Translations::new();
    init_vanilla_translations(&mut t, "");
    assert_eq!(get_translation(&t, "minecraft:a", Locale::EnUs), "minecraft:a");
}

#[test]
fn bundled_keys_keep_their_case() {
    let mut t = Translations::new();
    t.register_bundled(Locale::DeDe, "pumpkin", r#"{"greeting":"Hallo","Shout":"HALLO"}"#);
    assert_eq!(get_translation(&t, "pumpkin:greeting", Locale::DeDe), "Hallo");
    // Lookups lowercase the key, so a key bundled with capitals is not found.
    assert_eq!(get_translation(&t, "pumpkin:Shout", Locale::DeDe), "pumpkin:shout");
}

#[test]
fn plain_placeholders_keep_the_arguments() {
    let (subs, ranges) = reorder_substitutions("Hello %s and %s", strings(&["A", "B", "C"]));
    assert_eq!(subs, strings(&["A", "B", "C"]));
    assert_eq!(ranges, vec![range(6, 7), range(13, 14)]);
}

#[test]
fn numbered_placeholders_pick_their_argument() {
    let (subs, ranges) = reorder_substitutions("%2$s loves %1$s", strings(&["X", "Y"]));
    assert_eq!(subs, strings(&["Y", "X"]));
    assert_eq!(ranges, vec![range(0, 3), range(11, 14)]);
}

#[test]
fn numbered_placeholders_are_clamped() {
    let (subs, _) = reorder_substitutions("%0$s %9$s", strings(&["X", "Y"]));
    assert_eq!(subs, strings(&["X", "Y"]));
}

#[test]
fn bare_placeholders_take_arguments_in_turn_and_stay_on_the_last() {
    let (subs, ranges) = reorder_substitutions("%d %d %d %1$s", strings(&["a", "b"]));
    assert_eq!(subs, strings(&["a", "b", "b", "a"]));
    assert_eq!(ranges, vec![range(0, 1), range(3, 4), range(6, 7), range(9, 12)]);
}

#[test]
fn escaped_percent_is_not_a_placeholder() {
    let (subs, ranges) = reorder_substitutions("Escaped \\%s and %s", strings(&["A"]));
    assert_eq!(subs, strings(&["A"]));
    assert_eq!(ranges, vec![range(16, 17)]);
}

#[test]
fn oversized_number_gives_an_empty_text() {
    let (subs, ranges) = reorder_substitutions("%99999999999999999999999x", Vec::new());
    assert_eq!(subs, strings(&[""]));
    assert_eq!(ranges, vec![range(0, 25)]);
}

#[test]
fn substitution_range_len_and_emptiness() {
    assert_eq!(range(3, 7).len(), 5);
    assert_eq!(range(4, 4).len(), 1);
    assert!(range(4, 4).is_empty());
    assert!(!range(4, 5).is_empty());
}

fn table_with(text: &str) -> Translations {
    let mut t = Translations::new();
    add_translation(&mut t, "t", "k", text, Locale::EnUs);
    t
}

#[test]
fn pretty_fills_plain_placeholders() {
    let t = table_with("Hello %s and %s");
    assert_eq!(
        translation_to_pretty(&t, "t:k", Locale::EnUs, strings(&["A", "B"])),
        "Hello A and B"
    );
}

#[test]
fn pretty_with_fewer_arguments_repeats_the_last() {
    let t = table_with("%s, %s, %s!");
    assert_eq!(translation_to_pretty(&t, "t:k", Locale::EnUs, strings(&["x", "y"])), "x, y, y!");
}

#[test]
fn text_fills_numbered_placeholders() {
    let t = table_with("%2$s loves %1$s");
    assert_eq!(get_translation_text(&t, "t:k", Locale::EnUs, strings(&["X", "Y"])), "Y loves X");
}

#[test]
fn bare_placeholder_skips_the_following_character() {
    let t = table_with("%d items");
    assert_eq!(get_translation_text(&t, "t:k", Locale::EnUs, strings(&["5"])), "5 items");
}

#[test]
fn no_arguments_or_no_percent_leave_the_text() {
    let t = table_with("Plain %s");
    assert_eq!(translation_to_pretty(&t, "t:k", Locale::EnUs, Vec::new()), "Plain %s");
    let t = table_with("Plain");
    assert_eq!(translation_to_pretty(&t, "t:k", Locale::EnUs, strings(&["x"])), "Plain");
    assert_eq!(get_translation_text(&t, "T:K", Locale::DeDe, strings(&["x"])), "Plain");
}

#[test]
fn multibyte_text_around_placeholders() {
    let t = table_with("é%s ü");
    assert_eq!(translation_to_pretty(&t, "t:k", Locale::EnUs, strings(&["x"])), "éx ü");
}

#[test]
fn undefined_fillings_are_reported() {
    assert!(!substitution_fits("%%", 1));
    assert!(!substitution_fits("50%", 1));
    assert!(!substitution_fits("%é", 1));
    assert!(substitution_fits("50%", 0));
    assert!(substitution_fits("a %s", 1));
    let t = table_with("50%");
    assert_eq!(try_translation_to_pretty(&t, "t:k", Locale::EnUs, strings(&["x"])), None);
    assert_eq!(try_get_translation_text(&t, "t:k", Locale::EnUs, Vec::new()), Some("50%".to_string()));
    let t = table_with("a %s b");
    assert_eq!(
        try_get_translation_text(&t, "t:k", Locale::EnUs, strings(&["x"])),
        Some("a x b".to_string())
    );
}

fn pairs(v: &[(&str, &str)]) -> Vec<(String, String)> {
    v.iter().map(|(k, x)| (k.to_string(), x.to_string())).collect()
}

#[test]
fn entries_are_inserted_in_order() {
    let mut t = Translations::new();
    insert_translation_entries(&mut t, "Ns", &pairs(&[("K", "first"), ("k", "second")]), Locale::ItIt);
    assert_eq!(get_translation(&t, "ns:k", Locale::ItIt), "second");
    insert_vanilla_entries(&mut t, &pairs(&[("Item.Apple", "Apple"), ("x:Y", "Why")]));
    assert_eq!(get_translation(&t, "minecraft:item.apple", Locale::EnUs), "Apple");
    assert_eq!(get_translation(&t, "x:y", Locale::EnUs), "Why");
    t.insert_bundled_entries(Locale::PlPl, "pumpkin", &pairs(&[("Hi", "Cześć")]));
    assert_eq!(get_translation(&t, "pumpkin:hi", Locale::PlPl), "pumpkin:hi");
}

#[test]
fn added_translation_survives_unrelated_writes_until_rewritten() {
    let mut t = Translations::new();
    add_translation(&mut t, "pumpkin", "Greeting", "Hello", Locale::DeDe);
    add_translation(&mut t, "pumpkin", "farewell", "Bye", Locale::DeDe);
    add_translation(&mut t, "pumpkin", "greeting", "Hi", Locale::EnUs);
    insert_translation_entries(&mut t, "pumpkin", &pairs(&[("other", "x"), ("more", "y")]), Locale::DeDe);
    assert_eq!(get_translation(&t, "Pumpkin:GREETING", Locale::DeDe), "Hello");
    add_translation(&mut t, "PUMPKIN", "greeting", "Hallo", Locale::DeDe);
    assert_eq!(get_translation(&t, "pumpkin:greeting", Locale::DeDe), "Hallo");
}
