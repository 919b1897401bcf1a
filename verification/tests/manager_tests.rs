use pumpkin_assets::manager::{
    digest_matches, normalize_entry_name, AssetManager, EnsureAction, EnsureEvent, EnsureState, VersionEntry, VersionManifest,
    VersionMeta, EULA_MESSAGE, MC_VERSION, MISSING_SHA1_MESSAGE, MISSING_URL_MESSAGE,
    MISSING_VERSIONS_MESSAGE, VERSION_MANIFEST_URL, VERSION_NOT_FOUND_MESSAGE,
};
use pumpkin_assets::path::AssetPath;

fn manager() -> AssetManager {
    AssetManager::new(&AssetPath::from_text("/srv"))
}

fn entry(id: Option<&str>, url: Option<&str>) -> VersionEntry {
    VersionEntry { id: id.map(|s| s.to_string()), url: url.map(|s| s.to_string()) }
}

fn done_err(a: &EnsureAction) -> Option<String> {
    match a {
        EnsureAction::Done(Err(e)) => Some(e.clone()),
        _ => None,
    }
}

#[test]
fn cache_layout() {
    let m = manager();
    assert_eq!(m.cache_root().as_text(), "/srv/assets/minecraft_assets");
    assert_eq!(m.jar_cache_path().as_text(), "/srv/assets/minecraft_assets/client.jar");
    assert_eq!(
        m.cached_marker_path().as_text(),
        "/srv/assets/minecraft_assets/assets/minecraft/lang/en_us.json"
    );
}

#[test]
fn extracted_entries() {
    let m = manager();
    let dest = |n: &str| m.extract_destination(n).map(|p| p.as_text().to_string());
    assert_eq!(
        dest("assets/minecraft/lang/en_us.json").as_deref(),
        Some("/srv/assets/minecraft_assets/assets/minecraft/lang/en_us.json")
    );
    assert_eq!(
        dest("data/minecraft/worldgen/a.json?x=1").as_deref(),
        Some("/srv/assets/minecraft_assets/data/minecraft/worldgen/a.json")
    );
    assert_eq!(
        dest("data/minecraft/loot_tables/chests///").as_deref(),
        Some("/srv/assets/minecraft_assets/data/minecraft/loot_tables/chests")
    );
    assert_eq!(dest("data/minecraft/structures/"), None);
    assert_eq!(dest("assets/minecraft/textures/x.png"), None);
    assert_eq!(dest("net/minecraft/Main.class"), None);
}

#[test]
fn cached_assets_need_nothing() {
    let m = manager();
    let (s, a) = m.ensure_step(EnsureState::Idle, EnsureEvent::Start { cached: true, eula_accepted: false });
    assert!(matches!(s, EnsureState::Finished));
    assert!(matches!(a, EnsureAction::Done(Ok(()))));
}

#[test]
fn eula_must_be_accepted() {
    let m = manager();
    let (_, a) = m.ensure_step(EnsureState::Idle, EnsureEvent::Start { cached: false, eula_accepted: false });
    assert_eq!(done_err(&a).as_deref(), Some(EULA_MESSAGE));
    assert!(EULA_MESSAGE.starts_with("You must accept the Minecraft EULA"));
}

#[test]
fn manifest_is_fetched_first() {
    let m = manager();
    let (s, a) = m.ensure_step(EnsureState::Idle, EnsureEvent::Start { cached: false, eula_accepted: true });
    assert!(matches!(s, EnsureState::AwaitingManifest));
    match a {
        EnsureAction::FetchManifest(u) => assert_eq!(u, VERSION_MANIFEST_URL),
        _ => panic!("expected a manifest fetch"),
    }
}

#[test]
fn version_is_looked_up_in_the_manifest() {
    let m = manager();
    assert_eq!(MC_VERSION, "26.1.2");
    let manifest = VersionManifest {
        versions: Some(vec![
            entry(Some("1.0"), Some("u1")),
            entry(Some("26.1.2"), None),
            entry(None, Some("u0")),
            entry(Some("26.1.2"), Some("u2")),
            entry(Some("26.1.2"), Some("u3")),
        ]),
    };
    let (s, a) = m.ensure_step(EnsureState::AwaitingManifest, EnsureEvent::ManifestFetched(Ok(manifest)));
    assert!(matches!(s, EnsureState::AwaitingVersion));
    match a {
        EnsureAction::FetchVersion(u) => assert_eq!(u, "u2"),
        _ => panic!("expected a version fetch"),
    }
}

#[test]
fn manifest_errors() {
    let m = manager();
    let (_, a) = m.ensure_step(
        EnsureState::AwaitingManifest,
        EnsureEvent::ManifestFetched(Ok(VersionManifest { versions: None })),
    );
    assert_eq!(done_err(&a).as_deref(), Some(MISSING_VERSIONS_MESSAGE));
    let (_, a) = m.ensure_step(
        EnsureState::AwaitingManifest,
        EnsureEvent::ManifestFetched(Ok(VersionManifest { versions: Some(vec![entry(Some("1.0"), Some("u"))]) })),
    );
    assert_eq!(done_err(&a).as_deref(), Some(VERSION_NOT_FOUND_MESSAGE));
    let (_, a) = m.ensure_step(
        EnsureState::AwaitingManifest,
        EnsureEvent::ManifestFetched(Err("Failed to fetch version manifest: offline".to_string())),
    );
    assert_eq!(done_err(&a).as_deref(), Some("Failed to fetch version manifest: offline"));
}

#[test]
fn metadata_names_the_jar() {
    let m = manager();
    let meta = VersionMeta { client_sha1: Some("abc".to_string()), client_url: Some("https://x/client.jar".to_string()) };
    let (s, a) = m.ensure_step(EnsureState::AwaitingVersion, EnsureEvent::VersionFetched(Ok(meta)));
    match s {
        EnsureState::AwaitingDownload { sha1 } => assert_eq!(sha1, "abc"),
        _ => panic!("expected to wait for the download"),
    }
    match a {
        EnsureAction::Download { url, dest } => {
            assert_eq!(url, "https://x/client.jar");
            assert_eq!(dest.as_text(), "/srv/assets/minecraft_assets/client.jar");
        },
        _ => panic!("expected a download"),
    }
}

#[test]
fn metadata_errors() {
    let m = manager();
    let meta = VersionMeta { client_sha1: None, client_url: None };
    let (_, a) = m.ensure_step(EnsureState::AwaitingVersion, EnsureEvent::VersionFetched(Ok(meta)));
    assert_eq!(done_err(&a).as_deref(), Some(MISSING_SHA1_MESSAGE));
    let meta = VersionMeta { client_sha1: Some("a".to_string()), client_url: None };
    let (_, a) = m.ensure_step(EnsureState::AwaitingVersion, EnsureEvent::VersionFetched(Ok(meta)));
    assert_eq!(done_err(&a).as_deref(), Some(MISSING_URL_MESSAGE));
}

#[test]
fn downloaded_jar_is_read_then_checked() {
    let m = manager();
    let (s, a) = m.ensure_step(
        EnsureState::AwaitingDownload { sha1: "a9993e364706816aba3e25717850c26c9cd0d89d".to_string() },
        EnsureEvent::JarDownloaded(Ok(())),
    );
    assert!(matches!(a, EnsureAction::ReadJar(_)));
    let (s, a) = m.ensure_step(s, EnsureEvent::JarRead(Ok(b"abc".to_vec())));
    assert!(matches!(s, EnsureState::AwaitingExtraction));
    match a {
        EnsureAction::Extract(p) => assert_eq!(p.as_text(), "/srv/assets/minecraft_assets/client.jar"),
        _ => panic!("expected an extraction"),
    }
    let (s, a) = m.ensure_step(s, EnsureEvent::JarExtracted(Ok(())));
    assert!(matches!(s, EnsureState::Finished));
    assert!(matches!(a, EnsureAction::Done(Ok(()))));
}

#[test]
fn digest_mismatch_is_reported() {
    let m = manager();
    let (_, a) = m.ensure_step(
        EnsureState::AwaitingJar { sha1: "00".to_string() },
        EnsureEvent::JarRead(Ok(b"abc".to_vec())),
    );
    assert_eq!(
        done_err(&a).as_deref(),
        Some("SHA1 mismatch for \"/srv/assets/minecraft_assets/client.jar\": expected 00, got a9993e364706816aba3e25717850c26c9cd0d89d")
    );
}

#[test]
fn digest_of_empty_jar() {
    let m = manager();
    let (s, _) = m.ensure_step(
        EnsureState::AwaitingJar { sha1: "da39a3ee5e6b4b0d3255bfef95601890afd80709".to_string() },
        EnsureEvent::JarRead(Ok(Vec::new())),
    );
    assert!(matches!(s, EnsureState::AwaitingExtraction));
}

#[test]
fn reported_errors_stop_the_download() {
    let m = manager();
    let (s, a) = m.ensure_step(
        EnsureState::AwaitingExtraction,
        EnsureEvent::JarExtracted(Err("Zip entry error: bad".to_string())),
    );
    assert!(matches!(s, EnsureState::Finished));
    assert_eq!(done_err(&a).as_deref(), Some("Zip entry error: bad"));
    let (_, a) = m.ensure_step(
        EnsureState::AwaitingJar { sha1: "x".to_string() },
        EnsureEvent::JarRead(Err("Failed to read".to_string())),
    );
    assert_eq!(done_err(&a).as_deref(), Some("Failed to read"));
}

#[test]
fn digest_is_compared_in_lowercase_hex() {
    assert!(digest_matches(&[0xab, 0x01], "ab01"));
    assert!(!digest_matches(&[0xab, 0x01], "AB01"));
    assert!(digest_matches(&[], ""));
    assert!(!digest_matches(&[0], "0"));
}

#[test]
fn entry_names_lose_query_and_trailing_slashes() {
    assert_eq!(normalize_entry_name("a/b?x=1/"), "a/b");
    assert_eq!(normalize_entry_name("a/b//"), "a/b");
    assert_eq!(normalize_entry_name("?x"), "");
}
