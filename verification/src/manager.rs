//! Downloading and extracting the vanilla client assets: where they go,
//! which archive entries are kept, and the decisions of the download steps.
use vstd::prelude::*;
use sha1::Digest;
use crate::path::{AssetPath, path_join};
use crate::text::{str_eq, starts_with};

verus! {

/// The Minecraft version whose assets are downloaded.
pub const MC_VERSION: &'static str = "26.1.2";

/// Where the list of versions is published.
pub const VERSION_MANIFEST_URL: &'static str = "https://piston-meta.mojang.com/mc/game/version_manifest_v2.json";

/// What SHA-1 gives for a byte sequence.
pub uninterp spec fn sha1_of(data: Seq<u8>) -> Seq<u8>;

/// Calls `sha1::Sha1::digest`: the contract names the digest `sha1_of` of the
/// bytes and states that it has 20 bytes (the hasher's output size).
#[verifier::external_body]
fn sha1_digest(data: &[u8]) -> (r: Vec<u8>)
    ensures
        r@ == sha1_of(data@),
        r@.len() == 20,
{
    sha1::Sha1::digest(data).to_vec()
}

/// What the `Debug` form of a `std::path::Path` is for a path's text.
pub uninterp spec fn debug_path(path: Seq<char>) -> Seq<char>;

/// Formats `std::path::Path::new(path)` with `{:?}`; the contract names the
/// result `debug_path` of the text and says nothing more about it.
#[verifier::external_body]
fn debug_path_text(path: &str) -> (r: String)
    ensures
        r@ == debug_path(path@),
{
    format!("{:?}", std::path::Path::new(path))
}

/// The lowercase hexadecimal digit of a value below 16.
pub open spec fn hex_digit(n: int) -> char {
    if n < 10 {
        (48 + n) as char
    } else {
        (87 + n) as char
    }
}

/// Two lowercase hexadecimal digits per byte.
pub open spec fn hex_lower(data: Seq<u8>) -> Seq<char>
    decreases data.len(),
{
    if data.len() == 0 {
        Seq::empty()
    } else {
        hex_lower(data.drop_last()) + seq![hex_digit(data.last() as int / 16), hex_digit(data.last() as int % 16)]
    }
}

/// The hexadecimal digit of a value below 16, as text.
fn hex_digit_text(n: u8) -> (s: &'static str)
    requires
        n < 16,
    ensures
        s@ == seq![hex_digit(n as int)],
{
    match n {
        0 => {
            proof { reveal_strlit("0"); }
            "0"
        },
        1 => {
            proof { reveal_strlit("1"); }
            "1"
        },
        2 => {
            proof { reveal_strlit("2"); }
            "2"
        },
        3 => {
            proof { reveal_strlit("3"); }
            "3"
        },
        4 => {
            proof { reveal_strlit("4"); }
            "4"
        },
        5 => {
            proof { reveal_strlit("5"); }
            "5"
        },
        6 => {
            proof { reveal_strlit("6"); }
            "6"
        },
        7 => {
            proof { reveal_strlit("7"); }
            "7"
        },
        8 => {
            proof { reveal_strlit("8"); }
            "8"
        },
        9 => {
            proof { reveal_strlit("9"); }
            "9"
        },
        10 => {
            proof { reveal_strlit("a"); }
            "a"
        },
        11 => {
            proof { reveal_strlit("b"); }
            "b"
        },
        12 => {
            proof { reveal_strlit("c"); }
            "c"
        },
        13 => {
            proof { reveal_strlit("d"); }
            "d"
        },
        14 => {
            proof { reveal_strlit("e"); }
            "e"
        },
        15 => {
            proof { reveal_strlit("f"); }
            "f"
        },
        _ => {
            proof { reveal_strlit("f"); }
            "f"
        },
    }
}

/// The bytes in lowercase hexadecimal.
fn to_hex_lower(data: &[u8]) -> (r: String)
    ensures
        r@ == hex_lower(data@),
{
    let mut s = String::new();
    let mut i: usize = 0;
    while i < data.len()
        invariant
            i <= data@.len(),
            s@ == hex_lower(data@.subrange(0, i as int)),
        decreases data@.len() - i,
    {
        let b = data[i];
        s.append(hex_digit_text(b / 16));
        s.append(hex_digit_text(b % 16));
        proof {
            let pre = data@.subrange(0, i + 1);
            assert(pre.drop_last() =~= data@.subrange(0, i as int));
            assert(pre.last() == b);
        }
        i = i + 1;
    }
    assert(data@.subrange(0, data@.len() as int) =~= data@);
    s
}

/// The position of the first `?` from position `i` on (the length when none).
pub open spec fn first_question_from(name: Seq<char>, i: int) -> int
    decreases name.len() - i,
{
    if i < 0 || i >= name.len() {
        name.len() as int
    } else if name[i] == '?' {
        i
    } else {
        first_question_from(name, i + 1)
    }
}

/// The text without its trailing `/` characters.
pub open spec fn trim_trailing_slashes(name: Seq<char>) -> Seq<char>
    decreases name.len(),
{
    if name.len() > 0 && name.last() == '/' {
        trim_trailing_slashes(name.drop_last())
    } else {
        name
    }
}

/// The name an archive entry is stored under: the text before any `?`,
/// without trailing `/`.
pub open spec fn entry_name(raw: Seq<char>) -> Seq<char> {
    trim_trailing_slashes(first_part(raw))
}

/// Whether a digest, in lowercase hexadecimal, is the expected text.
pub fn digest_matches(digest: &[u8], expected: &str) -> (r: bool)
    ensures
        r == (hex_lower(digest@) == expected@),
{
    let hex = to_hex_lower(digest);
    str_eq(hex.as_str(), expected)
}

/// The text before the first `?`.
pub open spec fn first_part(raw: Seq<char>) -> Seq<char> {
    raw.subrange(0, first_question_from(raw, 0))
}

/// `s` begins with `p`.
pub open spec fn has_prefix(s: Seq<char>, p: Seq<char>) -> bool {
    p.len() <= s.len() && s.subrange(0, p.len() as int) == p
}

/// The archive trees that are extracted.
pub open spec fn is_extracted(name: Seq<char>) -> bool {
    ||| has_prefix(name, "assets/minecraft/lang/"@)
    ||| has_prefix(name, "data/minecraft/loot_tables/"@)
    ||| has_prefix(name, "data/minecraft/structures/"@)
    ||| has_prefix(name, "data/minecraft/worldgen/"@)
}

/// The client jar's language files, loot tables, structures and worldgen
/// files are extracted, and nothing else: an entry is extracted exactly when
/// its name begins with `assets/minecraft/lang/`, `data/minecraft/loot_tables/`,
/// `data/minecraft/structures/` or `data/minecraft/worldgen/`.
pub proof fn law_extracted_trees(name: Seq<char>)
    ensures
        is_extracted(name) <==> ({
            let lang = "assets/minecraft/lang/"@;
            let loot = "data/minecraft/loot_tables/"@;
            let structures = "data/minecraft/structures/"@;
            let worldgen = "data/minecraft/worldgen/"@;
            ||| lang.len() <= name.len() && name.subrange(0, lang.len() as int) == lang
            ||| loot.len() <= name.len() && name.subrange(0, loot.len() as int) == loot
            ||| structures.len() <= name.len() && name.subrange(0, structures.len() as int) == structures
            ||| worldgen.len() <= name.len() && name.subrange(0, worldgen.len() as int) == worldgen
        }),
{
}

/// The name an archive entry is stored under.
pub fn normalize_entry_name(raw: &str) -> (r: &str)
    ensures
        r@ == entry_name(raw@),
{
    let n = raw.unicode_len();
    let mut i: usize = 0;
    while i < n && raw.get_char(i) != '?'
        invariant
            n == raw@.len(),
            i <= n,
            first_question_from(raw@, 0) == first_question_from(raw@, i as int),
        decreases n - i,
    {
        i = i + 1;
    }
    let first = raw.substring_char(0, i);
    proof {
        assert(first@.subrange(0, i as int) =~= first@);
    }
    let mut j: usize = i;
    while j > 0 && first.get_char(j - 1) == '/'
        invariant
            first@ == first_part(raw@),
            first@.len() == i,
            j <= i,
            trim_trailing_slashes(first@) == trim_trailing_slashes(first@.subrange(0, j as int)),
        decreases j,
    {
        proof {
            assert(first@.subrange(0, j as int).drop_last() =~= first@.subrange(0, j - 1));
        }
        j = j - 1;
    }
    first.substring_char(0, j)
}

/// Manages downloading and extracting the vanilla client assets.
pub struct AssetManager {
    cache_root: AssetPath,
}

impl View for AssetManager {
    type V = Seq<char>;

    closed spec fn view(&self) -> Seq<char> {
        self.cache_root@
    }
}

/// `server_root/assets/minecraft_assets`.
pub open spec fn cache_root_of(server_root: Seq<char>) -> Seq<char> {
    path_join(path_join(server_root, "assets"@), "minecraft_assets"@)
}

/// `cache_root/client.jar`.
pub open spec fn jar_path_of(cache_root: Seq<char>) -> Seq<char> {
    path_join(cache_root, "client.jar"@)
}

/// `cache_root/assets/minecraft/lang/en_us.json`, whose presence means the
/// assets were extracted.
pub open spec fn marker_path_of(cache_root: Seq<char>) -> Seq<char> {
    path_join(
        path_join(path_join(path_join(cache_root, "assets"@), "minecraft"@), "lang"@),
        "en_us.json"@,
    )
}

impl AssetManager {
    /// A manager rooted at `server_root`: everything it caches lives under
    /// `server_root/assets/minecraft_assets`.
    pub fn new(server_root: &AssetPath) -> (m: AssetManager)
        ensures
            m@ == cache_root_of(server_root@),
    {
        AssetManager { cache_root: server_root.join("assets").join("minecraft_assets") }
    }

    /// The cache root, under which the `assets/minecraft/` and
    /// `data/minecraft/` trees lie.
    pub fn cache_root(&self) -> (p: &AssetPath)
        ensures
            p@ == self@,
    {
        &self.cache_root
    }

    /// Where the client jar is cached.
    pub fn jar_cache_path(&self) -> (p: AssetPath)
        ensures
            p@ == jar_path_of(self@),
    {
        self.cache_root.join("client.jar")
    }

    /// The file whose presence means that the assets were extracted.
    pub fn cached_marker_path(&self) -> (p: AssetPath)
        ensures
            p@ == marker_path_of(self@),
    {
        self.cache_root.join("assets").join("minecraft").join("lang").join("en_us.json")
    }

    /// Where an archive entry of the client jar is extracted to, or `None`
    /// when it lies outside the extracted trees.
    pub fn extract_destination(&self, raw_name: &str) -> (r: Option<AssetPath>)
        ensures
            match r {
                Some(p) => is_extracted(entry_name(raw_name@)) && p@ == path_join(self@, entry_name(raw_name@)),
                None => !is_extracted(entry_name(raw_name@)),
            },
    {
        let name = normalize_entry_name(raw_name);
        if starts_with(name, "assets/minecraft/lang/") || starts_with(name, "data/minecraft/loot_tables/")
            || starts_with(name, "data/minecraft/structures/") || starts_with(name, "data/minecraft/worldgen/") {
            Some(self.cache_root.join(name))
        } else {
            None
        }
    }
}

/// The message given when the EULA was not accepted.
pub const EULA_MESSAGE: &'static str = "You must accept the Minecraft EULA to download Mojang assets. See https://www.minecraft.net/en-us/eula";

/// The message given when the version list has no `versions` array.
pub const MISSING_VERSIONS_MESSAGE: &'static str = "Invalid version manifest: missing 'versions' array";

/// The message given when the version list does not hold `MC_VERSION`.
pub const VERSION_NOT_FOUND_MESSAGE: &'static str = "Version 26.1.2 not found in Mojang manifest. Check https://piston-meta.mojang.com/mc/game/version_manifest_v2.json";

/// The message given when the version metadata has no client jar digest.
pub const MISSING_SHA1_MESSAGE: &'static str = "Client jar SHA1 not found in version metadata";

/// The message given when the version metadata has no client jar URL.
pub const MISSING_URL_MESSAGE: &'static str = "Client jar URL not found in version metadata";

/// The text of an optional string.
pub open spec fn opt_text(o: Option<String>) -> Option<Seq<char>> {
    match o {
        Some(s) => Some(s@),
        None => None,
    }
}

/// A version of the version list: its `id` and `url`, where they are strings.
pub struct VersionEntry {
    pub id: Option<String>,
    pub url: Option<String>,
}

/// The version list: its `versions` array, where there is one.
pub struct VersionManifest {
    pub versions: Option<Vec<VersionEntry>>,
}

/// The metadata of a version: the digest and URL of its client jar, where
/// they are strings.
pub struct VersionMeta {
    pub client_sha1: Option<String>,
    pub client_url: Option<String>,
}

/// A version as (id, url).
pub open spec fn entry_view(e: VersionEntry) -> (Option<Seq<char>>, Option<Seq<char>>) {
    (opt_text(e.id), opt_text(e.url))
}

/// The versions of a list, as (id, url).
pub open spec fn manifest_view(m: VersionManifest) -> Option<Seq<(Option<Seq<char>>, Option<Seq<char>>)>> {
    match m.versions {
        Some(v) => Some(v@.map_values(|e: VersionEntry| entry_view(e))),
        None => None,
    }
}

/// The URL of the first version, from position `i` on, whose id is
/// `version` and that has a URL.
pub open spec fn select_url_from(
    es: Seq<(Option<Seq<char>>, Option<Seq<char>>)>,
    version: Seq<char>,
    i: int,
) -> Option<Seq<char>>
    decreases es.len() - i,
{
    if i < 0 || i >= es.len() {
        None
    } else if es[i].0 == Some(version) && es[i].1 is Some {
        es[i].1
    } else {
        select_url_from(es, version, i + 1)
    }
}

/// The URL of the metadata of `version`.
fn select_version_url(entries: &Vec<VersionEntry>, version: &str) -> (r: Option<String>)
    ensures
        opt_text(r) == select_url_from(entries@.map_values(|e: VersionEntry| entry_view(e)), version@, 0),
{
    let ghost es = entries@.map_values(|e: VersionEntry| entry_view(e));
    let n = entries.len();
    let mut i: usize = 0;
    while i < n
        invariant
            n == entries@.len(),
            es == entries@.map_values(|e: VersionEntry| entry_view(e)),
            i <= n,
            select_url_from(es, version@, 0) == select_url_from(es, version@, i as int),
        decreases n - i,
    {
        let e = &entries[i];
        assert(es[i as int] == entry_view(*e));
        match &e.id {
            Some(id) => {
                if str_eq(id.as_str(), version) {
                    match &e.url {
                        Some(url) => {
                            return Some(url.clone());
                        },
                        None => {},
                    }
                }
            },
            None => {},
        }
        i = i + 1;
    }
    None
}

/// Where a download of the assets stands.
pub enum EnsureState {
    Idle,
    AwaitingManifest,
    AwaitingVersion,
    AwaitingDownload { sha1: String },
    AwaitingJar { sha1: String },
    AwaitingExtraction,
    Finished,
}

/// What the surrounding program reports back: the outcome of the action it
/// was asked to perform (errors already worded), or the start.
pub enum EnsureEvent {
    Start { cached: bool, eula_accepted: bool },
    ManifestFetched(Result<VersionManifest, String>),
    VersionFetched(Result<VersionMeta, String>),
    JarDownloaded(Result<(), String>),
    JarRead(Result<Vec<u8>, String>),
    JarExtracted(Result<(), String>),
}

/// What the surrounding program is to do next.
pub enum EnsureAction {
    /// Stop with this outcome.
    Done(Result<(), String>),
    /// Fetch the version list at this URL.
    FetchManifest(String),
    /// Fetch the version metadata at this URL.
    FetchVersion(String),
    /// Download `url` to `dest`.
    Download { url: String, dest: AssetPath },
    /// Read this file.
    ReadJar(AssetPath),
    /// Extract the kept trees of this archive into the cache root.
    Extract(AssetPath),
}

/// The model of a download state.
pub enum StateModel {
    Idle,
    AwaitingManifest,
    AwaitingVersion,
    AwaitingDownload(Seq<char>),
    AwaitingJar(Seq<char>),
    AwaitingExtraction,
    Finished,
}

/// The model of an event.
pub enum EventModel {
    Start(bool, bool),
    ManifestFetched(Result<Option<Seq<(Option<Seq<char>>, Option<Seq<char>>)>>, Seq<char>>),
    VersionFetched(Result<(Option<Seq<char>>, Option<Seq<char>>), Seq<char>>),
    JarDownloaded(Result<(), Seq<char>>),
    JarRead(Result<Seq<u8>, Seq<char>>),
    JarExtracted(Result<(), Seq<char>>),
}

/// The model of an action.
pub enum ActionModel {
    Done(Result<(), Seq<char>>),
    FetchManifest(Seq<char>),
    FetchVersion(Seq<char>),
    Download(Seq<char>, Seq<char>),
    ReadJar(Seq<char>),
    Extract(Seq<char>),
}

/// The text of an error.
pub open spec fn err_text<T>(r: Result<T, String>) -> Result<T, Seq<char>> {
    match r {
        Ok(v) => Ok(v),
        Err(e) => Err(e@),
    }
}

impl View for EnsureState {
    type V = StateModel;

    open spec fn view(&self) -> StateModel {
        match self {
            EnsureState::Idle => StateModel::Idle,
            EnsureState::AwaitingManifest => StateModel::AwaitingManifest,
            EnsureState::AwaitingVersion => StateModel::AwaitingVersion,
            EnsureState::AwaitingDownload { sha1 } => StateModel::AwaitingDownload(sha1@),
            EnsureState::AwaitingJar { sha1 } => StateModel::AwaitingJar(sha1@),
            EnsureState::AwaitingExtraction => StateModel::AwaitingExtraction,
            EnsureState::Finished => StateModel::Finished,
        }
    }
}

impl View for EnsureEvent {
    type V = EventModel;

    open spec fn view(&self) -> EventModel {
        match self {
            EnsureEvent::Start { cached, eula_accepted } => EventModel::Start(*cached, *eula_accepted),
            EnsureEvent::ManifestFetched(r) => EventModel::ManifestFetched(
                match r {
                    Ok(m) => Ok(manifest_view(*m)),
                    Err(e) => Err(e@),
                },
            ),
            EnsureEvent::VersionFetched(r) => EventModel::VersionFetched(
                match r {
                    Ok(m) => Ok((opt_text(m.client_sha1), opt_text(m.client_url))),
                    Err(e) => Err(e@),
                },
            ),
            EnsureEvent::JarDownloaded(r) => EventModel::JarDownloaded(err_text(*r)),
            EnsureEvent::JarRead(r) => EventModel::JarRead(
                match r {
                    Ok(b) => Ok(b@),
                    Err(e) => Err(e@),
                },
            ),
            EnsureEvent::JarExtracted(r) => EventModel::JarExtracted(err_text(*r)),
        }
    }
}

impl View for EnsureAction {
    type V = ActionModel;

    open spec fn view(&self) -> ActionModel {
        match self {
            EnsureAction::Done(r) => ActionModel::Done(err_text(*r)),
            EnsureAction::FetchManifest(u) => ActionModel::FetchManifest(u@),
            EnsureAction::FetchVersion(u) => ActionModel::FetchVersion(u@),
            EnsureAction::Download { url, dest } => ActionModel::Download(url@, dest@),
            EnsureAction::ReadJar(p) => ActionModel::ReadJar(p@),
            EnsureAction::Extract(p) => ActionModel::Extract(p@),
        }
    }
}

/// The event that each state waits for.
pub open spec fn accepts(s: StateModel, e: EventModel) -> bool {
    match (s, e) {
        (StateModel::Idle, EventModel::Start(_, _)) => true,
        (StateModel::AwaitingManifest, EventModel::ManifestFetched(_)) => true,
        (StateModel::AwaitingVersion, EventModel::VersionFetched(_)) => true,
        (StateModel::AwaitingDownload(_), EventModel::JarDownloaded(_)) => true,
        (StateModel::AwaitingJar(_), EventModel::JarRead(_)) => true,
        (StateModel::AwaitingExtraction, EventModel::JarExtracted(_)) => true,
        _ => false,
    }
}

/// The message given when the client jar's digest is not the expected one.
pub open spec fn sha1_mismatch_message(jar: Seq<char>, expected: Seq<char>, got: Seq<char>) -> Seq<char> {
    "SHA1 mismatch for "@ + debug_path(jar) + ": expected "@ + expected + ", got "@ + got
}

/// Stopping with an error.
pub open spec fn fail(msg: Seq<char>) -> (StateModel, ActionModel) {
    (StateModel::Finished, ActionModel::Done(Err(msg)))
}

/// The next state and action of a download of the assets whose client jar
/// is cached at `jar`. Nothing is done when the assets are cached already;
/// nothing is downloaded unless the EULA was accepted; any error reported
/// back stops the download with that error.
pub open spec fn ensure_transition(jar: Seq<char>, s: StateModel, e: EventModel) -> (StateModel, ActionModel) {
    match (s, e) {
        (StateModel::Idle, EventModel::Start(cached, eula_accepted)) => if cached {
            (StateModel::Finished, ActionModel::Done(Ok(())))
        } else if !eula_accepted {
            fail(EULA_MESSAGE@)
        } else {
            (StateModel::AwaitingManifest, ActionModel::FetchManifest(VERSION_MANIFEST_URL@))
        },
        (StateModel::AwaitingManifest, EventModel::ManifestFetched(r)) => match r {
            Err(msg) => fail(msg),
            Ok(None) => fail(MISSING_VERSIONS_MESSAGE@),
            Ok(Some(es)) => match select_url_from(es, MC_VERSION@, 0) {
                Some(url) => (StateModel::AwaitingVersion, ActionModel::FetchVersion(url)),
                None => fail(VERSION_NOT_FOUND_MESSAGE@),
            },
        },
        (StateModel::AwaitingVersion, EventModel::VersionFetched(r)) => match r {
            Err(msg) => fail(msg),
            Ok((None, _)) => fail(MISSING_SHA1_MESSAGE@),
            Ok((Some(_), None)) => fail(MISSING_URL_MESSAGE@),
            Ok((Some(sha1), Some(url))) => (StateModel::AwaitingDownload(sha1), ActionModel::Download(url, jar)),
        },
        (StateModel::AwaitingDownload(sha1), EventModel::JarDownloaded(r)) => match r {
            Err(msg) => fail(msg),
            Ok(()) => (StateModel::AwaitingJar(sha1), ActionModel::ReadJar(jar)),
        },
        (StateModel::AwaitingJar(sha1), EventModel::JarRead(r)) => match r {
            Err(msg) => fail(msg),
            Ok(bytes) => if hex_lower(sha1_of(bytes)) == sha1 {
                (StateModel::AwaitingExtraction, ActionModel::Extract(jar))
            } else {
                fail(sha1_mismatch_message(jar, sha1, hex_lower(sha1_of(bytes))))
            },
        },
        (StateModel::AwaitingExtraction, EventModel::JarExtracted(r)) => match r {
            Err(msg) => fail(msg),
            Ok(()) => (StateModel::Finished, ActionModel::Done(Ok(()))),
        },
        _ => (s, ActionModel::Done(Ok(()))),
    }
}

/// The error an event reports, if any.
pub open spec fn reported_error(e: EventModel) -> Option<Seq<char>> {
    match e {
        EventModel::Start(_, _) => None,
        EventModel::ManifestFetched(Err(m)) => Some(m),
        EventModel::VersionFetched(Err(m)) => Some(m),
        EventModel::JarDownloaded(Err(m)) => Some(m),
        EventModel::JarRead(Err(m)) => Some(m),
        EventModel::JarExtracted(Err(m)) => Some(m),
        _ => None,
    }
}

/// Assets that are cached already need nothing more, whether or not the
/// EULA was accepted.
pub proof fn law_cached_assets_need_nothing(jar: Seq<char>, eula_accepted: bool)
    ensures
        ensure_transition(jar, StateModel::Idle, EventModel::Start(true, eula_accepted)) == (
            StateModel::Finished,
            ActionModel::Done(Ok(())),
        ),
{
}

/// Assets that are not cached are not downloaded unless the EULA was
/// accepted: the download stops with the EULA message.
pub proof fn law_no_download_without_eula(jar: Seq<char>)
    ensures
        ensure_transition(jar, StateModel::Idle, EventModel::Start(false, false)) == fail(EULA_MESSAGE@),
{
}

/// The client jar is extracted only when its SHA-1 digest, in lowercase
/// hexadecimal, is the one the version metadata gave.
pub proof fn law_extract_only_verified_jar(jar: Seq<char>, sha1: Seq<char>, bytes: Seq<u8>)
    ensures
        ensure_transition(jar, StateModel::AwaitingJar(sha1), EventModel::JarRead(Ok(bytes))).1 is Extract
            <==> hex_lower(sha1_of(bytes)) == sha1,
{
}

/// Any error reported back ends the download with that very error.
pub proof fn law_reported_errors_end_the_download(jar: Seq<char>, s: StateModel, e: EventModel)
    requires
        accepts(s, e),
        reported_error(e) is Some,
    ensures
        ensure_transition(jar, s, e) == fail(reported_error(e)->0),
{
}

/// Every step that does not stop downloads, reads or extracts only the
/// client jar at `jar`, or fetches a URL.
pub proof fn law_files_touched_are_the_jar(jar: Seq<char>, s: StateModel, e: EventModel)
    requires
        accepts(s, e),
    ensures
        match ensure_transition(jar, s, e).1 {
            ActionModel::Download(_, dest) => dest == jar,
            ActionModel::ReadJar(p) => p == jar,
            ActionModel::Extract(p) => p == jar,
            _ => true,
        },
{
}

/// A relative component joined onto a base keeps the base as the start of
/// the text.
pub proof fn lemma_join_keeps_base(base: Seq<char>, component: Seq<char>)
    requires
        component.len() > 0,
        component[0] != '/',
    ensures
        has_prefix(path_join(base, component), base),
{
    let j = path_join(base, component);
    assert(j.subrange(0, base.len() as int) =~= base);
}

/// Every archive entry that is extracted is written to a path whose text
/// starts with the cache root.
pub proof fn law_extracted_entries_start_with_the_root(root: Seq<char>, raw: Seq<char>)
    requires
        is_extracted(entry_name(raw)),
    ensures
        has_prefix(path_join(root, entry_name(raw)), root),
{
    let name = entry_name(raw);
    reveal_strlit("assets/minecraft/lang/");
    reveal_strlit("data/minecraft/loot_tables/");
    reveal_strlit("data/minecraft/structures/");
    reveal_strlit("data/minecraft/worldgen/");
    if has_prefix(name, "assets/minecraft/lang/"@) {
        assert(name[0] == name.subrange(0, "assets/minecraft/lang/"@.len() as int)[0]);
    } else if has_prefix(name, "data/minecraft/loot_tables/"@) {
        assert(name[0] == name.subrange(0, "data/minecraft/loot_tables/"@.len() as int)[0]);
    } else if has_prefix(name, "data/minecraft/structures/"@) {
        assert(name[0] == name.subrange(0, "data/minecraft/structures/"@.len() as int)[0]);
    } else {
        assert(name[0] == name.subrange(0, "data/minecraft/worldgen/"@.len() as int)[0]);
    }
    lemma_join_keeps_base(root, name);
}

/// Stopping with an error.
fn fail_with(msg: String) -> (r: (EnsureState, EnsureAction))
    ensures
        (r.0@, r.1@) == fail(msg@),
{
    (EnsureState::Finished, EnsureAction::Done(Err(msg)))
}

impl AssetManager {
    /// One step of making sure that the assets are downloaded and extracted:
    /// given where the download stands and what was reported back, where it
    /// stands next and what is to be done.
    pub fn ensure_step(&self, state: EnsureState, event: EnsureEvent) -> (r: (EnsureState, EnsureAction))
        requires
            accepts(state@, event@),
        ensures
            (r.0@, r.1@) == ensure_transition(jar_path_of(self@), state@, event@),
    {
        match (state, event) {
            (EnsureState::Idle, EnsureEvent::Start { cached, eula_accepted }) => {
                if cached {
                    (EnsureState::Finished, EnsureAction::Done(Ok(())))
                } else if !eula_accepted {
                    fail_with(EULA_MESSAGE.to_owned())
                } else {
                    (EnsureState::AwaitingManifest, EnsureAction::FetchManifest(VERSION_MANIFEST_URL.to_owned()))
                }
            },
            (EnsureState::AwaitingManifest, EnsureEvent::ManifestFetched(r)) => match r {
                Err(msg) => fail_with(msg),
                Ok(manifest) => match manifest.versions {
                    None => fail_with(MISSING_VERSIONS_MESSAGE.to_owned()),
                    Some(entries) => match select_version_url(&entries, MC_VERSION) {
                        Some(url) => (EnsureState::AwaitingVersion, EnsureAction::FetchVersion(url)),
                        None => fail_with(VERSION_NOT_FOUND_MESSAGE.to_owned()),
                    },
                },
            },
            (EnsureState::AwaitingVersion, EnsureEvent::VersionFetched(r)) => match r {
                Err(msg) => fail_with(msg),
                Ok(meta) => match meta.client_sha1 {
                    None => fail_with(MISSING_SHA1_MESSAGE.to_owned()),
                    Some(sha1) => match meta.client_url {
                        None => fail_with(MISSING_URL_MESSAGE.to_owned()),
                        Some(url) => (
                            EnsureState::AwaitingDownload { sha1 },
                            EnsureAction::Download { url, dest: self.jar_cache_path() },
                        ),
                    },
                },
            },
            (EnsureState::AwaitingDownload { sha1 }, EnsureEvent::JarDownloaded(r)) => match r {
                Err(msg) => fail_with(msg),
                Ok(()) => (EnsureState::AwaitingJar { sha1 }, EnsureAction::ReadJar(self.jar_cache_path())),
            },
            (EnsureState::AwaitingJar { sha1 }, EnsureEvent::JarRead(r)) => match r {
                Err(msg) => fail_with(msg),
                Ok(bytes) => {
                    let digest = sha1_digest(bytes.as_slice());
                    if digest_matches(digest.as_slice(), sha1.as_str()) {
                        (EnsureState::AwaitingExtraction, EnsureAction::Extract(self.jar_cache_path()))
                    } else {
                        let hex = to_hex_lower(digest.as_slice());
                        let jar = self.jar_cache_path();
                        let mut msg = "SHA1 mismatch for ".to_owned();
                        msg.append(debug_path_text(jar.as_text()).as_str());
                        msg.append(": expected ");
                        msg.append(sha1.as_str());
                        msg.append(", got ");
                        msg.append(hex.as_str());
                        fail_with(msg)
                    }
                },
            },
            (EnsureState::AwaitingExtraction, EnsureEvent::JarExtracted(r)) => match r {
                Err(msg) => fail_with(msg),
                Ok(()) => (EnsureState::Finished, EnsureAction::Done(Ok(()))),
            },
            (state, _) => {
                // `accepts` rules out every other pairing.
                proof {
                    assert(false);
                }
                (state, EnsureAction::Done(Ok(())))
            },
        }
    }
}

} // verus!
