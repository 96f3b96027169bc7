//! Centralized directory and file path resolution for the launcher: the
//! well-known Lutris directories under the platform's local data, config and
//! cache roots, and the lookups built on them.
//!
//! The platform roots come from the environment, so nothing can be promised
//! about their values; every path built from them is specified exactly as a
//! join of the root it came from.

use vstd::prelude::*;
use vstd::string::StringExecFns;

verus! {

/// `base` and `child` joined with the platform path separator.
pub open spec fn joined(base: Seq<char>, child: Seq<char>) -> Seq<char> {
    base + "/"@ + child
}

/// Joins two path fragments with a separator.
pub fn path_join(base: &str, child: &str) -> (r: String)
    ensures
        r@ == joined(base@, child@),
{
    let mut r = base.to_owned();
    r.append("/");
    r.append(child);
    r
}

/// The final separator-delimited segment of a path: the file or directory
/// name; empty for a path ending in a separator.
pub open spec fn last_segment_spec(p: Seq<char>) -> Seq<char> {
    crate::strutil::split_on(p, '/').last()
}

/// The path without its final segment: the containing directory; empty when
/// the path has a single segment.
pub open spec fn parent_spec(p: Seq<char>) -> Seq<char> {
    crate::strutil::joined_with(crate::strutil::split_on(p, '/').drop_last(), "/"@)
}

/// Extracts the final segment of a path.
pub fn last_path_segment(p: &str) -> (r: String)
    ensures
        r@ == last_segment_spec(p@),
{
    let parts = crate::strutil::split_char(p, '/');
    proof {
        crate::strutil::lemma_split_on_len(p@, '/');
        assert(parts@.len() == crate::strutil::split_on(p@, '/').len());
        assert(parts@.map_values(|q: String| q@).last() == parts@[parts@.len() - 1]@);
    }
    parts[parts.len() - 1].clone()
}

/// Drops the final segment of a path.
pub fn parent_path(p: &str) -> (r: String)
    ensures
        r@ == parent_spec(p@),
{
    let mut parts = crate::strutil::split_char(p, '/');
    proof {
        crate::strutil::lemma_split_on_len(p@, '/');
        assert(parts@.len() == crate::strutil::split_on(p@, '/').len());
    }
    parts.pop();
    proof {
        assert(parts@.map_values(|q: String| q@) =~~= crate::strutil::split_on(
            p@,
            '/',
        ).drop_last());
    }
    crate::strutil::join_with(&parts, "/")
}

/// Relies on dirs::data_local_dir: the platform's local data directory, if
/// the environment defines one. The value depends on the environment, so
/// nothing is promised about it.
#[verifier::external_body]
fn data_local_dir_string() -> (r: Option<String>) {
    dirs::data_local_dir().map(|p| p.to_string_lossy().to_string())
}

/// Relies on dirs::home_dir: the user's home directory, if the environment
/// defines one.
#[verifier::external_body]
fn home_dir_string() -> (r: Option<String>) {
    dirs::home_dir().map(|p| p.to_string_lossy().to_string())
}

/// Relies on dirs::download_dir: the user's downloads directory, if the
/// environment defines one.
#[verifier::external_body]
fn download_dir_string() -> (r: Option<String>) {
    dirs::download_dir().map(|p| p.to_string_lossy().to_string())
}

/// Relies on dirs::cache_dir: the user's cache directory, if the environment
/// defines one.
#[verifier::external_body]
fn cache_dir_string() -> (r: Option<String>) {
    dirs::cache_dir().map(|p| p.to_string_lossy().to_string())
}

/// Relies on std::path::Path::exists: whether the path exists on disk at
/// this moment. The answer depends on the file system, so nothing is
/// promised about it.
#[verifier::external_body]
pub fn path_exists(path: &str) -> (r: bool) {
    std::path::Path::new(path).exists()
}

/// The Lutris data directory under some local-data root.
pub open spec fn data_dir_path(base: Seq<char>) -> Seq<char> {
    joined(base, "lutris"@)
}

/// A named subdirectory of the Lutris data directory under some local-data
/// root.
pub open spec fn data_subdir_path(base: Seq<char>, sub: Seq<char>) -> Seq<char> {
    joined(data_dir_path(base), sub)
}

/// The Lutris data directory, under the platform's local data root.
pub fn lutris_data_dir() -> (r: Option<String>)
    ensures
        r matches Some(p) ==> exists|base: Seq<char>| p@ == data_dir_path(base),
{
    match data_local_dir_string() {
        Some(d) => {
            let p = path_join(d.as_str(), "lutris");
            proof {
                assert(p@ == data_dir_path(d@));
            }
            Some(p)
        },
        None => None,
    }
}

/// The user's home directory, as the environment reports it.
pub fn home_dir() -> (r: Option<String>) {
    home_dir_string()
}

/// The user's downloads directory, as the environment reports it.
pub fn downloads_dir() -> (r: Option<String>) {
    download_dir_string()
}

/// The Lutris games config directory.
pub fn lutris_games_dir() -> (r: Option<String>)
    ensures
        r matches Some(p) ==> exists|base: Seq<char>| p@ == data_subdir_path(base, "games"@),
{
    match lutris_data_dir() {
        Some(d) => {
            let p = path_join(d.as_str(), "games");
            proof {
                let base = choose|base: Seq<char>| d@ == data_dir_path(base);
                assert(p@ == data_subdir_path(base, "games"@));
            }
            Some(p)
        },
        None => None,
    }
}

/// The Lutris runners directory.
pub fn lutris_runners_dir() -> (r: Option<String>)
    ensures
        r matches Some(p) ==> exists|base: Seq<char>| p@ == data_subdir_path(base, "runners"@),
{
    match lutris_data_dir() {
        Some(d) => {
            let p = path_join(d.as_str(), "runners");
            proof {
                let base = choose|base: Seq<char>| d@ == data_dir_path(base);
                assert(p@ == data_subdir_path(base, "runners"@));
            }
            Some(p)
        },
        None => None,
    }
}

/// The Lutris wine runners directory.
pub fn lutris_wine_dir() -> (r: Option<String>)
    ensures
        r matches Some(p) ==> exists|base: Seq<char>|
            p@ == joined(data_subdir_path(base, "runners"@), "wine"@),
{
    match lutris_runners_dir() {
        Some(d) => {
            let p = path_join(d.as_str(), "wine");
            proof {
                let base = choose|base: Seq<char>| d@ == data_subdir_path(base, "runners"@);
                assert(p@ == joined(data_subdir_path(base, "runners"@), "wine"@));
            }
            Some(p)
        },
        None => None,
    }
}

/// The Lutris proton runners directory.
pub fn lutris_proton_dir() -> (r: Option<String>)
    ensures
        r matches Some(p) ==> exists|base: Seq<char>|
            p@ == joined(data_subdir_path(base, "runners"@), "proton"@),
{
    match lutris_runners_dir() {
        Some(d) => {
            let p = path_join(d.as_str(), "proton");
            proof {
                let base = choose|base: Seq<char>| d@ == data_subdir_path(base, "runners"@);
                assert(p@ == joined(data_subdir_path(base, "runners"@), "proton"@));
            }
            Some(p)
        },
        None => None,
    }
}

/// The Lutris cover art directory.
pub fn lutris_coverart_dir() -> (r: Option<String>)
    ensures
        r matches Some(p) ==> exists|base: Seq<char>| p@ == data_subdir_path(base, "coverart"@),
{
    match lutris_data_dir() {
        Some(d) => {
            let p = path_join(d.as_str(), "coverart");
            proof {
                let base = choose|base: Seq<char>| d@ == data_dir_path(base);
                assert(p@ == data_subdir_path(base, "coverart"@));
            }
            Some(p)
        },
        None => None,
    }
}

/// The Lutris banners directory.
pub fn lutris_banners_dir() -> (r: Option<String>)
    ensures
        r matches Some(p) ==> exists|base: Seq<char>| p@ == data_subdir_path(base, "banners"@),
{
    match lutris_data_dir() {
        Some(d) => {
            let p = path_join(d.as_str(), "banners");
            proof {
                let base = choose|base: Seq<char>| d@ == data_dir_path(base);
                assert(p@ == data_subdir_path(base, "banners"@));
            }
            Some(p)
        },
        None => None,
    }
}

/// The Lutris icons directory.
pub fn lutris_icons_dir() -> (r: Option<String>)
    ensures
        r matches Some(p) ==> exists|base: Seq<char>| p@ == data_subdir_path(base, "icons"@),
{
    match lutris_data_dir() {
        Some(d) => {
            let p = path_join(d.as_str(), "icons");
            proof {
                let base = choose|base: Seq<char>| d@ == data_dir_path(base);
                assert(p@ == data_subdir_path(base, "icons"@));
            }
            Some(p)
        },
        None => None,
    }
}

/// The Lutris cache directory, under the platform's cache root.
pub fn lutris_cache_dir() -> (r: Option<String>)
    ensures
        r matches Some(p) ==> exists|base: Seq<char>| p@ == joined(base, "lutris"@),
{
    match cache_dir_string() {
        Some(d) => {
            let p = path_join(d.as_str(), "lutris");
            proof {
                assert(p@ == joined(d@, "lutris"@));
            }
            Some(p)
        },
        None => None,
    }
}

/// The wine runner config file under the runners directory.
pub fn lutris_wine_config() -> (r: Option<String>)
    ensures
        r matches Some(p) ==> exists|base: Seq<char>|
            p@ == joined(data_subdir_path(base, "runners"@), "wine.yml"@),
{
    match lutris_runners_dir() {
        Some(d) => {
            let p = path_join(d.as_str(), "wine.yml");
            proof {
                let base = choose|base: Seq<char>| d@ == data_subdir_path(base, "runners"@);
                assert(p@ == joined(data_subdir_path(base, "runners"@), "wine.yml"@));
            }
            Some(p)
        },
        None => None,
    }
}

/// A game's config file: the games directory, the config name, and the
/// `.yml` extension.
pub fn lutris_game_config(config_name: &str) -> (r: Option<String>)
    ensures
        r matches Some(p) ==> exists|base: Seq<char>|
            p@ == joined(data_subdir_path(base, "games"@), config_name@ + ".yml"@),
{
    match lutris_games_dir() {
        Some(d) => {
            let mut file = config_name.to_owned();
            file.append(".yml");
            let p = path_join(d.as_str(), file.as_str());
            proof {
                let base = choose|base: Seq<char>| d@ == data_subdir_path(base, "games"@);
                assert(p@ == joined(data_subdir_path(base, "games"@), config_name@ + ".yml"@));
            }
            Some(p)
        },
        None => None,
    }
}

/// The main Lutris log file under the cache directory.
pub fn lutris_main_log() -> (r: Option<String>)
    ensures
        r matches Some(p) ==> exists|base: Seq<char>|
            p@ == joined(joined(base, "lutris"@), "lutris.log"@),
{
    match lutris_cache_dir() {
        Some(d) => {
            let p = path_join(d.as_str(), "lutris.log");
            proof {
                let base = choose|base: Seq<char>| d@ == joined(base, "lutris"@);
                assert(p@ == joined(joined(base, "lutris"@), "lutris.log"@));
            }
            Some(p)
        },
        None => None,
    }
}

/// The Lutris game database file under the data directory.
pub fn lutris_database() -> (r: Option<String>)
    ensures
        r matches Some(p) ==> exists|base: Seq<char>|
            p@ == joined(data_dir_path(base), "pga.db"@),
{
    match lutris_data_dir() {
        Some(d) => {
            let p = path_join(d.as_str(), "pga.db");
            proof {
                let base = choose|base: Seq<char>| d@ == data_dir_path(base);
                assert(p@ == joined(data_dir_path(base), "pga.db"@));
            }
            Some(p)
        },
        None => None,
    }
}

/// A cover art candidate: a directory, the slug, and an image extension.
pub open spec fn art_candidate(dir: Seq<char>, slug: Seq<char>, ext: Seq<char>) -> Seq<char> {
    joined(dir, slug + ext)
}

/// A path is a plausible cover art location for a slug: slug plus image
/// extension under one of the cover art, banners or icons directories.
pub open spec fn is_cover_art_path(p: Seq<char>, slug: Seq<char>) -> bool {
    exists|base: Seq<char>, d: Seq<char>, ext: Seq<char>|
        (d == "coverart"@ || d == "banners"@ || d == "icons"@) && (ext == ".jpg"@ || ext
            == ".png"@) && p == art_candidate(data_subdir_path(base, d), slug, ext)
}

/// Checks one directory for `slug` with one extension; the path handed back
/// is that candidate, and only an existing candidate is handed back.
fn check_art_dir(dir: &str, slug: &str, ext: &str) -> (r: Option<String>)
    ensures
        r matches Some(p) ==> p@ == art_candidate(dir@, slug@, ext@),
{
    let mut file = slug.to_owned();
    file.append(ext);
    let candidate = path_join(dir, file.as_str());
    if path_exists(candidate.as_str()) {
        Some(candidate)
    } else {
        None
    }
}

/// Finds cover art for a game slug, searching the cover art, banners and
/// icons directories for a `.jpg` or `.png`, in that order, and returning
/// the first candidate present on disk.
pub fn find_cover_art(slug: &str) -> (r: Option<String>)
    ensures
        r matches Some(p) ==> is_cover_art_path(p@, slug@),
{
    if let Some(dir) = lutris_coverart_dir() {
        let ghost base = choose|base: Seq<char>| dir@ == data_subdir_path(base, "coverart"@);
        if let Some(p) = check_art_dir(dir.as_str(), slug, ".jpg") {
            proof {
                assert(p@ == art_candidate(data_subdir_path(base, "coverart"@), slug@, ".jpg"@));
            }
            return Some(p);
        }
        if let Some(p) = check_art_dir(dir.as_str(), slug, ".png") {
            proof {
                assert(p@ == art_candidate(data_subdir_path(base, "coverart"@), slug@, ".png"@));
            }
            return Some(p);
        }
    }
    if let Some(dir) = lutris_banners_dir() {
        let ghost base = choose|base: Seq<char>| dir@ == data_subdir_path(base, "banners"@);
        if let Some(p) = check_art_dir(dir.as_str(), slug, ".jpg") {
            proof {
                assert(p@ == art_candidate(data_subdir_path(base, "banners"@), slug@, ".jpg"@));
            }
            return Some(p);
        }
        if let Some(p) = check_art_dir(dir.as_str(), slug, ".png") {
            proof {
                assert(p@ == art_candidate(data_subdir_path(base, "banners"@), slug@, ".png"@));
            }
            return Some(p);
        }
    }
    if let Some(dir) = lutris_icons_dir() {
        let ghost base = choose|base: Seq<char>| dir@ == data_subdir_path(base, "icons"@);
        if let Some(p) = check_art_dir(dir.as_str(), slug, ".jpg") {
            proof {
                assert(p@ == art_candidate(data_subdir_path(base, "icons"@), slug@, ".jpg"@));
            }
            return Some(p);
        }
        if let Some(p) = check_art_dir(dir.as_str(), slug, ".png") {
            proof {
                assert(p@ == art_candidate(data_subdir_path(base, "icons"@), slug@, ".png"@));
            }
            return Some(p);
        }
    }
    None
}

/// A path where a game's Proton or Wine log may be written: directly in the
/// home directory, or the main Lutris log in the cache directory.
pub open spec fn is_game_log_path(p: Seq<char>) -> bool {
    ||| exists|base: Seq<char>| p == joined(base, "steam-0.log"@)
    ||| exists|base: Seq<char>| p == joined(base, "lutris.log"@)
    ||| exists|base: Seq<char>| p == joined(joined(base, "lutris"@), "lutris.log"@)
}

/// The game log files present on disk, searched in the usual locations: the
/// Proton log and legacy Lutris log in the home directory, then the main
/// Lutris log.
pub fn find_game_log_paths() -> (r: Vec<String>)
    ensures
        forall|k: int| 0 <= k < r@.len() ==> is_game_log_path((#[trigger] r@[k])@),
{
    let mut found: Vec<String> = Vec::new();
    if let Some(home) = home_dir() {
        let p = path_join(home.as_str(), "steam-0.log");
        if path_exists(p.as_str()) {
            proof {
                assert(is_game_log_path(p@));
            }
            found.push(p);
        }
        let q = path_join(home.as_str(), "lutris.log");
        if path_exists(q.as_str()) {
            proof {
                assert(is_game_log_path(q@));
            }
            found.push(q);
        }
    }
    if let Some(log) = lutris_main_log() {
        if path_exists(log.as_str()) {
            proof {
                let base = choose|base: Seq<char>|
                    log@ == joined(joined(base, "lutris"@), "lutris.log"@);
                assert(log@ == joined(joined(base, "lutris"@), "lutris.log"@));
                assert(is_game_log_path(log@));
            }
            found.push(log);
        }
    }
    found
}

/// A Steam compatibility tools directory under the home directory: where
/// Steam-installed Proton versions live.
pub open spec fn is_steam_compat_path(p: Seq<char>) -> bool {
    exists|home: Seq<char>|
        p == joined(home, ".steam/root/compatibilitytools.d"@) || p == joined(
            home,
            ".local/share/Steam/compatibilitytools.d"@,
        ) || p == joined(home, ".var/app/com.valvesoftware.Steam/data/Steam/compatibilitytools.d"@)
}

/// The Steam compatibility tools directories present on disk: system Steam
/// and Flatpak Steam locations under the home directory.
pub fn steam_compat_tools_dirs() -> (r: Vec<String>)
    ensures
        forall|k: int| 0 <= k < r@.len() ==> is_steam_compat_path((#[trigger] r@[k])@),
{
    let mut found: Vec<String> = Vec::new();
    if let Some(home) = home_dir() {
        let a = path_join(home.as_str(), ".steam/root/compatibilitytools.d");
        if path_exists(a.as_str()) {
            proof {
                assert(is_steam_compat_path(a@));
            }
            found.push(a);
        }
        let b = path_join(home.as_str(), ".local/share/Steam/compatibilitytools.d");
        if path_exists(b.as_str()) {
            proof {
                assert(is_steam_compat_path(b@));
            }
            found.push(b);
        }
        let c = path_join(
            home.as_str(),
            ".var/app/com.valvesoftware.Steam/data/Steam/compatibilitytools.d",
        );
        if path_exists(c.as_str()) {
            proof {
                assert(is_steam_compat_path(c@));
            }
            found.push(c);
        }
    }
    found
}

/// A valid wine/proton scan entry: a Lutris wine or proton runners
/// directory labelled `Lutris`, or a Steam compatibility tools directory
/// labelled `Steam Flatpak` when its path mentions flatpak and `Steam`
/// otherwise.
pub open spec fn is_wine_scan_entry(p: Seq<char>, label: Seq<char>) -> bool {
    ||| (label == "Lutris"@ && exists|base: Seq<char>|
        p == joined(data_subdir_path(base, "runners"@), "wine"@) || p == joined(
            data_subdir_path(base, "runners"@),
            "proton"@,
        ))
    ||| (is_steam_compat_path(p) && label == (if crate::strutil::contains_seq(p, "flatpak"@) {
        "Steam Flatpak"@
    } else {
        "Steam"@
    }))
}

/// All wine/proton scan locations present on disk, each with the label of
/// its source: the Lutris wine and proton directories, then the Steam
/// compatibility tools directories.
pub fn wine_scan_locations() -> (r: Vec<(String, String)>)
    ensures
        forall|k: int| 0 <= k < r@.len() ==> is_wine_scan_entry(
            (#[trigger] r@[k]).0@,
            r@[k].1@,
        ),
{
    let mut found: Vec<(String, String)> = Vec::new();
    if let Some(wine_dir) = lutris_wine_dir() {
        if path_exists(wine_dir.as_str()) {
            proof {
                assert(is_wine_scan_entry(wine_dir@, "Lutris"@));
            }
            found.push((wine_dir, "Lutris".to_owned()));
        }
    }
    if let Some(proton_dir) = lutris_proton_dir() {
        if path_exists(proton_dir.as_str()) {
            proof {
                assert(is_wine_scan_entry(proton_dir@, "Lutris"@));
            }
            found.push((proton_dir, "Lutris".to_owned()));
        }
    }
    let steam_dirs = steam_compat_tools_dirs();
    let m = steam_dirs.len();
    let mut j: usize = 0;
    while j < m
        invariant
            m == steam_dirs@.len(),
            j <= m,
            forall|k: int| 0 <= k < steam_dirs@.len() ==> is_steam_compat_path(
                (#[trigger] steam_dirs@[k])@,
            ),
            forall|k: int| 0 <= k < found@.len() ==> is_wine_scan_entry(
                (#[trigger] found@[k]).0@,
                found@[k].1@,
            ),
        decreases m - j,
    {
        let dir = steam_dirs[j].clone();
        if crate::strutil::str_contains(dir.as_str(), "flatpak") {
            found.push((dir, "Steam Flatpak".to_owned()));
        } else {
            found.push((dir, "Steam".to_owned()));
        }
        j = j + 1;
    }
    found
}

/// System wine installation paths worth checking.
pub fn system_wine_paths() -> (r: Vec<String>)
    ensures
        r@.len() == 2,
        r@[0]@ == "/usr/bin/wine"@,
        r@[1]@ == "/usr/local/bin/wine"@,
{
    let mut r: Vec<String> = Vec::new();
    r.push("/usr/bin/wine".to_owned());
    r.push("/usr/local/bin/wine".to_owned());
    r
}

} // verus!
