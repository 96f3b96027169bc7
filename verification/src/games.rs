//! Game records as the Lutris command line and database report them, and the
//! derivations on them: playtime parsing, timestamp formatting, and the
//! assembly of the full per-game data used for launching.
//!
//! Reading the config files and querying the database is I/O and stays
//! outside; their parsed plain values are taken as arguments here.

use vstd::prelude::*;
use vstd::string::StringExecFns;

use crate::paths;
use crate::paths::joined;
use crate::strutil::{
    all_digits, contains_seq, digits_value, is_prefix_of, joined_with, leading_token,
    lemma_digits_value_nonneg, parse_i64_digits, split_char, split_on, str_contains, str_trim,
    first_token, str_starts_with, trimmed,
};

verus! {

/// Basic game data as the Lutris command line reports it.
#[derive(Debug, Clone)]
pub struct LutrisGame {
    pub id: Option<i64>,
    pub slug: String,
    pub name: String,
    pub runner: Option<String>,
    pub platform: Option<String>,
    pub year: Option<i32>,
    pub directory: Option<String>,
    /// Playtime as rendered by Lutris: `X days, HH:MM:SS.fraction` or
    /// `HH:MM:SS`.
    pub playtime: Option<String>,
    /// Last-played time as rendered by Lutris: `YYYY-MM-DD HH:MM:SS`.
    pub lastplayed: Option<String>,
    pub configpath: Option<String>,
    pub installer_slug: Option<String>,
    pub installed: Option<bool>,
}

/// Extended game data with the config-file settings resolved: what a launch
/// needs.
#[derive(Debug, Clone)]
pub struct GameData {
    pub slug: String,
    pub name: String,
    pub runner: Option<String>,
    pub directory: Option<String>,
    /// Playtime in seconds.
    pub playtime: i64,
    /// Last-played time in RFC 3339 form.
    pub last_played: Option<String>,
    pub executable: Option<String>,
    pub wine_version: Option<String>,
    pub wine_prefix: Option<String>,
    pub environment_vars: Option<String>,
    pub cover_url: Option<String>,
    pub debug_output: bool,
}

/// The plain values a game's config file contributes, as parsed outside:
/// the game executable and prefix, the environment entries in file order,
/// and the wine version name.
#[derive(Debug, Clone)]
pub struct ParsedGameConfig {
    pub exe: Option<String>,
    pub prefix: Option<String>,
    pub env: Vec<(String, String)>,
    pub wine_version: Option<String>,
}

/// The number a digit string denotes, or zero where it is empty, has a
/// non-digit, or exceeds the representable range — how Lutris playtime
/// fields fall back when malformed.
pub open spec fn num_or_zero(s: Seq<char>) -> int {
    if s.len() > 0 && all_digits(s) && digits_value(s) <= i64::MAX {
        digits_value(s)
    } else {
        0
    }
}

/// Seconds denoted by a `HH:MM:SS` clock string, a fraction after `.`
/// ignored; zero unless there are exactly three `:`-separated fields, each
/// malformed field counting as zero.
pub open spec fn time_seconds_spec(s: Seq<char>) -> int {
    let before_dot = split_on(s, '.')[0];
    let parts = split_on(before_dot, ':');
    if parts.len() == 3 {
        num_or_zero(parts[0]) * 3600 + num_or_zero(parts[1]) * 60 + num_or_zero(parts[2])
    } else {
        0
    }
}

/// Seconds denoted by a Lutris playtime string: either `D days, CLOCK`
/// (a day count and a clock joined by one comma), or a bare clock; a
/// malformed day form counts as zero.
pub open spec fn playtime_seconds_spec(s: Seq<char>) -> int {
    if contains_seq(s, "days"@) || contains_seq(s, "day"@) {
        let parts = split_on(s, ',');
        if parts.len() == 2 {
            num_or_zero(leading_token(trimmed(parts[0]))) * 86400 + time_seconds_spec(
                trimmed(parts[1]),
            )
        } else {
            0
        }
    } else {
        time_seconds_spec(trimmed(s))
    }
}

/// Seconds a game record's playtime field denotes; zero when absent.
pub open spec fn playtime_field_spec(playtime: Option<String>) -> int {
    match playtime {
        Some(s) => playtime_seconds_spec(s@),
        None => 0,
    }
}

/// A fallback-to-zero number is never negative.
pub proof fn lemma_num_or_zero_nonneg(s: Seq<char>)
    ensures
        num_or_zero(s) >= 0,
{
    if s.len() > 0 && all_digits(s) && digits_value(s) <= i64::MAX {
        lemma_digits_value_nonneg(s);
    }
}

/// A clock never denotes negative seconds.
pub proof fn lemma_time_seconds_nonneg(s: Seq<char>)
    ensures
        time_seconds_spec(s) >= 0,
{
    let before_dot = split_on(s, '.')[0];
    let parts = split_on(before_dot, ':');
    if parts.len() == 3 {
        lemma_num_or_zero_nonneg(parts[0]);
        lemma_num_or_zero_nonneg(parts[1]);
        lemma_num_or_zero_nonneg(parts[2]);
    }
}

/// A playtime never denotes negative seconds.
pub proof fn lemma_playtime_seconds_nonneg(s: Seq<char>)
    ensures
        playtime_seconds_spec(s) >= 0,
{
    if contains_seq(s, "days"@) || contains_seq(s, "day"@) {
        let parts = split_on(s, ',');
        if parts.len() == 2 {
            lemma_num_or_zero_nonneg(leading_token(trimmed(parts[0])));
            lemma_time_seconds_nonneg(trimmed(parts[1]));
        }
    } else {
        lemma_time_seconds_nonneg(trimmed(s));
    }
}

/// What formatting a Lutris `YYYY-MM-DD HH:MM:SS` datetime as RFC 3339
/// yields, when the string parses at all; a function of the string alone.
pub uninterp spec fn lutris_datetime_rfc3339(s: Seq<char>) -> Option<Seq<char>>;

/// Relies on chrono's `NaiveDateTime::parse_from_str` with the
/// `%Y-%m-%d %H:%M:%S` format, `DateTime::from_naive_utc_and_offset` and
/// `DateTime::to_rfc3339`: parses a Lutris datetime as UTC and renders it in
/// RFC 3339 form; the result depends on the string alone.
#[verifier::external_body]
fn datetime_to_rfc3339(s: &str) -> (r: Option<String>)
    ensures
        match (r, lutris_datetime_rfc3339(s@)) {
            (Some(t), Some(v)) => t@ == v,
            (None, None) => true,
            _ => false,
        },
{
    chrono::NaiveDateTime::parse_from_str(s, "%Y-%m-%d %H:%M:%S").ok().map(
        |dt| chrono::DateTime::<chrono::Utc>::from_naive_utc_and_offset(dt, chrono::Utc)
            .to_rfc3339(),
    )
}

/// What formatting a Unix timestamp as RFC 3339 yields, when the timestamp
/// is representable at all; a function of the timestamp alone.
pub uninterp spec fn timestamp_rfc3339(ts: int) -> Option<Seq<char>>;

/// Relies on chrono's `DateTime::from_timestamp` and `DateTime::to_rfc3339`:
/// renders a Unix timestamp in RFC 3339 form when it is in chrono's
/// representable range; the result depends on the timestamp alone.
#[verifier::external_body]
fn unix_timestamp_to_rfc3339(ts: i64) -> (r: Option<String>)
    ensures
        match (r, timestamp_rfc3339(ts as int)) {
            (Some(t), Some(v)) => t@ == v,
            (None, None) => true,
            _ => false,
        },
{
    chrono::DateTime::<chrono::Utc>::from_timestamp(ts, 0).map(|dt| dt.to_rfc3339())
}

/// Parses a digit string, falling back to zero as the specification says.
fn parse_or_zero(s: &str) -> (r: i64)
    ensures
        r == num_or_zero(s@),
{
    match parse_i64_digits(s) {
        Some(v) => v,
        None => 0,
    }
}

impl LutrisGame {
    /// Seconds denoted by a `HH:MM:SS[.fraction]` clock string; zero for any
    /// other shape.
    pub fn parse_time_to_seconds(time_str: &str) -> (r: i64)
        requires
            time_seconds_spec(time_str@) <= i64::MAX,
        ensures
            r == time_seconds_spec(time_str@),
            r >= 0,
    {
        let dot_parts = split_char(time_str, '.');
        proof {
            crate::strutil::lemma_split_on_len(time_str@, '.');
            assert(dot_parts@.len() == split_on(time_str@, '.').len());
            assert(dot_parts@.map_values(|p: String| p@)[0] == dot_parts@[0]@);
        }
        let before_dot = &dot_parts[0];
        let parts = split_char(before_dot.as_str(), ':');
        if parts.len() == 3 {
            proof {
                let views = parts@.map_values(|p: String| p@);
                assert(views[0] == parts@[0]@);
                assert(views[1] == parts@[1]@);
                assert(views[2] == parts@[2]@);
                lemma_num_or_zero_nonneg(views[0]);
                lemma_num_or_zero_nonneg(views[1]);
                lemma_num_or_zero_nonneg(views[2]);
            }
            let hours = parse_or_zero(parts[0].as_str());
            let minutes = parse_or_zero(parts[1].as_str());
            let seconds = parse_or_zero(parts[2].as_str());
            hours * 3600 + minutes * 60 + seconds
        } else {
            0
        }
    }

    /// Seconds this game has been played, as its playtime field denotes.
    pub fn playtime_seconds(&self) -> (r: i64)
        requires
            playtime_field_spec(self.playtime) <= i64::MAX,
        ensures
            r == playtime_field_spec(self.playtime),
            r >= 0,
    {
        let playtime_str = match &self.playtime {
            Some(s) => s,
            None => { return 0; },
        };
        if str_contains(playtime_str.as_str(), "days") || str_contains(
            playtime_str.as_str(),
            "day",
        ) {
            let parts = split_char(playtime_str.as_str(), ',');
            if parts.len() == 2 {
                proof {
                    let views = parts@.map_values(|p: String| p@);
                    assert(views[0] == parts@[0]@);
                    assert(views[1] == parts@[1]@);
                    lemma_num_or_zero_nonneg(leading_token(trimmed(parts@[0]@)));
                    lemma_time_seconds_nonneg(trimmed(parts@[1]@));
                }
                let day_field = str_trim(parts[0].as_str());
                let day_token = first_token(day_field.as_str());
                let days = parse_or_zero(day_token.as_str());
                let clock = str_trim(parts[1].as_str());
                days * 86400 + Self::parse_time_to_seconds(clock.as_str())
            } else {
                0
            }
        } else {
            let clock = str_trim(playtime_str.as_str());
            proof {
                lemma_time_seconds_nonneg(trimmed(playtime_str@));
            }
            Self::parse_time_to_seconds(clock.as_str())
        }
    }

    /// This game's last-played time in RFC 3339 form, when the field is
    /// present and parses.
    pub fn last_played_rfc3339(&self) -> (r: Option<String>)
        ensures
            match &self.lastplayed {
                None => r is None,
                Some(s) => match (r, lutris_datetime_rfc3339(s@)) {
                    (Some(t), Some(v)) => t@ == v,
                    (None, None) => true,
                    _ => false,
                },
            },
    {
        match &self.lastplayed {
            None => None,
            Some(s) => datetime_to_rfc3339(s.as_str()),
        }
    }

    /// Resolves the full launch data for this game from its parsed config
    /// file values.
    pub fn to_game_data(&self, config: Option<&ParsedGameConfig>) -> (g: GameData)
        requires
            playtime_field_spec(self.playtime) <= i64::MAX,
        ensures
            g.slug == self.slug,
            g.name == self.name,
            g.runner == self.runner,
            g.directory == self.directory,
            g.playtime == playtime_field_spec(self.playtime),
            match &self.lastplayed {
                None => g.last_played is None,
                Some(s) => match (&g.last_played, lutris_datetime_rfc3339(s@)) {
                    (Some(t), Some(v)) => t@ == v,
                    (None, None) => true,
                    _ => false,
                },
            },
            config_fields_post(
                config,
                &self.directory,
                &g.wine_version,
                &g.wine_prefix,
                &g.environment_vars,
                &g.executable,
            ),
            g.cover_url matches Some(p) ==> paths::is_cover_art_path(p@, self.slug@),
            g.debug_output == false,
    {
        let (wine_version, wine_prefix, environment_vars, executable) = match config {
            Some(cfg) => extract_config_fields(cfg, &self.directory),
            None => (None, None, None, None),
        };
        let cover_url = paths::find_cover_art(self.slug.as_str());
        GameData {
            slug: self.slug.clone(),
            name: self.name.clone(),
            runner: self.runner.clone(),
            directory: self.directory.clone(),
            playtime: self.playtime_seconds(),
            last_played: self.last_played_rfc3339(),
            executable,
            wine_version,
            wine_prefix,
            environment_vars,
            cover_url,
            debug_output: false,
        }
    }
}

/// Resolves the full launch data for one game row of the Lutris database,
/// from its plain column values and its parsed config file values. The
/// database stores playtime in hours; the executable falls back to the
/// database column when the config file names none.
pub fn game_data_from_db(
    slug: String,
    name: String,
    runner: Option<String>,
    directory: Option<String>,
    db_executable: Option<String>,
    playtime_hours: i64,
    lastplayed: Option<i64>,
    config: Option<&ParsedGameConfig>,
) -> (g: GameData)
    requires
        0 <= playtime_hours,
        playtime_hours * 3600 <= i64::MAX,
    ensures
        g.slug == slug,
        g.name == name,
        g.runner == runner,
        g.directory == directory,
        g.playtime == playtime_hours * 3600,
        match lastplayed {
            None => g.last_played is None,
            Some(ts) => match (&g.last_played, timestamp_rfc3339(ts as int)) {
                (Some(t), Some(v)) => t@ == v,
                (None, None) => true,
                _ => false,
            },
        },
        exists|from_cfg: Option<String>|
            {
                &&& #[trigger] config_fields_post(
                    config,
                    &directory,
                    &g.wine_version,
                    &g.wine_prefix,
                    &g.environment_vars,
                    &from_cfg,
                )
                &&& g.executable == (match from_cfg {
                    Some(e) => Some(e),
                    None => db_executable,
                })
            },
        g.cover_url matches Some(p) ==> paths::is_cover_art_path(p@, slug@),
        g.debug_output == false,
{
    let (wine_version, wine_prefix, environment_vars, from_cfg) = match config {
        Some(cfg) => extract_config_fields(cfg, &directory),
        None => (None, None, None, None),
    };
    let ghost from_cfg_ghost = from_cfg;
    let executable = match from_cfg {
        Some(e) => Some(e),
        None => db_executable,
    };
    let cover_url = paths::find_cover_art(slug.as_str());
    let last_played = match lastplayed {
        None => None,
        Some(ts) => unix_timestamp_to_rfc3339(ts),
    };
    let g = GameData {
        slug,
        name,
        runner,
        directory,
        playtime: playtime_hours * 3600,
        last_played,
        executable,
        wine_version,
        wine_prefix,
        environment_vars,
        cover_url,
        debug_output: false,
    };
    proof {
        assert(config_fields_post(
            config,
            &g.directory,
            &g.wine_version,
            &g.wine_prefix,
            &g.environment_vars,
            &from_cfg_ghost,
        ));
    }
    g
}

/// The wine prefix a game uses: the config file's prefix, the install
/// directory as fallback, empty when neither is set.
pub open spec fn prefix_spec(cfg_prefix: &Option<String>, directory: &Option<String>) -> Seq<
    char,
> {
    match cfg_prefix {
        Some(p) => p@,
        None => match directory {
            Some(d) => d@,
            None => Seq::empty(),
        },
    }
}

/// One `NAME=value` environment entry.
pub open spec fn env_entry_spec(kv: (Seq<char>, Seq<char>)) -> Seq<char> {
    kv.0 + "="@ + kv.1
}

/// Environment entries rendered `NAME=value`, joined by `;`.
pub open spec fn env_vars_spec(env: Seq<(Seq<char>, Seq<char>)>) -> Seq<char> {
    joined_with(env.map_values(|kv: (Seq<char>, Seq<char>)| env_entry_spec(kv)), ";"@)
}

/// How the four launch fields follow from a game's parsed config values and
/// its install directory. The wine version is the one field the file system
/// has a say in: it is handed back only as a version found under the proton
/// runners directory.
pub open spec fn config_fields_post(
    config: Option<&ParsedGameConfig>,
    directory: &Option<String>,
    wine_version: &Option<String>,
    wine_prefix: &Option<String>,
    environment_vars: &Option<String>,
    executable: &Option<String>,
) -> bool {
    match config {
        None => {
            &&& wine_version is None
            &&& wine_prefix is None
            &&& environment_vars is None
            &&& executable is None
        },
        Some(cfg) => {
            let prefix = prefix_spec(&cfg.prefix, directory);
            &&& (*wine_version matches Some(p) ==> (cfg.wine_version matches Some(v)
                && exists|base: Seq<char>|
                p@ == joined(
                    joined(paths::data_subdir_path(base, "runners"@), "proton"@),
                    v@,
                )))
            &&& (cfg.wine_version is None ==> wine_version is None)
            &&& match wine_prefix {
                Some(p) => prefix.len() > 0 && p@ == prefix,
                None => prefix.len() == 0,
            }
            &&& match (&cfg.exe, executable) {
                (Some(e), Some(full)) => full@ == if is_prefix_of("/"@, e@) {
                    e@
                } else {
                    joined(prefix, e@)
                },
                (None, None) => true,
                _ => false,
            }
            &&& match environment_vars {
                Some(s) => cfg.env@.len() > 0 && s@ == env_vars_spec(
                    cfg.env@.map_values(|kv: (String, String)| (kv.0@, kv.1@)),
                ),
                None => cfg.env@.len() == 0,
            }
        },
    }
}

/// Extracts the four launch fields from a game's parsed config values.
fn extract_config_fields(cfg: &ParsedGameConfig, directory: &Option<String>) -> (r: (
    Option<String>,
    Option<String>,
    Option<String>,
    Option<String>,
))
    ensures
        config_fields_post(Some(cfg), directory, &r.0, &r.1, &r.2, &r.3),
{
    let mut wine_version: Option<String> = None;
    if let Some(version_name) = &cfg.wine_version {
        if let Some(proton_dir) = paths::lutris_proton_dir() {
            let version_path = paths::path_join(proton_dir.as_str(), version_name.as_str());
            if paths::path_exists(version_path.as_str()) {
                wine_version = Some(version_path);
            }
        }
    }
    let prefix: String = match &cfg.prefix {
        Some(p) => p.clone(),
        None => match directory {
            Some(d) => d.clone(),
            None => String::new(),
        },
    };
    let wine_prefix: Option<String> = if prefix.unicode_len() == 0 {
        None
    } else {
        Some(prefix.clone())
    };
    let executable: Option<String> = match &cfg.exe {
        Some(e) => {
            if str_starts_with(e.as_str(), "/") {
                Some(e.clone())
            } else {
                Some(paths::path_join(prefix.as_str(), e.as_str()))
            }
        },
        None => None,
    };
    let environment_vars: Option<String> = if cfg.env.len() == 0 {
        None
    } else {
        let n = cfg.env.len();
        let ghost pair_views = cfg.env@.map_values(|kv: (String, String)| (kv.0@, kv.1@));
        let ghost entry_views = pair_views.map_values(
            |kv: (Seq<char>, Seq<char>)| env_entry_spec(kv),
        );
        let mut entries: Vec<String> = Vec::new();
        let mut i: usize = 0;
        while i < n
            invariant
                n == cfg.env@.len(),
                i <= n,
                pair_views == cfg.env@.map_values(|kv: (String, String)| (kv.0@, kv.1@)),
                entry_views == pair_views.map_values(
                    |kv: (Seq<char>, Seq<char>)| env_entry_spec(kv),
                ),
                entries@.len() == i,
                forall|j: int| 0 <= j < i ==> (#[trigger] entries@[j])@ == entry_views[j],
            decreases n - i,
        {
            let mut entry = cfg.env[i].0.clone();
            entry.append("=");
            entry.append(cfg.env[i].1.as_str());
            proof {
                assert(pair_views[i as int] == (cfg.env@[i as int].0@, cfg.env@[i as int].1@));
                assert(entry@ == env_entry_spec(pair_views[i as int]));
                assert(entry_views[i as int] == entry@);
            }
            entries.push(entry);
            i = i + 1;
        }
        let joined_env = crate::strutil::join_with(&entries, ";");
        proof {
            assert(entries@.map_values(|p: String| p@) =~~= entry_views);
            assert(entry_views =~~= pair_views.map_values(
                |kv: (Seq<char>, Seq<char>)| env_entry_spec(kv),
            ));
            assert(cfg.env@.map_values(|kv: (String, String)| (kv.0@, kv.1@)) =~~= pair_views);
            assert(joined_env@ == env_vars_spec(
                cfg.env@.map_values(|kv: (String, String)| (kv.0@, kv.1@)),
            ));
        }
        Some(joined_env)
    };
    (wine_version, wine_prefix, environment_vars, executable)
}

} // verus!
