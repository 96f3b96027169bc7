//! Configuration of a Lutris installation: which kind it is (system package,
//! Flatpak, custom path), the directories that follow from that choice, and
//! the advice shown when no installation is found.
//!
//! Detection itself (running probes, reading the OS release file) is I/O and
//! stays outside; everything decided from the probe outcomes is here.

use vstd::prelude::*;
use vstd::string::StringExecFns;

use crate::paths::{joined, path_exists, path_join};
use crate::strutil::{contains_seq, str_contains};

verus! {

/// Kind of Lutris installation in use.
#[derive(Debug, Clone, Copy, PartialEq, Eq, Structural)]
pub enum LutrisType {
    /// Installed through the system package manager.
    System,
    /// The Flatpak distribution.
    Flatpak,
    /// A path the user supplied.
    Custom,
}

/// One Lutris installation: its kind, its executable, and its config, data
/// and cache directories.
#[derive(Debug, Clone)]
pub struct LutrisConfig {
    pub lutris_type: LutrisType,
    pub executable_path: String,
    pub config_dir: String,
    pub data_dir: String,
    pub cache_dir: String,
}

/// The configuration a system-wide Lutris has under the given home
/// directory.
pub open spec fn is_system_config(c: LutrisConfig, home: Seq<char>) -> bool {
    &&& c.lutris_type is System
    &&& c.executable_path@ == "lutris"@
    &&& c.config_dir@ == joined(home, ".config/lutris"@)
    &&& c.data_dir@ == joined(home, ".local/share/lutris"@)
    &&& c.cache_dir@ == joined(home, ".cache/lutris"@)
}

/// The configuration a Flatpak Lutris has under the given home directory.
pub open spec fn is_flatpak_config(c: LutrisConfig, home: Seq<char>) -> bool {
    &&& c.lutris_type is Flatpak
    &&& c.executable_path@ == "flatpak"@
    &&& c.config_dir@ == joined(home, ".var/app/net.lutris.Lutris/config/lutris"@)
    &&& c.data_dir@ == joined(home, ".var/app/net.lutris.Lutris/data/lutris"@)
    &&& c.cache_dir@ == joined(home, ".var/app/net.lutris.Lutris/cache/lutris"@)
}

/// Human-readable name of the distribution an OS release file describes,
/// among the ones the install advice distinguishes.
pub open spec fn distro_name_spec(os_release: Option<Seq<char>>) -> Seq<char> {
    match os_release {
        Some(c) => if contains_seq(c, "ID=ubuntu"@) || contains_seq(c, "ID=debian"@) {
            "Ubuntu/Debian"@
        } else if contains_seq(c, "ID=fedora"@) {
            "Fedora"@
        } else if contains_seq(c, "ID=arch"@) || contains_seq(c, "ID=manjaro"@) {
            "Arch Linux"@
        } else if contains_seq(c, "ID=opensuse"@) {
            "openSUSE"@
        } else {
            "your Linux distribution"@
        },
        None => "your Linux distribution"@,
    }
}

/// The install command suggested for the distribution an OS release file
/// describes.
pub open spec fn distro_install_spec(os_release: Option<Seq<char>>) -> Seq<char> {
    match os_release {
        Some(c) => if contains_seq(c, "ID=ubuntu"@) || contains_seq(c, "ID=debian"@) {
            "sudo apt update && sudo apt install lutris"@
        } else if contains_seq(c, "ID=fedora"@) {
            "sudo dnf install lutris"@
        } else if contains_seq(c, "ID=arch"@) || contains_seq(c, "ID=manjaro"@) {
            "sudo pacman -S lutris"@
        } else if contains_seq(c, "ID=opensuse"@) {
            "sudo zypper install lutris"@
        } else {
            "Use your package manager to install 'lutris' or visit https://lutris.net/downloads"@
        },
        None => "Use your package manager to install 'lutris' or visit https://lutris.net/downloads"@,
    }
}

/// The full advice shown when Lutris is missing, for the given OS release
/// file contents.
pub open spec fn install_instructions_spec(os_release: Option<Seq<char>>) -> Seq<char> {
    "Lutris is not installed on your system.\n\nTo install Lutris on "@ + distro_name_spec(
        os_release,
    ) + ":\n  "@ + distro_install_spec(os_release)
        + "\n\nAfter installation, restart this application."@
}

/// What `description` renders for a configuration.
pub open spec fn description_spec(c: LutrisConfig) -> Seq<char> {
    match c.lutris_type {
        LutrisType::System => "System Lutris ("@ + c.executable_path@ + ")"@,
        LutrisType::Flatpak => "Flatpak Lutris (net.lutris.Lutris)"@,
        LutrisType::Custom => "Custom Lutris ("@ + c.executable_path@ + ")"@,
    }
}

impl LutrisConfig {
    /// Configuration of a system-wide Lutris, under the given home
    /// directory.
    pub fn system(home: &str) -> (c: LutrisConfig)
        ensures
            is_system_config(c, home@),
    {
        LutrisConfig {
            lutris_type: LutrisType::System,
            executable_path: "lutris".to_owned(),
            config_dir: path_join(home, ".config/lutris"),
            data_dir: path_join(home, ".local/share/lutris"),
            cache_dir: path_join(home, ".cache/lutris"),
        }
    }

    /// Configuration of a Flatpak Lutris, under the given home directory.
    pub fn flatpak(home: &str) -> (c: LutrisConfig)
        ensures
            is_flatpak_config(c, home@),
    {
        LutrisConfig {
            lutris_type: LutrisType::Flatpak,
            executable_path: "flatpak".to_owned(),
            config_dir: path_join(home, ".var/app/net.lutris.Lutris/config/lutris"),
            data_dir: path_join(home, ".var/app/net.lutris.Lutris/data/lutris"),
            cache_dir: path_join(home, ".var/app/net.lutris.Lutris/cache/lutris"),
        }
    }

    /// Configuration with directories the user chose.
    pub fn custom(
        executable_path: String,
        config_dir: String,
        data_dir: String,
        cache_dir: String,
    ) -> (c: LutrisConfig)
        ensures
            c.lutris_type is Custom,
            c.executable_path == executable_path,
            c.config_dir == config_dir,
            c.data_dir == data_dir,
            c.cache_dir == cache_dir,
    {
        LutrisConfig { lutris_type: LutrisType::Custom, executable_path, config_dir, data_dir, cache_dir }
    }

    /// Picks the installation to use from the probe outcomes: a system
    /// Lutris when present, else the Flatpak one, else the install advice as
    /// the error.
    pub fn auto_detect(
        system_present: bool,
        flatpak_present: bool,
        home: &str,
        os_release: Option<&str>,
    ) -> (r: Result<LutrisConfig, String>)
        ensures
            system_present ==> (r matches Ok(c) && is_system_config(c, home@)),
            !system_present && flatpak_present ==> (r matches Ok(c) && is_flatpak_config(
                c,
                home@,
            )),
            !system_present && !flatpak_present ==> (r matches Err(msg) && msg@
                == install_instructions_spec(
                match os_release {
                    Some(s) => Some(s@),
                    None => None,
                },
            )),
    {
        if system_present {
            Ok(Self::system(home))
        } else if flatpak_present {
            Ok(Self::flatpak(home))
        } else {
            Err(Self::get_install_instructions(os_release))
        }
    }

    /// The advice shown when no Lutris is found, tailored to the
    /// distribution the OS release file contents describe.
    pub fn get_install_instructions(os_release: Option<&str>) -> (msg: String)
        ensures
            msg@ == install_instructions_spec(
                match os_release {
                    Some(s) => Some(s@),
                    None => None,
                },
            ),
    {
        let (name, command) = Self::detect_distro(os_release);
        let mut msg = "Lutris is not installed on your system.\n\nTo install Lutris on "
            .to_owned();
        msg.append(name.as_str());
        msg.append(":\n  ");
        msg.append(command.as_str());
        msg.append("\n\nAfter installation, restart this application.");
        msg
    }

    /// Names the distribution and its install command from the OS release
    /// file contents.
    fn detect_distro(os_release: Option<&str>) -> (r: (String, String))
        ensures
            r.0@ == distro_name_spec(
                match os_release {
                    Some(s) => Some(s@),
                    None => None,
                },
            ),
            r.1@ == distro_install_spec(
                match os_release {
                    Some(s) => Some(s@),
                    None => None,
                },
            ),
    {
        if let Some(contents) = os_release {
            if str_contains(contents, "ID=ubuntu") || str_contains(contents, "ID=debian") {
                (
                    "Ubuntu/Debian".to_owned(),
                    "sudo apt update && sudo apt install lutris".to_owned(),
                )
            } else if str_contains(contents, "ID=fedora") {
                ("Fedora".to_owned(), "sudo dnf install lutris".to_owned())
            } else if str_contains(contents, "ID=arch") || str_contains(contents, "ID=manjaro") {
                ("Arch Linux".to_owned(), "sudo pacman -S lutris".to_owned())
            } else if str_contains(contents, "ID=opensuse") {
                ("openSUSE".to_owned(), "sudo zypper install lutris".to_owned())
            } else {
                (
                    "your Linux distribution".to_owned(),
                    "Use your package manager to install 'lutris' or visit https://lutris.net/downloads".to_owned(),
                )
            }
        } else {
            (
                "your Linux distribution".to_owned(),
                "Use your package manager to install 'lutris' or visit https://lutris.net/downloads".to_owned(),
            )
        }
    }

    /// Whether this installation is usable, given the probe outcomes for the
    /// system and Flatpak installations; a custom installation is usable
    /// when its executable exists on disk.
    pub fn is_lutris_available(&self, system_present: bool, flatpak_present: bool) -> (r: bool)
        ensures
            self.lutris_type is System ==> r == system_present,
            self.lutris_type is Flatpak ==> r == flatpak_present,
    {
        match self.lutris_type {
            LutrisType::System => system_present,
            LutrisType::Flatpak => flatpak_present,
            LutrisType::Custom => path_exists(self.executable_path.as_str()),
        }
    }

    /// A human-readable description of the installation.
    pub fn description(&self) -> (r: String)
        ensures
            r@ == description_spec(*self),
    {
        match self.lutris_type {
            LutrisType::System => {
                let mut r = "System Lutris (".to_owned();
                r.append(self.executable_path.as_str());
                r.append(")");
                r
            },
            LutrisType::Flatpak => "Flatpak Lutris (net.lutris.Lutris)".to_owned(),
            LutrisType::Custom => {
                let mut r = "Custom Lutris (".to_owned();
                r.append(self.executable_path.as_str());
                r.append(")");
                r
            },
        }
    }

    /// The program and arguments that launch this installation's
    /// command-line interface.
    pub fn launch_invocation(&self) -> (r: (String, Vec<String>))
        ensures
            self.lutris_type is Flatpak ==> r.0@ == "flatpak"@ && r.1@.len() == 2 && r.1@[0]@
                == "run"@ && r.1@[1]@ == "net.lutris.Lutris"@,
            !(self.lutris_type is Flatpak) ==> r.0 == self.executable_path && r.1@.len() == 0,
    {
        match self.lutris_type {
            LutrisType::Flatpak => {
                let mut args: Vec<String> = Vec::new();
                args.push("run".to_owned());
                args.push("net.lutris.Lutris".to_owned());
                ("flatpak".to_owned(), args)
            },
            _ => {
                let args: Vec<String> = Vec::new();
                (self.executable_path.clone(), args)
            },
        }
    }

    /// Path of the Lutris game database.
    pub fn database_path(&self) -> (r: String)
        ensures
            r@ == joined(self.data_dir@, "pga.db"@),
    {
        path_join(self.data_dir.as_str(), "pga.db")
    }

    /// Directory of per-game config files.
    pub fn games_config_dir(&self) -> (r: String)
        ensures
            r@ == joined(self.config_dir@, "games"@),
    {
        path_join(self.config_dir.as_str(), "games")
    }

    /// Path of one game's config file, when it exists on disk.
    pub fn game_config(&self, config_name: &str) -> (r: Option<String>)
        ensures
            r matches Some(p) ==> p@ == joined(
                joined(self.config_dir@, "games"@),
                config_name@ + ".yml"@,
            ),
    {
        let dir = self.games_config_dir();
        let mut file = config_name.to_owned();
        file.append(".yml");
        let candidate = path_join(dir.as_str(), file.as_str());
        if path_exists(candidate.as_str()) {
            Some(candidate)
        } else {
            None
        }
    }

    /// Directory of runner config files.
    pub fn runners_config_dir(&self) -> (r: String)
        ensures
            r@ == joined(self.config_dir@, "runners"@),
    {
        path_join(self.config_dir.as_str(), "runners")
    }

    /// Path of the wine runner config file.
    pub fn wine_config(&self) -> (r: String)
        ensures
            r@ == joined(joined(self.config_dir@, "runners"@), "wine.yml"@),
    {
        path_join(self.runners_config_dir().as_str(), "wine.yml")
    }

    /// Directory where runner versions are stored.
    pub fn runners_dir(&self) -> (r: String)
        ensures
            r@ == joined(self.data_dir@, "runners"@),
    {
        path_join(self.data_dir.as_str(), "runners")
    }

    /// Directory of wine and proton runner versions.
    pub fn proton_dir(&self) -> (r: String)
        ensures
            r@ == joined(joined(self.data_dir@, "runners"@), "wine"@),
    {
        path_join(self.runners_dir().as_str(), "wine")
    }

    /// Directory of wine prefixes.
    pub fn wine_prefixes_dir(&self) -> (r: String)
        ensures
            r@ == joined(self.data_dir@, "runners/wine/prefixes"@),
    {
        path_join(self.data_dir.as_str(), "runners/wine/prefixes")
    }

    /// Cover art directory.
    pub fn coverart_dir(&self) -> (r: String)
        ensures
            r@ == joined(self.data_dir@, "coverart"@),
    {
        path_join(self.data_dir.as_str(), "coverart")
    }

    /// Banners directory.
    pub fn banners_dir(&self) -> (r: String)
        ensures
            r@ == joined(self.data_dir@, "banners"@),
    {
        path_join(self.data_dir.as_str(), "banners")
    }

    /// Finds cover art for a slug in this installation's cover art and
    /// banner directories, `.jpg` before `.png`, returning the first
    /// candidate present on disk.
    pub fn find_cover_art(&self, slug: &str) -> (r: Option<String>)
        ensures
            r matches Some(p) ==> {
                ||| p@ == joined(joined(self.data_dir@, "coverart"@), slug@ + ".jpg"@)
                ||| p@ == joined(joined(self.data_dir@, "coverart"@), slug@ + ".png"@)
                ||| p@ == joined(joined(self.data_dir@, "banners"@), slug@ + ".jpg"@)
                ||| p@ == joined(joined(self.data_dir@, "banners"@), slug@ + ".png"@)
            },
    {
        let cover_dir = self.coverart_dir();
        let banner_dir = self.banners_dir();
        let mut jpg = slug.to_owned();
        jpg.append(".jpg");
        let mut png = slug.to_owned();
        png.append(".png");
        let p = path_join(cover_dir.as_str(), jpg.as_str());
        if path_exists(p.as_str()) {
            return Some(p);
        }
        let p = path_join(cover_dir.as_str(), png.as_str());
        if path_exists(p.as_str()) {
            return Some(p);
        }
        let p = path_join(banner_dir.as_str(), jpg.as_str());
        if path_exists(p.as_str()) {
            return Some(p);
        }
        let p = path_join(banner_dir.as_str(), png.as_str());
        if path_exists(p.as_str()) {
            return Some(p);
        }
        None
    }

    /// Finds the umu-run helper that ships with Lutris, checking its common
    /// install locations on disk.
    pub fn umu_run_executable(&self) -> (r: Option<String>)
        ensures
            r matches Some(p) ==> {
                ||| p@ == "/usr/share/lutris/bin/umu-run"@
                ||| p@ == "/usr/local/share/lutris/bin/umu-run"@
                ||| p@ == "/app/share/lutris/bin/umu-run"@
            },
    {
        let a = "/usr/share/lutris/bin/umu-run".to_owned();
        if path_exists(a.as_str()) {
            return Some(a);
        }
        let b = "/usr/local/share/lutris/bin/umu-run".to_owned();
        if path_exists(b.as_str()) {
            return Some(b);
        }
        let c = "/app/share/lutris/bin/umu-run".to_owned();
        if path_exists(c.as_str()) {
            return Some(c);
        }
        None
    }
}

} // verus!
