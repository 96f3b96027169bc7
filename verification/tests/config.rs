use rustris::lutris_config::{LutrisConfig, LutrisType};

#[test]
fn test_auto_detect() {
    // Should return either Ok with valid config or Err with install instructions
    match LutrisConfig::auto_detect(true, false, "/home/user", None) {
        Ok(config) => {
            assert!(!config.executable_path.is_empty());
        }
        Err(_) => panic!("a present system installation must be detected"),
    }
    match LutrisConfig::auto_detect(false, false, "/home/user", None) {
        Ok(_) => panic!("no installation present: detection must fail"),
        Err(msg) => {
            // Should contain installation instructions
            assert!(msg.contains("Lutris is not installed"));
        }
    }
}

#[test]
fn test_system_config() {
    let config = LutrisConfig::system("/home/user");
    assert_eq!(config.lutris_type, LutrisType::System);
    assert!(config.config_dir.contains(".config/lutris"));
}

#[test]
fn test_description() {
    let config = LutrisConfig::system("/home/user");
    let desc = config.description();
    assert!(desc.contains("System Lutris"));
}

#[test]
fn flatpak_config_paths() {
    let config = LutrisConfig::flatpak("/home/user");
    assert_eq!(config.lutris_type, LutrisType::Flatpak);
    assert_eq!(config.executable_path, "flatpak");
    assert_eq!(
        config.data_dir,
        "/home/user/.var/app/net.lutris.Lutris/data/lutris"
    );
    assert!(config
        .description()
        .contains("Flatpak Lutris (net.lutris.Lutris)"));
}

#[test]
fn custom_config_keeps_paths() {
    let config = LutrisConfig::custom(
        "/opt/lutris/bin/lutris".to_string(),
        "/tmp/cfg".to_string(),
        "/tmp/data".to_string(),
        "/tmp/cache".to_string(),
    );
    assert_eq!(config.lutris_type, LutrisType::Custom);
    assert_eq!(config.database_path(), "/tmp/data/pga.db");
    assert!(config.description().contains("Custom Lutris (/opt/lutris/bin/lutris)"));
}

#[test]
fn derived_directories() {
    let config = LutrisConfig::system("/home/user");
    assert_eq!(config.database_path(), "/home/user/.local/share/lutris/pga.db");
    assert_eq!(config.games_config_dir(), "/home/user/.config/lutris/games");
    assert_eq!(config.runners_config_dir(), "/home/user/.config/lutris/runners");
    assert_eq!(config.wine_config(), "/home/user/.config/lutris/runners/wine.yml");
    assert_eq!(config.runners_dir(), "/home/user/.local/share/lutris/runners");
    assert_eq!(config.proton_dir(), "/home/user/.local/share/lutris/runners/wine");
    assert_eq!(
        config.wine_prefixes_dir(),
        "/home/user/.local/share/lutris/runners/wine/prefixes"
    );
    assert_eq!(config.coverart_dir(), "/home/user/.local/share/lutris/coverart");
    assert_eq!(config.banners_dir(), "/home/user/.local/share/lutris/banners");
}

#[test]
fn install_instructions_per_distro() {
    let ubuntu = LutrisConfig::get_install_instructions(Some("ID=ubuntu\nVERSION=22.04"));
    assert!(ubuntu.contains("Ubuntu/Debian"));
    assert!(ubuntu.contains("sudo apt update && sudo apt install lutris"));

    let fedora = LutrisConfig::get_install_instructions(Some("ID=fedora"));
    assert!(fedora.contains("Fedora"));
    assert!(fedora.contains("sudo dnf install lutris"));

    let arch = LutrisConfig::get_install_instructions(Some("ID=arch"));
    assert!(arch.contains("Arch Linux"));
    assert!(arch.contains("sudo pacman -S lutris"));

    let suse = LutrisConfig::get_install_instructions(Some("ID=opensuse"));
    assert!(suse.contains("openSUSE"));
    assert!(suse.contains("sudo zypper install lutris"));

    let unknown = LutrisConfig::get_install_instructions(Some("ID=plan9"));
    assert!(unknown.contains("your Linux distribution"));
    assert!(unknown.contains("package manager"));

    let missing = LutrisConfig::get_install_instructions(None);
    assert!(missing.contains("your Linux distribution"));
    assert!(missing.contains("Lutris is not installed"));
}

#[test]
fn availability_follows_probes() {
    let system = LutrisConfig::system("/home/user");
    assert!(system.is_lutris_available(true, false));
    assert!(!system.is_lutris_available(false, true));
    let flatpak = LutrisConfig::flatpak("/home/user");
    assert!(flatpak.is_lutris_available(false, true));
    assert!(!flatpak.is_lutris_available(true, false));
}

#[test]
fn auto_detect_prefers_system() {
    let config = LutrisConfig::auto_detect(true, true, "/home/user", None).unwrap();
    assert_eq!(config.lutris_type, LutrisType::System);
    let config = LutrisConfig::auto_detect(false, true, "/home/user", None).unwrap();
    assert_eq!(config.lutris_type, LutrisType::Flatpak);
}

#[test]
fn launch_invocation_per_kind() {
    let system = LutrisConfig::system("/home/user");
    let (program, args) = system.launch_invocation();
    assert_eq!(program, "lutris");
    assert!(args.is_empty());

    let flatpak = LutrisConfig::flatpak("/home/user");
    let (program, args) = flatpak.launch_invocation();
    assert_eq!(program, "flatpak");
    assert_eq!(args, vec!["run".to_string(), "net.lutris.Lutris".to_string()]);
}
