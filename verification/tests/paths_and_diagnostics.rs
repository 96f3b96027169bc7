use rustris::diagnostics::{
    is_crash_log_name, log_export_filename, os_release_field, parse_os_release, str_trim_quotes,
};
use rustris::paths::{last_path_segment, parent_path, path_join, system_wine_paths};

#[test]
fn joining_paths() {
    assert_eq!(path_join("/home/user", ".config/lutris"), "/home/user/.config/lutris");
    assert_eq!(path_join("", "x"), "/x");
}

#[test]
fn path_segments() {
    assert_eq!(last_path_segment("/a/b/GE-Proton9"), "GE-Proton9");
    assert_eq!(last_path_segment("bare"), "bare");
    assert_eq!(last_path_segment("/a/b/"), "");
    assert_eq!(parent_path("/a/b/proton"), "/a/b");
    assert_eq!(parent_path("bare"), "");
}

#[test]
fn known_system_wine_paths() {
    let paths = system_wine_paths();
    assert_eq!(paths, vec!["/usr/bin/wine".to_string(), "/usr/local/bin/wine".to_string()]);
}

#[test]
fn crash_log_names() {
    assert!(is_crash_log_name("crash_20240101.log"));
    assert!(!is_crash_log_name("crash_20240101.txt"));
    assert!(!is_crash_log_name("notes.log"));
    assert!(!is_crash_log_name("crash_"));
}

#[test]
fn export_filename_shape() {
    assert_eq!(
        log_export_filename("test-game", "20240101_120000"),
        "test-game_lutris_20240101_120000.log"
    );
}

#[test]
fn quote_trimming() {
    assert_eq!(str_trim_quotes("\"Fedora Linux 39\""), "Fedora Linux 39");
    assert_eq!(str_trim_quotes("no quotes"), "no quotes");
    assert_eq!(str_trim_quotes("\"\""), "");
}

#[test]
fn os_release_parsing() {
    let contents = "NAME=\"Fedora Linux\"\nPRETTY_NAME=\"Fedora Linux 39 (Workstation)\"\nVERSION=\"39 (Workstation Edition)\"\nID=fedora";
    let (name, version) = parse_os_release(contents);
    assert_eq!(name, "Fedora Linux 39 (Workstation)");
    assert_eq!(version, "39 (Workstation Edition)");

    let (name, version) = parse_os_release("ID=mystery");
    assert_eq!(name, "Unknown");
    assert_eq!(version, "Unknown");
}

#[test]
fn os_release_last_match_wins() {
    let contents = "PRETTY_NAME=\"First\"\nPRETTY_NAME=\"Second\"";
    assert_eq!(
        os_release_field(contents, "PRETTY_NAME=").as_deref(),
        Some("Second")
    );
    assert!(os_release_field(contents, "VERSION=").is_none());
}
