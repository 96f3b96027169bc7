use rustris::proton::{
    conflicts_with_tag, deletion_allowed, is_proton_archive_asset, name_without_source,
    pick_release_asset, prefixed_install_name, ProtonAsset,
};
use rustris::wine::{
    build_wine_version_list, check_lutris_availability, default_wine_folder,
    version_name_from_file, wine_settings_for_version, ScannedWineVersion,
};

fn scanned(name: &str, source: &str, path: &str) -> ScannedWineVersion {
    ScannedWineVersion {
        name: name.to_string(),
        source: source.to_string(),
        path: path.to_string(),
    }
}

#[test]
fn version_file_second_field() {
    assert_eq!(
        version_name_from_file("1762104463 GE-Proton10-25", "dir-name"),
        "GE-Proton10-25"
    );
    assert_eq!(version_name_from_file("justonefield", "dir-name"), "dir-name");
    assert_eq!(version_name_from_file("", "dir-name"), "dir-name");
}

#[test]
fn version_list_disambiguates_sorts_and_dedups() {
    let found = vec![
        scanned("Wine8", "Lutris", "/runners/c"),
        scanned("GE-Proton9", "Steam", "/steam/b"),
        scanned("GE-Proton9", "Lutris", "/runners/a"),
        scanned("Wine8", "Lutris", "/runners/c"),
    ];
    let list = build_wine_version_list(found);
    let rendered: Vec<(String, String)> = list
        .iter()
        .map(|v| (v.display_name.clone(), v.path.clone()))
        .collect();
    assert_eq!(
        rendered,
        vec![
            ("GE-Proton9 (Lutris)".to_string(), "/runners/a".to_string()),
            ("GE-Proton9 (Steam)".to_string(), "/steam/b".to_string()),
            ("Wine8 (Lutris)".to_string(), "/runners/c".to_string()),
        ]
    );
}

#[test]
fn version_list_unique_names_stay_plain() {
    let found = vec![
        scanned("Wine9", "Lutris", "/runners/w9"),
        scanned("GE-Proton8", "Steam", "/steam/ge8"),
    ];
    let list = build_wine_version_list(found);
    let names: Vec<String> = list.iter().map(|v| v.display_name.clone()).collect();
    assert_eq!(names, vec!["GE-Proton8".to_string(), "Wine9".to_string()]);
}

#[test]
fn default_folder_from_custom_path() {
    let folder = default_wine_folder(Some("/data/runners/wine/GE-Proton9/proton"), None);
    assert_eq!(folder.as_deref(), Some("/data/runners/wine/GE-Proton9"));
    assert!(default_wine_folder(None, None).is_none());
}

#[test]
fn settings_for_version_update() {
    let settings = wine_settings_for_version("/runners/wine/rustris-GE-Proton10-27").unwrap();
    assert_eq!(settings.version.as_deref(), Some("rustris-GE-Proton10-27"));
    assert!(settings.custom_wine_path.is_none());
    assert!(wine_settings_for_version("/ends/with/slash/").is_err());
}

#[test]
fn availability_report() {
    let report = check_lutris_availability(true, false, "/home/user", None);
    assert!(report.is_available);
    assert_eq!(report.installation_type.as_deref(), Some("System Lutris (lutris)"));
    assert!(report.install_instructions.is_none());

    let report = check_lutris_availability(false, true, "/home/user", None);
    assert!(report.is_available);
    assert_eq!(
        report.installation_type.as_deref(),
        Some("Flatpak Lutris (net.lutris.Lutris)")
    );

    let report = check_lutris_availability(false, false, "/home/user", Some("ID=fedora"));
    assert!(!report.is_available);
    assert!(report.installation_type.is_none());
    let instructions = report.install_instructions.unwrap();
    assert!(instructions.contains("Lutris is not installed"));
    assert!(instructions.contains("sudo dnf install lutris"));
}

#[test]
fn archive_asset_selection() {
    assert!(is_proton_archive_asset("GE-Proton9-1.tar.gz"));
    assert!(!is_proton_archive_asset("GE-Proton9-1.tar.gz.sha512sum"));
    assert!(!is_proton_archive_asset("GE-Proton9-1.zip"));

    let assets = vec![
        ProtonAsset {
            name: "GE.sha512sum".to_string(),
            download_url: "u1".to_string(),
            size_bytes: 10,
        },
        ProtonAsset {
            name: "GE.tar.gz".to_string(),
            download_url: "u2".to_string(),
            size_bytes: 999,
        },
    ];
    let picked = pick_release_asset(&assets).unwrap();
    assert_eq!(picked.download_url, "u2");
    assert_eq!(picked.size_bytes, 999);

    let none: Vec<ProtonAsset> = Vec::new();
    assert!(pick_release_asset(&none).is_none());
}

#[test]
fn install_name_prefix() {
    assert_eq!(prefixed_install_name("GE-Proton10-27"), "rustris-GE-Proton10-27");
}

#[test]
fn conflict_detection() {
    assert!(conflicts_with_tag(
        "GE-Proton10-27",
        "GE-Proton10-27 (Lutris)",
        "/somewhere/else"
    ));
    assert!(conflicts_with_tag(
        "GE-Proton10-27",
        "other name",
        "/runners/wine/GE-Proton10-27"
    ));
    assert!(!conflicts_with_tag("GE-Proton10-27", "GE-Proton9", "/runners/x"));
    assert_eq!(name_without_source("GE-Proton9 (Steam)"), "GE-Proton9");
    assert_eq!(name_without_source("plain"), "plain");
}

#[test]
fn deletion_rules() {
    // outside the managed directories: refused
    let err = deletion_allowed("/usr/bin/wine", None).unwrap_err();
    assert!(err.contains("Can only delete"));

    // inside, not the default: allowed
    assert!(deletion_allowed("/h/.local/share/lutris/runners/wine/GE9", None).is_ok());

    // the default version's folder is protected, as is its container
    let default = "/h/.local/share/lutris/runners/wine/GE9";
    let err = deletion_allowed("/h/.local/share/lutris/runners/wine/GE9", Some(default))
        .unwrap_err();
    assert!(err.contains("Cannot delete the default"));
    let err = deletion_allowed("/h/.local/share/lutris/runners/wine", Some(default)).unwrap_err();
    assert!(err.contains("Cannot delete the default"));
    assert!(
        deletion_allowed("/h/.local/share/lutris/runners/wine/Other", Some(default)).is_ok()
    );
}
