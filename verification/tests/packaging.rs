use marrow::packaging::{
    icns_data, linux_desktop_entry, stage_linux_desktop_assets,
    stage_linux_desktop_assets_with_exec, stage_macos_bundle, LAUNCHER,
};

#[test]
fn macos_bundle_stages_outside_home() {
    let bundle = stage_macos_bundle("/stage");
    assert!(bundle.app_path.ends_with("Applications/Marrow.app"));
    assert_eq!(bundle.plist_path, "/stage/Applications/Marrow.app/Contents/Info.plist");
    assert_eq!(
        bundle.launcher_path,
        "/stage/Applications/Marrow.app/Contents/MacOS/marrow-launcher"
    );
    assert_eq!(bundle.binary_path, "/stage/Applications/Marrow.app/Contents/MacOS/marrow");
    assert_eq!(
        bundle.icon_path,
        "/stage/Applications/Marrow.app/Contents/Resources/Marrow.icns"
    );
    assert!(LAUNCHER.contains("$HERE/marrow"));
    assert!(!LAUNCHER.contains("/stage"));
}

#[test]
fn linux_assets_stage_outside_home() {
    let stage = stage_linux_desktop_assets("/stage", "/usr/local/bin/marrow", None);
    assert!(stage
        .assets
        .desktop_path
        .ends_with(".local/share/applications/marrow.desktop"));
    assert!(stage
        .assets
        .icon_path
        .ends_with(".local/share/icons/hicolor/256x256/apps/marrow.png"));
    assert!(stage.entry.contains("ui-app open"));
    assert_eq!(stage.desktop_dir.as_deref(), Some("/stage/.local/share/applications"));
}

#[test]
fn linux_assets_support_package_specific_exec_targets() {
    let stage = stage_linux_desktop_assets_with_exec("/stage", "/usr/bin/marrow ui-app open");
    assert!(stage.entry.contains("Exec=/usr/bin/marrow ui-app open"));

    let appimage = stage_linux_desktop_assets_with_exec("/stage", "AppRun");
    assert!(appimage.entry.contains("Exec=AppRun"));
    assert!(!appimage.entry.contains("ui-app open"));
    assert_eq!(appimage.entry, linux_desktop_entry("AppRun"));
}

#[test]
fn a_set_command_takes_the_place_of_the_program() {
    let stage = stage_linux_desktop_assets("/stage", "/usr/local/bin/marrow", Some("AppRun"));
    assert!(stage.entry.contains("Exec=AppRun"));
}

#[test]
fn icon_data_names_its_lengths() {
    let icon = icns_data(&vec![1, 2, 3]);
    assert_eq!(&icon[..8], b"icns\x00\x00\x00\x13");
    assert_eq!(&icon[8..16], b"ic08\x00\x00\x00\x0b");
    assert_eq!(&icon[16..], &[1, 2, 3]);
}
