use arc_core::deeplink::{
    is_appimage, is_flatpak_bundle, is_flatpakref, is_flatpakrepo, is_pkg_file, parse_flatpakref,
    parse_flatpakrepo, pkg_name_from_filename, resolve_args, take_intent, ArgsAction, LaunchIntent,
};

fn args(a: &[&str]) -> Vec<String> {
    a.iter().map(|s| s.to_string()).collect()
}

#[test]
fn package_files() {
    assert!(is_pkg_file("/tmp/a.DEB"));
    assert!(is_pkg_file("/tmp/a.rpm"));
    assert!(is_pkg_file("/tmp/a.pkg.tar.zst"));
    assert!(is_pkg_file("/tmp/a.pkg.tar.xz"));
    assert!(is_pkg_file("/tmp/Krita.AppImage"));
    assert!(is_pkg_file("/tmp/app.flatpak"));
    assert!(!is_pkg_file("/tmp/app.flatpakref"));
    assert!(is_flatpak_bundle("/x/A.FLATPAK"));
    assert!(is_flatpakrepo("/x/flathub.flatpakrepo"));
    assert!(is_flatpakref("/x/app.flatpakref"));
    assert!(is_appimage("/x/a.appimage"));
    assert!(!is_appimage("/x/a.deb"));
}

#[test]
fn package_names_from_file_names() {
    assert_eq!(pkg_name_from_filename("htop_3.2.2-1_amd64.deb"), "htop");
    assert_eq!(pkg_name_from_filename("htop-3.2.2-1.fc39.x86_64.rpm"), "htop");
    assert_eq!(pkg_name_from_filename("my-tool.rpm"), "my-tool");
    assert_eq!(pkg_name_from_filename("htop-3.2.2-1-x86_64.pkg.tar.zst"), "htop");
    assert_eq!(pkg_name_from_filename("Krita-5.2.AppImage"), "Krita");
    assert_eq!(pkg_name_from_filename("app.flatpak"), "app");
}

#[test]
fn appstream_links_open_details() {
    assert_eq!(
        resolve_args(&args(&["arc", "appstream://org.gimp.GIMP.desktop"])),
        Some(ArgsAction::Open(LaunchIntent::Detail { pkg_id: "org.gimp.GIMP".into() }))
    );
    assert_eq!(
        resolve_args(&args(&["arc", "appstream:org.gimp.GIMP"])),
        Some(ArgsAction::Open(LaunchIntent::Detail { pkg_id: "org.gimp.GIMP".into() }))
    );
}

#[test]
fn flathub_links_open_details_and_others_install() {
    assert_eq!(
        resolve_args(&args(&["arc", "flatpak+https://dl.flathub.org/repo/appstream/org.gimp.GIMP.flatpakref"])),
        Some(ArgsAction::Open(LaunchIntent::Detail { pkg_id: "org.gimp.GIMP".into() }))
    );
    assert_eq!(
        resolve_args(&args(&["arc", "flatpak+https://example.org/app.flatpakref"])),
        Some(ArgsAction::Open(LaunchIntent::InstallFlatpakref {
            source: "https://example.org/app.flatpakref".into(),
            is_local_file: false,
        }))
    );
}

#[test]
fn local_files() {
    assert_eq!(
        resolve_args(&args(&["arc", "file:///tmp/app.flatpakref"])),
        Some(ArgsAction::Open(LaunchIntent::InstallFlatpakref { source: "/tmp/app.flatpakref".into(), is_local_file: true }))
    );
    assert_eq!(
        resolve_args(&args(&["arc", "/tmp/flathub.flatpakrepo"])),
        Some(ArgsAction::ReadRepo { path: "/tmp/flathub.flatpakrepo".into() })
    );
    assert_eq!(
        resolve_args(&args(&["arc", "/tmp/htop_3.2_amd64.deb"])),
        Some(ArgsAction::Open(LaunchIntent::InstallFile {
            path: "/tmp/htop_3.2_amd64.deb".into(),
            file_name: "htop_3.2_amd64.deb".into(),
            pkg_name: "htop".into(),
            is_appimage: false,
            is_bundle: false,
        }))
    );
    assert_eq!(resolve_args(&args(&["arc"])), None);
    assert_eq!(resolve_args(&args(&["arc", "--help"])), None);
}

#[test]
fn intent_is_taken_once() {
    let mut slot = Some(LaunchIntent::AddRepo { content: "x".into() });
    assert_eq!(take_intent(&mut slot), Some(LaunchIntent::AddRepo { content: "x".into() }));
    assert_eq!(take_intent(&mut slot), None);
}

#[test]
fn flatpakref_fields() {
    let content = "[Flatpak Ref]\nName=org.gimp.GIMP\nUrl=https://dl.flathub.org/repo/\n";
    assert_eq!(
        parse_flatpakref(content),
        ("org.gimp.GIMP".to_string(), "org.gimp.GIMP".to_string(), "https://dl.flathub.org/repo/".to_string())
    );
    let titled = "[Flatpak Ref]\nTitle=GIMP\nName=org.gimp.GIMP\n";
    assert_eq!(parse_flatpakref(titled).0, "GIMP");
    assert_eq!(parse_flatpakref(titled).2, "");
    assert_eq!(parse_flatpakref("garbage without sections"), (String::new(), String::new(), String::new()));
}

#[test]
fn flatpakrepo_fields() {
    let content = "[Flatpak Repo]\nTitle=Flathub\nUrl=https://dl.flathub.org/repo/\n";
    assert_eq!(parse_flatpakrepo(content), ("Flathub".to_string(), "https://dl.flathub.org/repo/".to_string()));
    assert_eq!(parse_flatpakrepo("[Other]\nTitle=x\n"), (String::new(), String::new()));
}
