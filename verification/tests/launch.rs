use arc_core::launch::{flatpak_alternative, wants_flatpak_alternative, DeepLinkControllerRust};
use arc_core::package::{Package, Provider};

fn pkg(id: &str, name: &str, provider: Provider) -> Package {
    Package {
        id: id.into(),
        name: name.into(),
        version: String::new(),
        description: String::new(),
        provider,
        installed: false,
        icon_url: None,
        remote: None,
        screenshots: vec![],
        developer_name: None,
        homepage_url: None,
        content_rating: None,
        is_runtime: false,
        categories: vec![],
    }
}

#[test]
fn flathub_ref_from_local_file_opens_details() {
    let mut c = DeepLinkControllerRust::new();
    let content = "[Flatpak Ref]\nTitle=Paint\nName=org.example.Paint\nUrl=https://dl.flathub.org/repo/\n";
    c.show_flatpakref("/tmp/x.flatpakref".into(), true, content);
    assert_eq!(c.kind, "detail");
    assert_eq!(c.pkg_id, "org.example.Paint");
    assert_eq!(c.ref_source, "");
}

#[test]
fn other_refs_ask_to_confirm() {
    let mut c = DeepLinkControllerRust::new();
    let content = "[Flatpak Ref]\nName=org.example.Paint\nUrl=https://example.org/repo/\n";
    c.show_flatpakref("/tmp/x.flatpakref".into(), true, content);
    assert_eq!(c.kind, "flatpakref");
    assert_eq!(c.ref_title, "org.example.Paint");
    assert_eq!(c.ref_source, "file:///tmp/x.flatpakref");
    let mut d = DeepLinkControllerRust::new();
    let remote = "[Flatpak Ref]\nTitle=Paint\nName=org.example.Paint\nUrl=https://dl.flathub.org/repo/\n";
    d.show_flatpakref("https://x.example/p.flatpakref".into(), false, remote);
    assert_eq!(d.kind, "flatpakref");
    assert_eq!(d.ref_title, "Paint");
    assert_eq!(d.ref_source, "https://x.example/p.flatpakref");
}

#[test]
fn add_repo_and_detail() {
    let mut c = DeepLinkControllerRust::new();
    c.show_add_repo("[Flatpak Repo]\nTitle=Extra\nUrl=https://extra.example/repo/\n".into());
    assert_eq!(c.kind, "addrepo");
    assert_eq!(c.repo_title, "Extra");
    assert_eq!(c.repo_url, "https://extra.example/repo/");
    c.show_detail("org.x.Y".into());
    assert_eq!(c.kind, "detail");
    assert_eq!(c.pkg_id, "org.x.Y");
    assert_eq!(c.repo_title, "Extra");
}

#[test]
fn install_file_with_and_without_alternative() {
    assert!(wants_flatpak_alternative(false, false));
    assert!(!wants_flatpak_alternative(true, false));
    assert!(!wants_flatpak_alternative(false, true));
    let found = vec![
        pkg("distrobox:gimp", "GIMP deb", Provider::Distrobox),
        pkg("org.gimp.GIMP", "GIMP", Provider::Flatpak),
        pkg("org.gimp.Other", "Other", Provider::Flatpak),
    ];
    let alt = flatpak_alternative(&found);
    assert_eq!(alt, Some(("org.gimp.GIMP".to_string(), "GIMP".to_string())));
    assert_eq!(flatpak_alternative(&vec![pkg("x", "X", Provider::AppImage)]), None);
    let mut c = DeepLinkControllerRust::new();
    c.show_file("/d/gimp.deb".into(), "gimp.deb".into(), "gimp".into(), false, false, alt);
    assert_eq!(c.kind, "installfile");
    assert!(c.file_has_flatpak_alt);
    assert_eq!(c.file_flatpak_alt_id, "org.gimp.GIMP");
    assert_eq!(c.file_flatpak_alt_name, "GIMP");
    let mut d = DeepLinkControllerRust::new();
    d.show_file("/d/a.AppImage".into(), "a.AppImage".into(), "a".into(), true, false, None);
    assert!(!d.file_has_flatpak_alt);
    assert!(d.file_is_appimage);
    assert_eq!(d.file_path, "/d/a.AppImage");
}
