use arc_core::appstream::AppStreamEntry;
use arc_core::catalog::{AppStreamDb, CatalogComponent};
use arc_core::flatpak::{
    check_removable, cli_update_failed, entries_to_packages, flatpakref_remote, flatpakrepo_remote,
    installed_fallback, installed_ref_to_package, listing_for, remote_exists_error, remote_infos,
    remote_to_add, updates_via_cli, InstalledRefInfo, Listing,
};
use arc_core::install_search::InstallError;
use arc_core::package::Provider;

fn msg(e: &InstallError) -> String {
    match e {
        InstallError::Provider(m) | InstallError::Transaction(m) => m.clone(),
    }
}

#[test]
fn flatpakref_remote_fields() {
    let text = b"[Flatpak Ref]\n  Url=https://dl.example/repo/  \nSuggestRemoteName=example\nGPGKey=AAAA\nUrl=https://second/\n";
    let r = flatpakref_remote(text);
    assert_eq!(r.url, "https://second/");
    assert_eq!(r.suggested_name, "example");
    assert_eq!(r.gpg_key, "AAAA");
    assert_eq!(remote_to_add(&r).as_deref(), Some("example"));
    let bare = flatpakref_remote(b"[Flatpak Ref]\nUrl=https://x/\n");
    assert_eq!(remote_to_add(&bare).as_deref(), Some("flatpakref-remote"));
    let none = flatpakref_remote(b"[Flatpak Ref]\nName=x\n");
    assert_eq!(remote_to_add(&none), None);
}

#[test]
fn flatpakrepo_names() {
    let r = flatpakrepo_remote("[Flatpak Repo]\nTitle= My Repo (Beta)! \nUrl= https://repo.example/ \nGPGKey=KEY\n").ok().unwrap();
    assert_eq!(r.name, "my-repo-beta");
    assert_eq!(r.url, "https://repo.example/");
    assert_eq!(r.gpg_key, "KEY");
    let untitled = flatpakrepo_remote("Url=https://x/\n").ok().unwrap();
    assert_eq!(untitled.name, "imported-repo");
    match flatpakrepo_remote("[Flatpak Repo]\nTitle=X\n") {
        Err(e) => assert_eq!(msg(&e), "No Url= found in .flatpakrepo"),
        Ok(_) => panic!("expected an error"),
    }
}

#[test]
fn remotes_listing_and_protection() {
    let found = vec![
        ("flathub".to_string(), "https://dl.flathub.org/repo/".to_string()),
        ("extra".to_string(), "https://extra/".to_string()),
        ("flathub".to_string(), "https://other/".to_string()),
        ("blossomos".to_string(), "https://b/".to_string()),
    ];
    let r = remote_infos(&found);
    let names: Vec<_> = r.iter().map(|x| (x.name.as_str(), x.url.as_str(), x.protected)).collect();
    assert_eq!(
        names,
        vec![
            ("flathub", "https://dl.flathub.org/repo/", true),
            ("extra", "https://extra/", false),
            ("blossomos", "https://b/", true),
        ]
    );
    assert!(check_removable("extra").is_ok());
    match check_removable("flathub") {
        Err(e) => assert_eq!(msg(&e), "'flathub' is a protected repository and cannot be removed"),
        Ok(_) => panic!("flathub is protected"),
    }
    assert_eq!(msg(&remote_exists_error("extra")), "remote 'extra' already exists");
    assert!(updates_via_cli("runtime/org.freedesktop.Platform/x86_64/24.08"));
    assert!(!updates_via_cli("app/org.x.App/x86_64/stable"));
    assert_eq!(msg(&cli_update_failed("org.x.App")), "flatpak update failed for org.x.App");
}

#[test]
fn installed_refs_become_packages() {
    let info = InstalledRefInfo {
        name: Some("org.gnome.TextEditor".into()),
        is_runtime: false,
        appdata_name: Some(String::new()),
        appdata_version: None,
        branch: Some("stable".into()),
        appdata_summary: Some("Edit text".into()),
        origin: Some("flathub".into()),
    };
    let p = installed_ref_to_package(&info);
    assert_eq!(p.id, "org.gnome.TextEditor");
    assert_eq!(p.name, "TextEditor");
    assert_eq!(p.version, "stable");
    assert_eq!(p.description, "Edit text");
    assert_eq!(p.remote.as_deref(), Some("flathub"));
    assert!(p.installed);
    assert_eq!(p.provider, Provider::Flatpak);
    let named = InstalledRefInfo { appdata_name: Some("Text Editor".into()), appdata_version: Some("46.1".into()), ..info };
    let q = installed_ref_to_package(&named);
    assert_eq!(q.name, "Text Editor");
    assert_eq!(q.version, "46.1");
    let nodot = InstalledRefInfo {
        name: Some("plain".into()),
        is_runtime: true,
        appdata_name: None,
        appdata_version: None,
        branch: None,
        appdata_summary: None,
        origin: None,
    };
    let r = installed_ref_to_package(&nodot);
    assert_eq!(r.name, "plain");
    assert_eq!(r.version, "");
    assert!(r.is_runtime);
}

fn comp(id: &str, name: &str) -> CatalogComponent {
    CatalogComponent {
        id: id.into(),
        kind: "DesktopApplication".to_string(),
        name: vec![("C".into(), name.into())],
        summary: Some(vec![("C".into(), "Sum".into())]),
        description: None,
        developer_name: None,
        icons: vec![],
        screenshots: vec![],
        project_license: None,
        urls: vec![],
        content_rating: None,
        bundles: vec![],
        categories: vec![],
    }
}

#[test]
fn remote_app_ids_are_listed_from_the_catalog_or_metainfo() {
    let mut db = AppStreamDb::new(vec![]);
    db.add_catalog("flathub", vec![comp("org.x.App", "App")], b"");
    match listing_for(&db, "org.x.App", true) {
        Listing::Catalog(p) => {
            assert_eq!(p.name, "App");
            assert!(p.installed);
            assert_eq!(p.remote.as_deref(), Some("flathub"));
        }
        _ => panic!("expected a catalog listing"),
    }
    assert!(matches!(listing_for(&db, "org.y.Other", true), Listing::FromMetainfo));
    assert!(matches!(listing_for(&db, "org.y.Other", false), Listing::Skip));
    let bare = installed_fallback("org.y.Other", None);
    assert_eq!(bare.name, "org.y.Other");
    assert!(bare.installed);
    let entries: Vec<AppStreamEntry> = db.search_apps("app");
    let pkgs = entries_to_packages(entries, &vec!["org.x.App".to_string()]);
    assert_eq!(pkgs.len(), 1);
    assert!(pkgs[0].installed);
    let pkgs2 = entries_to_packages(db.search_apps("app"), &vec![]);
    assert!(!pkgs2[0].installed);
    assert_eq!(pkgs2[0].description, "Sum");
}
