use arc_core::games::{
    catalog_packages, find_entry, installed_slugs_of, whitelist_slugs, installer_icon, installer_info_package, installer_package, record_name, search_listed,
    slug_of, LutrisInstaller, LutrisProvider, ScriptMetadata,
};
use arc_core::package::Provider;

fn inst(slug: &str, name: &str, description: &str, notes: &str, runner: &str) -> LutrisInstaller {
    LutrisInstaller {
        slug: slug.into(),
        name: name.into(),
        description: description.into(),
        game_slug: slug.into(),
        runner: runner.into(),
        version: "Installer".into(),
        notes: notes.into(),
        metadata: None,
    }
}

#[test]
fn lutris_ids_and_paths() {
    assert_eq!(LutrisProvider::pkg_id("gog-game"), "lutris:gog-game");
    let p = LutrisProvider::new("/home/u");
    assert_eq!(p.installs_dir, "/home/u/.local/share/arc/lutris-installs");
    assert_eq!(p.info_path("gog-game"), "/home/u/.local/share/arc/lutris-installs/gog-game.json");
    assert_eq!(slug_of("lutris:gog-game"), Ok("gog-game".to_string()));
    assert_eq!(slug_of("flatpak:x"), Err("Invalid lutris package id: flatpak:x".to_string()));
}

#[test]
fn installer_icon_prefers_icon_then_cover_then_banner() {
    let mut i = inst("s", "N", "", "", "wine");
    assert_eq!(installer_icon(&i), None);
    i.metadata = Some(ScriptMetadata { icon_url: String::new(), banner_url: "b".into(), cover_url: String::new() });
    assert_eq!(installer_icon(&i).as_deref(), Some("b"));
    i.metadata = Some(ScriptMetadata { icon_url: String::new(), banner_url: "b".into(), cover_url: "c".into() });
    assert_eq!(installer_icon(&i).as_deref(), Some("c"));
    i.metadata = Some(ScriptMetadata { icon_url: "i".into(), banner_url: "b".into(), cover_url: "c".into() });
    assert_eq!(installer_icon(&i).as_deref(), Some("i"));
}

#[test]
fn listed_name_and_description_fallbacks() {
    let p = installer_package("my-game", &inst("my-game", "", "", "First line\nSecond", "wine"), true);
    assert_eq!(p.id, "lutris:my-game");
    assert_eq!(p.name, "MY GAME");
    assert_eq!(p.description, "First line");
    assert_eq!(p.provider, Provider::Lutris);
    assert!(p.installed);
    let q = installer_package("g", &inst("g", "Game", "", "", "wine"), false);
    assert_eq!(q.name, "Game");
    assert_eq!(q.description, "Windows application via Lutris (wine)");
    let r = installer_package("g", &inst("g", "Game", "", "", ""), false);
    assert_eq!(r.description, "Windows application via Lutris");
    let s = installer_package("g", &inst("g", "Game", "Own text", "notes", "wine"), false);
    assert_eq!(s.description, "Own text");
}

#[test]
fn info_package_has_no_fallbacks() {
    let p = installer_info_package("g", &inst("g", "", "", "notes", "wine"), true);
    assert_eq!(p.name, "");
    assert_eq!(p.description, "");
    assert!(p.installed);
}

#[test]
fn search_ignores_case_and_keeps_order() {
    let all = vec![
        installer_package("a", &inst("a", "Doom Eternal", "", "", "wine"), false),
        installer_package("b", &inst("b", "Quake", "A doom-like shooter", "", "wine"), false),
        installer_package("c", &inst("c", "Tetris", "", "", "wine"), false),
    ];
    let r = search_listed(all, "DOOM");
    let ids: Vec<_> = r.iter().map(|p| p.id.as_str()).collect();
    assert_eq!(ids, vec!["lutris:a", "lutris:b"]);
}

#[test]
fn recorded_name_comes_from_the_catalog() {
    let entries = vec![
        ("a".to_string(), inst("a", "Alpha", "", "", "")),
        ("b".to_string(), inst("b-installer", "Beta", "", "", "")),
    ];
    assert_eq!(record_name(&entries, "b"), "Beta");
    assert_eq!(record_name(&entries, "z"), "z");
    assert_eq!(find_entry(&entries, "b"), Some(1));
    assert_eq!(find_entry(&entries, "b-installer"), None);
}

#[test]
fn whitelist_lines() {
    let text = "# games\n  doom-eternal  \n\n   # retired\nquake\r\n";
    assert_eq!(whitelist_slugs(text), vec!["doom-eternal".to_string(), "quake".to_string()]);
    assert!(whitelist_slugs("").is_empty());
}

#[test]
fn catalog_listing_marks_installed_slugs() {
    let entries = vec![
        ("a".to_string(), inst("a", "Alpha", "", "", "wine")),
        ("b-c".to_string(), inst("b-c", "", "", "", "")),
    ];
    let pkgs = catalog_packages(&entries, &vec!["b-c".to_string()]);
    assert_eq!(pkgs.len(), 2);
    assert_eq!(pkgs[0].id, "lutris:a");
    assert!(!pkgs[0].installed);
    assert_eq!(pkgs[0].description, "Windows application via Lutris (wine)");
    assert_eq!(pkgs[1].name, "B C");
    assert!(pkgs[1].installed);
    let files = vec!["/i/a.json".to_string(), "/i/readme.txt".to_string(), "/i/b-c.json".to_string()];
    assert_eq!(installed_slugs_of(&files), vec!["a".to_string(), "b-c".to_string()]);
}
