use arc_core::catalog::{AppStreamDb, CatalogComponent};
use arc_core::leftovers::{leftover_dir, leftover_entries};

fn comp(id: &str, name: &str) -> CatalogComponent {
    CatalogComponent {
        id: id.into(),
        kind: "DesktopApplication".to_string(),
        name: vec![("C".into(), name.into())],
        summary: None,
        description: None,
        developer_name: None,
        icons: vec![],
        screenshots: vec![],
        project_license: None,
        urls: vec![],
        content_rating: None,
        bundles: vec![],
        categories: vec![],
    }
}

fn s(v: &[&str]) -> Vec<String> {
    v.iter().map(|x| x.to_string()).collect()
}

#[test]
fn leftover_directories() {
    assert_eq!(leftover_dir("/home/u", "org.x.App"), "/home/u/.var/app/org.x.App");
    assert_eq!(leftover_dir("/home/u", "pwa:mail"), "/home/u/.local/share/blossomos-webapps/mail");
}

#[test]
fn leftovers_skip_installed_apps_and_use_catalog_names() {
    let mut db = AppStreamDb::new(vec![]);
    db.add_catalog("flathub", vec![comp("org.x.Gone", "Gone App"), comp("org.x.Blank", "")], b"");
    let r = leftover_entries(
        &s(&["org.x.Kept", "pwa:chat"]),
        &s(&["org.x.Kept", "org.x.Gone", "org.x.Unknown", "org.x.Blank"]),
        &s(&["chat", "mail"]),
        &db,
    );
    let got: Vec<_> = r.iter().map(|e| (e.id.as_str(), e.name.as_str())).collect();
    assert_eq!(
        got,
        vec![
            ("org.x.Gone", "Gone App"),
            ("org.x.Unknown", "org.x.Unknown"),
            ("org.x.Blank", "org.x.Blank"),
            ("pwa:mail", "mail"),
        ]
    );
}
