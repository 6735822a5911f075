use arc_core::icons::{
    cache_icon, flatpak_icon_names, icon_data, icon_is_fresh, is_vector_icon, theme_icon_paths,
    CatalogIcon, IconData, RawIcon,
};

#[test]
fn icon_sources() {
    assert!(matches!(icon_data(CatalogIcon::Remote("https://x/i.png".into()), None), IconData::Remote(ref u) if u == "https://x/i.png"));
    assert!(matches!(icon_data(CatalogIcon::Local("a.png".into()), Some("/f/a.png".into())), IconData::Local(ref p) if p == "/f/a.png"));
    assert!(matches!(icon_data(CatalogIcon::Cached("a.png".into()), None), IconData::Stock(ref n) if n == "a.png"));
    assert!(matches!(icon_data(CatalogIcon::Stock("gimp".into()), None), IconData::Stock(ref n) if n == "gimp"));
}

#[test]
fn rendered_icons_expire() {
    let icon = cache_icon(RawIcon { width: 2, height: 2, pixels: vec![0; 16] }, 1000);
    assert_eq!(icon.cached_at, 1000);
    assert_eq!(icon.pixels.len(), 16);
    assert!(icon_is_fresh(&icon, 2799));
    assert!(!icon_is_fresh(&icon, 2800));
}

#[test]
fn vector_icons() {
    assert!(is_vector_icon("/a/b.svg"));
    assert!(is_vector_icon("/a/b.svgz"));
    assert!(!is_vector_icon("/a/b.png"));
}

#[test]
fn flatpak_icon_file_names() {
    assert_eq!(flatpak_icon_names("org.a.B.png"), vec!["org.a.B.png".to_string()]);
    assert_eq!(
        flatpak_icon_names("org.a.B"),
        vec![
            "org.a.B".to_string(),
            "org.a.B.png".to_string(),
            "org.a.B.svg".to_string(),
            "org.a.B.svgz".to_string(),
        ]
    );
}

#[test]
fn theme_icon_search_order() {
    let paths = theme_icon_paths("/usr/share/icons", "gimp");
    assert_eq!(paths.len(), 30);
    assert_eq!(paths[0], "/usr/share/icons/128x128/apps/gimp.png");
    assert_eq!(paths[1], "/usr/share/icons/128x128/gimp.png");
    assert_eq!(paths[2], "/usr/share/icons/128x128/apps/gimp.svg");
    assert_eq!(paths[29], "/usr/share/icons/scalable/gimp.svgz");
}
