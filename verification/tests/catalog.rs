use arc_core::catalog::{
    attr_severity, attribute_level, component_to_entry, is_application_kind, entry_from_block, icon_url_of, localize, rating_label_of,
    screenshot_urls, AppStreamDb, CatalogComponent, ComponentBundle, ComponentIcon, RatingLevel,
    ProjectLink, Screenshot, ShotImage,
};

fn tr(pairs: &[(&str, &str)]) -> Vec<(String, String)> {
    pairs.iter().map(|(a, b)| (a.to_string(), b.to_string())).collect()
}

fn comp(id: &str, name: &str, app: bool) -> CatalogComponent {
    CatalogComponent {
        id: id.into(),
        kind: if app { "DesktopApplication" } else { "Runtime" }.to_string(),
        name: tr(&[("C", name)]),
        summary: None,
        description: None,
        developer_name: None,
        icons: vec![],
        screenshots: vec![],
        project_license: None,
        urls: vec![],
        content_rating: None,
        bundles: vec![],
        categories: vec![],
    }
}

fn locales(l: &[&str]) -> Vec<String> {
    l.iter().map(|s| s.to_string()).collect()
}

#[test]
fn severity_and_rating_labels() {
    assert_eq!(attr_severity(RatingLevel::Absent), 0);
    assert_eq!(attr_severity(RatingLevel::Intense), 3);
    assert_eq!(rating_label_of(&None), "");
    assert_eq!(rating_label_of(&Some(vec![])), "All ages");
    assert_eq!(rating_label_of(&Some(attrs(&["ViolenceCartoon(Mild)", "DrugsAlcohol(None)"]))), "7+");
    assert_eq!(rating_label_of(&Some(attrs(&["SexThemes(Mild)", "MoneyGambling(Moderate)"]))), "12+");
    assert_eq!(rating_label_of(&Some(attrs(&["ViolenceBloodshed(Intense)", "SocialChat(Mild)"]))), "18+");
    assert_eq!(rating_label_of(&Some(attrs(&["SomethingNew(Intense)"]))), "All ages");
}

fn attrs(l: &[&str]) -> Vec<String> {
    l.iter().map(|s| s.to_string()).collect()
}

#[test]
fn attribute_levels_by_kind() {
    assert_eq!(attribute_level("ViolenceCartoon(Mild)"), RatingLevel::Mild);
    assert_eq!(attribute_level("LanguageProfanity(Moderate)"), RatingLevel::Moderate);
    assert_eq!(attribute_level("MoneyGambling(Intense)"), RatingLevel::Intense);
    assert_eq!(attribute_level("SocialLocation(None)"), RatingLevel::Absent);
    assert_eq!(attribute_level("SomethingNew(Intense)"), RatingLevel::Absent);
    assert_eq!(attribute_level("Intense"), RatingLevel::Absent);
}

#[test]
fn application_kinds() {
    assert!(is_application_kind("DesktopApplication"));
    assert!(is_application_kind("ConsoleApplication"));
    assert!(!is_application_kind("WebApplication"));
    assert!(!is_application_kind("Runtime"));
    assert!(!is_application_kind("Addon"));
}

#[test]
fn translations_fall_back_to_untranslated() {
    let t = tr(&[("C", "Paint"), ("de", "Malen"), ("fr_FR", "Peindre")]);
    assert_eq!(localize(&t, &locales(&["de_DE", "de"])).as_deref(), Some("Malen"));
    assert_eq!(localize(&t, &locales(&["fr_FR", "fr"])).as_deref(), Some("Peindre"));
    assert_eq!(localize(&t, &locales(&["it"])).as_deref(), Some("Paint"));
    assert_eq!(localize(&tr(&[("de", "Malen")]), &locales(&[])), None);
}

#[test]
fn icon_choice() {
    let small = ComponentIcon::Remote { url: "https://i/64.png".into(), width: Some(64) };
    let big = ComponentIcon::Remote { url: "https://i/128.png".into(), width: Some(128) };
    let cached = ComponentIcon::Cached { path: "/var/icons/a.png".into(), width: Some(64) };
    assert_eq!(icon_url_of(&vec![cached, small, big]).as_deref(), Some("https://i/128.png"));
    let small = ComponentIcon::Remote { url: "https://i/64.png".into(), width: Some(64) };
    assert_eq!(icon_url_of(&vec![small]).as_deref(), Some("https://i/64.png"));
    let stock = ComponentIcon::Stock("org.x.Y".into());
    assert_eq!(icon_url_of(&vec![stock]).as_deref(), Some("local:org.x.Y"));
    let local = ComponentIcon::Local { path: "/usr/share/a.svg".into(), width: None };
    assert_eq!(icon_url_of(&vec![local]).as_deref(), Some("local:/usr/share/a.svg"));
    let unknown_width = ComponentIcon::Remote { url: "https://i/x.png".into(), width: None };
    assert_eq!(icon_url_of(&vec![unknown_width]).as_deref(), Some("https://i/x.png"));
    assert_eq!(icon_url_of(&vec![]), None);
}

#[test]
fn screenshots_prefer_source_and_stop_at_five() {
    let shot = |imgs: &[(bool, &str)]| Screenshot {
        images: imgs.iter().map(|(s, u)| ShotImage { is_source: *s, url: u.to_string() }).collect(),
    };
    let shots = vec![
        shot(&[(false, "t1"), (true, "s1")]),
        shot(&[]),
        shot(&[(false, "t2"), (false, "t2b")]),
        shot(&[(true, "s3")]),
        shot(&[(true, "s4")]),
        shot(&[(true, "s5")]),
        shot(&[(true, "s6")]),
    ];
    assert_eq!(screenshot_urls(&shots), vec!["s1", "t2", "s3", "s4", "s5"]);
}

#[test]
fn entry_of_a_component() {
    let mut c = comp("org.example.Paint.desktop", "Paint", true);
    c.name = tr(&[("C", "Paint"), ("de", "Malen")]);
    c.summary = Some(tr(&[("C", "Draw")]));
    c.description = Some(tr(&[("C", "<p>From the parser</p>")]));
    c.developer_name = Some(tr(&[("C", "Example")]));
    c.project_license = Some("LicenseRef-proprietary=https://example.org/eula".into());
    c.urls = vec![ProjectLink::BugTracker("https://example.org/bugs".into()), ProjectLink::Homepage("https://example.org".into())];
    c.content_rating = Some(attrs(&["ViolenceFantasy(Moderate)"]));
    c.bundles = vec![ComponentBundle::Unlisted, ComponentBundle::Flatpak { reference: "app/org.example.Paint/x86_64/stable".into() }];
    c.categories = vec!["Graphics".into(), "Utility".into()];
    let e = component_to_entry(&c, Some("flathub".into()), &locales(&["de"]), &vec![], &vec![]);
    assert_eq!(e.id, "org.example.Paint");
    assert_eq!(e.name, "Malen");
    assert_eq!(e.summary, "Draw");
    assert_eq!(e.description, "<p>From the parser</p>");
    assert_eq!(e.license.as_deref(), Some("Proprietary"));
    assert_eq!(e.eula_url.as_deref(), Some("https://example.org/eula"));
    assert_eq!(e.homepage_url.as_deref(), Some("https://example.org"));
    assert_eq!(e.content_rating, "12+");
    assert_eq!(e.developer_name.as_deref(), Some("Example"));
    assert_eq!(e.remote.as_deref(), Some("flathub"));
    assert!(!e.verified);
    assert_eq!(e.categories, vec!["graphics".to_string(), "utility".to_string()]);

    let descs = vec![(
        "org.example.Paint.desktop".to_string(),
        tr(&[("C", "<p>Raw</p>"), ("de", "<p>Roh</p>")]),
    )];
    let v = vec!["org.example.Paint.desktop".to_string()];
    let e2 = component_to_entry(&c, Some("flathub".into()), &locales(&["de"]), &descs, &v);
    assert_eq!(e2.description, "<p>Roh</p>");
    assert!(e2.verified);
    let e3 = component_to_entry(&comp("a", "A", true), Some("blossomos".into()), &vec![], &vec![], &vec![]);
    assert!(e3.verified);
    assert_eq!(e3.id, "a");
    assert_eq!(e3.content_rating, "");
}

fn db() -> AppStreamDb {
    let mut d = AppStreamDb::new(locales(&["de"]));
    let mut paint = comp("org.example.Paint", "Paint", true);
    paint.summary = Some(tr(&[("C", "Draw pictures"), ("de", "Bilder malen")]));
    paint.categories = vec!["Graphics".into()];
    let runtime = comp("org.freedesktop.Platform", "Platform", false);
    let mut term = comp("org.example.Term.desktop", "Terminal", true);
    term.categories = vec!["System".into(), "graphics".into()];
    let mut chess = comp("org.example.Chess", "Chess", true);
    chess.name = tr(&[("C", "Chess"), ("de", "Schach")]);
    d.add_catalog("flathub", vec![paint, runtime, term, chess], b"");
    d
}

#[test]
fn popular_and_recent_apps() {
    let d = db();
    let p: Vec<_> = d.get_popular_apps(2).into_iter().map(|e| e.id).collect();
    assert_eq!(p, vec!["org.example.Paint", "org.example.Term.desktop"]);
    let r: Vec<_> = d.get_recent_apps(2).into_iter().map(|e| e.id).collect();
    assert_eq!(r, vec!["org.example.Chess", "org.example.Term.desktop"]);
    assert_eq!(d.get_popular_apps(10).len(), 3);
    assert_eq!(d.get_popular_apps(0).len(), 0);
    assert_eq!(d.get_popular_apps(1)[0].remote.as_deref(), Some("flathub"));
}

#[test]
fn catalog_search() {
    let d = db();
    let ids = |v: Vec<arc_core::appstream::AppStreamEntry>| v.into_iter().map(|e| e.id).collect::<Vec<_>>();
    assert_eq!(ids(d.search_apps("BILDER")), vec!["org.example.Paint"]);
    assert_eq!(ids(d.search_apps("schach")), vec!["org.example.Chess"]);
    assert_eq!(ids(d.search_apps("org.example")), vec!["org.example.Paint", "org.example.Term.desktop", "org.example.Chess"]);
    assert!(ids(d.search_apps("platform")).is_empty());
    assert_eq!(ids(d.search_apps_with_locales("schach", &vec![])), Vec::<String>::new());
    assert_eq!(d.search_apps("").len(), 3);
}

#[test]
fn catalog_categories_and_lookup() {
    let d = db();
    let g: Vec<_> = d.get_apps_by_category("GRAPHICS").into_iter().map(|e| e.id).collect();
    assert_eq!(g, vec!["org.example.Paint", "org.example.Term.desktop"]);
    assert_eq!(d.find_by_id("org.example.Term").map(|e| e.name).as_deref(), Some("Terminal"));
    assert_eq!(d.find_by_id("org.example.Chess").map(|e| e.name).as_deref(), Some("Schach"));
    assert_eq!(d.find_by_id_with_locales("org.example.Chess", &vec![]).map(|e| e.name).as_deref(), Some("Chess"));
    assert_eq!(d.find_by_id("org.freedesktop.Platform").map(|e| e.name).as_deref(), Some("Platform"));
    assert!(d.find_by_id("missing").is_none());
}

#[test]
fn catalog_descriptions_and_verification_from_raw_xml() {
    let xml = r#"<components version="0.8">
<component type="desktop-application"><id>org.example.Paint</id>
<description><p>Paint things</p><p xml:lang="de">Dinge malen</p></description>
<custom><value key="flathub::verification::verified">true</value></custom>
</component>
<component><id>org.example.Other</id></component>
</components>"#;
    let mut d = AppStreamDb::new(locales(&["de"]));
    d.add_catalog("flathub", vec![comp("org.example.Paint", "Paint", true)], xml.as_bytes());
    let e = d.find_by_id("org.example.Paint").unwrap();
    assert_eq!(e.description, "<p>Dinge malen</p>");
    assert!(e.verified);
    assert_eq!(d.verifications, vec!["org.example.Paint".to_string()]);
    let block = br#"<?xml version="1.0" encoding="UTF-8"?><components version="0.8"><component><id>org.example.Paint</id><description><p>Only</p></description></component></components>"#;
    let e2 = entry_from_block(block, &comp("org.example.Paint", "Paint", true), None, &vec![]);
    assert_eq!(e2.description, "<p>Only</p>");
    assert!(!e2.verified);
    let e3 = entry_from_block(b"not xml", &comp("x", "X", true), None, &vec![]);
    assert_eq!(e3.description, "");
}
