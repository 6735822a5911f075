use arc_core::metainfo::{extract_verifications_bytes, metainfo_candidates, parse_metainfo_bytes};

const METAINFO: &str = r#"<?xml version="1.0" encoding="UTF-8"?>
<component type="desktop-application">
  <id>org.example.Paint.desktop</id>
  <name>Paint</name>
  <name xml:lang="de">Malen</name>
  <summary>Draw things</summary>
  <summary xml:lang="fr">Dessiner</summary>
  <developer><name> Example Devs </name></developer>
  <project_license>LicenseRef-proprietary=https://example.org/eula</project_license>
  <url type="bugtracker">https://example.org/bugs</url>
  <url type="homepage">https://example.org</url>
  <description>
    <p>Hello <em>world</em></p>
    <p xml:lang="de">Hallo</p>
  </description>
  <content_rating type="oars-1.1">
    <content_attribute id="violence-cartoon">mild</content_attribute>
    <content_attribute id="language-profanity">moderate</content_attribute>
  </content_rating>
  <screenshots>
    <screenshot type="default"><image>https://example.org/1.png</image></screenshot>
    <screenshot><caption>no image</caption></screenshot>
    <screenshot><image> https://example.org/2.png </image></screenshot>
  </screenshots>
</component>"#;

fn locales(l: &[&str]) -> Vec<String> {
    l.iter().map(|s| s.to_string()).collect()
}

#[test]
fn metainfo_fields_default_locale() {
    let e = parse_metainfo_bytes("org.example.Paint", METAINFO.as_bytes(), &vec![]).unwrap();
    assert_eq!(e.id, "org.example.Paint");
    assert_eq!(e.name, "Paint");
    assert_eq!(e.summary, "Draw things");
    assert_eq!(e.description, "<p>Hello <em>world</em></p>");
    assert_eq!(e.developer_name.as_deref(), Some("Example Devs"));
    assert_eq!(e.license.as_deref(), Some("Proprietary"));
    assert_eq!(e.eula_url.as_deref(), Some("https://example.org/eula"));
    assert_eq!(e.homepage_url.as_deref(), Some("https://example.org"));
    assert_eq!(e.content_rating, "12+");
    assert_eq!(e.screenshots, vec!["https://example.org/1.png".to_string(), "https://example.org/2.png".to_string()]);
    assert!(!e.verified);
    assert!(e.icon_url.is_none());
}

#[test]
fn metainfo_fields_translated() {
    let e = parse_metainfo_bytes("org.example.Paint", METAINFO.as_bytes(), &locales(&["de_DE", "de"])).unwrap();
    assert_eq!(e.name, "Malen");
    assert_eq!(e.summary, "Draw things");
    assert_eq!(e.description, "<p>Hallo</p>");
    let f = parse_metainfo_bytes("org.example.Paint", METAINFO.as_bytes(), &locales(&["fr"])).unwrap();
    assert_eq!(f.summary, "Dessiner");
    assert_eq!(f.description, "<p>Hello <em>world</em></p>");
}

#[test]
fn metainfo_description_with_lang_on_the_element() {
    let xml = r#"<component><id>a.b.C</id><description><p>Default</p></description><description xml:lang="it"><p>Ciao</p></description></component>"#;
    let e = parse_metainfo_bytes("a.b.C", xml.as_bytes(), &locales(&["it"])).unwrap();
    assert_eq!(e.description, "<p>Ciao</p>");
    assert_eq!(e.content_rating, "");
    assert!(e.screenshots.is_empty());
    assert!(e.developer_name.is_none());
    assert!(e.license.is_none());
}

#[test]
fn metainfo_rejects_malformed_xml() {
    assert!(parse_metainfo_bytes("x", b"<component><name>oops</component>", &vec![]).is_none());
    assert!(parse_metainfo_bytes("x", b"", &vec![]).is_none());
}

#[test]
fn metainfo_screenshots_are_capped_at_five() {
    let mut xml = String::from("<component><id>a</id><screenshots>");
    for i in 0..7 {
        xml.push_str(&format!("<screenshot><image>u{i}</image></screenshot>"));
    }
    xml.push_str("</screenshots></component>");
    let e = parse_metainfo_bytes("a", xml.as_bytes(), &vec![]).unwrap();
    assert_eq!(e.screenshots, (0..5).map(|i| format!("u{i}")).collect::<Vec<_>>());
}

#[test]
fn verified_components() {
    let xml = r#"<components version="0.8">
  <component><id>org.a.One</id><custom><value key="flathub::verification::verified">true</value></custom></component>
  <component><id>org.a.Two</id><custom><value key="flathub::verification::verified">false</value></custom></component>
  <component><id>org.a.Three</id></component>
</components>"#;
    assert_eq!(extract_verifications_bytes(xml.as_bytes()), vec!["org.a.One".to_string()]);
    assert!(extract_verifications_bytes(b"not xml").is_empty());
}

#[test]
fn metainfo_candidates_try_system_then_user_metainfo_before_appdata() {
    let c = metainfo_candidates("org.x.Y", &Some("/home/u".to_string()));
    assert_eq!(
        c,
        vec![
            "/var/lib/flatpak/exports/share/metainfo/org.x.Y.metainfo.xml",
            "/var/lib/flatpak/exports/share/metainfo/org.x.Y.appdata.xml",
            "/var/lib/flatpak/exports/share/appdata/org.x.Y.metainfo.xml",
            "/var/lib/flatpak/exports/share/appdata/org.x.Y.appdata.xml",
            "/home/u/.local/share/flatpak/exports/share/metainfo/org.x.Y.metainfo.xml",
            "/home/u/.local/share/flatpak/exports/share/metainfo/org.x.Y.appdata.xml",
            "/home/u/.local/share/flatpak/exports/share/appdata/org.x.Y.metainfo.xml",
            "/home/u/.local/share/flatpak/exports/share/appdata/org.x.Y.appdata.xml",
        ]
    );
    assert_eq!(metainfo_candidates("a", &None).len(), 4);
}
