use std::io::Write;
use arc_core::appstream::{
    canonical_id, default_popular, default_recent, extract_component_block, icon_content_type,
    parse_locale_candidates,
};
use arc_core::catalog::AppStreamDb;
use arc_core::components::{active_catalog, catalog_roots, catalog_xml, parse_components, resolve_from_catalog_bytes, smallest_first};
use arc_core::snapshot::{snapshot_is_current, SnapshotKey, SourceStamp, SNAPSHOT_SCHEMA};

const CATALOG_XML: &str = r#"<?xml version="1.0" encoding="UTF-8"?>
<components version="0.8">
  <component type="desktop-application">
    <id>org.example.Foo</id>
    <name>Foo</name>
    <summary>A test app</summary>
    <categories>
      <category>Utility</category>
    </categories>
  </component>
  <component type="desktop-application">
    <id>org.example.Bar</id>
    <name>Bar</name>
    <summary>Another test app</summary>
  </component>
</components>"#;

#[test]
fn snapshot_key_detects_changed_stamp() {
    let a = SnapshotKey {
        schema: SNAPSHOT_SCHEMA,
        sources: vec![SourceStamp { path: "/tmp/a.xml".to_string(), mtime_secs: 1, size: 1 }],
    };
    let mut b = a.clone();
    b.sources[0].mtime_secs = 2;
    assert_ne!(a, b);
}

#[test]
fn extract_component_block_finds_matching_component_only() {
    let block = extract_component_block(CATALOG_XML.as_bytes(), "org.example.Bar").unwrap();
    let text = std::str::from_utf8(&block).unwrap();
    assert!(text.contains("org.example.Bar"));
    assert!(!text.contains("org.example.Foo"));
}

#[test]
fn extract_component_block_misses_unknown_id() {
    assert!(extract_component_block(CATALOG_XML.as_bytes(), "org.example.Baz").is_none());
}

#[test]
fn extract_component_block_rejects_invalid_utf8() {
    let bytes: Vec<u8> = vec![0x3c, 0xff, 0xfe, 0x3e];
    assert!(extract_component_block(&bytes, "org.example.Foo").is_none());
}

#[test]
fn extract_component_block_starts_at_the_component() {
    let block = extract_component_block(CATALOG_XML.as_bytes(), "org.example.Foo").unwrap();
    let text = std::str::from_utf8(&block).unwrap();
    assert!(text.starts_with("<?xml version=\"1.0\" encoding=\"UTF-8\"?><components version=\"0.8\"><component type="));
    assert!(text.ends_with("</component></components>"));
    assert!(text.contains("Utility"));
    assert!(!text.contains("org.example.Bar"));
}

#[test]
fn snapshot_key_equal_when_stamps_equal() {
    let a = SnapshotKey {
        schema: SNAPSHOT_SCHEMA,
        sources: vec![SourceStamp { path: "/tmp/a.xml".to_string(), mtime_secs: 42, size: 7 }],
    };
    let b = a.clone();
    assert_eq!(a, b);
    assert!(snapshot_is_current(&Some(b), &a));
    assert!(!snapshot_is_current(&None, &a));
}

#[test]
fn snapshot_key_detects_changed_schema() {
    let a = SnapshotKey { schema: SNAPSHOT_SCHEMA, sources: vec![] };
    let b = SnapshotKey { schema: SNAPSHOT_SCHEMA + 1, sources: vec![] };
    assert!(!snapshot_is_current(&Some(b), &a));
}

#[test]
fn locale_candidates_region_and_language() {
    assert_eq!(parse_locale_candidates("de-DE"), vec!["de_DE".to_string(), "de".to_string()]);
    assert_eq!(parse_locale_candidates("de_DE"), vec!["de_DE".to_string(), "de".to_string()]);
    assert_eq!(parse_locale_candidates("de"), vec!["de".to_string()]);
}

#[test]
fn locale_candidates_drop_codeset_and_modifier() {
    assert_eq!(
        parse_locale_candidates("fr_FR.UTF-8@euro"),
        vec!["fr_FR".to_string(), "fr".to_string()]
    );
}

#[test]
fn locale_candidates_english_and_default_are_empty() {
    assert!(parse_locale_candidates("").is_empty());
    assert!(parse_locale_candidates("en").is_empty());
    assert!(parse_locale_candidates("en_US").is_empty());
    assert!(parse_locale_candidates("C").is_empty());
    assert!(parse_locale_candidates("POSIX").is_empty());
}

#[test]
fn icon_content_type_by_extension() {
    assert_eq!(icon_content_type("/icons/a.svg"), "image/svg+xml");
    assert_eq!(icon_content_type("/icons/a.svgz"), "image/svg+xml");
    assert_eq!(icon_content_type("/icons/a.png"), "image/png");
    assert_eq!(icon_content_type("/icons/noext"), "image/png");
}

#[test]
fn home_defaults() {
    assert_eq!(default_popular(), 12);
    assert_eq!(default_recent(), 24);
}

#[test]
fn canonical_id_without_refs_is_component_id() {
    assert_eq!(canonical_id(&vec![], "org.example.Foo"), "org.example.Foo");
}

#[test]
fn canonical_id_prefers_flatpak_ref() {
    let refs = vec![
        "noslash".to_string(),
        "app/io.github.flattool.Warehouse/x86_64/stable".to_string(),
    ];
    assert_eq!(
        canonical_id(&refs, "io.github.flattool.Warehouse.desktop"),
        "io.github.flattool.Warehouse"
    );
}

#[test]
fn resolve_from_catalog_bytes_returns_full_entry() {
    let entry = resolve_from_catalog_bytes(CATALOG_XML.as_bytes(), "org.example.Foo", Some("testremote".to_string()), &vec![])
        .unwrap();
    assert_eq!(entry.name, "Foo");
    assert_eq!(entry.summary, "A test app");
    assert_eq!(entry.categories, vec!["utility".to_string()]);
}

#[test]
fn resolve_from_catalog_bytes_keeps_remote_and_id() {
    let entry = resolve_from_catalog_bytes(CATALOG_XML.as_bytes(), "org.example.Bar", Some("testremote".to_string()), &vec![])
        .unwrap();
    assert_eq!(entry.id, "org.example.Bar");
    assert_eq!(entry.name, "Bar");
    assert_eq!(entry.remote.as_deref(), Some("testremote"));
    assert!(entry.categories.is_empty());
}

#[test]
fn resolve_from_catalog_bytes_misses_unknown_id() {
    assert!(resolve_from_catalog_bytes(CATALOG_XML.as_bytes(), "org.example.Baz", None, &vec![]).is_none());
}

#[test]
fn parse_components_reads_every_component() {
    let comps = parse_components(CATALOG_XML.as_bytes());
    assert_eq!(comps.len(), 2);
    assert_eq!(comps[0].id, "org.example.Foo");
    assert_eq!(comps[0].kind, "DesktopApplication");
    assert_eq!(comps[0].name, vec![("C".to_string(), "Foo".to_string())]);
    assert_eq!(comps[0].categories, vec!["Utility".to_string()]);
    assert_eq!(comps[1].id, "org.example.Bar");
    assert!(comps[1].content_rating.is_none());
}

#[test]
fn parse_components_of_unreadable_xml_is_empty() {
    assert!(parse_components(b"<components><component>").is_empty());
    assert!(parse_components(b"not xml").is_empty());
}

#[test]
fn parse_components_reads_rating_levels() {
    let xml = r#"<?xml version="1.0" encoding="UTF-8"?>
<components version="0.8">
  <component type="desktop-application">
    <id>org.example.Game</id>
    <name>Game</name>
    <summary>Shoots things</summary>
    <content_rating type="oars-1.1">
      <content_attribute id="violence-cartoon">moderate</content_attribute>
      <content_attribute id="money-purchasing">mild</content_attribute>
    </content_rating>
  </component>
</components>"#;
    let comps = parse_components(xml.as_bytes());
    assert_eq!(comps.len(), 1);
    assert_eq!(comps[0].content_rating, Some(vec!["ViolenceCartoon(Moderate)".to_string(), "MoneyPurchasing(Mild)".to_string()]));
}

#[test]
fn smallest_catalog_first_keeps_ties_in_order() {
    assert_eq!(smallest_first(&vec![30, 10, 20, 10]), vec![1, 3, 2, 0]);
    assert_eq!(smallest_first(&vec![]), Vec::<usize>::new());
    assert_eq!(smallest_first(&vec![5, 5, 5]), vec![0, 1, 2]);
}

#[test]
fn load_catalog_adds_parsed_components_with_remote() {
    let mut db = AppStreamDb::new(vec![]);
    db.load_catalog("flathub", CATALOG_XML.as_bytes());
    assert_eq!(db.components.len(), 2);
    assert_eq!(db.components[0].0.id, "org.example.Foo");
    assert_eq!(db.components[1].1.as_deref(), Some("flathub"));
    let found = db.find_by_id("org.example.Bar").unwrap();
    assert_eq!(found.remote.as_deref(), Some("flathub"));
    assert_eq!(found.summary, "Another test app");
}

#[test]
fn catalog_xml_decompresses_gz_files_only() {
    let mut enc = flate2::write::GzEncoder::new(Vec::new(), flate2::Compression::default());
    enc.write_all(CATALOG_XML.as_bytes()).unwrap();
    let gz = enc.finish().unwrap();
    assert_eq!(
        catalog_xml("/var/lib/flatpak/appstream/flathub/x86_64/active/appstream.xml.gz", gz.clone()),
        Some(CATALOG_XML.as_bytes().to_vec())
    );
    assert_eq!(catalog_xml("appstream.xml", gz.clone()), Some(gz));
    assert_eq!(catalog_xml("appstream.xml.gz", b"not gzip".to_vec()), None);
}

#[test]
fn catalog_files_are_found_under_system_then_user_roots() {
    assert_eq!(
        catalog_roots(&Some("/home/u".to_string())),
        vec!["/var/lib/flatpak/appstream".to_string(), "/home/u/.local/share/flatpak/appstream".to_string()]
    );
    assert_eq!(catalog_roots(&None), vec!["/var/lib/flatpak/appstream".to_string()]);
    let arch = "/var/lib/flatpak/appstream/flathub/x86_64";
    assert_eq!(
        active_catalog(arch, true, true).as_deref(),
        Some("/var/lib/flatpak/appstream/flathub/x86_64/active/appstream.xml.gz")
    );
    assert_eq!(
        active_catalog(arch, false, true).as_deref(),
        Some("/var/lib/flatpak/appstream/flathub/x86_64/active/appstream.xml")
    );
    assert_eq!(active_catalog(arch, false, false), None);
}

#[test]
fn catalog_with_incomplete_artifact_is_not_read() {
    let xml = r#"<?xml version="1.0" encoding="UTF-8"?>
<components version="0.8">
  <component type="desktop-application">
    <id>org.example.Foo</id>
    <name>Foo</name>
    <releases>
      <release version="1.0">
        <artifacts>
          <artifact type="binary"><checksum type="sha256">abc</checksum></artifact>
        </artifacts>
      </release>
    </releases>
  </component>
</components>"#;
    assert!(parse_components(xml.as_bytes()).is_empty());
    let complete = xml.replace(
        "<checksum type=\"sha256\">abc</checksum>",
        "<location>https://example.org/foo.tar.gz</location>",
    );
    let comps = parse_components(complete.as_bytes());
    assert_eq!(comps.len(), 1);
    assert_eq!(comps[0].id, "org.example.Foo");
    let untyped = complete.replace("<artifact type=\"binary\">", "<artifact>");
    assert!(parse_components(untyped.as_bytes()).is_empty());
}
