use arc_core::appimage::{
    extract_appstream_summary, orphaned_info_stems, parse_desktop, parse_info, squashfs_icon_dirs,
    squashfs_meta, stem_from_id, update_available, AppImageMeta, AppImageProvider, appimages_to_process,
};

#[test]
fn provider_paths() {
    let p = AppImageProvider::new("/home/u");
    assert_eq!(p.appimages_dir, "/home/u/.appimages");
    assert_eq!(p.info_file("krita"), "/home/u/.local/share/arc/appimages/krita.info");
}

#[test]
fn desktop_entries() {
    let m = parse_desktop("[Desktop Entry]\nName=Krita\nComment=Paint\nName=Krita 5\nX-AppImage-Update-Information=zsync|x\n");
    assert_eq!(m.name, "Krita 5");
    assert_eq!(m.description, "Paint");
    assert_eq!(m.update_info, "zsync|x");
    assert_eq!(m.version, "");
}

#[test]
fn appstream_summary() {
    assert_eq!(extract_appstream_summary("<c><summary>  Paint  </summary></c>"), Some("Paint".to_string()));
    assert_eq!(extract_appstream_summary("<summary>   </summary>"), None);
    assert_eq!(extract_appstream_summary("<c/>"), None);
}

#[test]
fn default_metadata_from_path() {
    let m = AppImageMeta::default_from_path("/home/u/Downloads/Krita-5.2.1-x86_64.AppImage");
    assert_eq!(m.name, "Krita");
    let n = AppImageMeta::default_from_path("/home/u/my_tool.AppImage");
    assert_eq!(n.name, "my");
}

#[test]
fn index_records() {
    let r = parse_info("STEM=krita\nPATH=/home/u/.appimages/krita.AppImage\n").unwrap();
    assert_eq!(r.stem, "krita");
    assert!(parse_info("NAME=x\n").is_none());
}

#[test]
fn ids_and_updates() {
    assert_eq!(stem_from_id("appimage:krita"), Some("krita".to_string()));
    assert_eq!(update_available(Some(1)), true);
}

#[test]
fn unpacked_appimage_metadata() {
    let desktop = "[Desktop Entry]\nName=Krita\nVersion=5.2\nCategories=Graphics;\n".to_string();
    let m = squashfs_meta(Some(desktop.clone()), "/a/krita.AppImage", Some("Paint".into()), Some("/s/krita.png".into()));
    assert_eq!(m.name, "Krita");
    assert_eq!(m.version, "5.2");
    assert_eq!(m.description, "Paint");
    assert_eq!(m.categories, "Graphics;");
    assert_eq!(m.icon_path.as_deref(), Some("/s/krita.png"));
    let with_comment = format!("{desktop}Comment=Own\n");
    assert_eq!(squashfs_meta(Some(with_comment), "/a/k.AppImage", Some("Paint".into()), None).description, "Own");
    let bare = squashfs_meta(None, "/a/Some_App-1.0.AppImage", None, None);
    assert_eq!(bare.name, "Some");
    assert_eq!(bare.description, "");
    assert!(bare.icon_path.is_none());
}

#[test]
fn orphaned_index_files() {
    let found = vec!["krita".to_string()];
    let files = vec![
        "/d/krita.info".to_string(),
        "/d/gone.info".to_string(),
        "/d/notes.txt".to_string(),
        "/d/icons".to_string(),
    ];
    assert_eq!(orphaned_info_stems(&found, &files), vec!["gone".to_string()]);
}

#[test]
fn icon_folders_inside_an_appimage() {
    assert_eq!(
        squashfs_icon_dirs("/tmp/x/squashfs-root"),
        vec![
            "/tmp/x/squashfs-root/usr/share/icons/hicolor/256x256/apps",
            "/tmp/x/squashfs-root/usr/share/icons/hicolor/128x128/apps",
            "/tmp/x/squashfs-root/usr/share/icons/hicolor/64x64/apps",
        ]
    );
}

#[test]
fn appimage_path_round_trips_to_its_stem() {
    let p = AppImageProvider::new("/home/u");
    for stem in ["Krita", "krita-5.2", "a.b", "x"] {
        assert_eq!(AppImageProvider::stem_from_path(&p.appimage_path(stem)), Some(stem.to_string()));
    }
    assert_eq!(AppImageProvider::stem_from_path("/a/x.appimage"), None);
}

#[test]
fn sync_processes_appimages_without_index() {
    let stems = vec![Some("a".to_string()), None, Some("b".to_string()), Some("c".to_string())];
    assert_eq!(appimages_to_process(&stems, &vec![false, false, true, false]), vec![0, 3]);
    assert!(appimages_to_process(&vec![], &vec![]).is_empty());
}
