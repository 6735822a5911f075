use arc_core::extensions::{
    assemble_extensions, fallback_name, should_filter, split_char_exec, InstalledExtension,
    RemoteExtension,
};

fn remote(name: &str, branch: &str, runtime: bool, catalog: Option<&str>) -> RemoteExtension {
    RemoteExtension {
        remote: "flathub".into(),
        name: name.into(),
        branch: Some(branch.into()),
        is_runtime: runtime,
        catalog_name: catalog.map(|s| s.to_string()),
    }
}

#[test]
fn fallback_names() {
    assert_eq!(fallback_name("Plugin.gmic"), "Gmic");
    assert_eq!(fallback_name("Plugin"), "Plugin");
    assert_eq!(fallback_name("vaapi_intel"), "Vaapi intel");
    assert_eq!(fallback_name("GL.nvidia-550"), "Nvidia 550");
    assert_eq!(fallback_name("ffmpeg.full"), "Ffmpeg full");
    assert_eq!(fallback_name(""), "");
}

#[test]
fn hidden_kinds() {
    assert!(should_filter("Debug"));
    assert!(should_filter("Sources"));
    assert!(should_filter("Locale"));
    assert!(!should_filter("Plugin.gmic"));
}

#[test]
fn split_on_dots() {
    let parts: Vec<String> = split_char_exec("a..b", '.').into_iter().map(|v| v.into_iter().collect()).collect();
    assert_eq!(parts, vec!["a".to_string(), "".to_string(), "b".to_string()]);
}

#[test]
fn assembles_remote_and_installed_extensions() {
    let installed = vec![
        InstalledExtension { name: "org.gimp.GIMP.Plugin.Resynthesizer".into(), appdata_name: Some("Resynthesizer".into()) },
        InstalledExtension { name: "org.gimp.GIMP.Plugin.Local".into(), appdata_name: None },
        InstalledExtension { name: "org.gimp.GIMP.Debug".into(), appdata_name: None },
        InstalledExtension { name: "org.other.App.Plugin.X".into(), appdata_name: None },
    ];
    let refs = vec![
        remote("org.gimp.GIMP.Plugin.Resynthesizer", "2-40", true, None),
        remote("org.gimp.GIMP.Plugin.GMic", "2-40", true, Some("G'MIC")),
        remote("org.gimp.GIMP.Plugin.GMic", "beta", true, None),
        remote("org.gimp.GIMP.Locale", "stable", true, None),
        remote("org.gimp.GIMP.Plugin.Fourier", "2-40", true, None),
        remote("org.gimp.GIMP", "stable", false, None),
    ];
    let rows = assemble_extensions("org.gimp.GIMP", &installed, &refs);
    let got: Vec<(String, String, String, bool, Option<String>)> = rows
        .into_iter()
        .map(|r| (r.id, r.name, r.version, r.installed, r.remote))
        .collect();
    assert_eq!(
        got,
        vec![
            ("org.gimp.GIMP.Plugin.Resynthesizer".into(), "Resynthesizer".into(), "2-40".into(), true, Some("flathub".into())),
            ("org.gimp.GIMP.Plugin.GMic".into(), "G'MIC".into(), "2-40".into(), false, Some("flathub".into())),
            ("org.gimp.GIMP.Plugin.Fourier".into(), "Fourier".into(), "2-40".into(), false, Some("flathub".into())),
            ("org.gimp.GIMP.Plugin.Local".into(), "Local".into(), "".into(), true, None),
        ]
    );
}
