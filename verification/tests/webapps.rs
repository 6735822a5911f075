use arc_core::package::Provider;
use arc_core::webapps::{
    exec_options, file_uri, local_icon_candidates, detect_lang, find_pwa, installed_pwa_packages, launcher_appid, ForgePwa, PwaProvider,
};

fn pwa(appid: &str, name: &str) -> ForgePwa {
    ForgePwa {
        appid: appid.into(),
        name: name.into(),
        summary: format!("{name} in a window"),
        description: String::new(),
        icon_url: Some(format!("https://forge.example/{appid}.png")),
        screenshots: vec!["https://forge.example/s1.png".into()],
        url: format!("https://{appid}.example"),
        homepage_url: None,
        developer_name: Some("Dev".into()),
        content_rating: None,
        verified: true,
        color: String::new(),
        css: String::new(),
        js: String::new(),
        useragent: String::new(),
        widevine: false,
        tray: false,
        url_filter: String::new(),
    }
}

#[test]
fn pwa_paths() {
    let p = PwaProvider::new("/home/u");
    assert_eq!(p.desktop_dir, "/home/u/.local/share/applications");
    assert_eq!(p.hicolor_dir, "/home/u/.local/share/icons/hicolor");
    assert_eq!(p.desktop_path("mail"), "/home/u/.local/share/applications/arc-pwa-mail.desktop");
    assert_eq!(
        p.icon_theme_path("mail", "png"),
        "/home/u/.local/share/icons/hicolor/256x256/apps/arc-pwa-mail.png"
    );
    assert_eq!(
        p.icon_theme_path("mail", "svg"),
        "/home/u/.local/share/icons/hicolor/scalable/apps/arc-pwa-mail.svg"
    );
}

#[test]
fn pwa_prefix_is_stripped_once() {
    assert_eq!(PwaProvider::strip_prefix("pwa:mail"), "mail");
    assert_eq!(PwaProvider::strip_prefix("mail"), "mail");
    assert_eq!(PwaProvider::strip_prefix("pwa:pwa:x"), "pwa:x");
}

#[test]
fn pwa_package_from_catalog() {
    let p = PwaProvider::to_package(&pwa("mail", "Mail"), false);
    assert_eq!(p.id, "pwa:mail");
    assert_eq!(p.name, "Mail");
    assert_eq!(p.description, "Mail in a window");
    assert_eq!(p.provider, Provider::Pwa);
    assert!(!p.installed);
    assert_eq!(p.icon_url.as_deref(), Some("https://forge.example/mail.png"));
    assert_eq!(p.screenshots, vec!["https://forge.example/s1.png".to_string()]);
    assert_eq!(p.developer_name.as_deref(), Some("Dev"));
    assert!(p.version.is_empty());
}

#[test]
fn launcher_names() {
    assert_eq!(launcher_appid("arc-pwa-mail.desktop").as_deref(), Some("mail"));
    assert_eq!(launcher_appid("arc-pwa-.desktop"), None);
    assert_eq!(launcher_appid("firefox.desktop"), None);
    assert_eq!(launcher_appid("arc-pwa-mail.png"), None);
}

#[test]
fn catalog_lookup_takes_the_first() {
    let all = vec![pwa("a", "A"), pwa("b", "B1"), pwa("b", "B2")];
    assert_eq!(find_pwa(&all, "b"), Some(1));
    assert_eq!(find_pwa(&all, "c"), None);
}

#[test]
fn installed_packages_fall_back_to_bare_ones() {
    let all = vec![pwa("mail", "Mail")];
    let r = installed_pwa_packages(&vec!["chat".to_string(), "mail".to_string()], &all);
    assert_eq!(r.len(), 2);
    assert_eq!(r[0].id, "pwa:chat");
    assert_eq!(r[0].name, "chat");
    assert!(r[0].installed);
    assert!(r[0].icon_url.is_none());
    assert_eq!(r[1].id, "pwa:mail");
    assert_eq!(r[1].name, "Mail");
    assert!(r[1].installed);
}

#[test]
fn catalog_language() {
    let v = |xs: &[Option<&str>]| xs.iter().map(|o| o.map(|s| s.to_string())).collect::<Vec<_>>();
    assert_eq!(detect_lang(&v(&[None, Some("de_DE.UTF-8"), Some("fr")])), "de");
    assert_eq!(detect_lang(&v(&[Some("C"), Some("POSIX"), Some("pt-BR")])), "pt");
    assert_eq!(detect_lang(&v(&[Some(""), None])), "en");
    assert_eq!(detect_lang(&v(&[])), "en");
    assert_eq!(detect_lang(&v(&[Some("C.UTF-8")])), "en");
}

fn opts(v: &[arc_core::webapps::ExecOption]) -> Vec<(String, Option<String>)> {
    v.iter().map(|o| (o.flag.clone(), o.value.clone())).collect()
}

#[test]
fn launcher_options() {
    let mut p = pwa("mail", "Mail");
    let o = opts(&exec_options(&p, None));
    assert_eq!(
        o,
        vec![
            ("url".to_string(), Some("https://mail.example".to_string())),
            ("name".to_string(), Some("Mail".to_string())),
            ("appid".to_string(), Some("mail".to_string())),
            ("icon".to_string(), Some("https://forge.example/mail.png".to_string())),
        ]
    );
    p.color = "#000000".into();
    p.css = "body{}".into();
    p.widevine = true;
    p.tray = true;
    p.url_filter = "*.example".into();
    let o2 = opts(&exec_options(&p, Some("file:///icons/mail.png".into())));
    let flags: Vec<&str> = o2.iter().map(|(f, _)| f.as_str()).collect();
    assert_eq!(flags, vec!["url", "name", "appid", "icon", "css", "widevine", "tray", "url-filter"]);
    assert_eq!(o2[3].1.as_deref(), Some("file:///icons/mail.png"));
    assert_eq!(o2[5].1, None);
    p.color = "#ff0000".into();
    let o3 = opts(&exec_options(&p, None));
    assert_eq!(o3[3], ("color".to_string(), Some("#ff0000".to_string())));
}

#[test]
fn downloaded_icon_lookup() {
    let prov = PwaProvider::new("/home/u");
    assert_eq!(
        local_icon_candidates(&prov, "mail"),
        vec![
            "/home/u/.local/share/icons/hicolor/256x256/apps/arc-pwa-mail.png",
            "/home/u/.local/share/icons/hicolor/scalable/apps/arc-pwa-mail.svg",
            "/home/u/.local/share/icons/hicolor/256x256/apps/arc-pwa-mail.webp",
        ]
    );
    assert_eq!(file_uri("/x/y.png"), "file:///x/y.png");
}
