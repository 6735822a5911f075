use arc_core::forge::{collect_home_app_ids, feed_urls, tag_ids_exec, ForgeFeeds};

#[test]
fn app_tags_in_order() {
    let t = r#"<app id="a.B"/> junk <app name="x"> <app id=" c.D ">text<app id="">"#;
    assert_eq!(tag_ids_exec(t), vec!["a.B".to_string(), "c.D".to_string()]);
    assert!(tag_ids_exec("no tags").is_empty());
    assert!(tag_ids_exec(r#"<app id="unterminated"#).is_empty());
}

#[test]
fn home_ids_are_deduplicated_in_first_mention_order() {
    let top = r#"["org.a.A", "org.b.B"]"#;
    let new = r#"<feed><app id="org.c.C"/><app id="org.a.A"/></feed>"#;
    let trending = "not json";
    let charts = "";
    let r = collect_home_app_ids(top, new, trending, charts, vec!["org.d.D".into(), "org.b.B".into()]);
    assert_eq!(r, vec!["org.c.C", "org.a.A", "org.b.B", "org.d.D"]);
}

#[test]
fn refresh_keeps_what_failed() {
    let mut f = ForgeFeeds::new();
    assert!(f.needs_refresh());
    f.apply_refresh(Some("[1]".into()), None, Some("[3]".into()), None, "{\"m\":1}".into(), vec![("a".into(), "u".into())]);
    assert!(!f.needs_refresh());
    assert_eq!(f.top_json, "[1]");
    assert_eq!(f.new_json, "");
    f.apply_refresh(None, Some("[2]".into()), None, None, String::new(), vec![]);
    assert_eq!(f.top_json, "[1]");
    assert_eq!(f.new_json, "[2]");
    assert_eq!(f.trending_json, "[3]");
    assert_eq!(f.app_metadata_json, "{\"m\":1}");
    assert!(f.original_icon_urls.is_empty());
}

#[test]
fn forge_feed_urls() {
    assert_eq!(
        feed_urls("https://forge.example"),
        vec![
            "https://forge.example/api/top?limit=12",
            "https://forge.example/api/new?limit=20",
            "https://forge.example/api/trending?limit=12",
            "https://forge.example/api/charts?limit=12",
        ]
    );
}
