use arc_core::frontend::{
    TxList, detail_from, raw_icon_url, AppMetadata, HomeFeedModelRust, filter_rows, find_story, provider_names, row_change, row_status, same_ids, section_str,
    stash_stories, static_item_type, status_str, sync_installed, tx_counts, CachedDetail,
    DetailCache, ListMode, RowChange, Story, StoryStash, TxStatus,
};
use arc_core::package::{Package, Provider};
use arc_core::transactions::{Transaction, TransactionStatus, TransactionType};

fn pkg(id: &str, provider: Provider, installed: bool) -> Package {
    Package {
        id: id.to_string(),
        name: id.to_string(),
        version: String::new(),
        description: String::new(),
        provider,
        installed,
        icon_url: None,
        remote: None,
        screenshots: vec![],
        developer_name: None,
        homepage_url: None,
        content_rating: None,
        is_runtime: false,
        categories: vec![],
    }
}

fn detail(name: &str) -> CachedDetail {
    CachedDetail {
        name: name.to_string(),
        summary: String::new(),
        description: String::new(),
        icon_url: String::new(),
        developer_name: String::new(),
        homepage_url: String::new(),
        content_rating: String::new(),
        version: String::new(),
        license: String::new(),
        eula_url: String::new(),
        extensions_json: "[]".to_string(),
        installed: false,
        screenshots: vec![],
    }
}

#[test]
fn status_labels() {
    assert_eq!(status_str(TxStatus::Pending), "pending");
    assert_eq!(status_str(TxStatus::Running), "running");
    assert_eq!(status_str(TxStatus::Completed), "completed");
    assert_eq!(status_str(TxStatus::Failed), "failed");
    assert_eq!(section_str(TxStatus::Running), "active");
    assert_eq!(section_str(TxStatus::Pending), "pending");
    assert_eq!(section_str(TxStatus::Completed), "completed");
    assert_eq!(section_str(TxStatus::Failed), "completed");
}

#[test]
fn daemon_statuses_map_to_rows() {
    assert_eq!(row_status(&TransactionStatus::Success), (TxStatus::Completed, String::new()));
    assert_eq!(
        row_status(&TransactionStatus::Failed("disk full".into())),
        (TxStatus::Failed, "disk full".to_string())
    );
}

#[test]
fn counters() {
    let c = tx_counts(&vec![TxStatus::Running, TxStatus::Pending, TxStatus::Pending, TxStatus::Failed, TxStatus::Completed]);
    assert_eq!((c.active, c.running, c.queued, c.done), (3, 1, 2, 2));
}

#[test]
fn filters() {
    let all = vec![
        pkg("a", Provider::Flatpak, true),
        pkg("b", Provider::Pwa, false),
        pkg("c", Provider::Flatpak, false),
    ];
    assert_eq!(filter_rows(&all, "", 0), vec![0, 1, 2]);
    assert_eq!(filter_rows(&all, "Flatpak", 0), vec![0, 2]);
    assert_eq!(filter_rows(&all, "Flatpak", 1), vec![0]);
    assert_eq!(filter_rows(&all, "", 2), vec![1, 2]);
    assert_eq!(filter_rows(&all, "PWA", 1), Vec::<usize>::new());
}

#[test]
fn provider_filter_names_are_sorted_and_distinct() {
    let ps = vec![Provider::Pwa, Provider::Flatpak, Provider::Pwa, Provider::AppImage];
    assert_eq!(provider_names(&ps), vec!["AppImage", "Flatpak", "PWA"]);
    assert!(provider_names(&vec![]).is_empty());
}

#[test]
fn id_comparison() {
    let a = vec![pkg("a", Provider::Flatpak, true), pkg("b", Provider::Pwa, false)];
    let b = vec![pkg("a", Provider::Lutris, false), pkg("b", Provider::Pwa, true)];
    let c = vec![pkg("b", Provider::Pwa, false), pkg("a", Provider::Flatpak, true)];
    assert!(same_ids(&a, &b));
    assert!(!same_ids(&a, &c));
    assert!(!same_ids(&a, &a[..1].to_vec()));
}

#[test]
fn finished_rows() {
    assert_eq!(row_change("remove", true, ListMode::Installed), RowChange::Drop);
    assert_eq!(row_change("remove_with_data", true, ListMode::Installed), RowChange::Drop);
    assert_eq!(row_change("update", true, ListMode::Updates), RowChange::Drop);
    assert_eq!(row_change("remove", true, ListMode::Search), RowChange::Settle { installed: Some(false) });
    assert_eq!(row_change("install", true, ListMode::Installed), RowChange::Settle { installed: Some(true) });
    assert_eq!(row_change("remove", false, ListMode::Installed), RowChange::Settle { installed: None });
}

#[test]
fn home_section_types() {
    assert_eq!(static_item_type("h2"), "h2");
    assert_eq!(static_item_type("app-grid"), "app-grid");
    assert_eq!(static_item_type("unknown"), "p");
    assert_eq!(static_item_type(""), "p");
}

#[test]
fn installed_flag_is_synced_into_cached_details() {
    let mut cache = DetailCache { entries: vec![("a".to_string(), detail("A")), ("b".to_string(), detail("B"))] };
    sync_installed(&mut cache, "b", true);
    assert!(!cache.entries[0].1.installed);
    assert!(cache.entries[1].1.installed);
    assert_eq!(cache.entries[1].1.name, "B");
    sync_installed(&mut cache, "zzz", true);
    assert!(!cache.entries[0].1.installed);
}

#[test]
fn stories_are_stashed_and_found() {
    let mut stash = StoryStash { stories: vec![] };
    stash_stories(
        &mut stash,
        vec![Story { id: "s1".into(), title: "T".into(), banner_url: "b".into(), body_html: "<p>x</p>".into() }],
    );
    assert_eq!(find_story(&stash, "s1"), Some(0));
    assert_eq!(find_story(&stash, "s2"), None);
}

fn meta(summary: &str) -> AppMetadata {
    AppMetadata {
        summary: summary.into(),
        description: "<p>Long</p>".into(),
        icon_url: None,
        screenshots: vec!["s1".into()],
        homepage_url: Some("https://home".into()),
        content_rating: "7+".into(),
        developer_name: None,
        license: Some("GPL-3.0".into()),
        eula_url: None,
    }
}

#[test]
fn detail_page_from_daemon_replies() {
    let mut p = pkg("org.x.App", Provider::Flatpak, true);
    p.version = "1.2".into();
    p.description = "From the package".into();
    p.icon_url = Some("https://pkg/icon.png".into());
    assert_eq!(raw_icon_url(&meta(""), &Some(p.clone())).as_deref(), Some("https://pkg/icon.png"));
    let mut m = meta("");
    m.icon_url = Some("https://meta/icon.png".into());
    assert_eq!(raw_icon_url(&m, &Some(p.clone())).as_deref(), Some("https://meta/icon.png"));
    assert_eq!(raw_icon_url(&meta(""), &None), None);

    let d = detail_from(Some(p.clone()), meta(""), "icon".into(), "[]".into());
    assert_eq!(d.name, "org.x.App");
    assert_eq!(d.version, "1.2");
    assert!(d.installed);
    assert_eq!(d.summary, "From the package");
    assert_eq!(d.homepage_url, "https://home");
    assert_eq!(d.developer_name, "");
    assert_eq!(d.license, "GPL-3.0");
    assert_eq!(d.icon_url, "icon");
    let d2 = detail_from(None, meta("Catalog summary"), String::new(), "[]".into());
    assert_eq!(d2.summary, "Catalog summary");
    assert_eq!(d2.name, "");
    assert!(!d2.installed);
}

#[test]
fn detail_cache_insert_and_extensions() {
    let mut c = DetailCache::new();
    c.insert("a".into(), detail("A"));
    c.insert("b".into(), detail("B"));
    c.insert("a".into(), detail("A2"));
    assert_eq!(c.entries.len(), 2);
    assert_eq!(c.position("a"), Some(0));
    assert_eq!(c.entries[0].1.name, "A2");
    c.set_extensions("b", "[{\"id\":\"x\"}]".into());
    assert_eq!(c.entries[1].1.extensions_json, "[{\"id\":\"x\"}]");
    c.set_extensions("zz", "ignored".into());
    assert_eq!(c.entries.len(), 2);
    assert_eq!(c.position("zz"), None);
}

#[test]
fn home_feed_loading_state() {
    let mut h: HomeFeedModelRust<u32> = HomeFeedModelRust::new();
    assert!(h.loading);
    assert!(h.wants_saved());
    h.begin_fetch();
    assert!(h.loading);
    h.finish_fetch(vec![1, 2]);
    assert!(!h.loading);
    assert_eq!(h.row_count(), 2);
    assert!(!h.wants_saved());
    h.begin_fetch();
    assert!(!h.loading);
    h.show_saved(vec![3]);
    assert_eq!(h.sections, vec![3]);
}

#[test]
fn transaction_list_lifecycle() {
    let mut l = TxList::new();
    assert!(l.start("org.x.A".into(), "A".into(), "icon".into(), "install".into()));
    assert!(!l.start("org.x.A".into(), "A".into(), "icon".into(), "install".into()));
    assert!(l.has_ongoing("org.x.A"));
    assert_eq!(l.cancel_target("org.x.A"), None);
    l.accepted("org.x.A", "tx-1".into());
    assert_eq!(l.rows[0].status, TxStatus::Running);
    assert_eq!(l.cancel_target("org.x.A").as_deref(), Some("tx-1"));
    l.on_progress("tx-1", 40);
    assert_eq!(l.rows[0].percent, 40);
    l.on_progress("unknown", 90);
    assert_eq!(l.rows[0].percent, 40);
    l.on_finished("tx-1", true, String::new());
    assert_eq!(l.rows[0].status, TxStatus::Completed);
    assert_eq!(l.rows[0].percent, 100);
    assert!(!l.has_ongoing("org.x.A"));
    assert!(l.start("org.x.A".into(), "A".into(), String::new(), "remove".into()));
    l.rejected("org.x.A", "no daemon".into());
    assert_eq!(l.rows[1].status, TxStatus::Failed);
    assert_eq!(l.rows[1].error, "no daemon");
    assert!(l.start("org.x.B".into(), "B".into(), String::new(), "update".into()));
    l.clear_finished();
    assert_eq!(l.rows.len(), 1);
    assert_eq!(l.rows[0].pkg_id, "org.x.B");
}

#[test]
fn transaction_list_loads_daemon_transactions_once() {
    let mut l = TxList::new();
    let t = Transaction {
        id: 9,
        t_type: TransactionType::Update,
        package_id: "org.x.C".into(),
        provider: Provider::Flatpak,
        status: TransactionStatus::Failed("boom".into()),
        progress: 30,
    };
    l.load_running("id-9".into(), &t, "i".into());
    l.load_running("id-9".into(), &t, "i".into());
    assert_eq!(l.rows.len(), 1);
    assert_eq!(l.rows[0].tx_type, "update");
    assert_eq!(l.rows[0].status, TxStatus::Failed);
    assert_eq!(l.rows[0].error, "boom");
    assert_eq!(l.rows[0].name, "org.x.C");
    assert_eq!(l.rows[0].percent, 30);
    l.on_finished("id-9", false, "again".into());
    assert_eq!(l.rows[0].error, "again");
}
