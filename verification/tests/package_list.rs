use arc_core::frontend::ListMode;
use arc_core::package::{Package, Provider};
use arc_core::package_list::{ListRequest, PackageList, RowEffect};

fn pkg(id: &str, name: &str, provider: Provider, installed: bool) -> Package {
    Package {
        id: id.to_string(),
        name: name.to_string(),
        version: String::new(),
        description: String::new(),
        provider,
        installed,
        icon_url: None,
        remote: None,
        screenshots: vec![],
        developer_name: None,
        homepage_url: None,
        content_rating: None,
        is_runtime: false,
        categories: vec![],
    }
}

fn shown_ids(l: &PackageList<f32>) -> Vec<String> {
    l.shown.iter().map(|r| r.pkg.id.clone()).collect()
}

fn all_ids(l: &PackageList<f32>) -> Vec<String> {
    l.all.iter().map(|r| r.pkg.id.clone()).collect()
}

fn sample() -> Vec<Package> {
    vec![
        pkg("org.b.Beta", "beta", Provider::Flatpak, true),
        pkg("lutris:alpha", "Alpha", Provider::Lutris, false),
        pkg("pwa:gamma", "gamma", Provider::Pwa, true),
        pkg("org.a.Alpha", "alpha", Provider::Flatpak, false),
    ]
}

#[test]
fn request_cache_keys_and_modes() {
    assert_eq!(ListRequest::Search("gimp".to_string()).cache_key(), "search:gimp");
    assert_eq!(ListRequest::Installed.cache_key(), "installed");
    assert_eq!(ListRequest::Category("Game".to_string()).cache_key(), "category:Game");
    assert_eq!(ListRequest::Updates.cache_key(), "updates");
    assert_eq!(ListRequest::Search(String::new()).mode(), ListMode::Search);
    assert_eq!(ListRequest::Category("x".to_string()).mode(), ListMode::Search);
    assert_eq!(ListRequest::Installed.mode(), ListMode::Installed);
    assert_eq!(ListRequest::Updates.mode(), ListMode::Updates);
}

#[test]
fn new_list_is_loading_and_empty() {
    let l: PackageList<f32> = PackageList::new();
    assert!(l.loading);
    assert_eq!(l.row_count(), 0);
    assert_eq!(l.request_seq, 0);
    assert!(l.providers().is_empty());
}

#[test]
fn begin_clears_filters_and_numbers_requests() {
    let mut l: PackageList<f32> = PackageList::new();
    l.set_filters("Flatpak".to_string(), 1, true);
    let first = l.begin(&ListRequest::Installed);
    assert_eq!(first, 1);
    assert_eq!(l.mode, ListMode::Installed);
    assert_eq!(l.filter_provider, "");
    assert_eq!(l.filter_installed, 0);
    assert!(!l.sort_by_name);
    assert!(l.loading);
    let second = l.begin(&ListRequest::Updates);
    assert_eq!(second, 2);
    assert_eq!(l.mode, ListMode::Updates);
}

#[test]
fn reply_to_latest_request_is_shown() {
    let mut l: PackageList<f32> = PackageList::new();
    let seq = l.begin(&ListRequest::Search("a".to_string()));
    l.deliver(seq, sample(), false, 0.0);
    assert!(!l.loading);
    let ids = vec!["org.b.Beta", "lutris:alpha", "pwa:gamma", "org.a.Alpha"];
    assert_eq!(shown_ids(&l), ids);
    assert_eq!(all_ids(&l), ids);
    assert!(l.shown.iter().all(|r| !r.busy && r.progress == 0.0));
    assert_eq!(l.providers(), vec!["Flatpak", "Lutris", "PWA"]);
}

#[test]
fn superseded_reply_is_ignored() {
    let mut l: PackageList<f32> = PackageList::new();
    let first = l.begin(&ListRequest::Search("a".to_string()));
    let second = l.begin(&ListRequest::Search("ab".to_string()));
    l.deliver(first, sample(), false, 0.0);
    assert!(l.loading);
    assert_eq!(l.row_count(), 0);
    l.deliver(second, vec![pkg("org.a.Alpha", "alpha", Provider::Flatpak, false)], false, 0.0);
    assert_eq!(shown_ids(&l), vec!["org.a.Alpha"]);
    assert!(!l.loading);
}

#[test]
fn same_reply_after_cached_one_only_ends_loading() {
    let mut l: PackageList<f32> = PackageList::new();
    let seq = l.begin(&ListRequest::Installed);
    l.deliver(seq, sample(), false, 0.0);
    l.set_filters("Flatpak".to_string(), 0, false);
    l.loading = true;
    let mut again = sample();
    again[0].name = "renamed".to_string();
    l.deliver(seq, again, true, 0.0);
    assert!(!l.loading);
    assert_eq!(l.all[0].pkg.name, "beta");
    assert_eq!(shown_ids(&l), vec!["org.b.Beta", "org.a.Alpha"]);
}

#[test]
fn busy_marker_survives_reload() {
    let mut l: PackageList<f32> = PackageList::new();
    let seq = l.begin(&ListRequest::Search(String::new()));
    l.deliver(seq, sample(), false, 0.0);
    assert_eq!(l.set_busy("pwa:gamma", true, 0.4), Some(2));
    let seq = l.begin(&ListRequest::Search(String::new()));
    l.deliver(
        seq,
        vec![pkg("pwa:gamma", "gamma", Provider::Pwa, true), pkg("org.b.Beta", "beta", Provider::Flatpak, true)],
        false,
        0.0,
    );
    assert!(l.all[0].busy);
    assert_eq!(l.all[0].progress, 0.4);
    assert!(l.shown[0].busy);
    assert!(!l.all[1].busy);
    assert_eq!(l.all[1].progress, 0.0);
}

#[test]
fn failed_request_stops_loading_only_when_latest_without_cache() {
    let mut l: PackageList<f32> = PackageList::new();
    let first = l.begin(&ListRequest::Installed);
    let second = l.begin(&ListRequest::Installed);
    l.fail(first, false);
    assert!(l.loading);
    l.fail(second, true);
    assert!(l.loading);
    l.fail(second, false);
    assert!(!l.loading);
}

#[test]
fn filters_keep_matching_rows_in_order() {
    let mut l: PackageList<f32> = PackageList::new();
    let seq = l.begin(&ListRequest::Search(String::new()));
    l.deliver(seq, sample(), false, 0.0);
    l.set_filters("Flatpak".to_string(), 0, false);
    assert_eq!(shown_ids(&l), vec!["org.b.Beta", "org.a.Alpha"]);
    l.set_filters(String::new(), 1, false);
    assert_eq!(shown_ids(&l), vec!["org.b.Beta", "pwa:gamma"]);
    l.set_filters(String::new(), 2, false);
    assert_eq!(shown_ids(&l), vec!["lutris:alpha", "org.a.Alpha"]);
    l.set_filters("Flatpak".to_string(), 2, false);
    assert_eq!(shown_ids(&l), vec!["org.a.Alpha"]);
    l.set_filters(String::new(), 7, false);
    assert_eq!(l.row_count(), 4);
    assert_eq!(all_ids(&l).len(), 4);
}

#[test]
fn sort_by_name_ignores_case_and_keeps_ties_in_order() {
    let mut l: PackageList<f32> = PackageList::new();
    let seq = l.begin(&ListRequest::Search(String::new()));
    l.deliver(seq, sample(), false, 0.0);
    l.set_filters(String::new(), 0, true);
    // "Alpha" and "alpha" tie once lower-cased and keep their list order.
    assert_eq!(shown_ids(&l), vec!["lutris:alpha", "org.a.Alpha", "org.b.Beta", "pwa:gamma"]);
    l.set_filters("Flatpak".to_string(), 0, true);
    assert_eq!(shown_ids(&l), vec!["org.a.Alpha", "org.b.Beta"]);
}

#[test]
fn set_busy_marks_every_row_of_the_package() {
    let mut l: PackageList<f32> = PackageList::new();
    let seq = l.begin(&ListRequest::Search(String::new()));
    l.deliver(seq, sample(), false, 0.0);
    l.set_filters("Flatpak".to_string(), 0, false);
    assert_eq!(l.set_busy("org.a.Alpha", true, 0.25), Some(1));
    assert!(l.shown[1].busy);
    assert!(l.all[3].busy);
    assert_eq!(l.all[3].progress, 0.25);
    assert!(!l.all[0].busy);
    assert_eq!(l.set_busy("lutris:alpha", true, 0.5), None);
    assert!(l.all[1].busy);
    assert_eq!(l.set_busy("missing", true, 0.5), None);
}

#[test]
fn successful_remove_drops_row_from_installed_list() {
    let mut l: PackageList<f32> = PackageList::new();
    let seq = l.begin(&ListRequest::Installed);
    l.deliver(seq, sample(), false, 0.0);
    l.set_busy("pwa:gamma", true, 0.5);
    assert_eq!(l.finish("pwa:gamma", "remove", true, 0.0), Some(RowEffect::Removed(2)));
    assert_eq!(shown_ids(&l), vec!["org.b.Beta", "lutris:alpha", "org.a.Alpha"]);
    assert_eq!(all_ids(&l), vec!["org.b.Beta", "lutris:alpha", "org.a.Alpha"]);
}

#[test]
fn successful_update_drops_row_from_updates_list() {
    let mut l: PackageList<f32> = PackageList::new();
    let seq = l.begin(&ListRequest::Updates);
    l.deliver(seq, sample(), false, 0.0);
    assert_eq!(l.finish("org.b.Beta", "update", true, 0.0), Some(RowEffect::Removed(0)));
    assert_eq!(l.row_count(), 3);
}

#[test]
fn search_list_settles_rows_and_flips_installed() {
    let mut l: PackageList<f32> = PackageList::new();
    let seq = l.begin(&ListRequest::Search(String::new()));
    l.deliver(seq, sample(), false, 0.0);
    l.set_busy("org.a.Alpha", true, 0.75);
    assert_eq!(l.finish("org.a.Alpha", "install", true, 0.0), Some(RowEffect::Changed(3)));
    assert!(l.shown[3].pkg.installed);
    assert!(!l.shown[3].busy);
    assert_eq!(l.shown[3].progress, 0.0);
    assert!(l.all[3].pkg.installed);
    assert_eq!(l.finish("org.b.Beta", "remove", true, 0.0), Some(RowEffect::Changed(0)));
    assert!(!l.shown[0].pkg.installed);
    assert_eq!(l.row_count(), 4);
}

#[test]
fn failed_transaction_only_clears_busy() {
    let mut l: PackageList<f32> = PackageList::new();
    let seq = l.begin(&ListRequest::Installed);
    l.deliver(seq, sample(), false, 0.0);
    l.set_busy("org.b.Beta", true, 0.3);
    assert_eq!(l.finish("org.b.Beta", "remove", false, 0.0), Some(RowEffect::Changed(0)));
    assert!(l.shown[0].pkg.installed);
    assert!(!l.shown[0].busy);
    assert_eq!(l.row_count(), 4);
}

#[test]
fn finish_for_unlisted_package_changes_nothing() {
    let mut l: PackageList<f32> = PackageList::new();
    let seq = l.begin(&ListRequest::Installed);
    l.deliver(seq, sample(), false, 0.0);
    assert_eq!(l.finish("org.x.Missing", "remove", true, 0.0), None);
    assert_eq!(l.row_count(), 4);
}

#[test]
fn filtered_out_row_is_still_dropped_from_all_rows() {
    let mut l: PackageList<f32> = PackageList::new();
    let seq = l.begin(&ListRequest::Installed);
    l.deliver(seq, sample(), false, 0.0);
    l.set_filters("Flatpak".to_string(), 0, false);
    assert_eq!(l.finish("pwa:gamma", "remove_with_data", true, 0.0), None);
    assert_eq!(all_ids(&l), vec!["org.b.Beta", "lutris:alpha", "org.a.Alpha"]);
    assert_eq!(shown_ids(&l), vec!["org.b.Beta", "org.a.Alpha"]);
}
