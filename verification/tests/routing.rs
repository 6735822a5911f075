use arc_core::package::Provider;
use arc_core::routing::{
    cache_backdate_secs, combine_fetches, is_appimage_id, is_flatpak_id, is_fresh, is_lutris_id,
    is_pwa_id, kio_hidden, plan_limit_change, provider_from_id, retire_remainder, route,
    route_update, route_update_with_progress, settle_fetch, LimitChange, Progress, Route,
    PACKAGE_CACHE_TTL_SECS, RETRY_GRACE_SECS, merge_installed, merge_provider_fetches, merge_updates,
};
use arc_core::package::Package;

#[test]
fn flatpak_ids_are_reverse_dns() {
    assert!(is_flatpak_id("org.gimp.GIMP"));
    assert!(!is_flatpak_id("org.gimp"));
    assert!(!is_flatpak_id("/home/u/a.b.c.deb"));
    assert!(!is_flatpak_id("distrobox:arc-debian:a.b.c:deb"));
    assert!(!is_flatpak_id("x;y.z.w"));
    assert!(!is_flatpak_id("pwa:a.b.c"));
}

#[test]
fn prefix_ids() {
    assert!(is_lutris_id("lutris:quake"));
    assert!(is_pwa_id("pwa:whatsapp"));
    assert!(is_appimage_id("appimage:krita"));
    assert!(is_appimage_id("/home/u/Krita-5.AppImage"));
    assert!(!is_appimage_id("org.kde.krita"));
}

#[test]
fn routes_requests() {
    assert_eq!(route("pwa:whatsapp"), Route::Pwa);
    assert_eq!(route("appimage:krita"), Route::AppImage);
    assert_eq!(route("Krita.APPIMAGE"), Route::AppImage);
    assert_eq!(route("lutris:quake"), Route::Lutris);
    assert_eq!(route("org.gimp.GIMP"), Route::Flatpak);
    assert_eq!(route("distrobox:arc-debian:htop:deb"), Route::Native);
    assert_eq!(route("/tmp/htop_1.0_amd64.deb"), Route::Native);
}

#[test]
fn routes_updates() {
    assert_eq!(route_update("lutris:quake"), Route::Native);
    assert_eq!(route_update("pwa:x"), Route::Pwa);
    assert_eq!(route_update("org.gimp.GIMP"), Route::Flatpak);
    assert_eq!(route_update_with_progress("pwa:x"), Route::Native);
    assert_eq!(route_update_with_progress("appimage:krita"), Route::AppImage);
    assert_eq!(route_update_with_progress("org.gimp.GIMP"), Route::Flatpak);
}

#[test]
fn provider_of_ids() {
    assert_eq!(provider_from_id("pwa:x"), Provider::Pwa);
    assert_eq!(provider_from_id("lutris:x"), Provider::Lutris);
    assert_eq!(provider_from_id("appimage:x"), Provider::AppImage);
    assert_eq!(provider_from_id("org.gimp.GIMP"), Provider::Flatpak);
    assert_eq!(provider_from_id("distrobox:c:n:deb"), Provider::Distrobox);
    assert_eq!(provider_from_id("/tmp/a.b.c.rpm"), Provider::Distrobox);
}

#[test]
fn hidden_notifications() {
    assert!(kio_hidden(false, false));
    assert!(kio_hidden(true, true));
    assert!(!kio_hidden(true, false));
}

#[test]
fn progress_percentage_only() {
    let p = Progress::pct(42);
    assert_eq!(p.percent, 42);
    assert_eq!(p.bytes_done, 0);
    assert_eq!(p.bytes_total, 0);
}

#[test]
fn fetch_outcomes() {
    let (p, ok) = settle_fetch(Some(Ok(Vec::new())));
    assert!(p.is_empty() && ok);
    let (p, ok) = settle_fetch(Some(Err("down".to_string())));
    assert!(p.is_empty() && ok);
    let (p, ok) = settle_fetch(None);
    assert!(p.is_empty() && !ok);
}

#[test]
fn combined_fetch_is_complete_only_if_all_answered() {
    let (p, ok) = combine_fetches(vec![(Vec::new(), true), (Vec::new(), true)]);
    assert!(p.is_empty() && ok);
    let (_, ok) = combine_fetches(vec![(Vec::new(), true), (Vec::new(), false)]);
    assert!(!ok);
}

#[test]
fn partial_lists_expire_soon() {
    assert_eq!(cache_backdate_secs(true), 0);
    assert_eq!(cache_backdate_secs(false), 885);
    assert_eq!(PACKAGE_CACHE_TTL_SECS - cache_backdate_secs(false), RETRY_GRACE_SECS);
}

#[test]
fn freshness() {
    assert!(is_fresh(100, 100, 900));
    assert!(is_fresh(100, 999, 900));
    assert!(!is_fresh(100, 1000, 900));
    assert!(is_fresh(500, 100, 900));
}

#[test]
fn limit_changes() {
    assert_eq!(plan_limit_change(2, 0), (1, LimitChange::Retire(1)));
    assert_eq!(plan_limit_change(1, 3), (3, LimitChange::Add(2)));
    assert_eq!(plan_limit_change(3, 3), (3, LimitChange::Unchanged));
    assert_eq!(plan_limit_change(3, 1), (1, LimitChange::Retire(2)));
    assert_eq!(retire_remainder(2, 0), Some(2));
    assert_eq!(retire_remainder(2, 2), None);
}

fn named(id: &str) -> Package {
    Package {
        id: id.to_string(),
        name: id.to_string(),
        version: String::new(),
        description: String::new(),
        provider: Provider::Flatpak,
        installed: false,
        icon_url: None,
        remote: None,
        screenshots: vec![],
        developer_name: None,
        homepage_url: None,
        content_rating: None,
        is_runtime: false,
        categories: vec![],
    }
}

fn ids(v: &[Package]) -> Vec<String> {
    v.iter().map(|p| p.id.clone()).collect()
}

#[test]
fn provider_results_merge_in_fixed_order() {
    let (all, complete) = merge_provider_fetches(
        (vec![named("f")], true),
        (vec![named("n")], true),
        (vec![], true),
        (vec![named("a")], true),
        (vec![named("w")], false),
    );
    assert_eq!(ids(&all), vec!["f", "n", "a", "w"]);
    assert!(!complete);
    let installed = merge_installed(
        Ok(vec![named("n")]),
        Err("x".to_string()),
        Ok(vec![named("l")]),
        Ok(vec![]),
        Ok(vec![named("w")]),
    );
    assert_eq!(ids(&installed), vec!["n", "l", "w"]);
    let updates = merge_updates(Ok(vec![named("n")]), Ok(vec![named("f")]), Err("x".to_string()));
    assert_eq!(ids(&updates), vec!["n", "f"]);
}
