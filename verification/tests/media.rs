use arc_core::media::{
    cache_name, cache_ttl_secs, decimal_exec, forge_icon_proxy_url, icon_proxy_url,
    image_proxy_url, is_svg, media_key, raw_key, resize_plan, MediaKind,
};

#[test]
fn caches_and_lifetimes() {
    assert_eq!(cache_name(MediaKind::Icon), "media-icons");
    assert_eq!(cache_name(MediaKind::Screenshot), "media");
    assert_eq!(cache_ttl_secs(MediaKind::Icon), 6 * 3600);
    assert_eq!(cache_ttl_secs(MediaKind::Screenshot), 7 * 24 * 3600);
}

#[test]
fn svg_detection() {
    assert!(is_svg("image/svg+xml", "https://x/a"));
    assert!(is_svg("application/octet-stream", "https://x/a.svg"));
    assert!(is_svg("", "https://x/a.svgz"));
    assert!(!is_svg("image/png", "https://x/a.png"));
}

#[test]
fn cache_keys() {
    assert_eq!(raw_key("https://x/a.png"), "raw:https://x/a.png");
    assert_eq!(media_key(MediaKind::Icon, "u", Some(64)), "icon:u");
    assert_eq!(media_key(MediaKind::Screenshot, "u", Some(1280)), "shot:u#w=1280");
    assert_eq!(media_key(MediaKind::Screenshot, "u", None), "shot:u");
    assert_eq!(media_key(MediaKind::Screenshot, "u", Some(0)), "shot:u#w=0");
}

#[test]
fn decimal_digits() {
    let s: String = decimal_exec(4294967295).into_iter().collect();
    assert_eq!(s, "4294967295");
    let z: String = decimal_exec(7).into_iter().collect();
    assert_eq!(z, "7");
}

#[test]
fn proxy_urls() {
    assert_eq!(icon_proxy_url("http://127.0.0.1:1312", "org.a.B"), "http://127.0.0.1:1312/api/v1/apps/org.a.B/icon");
    assert_eq!(forge_icon_proxy_url("http://h", "org.a.B"), "http://h/forge/icon/org.a.B");
    assert_eq!(
        image_proxy_url("http://h", "https://x.org/a b.png"),
        "http://h/api/v1/image?url=https%3A%2F%2Fx%2Eorg%2Fa%20b%2Epng"
    );
    assert_eq!(image_proxy_url("http://h", "é"), "http://h/api/v1/image?url=%C3%A9");
}

#[test]
fn screenshot_scaling() {
    assert_eq!(resize_plan(800, 600, 1024), None);
    assert_eq!(resize_plan(1024, 600, 1024), None);
    assert_eq!(resize_plan(2000, 1000, 1000), Some((1000, 500)));
    assert_eq!(resize_plan(4000, 1, 100), Some((100, 1)));
}
