use arc_core::web_api::{entry_score, icon_answer, image_answer, pwas_url, rank_by_score, web_url, ImageAnswer};

#[test]
fn only_http_urls_are_web_urls() {
    assert!(web_url("https://example.org/a.png"));
    assert!(web_url("http://example.org/a.png"));
    assert!(!web_url("file:///usr/share/icons/a.png"));
    assert!(!web_url("/usr/share/icons/a.png"));
    assert!(!web_url("HTTPS://example.org"));
}

#[test]
fn icon_answer_forwards_remote_icons_only() {
    assert_eq!(
        icon_answer(Some("https://dl.flathub.org/media/a.png".to_string())),
        ImageAnswer::Forward("https://dl.flathub.org/media/a.png".to_string())
    );
    assert_eq!(icon_answer(Some("/var/lib/flatpak/icons/a.png".to_string())), ImageAnswer::NotFound);
    assert_eq!(icon_answer(None), ImageAnswer::NotFound);
}

#[test]
fn image_answer_rejects_non_http_urls() {
    assert_eq!(
        image_answer("http://example.org/shot.jpg".to_string()),
        ImageAnswer::Forward("http://example.org/shot.jpg".to_string())
    );
    assert_eq!(image_answer("ftp://example.org/shot.jpg".to_string()), ImageAnswer::BadRequest);
}

#[test]
fn entry_score_weights_fields() {
    assert_eq!(entry_score(100, 0, 0), Some(100));
    assert_eq!(entry_score(0, 100, 0), Some(90));
    assert_eq!(entry_score(0, 0, 100), Some(80));
    assert_eq!(entry_score(50, 100, 0), Some(90));
    assert_eq!(entry_score(0, 5, 15), None);
    assert_eq!(entry_score(0, 0, 0), None);
    assert_eq!(entry_score(0, 11, 0), Some(1));
}

#[test]
fn search_hits_ranked_best_first_keeping_ties() {
    assert_eq!(rank_by_score(&vec![10, 30, 20, 30]), vec![1, 3, 2, 0]);
    assert_eq!(rank_by_score(&vec![]), Vec::<usize>::new());
    assert_eq!(rank_by_score(&vec![7, 7]), vec![0, 1]);
}

#[test]
fn pwas_url_carries_language() {
    assert_eq!(pwas_url("de"), "https://forge.blossomos.org/api/pwas?lang=de");
    assert_eq!(pwas_url(""), "https://forge.blossomos.org/api/pwas?lang=");
}
