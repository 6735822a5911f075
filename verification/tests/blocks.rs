use arc_core::blocks::{app_block_ids, attr_from_tag, fill_app_blocks, html_to_blocks, parse_heading, split_bold, AppCard};

#[test]
fn paragraphs_and_lists() {
    let b = html_to_blocks("<p>Hello &amp; welcome</p><ul><li>One</li><li>Two</li></ul>");
    assert_eq!(b.len(), 3);
    assert_eq!(b[0].text, "Hello & welcome");
    assert!(!b[0].is_list_item);
    assert_eq!(b[1].text, "One");
    assert!(b[1].is_list_item);
    assert_eq!(b[2].text, "Two");
}

#[test]
fn headings() {
    let b = html_to_blocks("<h2>Title</h2><p>=== Section ===</p>");
    assert_eq!(b.len(), 2);
    assert!(b[0].is_heading);
    assert_eq!(b[0].text, "Title");
    assert!(b[1].is_heading);
    assert_eq!(b[1].text, "Section");
    assert_eq!(parse_heading("===x==="), Some("x".to_string()));
    assert_eq!(parse_heading("======"), None);
}

#[test]
fn bold_runs() {
    let b = split_bold("a **b** c".to_string(), false, false);
    assert_eq!(b.len(), 3);
    assert_eq!(b[0].text, "a ");
    assert!(!b[0].is_bold);
    assert_eq!(b[1].text, "b");
    assert!(b[1].is_bold);
    assert_eq!(b[2].text, " c");
}

#[test]
fn app_and_image_blocks() {
    let b = html_to_blocks("<p>See</p><app id=\"org.gimp.GIMP\"></app><img src=\"https://x/y.png\">");
    assert_eq!(b[0].text, "See");
    assert!(b[1].is_app);
    assert_eq!(b[1].app_id, "org.gimp.GIMP");
    assert!(b[2].is_image);
    assert_eq!(b[2].image_url, "https://x/y.png");
    assert_eq!(attr_from_tag("img SRC=\"u\"", "src"), "u");
    assert_eq!(attr_from_tag("img", "src"), "");
}

#[test]
fn app_blocks_are_listed_and_filled_from_cards() {
    let mut b = html_to_blocks(
        "<app id=\"org.gimp.GIMP\"></app><p>Text</p><app id=\"org.inkscape.Inkscape\"></app><app id=\"\"></app>",
    );
    assert_eq!(app_block_ids(&b), vec!["org.gimp.GIMP".to_string(), "org.inkscape.Inkscape".to_string()]);
    let cards = vec![AppCard {
        id: "org.gimp.GIMP".to_string(),
        name: "GIMP".to_string(),
        summary: "Image editor".to_string(),
        icon_url: "https://x/gimp.png".to_string(),
    }];
    fill_app_blocks(&mut b, &cards);
    assert_eq!(b[0].app_name, "GIMP");
    assert_eq!(b[0].app_summary, "Image editor");
    assert_eq!(b[0].app_icon_url, "https://x/gimp.png");
    assert_eq!(b[1].text, "Text");
    assert_eq!(b[1].app_name, "");
    assert_eq!(b[2].app_name, "");
}
