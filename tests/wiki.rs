use wikibot::normalize::{capitalize, join_with, normalize, split_words};
use wikibot::page::{extract, metadata_from, NO_DESCRIPTION};
use wikibot::reply::{embed_for, reply_text, start, wiki_url, Step, BASE_URL, NO_INPUT};

#[test]
fn normalize_absent_is_none() {
    assert_eq!(normalize(None), None);
}

#[test]
fn normalize_two_words() {
    assert_eq!(normalize(Some("remove fire")), Some("Remove_Fire".to_string()));
}

#[test]
fn normalize_drops_extra_whitespace() {
    assert_eq!(normalize(Some("  multi   space ")), Some("Multi_Space".to_string()));
}

#[test]
fn normalize_keeps_rest_of_word_case() {
    assert_eq!(normalize(Some("FIRE rate")), Some("FIRE_Rate".to_string()));
}

#[test]
fn normalize_empty_and_blank() {
    assert_eq!(normalize(Some("")), Some(String::new()));
    assert_eq!(normalize(Some(" \t\n ")), Some(String::new()));
}

#[test]
fn normalize_unicode_whitespace_and_case() {
    assert_eq!(normalize(Some("élan\u{a0}vital")), Some("Élan_Vital".to_string()));
    assert_eq!(normalize(Some("ßeta\tray")), Some("SSeta_Ray".to_string()));
}

#[test]
fn normalize_underscore_count() {
    let out = normalize(Some(" a  bb\tccc d ")).unwrap();
    assert_eq!(out, "A_Bb_Ccc_D");
    assert_eq!(out.matches('_').count(), 3);
    assert!(!out.starts_with('_') && !out.ends_with('_'));
}

#[test]
fn split_words_runs() {
    assert_eq!(split_words("  energy \n vampire  "), vec!["energy".to_string(), "vampire".to_string()]);
    assert!(split_words("   ").is_empty());
}

#[test]
fn capitalize_first_only() {
    assert_eq!(capitalize("remove"), "Remove");
    assert_eq!(capitalize("1st"), "1st");
    assert_eq!(capitalize(""), "");
}

#[test]
fn join_with_separator() {
    let parts = vec!["A".to_string(), "B".to_string(), "C".to_string()];
    assert_eq!(join_with(&parts, '_'), "A_B_C");
    assert_eq!(join_with(&Vec::new(), '_'), "");
}

#[test]
fn extract_without_description() {
    let html = "<html><head><title>x</title></head><body>hi</body></html>";
    let m = extract(html).unwrap();
    assert_eq!(m.description, "No description found");
    assert_eq!(m.description, NO_DESCRIPTION);
    assert_eq!(m.image_url, None);
}

#[test]
fn extract_image() {
    let html = "<html><head><meta property=\"og:image\" content=\"https://x/img.png\"></head></html>";
    let m = extract(html).unwrap();
    assert_eq!(m.image_url, Some("https://x/img.png".to_string()));
    assert_eq!(m.description, "No description found");
}

#[test]
fn extract_both_first_match_wins() {
    let html = "<html><head>\
        <meta property=\"og:description\" content=\"An ability.\">\
        <meta property=\"og:description\" content=\"second\">\
        <meta property=\"og:image\" content=\"https://x/a.png\">\
        </head></html>";
    let m = extract(html).unwrap();
    assert_eq!(m.description, "An ability.");
    assert_eq!(m.image_url, Some("https://x/a.png".to_string()));
}

#[test]
fn extract_malformed_degrades() {
    let m = extract("<meta property=\"og:description\"<<>>").unwrap();
    assert_eq!(m.image_url, None);
    let m = extract("<meta property=\"og:description\">").unwrap();
    assert_eq!(m.description, "No description found");
}

#[test]
fn metadata_defaults() {
    let m = metadata_from(None, None);
    assert_eq!(m.description, "No description found");
    assert_eq!(m.image_url, None);
    let m = metadata_from(Some("d".to_string()), Some("u".to_string()));
    assert_eq!(m.description, "d");
    assert_eq!(m.image_url, Some("u".to_string()));
}

#[test]
fn reply_without_query() {
    assert_eq!(reply_text(None), "No input provided.");
    assert_eq!(NO_INPUT, "No input provided.");
}

#[test]
fn reply_with_query() {
    assert_eq!(reply_text(Some("energy vampire")), "https://wiki.warframe.com/w/Energy_Vampire");
    assert_eq!(wiki_url("https://wiki.warframe.com/w/", "energy vampire"), "https://wiki.warframe.com/w/Energy_Vampire");
    assert_eq!(BASE_URL, "https://wiki.warframe.com/w/");
}

#[test]
fn start_steps() {
    match start(None, BASE_URL) {
        Step::Reply(t) => assert_eq!(t, "No input provided."),
        Step::Fetch(_) => panic!("fetch without a query"),
    }
    match start(Some("remove fire"), BASE_URL) {
        Step::Fetch(u) => assert_eq!(u, "https://wiki.warframe.com/w/Remove_Fire"),
        Step::Reply(_) => panic!("reply with a query"),
    }
}

#[test]
fn embed_fields() {
    let meta = metadata_from(Some("Drains energy.".to_string()), None);
    let e = embed_for("energy  vampire", BASE_URL, &meta);
    assert_eq!(e.title, "Energy Vampire");
    assert_eq!(e.url, "https://wiki.warframe.com/w/Energy_Vampire");
    assert_eq!(e.description, "Drains energy.");
    assert_eq!(e.thumbnail, "");
    let meta = metadata_from(None, Some("https://x/img.png".to_string()));
    let e = embed_for("x", BASE_URL, &meta);
    assert_eq!(e.thumbnail, "https://x/img.png");
    assert_eq!(e.description, "No description found");
}
