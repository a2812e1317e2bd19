use adaptive_site::assets::{content_type_for, static_file_path};
use adaptive_site::auth::credentials_accepted;
use adaptive_site::config::AuthConfig;
use adaptive_site::translations::Translations;

#[test]
fn catalog_skips_header_and_malformed_lines() {
    let t = Translations::from_csv_text(
        "key;text;locale\r\ntitle;Willkommen;de-DE\r\nbroken line\r\ntitle;Welcome;en-EN\r\na;b;c;d\r\n",
    );
    assert_eq!(t.get("de-DE", "title"), Some("Willkommen"));
    assert_eq!(t.get("en-EN", "title"), Some("Welcome"));
    assert_eq!(t.get("en-EN", "key"), None);
    assert_eq!(t.get("locale", "key"), None);
    assert_eq!(t.get("c", "a"), None);
    assert_eq!(t.strings.len(), 2);
}

#[test]
fn catalog_later_lines_replace_earlier_ones() {
    let t = Translations::from_csv_text("h\nk;one;en-EN\nk;two;en-EN\nx;y;en-EN");
    assert_eq!(t.get("en-EN", "k"), Some("two"));
    assert_eq!(t.get("en-EN", "x"), Some("y"));
    assert_eq!(t.get_locale_with_fallback("en-EN", "de-DE").len(), 2);
}

#[test]
fn catalog_of_empty_text() {
    let t = Translations::from_csv_text("");
    assert!(t.strings.is_empty());
    let only_header = Translations::from_csv_text("key;text;locale");
    assert!(only_header.strings.is_empty());
}

#[test]
fn catalog_fallback_table() {
    let t = Translations::from_csv_text("key;text;locale\na;A;en-EN\nb;B;de-DE\n");
    assert_eq!(t.get_locale_with_fallback("de-DE", "en-EN"), vec![("b".to_string(), "B".to_string())]);
    assert_eq!(t.get_locale_with_fallback("fr-FR", "en-EN"), vec![("a".to_string(), "A".to_string())]);
    assert!(t.get_locale_with_fallback("fr-FR", "it-IT").is_empty());
}

#[test]
fn catalog_insert_overwrites() {
    let mut t = Translations::new();
    t.insert("de-DE".to_string(), "k".to_string(), "eins".to_string());
    t.insert("de-DE".to_string(), "k".to_string(), "zwei".to_string());
    t.insert("en-EN".to_string(), "k".to_string(), "one".to_string());
    assert_eq!(t.get("de-DE", "k"), Some("zwei"));
    assert_eq!(t.get("en-EN", "k"), Some("one"));
    assert_eq!(t.strings.len(), 2);
}

#[test]
fn content_types_by_extension() {
    assert_eq!(content_type_for("static/css/site.css"), "text/css");
    assert_eq!(content_type_for("static/app.min.js"), "application/javascript");
    assert_eq!(content_type_for("static/img/logo.png"), "image/png");
    assert_eq!(content_type_for("static/a.jpg"), "image/jpeg");
    assert_eq!(content_type_for("static/a.jpeg"), "image/jpeg");
    assert_eq!(content_type_for("static/a.gif"), "image/gif");
    assert_eq!(content_type_for("static/a.svg"), "image/svg+xml");
    assert_eq!(content_type_for("static/favicon.ico"), "image/x-icon");
    assert_eq!(content_type_for("static/f.woff"), "font/woff");
    assert_eq!(content_type_for("static/f.woff2"), "font/woff2");
    assert_eq!(content_type_for("static/f.ttf"), "font/ttf");
    assert_eq!(content_type_for("static/f.otf"), "font/otf");
}

#[test]
fn content_type_defaults() {
    assert_eq!(content_type_for("static/README"), "application/octet-stream");
    assert_eq!(content_type_for("static/.hidden"), "application/octet-stream");
    assert_eq!(content_type_for("static/SITE.CSS"), "application/octet-stream");
    assert_eq!(content_type_for("static/a.css/.."), "application/octet-stream");
    assert_eq!(content_type_for("static/x/y.css/"), "text/css");
    assert_eq!(content_type_for("static/x/y.css/."), "text/css");
    assert_eq!(content_type_for("static/"), "application/octet-stream");
    assert_eq!(content_type_for("static/archive.tar.gz"), "application/octet-stream");
}

#[test]
fn static_paths() {
    assert_eq!(static_file_path("css/site.css"), "static/css/site.css");
}

#[test]
fn credentials() {
    let on = AuthConfig { enabled: true, username: "admin".to_string(), password: "SECRET-REDACTED".to_string() };
    assert!(credentials_accepted(&on, "admin", Some("SECRET-REDACTED")));
    assert!(!credentials_accepted(&on, "admin", Some("wrong")));
    assert!(!credentials_accepted(&on, "other", Some("SECRET-REDACTED")));
    assert!(!credentials_accepted(&on, "admin", None));
    let off = AuthConfig { enabled: false, ..on };
    assert!(credentials_accepted(&off, "anyone", None));
}
