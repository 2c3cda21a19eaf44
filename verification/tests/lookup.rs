//! Tests of lookup, locale matching, partitioning, the sanitizer and the
//! timestamp type.

use freedesktop_rs::error::Error;
use freedesktop_rs::helpers::datetime::DateTime;
use freedesktop_rs::helpers::AsciiString;
use freedesktop_rs::parser::lookup::LocaleOptions;
use freedesktop_rs::parser::models::ContentEntry;
use freedesktop_rs::parser::models::DesktopFile;
use freedesktop_rs::parser::models::Locale;

fn sample() -> DesktopFile {
    DesktopFile::parse(
        "# heading
[Main]
Name=plain
Name[en_US]=english
Name[fr]=french
# note
Name=again
[Main]
Name=shadowed
",
    )
    .unwrap()
}

fn locale(lang: &str, country: Option<&str>) -> Locale {
    Locale {
        lang: lang.to_owned(),
        encoding: None,
        country: country.map(|c| c.to_owned()),
        modifiers: None,
    }
}

#[test]
fn find_returns_first_match() {
    let doc = sample();
    // Duplicate groups: the first one wins, both stay present.
    let group = doc.find("Main").unwrap();
    assert_eq!(group.content.len(), 5);
    assert!(doc.find("Absent").is_none());
    assert!(matches!(doc.get("Absent"), Err(Error::NotFound(k)) if k == "Absent"));

    // Duplicate keys: the first entry wins.
    let entry = group.find("Name").unwrap();
    assert_eq!(entry.values, vec!["plain".to_owned()]);
    assert_eq!(group.find_index("Name"), Some(0));
    assert!(group.find("Absent").is_none());
    assert!(matches!(group.get("Absent"), Err(Error::NotFound(k)) if k == "Absent"));
}

#[test]
fn locale_matching_follows_significance() {
    let doc = sample();
    let group = doc.find("Main").unwrap();

    // With nothing but the language significant, the locale-less first entry
    // matches already.
    let fr = locale("fr", None);
    let options = LocaleOptions::new(&fr);
    let entry = group.find_with_locale("Name", &options).unwrap();
    assert_eq!(entry.values, vec!["plain".to_owned()]);

    // An entry with a locale matches when language and every significant
    // field agree.
    let en_us = locale("en", Some("US"));
    let options = LocaleOptions::all(&en_us);
    assert_eq!(group.find_with_locale_index("Name", &options), Some(0));

    let entry = group.find_with_locale("Name[en_US]", &options);
    assert!(entry.is_none());

    // equals_options itself.
    let en_gb = locale("en", Some("GB"));
    let stored = locale("en", Some("US"));
    assert!(stored.equals_options(&LocaleOptions::new(&en_gb)));
    assert!(!stored.equals_options(&LocaleOptions::new(&en_gb).significant_country()));
    assert!(stored.equals_options(&LocaleOptions::all(&en_us)));
    assert!(stored.equals_options(&LocaleOptions::all(&en_gb).language_only()));
    assert!(!stored.equals_options(&LocaleOptions::new(&en_gb).all_significant()));
    assert!(stored.equals_options(&LocaleOptions::new(&en_gb).with_locale(&en_us)
        .significant_country().significant_encoding().significant_modifiers()));
}

#[test]
fn partitions_preserve_order() {
    let doc = sample();
    let groups = doc.without_comments();
    assert_eq!(groups.len(), 2);
    assert_eq!(groups[0].header, "Main");
    let top_comments = doc.only_comments();
    assert_eq!(top_comments.len(), 1);

    let group = doc.find("Main").unwrap();
    let entries: Vec<&ContentEntry> = group.without_comments();
    assert_eq!(entries.len(), 4);
    assert_eq!(entries[0].values, vec!["plain".to_owned()]);
    assert_eq!(entries[3].values, vec!["again".to_owned()]);
    assert_eq!(group.only_comments().len(), 1);
}

#[test]
fn ascii_sanitizer_accepts_and_rejects() {
    let ok = AsciiString::try_new("plain ASCII text!").unwrap();
    assert_eq!(ok.as_str(), "plain ASCII text!");

    let err = AsciiString::try_new("caf\u{e9}").unwrap_err();
    assert!(matches!(err, Error::NotAscii(c) if c == '\u{e9}'));

    let err = AsciiString::try_new("tab\tis control").unwrap_err();
    assert!(matches!(err, Error::NotAscii(c) if c == '\t'));
}

#[test]
fn timestamps_parse_and_format() {
    let dt = DateTime::parse("2025-08-12T00:14:20").unwrap();
    assert_eq!(dt.year(), 2025);
    assert_eq!(dt.month(), 8);
    assert_eq!(dt.day(), 12);
    assert_eq!(dt.hour(), 0);
    assert_eq!(dt.minute(), 14);
    assert_eq!(dt.second(), 20);
    assert_eq!(dt, DateTime::new(2025, 8, 12, 0, 14, 20).unwrap());
    assert_eq!(dt.format().unwrap(), "2025-08-12T00:14:20");

    // The day must fit the month and the leap-year rule.
    assert!(DateTime::new(2025, 2, 29, 0, 0, 0).is_none());
    assert!(DateTime::new(2024, 2, 29, 0, 0, 0).is_some());
    assert!(DateTime::parse("2025-02-29T00:00:00").is_err());
    assert!(DateTime::parse("2024-02-29T00:00:00").is_ok());
    assert!(DateTime::parse("2025-8-12T00:14:20").is_err());
    assert!(DateTime::parse("2025-08-12T00:14:20 ").is_err());
}
