//! Tests of the serializer and of the round trip between parse and render.

use freedesktop_rs::parser::models::CommentEntry;
use freedesktop_rs::parser::models::ContentEntry;
use freedesktop_rs::parser::models::DesktopFile;
use freedesktop_rs::parser::models::Entry;
use freedesktop_rs::parser::models::Group;
use freedesktop_rs::parser::models::Locale;
use freedesktop_rs::parser::models::TopLevelEntry;

#[test]
fn test_single_value_entry_format() {
    let single_value_entry = Entry::Content(ContentEntry {
        key: String::from("Hello"),
        values: vec![String::from("World")],
        locale: None,
    });
    let single_value_locale_entry = Entry::Content(ContentEntry {
        key: String::from("Hello"),
        values: vec![String::from("World")],
        locale: Some(Locale {
            lang: String::from("en"),
            encoding: None,
            country: Some(String::from("US")),
            modifiers: Some(String::from("new")),
        }),
    });

    assert_eq!(&single_value_entry.render(), "Hello=World");
    assert_eq!(&single_value_locale_entry.render(), "Hello[en_US@new]=World");
}

#[test]
fn test_multi_values_entry_format() {
    let multi_values = Entry::Content(ContentEntry {
        key: String::from("Hello"),
        values: vec![
            String::from("World"),
            String::from(" Universe"),
            String::from("all others"),
        ],
        locale: None,
    });
    assert_eq!(&multi_values.render(), "Hello=World; Universe;all others");
}

#[test]
fn test_comments_format() {
    let text_comment = Entry::Comment(CommentEntry::Text(String::from("Test with spaces")));
    let blank_comment = Entry::Comment(CommentEntry::Blank(String::from("\n\t")));

    assert_eq!(&text_comment.render(), "# Test with spaces");
    assert_eq!(&blank_comment.render(), "\n\t");
}

#[test]
fn test_full_file() {
    let file = DesktopFile {
        content: vec![
            TopLevelEntry::Comment(CommentEntry::Text(String::from("First group"))),
            TopLevelEntry::Group(Group {
                header: String::from("First"),
                content: vec![
                    Entry::Content(ContentEntry {
                        key: String::from("Title"),
                        values: vec![String::from("First group")],
                        locale: None,
                    }),
                    Entry::Comment(CommentEntry::Blank(String::from("\n"))),
                    Entry::Comment(CommentEntry::Text(String::from("End of group"))),
                ],
            }),
            TopLevelEntry::Group(Group {
                header: String::from("Second"),
                content: vec![],
            }),
        ],
    };

    assert_eq!(
        &file.render(),
        "# First group
[First]
Title=First group

# End of group
[Second]
"
    )
}

#[test]
fn locale_renders_its_subtags() {
    // A locale with a language, a country and a modifier renders as
    // `lang_COUNTRY@modifier`, the country upper-cased.
    let locale = Locale {
        lang: String::from("en"),
        encoding: None,
        country: Some(String::from("US")),
        modifiers: Some(String::from("new")),
    };
    assert_eq!(&locale.render(), "en_US@new");

    let lower = Locale {
        lang: String::from("en"),
        encoding: Some(String::from("utf8")),
        country: Some(String::from("u2")),
        modifiers: None,
    };
    assert_eq!(&lower.render(), "en_U2.utf8");
}

#[test]
fn round_trip_reproduces_text() {
    // Directly-representable text: no escapes, no surrounding whitespace in
    // values, no duplicate-semicolon artifacts.
    let text = "# A comment

[First]
Name[en_US@new]=Hello;World

# trailing note
Key=
[Second]
Empty=;x";
    let doc = DesktopFile::parse(text).unwrap();
    assert_eq!(doc.render(), text);
}
