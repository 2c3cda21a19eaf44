//! Tests of the low-level parsing functions and of whole-document parsing.

use freedesktop_rs::parser::models::CommentEntry;
use freedesktop_rs::parser::models::ContentEntry;
use freedesktop_rs::parser::models::DesktopFile;
use freedesktop_rs::parser::models::Entry;
use freedesktop_rs::parser::models::Group;
use freedesktop_rs::parser::models::Locale;
use freedesktop_rs::parser::models::TopLevelEntry;
use freedesktop_rs::parser::parse_entry;
use freedesktop_rs::parser::parse_group;
use freedesktop_rs::parser::parse_value_list;
use freedesktop_rs::parser::ParseError;

#[test]
fn test_parse_entry() {
    let simple_entry = "Hello=World\n";
    let locale_entry = "Hello[locale]=World";
    let no_value = "Hello=";
    let comment = "# Comment\n";
    let empty = "\n";

    assert_eq!(
        parse_entry(simple_entry, 0),
        Ok((
            Entry::Content(ContentEntry {
                key: "Hello".to_owned(),
                values: vec!["World".to_owned()],
                locale: None
            }),
            simple_entry.len()
        ))
    );

    assert_eq!(
        parse_entry(locale_entry, 0),
        Ok((
            Entry::Content(ContentEntry {
                key: "Hello".to_owned(),
                values: vec!["World".to_owned()],
                locale: Some(Locale {
                    lang: "locale".to_owned(),
                    encoding: None,
                    country: None,
                    modifiers: None
                })
            }),
            locale_entry.len()
        ))
    );

    assert_eq!(
        parse_entry(comment, 0),
        Ok((
            Entry::Comment(CommentEntry::Text("Comment".to_owned())),
            comment.len()
        ))
    );

    assert_eq!(
        parse_entry(empty, 0),
        Ok((Entry::Comment(CommentEntry::Blank("\n".to_owned())), 1))
    );

    assert_eq!(
        parse_entry(no_value, 0),
        Ok((
            Entry::Content(ContentEntry {
                key: "Hello".to_owned(),
                values: vec![],
                locale: None
            }),
            no_value.len()
        ))
    )
}

#[test]
fn test_group_parsing() {
    let group = "[Desktop]
Type=Application
Exec=sh-test
Id=4
Hidden=false
";

    assert_eq!(
        parse_group(group, 0),
        Some((
            Group {
                header: "Desktop".to_owned(),
                content: vec![
                    Entry::Content(ContentEntry {
                        key: "Type".to_owned(),
                        values: vec!["Application".to_owned()],
                        locale: None
                    }),
                    Entry::Content(ContentEntry {
                        key: "Exec".to_owned(),
                        values: vec!["sh-test".to_owned()],
                        locale: None
                    }),
                    Entry::Content(ContentEntry {
                        key: "Id".to_owned(),
                        values: vec!["4".to_owned()],
                        locale: None
                    }),
                    Entry::Content(ContentEntry {
                        key: "Hidden".to_owned(),
                        values: vec!["false".to_owned()],
                        locale: None
                    }),
                ],
            },
            group.len()
        ))
    );
}

#[test]
fn test_bad_parsing() {
    let space_in_key = "Hello World=Yay";
    let bad_entry = "Hell[test]o=World";

    let err = parse_entry(space_in_key, 0);
    assert_eq!(err, Err(6));
    assert_eq!(&space_in_key[6..], "World=Yay");

    let err = parse_entry(bad_entry, 0);
    assert_eq!(err, Err(10));
    assert_eq!(&bad_entry[10..], "o=World");
}

#[test]
fn test_multi_values_parsing() {
    let values_without_final_semi = "World;Universe;all others";
    let values = format!("{};", values_without_final_semi);

    assert_eq!(
        parse_value_list(&values, 0),
        Ok((
            vec![
                "World".to_owned(),
                "Universe".to_owned(),
                "all others".to_owned()
            ],
            values.len()
        ))
    );
    assert_eq!(
        parse_value_list(&values, 0).unwrap().0,
        parse_value_list(values_without_final_semi, 0).unwrap().0
    )
}

#[test]
fn test_full_parsing() {
    let single = "# Outside comment
[Desktop]
Type=Application
Exec=sh test
Id=4
Hidden=false
";
    assert_eq!(
        DesktopFile::parse(single),
        Ok(DesktopFile {
            content: vec![
                TopLevelEntry::Comment(CommentEntry::Text("Outside comment".to_owned())),
                TopLevelEntry::Group(Group {
                    header: "Desktop".to_owned(),
                    content: vec![
                        Entry::Content(ContentEntry {
                            key: "Type".to_owned(),
                            values: vec!["Application".to_owned()],
                            locale: None
                        }),
                        Entry::Content(ContentEntry {
                            key: "Exec".to_owned(),
                            values: vec!["sh test".to_owned()],
                            locale: None
                        }),
                        Entry::Content(ContentEntry {
                            key: "Id".to_owned(),
                            values: vec!["4".to_owned()],
                            locale: None
                        }),
                        Entry::Content(ContentEntry {
                            key: "Hidden".to_owned(),
                            values: vec!["false".to_owned()],
                            locale: None
                        })
                    ]
                })
            ],
        })
    );
}

#[test]
fn whole_parse_fails_on_leftover_text() {
    // A content line at the top level is not a top-level item: the whole
    // parse fails, at the offending position.
    assert_eq!(DesktopFile::parse("Hello World=Yay"), Err(ParseError { pos: 0 }));
    // A malformed escape inside a group fails the whole parse too.
    let bad_escape = "[G]\nA=a\\xb\n";
    assert!(DesktopFile::parse(bad_escape).is_err());
}

#[test]
fn escapes_decode_and_values_trim() {
    let text = "[G]\nKey= World\\sand\\ttabs\\; \n";
    let doc = DesktopFile::parse(text).unwrap();
    assert_eq!(
        doc,
        DesktopFile {
            content: vec![TopLevelEntry::Group(Group {
                header: "G".to_owned(),
                content: vec![Entry::Content(ContentEntry {
                    key: "Key".to_owned(),
                    values: vec!["World and\ttabs;".to_owned()],
                    locale: None
                })],
            })],
        }
    );
}

#[test]
fn locale_subtags_split() {
    let doc = DesktopFile::parse("[G]\nName[sr_YU.utf8@Latn]=x\n").unwrap();
    assert_eq!(
        doc.content[0],
        TopLevelEntry::Group(Group {
            header: "G".to_owned(),
            content: vec![Entry::Content(ContentEntry {
                key: "Name".to_owned(),
                values: vec!["x".to_owned()],
                locale: Some(Locale {
                    lang: "sr".to_owned(),
                    encoding: Some("utf8".to_owned()),
                    country: Some("YU".to_owned()),
                    modifiers: Some("Latn".to_owned())
                })
            })],
        })
    );
}

#[test]
fn bytes_parse_like_text() {
    let text = "[Desktop]\nType=Application";
    assert_eq!(
        DesktopFile::parse_bytes(text.as_bytes()),
        DesktopFile::parse(text)
    );
    // Bytes that are not UTF-8 are rejected outright.
    assert_eq!(
        DesktopFile::parse_bytes(&[0x5b, 0x47, 0x5d, 0x0a, 0xff, 0xfe]),
        Err(ParseError { pos: 0 })
    );
}
