//! Tests of the deletion-record helper.

use freedesktop_rs::error::Error;
use freedesktop_rs::helpers::datetime::DateTime;
use freedesktop_rs::helpers::trash::TrashFile;
use freedesktop_rs::parser::models::CommentEntry;
use freedesktop_rs::parser::models::ContentEntry;
use freedesktop_rs::parser::models::DesktopFile;
use freedesktop_rs::parser::models::Entry;
use freedesktop_rs::parser::models::Group;
use freedesktop_rs::parser::models::TopLevelEntry;

#[test]
fn parse_proper_file() {
    let trash_file = "[Trash Info]
Path=~/Downloads/file
DeletionDate=2025-08-12T00:14:20";

    assert_eq!(
        TrashFile::from_document(DesktopFile::parse(trash_file).unwrap()).unwrap(),
        TrashFile {
            desktop_file: DesktopFile {
                content: vec![TopLevelEntry::Group(Group {
                    header: String::from("Trash Info"),
                    content: vec![
                        Entry::Content(ContentEntry {
                            key: String::from("Path"),
                            values: vec![String::from("~/Downloads/file")],
                            locale: None
                        }),
                        Entry::Content(ContentEntry {
                            key: String::from("DeletionDate"),
                            values: vec![String::from("2025-08-12T00:14:20")],
                            locale: None
                        })
                    ],
                })],
            },
            path: String::from("~/Downloads/file"),
            deletion_date: DateTime::new(2025, 8, 12, 0, 14, 20).unwrap()
        }
    )
}

#[test]
fn parse_double_entry_file() {
    let trash_file = "[Trash Info]
DeletionDate=2025-08-12T00:14:20
Path=~/Downloads/file
Path=/wrong/
DeletionDate=2025-08-14T00:00:00
";

    assert_eq!(
        TrashFile::from_document(DesktopFile::parse(trash_file).unwrap()).unwrap(),
        TrashFile {
            desktop_file: DesktopFile {
                content: vec![TopLevelEntry::Group(Group {
                    header: String::from("Trash Info"),
                    content: vec![
                        Entry::Content(ContentEntry {
                            key: String::from("DeletionDate"),
                            values: vec![String::from("2025-08-12T00:14:20")],
                            locale: None
                        }),
                        Entry::Content(ContentEntry {
                            key: String::from("Path"),
                            values: vec![String::from("~/Downloads/file")],
                            locale: None
                        }),
                        Entry::Content(ContentEntry {
                            key: String::from("Path"),
                            values: vec![String::from("/wrong/")],
                            locale: None
                        }),
                        Entry::Content(ContentEntry {
                            key: String::from("DeletionDate"),
                            values: vec![String::from("2025-08-14T00:00:00")],
                            locale: None
                        })
                    ],
                })],
            },
            path: String::from("~/Downloads/file"),
            deletion_date: DateTime::new(2025, 8, 12, 0, 14, 20).unwrap()
        }
    )
}

#[test]
fn edit_and_convert_file() {
    let mut trash_file = TrashFile {
        desktop_file: DesktopFile {
            content: vec![TopLevelEntry::Group(Group {
                header: String::from("Trash Info"),
                content: vec![
                    Entry::Content(ContentEntry {
                        key: String::from("DeletionDate"),
                        values: vec![String::from("2025-08-12T00:14:20")],
                        locale: None,
                    }),
                    Entry::Content(ContentEntry {
                        key: String::from("Path"),
                        values: vec![String::from("~/Downloads/file")],
                        locale: None,
                    }),
                    Entry::Content(ContentEntry {
                        key: String::from("Path"),
                        values: vec![String::from("/wrong/")],
                        locale: None,
                    }),
                    Entry::Content(ContentEntry {
                        key: String::from("DeletionDate"),
                        values: vec![String::from("2025-08-14T00:00:00")],
                        locale: None,
                    }),
                ],
            })],
        },
        path: String::from("~/Downloads/file"),
        deletion_date: DateTime::new(2025, 8, 12, 0, 14, 20).unwrap(),
    };

    assert_eq!(
        trash_file.clone().to_document().unwrap().render(),
        "[Trash Info]
DeletionDate=2025-08-12T00:14:20
Path=~/Downloads/file
Path=/wrong/
DeletionDate=2025-08-14T00:00:00"
    );

    trash_file.path = String::from("/new/path");

    assert_eq!(
        trash_file.clone().to_document().unwrap().render(),
        "[Trash Info]
DeletionDate=2025-08-12T00:14:20
Path=/new/path
Path=/wrong/
DeletionDate=2025-08-14T00:00:00"
    );
}

#[test]
fn preserve_comments() {
    let trash_file = "[Trash Info]


DeletionDate=2025-08-12T00:14:20
# Here is an awesome comment
Path=~/Downloads/file
Path=/wrong/


DeletionDate=2025-08-14T00:00:00";
    let trash_object = TrashFile::from_document(DesktopFile::parse(trash_file).unwrap()).unwrap();

    assert_eq!(
        trash_object,
        TrashFile {
            desktop_file: DesktopFile {
                content: vec![TopLevelEntry::Group(Group {
                    header: String::from("Trash Info"),
                    content: vec![
                        Entry::Comment(CommentEntry::Blank(String::from("\n\n"))),
                        Entry::Content(ContentEntry {
                            key: String::from("DeletionDate"),
                            values: vec![String::from("2025-08-12T00:14:20")],
                            locale: None
                        }),
                        Entry::Comment(CommentEntry::Text(String::from(
                            "Here is an awesome comment"
                        ))),
                        Entry::Content(ContentEntry {
                            key: String::from("Path"),
                            values: vec![String::from("~/Downloads/file")],
                            locale: None
                        }),
                        Entry::Content(ContentEntry {
                            key: String::from("Path"),
                            values: vec![String::from("/wrong/")],
                            locale: None
                        }),
                        Entry::Comment(CommentEntry::Blank(String::from("\n\n"))),
                        Entry::Content(ContentEntry {
                            key: String::from("DeletionDate"),
                            values: vec![String::from("2025-08-14T00:00:00")],
                            locale: None
                        })
                    ],
                })],
            },
            path: String::from("~/Downloads/file"),
            deletion_date: DateTime::new(2025, 8, 12, 0, 14, 20).unwrap()
        }
    );

    assert_eq!(trash_object.to_document().unwrap().render(), trash_file);
}

#[test]
fn missing_pieces_are_named() {
    // No `Trash Info` group at all.
    let doc = DesktopFile::parse("[Other]\nPath=x").unwrap();
    let err = TrashFile::from_document(doc).unwrap_err();
    assert!(matches!(err, Error::NotFound(k) if k == "Trash Info"));

    // A group without a `DeletionDate` entry.
    let doc = DesktopFile::parse("[Trash Info]\nPath=x").unwrap();
    let err = TrashFile::from_document(doc).unwrap_err();
    assert!(matches!(err, Error::NotFound(k) if k == "DeletionDate"));

    // A group without a `Path` entry.
    let doc = DesktopFile::parse("[Trash Info]\nDeletionDate=2025-08-12T00:14:20").unwrap();
    let err = TrashFile::from_document(doc).unwrap_err();
    assert!(matches!(err, Error::NotFound(k) if k == "Path"));

    // A date that does not parse under the fixed format.
    let doc = DesktopFile::parse("[Trash Info]\nDeletionDate=12/08/2025\nPath=x").unwrap();
    let err = TrashFile::from_document(doc).unwrap_err();
    assert!(matches!(err, Error::DateParsing(_)));
}

#[test]
fn fresh_group_is_appended() {
    let trash = TrashFile {
        desktop_file: DesktopFile::parse("# note\n[Other]\nKey=v\n").unwrap(),
        path: String::from("/a/b"),
        deletion_date: DateTime::new(2024, 2, 29, 23, 59, 59).unwrap(),
    };
    assert_eq!(
        trash.to_document().unwrap().render(),
        "# note
[Other]
Key=v
[Trash Info]
Path=/a/b
DeletionDate=2024-02-29T23:59:59"
    );
}

#[test]
fn missing_entries_are_appended_in_place() {
    // The group exists but has no `Path`; editing appends one and replaces
    // only the first `DeletionDate`.
    let trash = TrashFile {
        desktop_file: DesktopFile::parse("[Trash Info]\n# kept\nDeletionDate=2000-01-01T00:00:00")
            .unwrap(),
        path: String::from("/p"),
        deletion_date: DateTime::new(2025, 8, 12, 0, 14, 20).unwrap(),
    };
    assert_eq!(
        trash.to_document().unwrap().render(),
        "[Trash Info]
# kept
DeletionDate=2025-08-12T00:14:20
Path=/p"
    );
}
