//! The deletion-record helper: maps the well-known `Trash Info` group onto
//! and from the generic document model.  Converting to a document reuses an
//! existing `Trash Info` group when present, editing only the first `Path`
//! and first `DeletionDate` entries in place; converting from a document
//! requires both entries to be present.

use vstd::prelude::*;

use crate::error::Error;
use crate::helpers::datetime::DateTime;
use crate::helpers::datetime::date_string_of;
use crate::helpers::datetime::valid_date;
use crate::parser::lookup::content_key_pred;
use crate::parser::lookup::entry_with_values;
use crate::parser::lookup::group_header_pred;
use crate::parser::lookup::lemma_first_idx;
use crate::parser::lookup::spec_first_idx;
use crate::parser::models::ContentEntry;
use crate::parser::models::DesktopFile;
use crate::parser::models::Entry;
use crate::parser::models::Group;
use crate::parser::models::SpecContentEntry;
use crate::parser::models::SpecDesktopFile;
use crate::parser::models::SpecEntry;
use crate::parser::models::SpecGroup;
use crate::parser::models::SpecTopLevelEntry;
use crate::parser::models::TopLevelEntry;

verus! {

/// The header of the well-known deletion-record group.
pub open spec fn spec_group_name() -> Seq<char> {
    "Trash Info"@
}

/// A fresh locale-less entry with one value.
pub open spec fn spec_new_entry(key: Seq<char>, v: Seq<char>) -> SpecEntry {
    SpecEntry::Content(SpecContentEntry { key, values: seq![v], locale: None })
}

/// The group carried by a top-level item known to be a group.
pub open spec fn group_of(t: SpecTopLevelEntry) -> SpecGroup {
    match t {
        SpecTopLevelEntry::Group(g) => g,
        SpecTopLevelEntry::Comment(_) => SpecGroup {
            header: Seq::empty(),
            content: Seq::empty(),
        },
    }
}

/// The content entry carried by an in-group entry known to hold one.
pub open spec fn content_of(e: SpecEntry) -> SpecContentEntry {
    match e {
        SpecEntry::Content(c) => c,
        SpecEntry::Comment(_) => SpecContentEntry {
            key: Seq::empty(),
            values: Seq::empty(),
            locale: None,
        },
    }
}

/// Replaces the values of the first `key` entry with the single value `v`,
/// keeping everything else in place; when no `key` entry exists, a fresh one
/// is appended at the end.
pub open spec fn spec_upsert(content: Seq<SpecEntry>, key: Seq<char>, v: Seq<char>) -> Seq<
    SpecEntry,
> {
    match spec_first_idx(content, content_key_pred(key)) {
        Some(i) => content.update(i, SpecEntry::Content(entry_with_values(content[i], seq![v]))),
        None => content.push(spec_new_entry(key, v)),
    }
}

/// A `Trash Info` group after setting the path and the deletion date: the
/// first `Path` entry's values become the path, the first `DeletionDate`
/// entry's values become the date text, and missing entries are appended.
pub open spec fn spec_edit_group(g: SpecGroup, path: Seq<char>, raw: Seq<char>) -> SpecGroup {
    SpecGroup {
        header: g.header,
        content: spec_upsert(spec_upsert(g.content, "Path"@, path), "DeletionDate"@, raw),
    }
}

/// A document after writing a deletion record into it: the first
/// `Trash Info` group is edited in place when present, preserving all other
/// content and comments; otherwise a new group is appended at the end.
pub open spec fn spec_to_document(d: SpecDesktopFile, path: Seq<char>, raw: Seq<char>) -> SpecDesktopFile {
    match spec_first_idx(d.content, group_header_pred(spec_group_name())) {
        Some(i) => SpecDesktopFile {
            content: d.content.update(
                i,
                SpecTopLevelEntry::Group(spec_edit_group(group_of(d.content[i]), path, raw)),
            ),
        },
        None => SpecDesktopFile {
            content: d.content.push(
                SpecTopLevelEntry::Group(
                    SpecGroup {
                        header: spec_group_name(),
                        content: seq![
                            spec_new_entry("Path"@, path),
                            spec_new_entry("DeletionDate"@, raw),
                        ],
                    },
                ),
            ),
        },
    }
}

/// The first `Trash Info` group of a document, if any.
pub open spec fn spec_find_group(d: SpecDesktopFile) -> Option<SpecGroup> {
    match spec_first_idx(d.content, group_header_pred(spec_group_name())) {
        Some(i) => Some(group_of(d.content[i])),
        None => None,
    }
}

/// The first `key` content entry of a group, if any.
pub open spec fn spec_find_entry(g: SpecGroup, key: Seq<char>) -> Option<SpecContentEntry> {
    match spec_first_idx(g.content, content_key_pred(key)) {
        Some(i) => Some(content_of(g.content[i])),
        None => None,
    }
}

/// The first value of an entry; a valueless entry counts as empty text.
pub open spec fn spec_first_value(e: SpecContentEntry) -> Seq<char> {
    if e.values.len() > 0 {
        e.values[0]
    } else {
        Seq::empty()
    }
}

/// Representation of a freedesktop trash file: the underlying document,
/// together with the path and deletion date of its deletion record.
#[derive(Debug, PartialEq, Eq, Clone)]
pub struct TrashFile {
    /// The underlying document.
    pub desktop_file: DesktopFile,
    /// Path of the trashed file.
    pub path: String,
    /// Deletion date of the trashed file.
    pub deletion_date: DateTime,
}

/// Replaces the values of the first `key` entry of `g` with the single value
/// `value`; appends a fresh entry when none exists.
fn upsert_entry(g: &mut Group, key: &str, value: String)
    ensures
        final(g)@.header == old(g)@.header,
        final(g)@.content == spec_upsert(old(g)@.content, key@, value@),
{
    let ghost old_content = g@.content;
    let ghost vv = value@;
    match g.find_index(key) {
        Some(i) => {
            proof {
                lemma_first_idx(old_content, content_key_pred(key@));
            }
            let mut values: Vec<String> = Vec::new();
            values.push(value);
            proof {
                assert(values.deep_view() =~= seq![vv]);
            }
            g.set_values(i, values);
            proof {
                assert(g@.content =~~= spec_upsert(old_content, key@, vv));
            }
        },
        None => {
            let mut values: Vec<String> = Vec::new();
            values.push(value);
            proof {
                assert(values.deep_view() =~= seq![vv]);
            }
            let entry = ContentEntry { key: key.to_owned(), values, locale: None };
            proof {
                assert(entry.deep_view() =~~= content_of(spec_new_entry(key@, vv)));
            }
            g.content.push(Entry::Content(entry));
            proof {
                assert(g@.content =~~= spec_upsert(old_content, key@, vv));
            }
        },
    }
}

impl TrashFile {
    /// Writes this deletion record into its document; this always succeeds.
    /// When a `Trash Info` group exists, only the values of its first `Path`
    /// and first `DeletionDate` entries change (missing ones are appended),
    /// and every other entry, comment and group stays in place; otherwise a
    /// fresh group is appended at the end of the document.
    pub fn to_document(self) -> (r: Result<DesktopFile, Error>)
        ensures
            r matches Ok(d) && d@ == spec_to_document(
                self.desktop_file@,
                self.path@,
                self.deletion_date.spec_text(),
            ),
    {
        let raw_date = match self.deletion_date.format() {
            Ok(t) => t,
            Err(e) => {
                return Err(e);
            },
        };
        let mut desktop_file = self.desktop_file;
        let ghost old_doc = desktop_file@;
        let ghost pathv = self.path@;
        let ghost rawv = raw_date@;
        match desktop_file.find_index("Trash Info") {
            Some(gi) => {
                proof {
                    lemma_first_idx(old_doc.content, group_header_pred("Trash Info"@));
                }
                let item = desktop_file.content.remove(gi);
                proof {
                    assert(item.deep_view() == old_doc.content[gi as int]);
                }
                match item {
                    TopLevelEntry::Group(mut g) => {
                        let ghost g0 = g@;
                        proof {
                            assert(g0 == group_of(old_doc.content[gi as int]));
                        }
                        upsert_entry(&mut g, "Path", self.path);
                        upsert_entry(&mut g, "DeletionDate", raw_date);
                        proof {
                            assert(g@ == spec_edit_group(g0, pathv, rawv));
                        }
                        desktop_file.content.insert(gi, TopLevelEntry::Group(g));
                        proof {
                            let target = spec_to_document(old_doc, pathv, rawv).content;
                            assert(desktop_file@.content.len() == target.len());
                            assert forall|k: int|
                                0 <= k < target.len() implies desktop_file@.content[k] == target[k] by {
                                if k < gi as int {
                                } else if k == gi as int {
                                } else {
                                }
                            }
                            assert(desktop_file@.content =~= target);
                        }
                    },
                    TopLevelEntry::Comment(c) => {
                        // Unreachable: the item at `gi` is a group.
                        proof {
                            assert(false);
                        }
                        desktop_file.content.insert(gi, TopLevelEntry::Comment(c));
                    },
                }
            },
            None => {
                let mut path_values: Vec<String> = Vec::new();
                path_values.push(self.path);
                proof {
                    assert(path_values.deep_view() =~= seq![pathv]);
                }
                let new_path = Entry::Content(
                    ContentEntry { key: "Path".to_owned(), values: path_values, locale: None },
                );
                let mut date_values: Vec<String> = Vec::new();
                date_values.push(raw_date);
                proof {
                    assert(date_values.deep_view() =~= seq![rawv]);
                }
                let new_date = Entry::Content(
                    ContentEntry {
                        key: "DeletionDate".to_owned(),
                        values: date_values,
                        locale: None,
                    },
                );
                let mut group_content: Vec<Entry> = Vec::new();
                group_content.push(new_path);
                group_content.push(new_date);
                proof {
                    assert(group_content.deep_view() =~~= seq![
                        spec_new_entry("Path"@, pathv),
                        spec_new_entry("DeletionDate"@, rawv),
                    ]);
                }
                let group = Group { header: "Trash Info".to_owned(), content: group_content };
                desktop_file.content.push(TopLevelEntry::Group(group));
                proof {
                    assert(desktop_file@.content =~~= spec_to_document(old_doc, pathv, rawv).content);
                }
            },
        }
        Ok(desktop_file)
    }

    /// Reads the deletion record out of a document.  The first `Trash Info`
    /// group must hold a `DeletionDate` and a `Path` entry, else this fails
    /// with a not-found error naming the missing key; the date text must
    /// parse under the fixed `YYYY-MM-DDThh:mm:ss` format, else this fails
    /// with a date-parse error.  The canonical text of any valid timestamp
    /// is accepted.
    pub fn from_document(desktop: DesktopFile) -> (r: Result<TrashFile, Error>)
        ensures
            match r {
                Ok(tf) => (spec_find_group(desktop@) matches Some(g) && (spec_find_entry(
                    g,
                    "DeletionDate"@,
                ) is Some) && (spec_find_entry(g, "Path"@) matches Some(p) && tf.path@
                    == spec_first_value(p))) && tf.desktop_file@ == desktop@,
                Err(e) => match e {
                    Error::NotFound(k) => (k@ == spec_group_name() && spec_find_group(desktop@)
                        is None) || (k@ == "DeletionDate"@ && (spec_find_group(desktop@) matches
                    Some(g) && spec_find_entry(g, "DeletionDate"@) is None)) || (k@ == "Path"@ && (
                    spec_find_group(desktop@) matches Some(g) && spec_find_entry(g, "DeletionDate"@)
                        is Some && spec_find_entry(g, "Path"@) is None)),
                    Error::DateParsing(_) => spec_find_group(desktop@) matches Some(g)
                        && spec_find_entry(g, "DeletionDate"@) is Some && spec_find_entry(
                        g,
                        "Path"@,
                    ) is Some,
                    _ => false,
                },
            },
            match spec_find_group(desktop@) {
                Some(g) => match spec_find_entry(g, "DeletionDate"@) {
                    Some(de) => spec_find_entry(g, "Path"@) is Some ==> forall|
                        y: int,
                        mo: int,
                        d: int,
                        h: int,
                        mi: int,
                        sec: int,
                    |
                        valid_date(y, mo, d, h, mi, sec) && spec_first_value(de)
                            == #[trigger] date_string_of(y, mo, d, h, mi, sec) ==> (r matches Ok(tf)
                            && tf.deletion_date.parts() == (y, mo, d, h, mi, sec)),
                    None => true,
                },
                None => true,
            },
    {
        let (path, date) = {
            let group = match desktop.get("Trash Info") {
                Ok(g) => g,
                Err(e) => {
                    return Err(e);
                },
            };
            proof {
                lemma_first_idx(desktop@.content, group_header_pred("Trash Info"@));
            }
            let raw_date = match group.get("DeletionDate") {
                Ok(e) => e,
                Err(e) => {
                    return Err(e);
                },
            };
            let raw_path = match group.get("Path") {
                Ok(e) => e,
                Err(e) => {
                    return Err(e);
                },
            };
            let date_text = first_value(raw_date);
            let date = match DateTime::parse(date_text.as_str()) {
                Ok(d) => d,
                Err(e) => {
                    return Err(e);
                },
            };
            (first_value(raw_path), date)
        };
        Ok(TrashFile { desktop_file: desktop, path, deletion_date: date })
    }
}

/// The first value of an entry, owned; a valueless entry gives empty text.
fn first_value(e: &ContentEntry) -> (r: String)
    ensures
        r@ == spec_first_value(e@),
{
    if e.values.len() > 0 {
        e.values[0].clone()
    } else {
        String::new()
    }
}

} // verus!
