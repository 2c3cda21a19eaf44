//! The document model: an ordered tree of groups, entries and comments,
//! together with the mathematical view of each node.

use vstd::prelude::*;

verus! {

// ---------------------------------------------------------------------------
// Mathematical model
// ---------------------------------------------------------------------------
/// Mathematical view of a [`Locale`].
pub struct SpecLocale {
    /// The language sub-tag.
    pub lang: Seq<char>,
    /// The encoding sub-tag, if any.
    pub encoding: Option<Seq<char>>,
    /// The country sub-tag, if any.
    pub country: Option<Seq<char>>,
    /// The modifier sub-tag, if any.
    pub modifiers: Option<Seq<char>>,
}

/// Mathematical view of a [`CommentEntry`].
pub enum SpecComment {
    /// A textual comment line, without the leading `#` and the spaces after it.
    Text(Seq<char>),
    /// A verbatim run of blank characters.
    Blank(Seq<char>),
}

/// Mathematical view of a [`ContentEntry`].
pub struct SpecContentEntry {
    /// The key.
    pub key: Seq<char>,
    /// The values, in order, duplicates kept.
    pub values: Seq<Seq<char>>,
    /// The locale attached to the key, if any.
    pub locale: Option<SpecLocale>,
}

/// Mathematical view of an [`Entry`].
pub enum SpecEntry {
    /// A key-values entry.
    Content(SpecContentEntry),
    /// A comment or blank run.
    Comment(SpecComment),
}

/// Mathematical view of a [`Group`].
pub struct SpecGroup {
    /// The section name, without the brackets.
    pub header: Seq<char>,
    /// The entries of the section, in order.
    pub content: Seq<SpecEntry>,
}

/// Mathematical view of a [`TopLevelEntry`].
pub enum SpecTopLevelEntry {
    /// A section.
    Group(SpecGroup),
    /// A comment or blank run.
    Comment(SpecComment),
}

/// Mathematical view of a [`DesktopFile`].
pub struct SpecDesktopFile {
    /// The top-level items of the file, in order.
    pub content: Seq<SpecTopLevelEntry>,
}

// ---------------------------------------------------------------------------
// Executable model
// ---------------------------------------------------------------------------
/// A locale of an entry.
///
/// If given to an entry, the only required argument is the language.
/// Everything else is optional.
#[derive(Debug, Eq, PartialEq, Clone)]
pub struct Locale {
    /// The language of the bound value.
    pub lang: String,
    /// The encoding of the bound value.
    pub encoding: Option<String>,
    /// The country variant of the language as per the specification.
    pub country: Option<String>,
    /// Any other variant of the language as per the specification.
    pub modifiers: Option<String>,
}

impl View for Locale {
    type V = SpecLocale;

    open spec fn view(&self) -> SpecLocale {
        SpecLocale {
            lang: self.lang@,
            encoding: match self.encoding {
                Some(ref e) => Some(e@),
                None => None,
            },
            country: match self.country {
                Some(ref c) => Some(c@),
                None => None,
            },
            modifiers: match self.modifiers {
                Some(ref m) => Some(m@),
                None => None,
            },
        }
    }
}

/// A comment or a blank line.
#[derive(Debug, Eq, PartialEq, Clone)]
pub enum CommentEntry {
    /// A textual comment. Contains the line content.
    Text(String),
    /// A run of blank lines. Contains the run itself, verbatim.
    Blank(String),
}

impl View for CommentEntry {
    type V = SpecComment;

    open spec fn view(&self) -> SpecComment {
        match self {
            CommentEntry::Text(s) => SpecComment::Text(s@),
            CommentEntry::Blank(s) => SpecComment::Blank(s@),
        }
    }
}

impl DeepView for CommentEntry {
    type V = SpecComment;

    open spec fn deep_view(&self) -> SpecComment {
        self.view()
    }
}

/// A key-values entry.
#[derive(Debug, Eq, PartialEq, Clone)]
pub struct ContentEntry {
    /// The key of the entry.
    pub key: String,
    /// The values of the entry.
    pub values: Vec<String>,
    /// The potential locale of the entry.
    pub locale: Option<Locale>,
}

impl View for ContentEntry {
    type V = SpecContentEntry;

    open spec fn view(&self) -> SpecContentEntry {
        SpecContentEntry {
            key: self.key@,
            values: self.values.deep_view(),
            locale: match self.locale {
                Some(ref l) => Some(l@),
                None => None,
            },
        }
    }
}

impl DeepView for ContentEntry {
    type V = SpecContentEntry;

    open spec fn deep_view(&self) -> SpecContentEntry {
        self.view()
    }
}

/// An entry in a group.
#[derive(Debug, Eq, PartialEq, Clone)]
pub enum Entry {
    /// A key-values entry.
    Content(ContentEntry),
    /// A comment or blank line.
    Comment(CommentEntry),
}

impl View for Entry {
    type V = SpecEntry;

    open spec fn view(&self) -> SpecEntry {
        match self {
            Entry::Content(c) => SpecEntry::Content(c@),
            Entry::Comment(c) => SpecEntry::Comment(c@),
        }
    }
}

impl DeepView for Entry {
    type V = SpecEntry;

    open spec fn deep_view(&self) -> SpecEntry {
        self.view()
    }
}

/// A group of entries.
///
/// This represents a section in a freedesktop file.
#[derive(Debug, Eq, PartialEq, Clone)]
pub struct Group {
    /// The section name.
    pub header: String,
    /// The content of the section.
    pub content: Vec<Entry>,
}

impl View for Group {
    type V = SpecGroup;

    open spec fn view(&self) -> SpecGroup {
        SpecGroup { header: self.header@, content: self.content.deep_view() }
    }
}

impl DeepView for Group {
    type V = SpecGroup;

    open spec fn deep_view(&self) -> SpecGroup {
        self.view()
    }
}

/// An entry at the root of the file.
#[derive(Debug, Eq, PartialEq, Clone)]
pub enum TopLevelEntry {
    /// A section as per the freedesktop specification.
    Group(Group),
    /// A comment or blank line.
    Comment(CommentEntry),
}

impl View for TopLevelEntry {
    type V = SpecTopLevelEntry;

    open spec fn view(&self) -> SpecTopLevelEntry {
        match self {
            TopLevelEntry::Group(g) => SpecTopLevelEntry::Group(g@),
            TopLevelEntry::Comment(c) => SpecTopLevelEntry::Comment(c@),
        }
    }
}

impl DeepView for TopLevelEntry {
    type V = SpecTopLevelEntry;

    open spec fn deep_view(&self) -> SpecTopLevelEntry {
        self.view()
    }
}

/// The representation of a freedesktop file, which contains [`TopLevelEntry`] items.
#[derive(Debug, Eq, PartialEq, Clone)]
pub struct DesktopFile {
    /// The top-level entries of the file.
    pub content: Vec<TopLevelEntry>,
}

impl View for DesktopFile {
    type V = SpecDesktopFile;

    open spec fn view(&self) -> SpecDesktopFile {
        SpecDesktopFile { content: self.content.deep_view() }
    }
}

// ---------------------------------------------------------------------------
// Classification
// ---------------------------------------------------------------------------
/// Whether a model entry is a blank run.
pub open spec fn spec_entry_is_blank(e: SpecEntry) -> bool {
    e matches SpecEntry::Comment(SpecComment::Blank(_))
}

/// Whether a model top-level item is a blank run.
pub open spec fn spec_top_is_blank(e: SpecTopLevelEntry) -> bool {
    e matches SpecTopLevelEntry::Comment(SpecComment::Blank(_))
}

/// Trait implemented by entries to dynamically check whether the entry is
/// blank or a comment.
pub trait CanBeComment {
    /// Returns whether the entry is a blank line.
    fn is_blank(&self) -> bool;

    /// Returns whether the entry is a comment.
    fn is_comment(&self) -> bool;
}

impl CommentEntry {
    /// Returns whether the comment is a blank run rather than a `#` line.
    pub fn is_blank(&self) -> (r: bool)
        ensures
            r == (self@ matches SpecComment::Blank(_)),
    {
        match self {
            CommentEntry::Text(_) => false,
            CommentEntry::Blank(_) => true,
        }
    }
}

impl CanBeComment for Entry {
    fn is_comment(&self) -> (r: bool)
        ensures
            r == (self@ matches SpecEntry::Comment(_)),
    {
        match self {
            Entry::Content(_) => false,
            Entry::Comment(_) => true,
        }
    }

    fn is_blank(&self) -> (r: bool)
        ensures
            r == spec_entry_is_blank(self@),
    {
        if let Entry::Comment(comment) = self {
            comment.is_blank()
        } else {
            false
        }
    }
}

impl CanBeComment for TopLevelEntry {
    fn is_comment(&self) -> (r: bool)
        ensures
            r == (self@ matches SpecTopLevelEntry::Comment(_)),
    {
        match self {
            TopLevelEntry::Group(_) => false,
            TopLevelEntry::Comment(_) => true,
        }
    }

    fn is_blank(&self) -> (r: bool)
        ensures
            r == spec_top_is_blank(self@),
    {
        if let TopLevelEntry::Comment(comment) = self {
            comment.is_blank()
        } else {
            false
        }
    }
}

} // verus!
