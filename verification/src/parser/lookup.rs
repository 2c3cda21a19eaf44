//! Lookup over the model collections: find-by-key, find-by-key-and-locale,
//! and partitioning entries from comments.  Lookup always returns the first
//! match; duplicates stay in place.

use vstd::prelude::*;

use crate::error::Error;
use crate::parser::models::CommentEntry;
use crate::parser::models::ContentEntry;
use crate::parser::models::DesktopFile;
use crate::parser::models::Entry;
use crate::parser::models::Group;
use crate::parser::models::Locale;
use crate::parser::models::SpecComment;
use crate::parser::models::SpecContentEntry;
use crate::parser::models::SpecEntry;
use crate::parser::models::SpecGroup;
use crate::parser::models::SpecLocale;
use crate::parser::models::SpecTopLevelEntry;
use crate::parser::models::TopLevelEntry;

verus! {

// ---------------------------------------------------------------------------
// First-match search, generically
// ---------------------------------------------------------------------------
/// The first index whose element satisfies `p`, if any.
pub open spec fn spec_first_idx<T>(s: Seq<T>, p: spec_fn(T) -> bool) -> Option<int>
    decreases s.len(),
{
    if s.len() == 0 {
        None
    } else if p(s[0]) {
        Some(0)
    } else {
        match spec_first_idx(s.skip(1), p) {
            Some(i) => Some(i + 1),
            None => None,
        }
    }
}

/// What [`spec_first_idx`] returns: the first satisfying index.
pub proof fn lemma_first_idx<T>(s: Seq<T>, p: spec_fn(T) -> bool)
    ensures
        match spec_first_idx(s, p) {
            Some(i) => 0 <= i < s.len() && p(s[i]) && forall|k: int| 0 <= k < i ==> !p(s[k]),
            None => forall|k: int| 0 <= k < s.len() ==> !p(s[k]),
        },
    decreases s.len(),
{
    if s.len() > 0 && !p(s[0]) {
        lemma_first_idx(s.skip(1), p);
        match spec_first_idx(s.skip(1), p) {
            Some(i) => {
                assert(s.skip(1)[i] == s[i + 1]);
                assert forall|k: int| 0 <= k < i + 1 implies !p(s[k]) by {
                    if k > 0 {
                        assert(s.skip(1)[k - 1] == s[k]);
                    }
                }
            },
            None => {
                assert forall|k: int| 0 <= k < s.len() implies !p(s[k]) by {
                    if k > 0 {
                        assert(s.skip(1)[k - 1] == s[k]);
                    }
                }
            },
        }
    }
}

/// A satisfying index below which nothing satisfies pins the first index.
pub proof fn lemma_first_idx_exact<T>(s: Seq<T>, p: spec_fn(T) -> bool, i: int)
    requires
        0 <= i < s.len(),
        p(s[i]),
        forall|k: int| 0 <= k < i ==> !p(s[k]),
    ensures
        spec_first_idx(s, p) == Some(i),
    decreases i,
{
    if i > 0 {
        assert(s.skip(1)[i - 1] == s[i]);
        assert forall|k: int| 0 <= k < i - 1 implies !p(s.skip(1)[k]) by {
            assert(s.skip(1)[k] == s[k + 1]);
        }
        lemma_first_idx_exact(s.skip(1), p, i - 1);
    }
}

/// No satisfying index means no first index.
pub proof fn lemma_first_idx_none<T>(s: Seq<T>, p: spec_fn(T) -> bool)
    requires
        forall|k: int| 0 <= k < s.len() ==> !p(s[k]),
    ensures
        spec_first_idx(s, p) is None,
    decreases s.len(),
{
    if s.len() > 0 {
        assert forall|k: int| 0 <= k < s.len() - 1 implies !p(s.skip(1)[k]) by {
            assert(s.skip(1)[k] == s[k + 1]);
        }
        lemma_first_idx_none(s.skip(1), p);
    }
}

// ---------------------------------------------------------------------------
// The search predicates
// ---------------------------------------------------------------------------
/// An in-group entry that is a content entry with the given key.
pub open spec fn content_key_pred(key: Seq<char>) -> spec_fn(SpecEntry) -> bool {
    |e: SpecEntry| e matches SpecEntry::Content(c) && c.key == key
}

/// A top-level item that is a group with the given header.
pub open spec fn group_header_pred(header: Seq<char>) -> spec_fn(SpecTopLevelEntry) -> bool {
    |t: SpecTopLevelEntry| t matches SpecTopLevelEntry::Group(g) && g.header == header
}

/// Whether a locale agrees with the reference locale of an options value on
/// the language and on every significant field.
pub open spec fn spec_equals_options(l: SpecLocale, o: SpecLocaleOptions) -> bool {
    l.lang == o.locale.lang && (o.country ==> l.country == o.locale.country) && (o.encoding
        ==> l.encoding == o.locale.encoding) && (o.modifier ==> l.modifiers == o.locale.modifiers)
}

/// An in-group entry that is a content entry with the given key whose
/// locale, if any, agrees with the options.
pub open spec fn content_key_locale_pred(key: Seq<char>, o: SpecLocaleOptions) -> spec_fn(
    SpecEntry,
) -> bool {
    |e: SpecEntry|
        e matches SpecEntry::Content(c) && c.key == key && match c.locale {
            Some(l) => spec_equals_options(l, o),
            None => true,
        }
}

// ---------------------------------------------------------------------------
// Locale options
// ---------------------------------------------------------------------------
/// Mathematical view of a [`LocaleOptions`].
pub struct SpecLocaleOptions {
    /// The reference locale.
    pub locale: SpecLocale,
    /// Whether the country is significant.
    pub country: bool,
    /// Whether the encoding is significant.
    pub encoding: bool,
    /// Whether the modifier is significant.
    pub modifier: bool,
}

/// Defines what parts of a [`Locale`] are significant when searching for an
/// entry.  The language is always significant.
pub struct LocaleOptions<'a> {
    /// A reference to the locale to be found.
    pub locale: &'a Locale,
    /// Whether the country is significant.
    pub country: bool,
    /// Whether the encoding is significant.
    pub encoding: bool,
    /// Whether the modifier is significant.
    pub modifier: bool,
}

impl<'a> View for LocaleOptions<'a> {
    type V = SpecLocaleOptions;

    open spec fn view(&self) -> SpecLocaleOptions {
        SpecLocaleOptions {
            locale: self.locale@,
            country: self.country,
            encoding: self.encoding,
            modifier: self.modifier,
        }
    }
}

impl<'a> LocaleOptions<'a> {
    /// Creates a new instance in which all options are insignificant
    /// (besides the language).
    pub fn new(locale: &'a Locale) -> (r: Self)
        ensures
            r@.locale == locale@,
            !r@.country && !r@.encoding && !r@.modifier,
    {
        Self { locale, country: false, encoding: false, modifier: false }
    }

    /// Creates a new instance in which all options are significant.
    pub fn all(locale: &'a Locale) -> (r: Self)
        ensures
            r@.locale == locale@,
            r@.country && r@.encoding && r@.modifier,
    {
        Self { locale, country: true, encoding: true, modifier: true }
    }

    /// Makes all options insignificant but the language.
    pub fn language_only(self) -> (r: Self)
        ensures
            r@.locale == self@.locale,
            !r@.country && !r@.encoding && !r@.modifier,
    {
        Self { locale: self.locale, country: false, encoding: false, modifier: false }
    }

    /// Makes all options significant.
    pub fn all_significant(self) -> (r: Self)
        ensures
            r@.locale == self@.locale,
            r@.country && r@.encoding && r@.modifier,
    {
        self.significant_country().significant_encoding().significant_modifiers()
    }

    /// Makes the encoding significant.
    pub fn significant_encoding(self) -> (r: Self)
        ensures
            r@ == (SpecLocaleOptions { encoding: true, ..self@ }),
    {
        let mut o = self;
        o.encoding = true;
        o
    }

    /// Makes the country significant.
    pub fn significant_country(self) -> (r: Self)
        ensures
            r@ == (SpecLocaleOptions { country: true, ..self@ }),
    {
        let mut o = self;
        o.country = true;
        o
    }

    /// Makes the modifiers significant.
    pub fn significant_modifiers(self) -> (r: Self)
        ensures
            r@ == (SpecLocaleOptions { modifier: true, ..self@ }),
    {
        let mut o = self;
        o.modifier = true;
        o
    }

    /// Changes the locale.
    pub fn with_locale(self, locale: &'a Locale) -> (r: Self)
        ensures
            r@ == (SpecLocaleOptions { locale: locale@, ..self@ }),
    {
        let mut o = self;
        o.locale = locale;
        o
    }
}

/// Whether two optional strings hold the same text.
fn opt_string_eq(a: &Option<String>, b: &Option<String>) -> (r: bool)
    ensures
        r == (match (a, b) {
            (Some(x), Some(y)) => x@ == y@,
            (None, None) => true,
            _ => false,
        }),
{
    match (a, b) {
        (Some(x), Some(y)) => x.eq(y),
        (None, None) => true,
        _ => false,
    }
}

impl Locale {
    /// Check whether this locale respects the options: the language must
    /// agree, and so must every field the options make significant.
    pub fn equals_options(&self, options: &LocaleOptions) -> (r: bool)
        ensures
            r == spec_equals_options(self@, options@),
    {
        let rhs = options.locale;
        let mut res = self.lang == rhs.lang;
        if options.country {
            res = res && opt_string_eq(&self.country, &rhs.country);
        }
        if options.encoding {
            res = res && opt_string_eq(&self.encoding, &rhs.encoding);
        }
        if options.modifier {
            res = res && opt_string_eq(&self.modifiers, &rhs.modifiers);
        }
        res
    }
}

// ---------------------------------------------------------------------------
// Lookup within a group
// ---------------------------------------------------------------------------
impl Group {
    /// The index of the first content entry with this key, or `None`.
    pub fn find_index(&self, key: &str) -> (r: Option<usize>)
        ensures
            match r {
                Some(i) => spec_first_idx(self@.content, content_key_pred(key@)) == Some(i as int),
                None => spec_first_idx(self@.content, content_key_pred(key@)) is None,
            },
    {
        let ghost p = content_key_pred(key@);
        let key_owned: String = key.to_owned();
        let n = self.content.len();
        let mut i: usize = 0;
        while i < n
            invariant
                0 <= i <= n,
                n == self@.content.len(),
                key_owned@ == key@,
                p == content_key_pred(key@),
                forall|k: int| 0 <= k < i ==> !p(self@.content[k]),
            decreases n - i,
        {
            proof {
                assert(self@.content[i as int] == self.content@[i as int].deep_view());
            }
            match &self.content[i] {
                Entry::Content(c) => {
                    if c.key.eq(&key_owned) {
                        proof {
                            assert(self@.content[i as int] == SpecEntry::Content(c@));
                            assert(p(self@.content[i as int]));
                            lemma_first_idx_exact(self@.content, p, i as int);
                        }
                        return Some(i);
                    }
                },
                Entry::Comment(_) => {},
            }
            proof {
                assert(!p(self@.content[i as int]));
            }
            i = i + 1;
        }
        proof {
            lemma_first_idx_none(self@.content, p);
        }
        None
    }

    /// Find the first entry for this key, or `None` if no entry with this
    /// key was found.
    pub fn find(&self, key: &str) -> (r: Option<&ContentEntry>)
        ensures
            match r {
                Some(e) => {
                    let idx = spec_first_idx(self@.content, content_key_pred(key@));
                    idx matches Some(i) && self@.content[i] == SpecEntry::Content(e@)
                },
                None => spec_first_idx(self@.content, content_key_pred(key@)) is None,
            },
    {
        match self.find_index(key) {
            Some(i) => {
                proof {
                    lemma_first_idx(self@.content, content_key_pred(key@));
                }
                match &self.content[i] {
                    Entry::Content(c) => Some(c),
                    Entry::Comment(_) => None,
                }
            },
            None => None,
        }
    }

    /// Similar to [`Self::find`], but fails with a not-found error carrying
    /// the searched key.
    pub fn get(&self, key: &str) -> (r: Result<&ContentEntry, Error>)
        ensures
            match r {
                Ok(e) => {
                    let idx = spec_first_idx(self@.content, content_key_pred(key@));
                    idx matches Some(i) && self@.content[i] == SpecEntry::Content(e@)
                },
                Err(e) => spec_first_idx(self@.content, content_key_pred(key@)) is None && (e
                    matches Error::NotFound(k) && k@ == key@),
            },
    {
        match self.find(key) {
            Some(e) => Ok(e),
            None => Err(Error::NotFound(key.to_owned())),
        }
    }

    /// The index of the first content entry with this key whose locale, if
    /// any, respects the options, or `None`.
    pub fn find_with_locale_index(&self, key: &str, options: &LocaleOptions) -> (r: Option<usize>)
        ensures
            match r {
                Some(i) => spec_first_idx(self@.content, content_key_locale_pred(key@, options@))
                    == Some(i as int),
                None => spec_first_idx(self@.content, content_key_locale_pred(key@, options@))
                    is None,
            },
    {
        let ghost p = content_key_locale_pred(key@, options@);
        let ghost options_view = options@;
        let key_owned: String = key.to_owned();
        let n = self.content.len();
        let mut i: usize = 0;
        while i < n
            invariant
                0 <= i <= n,
                n == self@.content.len(),
                key_owned@ == key@,
                p == content_key_locale_pred(key@, options_view),
                options_view == options@,
                forall|k: int| 0 <= k < i ==> !p(self@.content[k]),
            decreases n - i,
        {
            proof {
                assert(self@.content[i as int] == self.content@[i as int].deep_view());
            }
            match &self.content[i] {
                Entry::Content(c) => {
                    if c.key.eq(&key_owned) {
                        let locale_fits = match &c.locale {
                            Some(l) => l.equals_options(options),
                            None => true,
                        };
                        if locale_fits {
                            proof {
                                assert(p(self@.content[i as int]));
                                lemma_first_idx_exact(self@.content, p, i as int);
                            }
                            return Some(i);
                        }
                    }
                },
                Entry::Comment(_) => {},
            }
            proof {
                assert(!p(self@.content[i as int]));
            }
            i = i + 1;
        }
        proof {
            lemma_first_idx_none(self@.content, p);
        }
        None
    }

    /// Find the first entry for this key and locale, or `None` if no such
    /// entry was found.  An entry matches when its key is the given key and
    /// it either has no locale at all or its locale agrees with the
    /// reference locale on the language and on every significant field.
    pub fn find_with_locale(&self, key: &str, options: &LocaleOptions) -> (r: Option<
        &ContentEntry,
    >)
        ensures
            match r {
                Some(e) => {
                    let idx = spec_first_idx(self@.content, content_key_locale_pred(key@, options@));
                    idx matches Some(i) && self@.content[i] == SpecEntry::Content(e@)
                },
                None => spec_first_idx(self@.content, content_key_locale_pred(key@, options@))
                    is None,
            },
    {
        match self.find_with_locale_index(key, options) {
            Some(i) => {
                proof {
                    lemma_first_idx(self@.content, content_key_locale_pred(key@, options@));
                }
                match &self.content[i] {
                    Entry::Content(c) => Some(c),
                    Entry::Comment(_) => None,
                }
            },
            None => None,
        }
    }

    /// Replaces the values of the content entry at `index`, keeping its key
    /// and locale and every other entry in place.
    pub fn set_values(&mut self, index: usize, values: Vec<String>)
        requires
            index < old(self)@.content.len(),
            old(self)@.content[index as int] is Content,
        ensures
            final(self)@.header == old(self)@.header,
            final(self)@.content.len() == old(self)@.content.len(),
            final(self)@.content[index as int] == SpecEntry::Content(
                entry_with_values(old(self)@.content[index as int], values.deep_view()),
            ),
            forall|k: int|
                0 <= k < old(self)@.content.len() && k != index ==> final(self)@.content[k] == old(
                    self,
                )@.content[k],
    {
        let entry = self.content.remove(index);
        match entry {
            Entry::Content(c) => {
                let replaced = ContentEntry { key: c.key, values, locale: c.locale };
                self.content.insert(index, Entry::Content(replaced));
            },
            Entry::Comment(c) => {
                // Unreachable: the entry at `index` is a content entry.
                self.content.insert(index, Entry::Comment(c));
            },
        }
    }
}

/// The content entry of `e` with its values replaced by `values`.
pub open spec fn entry_with_values(e: SpecEntry, values: Seq<Seq<char>>) -> SpecContentEntry {
    match e {
        SpecEntry::Content(c) => SpecContentEntry { key: c.key, values, locale: c.locale },
        SpecEntry::Comment(_) => SpecContentEntry { key: Seq::empty(), values, locale: None },
    }
}

// ---------------------------------------------------------------------------
// Lookup within a document
// ---------------------------------------------------------------------------
impl DesktopFile {
    /// The index of the first group with this header, or `None`.
    pub fn find_index(&self, header: &str) -> (r: Option<usize>)
        ensures
            match r {
                Some(i) => spec_first_idx(self@.content, group_header_pred(header@)) == Some(
                    i as int,
                ),
                None => spec_first_idx(self@.content, group_header_pred(header@)) is None,
            },
    {
        let ghost p = group_header_pred(header@);
        let header_owned: String = header.to_owned();
        let n = self.content.len();
        let mut i: usize = 0;
        while i < n
            invariant
                0 <= i <= n,
                n == self@.content.len(),
                header_owned@ == header@,
                p == group_header_pred(header@),
                forall|k: int| 0 <= k < i ==> !p(self@.content[k]),
            decreases n - i,
        {
            proof {
                assert(self@.content[i as int] == self.content@[i as int].deep_view());
            }
            match &self.content[i] {
                TopLevelEntry::Group(g) => {
                    if g.header.eq(&header_owned) {
                        proof {
                            assert(p(self@.content[i as int]));
                            lemma_first_idx_exact(self@.content, p, i as int);
                        }
                        return Some(i);
                    }
                },
                TopLevelEntry::Comment(_) => {},
            }
            proof {
                assert(!p(self@.content[i as int]));
            }
            i = i + 1;
        }
        proof {
            lemma_first_idx_none(self@.content, p);
        }
        None
    }

    /// Find the first group with this header, or `None` if no group with
    /// this header was found.
    pub fn find(&self, header: &str) -> (r: Option<&Group>)
        ensures
            match r {
                Some(g) => {
                    let idx = spec_first_idx(self@.content, group_header_pred(header@));
                    idx matches Some(i) && self@.content[i] == SpecTopLevelEntry::Group(g@)
                },
                None => spec_first_idx(self@.content, group_header_pred(header@)) is None,
            },
    {
        match self.find_index(header) {
            Some(i) => {
                proof {
                    lemma_first_idx(self@.content, group_header_pred(header@));
                }
                match &self.content[i] {
                    TopLevelEntry::Group(g) => Some(g),
                    TopLevelEntry::Comment(_) => None,
                }
            },
            None => None,
        }
    }

    /// Similar to [`Self::find`], but fails with a not-found error carrying
    /// the searched header.
    pub fn get(&self, header: &str) -> (r: Result<&Group, Error>)
        ensures
            match r {
                Ok(g) => {
                    let idx = spec_first_idx(self@.content, group_header_pred(header@));
                    idx matches Some(i) && self@.content[i] == SpecTopLevelEntry::Group(g@)
                },
                Err(e) => spec_first_idx(self@.content, group_header_pred(header@)) is None && (e
                    matches Error::NotFound(k) && k@ == header@),
            },
    {
        match self.find(header) {
            Some(g) => Ok(g),
            None => Err(Error::NotFound(header.to_owned())),
        }
    }
}

// ---------------------------------------------------------------------------
// Partitioning
// ---------------------------------------------------------------------------
/// The content entries of an entry list, in order, comments dropped.
pub open spec fn spec_contents_of(es: Seq<SpecEntry>) -> Seq<SpecContentEntry>
    decreases es.len(),
{
    if es.len() == 0 {
        Seq::empty()
    } else {
        match es[0] {
            SpecEntry::Content(c) => seq![c] + spec_contents_of(es.skip(1)),
            SpecEntry::Comment(_) => spec_contents_of(es.skip(1)),
        }
    }
}

/// The comments of an entry list, in order, content entries dropped.
pub open spec fn spec_comments_of(es: Seq<SpecEntry>) -> Seq<SpecComment>
    decreases es.len(),
{
    if es.len() == 0 {
        Seq::empty()
    } else {
        match es[0] {
            SpecEntry::Comment(c) => seq![c] + spec_comments_of(es.skip(1)),
            SpecEntry::Content(_) => spec_comments_of(es.skip(1)),
        }
    }
}

/// The groups of a top-level list, in order, comments dropped.
pub open spec fn spec_groups_of(ts: Seq<SpecTopLevelEntry>) -> Seq<SpecGroup>
    decreases ts.len(),
{
    if ts.len() == 0 {
        Seq::empty()
    } else {
        match ts[0] {
            SpecTopLevelEntry::Group(g) => seq![g] + spec_groups_of(ts.skip(1)),
            SpecTopLevelEntry::Comment(_) => spec_groups_of(ts.skip(1)),
        }
    }
}

/// The comments of a top-level list, in order, groups dropped.
pub open spec fn spec_top_comments_of(ts: Seq<SpecTopLevelEntry>) -> Seq<SpecComment>
    decreases ts.len(),
{
    if ts.len() == 0 {
        Seq::empty()
    } else {
        match ts[0] {
            SpecTopLevelEntry::Comment(c) => seq![c] + spec_top_comments_of(ts.skip(1)),
            SpecTopLevelEntry::Group(_) => spec_top_comments_of(ts.skip(1)),
        }
    }
}

impl Group {
    /// The entries that are not comments or blanks, in order.
    pub fn without_comments(&self) -> (r: Vec<&ContentEntry>)
        ensures
            r.deep_view() == spec_contents_of(self@.content),
    {
        let n = self.content.len();
        let mut out: Vec<&ContentEntry> = Vec::new();
        let mut i: usize = 0;
        proof {
            assert(self@.content.skip(0) =~= self@.content);
            assert(out.deep_view() + spec_contents_of(self@.content) =~= spec_contents_of(
                self@.content,
            ));
        }
        while i < n
            invariant
                0 <= i <= n,
                n == self@.content.len(),
                out.deep_view() + spec_contents_of(self@.content.skip(i as int)) == spec_contents_of(
                    self@.content,
                ),
            decreases n - i,
        {
            let ghost prev = out.deep_view();
            match &self.content[i] {
                Entry::Content(c) => {
                    out.push(c);
                    proof {
                        assert(out.deep_view() =~= prev + seq![c@]);
                        assert(prev + (seq![c@] + spec_contents_of(self@.content.skip(i + 1)))
                            =~= out.deep_view() + spec_contents_of(self@.content.skip(i + 1)));
                        assert(self@.content.skip(i as int).skip(1) =~= self@.content.skip(i + 1));
                    }
                },
                Entry::Comment(_) => {
                    proof {
                        assert(self@.content.skip(i as int).skip(1) =~= self@.content.skip(i + 1));
                    }
                },
            }
            i = i + 1;
        }
        proof {
            assert(self@.content.skip(n as int) =~= Seq::<SpecEntry>::empty());
            assert(out.deep_view() + Seq::<SpecContentEntry>::empty() =~= out.deep_view());
        }
        out
    }

    /// The entries that are comments or blanks, in order.
    pub fn only_comments(&self) -> (r: Vec<&CommentEntry>)
        ensures
            r.deep_view() == spec_comments_of(self@.content),
    {
        let n = self.content.len();
        let mut out: Vec<&CommentEntry> = Vec::new();
        let mut i: usize = 0;
        proof {
            assert(self@.content.skip(0) =~= self@.content);
            assert(out.deep_view() + spec_comments_of(self@.content) =~= spec_comments_of(
                self@.content,
            ));
        }
        while i < n
            invariant
                0 <= i <= n,
                n == self@.content.len(),
                out.deep_view() + spec_comments_of(self@.content.skip(i as int)) == spec_comments_of(
                    self@.content,
                ),
            decreases n - i,
        {
            let ghost prev = out.deep_view();
            match &self.content[i] {
                Entry::Comment(c) => {
                    out.push(c);
                    proof {
                        assert(out.deep_view() =~= prev + seq![c@]);
                        assert(prev + (seq![c@] + spec_comments_of(self@.content.skip(i + 1)))
                            =~= out.deep_view() + spec_comments_of(self@.content.skip(i + 1)));
                        assert(self@.content.skip(i as int).skip(1) =~= self@.content.skip(i + 1));
                    }
                },
                Entry::Content(_) => {
                    proof {
                        assert(self@.content.skip(i as int).skip(1) =~= self@.content.skip(i + 1));
                    }
                },
            }
            i = i + 1;
        }
        proof {
            assert(self@.content.skip(n as int) =~= Seq::<SpecEntry>::empty());
            assert(out.deep_view() + Seq::<SpecComment>::empty() =~= out.deep_view());
        }
        out
    }
}

impl DesktopFile {
    /// The top-level items that are groups, in order.
    pub fn without_comments(&self) -> (r: Vec<&Group>)
        ensures
            r.deep_view() == spec_groups_of(self@.content),
    {
        let n = self.content.len();
        let mut out: Vec<&Group> = Vec::new();
        let mut i: usize = 0;
        proof {
            assert(self@.content.skip(0) =~= self@.content);
            assert(out.deep_view() + spec_groups_of(self@.content) =~= spec_groups_of(
                self@.content,
            ));
        }
        while i < n
            invariant
                0 <= i <= n,
                n == self@.content.len(),
                out.deep_view() + spec_groups_of(self@.content.skip(i as int)) == spec_groups_of(
                    self@.content,
                ),
            decreases n - i,
        {
            let ghost prev = out.deep_view();
            match &self.content[i] {
                TopLevelEntry::Group(g) => {
                    out.push(g);
                    proof {
                        assert(out.deep_view() =~= prev + seq![g@]);
                        assert(prev + (seq![g@] + spec_groups_of(self@.content.skip(i + 1)))
                            =~= out.deep_view() + spec_groups_of(self@.content.skip(i + 1)));
                        assert(self@.content.skip(i as int).skip(1) =~= self@.content.skip(i + 1));
                    }
                },
                TopLevelEntry::Comment(_) => {
                    proof {
                        assert(self@.content.skip(i as int).skip(1) =~= self@.content.skip(i + 1));
                    }
                },
            }
            i = i + 1;
        }
        proof {
            assert(self@.content.skip(n as int) =~= Seq::<SpecTopLevelEntry>::empty());
            assert(out.deep_view() + Seq::<SpecGroup>::empty() =~= out.deep_view());
        }
        out
    }

    /// The top-level items that are comments or blanks, in order.
    pub fn only_comments(&self) -> (r: Vec<&CommentEntry>)
        ensures
            r.deep_view() == spec_top_comments_of(self@.content),
    {
        let n = self.content.len();
        let mut out: Vec<&CommentEntry> = Vec::new();
        let mut i: usize = 0;
        proof {
            assert(self@.content.skip(0) =~= self@.content);
            assert(out.deep_view() + spec_top_comments_of(self@.content)
                =~= spec_top_comments_of(self@.content));
        }
        while i < n
            invariant
                0 <= i <= n,
                n == self@.content.len(),
                out.deep_view() + spec_top_comments_of(self@.content.skip(i as int))
                    == spec_top_comments_of(self@.content),
            decreases n - i,
        {
            let ghost prev = out.deep_view();
            match &self.content[i] {
                TopLevelEntry::Comment(c) => {
                    out.push(c);
                    proof {
                        assert(out.deep_view() =~= prev + seq![c@]);
                        assert(prev + (seq![c@] + spec_top_comments_of(self@.content.skip(i + 1)))
                            =~= out.deep_view() + spec_top_comments_of(self@.content.skip(i + 1)));
                        assert(self@.content.skip(i as int).skip(1) =~= self@.content.skip(i + 1));
                    }
                },
                TopLevelEntry::Group(_) => {
                    proof {
                        assert(self@.content.skip(i as int).skip(1) =~= self@.content.skip(i + 1));
                    }
                },
            }
            i = i + 1;
        }
        proof {
            assert(self@.content.skip(n as int) =~= Seq::<SpecTopLevelEntry>::empty());
            assert(out.deep_view() + Seq::<SpecComment>::empty() =~= out.deep_view());
        }
        out
    }
}

} // verus!
