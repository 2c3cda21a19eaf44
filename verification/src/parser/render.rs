//! The serializer: rendering the document model back to text.
//!
//! Items are written in order and separated by a single newline, except that
//! no newline is inserted after a blank run (its stored text already supplies
//! the line breaks) nor after the very last item.

use vstd::prelude::*;

use crate::parser::models::CanBeComment;
use crate::parser::models::CommentEntry;
use crate::parser::models::ContentEntry;
use crate::parser::models::DesktopFile;
use crate::parser::models::Entry;
use crate::parser::models::Group;
use crate::parser::models::Locale;
use crate::parser::models::SpecComment;
use crate::parser::models::SpecContentEntry;
use crate::parser::models::SpecDesktopFile;
use crate::parser::models::SpecEntry;
use crate::parser::models::SpecGroup;
use crate::parser::models::SpecLocale;
use crate::parser::models::SpecTopLevelEntry;
use crate::parser::models::TopLevelEntry;
use crate::parser::models::spec_entry_is_blank;
use crate::parser::models::spec_top_is_blank;

verus! {

// ---------------------------------------------------------------------------
// Mathematical renderer
// ---------------------------------------------------------------------------
/// ASCII upper-casing of one character; anything but `a`..`z` is unchanged.
pub open spec fn ascii_upper_char(c: char) -> char {
    if 'a' <= c && c <= 'z' {
        (((c as u8) - 32) as char)
    } else {
        c
    }
}

/// ASCII upper-casing of a whole string.
pub open spec fn spec_upper(s: Seq<char>) -> Seq<char> {
    Seq::new(s.len(), |i: int| ascii_upper_char(s[i]))
}

/// A locale renders as `lang`, then `_COUNTRY` (country upper-cased) if
/// present, then `.ENCODING` if present, then `@MODIFIER` if present.
pub open spec fn spec_render_locale(l: SpecLocale) -> Seq<char> {
    l.lang + (match l.country {
        Some(c) => seq!['_'] + spec_upper(c),
        None => Seq::<char>::empty(),
    }) + (match l.encoding {
        Some(e) => seq!['.'] + e,
        None => Seq::<char>::empty(),
    }) + (match l.modifiers {
        Some(m) => seq!['@'] + m,
        None => Seq::<char>::empty(),
    })
}

/// The values of an entry, joined with `;`.
pub open spec fn spec_join_values(vs: Seq<Seq<char>>) -> Seq<char>
    decreases vs.len(),
{
    if vs.len() == 0 {
        Seq::<char>::empty()
    } else if vs.len() == 1 {
        vs[0]
    } else {
        vs[0] + seq![';'] + spec_join_values(vs.skip(1))
    }
}

/// A content entry renders as the key, the bracketed locale if present, `=`,
/// and the values joined with `;`.
pub open spec fn spec_render_content(e: SpecContentEntry) -> Seq<char> {
    e.key + (match e.locale {
        Some(l) => seq!['['] + spec_render_locale(l) + seq![']'],
        None => Seq::<char>::empty(),
    }) + seq!['='] + spec_join_values(e.values)
}

/// A text comment renders as `# ` followed by its stored text; a blank run
/// renders as its stored text, verbatim.
pub open spec fn spec_render_comment(c: SpecComment) -> Seq<char> {
    match c {
        SpecComment::Text(t) => seq!['#', ' '] + t,
        SpecComment::Blank(b) => b,
    }
}

/// Rendering of one in-group entry.
pub open spec fn spec_render_entry(e: SpecEntry) -> Seq<char> {
    match e {
        SpecEntry::Content(c) => spec_render_content(c),
        SpecEntry::Comment(c) => spec_render_comment(c),
    }
}

/// Rendering of a list of in-group entries: each entry is followed by one
/// newline unless it is a blank run or the last entry of the list.
pub open spec fn spec_render_entries(es: Seq<SpecEntry>) -> Seq<char>
    decreases es.len(),
{
    if es.len() == 0 {
        Seq::<char>::empty()
    } else {
        spec_render_entry(es[0]) + (if es.len() > 1 && !spec_entry_is_blank(es[0]) {
            seq!['\n']
        } else {
            Seq::<char>::empty()
        }) + spec_render_entries(es.skip(1))
    }
}

/// A group renders as `[header]`, a newline, then its entries.
pub open spec fn spec_render_group(g: SpecGroup) -> Seq<char> {
    seq!['['] + g.header + seq![']', '\n'] + spec_render_entries(g.content)
}

/// Rendering of one top-level item.
pub open spec fn spec_render_top(t: SpecTopLevelEntry) -> Seq<char> {
    match t {
        SpecTopLevelEntry::Group(g) => spec_render_group(g),
        SpecTopLevelEntry::Comment(c) => spec_render_comment(c),
    }
}

/// Rendering of the top-level items: the same join rule as in a group.
pub open spec fn spec_render_tops(ts: Seq<SpecTopLevelEntry>) -> Seq<char>
    decreases ts.len(),
{
    if ts.len() == 0 {
        Seq::<char>::empty()
    } else {
        spec_render_top(ts[0]) + (if ts.len() > 1 && !spec_top_is_blank(ts[0]) {
            seq!['\n']
        } else {
            Seq::<char>::empty()
        }) + spec_render_tops(ts.skip(1))
    }
}

/// Rendering of a whole document.
pub open spec fn spec_render_document(d: SpecDesktopFile) -> Seq<char> {
    spec_render_tops(d.content)
}

// ---------------------------------------------------------------------------
// Executable renderer
// ---------------------------------------------------------------------------
/// Appends the ASCII upper-casing of `c` to `out`.
fn append_upper_char(out: &mut String, c: char)
    ensures
        final(out)@ == old(out)@ + seq![ascii_upper_char(c)],
{
    proof {
        reveal_strlit("A");
        reveal_strlit("B");
        reveal_strlit("C");
        reveal_strlit("D");
        reveal_strlit("E");
        reveal_strlit("F");
        reveal_strlit("G");
        reveal_strlit("H");
        reveal_strlit("I");
        reveal_strlit("J");
        reveal_strlit("K");
        reveal_strlit("L");
        reveal_strlit("M");
        reveal_strlit("N");
        reveal_strlit("O");
        reveal_strlit("P");
        reveal_strlit("Q");
        reveal_strlit("R");
        reveal_strlit("S");
        reveal_strlit("T");
        reveal_strlit("U");
        reveal_strlit("V");
        reveal_strlit("W");
        reveal_strlit("X");
        reveal_strlit("Y");
        reveal_strlit("Z");
    }
    match c {
        'a' => out.append("A"),
        'b' => out.append("B"),
        'c' => out.append("C"),
        'd' => out.append("D"),
        'e' => out.append("E"),
        'f' => out.append("F"),
        'g' => out.append("G"),
        'h' => out.append("H"),
        'i' => out.append("I"),
        'j' => out.append("J"),
        'k' => out.append("K"),
        'l' => out.append("L"),
        'm' => out.append("M"),
        'n' => out.append("N"),
        'o' => out.append("O"),
        'p' => out.append("P"),
        'q' => out.append("Q"),
        'r' => out.append("R"),
        's' => out.append("S"),
        't' => out.append("T"),
        'u' => out.append("U"),
        'v' => out.append("V"),
        'w' => out.append("W"),
        'x' => out.append("X"),
        'y' => out.append("Y"),
        'z' => out.append("Z"),
        _ => {
            assert(ascii_upper_char(c) == c);
            append_plain_char(out, c);
        },
    }
}

/// Appends `c`, which is not a lower-case ASCII letter, to `out`.
fn append_plain_char(out: &mut String, c: char)
    requires
        !('a' <= c && c <= 'z'),
    ensures
        final(out)@ == old(out)@ + seq![c],
{
    let s = single_char_string(c);
    out.append(s.as_str());
}

/// Builds a one-character string.
///
/// Relies on `alloc::string::String::from` for `char`: the resulting string
/// consists of exactly the given character.
#[verifier::external_body]
fn single_char_string(c: char) -> (r: String)
    ensures
        r@ == seq![c],
{
    String::from(c)
}

/// Appends the ASCII upper-casing of `s` to `out`.
fn append_upper(out: &mut String, s: &str)
    ensures
        final(out)@ == old(out)@ + spec_upper(s@),
{
    let n = s.unicode_len();
    let mut i: usize = 0;
    while i < n
        invariant
            n == s@.len(),
            i <= n,
            out@ == old(out)@ + spec_upper(s@).take(i as int),
        decreases n - i,
    {
        let c = s.get_char(i);
        append_upper_char(out, c);
        assert(spec_upper(s@).take(i + 1) =~= spec_upper(s@).take(i as int) + seq![
            ascii_upper_char(s@[i as int]),
        ]);
        i = i + 1;
    }
    assert(spec_upper(s@).take(n as int) =~= spec_upper(s@));
}

impl Locale {
    /// Renders the locale as `lang_COUNTRY.ENCODING@MODIFIER`, each optional
    /// part present only when the locale carries it.
    pub fn render(&self) -> (r: String)
        ensures
            r@ == spec_render_locale(self@),
    {
        let mut out = String::new();
        out.append(self.lang.as_str());
        let ghost with_lang = out@;
        if let Some(country) = &self.country {
            proof {
                reveal_strlit("_");
            }
            out.append("_");
            append_upper(&mut out, country.as_str());
        }
        let ghost with_country = out@;
        if let Some(encoding) = &self.encoding {
            proof {
                reveal_strlit(".");
            }
            out.append(".");
            out.append(encoding.as_str());
        }
        let ghost with_encoding = out@;
        if let Some(modifier) = &self.modifiers {
            proof {
                reveal_strlit("@");
            }
            out.append("@");
            out.append(modifier.as_str());
        }
        proof {
            assert(out@ =~= spec_render_locale(self@));
        }
        out
    }
}

/// Renders `values[from..]` joined with `;`.
fn render_values_from(values: &Vec<String>, from: usize) -> (r: String)
    requires
        from <= values@.len(),
    ensures
        r@ == spec_join_values(values.deep_view().skip(from as int)),
    decreases values@.len() - from,
{
    let mut out = String::new();
    if from < values.len() {
        out.append(values[from].as_str());
        if from + 1 < values.len() {
            proof {
                reveal_strlit(";");
            }
            out.append(";");
            let rest = render_values_from(values, from + 1);
            out.append(rest.as_str());
            proof {
                assert(values.deep_view().skip(from as int).skip(1) =~= values.deep_view().skip(
                    from + 1,
                ));
                assert(out@ =~= spec_join_values(values.deep_view().skip(from as int)));
            }
        } else {
            proof {
                assert(values.deep_view().skip(from as int).len() == 1);
                assert(out@ =~= spec_join_values(values.deep_view().skip(from as int)));
            }
        }
    } else {
        proof {
            assert(values.deep_view().skip(from as int).len() == 0);
        }
    }
    out
}

impl ContentEntry {
    /// Renders the entry as `key[locale]=value;value;...`; the locale part is
    /// written only when present, and no escaping is re-applied on output.
    pub fn render(&self) -> (r: String)
        ensures
            r@ == spec_render_content(self@),
    {
        let mut out = String::new();
        out.append(self.key.as_str());
        if let Some(locale) = &self.locale {
            proof {
                reveal_strlit("[");
                reveal_strlit("]");
            }
            out.append("[");
            let ls = locale.render();
            out.append(ls.as_str());
            out.append("]");
        }
        proof {
            reveal_strlit("=");
        }
        out.append("=");
        let vs = render_values_from(&self.values, 0);
        out.append(vs.as_str());
        proof {
            assert(self.values.deep_view().skip(0) =~= self.values.deep_view());
            assert(out@ =~= spec_render_content(self@));
        }
        out
    }
}

impl CommentEntry {
    /// Renders a text comment as `# ` followed by its text, and a blank run
    /// as its stored text, verbatim.
    pub fn render(&self) -> (r: String)
        ensures
            r@ == spec_render_comment(self@),
    {
        let mut out = String::new();
        match self {
            CommentEntry::Text(t) => {
                proof {
                    reveal_strlit("# ");
                }
                out.append("# ");
                out.append(t.as_str());
                proof {
                    assert(out@ =~= spec_render_comment(self@));
                }
            },
            CommentEntry::Blank(b) => {
                out.append(b.as_str());
                proof {
                    assert(out@ =~= spec_render_comment(self@));
                }
            },
        }
        out
    }
}

impl Entry {
    /// Renders the entry, whichever variant it is.
    pub fn render(&self) -> (r: String)
        ensures
            r@ == spec_render_entry(self@),
    {
        match self {
            Entry::Content(c) => c.render(),
            Entry::Comment(c) => c.render(),
        }
    }
}

/// Renders `content[from..]` with the newline join rule.
fn render_entries_from(content: &Vec<Entry>, from: usize) -> (r: String)
    requires
        from <= content@.len(),
    ensures
        r@ == spec_render_entries(content.deep_view().skip(from as int)),
    decreases content@.len() - from,
{
    let mut out = String::new();
    if from < content.len() {
        let first = content[from].render();
        out.append(first.as_str());
        if from + 1 < content.len() && !content[from].is_blank() {
            proof {
                reveal_strlit("\n");
            }
            out.append("\n");
        }
        let rest = render_entries_from(content, from + 1);
        out.append(rest.as_str());
        proof {
            assert(content.deep_view().skip(from as int).skip(1) =~= content.deep_view().skip(
                from + 1,
            ));
            assert(out@ =~= spec_render_entries(content.deep_view().skip(from as int)));
        }
    } else {
        proof {
            assert(content.deep_view().skip(from as int).len() == 0);
        }
    }
    out
}

impl Group {
    /// Renders the group as `[header]`, a newline, then its entries.
    pub fn render(&self) -> (r: String)
        ensures
            r@ == spec_render_group(self@),
    {
        let mut out = String::new();
        proof {
            reveal_strlit("[");
            reveal_strlit("]\n");
        }
        out.append("[");
        out.append(self.header.as_str());
        out.append("]\n");
        let es = render_entries_from(&self.content, 0);
        out.append(es.as_str());
        proof {
            assert(self.content.deep_view().skip(0) =~= self.content.deep_view());
            assert(out@ =~= spec_render_group(self@));
        }
        out
    }
}

impl TopLevelEntry {
    /// Renders the item, whichever variant it is.
    pub fn render(&self) -> (r: String)
        ensures
            r@ == spec_render_top(self@),
    {
        match self {
            TopLevelEntry::Group(g) => g.render(),
            TopLevelEntry::Comment(c) => c.render(),
        }
    }
}

/// Renders `content[from..]` with the newline join rule.
fn render_tops_from(content: &Vec<TopLevelEntry>, from: usize) -> (r: String)
    requires
        from <= content@.len(),
    ensures
        r@ == spec_render_tops(content.deep_view().skip(from as int)),
    decreases content@.len() - from,
{
    let mut out = String::new();
    if from < content.len() {
        let first = content[from].render();
        out.append(first.as_str());
        if from + 1 < content.len() && !content[from].is_blank() {
            proof {
                reveal_strlit("\n");
            }
            out.append("\n");
        }
        let rest = render_tops_from(content, from + 1);
        out.append(rest.as_str());
        proof {
            assert(content.deep_view().skip(from as int).skip(1) =~= content.deep_view().skip(
                from + 1,
            ));
            assert(out@ =~= spec_render_tops(content.deep_view().skip(from as int)));
        }
    } else {
        proof {
            assert(content.deep_view().skip(from as int).len() == 0);
        }
    }
    out
}

impl DesktopFile {
    /// Renders the whole document: its items in order, separated by a single
    /// newline except after blank runs and after the very last item.
    pub fn render(&self) -> (r: String)
        ensures
            r@ == spec_render_document(self@),
    {
        proof {
            assert(self.content.deep_view().skip(0) =~= self.content.deep_view());
        }
        render_tops_from(&self.content, 0)
    }
}

} // verus!
