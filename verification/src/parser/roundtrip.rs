//! The round-trip laws: parsing is a left inverse of rendering on canonical
//! documents, so any text that is the rendering of a canonical document is
//! reproduced verbatim by `render` after `parse`.
//!
//! A document is *canonical* when its stored strings are exactly what
//! parsing would store: keys of key characters, blank runs that are
//! non-empty whitespace, comment text that needs no stripping, values that
//! need no escape decoding and no trimming, locales whose sub-tags carry no
//! separators and whose country is already upper-case — and when the
//! newline join rule can be undone: no two adjacent blank runs, no text
//! comment as the very last item, top-level comments only before the first
//! group, and every group that another item follows ends with a content
//! entry or a text comment.

use vstd::prelude::*;

use crate::parser::grammar::blank_pred;
use crate::parser::grammar::body_pred;
use crate::parser::grammar::header_pred;
use crate::parser::grammar::is_blank_char;
use crate::parser::grammar::is_body_char;
use crate::parser::grammar::is_chunk_char;
use crate::parser::grammar::is_header_char;
use crate::parser::grammar::is_key_char;
use crate::parser::grammar::is_space_char;
use crate::parser::grammar::is_trim_char;
use crate::parser::grammar::key_pred;
use crate::parser::grammar::lemma_scan;
use crate::parser::grammar::lemma_scan_exact;
use crate::parser::grammar::space_pred;
use crate::parser::grammar::spec_parse_blank;
use crate::parser::grammar::spec_parse_comment;
use crate::parser::grammar::spec_parse_content_entry;
use crate::parser::grammar::spec_parse_document;
use crate::parser::grammar::spec_parse_entries;
use crate::parser::grammar::spec_parse_entry;
use crate::parser::grammar::spec_parse_group;
use crate::parser::grammar::spec_parse_group_header;
use crate::parser::grammar::spec_parse_locale_bracket;
use crate::parser::grammar::spec_parse_single_value;
use crate::parser::grammar::spec_parse_text_comment;
use crate::parser::grammar::spec_parse_top_level;
use crate::parser::grammar::spec_parse_tops;
use crate::parser::grammar::spec_parse_value_list;
use crate::parser::grammar::spec_split_locale;
use crate::parser::grammar::spec_trim;
use crate::parser::grammar::spec_value_chars;
use crate::parser::grammar::trim_end;
use crate::parser::grammar::trim_pred;
use crate::parser::models::SpecComment;
use crate::parser::models::SpecContentEntry;
use crate::parser::models::SpecDesktopFile;
use crate::parser::models::SpecEntry;
use crate::parser::models::SpecLocale;
use crate::parser::models::SpecTopLevelEntry;
use crate::parser::models::spec_entry_is_blank;
use crate::parser::models::spec_top_is_blank;
use crate::parser::render::spec_join_values;
use crate::parser::render::spec_render_comment;
use crate::parser::render::spec_render_content;
use crate::parser::render::spec_render_document;
use crate::parser::render::spec_render_entries;
use crate::parser::render::spec_render_entry;
use crate::parser::render::spec_render_group;
use crate::parser::render::spec_render_locale;
use crate::parser::render::spec_render_top;
use crate::parser::render::spec_render_tops;
use crate::parser::render::spec_upper;

verus! {

// ---------------------------------------------------------------------------
// Canonicity
// ---------------------------------------------------------------------------
/// A key of key characters only.
pub open spec fn canon_key(k: Seq<char>) -> bool {
    forall|i: int| 0 <= i < k.len() ==> is_key_char(#[trigger] k[i])
}

/// A header without brackets.
pub open spec fn canon_header(h: Seq<char>) -> bool {
    forall|i: int| 0 <= i < h.len() ==> is_header_char(#[trigger] h[i])
}

/// A non-empty run of blank characters.
pub open spec fn canon_blank(b: Seq<char>) -> bool {
    b.len() > 0 && forall|i: int| 0 <= i < b.len() ==> is_blank_char(#[trigger] b[i])
}

/// Comment text of ASCII characters without a newline, not starting with
/// in-line whitespace (which parsing would strip).
pub open spec fn canon_text(t: Seq<char>) -> bool {
    (forall|i: int| 0 <= i < t.len() ==> is_body_char(#[trigger] t[i])) && (t.len() > 0
        ==> !is_space_char(t[0]))
}

/// A value that needs no escaping (no `\`, `;` or newline) and no trimming
/// (no whitespace at either end).
pub open spec fn canon_value(v: Seq<char>) -> bool {
    (forall|i: int| 0 <= i < v.len() ==> is_chunk_char(#[trigger] v[i])) && (v.len() > 0
        ==> !is_trim_char(v[0]) && !is_trim_char(v[v.len() - 1]))
}

/// A value list whose joined rendering re-parses to itself: every value
/// canonical, and the last one non-empty (a trailing empty value would
/// vanish when re-parsed).
pub open spec fn canon_values(vs: Seq<Seq<char>>) -> bool {
    (forall|i: int| 0 <= i < vs.len() ==> canon_value(#[trigger] vs[i])) && (vs.len() > 0
        ==> vs.last().len() > 0)
}

/// A locale sub-tag without brackets and without the characters that end it
/// in the `lang_COUNTRY.ENCODING@MODIFIER` syntax; the country additionally
/// without lower-case ASCII letters, which rendering would upper-case.
pub open spec fn canon_locale(l: SpecLocale) -> bool {
    (forall|i: int|
        0 <= i < l.lang.len() ==> {
            let c = #[trigger] l.lang[i];
            c != '_' && c != '.' && c != '@' && c != '[' && c != ']'
        }) && (match l.country {
        Some(co) => forall|i: int|
            0 <= i < co.len() ==> {
                let c = #[trigger] co[i];
                c != '.' && c != '@' && c != '[' && c != ']' && !('a' <= c && c <= 'z')
            },
        None => true,
    }) && (match l.encoding {
        Some(e) => forall|i: int|
            0 <= i < e.len() ==> {
                let c = #[trigger] e[i];
                c != '@' && c != '[' && c != ']'
            },
        None => true,
    }) && (match l.modifiers {
        Some(m) => forall|i: int|
            0 <= i < m.len() ==> {
                let c = #[trigger] m[i];
                c != '[' && c != ']'
            },
        None => true,
    })
}

/// A canonical content entry.
pub open spec fn canon_content(e: SpecContentEntry) -> bool {
    canon_key(e.key) && canon_values(e.values) && (match e.locale {
        Some(l) => canon_locale(l),
        None => true,
    })
}

/// A canonical comment.
pub open spec fn canon_comment(c: SpecComment) -> bool {
    match c {
        SpecComment::Text(t) => canon_text(t),
        SpecComment::Blank(b) => canon_blank(b),
    }
}

/// A canonical in-group entry.
pub open spec fn canon_entry(e: SpecEntry) -> bool {
    match e {
        SpecEntry::Content(c) => canon_content(c),
        SpecEntry::Comment(c) => canon_comment(c),
    }
}

/// Whether an in-group entry is a text comment.
pub open spec fn entry_is_text(e: SpecEntry) -> bool {
    e matches SpecEntry::Comment(SpecComment::Text(_))
}

/// A canonical entry list.  `followed_by_newline` says whether a join
/// newline follows the list (the group is not the last item of the
/// document): then the list must end with a content entry or a text
/// comment, which re-absorbs that newline; at the end of the document the
/// list must merely not end with a text comment, whose rendering would lack
/// its mandatory newline.
pub open spec fn canon_entry_list(es: Seq<SpecEntry>, followed_by_newline: bool) -> bool {
    (forall|i: int| 0 <= i < es.len() ==> canon_entry(#[trigger] es[i])) && (forall|i: int|
        0 <= i < es.len() - 1 ==> !(spec_entry_is_blank(#[trigger] es[i]) && spec_entry_is_blank(
            es[i + 1],
        ))) && (if followed_by_newline {
        es.len() > 0 && (es.last() is Content || entry_is_text(es.last()))
    } else {
        es.len() == 0 || !entry_is_text(es.last())
    })
}

/// Whether a top-level item is a text comment.
pub open spec fn top_is_text(t: SpecTopLevelEntry) -> bool {
    t matches SpecTopLevelEntry::Comment(SpecComment::Text(_))
}

/// A canonical top-level list: every comment canonical, every group
/// canonical for its position, no two adjacent blank runs, all comments
/// before all groups (a comment after a group would be absorbed into it on
/// re-parsing), and no text comment as the very last item.
pub open spec fn canon_top_list(ts: Seq<SpecTopLevelEntry>) -> bool {
    (forall|i: int|
        0 <= i < ts.len() ==> match #[trigger] ts[i] {
            SpecTopLevelEntry::Group(g) => canon_header(g.header) && canon_entry_list(
                g.content,
                i < ts.len() - 1,
            ),
            SpecTopLevelEntry::Comment(c) => canon_comment(c),
        }) && (forall|i: int|
        0 <= i < ts.len() - 1 ==> !(spec_top_is_blank(#[trigger] ts[i]) && spec_top_is_blank(
            ts[i + 1],
        ))) && (forall|i: int, j: int|
        0 <= i < j < ts.len() && #[trigger] ts[i] is Group ==> #[trigger] ts[j] is Group) && (
    ts.len() > 0 ==> !top_is_text(ts.last()))
}

/// A canonical document.
pub open spec fn canonical_doc(d: SpecDesktopFile) -> bool {
    canon_top_list(d.content)
}

// ---------------------------------------------------------------------------
// Positional helpers
// ---------------------------------------------------------------------------
/// Whether `t` stands in `s` at position `i`.
pub open spec fn matches_at(s: Seq<char>, i: int, t: Seq<char>) -> bool {
    0 <= i && i + t.len() <= s.len() && s.subrange(i, i + t.len() as int) == t
}

/// Each character of a matched text stands at its shifted position.
pub proof fn lemma_matches_at_index(s: Seq<char>, i: int, t: Seq<char>, k: int)
    requires
        matches_at(s, i, t),
        0 <= k < t.len(),
    ensures
        s[i + k] == t[k],
{
    assert(t[k] == s.subrange(i, i + t.len() as int)[k]);
}

/// A match of a concatenation splits into matches of its parts.
pub proof fn lemma_matches_at_concat(s: Seq<char>, i: int, a: Seq<char>, b: Seq<char>)
    requires
        matches_at(s, i, a + b),
    ensures
        matches_at(s, i, a),
        matches_at(s, i + a.len(), b),
{
    assert forall|k: int| 0 <= k < a.len() implies s[i + k] == a[k] by {
        lemma_matches_at_index(s, i, a + b, k);
        assert((a + b)[k] == a[k]);
    }
    assert(s.subrange(i, i + a.len() as int) =~= a);
    assert forall|k: int| 0 <= k < b.len() implies s[i + a.len() + k] == b[k] by {
        lemma_matches_at_index(s, i, a + b, a.len() + k);
        assert((a + b)[a.len() + k] == b[k]);
    }
    assert(s.subrange(i + a.len(), i + a.len() + b.len() as int) =~= b);
}

// ---------------------------------------------------------------------------
// Comments
// ---------------------------------------------------------------------------
/// A canonical blank run whose end is the end of input or a non-blank
/// character parses back to itself.
pub proof fn lemma_parse_blank_exact(s: Seq<char>, i: int, b: Seq<char>)
    requires
        matches_at(s, i, b),
        canon_blank(b),
        i + b.len() == s.len() || !is_blank_char(s[i + b.len()]),
    ensures
        spec_parse_blank(s, i) == Some((SpecComment::Blank(b), i + b.len())),
{
    assert forall|k: int| i <= k < i + b.len() implies blank_pred()(s[k]) by {
        lemma_matches_at_index(s, i, b, k - i);
    }
    lemma_scan_exact(s, i, i + b.len(), blank_pred());
    assert(s.subrange(i, i + b.len() as int) == b);
}

/// A canonical text comment, written as `# `, its text and a newline,
/// parses back to itself, consuming the newline.
pub proof fn lemma_parse_text_exact(s: Seq<char>, i: int, t: Seq<char>)
    requires
        canon_text(t),
        0 <= i,
        i + t.len() + 3 <= s.len(),
        s[i] == '#',
        s[i + 1] == ' ',
        matches_at(s, i + 2, t),
        s[i + 2 + t.len()] == '\n',
    ensures
        spec_parse_text_comment(s, i) == Some((SpecComment::Text(t), i + t.len() + 3)),
{
    // The in-line whitespace after `#` is exactly the one space.
    if t.len() > 0 {
        lemma_matches_at_index(s, i + 2, t, 0);
        assert(!is_space_char(s[i + 2]));
    } else {
        assert(!is_space_char(s[i + 2]));
    }
    lemma_scan_exact(s, i + 1, i + 2, space_pred());
    // The body runs to the newline.
    assert forall|k: int| i + 2 <= k < i + 2 + t.len() implies body_pred()(s[k]) by {
        lemma_matches_at_index(s, i + 2, t, k - (i + 2));
    }
    assert(!is_body_char('\n'));
    lemma_scan_exact(s, i + 2, i + 2 + t.len(), body_pred());
    assert(s.subrange(i + 2, i + 2 + t.len() as int) == t);
}

/// No comment can be recognized at a position holding neither a blank
/// character nor `#`.
pub proof fn lemma_parse_comment_none(s: Seq<char>, i: int)
    requires
        0 <= i < s.len(),
        !is_blank_char(s[i]),
        s[i] != '#',
    ensures
        spec_parse_comment(s, i) is None,
{
    lemma_scan_exact(s, i, i, blank_pred());
}

/// At the end of input, no entry can be recognized.
pub proof fn lemma_parse_entry_err_at_end(s: Seq<char>, i: int)
    requires
        i == s.len(),
    ensures
        spec_parse_entry(s, i) == Err::<(SpecEntry, int), int>(i),
{
    lemma_scan_exact(s, i, i, blank_pred());
    lemma_scan_exact(s, i, i, key_pred());
    lemma_scan_exact(s, i, i, space_pred());
}

/// At the end of input, no top-level item can be recognized.
pub proof fn lemma_parse_top_err_at_end(s: Seq<char>, i: int)
    requires
        i == s.len(),
    ensures
        spec_parse_top_level(s, i) == Err::<(SpecTopLevelEntry, int), int>(i),
{
    lemma_scan_exact(s, i, i, blank_pred());
}

// ---------------------------------------------------------------------------
// First characters of renderings
// ---------------------------------------------------------------------------
/// The rendering of a canonical non-blank entry starts with a character
/// that is not blank; a content entry moreover does not start with `#`.
pub proof fn lemma_render_entry_first_char(e: SpecEntry)
    requires
        canon_entry(e),
        !spec_entry_is_blank(e),
    ensures
        spec_render_entry(e).len() > 0,
        !is_blank_char(spec_render_entry(e)[0]),
        e is Content ==> spec_render_entry(e)[0] != '#',
{
    match e {
        SpecEntry::Comment(c) => {
            assert(spec_render_comment(c)[0] == '#');
        },
        SpecEntry::Content(ce) => {
            let r = spec_render_content(ce);
            if ce.key.len() > 0 {
                assert(r[0] == ce.key[0]);
                assert(is_key_char(ce.key[0]));
            } else {
                match ce.locale {
                    Some(_) => {
                        assert(r[0] == '[');
                    },
                    None => {
                        assert(r[0] == '=');
                    },
                }
            }
        },
    }
}

} // verus!

verus! {

// ---------------------------------------------------------------------------
// Locales
// ---------------------------------------------------------------------------
/// Upper-casing a canonical country sub-tag changes nothing: it has no
/// lower-case ASCII letters.
pub proof fn lemma_upper_identity(c: Seq<char>)
    requires
        forall|i: int| 0 <= i < c.len() ==> !('a' <= #[trigger] c[i] && c[i] <= 'z'),
    ensures
        spec_upper(c) == c,
{
    assert(spec_upper(c) =~= c);
}

/// The rendering of a canonical locale consists of bracket-content
/// characters only.
pub proof fn lemma_render_locale_chars(l: SpecLocale)
    requires
        canon_locale(l),
    ensures
        forall|i: int|
            0 <= i < spec_render_locale(l).len() ==> is_header_char(
                #[trigger] spec_render_locale(l)[i],
            ),
{
    match l.country {
        Some(co) => {
            lemma_upper_identity(co);
        },
        None => {},
    }
}

/// Splitting the rendering of a canonical locale gives the locale back.
pub proof fn lemma_split_render_locale(l: SpecLocale)
    requires
        canon_locale(l),
    ensures
        spec_split_locale(spec_render_locale(l)) == l,
{
    let raw = spec_render_locale(l);
    let cpart = match l.country {
        Some(c) => seq!['_'] + spec_upper(c),
        None => Seq::<char>::empty(),
    };
    let epart = match l.encoding {
        Some(e) => seq!['.'] + e,
        None => Seq::<char>::empty(),
    };
    let mpart = match l.modifiers {
        Some(m) => seq!['@'] + m,
        None => Seq::<char>::empty(),
    };
    match l.country {
        Some(co) => {
            lemma_upper_identity(co);
        },
        None => {},
    }
    assert(raw == l.lang + cpart + epart + mpart);
    assert(raw.subrange(0, raw.len() as int) =~= raw);
    assert(matches_at(raw, 0, l.lang + cpart + epart + mpart));
    lemma_matches_at_concat(raw, 0, l.lang + cpart + epart, mpart);
    lemma_matches_at_concat(raw, 0, l.lang + cpart, epart);
    lemma_matches_at_concat(raw, 0, l.lang, cpart);
    let a0 = l.lang.len() as int;
    // The language runs to the first separator or the end.
    assert forall|k: int| 0 <= k < a0 implies (|c: char| c != '_' && c != '.' && c != '@')(
        raw[k],
    ) by {
        lemma_matches_at_index(raw, 0, l.lang, k);
    }
    if a0 < raw.len() {
        if l.country is Some {
            lemma_matches_at_index(raw, a0, cpart, 0);
            assert(raw[a0] == '_');
        } else if l.encoding is Some {
            lemma_matches_at_index(raw, a0, epart, 0);
            assert(raw[a0] == '.');
        } else {
            lemma_matches_at_index(raw, a0, mpart, 0);
            assert(raw[a0] == '@');
        }
    }
    lemma_scan_exact(raw, 0, a0, crate::parser::grammar::lang_pred());
    assert(raw.subrange(0, a0) =~= l.lang);
    // The country, when present, runs to `.`, `@` or the end.
    let b0 = a0 + cpart.len() as int;
    match l.country {
        Some(co) => {
            assert(raw[a0] == '_') by {
                lemma_matches_at_index(raw, a0, cpart, 0);
            }
            assert forall|k: int| a0 + 1 <= k < b0 implies (|c: char| c != '.' && c != '@')(
                raw[k],
            ) by {
                lemma_matches_at_index(raw, a0, cpart, k - a0);
                assert(cpart[k - a0] == co[k - a0 - 1]);
            }
            if b0 < raw.len() {
                if l.encoding is Some {
                    lemma_matches_at_index(raw, b0, epart, 0);
                } else {
                    lemma_matches_at_index(raw, b0, mpart, 0);
                }
            }
            lemma_scan_exact(raw, a0 + 1, b0, crate::parser::grammar::country_pred());
            assert forall|k: int| 0 <= k < co.len() implies raw.subrange(a0 + 1, b0)[k] == co[k] by {
                lemma_matches_at_index(raw, a0, cpart, k + 1);
                assert(cpart[k + 1] == co[k]);
            }
            assert(raw.subrange(a0 + 1, b0) =~= co);
        },
        None => {
            if a0 < raw.len() {
                if l.encoding is Some {
                    lemma_matches_at_index(raw, a0, epart, 0);
                    assert(raw[a0] != '_');
                } else {
                    lemma_matches_at_index(raw, a0, mpart, 0);
                    assert(raw[a0] != '_');
                }
            }
        },
    }
    // The encoding, when present, runs to `@` or the end.
    let c0 = b0 + epart.len() as int;
    match l.encoding {
        Some(en) => {
            assert(raw[b0] == '.') by {
                lemma_matches_at_index(raw, b0, epart, 0);
            }
            assert forall|k: int| b0 + 1 <= k < c0 implies (|c: char| c != '@')(raw[k]) by {
                lemma_matches_at_index(raw, b0, epart, k - b0);
                assert(epart[k - b0] == en[k - b0 - 1]);
            }
            if c0 < raw.len() {
                lemma_matches_at_index(raw, c0, mpart, 0);
            }
            lemma_scan_exact(raw, b0 + 1, c0, crate::parser::grammar::encoding_pred());
            assert forall|k: int| 0 <= k < en.len() implies raw.subrange(b0 + 1, c0)[k] == en[k] by {
                lemma_matches_at_index(raw, b0, epart, k + 1);
                assert(epart[k + 1] == en[k]);
            }
            assert(raw.subrange(b0 + 1, c0) =~= en);
        },
        None => {
            if b0 < raw.len() {
                lemma_matches_at_index(raw, b0, mpart, 0);
                assert(raw[b0] != '.');
            }
        },
    }
    // The modifier, when present, is the rest.
    match l.modifiers {
        Some(mo) => {
            assert(raw[c0] == '@') by {
                lemma_matches_at_index(raw, c0, mpart, 0);
            }
            assert forall|k: int| 0 <= k < mo.len() implies raw.subrange(c0 + 1, raw.len() as int)[k]
                == mo[k] by {
                lemma_matches_at_index(raw, c0, mpart, k + 1);
                assert(mpart[k + 1] == mo[k]);
            }
            assert(raw.subrange(c0 + 1, raw.len() as int) =~= mo);
        },
        None => {
            assert(c0 == raw.len());
        },
    }
}

// ---------------------------------------------------------------------------
// Values
// ---------------------------------------------------------------------------
/// Trimming changes nothing when neither end holds trimmed whitespace.
pub proof fn lemma_trim_identity(v: Seq<char>)
    requires
        v.len() == 0 || (!is_trim_char(v[0]) && !is_trim_char(v[v.len() - 1])),
    ensures
        spec_trim(v) == v,
{
    if v.len() == 0 {
        lemma_scan_exact(v, 0, 0, trim_pred());
        assert(spec_trim(v) =~= v);
    } else {
        lemma_scan_exact(v, 0, 0, trim_pred());
        assert(trim_end(v, v.len() as int) == v.len());
        assert(v.subrange(0, v.len() as int) =~= v);
    }
}

/// A run of chunk characters that ends at a terminator decodes to itself.
pub proof fn lemma_value_chars_terminated(s: Seq<char>, i: int, v: Seq<char>)
    requires
        matches_at(s, i, v),
        forall|k: int| 0 <= k < v.len() ==> is_chunk_char(#[trigger] v[k]),
        i + v.len() == s.len() || s[i + v.len()] == ';' || s[i + v.len()] == '\n',
    ensures
        spec_value_chars(s, i) == Ok::<(Seq<char>, int), int>((v, i + v.len())),
{
    let m = i + v.len() as int;
    assert forall|k: int| i <= k < m implies is_chunk_char(s[k]) by {
        lemma_matches_at_index(s, i, v, k - i);
    }
    crate::parser::grammar::lemma_value_chars_chunk(s, i, m);
    assert(spec_value_chars(s, m) == Ok::<(Seq<char>, int), int>((Seq::<char>::empty(), m)));
    assert(s.subrange(i, m) == v);
    assert(v + Seq::<char>::empty() =~= v);
}

/// A canonical value followed by `;`, a newline or the end parses back to
/// itself; only a `;` is consumed.
pub proof fn lemma_parse_single_value_exact(s: Seq<char>, i: int, v: Seq<char>, semi: bool)
    requires
        canon_value(v),
        matches_at(s, i, v),
        semi ==> i + v.len() < s.len() && s[i + v.len()] == ';',
        !semi ==> i + v.len() == s.len() || s[i + v.len()] == '\n',
    ensures
        spec_parse_single_value(s, i) == Ok::<(Seq<char>, int), int>(
            (v, if semi { i + v.len() + 1 } else { i + v.len() }),
        ),
{
    lemma_value_chars_terminated(s, i, v);
    lemma_trim_identity(v);
}

/// A canonical value list, written joined with `;` and followed by a join
/// newline or the end of input, parses back to itself; the newline is
/// consumed.
pub proof fn lemma_parse_value_list_exact(s: Seq<char>, i: int, vs: Seq<Seq<char>>, nl: bool)
    requires
        canon_values(vs),
        matches_at(s, i, spec_join_values(vs)),
        nl ==> i + spec_join_values(vs).len() < s.len() && s[i + spec_join_values(vs).len()]
            == '\n',
        !nl ==> i + spec_join_values(vs).len() == s.len(),
    ensures
        spec_parse_value_list(s, i) == Ok::<(Seq<Seq<char>>, int), int>(
            (
                vs,
                if nl {
                    i + spec_join_values(vs).len() + 1
                } else {
                    i + spec_join_values(vs).len()
                },
            ),
        ),
    decreases vs.len(),
{
    let join = spec_join_values(vs);
    let m = i + join.len() as int;
    if vs.len() == 0 {
        assert(vs =~= Seq::<Seq<char>>::empty());
        assert(m == i);
        if nl {
            assert(spec_parse_value_list(s, i) == Ok::<(Seq<Seq<char>>, int), int>(
                (Seq::<Seq<char>>::empty(), i + 1),
            ));
        } else {
            assert(spec_parse_value_list(s, i) == Ok::<(Seq<Seq<char>>, int), int>(
                (Seq::<Seq<char>>::empty(), i),
            ));
        }
    } else if vs.len() == 1 {
        let v = vs[0];
        assert(join == v);
        assert(v.len() > 0);
        lemma_matches_at_index(s, i, v, 0);
        assert(is_chunk_char(v[0]) && !is_trim_char(v[0]));
        assert(s[i] != '\n' && s[i] != '\r');
        lemma_parse_single_value_exact(s, i, v, false);
        let m2 = i + v.len() as int;
        if nl {
            assert(spec_parse_value_list(s, m2) == Ok::<(Seq<Seq<char>>, int), int>(
                (Seq::<Seq<char>>::empty(), m2 + 1),
            ));
        } else {
            assert(spec_parse_value_list(s, m2) == Ok::<(Seq<Seq<char>>, int), int>(
                (Seq::<Seq<char>>::empty(), m2),
            ));
        }
        assert(seq![v] + Seq::<Seq<char>>::empty() =~= vs);
        assert(spec_parse_value_list(s, i) == Ok::<(Seq<Seq<char>>, int), int>(
            (vs, if nl { m + 1 } else { m }),
        ));
    } else {
        let v = vs[0];
        let rest = vs.skip(1);
        assert(join == v + seq![';'] + spec_join_values(rest));
        lemma_matches_at_concat(s, i, v + seq![';'], spec_join_values(rest));
        lemma_matches_at_concat(s, i, v, seq![';']);
        lemma_matches_at_index(s, i + v.len(), seq![';'], 0);
        assert(s[i + v.len()] == ';');
        if v.len() > 0 {
            lemma_matches_at_index(s, i, v, 0);
            assert(is_chunk_char(v[0]) && !is_trim_char(v[0]));
            assert(s[i] != '\n' && s[i] != '\r');
        } else {
            assert(s[i] == ';');
        }
        assert(canon_value(v));
        lemma_parse_single_value_exact(s, i, v, true);
        let j = i + v.len() + 1;
        assert(canon_values(rest)) by {
            assert(forall|k: int| 0 <= k < rest.len() ==> #[trigger] rest[k] == vs[k + 1]);
            assert(rest.last() == vs.last());
        }
        lemma_parse_value_list_exact(s, j, rest, nl);
        assert(seq![v] + rest =~= vs);
        assert(spec_parse_value_list(s, i) == Ok::<(Seq<Seq<char>>, int), int>(
            (vs, if nl { m + 1 } else { m }),
        ));
    }
}

} // verus!

verus! {

// ---------------------------------------------------------------------------
// Content entries
// ---------------------------------------------------------------------------
/// A canonical content entry, written out and followed by a join newline or
/// the end of input, parses back to itself; the newline is consumed.
pub proof fn lemma_parse_content_exact(s: Seq<char>, i: int, e: SpecContentEntry, nl: bool)
    requires
        canon_content(e),
        matches_at(s, i, spec_render_content(e)),
        nl ==> i + spec_render_content(e).len() < s.len() && s[i + spec_render_content(e).len()]
            == '\n',
        !nl ==> i + spec_render_content(e).len() == s.len(),
    ensures
        spec_parse_content_entry(s, i) == Ok::<(SpecContentEntry, int), int>(
            (
                e,
                if nl {
                    i + spec_render_content(e).len() + 1
                } else {
                    i + spec_render_content(e).len()
                },
            ),
        ),
{
    let r = spec_render_content(e);
    let lpart = match e.locale {
        Some(l) => seq!['['] + spec_render_locale(l) + seq![']'],
        None => Seq::<char>::empty(),
    };
    let join = spec_join_values(e.values);
    assert(r == e.key + lpart + seq!['='] + join);
    assert(matches_at(s, i, e.key + lpart + seq!['='] + join));
    lemma_matches_at_concat(s, i, e.key + lpart + seq!['='], join);
    lemma_matches_at_concat(s, i, e.key + lpart, seq!['=']);
    lemma_matches_at_concat(s, i, e.key, lpart);
    let k0 = i + e.key.len() as int;
    let k1 = k0 + lpart.len() as int;
    let k2 = k1 + 1;
    let m = i + r.len() as int;
    lemma_matches_at_index(s, k1, seq!['='], 0);
    assert(s[k1] == '=');
    // The key runs to the locale bracket or the `=`.
    assert forall|k: int| i <= k < k0 implies key_pred()(s[k]) by {
        lemma_matches_at_index(s, i, e.key, k - i);
    }
    if e.locale is Some {
        lemma_matches_at_index(s, k0, lpart, 0);
        assert(s[k0] == '[');
        assert(!is_key_char('['));
    } else {
        assert(k0 == k1);
        assert(!is_key_char('='));
    }
    lemma_scan_exact(s, i, k0, key_pred());
    assert(s.subrange(i, k0) == e.key);
    // The locale bracket is recognized exactly when the entry has a locale.
    match e.locale {
        Some(l) => {
            let rl = spec_render_locale(l);
            assert(lpart == seq!['['] + rl + seq![']']);
            lemma_matches_at_concat(s, k0, seq!['['] + rl, seq![']']);
            lemma_matches_at_concat(s, k0, seq!['['], rl);
            lemma_matches_at_index(s, k0 + 1 + rl.len(), seq![']'], 0);
            assert(s[k0 + 1 + rl.len()] == ']');
            lemma_render_locale_chars(l);
            assert forall|k: int| k0 + 1 <= k < k0 + 1 + rl.len() implies header_pred()(s[k]) by {
                lemma_matches_at_index(s, k0 + 1, rl, k - (k0 + 1));
            }
            assert(!is_header_char(']'));
            lemma_scan_exact(s, k0 + 1, k0 + 1 + rl.len(), header_pred());
            assert(s.subrange(k0 + 1, k0 + 1 + rl.len() as int) == rl);
            lemma_split_render_locale(l);
            assert(spec_parse_locale_bracket(s, k0) == Some((l, k1)));
        },
        None => {
            assert(s[k0] == '=');
            assert(spec_parse_locale_bracket(s, k0) is None);
        },
    }
    // No in-line whitespace surrounds the `=`.
    assert(!is_space_char('='));
    lemma_scan_exact(s, k1, k1, space_pred());
    if join.len() > 0 {
        let v0 = e.values[0];
        if e.values.len() == 1 {
            assert(join == v0);
            lemma_matches_at_index(s, k2, join, 0);
            assert(join[0] == v0[0]);
            assert(!is_trim_char(v0[0]));
            assert(!is_space_char(s[k2]));
        } else {
            assert(join == v0 + seq![';'] + spec_join_values(e.values.skip(1)));
            lemma_matches_at_index(s, k2, join, 0);
            if v0.len() > 0 {
                assert(join[0] == v0[0]);
                assert(!is_trim_char(v0[0]));
            } else {
                assert(join[0] == ';');
            }
            assert(!is_space_char(s[k2]));
        }
    } else {
        assert(e.values.len() == 0);
        if nl {
            assert(s[k2] == '\n');
            assert(!is_space_char(s[k2]));
        }
    }
    lemma_scan_exact(s, k2, k2, space_pred());
    // The values.
    lemma_parse_value_list_exact(s, k2, e.values, nl);
}

/// A canonical content entry, in position, is recognized as an entry: no
/// comment can be recognized where it starts.
pub proof fn lemma_parse_entry_content(s: Seq<char>, i: int, ce: SpecContentEntry, nl: bool)
    requires
        canon_content(ce),
        matches_at(s, i, spec_render_content(ce)),
        nl ==> i + spec_render_content(ce).len() < s.len() && s[i + spec_render_content(ce).len()]
            == '\n',
        !nl ==> i + spec_render_content(ce).len() == s.len(),
    ensures
        spec_parse_entry(s, i) == Ok::<(SpecEntry, int), int>(
            (
                SpecEntry::Content(ce),
                if nl {
                    i + spec_render_content(ce).len() + 1
                } else {
                    i + spec_render_content(ce).len()
                },
            ),
        ),
{
    lemma_render_entry_first_char(SpecEntry::Content(ce));
    lemma_matches_at_index(s, i, spec_render_content(ce), 0);
    lemma_parse_comment_none(s, i);
    lemma_parse_content_exact(s, i, ce, nl);
}

/// At the start of a rendered group header followed by a newline or the end
/// of input, no entry can be recognized: the locale bracket is read, but the
/// mandatory `=` is missing.
pub proof fn lemma_parse_entry_err_at_group(s: Seq<char>, j: int, h: Seq<char>)
    requires
        canon_header(h),
        0 <= j,
        j + h.len() + 2 <= s.len(),
        s[j] == '[',
        matches_at(s, j + 1, h),
        s[j + 1 + h.len()] == ']',
        j + h.len() + 2 == s.len() || s[j + h.len() + 2] == '\n',
    ensures
        spec_parse_entry(s, j) is Err,
{
    // Not a comment.
    assert(!is_blank_char('['));
    lemma_parse_comment_none(s, j);
    // An empty key.
    assert(!is_key_char('['));
    lemma_scan_exact(s, j, j, key_pred());
    // The locale bracket is read.
    assert forall|k: int| j + 1 <= k < j + 1 + h.len() implies header_pred()(s[k]) by {
        lemma_matches_at_index(s, j + 1, h, k - (j + 1));
    }
    assert(!is_header_char(']'));
    lemma_scan_exact(s, j + 1, j + 1 + h.len(), header_pred());
    // And then no `=` follows.
    let j3 = j + h.len() + 2;
    if j3 < s.len() {
        assert(s[j3] == '\n');
        assert(!is_space_char('\n'));
    }
    lemma_scan_exact(s, j3, j3, space_pred());
}

} // verus!

verus! {

// ---------------------------------------------------------------------------
// Entry lists
// ---------------------------------------------------------------------------
/// A canonical entry list, written with the newline join rule, parses back
/// to itself.  When a join newline follows the list (the group is not the
/// last item), it is consumed by the list's final entry and entry
/// recognition must fail right after it; at the end of the document nothing
/// follows.
pub proof fn lemma_parse_entries_exact(s: Seq<char>, i: int, es: Seq<SpecEntry>, fbn: bool)
    requires
        canon_entry_list(es, fbn),
        matches_at(s, i, spec_render_entries(es)),
        fbn ==> i + spec_render_entries(es).len() < s.len() && s[i + spec_render_entries(es).len()]
            == '\n' && spec_parse_entry(s, i + spec_render_entries(es).len() + 1) is Err,
        !fbn ==> i + spec_render_entries(es).len() == s.len(),
    ensures
        spec_parse_entries(s, i) == (
            es,
            if fbn {
                i + spec_render_entries(es).len() + 1
            } else {
                i + spec_render_entries(es).len()
            },
        ),
    decreases es.len(),
{
    let rr = spec_render_entries(es);
    let l_all = rr.len() as int;
    let jend: int = if fbn {
        i + l_all + 1
    } else {
        i + l_all
    };
    if es.len() == 0 {
        assert(!fbn);
        lemma_parse_entry_err_at_end(s, i);
        assert(spec_parse_entries(s, i) == (Seq::<SpecEntry>::empty(), i));
        assert(Seq::<SpecEntry>::empty() =~= es);
    } else {
        let e = es[0];
        let rest = es.skip(1);
        let re = spec_render_entry(e);
        let sep: Seq<char> = if es.len() > 1 && !spec_entry_is_blank(e) {
            seq!['\n']
        } else {
            Seq::<char>::empty()
        };
        assert(rr == re + sep + spec_render_entries(rest));
        assert(matches_at(s, i, re + sep + spec_render_entries(rest)));
        lemma_matches_at_concat(s, i, re + sep, spec_render_entries(rest));
        lemma_matches_at_concat(s, i, re, sep);
        let after = i + re.len() + sep.len() as int;
        assert(canon_entry(e));
        // The tail is canonical for the same continuation.
        if rest.len() > 0 {
            assert(canon_entry_list(rest, fbn)) by {
                assert(forall|k: int| 0 <= k < rest.len() ==> #[trigger] rest[k] == es[k + 1]);
                assert(rest.last() == es.last());
            }
        }
        // The head entry is recognized, consuming its join newline if any.
        let next: int = match e {
            SpecEntry::Content(ce) => {
                let nl2: bool = rest.len() > 0 || fbn;
                if rest.len() > 0 {
                    lemma_matches_at_index(s, i + re.len(), sep, 0);
                    assert(s[i + re.len()] == '\n');
                } else {
                    assert(sep.len() == 0);
                    assert(spec_render_entries(rest).len() == 0);
                    assert(l_all == re.len());
                }
                lemma_parse_entry_content(s, i, ce, nl2);
                if nl2 {
                    i + re.len() + 1
                } else {
                    i + re.len()
                }
            },
            SpecEntry::Comment(SpecComment::Text(t)) => {
                assert(re == seq!['#', ' '] + t);
                lemma_matches_at_concat(s, i, seq!['#', ' '], t);
                lemma_matches_at_index(s, i, seq!['#', ' '], 0);
                lemma_matches_at_index(s, i, seq!['#', ' '], 1);
                if rest.len() > 0 {
                    lemma_matches_at_index(s, i + re.len(), sep, 0);
                    assert(s[i + 2 + t.len()] == '\n');
                } else {
                    assert(fbn) by {
                        assert(es.last() == e);
                    }
                    assert(l_all == re.len());
                    assert(s[i + 2 + t.len()] == '\n');
                }
                lemma_parse_text_exact(s, i, t);
                lemma_scan_exact(s, i, i, blank_pred());
                assert(spec_parse_entry(s, i) == Ok::<(SpecEntry, int), int>(
                    (SpecEntry::Comment(SpecComment::Text(t)), i + t.len() + 3),
                ));
                i + re.len() + 1
            },
            SpecEntry::Comment(SpecComment::Blank(b)) => {
                assert(re == b);
                assert(sep.len() == 0);
                if rest.len() > 0 {
                    assert(!spec_entry_is_blank(rest[0])) by {
                        assert(es[1int] == rest[0]);
                    }
                    assert(canon_entry(rest[0])) by {
                        assert(es[1int] == rest[0]);
                    }
                    lemma_render_entry_first_char(rest[0]);
                    let rt = spec_render_entries(rest);
                    assert(rt == spec_render_entry(rest[0]) + (if rest.len() > 1
                        && !spec_entry_is_blank(rest[0]) {
                        seq!['\n']
                    } else {
                        Seq::<char>::empty()
                    }) + spec_render_entries(rest.skip(1)));
                    assert(rt[0] == spec_render_entry(rest[0])[0]);
                    lemma_matches_at_index(s, after, rt, 0);
                    assert(!is_blank_char(s[i + b.len()]));
                } else {
                    assert(!fbn) by {
                        assert(es.last() == e);
                    }
                    assert(i + b.len() == s.len());
                }
                lemma_parse_blank_exact(s, i, b);
                i + b.len()
            },
        };
        // The rest of the list follows.
        if rest.len() > 0 {
            assert(matches_at(s, next, spec_render_entries(rest)));
            lemma_parse_entries_exact(s, next, rest, fbn);
        } else {
            assert(next == jend);
            if fbn {
                assert(spec_parse_entry(s, jend) is Err);
            } else {
                lemma_parse_entry_err_at_end(s, jend);
            }
            assert(spec_parse_entries(s, next) == (Seq::<SpecEntry>::empty(), next));
        }
        assert(i < next <= s.len());
        assert(seq![e] + spec_parse_entries(s, next).0 =~= es);
        assert(spec_parse_entries(s, i) == (es, jend));
    }
}

} // verus!

verus! {

// ---------------------------------------------------------------------------
// Top-level lists and documents
// ---------------------------------------------------------------------------
/// The rendering of a canonical non-blank top-level item starts with `[` or
/// `#` — never with a blank character.
pub proof fn lemma_render_top_first_char(t: SpecTopLevelEntry)
    requires
        t matches SpecTopLevelEntry::Comment(c) ==> canon_comment(c),
        !spec_top_is_blank(t),
    ensures
        spec_render_top(t).len() > 0,
        !is_blank_char(spec_render_top(t)[0]),
        spec_render_top(t)[0] == '[' || spec_render_top(t)[0] == '#',
{
    match t {
        SpecTopLevelEntry::Group(g) => {
            assert(spec_render_group(g)[0] == '[');
        },
        SpecTopLevelEntry::Comment(c) => {
            assert(spec_render_comment(c)[0] == '#');
        },
    }
}

/// A canonical top-level list, written with the newline join rule and
/// reaching the end of input, parses back to itself.
pub proof fn lemma_parse_tops_exact(s: Seq<char>, i: int, ts: Seq<SpecTopLevelEntry>)
    requires
        canon_top_list(ts),
        matches_at(s, i, spec_render_tops(ts)),
        i + spec_render_tops(ts).len() == s.len(),
    ensures
        spec_parse_tops(s, i) == (ts, s.len() as int),
    decreases ts.len(),
{
    if ts.len() == 0 {
        lemma_parse_top_err_at_end(s, i);
        assert(spec_parse_tops(s, i) == (Seq::<SpecTopLevelEntry>::empty(), i));
        assert(Seq::<SpecTopLevelEntry>::empty() =~= ts);
    } else {
        let t = ts[0];
        let rest = ts.skip(1);
        let re = spec_render_top(t);
        let sep: Seq<char> = if ts.len() > 1 && !spec_top_is_blank(t) {
            seq!['\n']
        } else {
            Seq::<char>::empty()
        };
        assert(spec_render_tops(ts) == re + sep + spec_render_tops(rest));
        assert(matches_at(s, i, re + sep + spec_render_tops(rest)));
        lemma_matches_at_concat(s, i, re + sep, spec_render_tops(rest));
        lemma_matches_at_concat(s, i, re, sep);
        let after = i + re.len() + sep.len() as int;
        // The tail is canonical on its own.
        if rest.len() > 0 {
            assert(canon_top_list(rest)) by {
                assert forall|k: int|
                    0 <= k < rest.len() implies (match #[trigger] rest[k] {
                    SpecTopLevelEntry::Group(g2) => canon_header(g2.header) && canon_entry_list(
                        g2.content,
                        k < rest.len() - 1,
                    ),
                    SpecTopLevelEntry::Comment(c2) => canon_comment(c2),
                }) by {
                    assert(rest[k] == ts[k + 1]);
                    assert(match ts[k + 1] {
                        SpecTopLevelEntry::Group(g2) => canon_header(g2.header)
                            && canon_entry_list(g2.content, k + 1 < ts.len() - 1),
                        SpecTopLevelEntry::Comment(c2) => canon_comment(c2),
                    });
                }
                assert forall|k: int|
                    0 <= k < rest.len() - 1 implies !(spec_top_is_blank(#[trigger] rest[k])
                    && spec_top_is_blank(rest[k + 1])) by {
                    assert(rest[k] == ts[k + 1] && rest[k + 1] == ts[k + 2]);
                }
                assert forall|a: int, b: int|
                    0 <= a < b < rest.len() && #[trigger] rest[a] is Group implies #[trigger] rest[b] is Group by {
                    assert(rest[a] == ts[a + 1] && rest[b] == ts[b + 1]);
                    assert(ts[a + 1] is Group ==> ts[b + 1] is Group);
                }
                assert(rest.last() == ts.last());
            }
        }
        // The head item is recognized.
        let next: int = match t {
            SpecTopLevelEntry::Comment(SpecComment::Blank(b)) => {
                assert(canon_comment(SpecComment::Blank(b)));
                assert(re == b);
                assert(sep.len() == 0);
                if rest.len() > 0 {
                    assert(!spec_top_is_blank(rest[0])) by {
                        assert(ts[1int] == rest[0]);
                    }
                    assert(match rest[0] {
                        SpecTopLevelEntry::Comment(c2) => canon_comment(c2),
                        _ => true,
                    }) by {
                        assert(ts[1int] == rest[0]);
                    }
                    lemma_render_top_first_char(rest[0]);
                    let rt = spec_render_tops(rest);
                    assert(rt == spec_render_top(rest[0]) + (if rest.len() > 1
                        && !spec_top_is_blank(rest[0]) {
                        seq!['\n']
                    } else {
                        Seq::<char>::empty()
                    }) + spec_render_tops(rest.skip(1)));
                    assert(rt[0] == spec_render_top(rest[0])[0]);
                    lemma_matches_at_index(s, after, rt, 0);
                    assert(!is_blank_char(s[i + b.len()]));
                } else {
                    assert(i + b.len() == s.len());
                }
                lemma_parse_blank_exact(s, i, b);
                lemma_matches_at_index(s, i, b, 0);
                assert(is_blank_char(s[i]));
                assert(s[i] != '[');
                assert(spec_parse_group_header(s, i) is None);
                i + b.len()
            },
            SpecTopLevelEntry::Comment(SpecComment::Text(t2)) => {
                assert(canon_comment(SpecComment::Text(t2)));
                assert(re == seq!['#', ' '] + t2);
                lemma_matches_at_concat(s, i, seq!['#', ' '], t2);
                lemma_matches_at_index(s, i, seq!['#', ' '], 0);
                lemma_matches_at_index(s, i, seq!['#', ' '], 1);
                if rest.len() > 0 {
                    lemma_matches_at_index(s, i + re.len(), sep, 0);
                    assert(s[i + 2 + t2.len()] == '\n');
                } else {
                    assert(!top_is_text(ts.last()));
                    assert(ts.last() == t);
                    assert(false);
                }
                lemma_parse_text_exact(s, i, t2);
                lemma_scan_exact(s, i, i, blank_pred());
                assert(s[i] == '#' && '#' != '[');
                assert(spec_parse_group_header(s, i) is None);
                i + re.len() + 1
            },
            SpecTopLevelEntry::Group(g) => {
                assert(canon_header(g.header) && canon_entry_list(g.content, 0 < ts.len() - 1));
                let h = g.header;
                let rc = spec_render_entries(g.content);
                assert(re == seq!['['] + h + seq![']', '\n'] + rc);
                assert(matches_at(s, i, seq!['['] + h + seq![']', '\n'] + rc));
                lemma_matches_at_concat(s, i, seq!['['] + h + seq![']', '\n'], rc);
                lemma_matches_at_concat(s, i, seq!['['] + h, seq![']', '\n']);
                lemma_matches_at_concat(s, i, seq!['['], h);
                lemma_matches_at_index(s, i, seq!['['], 0);
                lemma_matches_at_index(s, i + 1 + h.len(), seq![']', '\n'], 0);
                lemma_matches_at_index(s, i + 1 + h.len(), seq![']', '\n'], 1);
                assert(s[i] == '[' && s[i + 1 + h.len()] == ']' && s[i + 2 + h.len()] == '\n');
                assert forall|k: int| i + 1 <= k < i + 1 + h.len() implies header_pred()(s[k]) by {
                    lemma_matches_at_index(s, i + 1, h, k - (i + 1));
                }
                assert(!is_header_char(']'));
                lemma_scan_exact(s, i + 1, i + 1 + h.len(), header_pred());
                assert(s.subrange(i + 1, i + 1 + h.len() as int) == h);
                let j = i + h.len() + 3;
                assert(spec_parse_group_header(s, i) == Some((h, j)));
                let jc = j + rc.len() as int;
                assert(jc == i + re.len());
                // The group's entries, with the join newline when another
                // item follows.
                if rest.len() > 0 {
                    lemma_matches_at_index(s, i + re.len(), sep, 0);
                    assert(s[jc] == '\n');
                    let jend = jc + 1;
                    // The next item is a group, and no entry can be
                    // recognized at its header.
                    assert(rest[0] is Group) by {
                        assert(ts[0int] is Group && ts[1int] == rest[0]);
                    }
                    let g2 = rest[0]->Group_0;
                    assert(canon_header(g2.header)) by {
                        assert(ts[1int] == rest[0]);
                    }
                    let rt = spec_render_tops(rest);
                    assert(rt == spec_render_top(rest[0]) + (if rest.len() > 1
                        && !spec_top_is_blank(rest[0]) {
                        seq!['\n']
                    } else {
                        Seq::<char>::empty()
                    }) + spec_render_tops(rest.skip(1)));
                    let h2 = g2.header;
                    let rc2 = spec_render_entries(g2.content);
                    let sep2: Seq<char> = if rest.len() > 1 && !spec_top_is_blank(rest[0]) {
                        seq!['\n']
                    } else {
                        Seq::<char>::empty()
                    };
                    assert(rt == spec_render_top(rest[0]) + sep2 + spec_render_tops(rest.skip(1)));
                    assert(matches_at(s, jend, rt));
                    lemma_matches_at_concat(
                        s,
                        jend,
                        spec_render_top(rest[0]) + sep2,
                        spec_render_tops(rest.skip(1)),
                    );
                    lemma_matches_at_concat(s, jend, spec_render_top(rest[0]), sep2);
                    assert(spec_render_top(rest[0]) == seq!['['] + h2 + seq![']', '\n'] + rc2);
                    lemma_matches_at_concat(s, jend, seq!['['] + h2 + seq![']', '\n'], rc2);
                    lemma_matches_at_concat(s, jend, seq!['['] + h2, seq![']', '\n']);
                    lemma_matches_at_concat(s, jend, seq!['['], h2);
                    lemma_matches_at_index(s, jend, seq!['['], 0);
                    lemma_matches_at_index(s, jend + 1 + h2.len(), seq![']', '\n'], 0);
                    lemma_matches_at_index(s, jend + 1 + h2.len(), seq![']', '\n'], 1);
                    assert(s[jend] == '[');
                    assert(s[jend + 1 + h2.len()] == ']');
                    assert(s[jend + 2 + h2.len()] == '\n');
                    lemma_parse_entry_err_at_group(s, jend, h2);
                    lemma_parse_entries_exact(s, j, g.content, true);
                } else {
                    assert(sep.len() == 0 && spec_render_tops(rest).len() == 0);
                    assert(jc == s.len());
                    lemma_parse_entries_exact(s, j, g.content, false);
                }
                let next0: int = if rest.len() > 0 {
                    jc + 1
                } else {
                    jc
                };
                assert(spec_parse_entries(s, j) == (g.content, next0));
                assert(spec_parse_group(s, i) == Some((g, next0)));
                next0
            },
        };
        // The remaining items follow.
        if rest.len() > 0 {
            assert(matches_at(s, next, spec_render_tops(rest)));
            assert(next + spec_render_tops(rest).len() == s.len());
            lemma_parse_tops_exact(s, next, rest);
        } else {
            assert(next == s.len());
            lemma_parse_top_err_at_end(s, next);
            assert(spec_parse_tops(s, next) == (Seq::<SpecTopLevelEntry>::empty(), next));
        }
        assert(i < next <= s.len());
        assert(seq![t] + spec_parse_tops(s, next).0 =~= ts);
        assert(spec_parse_tops(s, i) == (ts, s.len() as int));
    }
}

/// Parsing is a left inverse of rendering: the rendering of a canonical
/// document — comments and blank-line runs included, verbatim — parses back
/// to exactly that document.
pub proof fn lemma_parse_render_document(d: SpecDesktopFile)
    requires
        canonical_doc(d),
    ensures
        spec_parse_document(spec_render_document(d)) == Ok::<SpecDesktopFile, int>(d),
{
    let s = spec_render_document(d);
    assert(s.subrange(0, s.len() as int) =~= s);
    assert(matches_at(s, 0, spec_render_tops(d.content)));
    lemma_parse_tops_exact(s, 0, d.content);
}

/// Round-trip identity: any text that is the rendering of a canonical
/// document parses successfully, and rendering the parsed document gives
/// the text back, byte for byte.
pub proof fn lemma_round_trip(x: Seq<char>)
    requires
        exists|d: SpecDesktopFile| #[trigger] canonical_doc(d) && x == spec_render_document(d),
    ensures
        spec_parse_document(x) is Ok,
        spec_render_document(spec_parse_document(x)->Ok_0) == x,
{
    let d = choose|d: SpecDesktopFile| #[trigger] canonical_doc(d) && x == spec_render_document(d);
    lemma_parse_render_document(d);
}

} // verus!

verus! {

// ---------------------------------------------------------------------------
// Invariants of parsed documents
// ---------------------------------------------------------------------------
/// What holds of every stored comment that parsing produces: a blank run is
/// never empty and consists of blank characters only — in particular it
/// never holds a `#`.
pub open spec fn wf_stored_comment(c: SpecComment) -> bool {
    match c {
        SpecComment::Blank(b) => canon_blank(b),
        SpecComment::Text(t) => canon_text(t),
    }
}

/// What holds of every stored entry that parsing produces: a content
/// entry's key consists of key characters only — in particular it never
/// holds `[`, `]`, `=` or whitespace.
pub open spec fn wf_stored_entry(e: SpecEntry) -> bool {
    match e {
        SpecEntry::Content(c) => canon_key(c.key),
        SpecEntry::Comment(c) => wf_stored_comment(c),
    }
}

/// What holds of every top-level item that parsing produces.
pub open spec fn wf_stored_top(t: SpecTopLevelEntry) -> bool {
    match t {
        SpecTopLevelEntry::Group(g) => forall|k: int|
            0 <= k < g.content.len() ==> wf_stored_entry(#[trigger] g.content[k]),
        SpecTopLevelEntry::Comment(c) => wf_stored_comment(c),
    }
}

/// What holds of every document that parsing produces.
pub open spec fn wf_stored_doc(d: SpecDesktopFile) -> bool {
    forall|k: int| 0 <= k < d.content.len() ==> wf_stored_top(#[trigger] d.content[k])
}

/// Every comment that parsing recognizes is well-formed.
proof fn lemma_parse_comment_wf(s: Seq<char>, i: int)
    requires
        0 <= i <= s.len(),
    ensures
        spec_parse_comment(s, i) matches Some(r) ==> wf_stored_comment(r.0),
{
    lemma_scan(s, i, blank_pred());
    if i < s.len() && s[i] == '#' {
        lemma_scan(s, i + 1, space_pred());
        let j = crate::parser::grammar::scan(s, i + 1, space_pred());
        lemma_scan(s, j, body_pred());
    }
}

/// Every content entry that parsing recognizes has a well-formed key.
proof fn lemma_parse_content_wf(s: Seq<char>, i: int)
    requires
        0 <= i <= s.len(),
    ensures
        spec_parse_content_entry(s, i) matches Ok(r) ==> canon_key(r.0.key),
{
    lemma_scan(s, i, key_pred());
}

/// Every entry that parsing recognizes is well-formed.
proof fn lemma_parse_entry_wf(s: Seq<char>, i: int)
    requires
        0 <= i <= s.len(),
    ensures
        spec_parse_entry(s, i) matches Ok(r) ==> wf_stored_entry(r.0),
{
    lemma_parse_comment_wf(s, i);
    lemma_parse_content_wf(s, i);
}

/// Every entry list that parsing recognizes is well-formed throughout.
proof fn lemma_parse_entries_wf(s: Seq<char>, i: int)
    requires
        0 <= i <= s.len(),
    ensures
        forall|k: int|
            0 <= k < spec_parse_entries(s, i).0.len() ==> wf_stored_entry(
                #[trigger] spec_parse_entries(s, i).0[k],
            ),
    decreases s.len() - i,
{
    lemma_parse_entry_wf(s, i);
    match spec_parse_entry(s, i) {
        Ok((e, j)) => {
            if i < j <= s.len() {
                lemma_parse_entries_wf(s, j);
                let rest = spec_parse_entries(s, j).0;
                assert forall|k: int|
                    0 <= k < spec_parse_entries(s, i).0.len() implies wf_stored_entry(
                    #[trigger] spec_parse_entries(s, i).0[k],
                ) by {
                    if k == 0 {
                        assert(spec_parse_entries(s, i).0[k] == e);
                    } else {
                        assert(spec_parse_entries(s, i).0[k] == rest[k - 1]);
                    }
                }
            }
        },
        Err(_) => {},
    }
}

/// Every top-level list that parsing recognizes is well-formed throughout.
proof fn lemma_parse_tops_wf(s: Seq<char>, i: int)
    requires
        0 <= i <= s.len(),
    ensures
        forall|k: int|
            0 <= k < spec_parse_tops(s, i).0.len() ==> wf_stored_top(
                #[trigger] spec_parse_tops(s, i).0[k],
            ),
    decreases s.len() - i,
{
    match spec_parse_top_level(s, i) {
        Ok((t, j)) => {
            match spec_parse_group(s, i) {
                Some((g, _)) => {
                    match spec_parse_group_header(s, i) {
                        Some((h, jh)) => {
                            if 0 <= jh <= s.len() {
                                lemma_parse_entries_wf(s, jh);
                            }
                        },
                        None => {},
                    }
                },
                None => {
                    lemma_parse_comment_wf(s, i);
                },
            }
            if i < j <= s.len() {
                lemma_parse_tops_wf(s, j);
                let rest = spec_parse_tops(s, j).0;
                assert forall|k: int|
                    0 <= k < spec_parse_tops(s, i).0.len() implies wf_stored_top(
                    #[trigger] spec_parse_tops(s, i).0[k],
                ) by {
                    if k == 0 {
                        assert(spec_parse_tops(s, i).0[k] == t);
                    } else {
                        assert(spec_parse_tops(s, i).0[k] == rest[k - 1]);
                    }
                }
            }
        },
        Err(_) => {},
    }
}

/// The data-model invariants hold of every parsed document: a blank run is
/// never empty, consists of blank characters only and so never holds `#`,
/// and a content entry's key never holds `[`, `]`, `=` or whitespace.
pub proof fn lemma_parse_document_wf(s: Seq<char>)
    ensures
        spec_parse_document(s) matches Ok(d) ==> wf_stored_doc(d),
{
    lemma_parse_tops_wf(s, 0);
}

} // verus!
