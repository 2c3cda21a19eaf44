//! The grammar, as mathematics: a deterministic recursive-descent description
//! of how raw text decomposes into the document model.
//!
//! At every entry position, comment recognition (a blank run first, then a
//! `#` line) is attempted before content-entry recognition, and the locale
//! bracket after a key is attempted opportunistically, falling back to a
//! locale-less key.  A parse failure carries the offending position.

use vstd::prelude::*;

use crate::parser::models::SpecComment;
use crate::parser::models::SpecContentEntry;
use crate::parser::models::SpecDesktopFile;
use crate::parser::models::SpecEntry;
use crate::parser::models::SpecGroup;
use crate::parser::models::SpecLocale;
use crate::parser::models::SpecTopLevelEntry;

verus! {

// ---------------------------------------------------------------------------
// Character classes
// ---------------------------------------------------------------------------
/// Whitespace that forms a blank run: space, tab, carriage return, newline.
pub open spec fn is_blank_char(c: char) -> bool {
    c == ' ' || c == '\t' || c == '\r' || c == '\n'
}

/// In-line whitespace: space and tab.
pub open spec fn is_space_char(c: char) -> bool {
    c == ' ' || c == '\t'
}

/// The characters a key may consist of: ASCII alphanumerics and `-`.
pub open spec fn is_key_char(c: char) -> bool {
    ('a' <= c && c <= 'z') || ('A' <= c && c <= 'Z') || ('0' <= c && c <= '9') || c == '-'
}

/// The characters allowed between the brackets of a header or locale.
pub open spec fn is_header_char(c: char) -> bool {
    c != '[' && c != ']'
}

/// An ASCII character.
pub open spec fn is_ascii_char(c: char) -> bool {
    (c as u32) < 128
}

/// The characters a text comment body may consist of: ASCII, but no newline.
pub open spec fn is_body_char(c: char) -> bool {
    is_ascii_char(c) && c != '\n'
}

/// The characters a raw value chunk may consist of: anything but the escape
/// lead-in, the value separator and the line end.
pub open spec fn is_chunk_char(c: char) -> bool {
    c != '\\' && c != ';' && c != '\n'
}

/// The whitespace trimmed from both ends of a decoded value.
pub open spec fn is_trim_char(c: char) -> bool {
    c == ' ' || c == '\t' || c == '\n' || c == '\r' || c == '\u{b}' || c == '\u{c}'
}

// ---------------------------------------------------------------------------
// Maximal-munch scanning
// ---------------------------------------------------------------------------
/// The first position at or after `i` whose character fails `f`, or the end.
pub open spec fn scan(s: Seq<char>, i: int, f: spec_fn(char) -> bool) -> int
    decreases s.len() - i,
{
    if i < 0 || i >= s.len() {
        i
    } else if f(s[i]) {
        scan(s, i + 1, f)
    } else {
        i
    }
}

/// What [`scan`] returns: the maximal run of `f`-characters from `i`.
pub proof fn lemma_scan(s: Seq<char>, i: int, f: spec_fn(char) -> bool)
    requires
        0 <= i <= s.len(),
    ensures
        i <= scan(s, i, f) <= s.len(),
        forall|k: int| i <= k < scan(s, i, f) ==> f(s[k]),
        scan(s, i, f) < s.len() ==> !f(s[scan(s, i, f)]),
    decreases s.len() - i,
{
    if i < s.len() && f(s[i]) {
        lemma_scan(s, i + 1, f);
    }
}

/// A run of `f`-characters over `[i, j)` with a failing boundary pins the scan.
pub proof fn lemma_scan_exact(s: Seq<char>, i: int, j: int, f: spec_fn(char) -> bool)
    requires
        0 <= i <= j <= s.len(),
        forall|k: int| i <= k < j ==> f(s[k]),
        j == s.len() || !f(s[j]),
    ensures
        scan(s, i, f) == j,
    decreases j - i,
{
    if i < j {
        lemma_scan_exact(s, i + 1, j, f);
    }
}

/// The blank-run character class, as a function value, so that every mention
/// of its scan is one and the same term.
pub open spec fn blank_pred() -> spec_fn(char) -> bool {
    |c: char| is_blank_char(c)
}

/// The in-line whitespace class, as a function value.
pub open spec fn space_pred() -> spec_fn(char) -> bool {
    |c: char| is_space_char(c)
}

/// The key character class, as a function value.
pub open spec fn key_pred() -> spec_fn(char) -> bool {
    |c: char| is_key_char(c)
}

/// The bracket-content character class, as a function value.
pub open spec fn header_pred() -> spec_fn(char) -> bool {
    |c: char| is_header_char(c)
}

/// The comment-body character class, as a function value.
pub open spec fn body_pred() -> spec_fn(char) -> bool {
    |c: char| is_body_char(c)
}

/// The trimmed-whitespace class, as a function value.
pub open spec fn trim_pred() -> spec_fn(char) -> bool {
    |c: char| is_trim_char(c)
}

/// The value-chunk character class, as a function value.
pub open spec fn chunk_pred() -> spec_fn(char) -> bool {
    |c: char| is_chunk_char(c)
}

/// Everything up to the first locale separator (`_`, `.` or `@`).
pub open spec fn lang_pred() -> spec_fn(char) -> bool {
    |c: char| c != '_' && c != '.' && c != '@'
}

/// Everything up to a `.` or `@`.
pub open spec fn country_pred() -> spec_fn(char) -> bool {
    |c: char| c != '.' && c != '@'
}

/// Everything up to a `@`.
pub open spec fn encoding_pred() -> spec_fn(char) -> bool {
    |c: char| c != '@'
}

// ---------------------------------------------------------------------------
// Comments
// ---------------------------------------------------------------------------
/// A blank run: one or more blank characters, taken verbatim.
pub open spec fn spec_parse_blank(s: Seq<char>, i: int) -> Option<(SpecComment, int)> {
    let j = scan(s, i, blank_pred());
    if j > i {
        Some((SpecComment::Blank(s.subrange(i, j)), j))
    } else {
        None
    }
}

/// A text comment: `#`, any in-line whitespace (stripped), an ASCII body up
/// to a mandatory newline.
pub open spec fn spec_parse_text_comment(s: Seq<char>, i: int) -> Option<(SpecComment, int)> {
    if i < s.len() && s[i] == '#' {
        let j = scan(s, i + 1, space_pred());
        let k = scan(s, j, body_pred());
        if k < s.len() && s[k] == '\n' {
            Some((SpecComment::Text(s.subrange(j, k)), k + 1))
        } else {
            None
        }
    } else {
        None
    }
}

/// A comment entry: a blank run if possible, else a text comment.
pub open spec fn spec_parse_comment(s: Seq<char>, i: int) -> Option<(SpecComment, int)> {
    match spec_parse_blank(s, i) {
        Some(r) => Some(r),
        None => spec_parse_text_comment(s, i),
    }
}

// ---------------------------------------------------------------------------
// Locales
// ---------------------------------------------------------------------------
/// Splits the raw text between locale brackets along the
/// `lang_COUNTRY.ENCODING@MODIFIER` syntax.  Total: every raw text splits.
pub open spec fn spec_split_locale(raw: Seq<char>) -> SpecLocale {
    let a = scan(raw, 0, lang_pred());
    let b = if a < raw.len() && raw[a] == '_' {
        scan(raw, a + 1, country_pred())
    } else {
        a
    };
    let c = if b < raw.len() && raw[b] == '.' {
        scan(raw, b + 1, encoding_pred())
    } else {
        b
    };
    SpecLocale {
        lang: raw.subrange(0, a),
        country: if a < raw.len() && raw[a] == '_' {
            Some(raw.subrange(a + 1, b))
        } else {
            None
        },
        encoding: if b < raw.len() && raw[b] == '.' {
            Some(raw.subrange(b + 1, c))
        } else {
            None
        },
        modifiers: if c < raw.len() && raw[c] == '@' {
            Some(raw.subrange(c + 1, raw.len() as int))
        } else {
            None
        },
    }
}

/// A bracketed locale after a key: `[`, bracket content, `]`.
pub open spec fn spec_parse_locale_bracket(s: Seq<char>, i: int) -> Option<(SpecLocale, int)> {
    if i < s.len() && s[i] == '[' {
        let j = scan(s, i + 1, header_pred());
        if j < s.len() && s[j] == ']' {
            Some((spec_split_locale(s.subrange(i + 1, j)), j + 1))
        } else {
            None
        }
    } else {
        None
    }
}

// ---------------------------------------------------------------------------
// Values
// ---------------------------------------------------------------------------
/// What a two-character escape sequence decodes to, or `None` when the
/// character after the backslash is not one of `n r s t \ ;`.
pub open spec fn spec_escape_char(c: char) -> Option<char> {
    if c == 'n' {
        Some('\n')
    } else if c == 'r' {
        Some('\r')
    } else if c == 's' {
        Some(' ')
    } else if c == 't' {
        Some('\t')
    } else if c == '\\' {
        Some('\\')
    } else if c == ';' {
        Some(';')
    } else {
        None
    }
}

/// The decoded characters of one value: chunks of plain characters and
/// decoded escapes, up to an unescaped `;`, a newline or the end of input,
/// none of which is consumed.  A malformed escape is an error.
pub open spec fn spec_value_chars(s: Seq<char>, i: int) -> Result<(Seq<char>, int), int>
    decreases s.len() - i,
{
    if i < 0 || i >= s.len() {
        Ok((Seq::<char>::empty(), i))
    } else if s[i] == ';' || s[i] == '\n' {
        Ok((Seq::<char>::empty(), i))
    } else if s[i] == '\\' {
        if i + 1 < s.len() {
            match spec_escape_char(s[i + 1]) {
                Some(d) => match spec_value_chars(s, i + 2) {
                    Ok((rest, j)) => Ok((seq![d] + rest, j)),
                    Err(p) => Err(p),
                },
                None => Err(i),
            }
        } else {
            Err(i)
        }
    } else {
        match spec_value_chars(s, i + 1) {
            Ok((rest, j)) => Ok((seq![s[i]] + rest, j)),
            Err(p) => Err(p),
        }
    }
}

/// A run of plain chunk characters contributes itself, verbatim, to the
/// decoded value.
pub proof fn lemma_value_chars_chunk(s: Seq<char>, i: int, j: int)
    requires
        0 <= i <= j <= s.len(),
        forall|k: int| i <= k < j ==> is_chunk_char(s[k]),
    ensures
        match spec_value_chars(s, j) {
            Ok((rest, end)) => spec_value_chars(s, i) == Ok::<(Seq<char>, int), int>(
                (s.subrange(i, j) + rest, end),
            ),
            Err(p) => spec_value_chars(s, i) == Err::<(Seq<char>, int), int>(p),
        },
    decreases j - i,
{
    if i == j {
        match spec_value_chars(s, j) {
            Ok((rest, end)) => {
                assert(s.subrange(i, j) + rest =~= rest);
            },
            Err(_) => {},
        }
    } else {
        lemma_value_chars_chunk(s, i + 1, j);
        match spec_value_chars(s, j) {
            Ok((rest, end)) => {
                assert(seq![s[i]] + (s.subrange(i + 1, j) + rest) =~= s.subrange(i, j) + rest);
            },
            Err(_) => {},
        }
    }
}

/// The position after stripping trailing trimmed whitespace from `v[..j]`.
pub open spec fn trim_end(v: Seq<char>, j: int) -> int
    decreases j,
{
    if 0 < j <= v.len() && is_trim_char(v[j - 1]) {
        trim_end(v, j - 1)
    } else {
        j
    }
}

/// What [`trim_end`] returns: the end of `v[..j]` after stripping the
/// maximal trailing run of trimmed whitespace.
pub proof fn lemma_trim_end(v: Seq<char>, j: int)
    requires
        0 <= j <= v.len(),
    ensures
        0 <= trim_end(v, j) <= j,
        forall|k: int| trim_end(v, j) <= k < j ==> is_trim_char(v[k]),
        trim_end(v, j) > 0 ==> !is_trim_char(v[trim_end(v, j) - 1]),
    decreases j,
{
    if 0 < j && is_trim_char(v[j - 1]) {
        lemma_trim_end(v, j - 1);
    }
}

/// `v` without leading and trailing trimmed whitespace.
pub open spec fn spec_trim(v: Seq<char>) -> Seq<char> {
    let a = scan(v, 0, trim_pred());
    if a == v.len() {
        Seq::<char>::empty()
    } else {
        v.subrange(a, trim_end(v, v.len() as int))
    }
}

/// One value: its decoded characters, trimmed, and an optional trailing `;`,
/// which is consumed.
pub open spec fn spec_parse_single_value(s: Seq<char>, i: int) -> Result<(Seq<char>, int), int> {
    match spec_value_chars(s, i) {
        Ok((raw, j)) => {
            let v = spec_trim(raw);
            if j < s.len() && s[j] == ';' {
                Ok((v, j + 1))
            } else {
                Ok((v, j))
            }
        },
        Err(p) => Err(p),
    }
}

/// The value list of an entry: values until a line ending (`\n` or `\r\n`,
/// consumed) or the end of input.  A step that consumes nothing stops the
/// list; this mirrors the zero-consumption check of iterated parsing.
pub open spec fn spec_parse_value_list(s: Seq<char>, i: int) -> Result<(Seq<Seq<char>>, int), int>
    decreases s.len() - i,
{
    if i < 0 || i >= s.len() {
        Ok((Seq::<Seq<char>>::empty(), i))
    } else if s[i] == '\n' {
        Ok((Seq::<Seq<char>>::empty(), i + 1))
    } else if s[i] == '\r' && i + 1 < s.len() && s[i + 1] == '\n' {
        Ok((Seq::<Seq<char>>::empty(), i + 2))
    } else {
        match spec_parse_single_value(s, i) {
            Err(p) => Err(p),
            Ok((v, j)) => if i < j <= s.len() {
                match spec_parse_value_list(s, j) {
                    Ok((vs, k)) => Ok((seq![v] + vs, k)),
                    Err(p) => Err(p),
                }
            } else {
                Err(i)
            },
        }
    }
}

/// Where decoding one value stops: at an unescaped `;`, a newline, or the
/// end of input.
proof fn lemma_value_chars_stop(s: Seq<char>, i: int)
    requires
        0 <= i <= s.len(),
    ensures
        match spec_value_chars(s, i) {
            Ok(a) => i <= a.1 <= s.len() && (a.1 == s.len() || s[a.1] == ';' || s[a.1] == '\n'),
            Err(_) => true,
        },
    decreases s.len() - i,
{
    if i < s.len() && s[i] != ';' && s[i] != '\n' {
        if s[i] == '\\' {
            if i + 1 < s.len() && spec_escape_char(s[i + 1]) is Some {
                lemma_value_chars_stop(s, i + 2);
            }
        } else {
            lemma_value_chars_stop(s, i + 1);
        }
    }
}

/// Decoding reads the same characters whether or not one `;` is appended to
/// the text, provided the text holds no newline and does not end with a
/// backslash.
proof fn lemma_value_chars_semi(v: Seq<char>, i: int)
    requires
        0 <= i <= v.len(),
        forall|k: int| 0 <= k < v.len() ==> v[k] != '\n',
        v.len() > 0 ==> v[v.len() - 1] != '\\',
    ensures
        match (spec_value_chars(v, i), spec_value_chars(v + seq![';'], i)) {
            (Ok(a), Ok(b)) => a == b && a.1 <= v.len(),
            (Err(p), Err(q)) => p == q,
            _ => false,
        },
    decreases v.len() - i,
{
    let w = v + seq![';'];
    if i == v.len() {
        assert(w[i] == ';');
    } else {
        assert(w[i] == v[i]);
        if v[i] == ';' {
        } else if v[i] == '\\' {
            assert(i + 1 < v.len());
            assert(w[i + 1] == v[i + 1]);
            match spec_escape_char(v[i + 1]) {
                Some(_) => {
                    lemma_value_chars_semi(v, i + 2);
                },
                None => {},
            }
        } else {
            lemma_value_chars_semi(v, i + 1);
        }
    }
}

/// The value list reads the same values whether or not one `;` is appended,
/// the appended separator being consumed by the final value.
proof fn lemma_value_list_semi(v: Seq<char>, i: int)
    requires
        0 <= i < v.len(),
        forall|k: int| 0 <= k < v.len() ==> v[k] != '\n',
        v[v.len() - 1] != ';',
        v[v.len() - 1] != '\\',
    ensures
        match (spec_parse_value_list(v, i), spec_parse_value_list(v + seq![';'], i)) {
            (Ok(a), Ok(b)) => a.0 == b.0 && a.1 == v.len() && b.1 == v.len() + 1,
            (Err(p), Err(q)) => p == q,
            _ => false,
        },
    decreases v.len() - i,
{
    let w = v + seq![';'];
    assert(w[i] == v[i] && v[i] != '\n');
    if v[i] == '\r' {
        if i + 1 < v.len() {
            assert(w[i + 1] == v[i + 1]);
        } else {
            assert(w[i + 1] == ';');
        }
    }
    lemma_value_chars_semi(v, i);
    lemma_value_chars_stop(v, i);
    match spec_value_chars(v, i) {
        Err(_) => {},
        Ok((raw, j)) => {
            if j < v.len() {
                assert(v[j] == ';');
                assert(w[j] == ';');
                assert(j + 1 < v.len()) by {
                    if j + 1 == v.len() {
                        assert(v[v.len() - 1] == ';');
                    }
                }
                lemma_value_list_semi(v, j + 1);
            } else {
                assert(w[j] == ';');
                assert(spec_parse_value_list(v, j) == Ok::<(Seq<Seq<char>>, int), int>(
                    (Seq::<Seq<char>>::empty(), j),
                ));
                assert(spec_parse_value_list(w, j + 1) == Ok::<(Seq<Seq<char>>, int), int>(
                    (Seq::<Seq<char>>::empty(), j + 1),
                ));
            }
        },
    }
}

/// One trailing unescaped separator is insignificant: a value-list text that
/// holds no newline and ends in neither `;` nor `\` yields the same value
/// sequence with and without one `;` appended, and both texts fail alike.
pub proof fn lemma_trailing_separator(v: Seq<char>)
    requires
        v.len() > 0,
        forall|k: int| 0 <= k < v.len() ==> v[k] != '\n',
        v[v.len() - 1] != ';',
        v[v.len() - 1] != '\\',
    ensures
        match (spec_parse_value_list(v, 0), spec_parse_value_list(v + seq![';'], 0)) {
            (Ok(a), Ok(b)) => a.0 == b.0,
            (Err(p), Err(q)) => p == q,
            _ => false,
        },
{
    lemma_value_list_semi(v, 0);
}

// ---------------------------------------------------------------------------
// Entries, groups, documents
// ---------------------------------------------------------------------------
/// A content entry: a key (possibly empty), an opportunistic locale bracket,
/// in-line whitespace, `=`, in-line whitespace, then the value list.
pub open spec fn spec_parse_content_entry(s: Seq<char>, i: int) -> Result<
    (SpecContentEntry, int),
    int,
> {
    let j = scan(s, i, key_pred());
    let key = s.subrange(i, j);
    let j2 = match spec_parse_locale_bracket(s, j) {
        Some((l, p)) => p,
        None => j,
    };
    let locale = match spec_parse_locale_bracket(s, j) {
        Some((l, p)) => Some(l),
        None => None,
    };
    let j3 = scan(s, j2, space_pred());
    if j3 < s.len() && s[j3] == '=' {
        let j4 = scan(s, j3 + 1, space_pred());
        match spec_parse_value_list(s, j4) {
            Ok((vs, j5)) => Ok((SpecContentEntry { key, values: vs, locale }, j5)),
            Err(p) => Err(p),
        }
    } else {
        Err(j3)
    }
}

/// An in-group entry: a comment if one can be recognized, else a content
/// entry.
pub open spec fn spec_parse_entry(s: Seq<char>, i: int) -> Result<(SpecEntry, int), int> {
    match spec_parse_comment(s, i) {
        Some((c, j)) => Ok((SpecEntry::Comment(c), j)),
        None => match spec_parse_content_entry(s, i) {
            Ok((e, j)) => Ok((SpecEntry::Content(e), j)),
            Err(p) => Err(p),
        },
    }
}

/// As many in-group entries as can be recognized, and the position where
/// recognition stopped.
pub open spec fn spec_parse_entries(s: Seq<char>, i: int) -> (Seq<SpecEntry>, int)
    decreases s.len() - i,
{
    if 0 <= i <= s.len() {
        match spec_parse_entry(s, i) {
            Ok((e, j)) => if i < j <= s.len() {
                let (rest, k) = spec_parse_entries(s, j);
                (seq![e] + rest, k)
            } else {
                (Seq::<SpecEntry>::empty(), i)
            },
            Err(_) => (Seq::<SpecEntry>::empty(), i),
        }
    } else {
        (Seq::<SpecEntry>::empty(), i)
    }
}

/// A group header: `[`, bracket content, `]`, and an optional newline,
/// which is consumed.
pub open spec fn spec_parse_group_header(s: Seq<char>, i: int) -> Option<(Seq<char>, int)> {
    if i < s.len() && s[i] == '[' {
        let j = scan(s, i + 1, header_pred());
        if j < s.len() && s[j] == ']' {
            if j + 1 < s.len() && s[j + 1] == '\n' {
                Some((s.subrange(i + 1, j), j + 2))
            } else {
                Some((s.subrange(i + 1, j), j + 1))
            }
        } else {
            None
        }
    } else {
        None
    }
}

/// A group: its header, then as many entries as can be recognized.
pub open spec fn spec_parse_group(s: Seq<char>, i: int) -> Option<(SpecGroup, int)> {
    match spec_parse_group_header(s, i) {
        Some((h, j)) => {
            let (es, k) = spec_parse_entries(s, j);
            Some((SpecGroup { header: h, content: es }, k))
        },
        None => None,
    }
}

/// A top-level item: a group if one can be recognized, else a comment.
pub open spec fn spec_parse_top_level(s: Seq<char>, i: int) -> Result<(SpecTopLevelEntry, int), int> {
    match spec_parse_group(s, i) {
        Some((g, j)) => Ok((SpecTopLevelEntry::Group(g), j)),
        None => match spec_parse_comment(s, i) {
            Some((c, j)) => Ok((SpecTopLevelEntry::Comment(c), j)),
            None => Err(i),
        },
    }
}

/// As many top-level items as can be recognized, and the position where
/// recognition stopped.
pub open spec fn spec_parse_tops(s: Seq<char>, i: int) -> (Seq<SpecTopLevelEntry>, int)
    decreases s.len() - i,
{
    if 0 <= i <= s.len() {
        match spec_parse_top_level(s, i) {
            Ok((t, j)) => if i < j <= s.len() {
                let (rest, k) = spec_parse_tops(s, j);
                (seq![t] + rest, k)
            } else {
                (Seq::<SpecTopLevelEntry>::empty(), i)
            },
            Err(_) => (Seq::<SpecTopLevelEntry>::empty(), i),
        }
    } else {
        (Seq::<SpecTopLevelEntry>::empty(), i)
    }
}

/// A whole document: every top-level item, with nothing left over.  The
/// error carries the position of the first text that is not an item.
pub open spec fn spec_parse_document(s: Seq<char>) -> Result<SpecDesktopFile, int> {
    let (items, j) = spec_parse_tops(s, 0);
    if j == s.len() {
        Ok(SpecDesktopFile { content: items })
    } else {
        Err(j)
    }
}

} // verus!
