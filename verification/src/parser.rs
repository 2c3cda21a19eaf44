//! The parser: turning raw text into the document model, exactly as the
//! grammar in [`grammar`] describes.

use vstd::prelude::*;

pub mod grammar;
pub mod lookup;
pub mod models;
pub mod render;
pub mod roundtrip;

use vstd::utf8::decode_utf8;
use vstd::utf8::encode_utf8;
use vstd::utf8::valid_utf8;

use crate::parser::grammar::blank_pred;
use crate::parser::grammar::body_pred;
use crate::parser::grammar::chunk_pred;
use crate::parser::grammar::lemma_scan;
use crate::parser::grammar::lemma_trim_end;
use crate::parser::grammar::lemma_value_chars_chunk;
use crate::parser::grammar::spec_escape_char;
use crate::parser::grammar::spec_parse_content_entry;
use crate::parser::grammar::spec_parse_document;
use crate::parser::grammar::spec_parse_entries;
use crate::parser::grammar::spec_parse_entry;
use crate::parser::grammar::spec_parse_group;
use crate::parser::grammar::spec_parse_group_header;
use crate::parser::grammar::spec_parse_single_value;
use crate::parser::grammar::spec_parse_top_level;
use crate::parser::grammar::spec_parse_tops;
use crate::parser::grammar::spec_parse_value_list;
use crate::parser::grammar::spec_trim;
use crate::parser::grammar::spec_value_chars;
use crate::parser::grammar::trim_end;
use crate::parser::grammar::trim_pred;
use crate::parser::grammar::country_pred;
use crate::parser::grammar::encoding_pred;
use crate::parser::grammar::header_pred;
use crate::parser::grammar::is_blank_char;
use crate::parser::grammar::is_body_char;
use crate::parser::grammar::is_chunk_char;
use crate::parser::grammar::is_header_char;
use crate::parser::grammar::is_key_char;
use crate::parser::grammar::is_space_char;
use crate::parser::grammar::is_trim_char;
use crate::parser::grammar::key_pred;
use crate::parser::grammar::lang_pred;
use crate::parser::grammar::scan;
use crate::parser::grammar::space_pred;
use crate::parser::grammar::spec_parse_blank;
use crate::parser::grammar::spec_parse_comment;
use crate::parser::grammar::spec_parse_locale_bracket;
use crate::parser::grammar::spec_parse_text_comment;
use crate::parser::grammar::spec_split_locale;
use crate::parser::models::CommentEntry;
use crate::parser::models::ContentEntry;
use crate::parser::models::DesktopFile;
use crate::parser::models::Entry;
use crate::parser::models::Group;
use crate::parser::models::Locale;
use crate::parser::models::SpecContentEntry;
use crate::parser::models::SpecDesktopFile;
use crate::parser::models::SpecEntry;
use crate::parser::models::SpecTopLevelEntry;
use crate::parser::models::TopLevelEntry;

verus! {

// ---------------------------------------------------------------------------
// Character classes, executably
// ---------------------------------------------------------------------------
/// Executable test for [`is_blank_char`].
pub fn blank_char(c: char) -> (r: bool)
    ensures
        r == is_blank_char(c),
{
    c == ' ' || c == '\t' || c == '\r' || c == '\n'
}

/// Executable test for [`is_space_char`].
pub fn space_char(c: char) -> (r: bool)
    ensures
        r == is_space_char(c),
{
    c == ' ' || c == '\t'
}

/// Executable test for [`is_key_char`].
pub fn key_char(c: char) -> (r: bool)
    ensures
        r == is_key_char(c),
{
    ('a' <= c && c <= 'z') || ('A' <= c && c <= 'Z') || ('0' <= c && c <= '9') || c == '-'
}

/// Executable test for [`is_header_char`].
pub fn header_char(c: char) -> (r: bool)
    ensures
        r == is_header_char(c),
{
    c != '[' && c != ']'
}

/// Executable test for [`is_body_char`].
pub fn body_char(c: char) -> (r: bool)
    ensures
        r == is_body_char(c),
{
    (c as u32) < 128 && c != '\n'
}

/// Executable test for [`is_chunk_char`].
pub fn chunk_char(c: char) -> (r: bool)
    ensures
        r == is_chunk_char(c),
{
    c != '\\' && c != ';' && c != '\n'
}

/// Executable test for [`is_trim_char`].
pub fn trim_char(c: char) -> (r: bool)
    ensures
        r == is_trim_char(c),
{
    c == ' ' || c == '\t' || c == '\n' || c == '\r' || c == '\u{b}' || c == '\u{c}'
}

// ---------------------------------------------------------------------------
// Scanning
// ---------------------------------------------------------------------------
/// Scans past blank characters from `i`.
fn scan_blank(s: &str, i: usize) -> (r: usize)
    requires
        i <= s@.len(),
    ensures
        r == scan(s@, i as int, blank_pred()),
        i <= r <= s@.len(),
{
    let n = s.unicode_len();
    let mut j = i;
    while j < n && blank_char(s.get_char(j))
        invariant
            i <= j <= n,
            n == s@.len(),
            scan(s@, i as int, blank_pred()) == scan(s@, j as int, blank_pred()),
        decreases n - j,
    {
        j = j + 1;
    }
    j
}

/// Scans past in-line whitespace from `i`.
fn scan_space(s: &str, i: usize) -> (r: usize)
    requires
        i <= s@.len(),
    ensures
        r == scan(s@, i as int, space_pred()),
        i <= r <= s@.len(),
{
    let n = s.unicode_len();
    let mut j = i;
    while j < n && space_char(s.get_char(j))
        invariant
            i <= j <= n,
            n == s@.len(),
            scan(s@, i as int, space_pred()) == scan(s@, j as int, space_pred()),
        decreases n - j,
    {
        j = j + 1;
    }
    j
}

/// Scans past key characters from `i`.
fn scan_key(s: &str, i: usize) -> (r: usize)
    requires
        i <= s@.len(),
    ensures
        r == scan(s@, i as int, key_pred()),
        i <= r <= s@.len(),
{
    let n = s.unicode_len();
    let mut j = i;
    while j < n && key_char(s.get_char(j))
        invariant
            i <= j <= n,
            n == s@.len(),
            scan(s@, i as int, key_pred()) == scan(s@, j as int, key_pred()),
        decreases n - j,
    {
        j = j + 1;
    }
    j
}

/// Scans past bracket-content characters from `i`.
fn scan_header(s: &str, i: usize) -> (r: usize)
    requires
        i <= s@.len(),
    ensures
        r == scan(s@, i as int, header_pred()),
        i <= r <= s@.len(),
{
    let n = s.unicode_len();
    let mut j = i;
    while j < n && header_char(s.get_char(j))
        invariant
            i <= j <= n,
            n == s@.len(),
            scan(s@, i as int, header_pred()) == scan(s@, j as int, header_pred()),
        decreases n - j,
    {
        j = j + 1;
    }
    j
}

/// Scans past comment-body characters from `i`.
fn scan_body(s: &str, i: usize) -> (r: usize)
    requires
        i <= s@.len(),
    ensures
        r == scan(s@, i as int, body_pred()),
        i <= r <= s@.len(),
{
    let n = s.unicode_len();
    let mut j = i;
    while j < n && body_char(s.get_char(j))
        invariant
            i <= j <= n,
            n == s@.len(),
            scan(s@, i as int, body_pred()) == scan(s@, j as int, body_pred()),
        decreases n - j,
    {
        j = j + 1;
    }
    j
}

// ---------------------------------------------------------------------------
// Comments
// ---------------------------------------------------------------------------
/// Recognizes a blank run at `i`: one or more blank characters, verbatim.
pub fn parse_blank(s: &str, i: usize) -> (r: Option<(CommentEntry, usize)>)
    requires
        i <= s@.len(),
    ensures
        match r {
            Some((c, j)) => spec_parse_blank(s@, i as int) == Some((c@, j as int)) && i < j
                <= s@.len(),
            None => spec_parse_blank(s@, i as int) is None,
        },
{
    let j = scan_blank(s, i);
    if j > i {
        let run = s.substring_char(i, j).to_owned();
        Some((CommentEntry::Blank(run), j))
    } else {
        None
    }
}

/// Recognizes a text comment at `i`: `#`, stripped in-line whitespace, an
/// ASCII body, and a mandatory newline.
pub fn parse_text_comment(s: &str, i: usize) -> (r: Option<(CommentEntry, usize)>)
    requires
        i <= s@.len(),
    ensures
        match r {
            Some((c, j)) => spec_parse_text_comment(s@, i as int) == Some((c@, j as int)) && i < j
                <= s@.len(),
            None => spec_parse_text_comment(s@, i as int) is None,
        },
{
    if i < s.unicode_len() && s.get_char(i) == '#' {
        let j = scan_space(s, i + 1);
        let k = scan_body(s, j);
        if k < s.unicode_len() && s.get_char(k) == '\n' {
            let body = s.substring_char(j, k).to_owned();
            Some((CommentEntry::Text(body), k + 1))
        } else {
            None
        }
    } else {
        None
    }
}

/// Recognizes a comment entry at `i`: a blank run if possible, else a text
/// comment.
pub fn parse_comment(s: &str, i: usize) -> (r: Option<(CommentEntry, usize)>)
    requires
        i <= s@.len(),
    ensures
        match r {
            Some((c, j)) => spec_parse_comment(s@, i as int) == Some((c@, j as int)) && i < j
                <= s@.len(),
            None => spec_parse_comment(s@, i as int) is None,
        },
{
    match parse_blank(s, i) {
        Some(r) => Some(r),
        None => parse_text_comment(s, i),
    }
}

// ---------------------------------------------------------------------------
// Locales
// ---------------------------------------------------------------------------
/// Executable test for [`lang_pred`]'s class.
fn lang_char(c: char) -> (r: bool)
    ensures
        r == (c != '_' && c != '.' && c != '@'),
{
    c != '_' && c != '.' && c != '@'
}

/// Executable test for [`country_pred`]'s class.
fn country_char(c: char) -> (r: bool)
    ensures
        r == (c != '.' && c != '@'),
{
    c != '.' && c != '@'
}

/// Scans past non-separator characters (not `_`, `.`, `@`) from `i`.
fn scan_lang(s: &str, i: usize) -> (r: usize)
    requires
        i <= s@.len(),
    ensures
        r == scan(s@, i as int, lang_pred()),
        i <= r <= s@.len(),
{
    let n = s.unicode_len();
    let mut j = i;
    while j < n && lang_char(s.get_char(j))
        invariant
            i <= j <= n,
            n == s@.len(),
            scan(s@, i as int, lang_pred()) == scan(s@, j as int, lang_pred()),
        decreases n - j,
    {
        j = j + 1;
    }
    j
}

/// Scans past non-`.`, non-`@` characters from `i`.
fn scan_country(s: &str, i: usize) -> (r: usize)
    requires
        i <= s@.len(),
    ensures
        r == scan(s@, i as int, country_pred()),
        i <= r <= s@.len(),
{
    let n = s.unicode_len();
    let mut j = i;
    while j < n && country_char(s.get_char(j))
        invariant
            i <= j <= n,
            n == s@.len(),
            scan(s@, i as int, country_pred()) == scan(s@, j as int, country_pred()),
        decreases n - j,
    {
        j = j + 1;
    }
    j
}

/// Scans past non-`@` characters from `i`.
fn scan_encoding(s: &str, i: usize) -> (r: usize)
    requires
        i <= s@.len(),
    ensures
        r == scan(s@, i as int, encoding_pred()),
        i <= r <= s@.len(),
{
    let n = s.unicode_len();
    let mut j = i;
    while j < n && s.get_char(j) != '@'
        invariant
            i <= j <= n,
            n == s@.len(),
            scan(s@, i as int, encoding_pred()) == scan(s@, j as int, encoding_pred()),
        decreases n - j,
    {
        j = j + 1;
    }
    j
}

impl Locale {
    /// Splits raw locale text along the `lang_COUNTRY.ENCODING@MODIFIER`
    /// syntax.  Total: every text splits, missing sub-tags stay `None`.
    pub fn from_raw(raw: &str) -> (r: Locale)
        ensures
            r@ == spec_split_locale(raw@),
    {
        let n = raw.unicode_len();
        let a = scan_lang(raw, 0);
        let lang = raw.substring_char(0, a).to_owned();
        let (country, b) = if a < n && raw.get_char(a) == '_' {
            let b = scan_country(raw, a + 1);
            (Some(raw.substring_char(a + 1, b).to_owned()), b)
        } else {
            (None, a)
        };
        let (encoding, c) = if b < n && raw.get_char(b) == '.' {
            let c = scan_encoding(raw, b + 1);
            (Some(raw.substring_char(b + 1, c).to_owned()), c)
        } else {
            (None, b)
        };
        let modifiers = if c < n && raw.get_char(c) == '@' {
            Some(raw.substring_char(c + 1, n).to_owned())
        } else {
            None
        };
        Locale { lang, encoding, country, modifiers }
    }
}

/// Recognizes a bracketed locale at `i`: `[`, bracket content, `]`.
pub fn parse_locale_bracket(s: &str, i: usize) -> (r: Option<(Locale, usize)>)
    requires
        i <= s@.len(),
    ensures
        match r {
            Some((l, j)) => spec_parse_locale_bracket(s@, i as int) == Some((l@, j as int)) && i < j
                <= s@.len(),
            None => spec_parse_locale_bracket(s@, i as int) is None,
        },
{
    if i < s.unicode_len() && s.get_char(i) == '[' {
        let j = scan_header(s, i + 1);
        if j < s.unicode_len() && s.get_char(j) == ']' {
            let raw = s.substring_char(i + 1, j);
            let locale = Locale::from_raw(raw);
            Some((locale, j + 1))
        } else {
            None
        }
    } else {
        None
    }
}

} // verus!

verus! {

// ---------------------------------------------------------------------------
// Values
// ---------------------------------------------------------------------------
/// Scans past value-chunk characters from `i`.
fn scan_chunk(s: &str, i: usize) -> (r: usize)
    requires
        i <= s@.len(),
    ensures
        r == scan(s@, i as int, chunk_pred()),
        i <= r <= s@.len(),
{
    let n = s.unicode_len();
    let mut j = i;
    while j < n && chunk_char(s.get_char(j))
        invariant
            i <= j <= n,
            n == s@.len(),
            scan(s@, i as int, chunk_pred()) == scan(s@, j as int, chunk_pred()),
        decreases n - j,
    {
        j = j + 1;
    }
    j
}

/// Scans past trimmed-whitespace characters from `i`.
fn scan_trim(s: &str, i: usize) -> (r: usize)
    requires
        i <= s@.len(),
    ensures
        r == scan(s@, i as int, trim_pred()),
        i <= r <= s@.len(),
{
    let n = s.unicode_len();
    let mut j = i;
    while j < n && trim_char(s.get_char(j))
        invariant
            i <= j <= n,
            n == s@.len(),
            scan(s@, i as int, trim_pred()) == scan(s@, j as int, trim_pred()),
        decreases n - j,
    {
        j = j + 1;
    }
    j
}

/// Strips leading and trailing trimmed whitespace from `v`.
fn trim_string(v: &str) -> (r: String)
    ensures
        r@ == spec_trim(v@),
{
    let n = v.unicode_len();
    let a = scan_trim(v, 0);
    if a == n {
        String::new()
    } else {
        let mut e = n;
        while e > 0 && trim_char(v.get_char(e - 1))
            invariant
                0 <= e <= n,
                n == v@.len(),
                trim_end(v@, n as int) == trim_end(v@, e as int),
            decreases e,
        {
            e = e - 1;
        }
        proof {
            lemma_scan(v@, 0, trim_pred());
            lemma_trim_end(v@, n as int);
            assert(!is_trim_char(v@[a as int]));
            if e <= a {
                assert(is_trim_char(v@[a as int]));
            }
        }
        v.substring_char(a, e).to_owned()
    }
}

/// The decoded characters of one value, up to an unescaped `;`, a newline or
/// the end of input; errors at a malformed escape.
fn parse_value_chars(s: &str, i: usize) -> (r: Result<(String, usize), usize>)
    requires
        i <= s@.len(),
    ensures
        match r {
            Ok((v, j)) => spec_value_chars(s@, i as int) == Ok::<(Seq<char>, int), int>(
                (v@, j as int),
            ) && i <= j <= s@.len(),
            Err(p) => spec_value_chars(s@, i as int) == Err::<(Seq<char>, int), int>(p as int),
        },
{
    let n = s.unicode_len();
    let mut j = i;
    let mut acc = String::new();
    loop
        invariant
            i <= j <= n,
            n == s@.len(),
            match spec_value_chars(s@, j as int) {
                Ok((rest, end)) => spec_value_chars(s@, i as int) == Ok::<(Seq<char>, int), int>(
                    (acc@ + rest, end),
                ),
                Err(p) => spec_value_chars(s@, i as int) == Err::<(Seq<char>, int), int>(p),
            },
        decreases n - j,
    {
        if j >= n {
            proof {
                assert(acc@ + Seq::<char>::empty() =~= acc@);
            }
            return Ok((acc, j));
        }
        let c = s.get_char(j);
        if c == ';' || c == '\n' {
            proof {
                assert(acc@ + Seq::<char>::empty() =~= acc@);
            }
            return Ok((acc, j));
        } else if c == '\\' {
            if j + 1 >= n {
                return Err(j);
            }
            let d = s.get_char(j + 1);
            let ghost prev = acc@;
            if d == 'n' {
                proof {
                    reveal_strlit("\n");
                }
                acc.append("\n");
            } else if d == 'r' {
                proof {
                    reveal_strlit("\r");
                }
                acc.append("\r");
            } else if d == 's' {
                proof {
                    reveal_strlit(" ");
                }
                acc.append(" ");
            } else if d == 't' {
                proof {
                    reveal_strlit("\t");
                }
                acc.append("\t");
            } else if d == '\\' {
                proof {
                    reveal_strlit("\\");
                }
                acc.append("\\");
            } else if d == ';' {
                proof {
                    reveal_strlit(";");
                }
                acc.append(";");
            } else {
                return Err(j);
            }
            proof {
                let dec = spec_escape_char(s@[j as int + 1]).unwrap();
                assert(acc@ =~= prev + seq![dec]);
                match spec_value_chars(s@, j + 2) {
                    Ok((rest, end)) => {
                        assert(prev + (seq![dec] + rest) =~= acc@ + rest);
                    },
                    Err(_) => {},
                }
            }
            j = j + 2;
        } else {
            let j2 = scan_chunk(s, j);
            proof {
                lemma_scan(s@, j as int, chunk_pred());
                assert(is_chunk_char(s@[j as int]));
                assert(j2 > j);
            }
            let chunk = s.substring_char(j, j2);
            let ghost prev = acc@;
            acc.append(chunk);
            proof {
                lemma_value_chars_chunk(s@, j as int, j2 as int);
                match spec_value_chars(s@, j2 as int) {
                    Ok((rest, end)) => {
                        assert(prev + (s@.subrange(j as int, j2 as int) + rest) =~= acc@ + rest);
                    },
                    Err(_) => {},
                }
            }
            j = j2;
        }
    }
}

/// One value: its decoded characters, trimmed, and an optional trailing `;`,
/// which is consumed.
fn parse_single_value(s: &str, i: usize) -> (r: Result<(String, usize), usize>)
    requires
        i <= s@.len(),
    ensures
        match r {
            Ok((v, j)) => spec_parse_single_value(s@, i as int) == Ok::<(Seq<char>, int), int>(
                (v@, j as int),
            ) && i <= j <= s@.len(),
            Err(p) => spec_parse_single_value(s@, i as int) == Err::<(Seq<char>, int), int>(
                p as int,
            ),
        },
{
    match parse_value_chars(s, i) {
        Ok((raw, j)) => {
            let v = trim_string(raw.as_str());
            if j < s.unicode_len() && s.get_char(j) == ';' {
                Ok((v, j + 1))
            } else {
                Ok((v, j))
            }
        },
        Err(p) => Err(p),
    }
}

/// The value list of an entry: values until a line ending (consumed) or the
/// end of input.
pub fn parse_value_list(s: &str, i: usize) -> (r: Result<(Vec<String>, usize), usize>)
    requires
        i <= s@.len(),
    ensures
        match r {
            Ok((vs, j)) => spec_parse_value_list(s@, i as int) == Ok::<(Seq<Seq<char>>, int), int>(
                (vs.deep_view(), j as int),
            ) && i <= j <= s@.len(),
            Err(p) => spec_parse_value_list(s@, i as int) == Err::<(Seq<Seq<char>>, int), int>(
                p as int,
            ),
        },
{
    let n = s.unicode_len();
    let mut j = i;
    let mut acc: Vec<String> = Vec::new();
    loop
        invariant
            i <= j <= n,
            n == s@.len(),
            match spec_parse_value_list(s@, j as int) {
                Ok((rest, end)) => spec_parse_value_list(s@, i as int) == Ok::<
                    (Seq<Seq<char>>, int),
                    int,
                >((acc.deep_view() + rest, end)),
                Err(p) => spec_parse_value_list(s@, i as int) == Err::<(Seq<Seq<char>>, int), int>(
                    p,
                ),
            },
        decreases n - j,
    {
        if j >= n {
            proof {
                assert(acc.deep_view() + Seq::<Seq<char>>::empty() =~= acc.deep_view());
            }
            return Ok((acc, j));
        }
        let c = s.get_char(j);
        if c == '\n' {
            proof {
                assert(acc.deep_view() + Seq::<Seq<char>>::empty() =~= acc.deep_view());
            }
            return Ok((acc, j + 1));
        }
        if c == '\r' && j + 1 < n && s.get_char(j + 1) == '\n' {
            proof {
                assert(acc.deep_view() + Seq::<Seq<char>>::empty() =~= acc.deep_view());
            }
            return Ok((acc, j + 2));
        }
        match parse_single_value(s, j) {
            Err(p) => {
                return Err(p);
            },
            Ok((v, j2)) => {
                if j2 <= j {
                    return Err(j);
                }
                let ghost prev = acc.deep_view();
                let ghost vv = v@;
                acc.push(v);
                proof {
                    assert(acc.deep_view() =~= prev + seq![vv]);
                    match spec_parse_value_list(s@, j2 as int) {
                        Ok((rest, end)) => {
                            assert(prev + (seq![vv] + rest) =~= acc.deep_view() + rest);
                        },
                        Err(_) => {},
                    }
                }
                j = j2;
            },
        }
    }
}

// ---------------------------------------------------------------------------
// Entries
// ---------------------------------------------------------------------------
/// Recognizes a content entry at `i`: a key, an opportunistic locale
/// bracket, `=` between in-line whitespace, then the value list.  The error
/// carries the position where recognition failed.
pub fn parse_content_entry(s: &str, i: usize) -> (r: Result<(ContentEntry, usize), usize>)
    requires
        i <= s@.len(),
    ensures
        match r {
            Ok((e, j)) => spec_parse_content_entry(s@, i as int) == Ok::<(SpecContentEntry, int), int>(
                (e@, j as int),
            ) && i < j <= s@.len(),
            Err(p) => spec_parse_content_entry(s@, i as int) == Err::<(SpecContentEntry, int), int>(
                p as int,
            ),
        },
{
    let j = scan_key(s, i);
    let key = s.substring_char(i, j).to_owned();
    let (locale, j2) = match parse_locale_bracket(s, j) {
        Some((l, p)) => (Some(l), p),
        None => (None, j),
    };
    let j3 = scan_space(s, j2);
    if j3 < s.unicode_len() && s.get_char(j3) == '=' {
        let j4 = scan_space(s, j3 + 1);
        match parse_value_list(s, j4) {
            Ok((values, j5)) => Ok((ContentEntry { key, values, locale }, j5)),
            Err(p) => Err(p),
        }
    } else {
        Err(j3)
    }
}

/// Recognizes an in-group entry at `i`: a comment if one can be recognized,
/// else a content entry.
pub fn parse_entry(s: &str, i: usize) -> (r: Result<(Entry, usize), usize>)
    requires
        i <= s@.len(),
    ensures
        match r {
            Ok((e, j)) => spec_parse_entry(s@, i as int) == Ok::<(SpecEntry, int), int>(
                (e@, j as int),
            ) && i < j <= s@.len(),
            Err(p) => spec_parse_entry(s@, i as int) == Err::<(SpecEntry, int), int>(p as int),
        },
{
    match parse_comment(s, i) {
        Some((c, j)) => Ok((Entry::Comment(c), j)),
        None => match parse_content_entry(s, i) {
            Ok((e, j)) => Ok((Entry::Content(e), j)),
            Err(p) => Err(p),
        },
    }
}

/// Recognizes as many in-group entries as possible from `i`, and returns the
/// position where recognition stopped.
fn parse_entries(s: &str, i: usize) -> (r: (Vec<Entry>, usize))
    requires
        i <= s@.len(),
    ensures
        spec_parse_entries(s@, i as int) == (r.0.deep_view(), r.1 as int),
        i <= r.1 <= s@.len(),
{
    let n = s.unicode_len();
    let mut j = i;
    let mut acc: Vec<Entry> = Vec::new();
    loop
        invariant
            i <= j <= n,
            n == s@.len(),
            spec_parse_entries(s@, i as int).0 == acc.deep_view() + spec_parse_entries(
                s@,
                j as int,
            ).0,
            spec_parse_entries(s@, i as int).1 == spec_parse_entries(s@, j as int).1,
        decreases n - j,
    {
        match parse_entry(s, j) {
            Err(_) => {
                proof {
                    assert(acc.deep_view() + Seq::<SpecEntry>::empty() =~= acc.deep_view());
                }
                return (acc, j);
            },
            Ok((e, j2)) => {
                let ghost prev = acc.deep_view();
                let ghost ev = e@;
                acc.push(e);
                proof {
                    assert(acc.deep_view() =~= prev + seq![ev]);
                    assert(prev + (seq![ev] + spec_parse_entries(s@, j2 as int).0)
                        =~= acc.deep_view() + spec_parse_entries(s@, j2 as int).0);
                }
                j = j2;
            },
        }
    }
}

// ---------------------------------------------------------------------------
// Groups and documents
// ---------------------------------------------------------------------------
/// Recognizes a group header at `i`: `[`, the section name, `]`, and an
/// optional newline, which is consumed.
pub fn parse_group_header(s: &str, i: usize) -> (r: Option<(String, usize)>)
    requires
        i <= s@.len(),
    ensures
        match r {
            Some((h, j)) => spec_parse_group_header(s@, i as int) == Some((h@, j as int)) && i < j
                <= s@.len(),
            None => spec_parse_group_header(s@, i as int) is None,
        },
{
    if i < s.unicode_len() && s.get_char(i) == '[' {
        let j = scan_header(s, i + 1);
        if j < s.unicode_len() && s.get_char(j) == ']' {
            let header = s.substring_char(i + 1, j).to_owned();
            if j + 1 < s.unicode_len() && s.get_char(j + 1) == '\n' {
                Some((header, j + 2))
            } else {
                Some((header, j + 1))
            }
        } else {
            None
        }
    } else {
        None
    }
}

/// Recognizes a group at `i`: its header, then as many entries as possible.
pub fn parse_group(s: &str, i: usize) -> (r: Option<(Group, usize)>)
    requires
        i <= s@.len(),
    ensures
        match r {
            Some((g, j)) => spec_parse_group(s@, i as int) == Some((g@, j as int)) && i < j
                <= s@.len(),
            None => spec_parse_group(s@, i as int) is None,
        },
{
    match parse_group_header(s, i) {
        Some((header, j)) => {
            let (content, k) = parse_entries(s, j);
            Some((Group { header, content }, k))
        },
        None => None,
    }
}

/// Recognizes a top-level item at `i`: a group if one can be recognized,
/// else a comment.
pub fn parse_top_level(s: &str, i: usize) -> (r: Result<(TopLevelEntry, usize), usize>)
    requires
        i <= s@.len(),
    ensures
        match r {
            Ok((t, j)) => spec_parse_top_level(s@, i as int) == Ok::<(SpecTopLevelEntry, int), int>(
                (t@, j as int),
            ) && i < j <= s@.len(),
            Err(p) => spec_parse_top_level(s@, i as int) == Err::<(SpecTopLevelEntry, int), int>(
                p as int,
            ),
        },
{
    match parse_group(s, i) {
        Some((g, j)) => Ok((TopLevelEntry::Group(g), j)),
        None => match parse_comment(s, i) {
            Some((c, j)) => Ok((TopLevelEntry::Comment(c), j)),
            None => Err(i),
        },
    }
}

/// Recognizes as many top-level items as possible from `i`, and returns the
/// position where recognition stopped.
fn parse_tops(s: &str, i: usize) -> (r: (Vec<TopLevelEntry>, usize))
    requires
        i <= s@.len(),
    ensures
        spec_parse_tops(s@, i as int) == (r.0.deep_view(), r.1 as int),
        i <= r.1 <= s@.len(),
{
    let n = s.unicode_len();
    let mut j = i;
    let mut acc: Vec<TopLevelEntry> = Vec::new();
    loop
        invariant
            i <= j <= n,
            n == s@.len(),
            spec_parse_tops(s@, i as int).0 == acc.deep_view() + spec_parse_tops(s@, j as int).0,
            spec_parse_tops(s@, i as int).1 == spec_parse_tops(s@, j as int).1,
        decreases n - j,
    {
        match parse_top_level(s, j) {
            Err(_) => {
                proof {
                    assert(acc.deep_view() + Seq::<SpecTopLevelEntry>::empty() =~= acc.deep_view());
                }
                return (acc, j);
            },
            Ok((t, j2)) => {
                let ghost prev = acc.deep_view();
                let ghost tv = t@;
                acc.push(t);
                proof {
                    assert(acc.deep_view() =~= prev + seq![tv]);
                    assert(prev + (seq![tv] + spec_parse_tops(s@, j2 as int).0) =~= acc.deep_view()
                        + spec_parse_tops(s@, j2 as int).0);
                }
                j = j2;
            },
        }
    }
}

/// The byte length of the encoding of the first `j` characters of `s`: the
/// byte offset of character `j` in the encoded text.
pub open spec fn spec_byte_offset(s: Seq<char>, j: int) -> int {
    encode_utf8(s.subrange(0, j)).len() as int
}

/// A failed parse: the whole parse fails, and the error carries the byte
/// offset of the first text that is not a top-level item; the unconsumed
/// remainder is the input from that offset on.
#[derive(Debug, Eq, PartialEq, Structural, Clone, Copy)]
pub struct ParseError {
    /// The offset, in bytes, at which recognition stopped.
    pub pos: usize,
}

impl DesktopFile {
    /// Parses a whole document from text: every top-level item, with nothing
    /// left over.
    pub fn parse(s: &str) -> (r: Result<DesktopFile, ParseError>)
        ensures
            match r {
                Ok(d) => spec_parse_document(s@) == Ok::<SpecDesktopFile, int>(d@),
                Err(e) => spec_parse_document(s@) matches Err(j) && e.pos == spec_byte_offset(
                    s@,
                    j,
                ),
            },
    {
        let (content, j) = parse_tops(s, 0);
        if j == s.unicode_len() {
            Ok(DesktopFile { content })
        } else {
            let prefix = s.substring_char(0, j);
            let bytes = prefix.as_bytes();
            proof {
                assert(prefix@ == s@.subrange(0, j as int));
                assert(bytes@ == encode_utf8(prefix@));
            }
            Err(ParseError { pos: bytes.len() })
        }
    }

    /// Parses a whole document from bytes, treated as UTF-8 encoded text.
    /// On text that does not decode, the error position is zero.
    pub fn parse_bytes(b: &[u8]) -> (r: Result<DesktopFile, ParseError>)
        ensures
            valid_utf8(b@) ==> match r {
                Ok(d) => spec_parse_document(decode_utf8(b@)) == Ok::<SpecDesktopFile, int>(d@),
                Err(e) => spec_parse_document(decode_utf8(b@)) matches Err(j) && e.pos
                    == spec_byte_offset(decode_utf8(b@), j),
            },
            !valid_utf8(b@) ==> r == Err::<DesktopFile, ParseError>(ParseError { pos: 0 }),
    {
        match bytes_to_str(b) {
            Some(s) => DesktopFile::parse(s),
            None => Err(ParseError { pos: 0 }),
        }
    }
}

/// Relies on std's `str::from_utf8`: it succeeds exactly on valid UTF-8, and
/// the resulting text is the decoding of those bytes.
#[verifier::external_body]
fn bytes_to_str(b: &[u8]) -> (r: Option<&str>)
    ensures
        match r {
            Some(s) => valid_utf8(b@) && s@ == decode_utf8(b@),
            None => !valid_utf8(b@),
        },
{
    core::str::from_utf8(b).ok()
}

} // verus!
