//! High level representations of specific freedesktop structures, and the
//! ASCII sanitizer used before strings are placed into entries.

use vstd::prelude::*;

pub mod datetime;
pub mod trash;

use crate::error::Error;
use crate::parser::lookup::lemma_first_idx_exact;
use crate::parser::lookup::spec_first_idx;

verus! {

/// A character that the sanitizer accepts: ASCII and not a control
/// character.
pub open spec fn is_clean_char(c: char) -> bool {
    (c as u32) < 128 && (c as u32) >= 32 && (c as u32) != 127
}

/// The class of characters the sanitizer rejects, as a function value.
pub open spec fn unclean_pred() -> spec_fn(char) -> bool {
    |c: char| !is_clean_char(c)
}

/// A string of which every character is ASCII and not a control character.
#[derive(Debug)]
pub struct AsciiString {
    value: String,
}

impl View for AsciiString {
    type V = Seq<char>;

    closed spec fn view(&self) -> Seq<char> {
        self.value@
    }
}

impl AsciiString {
    /// What every character of the held string satisfies.
    #[verifier::type_invariant]
    pub closed spec fn wf(self) -> bool {
        forall|i: int| 0 <= i < self.value@.len() ==> is_clean_char(#[trigger] self.value@[i])
    }

    /// Validates that every character of `value` is ASCII and not a control
    /// character; fails identifying the first offending character.
    pub fn try_new(value: &str) -> (r: Result<AsciiString, Error>)
        ensures
            match r {
                Ok(a) => a@ == value@ && forall|i: int|
                    0 <= i < value@.len() ==> is_clean_char(#[trigger] value@[i]),
                Err(e) => {
                    let idx = spec_first_idx(value@, unclean_pred());
                    idx matches Some(i) && (e matches Error::NotAscii(c) && c == value@[i])
                },
            },
    {
        let ghost p = unclean_pred();
        let n = value.unicode_len();
        let mut i: usize = 0;
        while i < n
            invariant
                0 <= i <= n,
                n == value@.len(),
                p == unclean_pred(),
                forall|k: int| 0 <= k < i ==> !p(value@[k]),
            decreases n - i,
        {
            let c = value.get_char(i);
            let code = c as u32;
            if !(code < 128) || code < 32 || code == 127 {
                proof {
                    assert(p(value@[i as int]));
                    lemma_first_idx_exact(value@, p, i as int);
                }
                return Err(Error::NotAscii(c));
            }
            proof {
                assert(!p(value@[i as int]));
            }
            i = i + 1;
        }
        Ok(AsciiString { value: value.to_owned() })
    }

    /// The held string.
    pub fn as_str(&self) -> (r: &str)
        ensures
            r@ == self@,
    {
        self.value.as_str()
    }
}

} // verus!
