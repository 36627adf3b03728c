//! RFC-1459 case-insensitive string comparison.
//!
//! IRC treats the ASCII letters as case-insensitive and additionally folds
//! `[` to `{`, `]` to `}` and `\` to `|`, because those characters occupy the
//! same positions in the upper- and lower-case halves of the ASCII table.

use vstd::prelude::*;
use vstd::string::StrSliceExecFns;

verus! {

/// The RFC-1459 fold of a single character, as a Unicode scalar value:
/// `A`-`Z` map to `a`-`z`, `[` to `{`, `]` to `}` and `\` to `|`; every
/// other character maps to itself.
pub open spec fn irc_fold(c: char) -> u32 {
    let u = c as u32;
    if 65 <= u <= 90 {
        (u + 32) as u32
    } else if u == 91 {
        123
    } else if u == 92 {
        124
    } else if u == 93 {
        125
    } else {
        u
    }
}

/// Two character sequences are equal under the RFC-1459 fold: same length,
/// and the characters fold alike position by position.
pub open spec fn eq_irc(a: Seq<char>, b: Seq<char>) -> bool {
    a.len() == b.len() && forall|i: int| 0 <= i < a.len() ==> irc_fold(a[i]) == irc_fold(b[i])
}

/// The RFC-1459 fold of one character, executable form.
fn fold_char(c: char) -> (r: u32)
    ensures
        r == irc_fold(c),
{
    let u = c as u32;
    if 65 <= u && u <= 90 {
        u + 32
    } else if u == 91 {
        123
    } else if u == 92 {
        124
    } else if u == 93 {
        125
    } else {
        u
    }
}

/// Strings of different length are never equal under the RFC-1459 fold,
/// whatever their characters.
pub proof fn lemma_different_length_never_eq_irc(a: Seq<char>, b: Seq<char>)
    requires
        a.len() != b.len(),
    ensures
        !eq_irc(a, b),
{
}

/// Compares two strings under the RFC-1459 case fold. Strings of different
/// length are never equal; otherwise the characters must fold alike
/// position by position.
pub fn equals_irc_case_insensitive(a: &str, b: &str) -> (r: bool)
    ensures
        r == eq_irc(a@, b@),
{
    let alen = a.unicode_len();
    let blen = b.unicode_len();
    if alen != blen {
        return false;
    }
    let mut i: usize = 0;
    while i < alen
        invariant
            0 <= i <= alen,
            alen == a@.len(),
            blen == b@.len(),
            alen == blen,
            forall|j: int| 0 <= j < i ==> irc_fold(a@[j]) == irc_fold(b@[j]),
        decreases alen - i,
    {
        let ca = a.get_char(i);
        let cb = b.get_char(i);
        if fold_char(ca) != fold_char(cb) {
            return false;
        }
        i = i + 1;
    }
    true
}

} // verus!
