//! The permission string: nine characters in three triplets (owner, group,
//! other), each triplet `r`, `w`, `x` in that order, with `-` for a
//! capability that is withheld.

use vstd::prelude::*;
use crate::error::{AfeError, PermissionFault};

verus! {

/// The permission string a new builder starts with.
pub const DEFAULT_PERMISSIONS: &'static str = "rwxr-xr-x";

/// Number of characters in a permission string.
pub const PERMISSION_LEN: usize = 9;

/// The letter that position `i` of a permission string admits.
pub open spec fn letter_at(i: int) -> char {
    if i % 3 == 0 {
        'r'
    } else if i % 3 == 1 {
        'w'
    } else {
        'x'
    }
}

/// Whether `c` may stand at position `i`.
pub open spec fn symbol_allowed(i: int, c: char) -> bool {
    c == '-' || c == letter_at(i)
}

/// The grammar: exactly nine characters, each `-` or the letter of its
/// position.
pub open spec fn valid_permissions(s: Seq<char>) -> bool {
    &&& s.len() == 9
    &&& forall|i: int| 0 <= i < 9 ==> symbol_allowed(i, #[trigger] s[i])
}

/// Whether `r` is the verdict on `s`: `Ok` where `s` follows the grammar,
/// else the fault, which is the wrong length where the length is wrong and
/// otherwise the first character that its position does not admit.
pub open spec fn is_verdict(s: Seq<char>, r: Result<(), AfeError>) -> bool {
    match r {
        Ok(()) => valid_permissions(s),
        Err(AfeError::Validation(PermissionFault::WrongLength { length })) => {
            &&& s.len() != 9
            &&& length == s.len()
        },
        Err(AfeError::Validation(PermissionFault::UnexpectedSymbol { index, found })) => {
            &&& s.len() == 9
            &&& index < 9
            &&& found == s[index as int]
            &&& !symbol_allowed(index as int, found)
            &&& forall|j: int| 0 <= j < index ==> symbol_allowed(j, #[trigger] s[j])
        },
        Err(_) => false,
    }
}

/// Checks a permission string against the grammar and says why it fails.
/// Of several offending characters the first is reported. The string is
/// never altered.
pub fn validate_permissions(s: &str) -> (r: Result<(), AfeError>)
    ensures
        is_verdict(s@, r),
{
    let n: usize = s.unicode_len();
    if n != PERMISSION_LEN {
        return Err(AfeError::Validation(PermissionFault::WrongLength { length: n }));
    }
    let mut i: usize = 0;
    while i < PERMISSION_LEN
        invariant
            i <= 9,
            s@.len() == 9,
            forall|j: int| 0 <= j < i ==> symbol_allowed(j, #[trigger] s@[j]),
        decreases 9 - i,
    {
        let c: char = s.get_char(i);
        let letter: char = if i % 3 == 0 {
            'r'
        } else if i % 3 == 1 {
            'w'
        } else {
            'x'
        };
        if c != '-' && c != letter {
            return Err(AfeError::Validation(PermissionFault::UnexpectedSymbol { index: i, found: c }));
        }
        i += 1;
    }
    Ok(())
}

/// Whether a permission string follows the grammar.
pub fn is_valid_permissions(s: &str) -> (ok: bool)
    ensures
        ok == valid_permissions(s@),
{
    match validate_permissions(s) {
        Ok(()) => true,
        Err(_) => false,
    }
}

/// The default permission string follows the grammar.
pub proof fn lemma_default_permissions_valid()
    ensures
        valid_permissions(DEFAULT_PERMISSIONS@),
{
    reveal_strlit("rwxr-xr-x");
}

} // verus!
