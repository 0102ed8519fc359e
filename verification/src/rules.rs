//! The validation rules for an untrusted file name: a length bound, a ban on
//! control characters, a ban on path-traversal sequences, and a strict
//! allow-list of characters. The checks run in that order and the first
//! failing check decides the rejection reason.

use vstd::prelude::*;
use vstd::string::StrSliceExecFns;

verus! {

/// Why an untrusted name was refused. Each variant corresponds to one
/// validation step, in the order the steps run; the first failing step wins.
#[derive(Clone, Copy, Debug, PartialEq, Eq, Structural)]
pub enum RejectionReason {
    /// The normalized name is empty or longer than 255 Unicode scalar values.
    InvalidLength,
    /// The normalized name contains a control character (category Cc).
    ControlCharacter,
    /// The normalized name contains `..`, `/`, or `\`.
    PathTraversal,
    /// The normalized name contains a character outside the allow-list.
    DisallowedCharacter,
}

/// A control character: Unicode general category Cc, that is U+0000..=U+001F
/// together with U+007F..=U+009F.
pub open spec fn is_control_char(c: char) -> bool {
    (c as u32) < 0x20 || (0x7f <= (c as u32) && (c as u32) <= 0x9f)
}

/// A path separator on either common filesystem convention.
pub open spec fn is_separator_char(c: char) -> bool {
    c == '/' || c == '\\'
}

/// A character of the allow-list: ASCII letters, digits, space, underscore,
/// hyphen, parentheses and square brackets.
pub open spec fn is_allowed_char(c: char) -> bool {
    ||| 0x41 <= (c as u32) && (c as u32) <= 0x5a  // 'A'..='Z'
    ||| 0x61 <= (c as u32) && (c as u32) <= 0x7a  // 'a'..='z'
    ||| 0x30 <= (c as u32) && (c as u32) <= 0x39  // '0'..='9'
    ||| c == ' '
    ||| c == '_'
    ||| c == '-'
    ||| c == '('
    ||| c == ')'
    ||| c == '['
    ||| c == ']'
}

/// The name contains the substring `..` somewhere.
pub open spec fn has_dot_dot(s: Seq<char>) -> bool {
    exists|i: int| 0 <= i && i + 1 < s.len() && (#[trigger] s[i]) == '.' && s[i + 1] == '.'
}

/// The name contains a path separator somewhere.
pub open spec fn has_separator(s: Seq<char>) -> bool {
    exists|i: int| 0 <= i < s.len() && is_separator_char(#[trigger] s[i])
}

/// The name could escape its directory when joined: it holds `..`, `/`
/// or `\` anywhere.
pub open spec fn has_traversal(s: Seq<char>) -> bool {
    has_dot_dot(s) || has_separator(s)
}

/// The name contains a control character somewhere.
pub open spec fn has_control(s: Seq<char>) -> bool {
    exists|i: int| 0 <= i < s.len() && is_control_char(#[trigger] s[i])
}

/// Every character of the name is on the allow-list.
pub open spec fn all_allowed(s: Seq<char>) -> bool {
    forall|i: int| 0 <= i < s.len() ==> is_allowed_char(#[trigger] s[i])
}

/// A name that passes every check: 1 to 255 Unicode scalar values, no
/// control characters, no traversal sequence, only allow-listed characters.
pub open spec fn valid_name(s: Seq<char>) -> bool {
    &&& 1 <= s.len() <= 255
    &&& !has_control(s)
    &&& !has_traversal(s)
    &&& all_allowed(s)
}

/// The rejection a name earns, if any: the checks run in order and the
/// first failing one decides.
pub open spec fn rejection_of(s: Seq<char>) -> Option<RejectionReason> {
    if s.len() == 0 || s.len() > 255 {
        Some(RejectionReason::InvalidLength)
    } else if has_control(s) {
        Some(RejectionReason::ControlCharacter)
    } else if has_traversal(s) {
        Some(RejectionReason::PathTraversal)
    } else if !all_allowed(s) {
        Some(RejectionReason::DisallowedCharacter)
    } else {
        None
    }
}

/// A name is accepted exactly when it is valid.
pub proof fn lemma_accepted_iff_valid(s: Seq<char>)
    ensures
        rejection_of(s) is None <==> valid_name(s),
{
}

/// A name within the length bound and free of control characters that holds
/// `..`, `/` or `\` anywhere is rejected as path traversal, whatever other
/// characters stand around the offending ones.
pub proof fn lemma_traversal_rejected(s: Seq<char>)
    requires
        1 <= s.len() <= 255,
        !has_control(s),
        has_traversal(s),
    ensures
        rejection_of(s) == Some(RejectionReason::PathTraversal),
{
}

/// A name within the length bound that holds a control character anywhere
/// is rejected for that control character, before the traversal and
/// allow-list checks are consulted.
pub proof fn lemma_control_rejected(s: Seq<char>)
    requires
        1 <= s.len() <= 255,
        has_control(s),
    ensures
        rejection_of(s) == Some(RejectionReason::ControlCharacter),
{
}

fn char_is_control(c: char) -> (b: bool)
    ensures
        b == is_control_char(c),
{
    let u = c as u32;
    u < 0x20 || (0x7f <= u && u <= 0x9f)
}

fn char_is_allowed(c: char) -> (b: bool)
    ensures
        b == is_allowed_char(c),
{
    let u = c as u32;
    (0x41 <= u && u <= 0x5a) || (0x61 <= u && u <= 0x7a) || (0x30 <= u && u <= 0x39)
        || c == ' ' || c == '_' || c == '-' || c == '(' || c == ')' || c == '[' || c == ']'
}

/// Run the validation checks on an already-normalized name, in order:
/// length, control characters, traversal, allow-list. Returns the reason of
/// the first failing check, or nothing when the name is valid.
pub fn validate_name(name: &str) -> (r: Result<(), RejectionReason>)
    ensures
        match r {
            Ok(()) => rejection_of(name@) is None,
            Err(e) => rejection_of(name@) == Some(e),
        },
{
    let n = name.unicode_len();
    if n == 0 || n > 255 {
        return Err(RejectionReason::InvalidLength);
    }

    let mut i: usize = 0;
    while i < n
        invariant
            n == name@.len(),
            0 < n <= 255,
            i <= n,
            forall|j: int| 0 <= j < i ==> !is_control_char(#[trigger] name@[j]),
        decreases n - i,
    {
        let c = name.get_char(i);
        if char_is_control(c) {
            proof {
                assert(is_control_char(name@[i as int]));
            }
            return Err(RejectionReason::ControlCharacter);
        }
        i += 1;
    }
    proof {
        assert(!has_control(name@));
    }

    let mut i: usize = 0;
    while i < n
        invariant
            n == name@.len(),
            0 < n <= 255,
            i <= n,
            !has_control(name@),
            forall|j: int| 0 <= j < i ==> !is_separator_char(#[trigger] name@[j]),
            forall|j: int| 0 <= j < i ==> !((#[trigger] name@[j]) == '.' && j + 1 < n && name@[j + 1] == '.'),
        decreases n - i,
    {
        let c = name.get_char(i);
        if c == '/' || c == '\\' {
            proof {
                assert(is_separator_char(name@[i as int]));
            }
            return Err(RejectionReason::PathTraversal);
        }
        if c == '.' && i + 1 < n {
            let c2 = name.get_char(i + 1);
            if c2 == '.' {
                proof {
                    assert(name@[i as int] == '.' && name@[i as int + 1] == '.');
                }
                return Err(RejectionReason::PathTraversal);
            }
        }
        i += 1;
    }
    proof {
        assert(!has_separator(name@));
        assert(!has_dot_dot(name@));
    }

    let mut i: usize = 0;
    while i < n
        invariant
            n == name@.len(),
            0 < n <= 255,
            i <= n,
            !has_control(name@),
            !has_traversal(name@),
            forall|j: int| 0 <= j < i ==> is_allowed_char(#[trigger] name@[j]),
        decreases n - i,
    {
        let c = name.get_char(i);
        if !char_is_allowed(c) {
            proof {
                assert(!is_allowed_char(name@[i as int]));
                assert(!all_allowed(name@));
            }
            return Err(RejectionReason::DisallowedCharacter);
        }
        i += 1;
    }
    Ok(())
}

} // verus!
