//! The sanitizer itself: normalize the untrusted name to Unicode
//! Normalization Form C, validate it, and compose the final path.

use vstd::prelude::*;
use unicode_normalization::UnicodeNormalization;
use crate::path::SanitizedPath;
use crate::path::compose;
use crate::path::composed_path;
use crate::rules::RejectionReason;
use crate::rules::rejection_of;
use crate::rules::validate_name;

verus! {

/// The characters of a string in Unicode Normalization Form C: a canonical
/// recomposition that is a function of the input characters alone.
pub uninterp spec fn nfc_of(s: Seq<char>) -> Seq<char>;

/// Relies on `unicode_normalization`'s `UnicodeNormalization::nfc` for the
/// NFC form of the input; normalizing an empty string yields an empty
/// string, since the iterator has no characters to recompose.
#[verifier::external_body]
fn nfc_normalize(s: &str) -> (r: String)
    ensures
        r@ == nfc_of(s@),
        s@.len() == 0 ==> r@.len() == 0,
{
    s.nfc().collect()
}

/// Turn an untrusted file name into a path under a trusted base directory,
/// or a rejection.
///
/// The name is normalized to NFC first, so every later check sees one
/// canonical spelling. The checks then run in order — length within 1 to
/// 255 scalar values, no control characters, no `..` or separators, only
/// allow-listed characters — and the first failing one gives the rejection.
/// On success the path is the base directory, one `/`, the normalized name,
/// one `.`, and the extension stripped of leading dots.
pub fn clean_user_file_req(
    base_path: &str,
    user_file_request: &str,
    file_extension: &str,
) -> (r: Result<SanitizedPath, RejectionReason>)
    requires
        base_path@.len() > 0,
    ensures
        match r {
            Ok(p) => {
                &&& rejection_of(nfc_of(user_file_request@)) is None
                &&& p.wf()
                &&& p.base_seq() == base_path@
                &&& p.name_seq() == nfc_of(user_file_request@)
                &&& p.ext_seq() == file_extension@
                &&& p@ == composed_path(base_path@, nfc_of(user_file_request@), file_extension@)
            },
            Err(e) => rejection_of(nfc_of(user_file_request@)) == Some(e),
        },
        user_file_request@.len() == 0 ==> r == Err::<SanitizedPath, RejectionReason>(
            RejectionReason::InvalidLength,
        ),
{
    let normalized = nfc_normalize(user_file_request);
    match validate_name(normalized.as_str()) {
        Ok(()) => Ok(compose(base_path, normalized.as_str(), file_extension)),
        Err(e) => Err(e),
    }
}

} // verus!
