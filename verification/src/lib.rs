//! Turning an untrusted, user-supplied filename fragment into a filesystem
//! path that is guaranteed to stay within a fixed base directory.
//!
//! The untrusted name is normalized to Unicode Normalization Form C, held to
//! a strict allow-list of characters, and only then joined with the trusted
//! base directory and extension. Every rejection carries a reason from a
//! closed enumeration, and the contracts pin down exactly which inputs are
//! accepted and what path comes back.

mod path;
mod rules;
mod sanitize;

pub use path::SanitizedPath;
pub use path::compose;
pub use path::composed_path;
pub use path::last_sep_index;
pub use path::lemma_composed_parent;
pub use path::lemma_leading_dot_irrelevant;
pub use path::parent_of;
pub use path::strip_dots;
pub use path::strip_leading_dots;
pub use rules::RejectionReason;
pub use rules::all_allowed;
pub use rules::has_control;
pub use rules::has_dot_dot;
pub use rules::has_separator;
pub use rules::has_traversal;
pub use rules::is_allowed_char;
pub use rules::is_control_char;
pub use rules::is_separator_char;
pub use rules::lemma_accepted_iff_valid;
pub use rules::lemma_control_rejected;
pub use rules::lemma_traversal_rejected;
pub use rules::rejection_of;
pub use rules::valid_name;
pub use rules::validate_name;
pub use sanitize::clean_user_file_req;
pub use sanitize::nfc_of;
