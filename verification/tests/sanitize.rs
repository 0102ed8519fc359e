use darkicewolf50_actix_setup::RejectionReason;
use darkicewolf50_actix_setup::clean_user_file_req;
use darkicewolf50_actix_setup::compose;
use darkicewolf50_actix_setup::strip_leading_dots;
use darkicewolf50_actix_setup::validate_name;

#[test]
fn simple_name_is_joined() {
    let p = clean_user_file_req("/database", "test", "txt").unwrap();
    assert_eq!(p.as_str(), "/database/test.txt");
}

#[test]
fn leading_dot_on_extension_is_stripped() {
    let p = clean_user_file_req("/database", "test", ".txt").unwrap();
    assert_eq!(p.as_str(), "/database/test.txt");
}

#[test]
fn dotted_and_plain_extension_agree() {
    let a = clean_user_file_req("/database", "report", "txt").unwrap();
    let b = clean_user_file_req("/database", "report", ".txt").unwrap();
    assert_eq!(a.as_str(), b.as_str());
}

#[test]
fn several_leading_dots_are_stripped() {
    let p = clean_user_file_req("/database", "test", "..txt").unwrap();
    assert_eq!(p.as_str(), "/database/test.txt");
}

#[test]
fn traversal_name_is_rejected() {
    let r = clean_user_file_req("/database", "../etc/passwd", "txt");
    assert_eq!(r.err().unwrap(), RejectionReason::PathTraversal);
}

#[test]
fn interior_dot_dot_is_rejected() {
    let r = clean_user_file_req("/database", "a..b", "txt");
    assert_eq!(r.err().unwrap(), RejectionReason::PathTraversal);
}

#[test]
fn forward_slash_is_rejected() {
    let r = clean_user_file_req("/database", "a/b", "txt");
    assert_eq!(r.err().unwrap(), RejectionReason::PathTraversal);
}

#[test]
fn backslash_is_rejected() {
    let r = clean_user_file_req("/database", "a\\b", "txt");
    assert_eq!(r.err().unwrap(), RejectionReason::PathTraversal);
}

#[test]
fn nul_byte_is_rejected() {
    let r = clean_user_file_req("/database", "a\u{0}b", "txt");
    assert_eq!(r.err().unwrap(), RejectionReason::ControlCharacter);
}

#[test]
fn newline_is_rejected() {
    let r = clean_user_file_req("/database", "a\nb", "txt");
    assert_eq!(r.err().unwrap(), RejectionReason::ControlCharacter);
}

#[test]
fn tab_is_rejected() {
    let r = clean_user_file_req("/database", "a\tb", "txt");
    assert_eq!(r.err().unwrap(), RejectionReason::ControlCharacter);
}

#[test]
fn control_check_precedes_allow_list() {
    // The name holds a control character and a disallowed one; the control
    // character is reported.
    let r = clean_user_file_req("/database", "a\n!", "txt");
    assert_eq!(r.err().unwrap(), RejectionReason::ControlCharacter);
}

#[test]
fn traversal_check_precedes_allow_list() {
    // `.` and `/` are both outside the allow-list, but traversal is the
    // reported reason.
    let r = clean_user_file_req("/database", "../x", "txt");
    assert_eq!(r.err().unwrap(), RejectionReason::PathTraversal);
}

#[test]
fn allowed_punctuation_survives() {
    let p = clean_user_file_req("/database", "valid name (1)", "txt").unwrap();
    assert_eq!(p.as_str(), "/database/valid name (1).txt");
}

#[test]
fn brackets_hyphen_underscore_survive() {
    let p = clean_user_file_req("/database", "a_b-c [2]", "txt").unwrap();
    assert_eq!(p.as_str(), "/database/a_b-c [2].txt");
}

#[test]
fn single_dot_is_disallowed() {
    let r = clean_user_file_req("/database", "a.b", "txt");
    assert_eq!(r.err().unwrap(), RejectionReason::DisallowedCharacter);
}

#[test]
fn exotic_character_is_disallowed() {
    let r = clean_user_file_req("/database", "caf\u{e9}", "txt");
    assert_eq!(r.err().unwrap(), RejectionReason::DisallowedCharacter);
}

#[test]
fn empty_name_is_rejected() {
    let r = clean_user_file_req("/database", "", "txt");
    assert_eq!(r.err().unwrap(), RejectionReason::InvalidLength);
}

#[test]
fn name_of_255_scalars_is_accepted() {
    let name = "a".repeat(255);
    let p = clean_user_file_req("/database", &name, "txt").unwrap();
    let expected = format!("/database/{}.txt", name);
    assert_eq!(p.as_str(), expected.as_str());
}

#[test]
fn name_of_256_scalars_is_rejected() {
    let name = "a".repeat(256);
    let r = clean_user_file_req("/database", &name, "txt");
    assert_eq!(r.err().unwrap(), RejectionReason::InvalidLength);
}

#[test]
fn length_is_counted_after_normalization() {
    // 128 copies of `e` + combining acute: 256 scalar values as supplied,
    // 128 precomposed scalars after NFC. Were the name not normalized
    // before the length check, this would be rejected for its length; the
    // normalized name is short enough and fails only the allow-list.
    let name = "e\u{301}".repeat(128);
    let r = clean_user_file_req("/database", &name, "txt");
    assert_eq!(r.err().unwrap(), RejectionReason::DisallowedCharacter);
}

#[test]
fn decomposed_input_is_normalized_before_checks() {
    // The same character written precomposed and decomposed earns the same
    // rejection, since both normalize to the same scalar.
    let precomposed = clean_user_file_req("/database", "caf\u{e9}", "txt");
    let decomposed = clean_user_file_req("/database", "cafe\u{301}", "txt");
    assert_eq!(precomposed.err().unwrap(), decomposed.err().unwrap());
}

#[test]
fn parent_of_result_is_the_base() {
    let p = clean_user_file_req("/database", "notes [final draft]", "txt").unwrap();
    let s = p.into_string();
    assert!(s.starts_with("/database/"));
    let name_segment = &s["/database/".len()..];
    assert!(!name_segment.contains('/'));
    assert!(!name_segment.contains('\\'));
    assert!(!name_segment.contains(".."));
}

#[test]
fn base_with_trailing_slash_gets_no_second_separator() {
    let p = clean_user_file_req("/database/", "test", "txt").unwrap();
    assert_eq!(p.as_str(), "/database/test.txt");
}

#[test]
fn validate_name_accepts_valid_names() {
    assert!(validate_name("test").is_ok());
    assert!(validate_name("A 9 (ok) [x]_-").is_ok());
}

#[test]
fn validate_name_reports_first_failing_check() {
    assert_eq!(validate_name("").err().unwrap(), RejectionReason::InvalidLength);
    assert_eq!(validate_name("a\u{7f}b").err().unwrap(), RejectionReason::ControlCharacter);
    assert_eq!(validate_name("..").err().unwrap(), RejectionReason::PathTraversal);
    assert_eq!(validate_name("a+b").err().unwrap(), RejectionReason::DisallowedCharacter);
}

#[test]
fn strip_leading_dots_removes_only_leading_dots() {
    assert_eq!(strip_leading_dots("txt"), "txt");
    assert_eq!(strip_leading_dots(".txt"), "txt");
    assert_eq!(strip_leading_dots("..tar.gz"), "tar.gz");
    assert_eq!(strip_leading_dots("..."), "");
}

#[test]
fn compose_joins_validated_parts() {
    let p = compose("/srv/files", "hello world", "md");
    assert_eq!(p.as_str(), "/srv/files/hello world.md");
}
