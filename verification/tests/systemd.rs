use kiro_generator::os::systemd::{escape_path, unit_name};

#[test]
fn test_escape_simple_path() {
    assert_eq!(escape_path("/home/user/project"), "home-user-project");
}

#[test]
fn test_escape_root() {
    assert_eq!(escape_path("/"), "-");
}

#[test]
fn test_escape_trailing_slashes() {
    assert_eq!(escape_path("/home/user/"), "home-user");
}

#[test]
fn test_escape_consecutive_slashes() {
    assert_eq!(escape_path("/home//user"), "home-user");
    assert_eq!(escape_path("/home///user///project"), "home-user-project");
}

#[test]
fn test_escape_special_chars() {
    assert_eq!(
        escape_path("/home/user/my project"),
        "home-user-my\\x20project"
    );
}

#[test]
fn escape_keeps_allowed_punctuation_and_escapes_utf8_bytes() {
    assert_eq!(escape_path("a:b_c.d"), "a:b_c.d");
    assert_eq!(escape_path("x-y"), "x\\x2dy");
    assert_eq!(escape_path("\u{3b1}"), "\\xce\\xb1");
    assert_eq!(escape_path("/\u{20ac}"), "\\xe2\\x82\\xac");
    assert_eq!(escape_path("/\u{e9}"), "\\xc3\\xa9");
    assert_eq!(escape_path("\u{1f600}"), "\\xf0\\x9f\\x98\\x80");
    assert_eq!(escape_path(""), "-");
    assert_eq!(escape_path("///"), "-");
}

#[test]
fn unit_name_wraps_escaped_path() {
    assert_eq!(unit_name("/home/user/project"), "kiro-generator-local@home-user-project.path");
}
