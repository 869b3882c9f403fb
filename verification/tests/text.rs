use shader_lab::paths::is_shader_file;
use shader_lab::preprocess::include_target_of;
use shader_lab::text::{chars_of, is_space_char, split_lines, trim_bounds};

fn lines(s: &str) -> Vec<String> {
    split_lines(&chars_of(s)).into_iter().map(|l| l.into_iter().collect()).collect()
}

fn trimmed(s: &str) -> String {
    let c = chars_of(s);
    let (a, b) = trim_bounds(&c);
    c[a..b].iter().collect()
}

#[test]
fn lines_match_str_lines() {
    for s in ["", "a", "a\n", "a\nb", "\n\n", "a\r\nb\r\n", "a\r", "x\r\r\ny", "\r\n"] {
        let expected: Vec<String> = s.lines().map(|l| l.to_string()).collect();
        assert_eq!(lines(s), expected, "for {s:?}");
    }
}

#[test]
fn trim_matches_str_trim() {
    for s in ["", "   ", " a ", "\t\u{a0}x y\u{3000}\n", "\u{2000}z", "q\u{85}"] {
        assert_eq!(trimmed(s), s.trim(), "for {s:?}");
    }
}

#[test]
fn whitespace_matches_char_is_whitespace() {
    for code in 0u32..0x3100 {
        if let Some(c) = char::from_u32(code) {
            assert_eq!(is_space_char(c), c.is_whitespace(), "for {code:#x}");
        }
    }
}

#[test]
fn directive_targets() {
    let t = |s: &str| include_target_of(&chars_of(s));
    assert_eq!(t("// @include common.wgsl"), Some("common.wgsl".to_string()));
    assert_eq!(t("   // @include a/b.wgsl  "), Some("a/b.wgsl".to_string()));
    assert_eq!(t("// @include "), None);
    assert_eq!(t("// @include  x"), Some(" x".to_string()));
    assert_eq!(t("// @includex"), None);
    assert_eq!(t("fn main() {}"), None);
}

#[test]
fn shader_files_by_extension() {
    assert!(is_shader_file("shaders/noise.wgsl"));
    assert!(!is_shader_file("shaders/noise.wgsl.bak"));
    assert!(!is_shader_file("shaders/wgsl"));
    assert!(!is_shader_file("shaders/.wgsl"));
    assert!(!is_shader_file("shaders/noise.WGSL"));
}
