use auto_matrix_manager::text::{get_string_length, substr, strip_html_tags, trim_str};
use auto_matrix_manager::douyin_utils::{calculate_timing, calculate_placeholder, generate_creation_id, calculate_a_bogus};
use auto_matrix_manager::video_upload::calculate_crc32;

#[test]
fn test_strip_html_tags() {
    let input = "<p>Hello <b>World</b></p>";
    let result = strip_html_tags(input);
    assert_eq!(result, "Hello World");
}

#[test]
fn test_get_string_length() {
    let input = "你好Hello";
    let length = get_string_length(input);
    assert_eq!(length, 9);
}

#[test]
fn test_substr() {
    let input = "你好Hello";
    let result = substr(input, 0, 5);
    assert_eq!(result, "你好H");
}

#[test]
fn test_generate_creation_id() {
    let id1 = generate_creation_id();
    let id2 = generate_creation_id();
    assert_ne!(id1, id2);
    assert!(id1.len() > 10);
}

#[test]
fn test_calculate_timing() {
    let timing = calculate_timing(3600, 0);
    assert!(timing > 0);
    let timing = calculate_timing(3600, 2000000000);
    assert_eq!(timing, 2000000000);
}

#[test]
fn test_calculate_placeholder() {
    let url_query = "device_platform=webapp&aid=6383";
    let user_agent = "Mozilla/5.0";
    let result = calculate_placeholder(url_query, user_agent);
    assert!(!result.is_empty());
    assert_eq!(result, "cbd67b90c22cf1442244d8d15b70b019");
}

#[test]
fn placeholder_signature_without_script() {
    let r = calculate_a_bogus(false, None, "device_platform=webapp&aid=6383", "Mozilla/5.0");
    assert_eq!(r, "cbd67b90c22cf1442244d8d15b70b019");
    let forced = calculate_a_bogus(true, Some("function generate_a_bogus(q, u) { return 'x'; }"), "device_platform=webapp&aid=6383", "Mozilla/5.0");
    assert_eq!(forced, "cbd67b90c22cf1442244d8d15b70b019");
}

#[test]
fn width_counts_wide_characters_twice() {
    assert_eq!(get_string_length(""), 0);
    assert_eq!(get_string_length("abc"), 3);
    assert_eq!(get_string_length("中文"), 4);
}

#[test]
fn substr_never_splits_a_wide_character() {
    assert_eq!(substr("你好Hello", 0, 3), "你");
    assert_eq!(substr("你好Hello", 0, 100), "你好Hello");
}

#[test]
fn html_without_tags_is_unchanged() {
    assert_eq!(strip_html_tags("plain text"), "plain text");
    assert_eq!(strip_html_tags("<br/>"), "");
}

#[test]
fn trim_removes_surrounding_whitespace() {
    assert_eq!(trim_str("  a b \n"), "a b");
}

#[test]
fn crc32_of_known_text() {
    assert_eq!(calculate_crc32(b"123456789"), "cbf43926");
}

#[test]
fn substr_keeps_within_its_width() {
    for max in 0..12 {
        let s = substr("你好Hello😀世界", 0, max);
        assert!(get_string_length(&s) <= max);
    }
    assert_eq!(substr("你好Hello", 1, 3), "好");
}

#[test]
fn stripped_text_has_no_tag_opener() {
    let s = strip_html_tags("a<b>c</b> 1 < 2 > 0");
    assert!(!s.contains('<'));
    assert_eq!(strip_html_tags("plain > text"), "plain > text");
}
