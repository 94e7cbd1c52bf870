use contextfy::extract_summary;

#[test]
fn test_extract_summary_normal_paragraph() {
    let content = "这是第一段。\n\n这是第二段...";
    let summary = extract_summary(content);
    assert_eq!(summary, "这是第一段。");
}

#[test]
fn test_extract_summary_with_code_block() {
    let content = "```rust\npub fn foo() -> Bar\n```\n\n一些说明文字...";
    let summary = extract_summary(content);
    assert!(summary.contains("```rust"));
    assert!(summary.contains("pub fn foo() -> Bar"));
    assert!(summary.contains("```"));
}

#[test]
fn test_extract_summary_code_block_with_newlines() {
    let content = "```rust\npub fn foo(\n    x: i32\n) -> Bar\n```\n\n说明";
    let summary = extract_summary(content);
    assert!(summary.contains("```rust"));
    assert!(summary.contains("pub fn foo("));
    assert!(summary.contains(") -> Bar"));
    assert!(summary.contains("```"));
}

#[test]
fn test_extract_summary_no_paragraph_break() {
    let content = "短文本或没有双换行的长文本...";
    let summary = extract_summary(content);
    assert_eq!(summary, content);
}

#[test]
fn test_extract_summary_long_without_break() {
    let content = "a".repeat(300);
    let summary = extract_summary(&content);
    assert!(summary.len() <= 203);
    assert!(summary.ends_with("..."));
}

#[test]
fn test_extract_summary_wall_of_text() {
    let content = "这是一个超长的段落，用户从不换行。".repeat(100);
    let summary = extract_summary(&content);
    assert!(summary.chars().count() <= 1003);
    assert!(summary.ends_with("..."));
}

#[test]
fn test_extract_summary_empty_content() {
    let summary = extract_summary("");
    assert_eq!(summary, "");
}

#[test]
fn test_extract_summary_whitespace_only() {
    let summary = extract_summary("   \n\n   ");
    assert_eq!(summary, "");
}

#[test]
fn test_extract_summary_sentence_truncation() {
    let content = "这是第一句话。这是第二句话。这是第三句话。这是第四句话。".repeat(10);
    let summary = extract_summary(&content);
    assert!(summary.chars().count() <= 1003);
    let last_char = summary.chars().last().unwrap();
    if summary.ends_with("...") {
        assert!(summary.chars().count() <= 1003);
    } else {
        assert!(last_char == '.' || last_char == '!' || last_char == '?' || last_char == '。');
    }
}

#[test]
fn summary_stops_at_first_paragraph() {
    assert_eq!(extract_summary("para one.\n\npara two..."), "para one.");
}

#[test]
fn summary_keeps_whole_fenced_block() {
    assert_eq!(extract_summary("```\ncode\n```\n\nafter"), "```\ncode\n```");
}

#[test]
fn summary_unclosed_fence_is_whole_content() {
    assert_eq!(extract_summary("```\ncode\nmore"), "```\ncode\nmore");
}

#[test]
fn summary_closing_fence_must_be_as_long_as_opening() {
    assert_eq!(extract_summary("````\na\n```\nb\n````\n\nrest"), "````\na\n```\nb\n````");
}

#[test]
fn summary_is_trimmed() {
    assert_eq!(extract_summary("  \n hello world \n"), "hello world");
}

#[test]
fn summary_fallback_cuts_at_sentence_followed_by_space() {
    let content = format!("{} {}", "a".repeat(150) + ".", "b".repeat(100));
    assert_eq!(extract_summary(&content), "a".repeat(150) + ".");
}

#[test]
fn summary_fallback_cuts_at_limit_with_ellipsis() {
    let content = "a".repeat(300);
    assert_eq!(extract_summary(&content), "a".repeat(200) + "...");
}

#[test]
fn summary_terminator_at_limit_counts() {
    let content = "b".repeat(199) + "." + &"c".repeat(50);
    assert_eq!(extract_summary(&content), "b".repeat(199) + ".");
}

#[test]
fn summary_full_width_terminator_followed_by_space() {
    let content = "字".repeat(100) + "。 " + &"词".repeat(150);
    assert_eq!(extract_summary(&content), "字".repeat(100) + "。");
}

#[test]
fn summary_hard_cap_applies_to_long_paragraph() {
    let content = "x".repeat(1200) + "\n\nnext";
    assert_eq!(extract_summary(&content), "x".repeat(1000) + "...");
}

#[test]
fn summary_short_paragraph_with_break_is_not_cut() {
    let para = "y".repeat(500);
    let content = para.clone() + "\n\nnext";
    assert_eq!(extract_summary(&content), para);
}
