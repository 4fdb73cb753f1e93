use gemini_search::render::{
    classify, format_output, format_output_plain, join_lines, render, render_line,
    render_line_styled, split_lines, LineClass,
};

fn render_all(lines: &[&str]) -> Vec<String> {
    let owned: Vec<String> = lines.iter().map(|s| s.to_string()).collect();
    render(&owned)
}

#[test]
fn line_count_is_preserved() {
    let input = vec![
        "# Title".to_string(),
        "".to_string(),
        "- a".to_string(),
        "```sh".to_string(),
        "$ ls".to_string(),
        "```".to_string(),
        "tail".to_string(),
    ];
    let out = render(&input);
    assert_eq!(out.len(), input.len());
}

#[test]
fn rendering_is_deterministic() {
    let input = vec![
        "# Title".to_string(),
        "- item".to_string(),
        "1. 2".to_string(),
        "plain".to_string(),
    ];
    let first = render(&input);
    let second = render(&input);
    assert_eq!(first, second);
    assert_eq!(classify("- item"), classify("- item"));
}

#[test]
fn heading_marker_is_stripped() {
    assert_eq!(classify("# Title"), LineClass::Heading1);
    assert_eq!(render_line("# Title"), "Title");
    let styled = render_line_styled("# Title");
    assert!(styled.contains("Title"));
    assert!(!styled.contains("# "));
}

#[test]
fn second_and_third_level_headings() {
    assert_eq!(classify("## Sub"), LineClass::Heading2);
    assert_eq!(render_line("## Sub"), "Sub");
    assert_eq!(classify("### Deep"), LineClass::Heading3);
    assert_eq!(render_line("### Deep"), "Deep");
    // A fourth marker has no space after the third, so nothing matches.
    assert_eq!(classify("#### x"), LineClass::PlainText);
    assert_eq!(render_line("#### x"), "#### x");
}

#[test]
fn bullet_content_is_kept_verbatim() {
    assert_eq!(classify("- item"), LineClass::BulletItem);
    assert_eq!(render_line("- item"), "  \u{2022} item");
    assert_eq!(render_line("* item"), "  \u{2022} item");
}

#[test]
fn numbered_line_splits_at_first_period() {
    assert_eq!(classify("1. 2"), LineClass::NumberedItem);
    assert_eq!(render_line("1. 2"), "  1.  2");
    // Periods after the first are preserved in the remainder.
    assert_eq!(classify("1.2.3"), LineClass::NumberedItem);
    assert_eq!(render_line("1.2.3"), "  1. 2.3");
}

#[test]
fn numbered_rule_wants_digits_periods_spaces_only() {
    // A letter anywhere keeps the line out of the numbered class.
    assert_eq!(classify("1. First step"), LineClass::PlainText);
    assert_eq!(render_line("1. First step"), "1. First step");
    // A period is required.
    assert_eq!(classify("12 34"), LineClass::PlainText);
}

#[test]
fn plain_text_is_unchanged() {
    assert_eq!(classify("plain text"), LineClass::PlainText);
    assert_eq!(render_line("plain text"), "plain text");
    let styled = render_line_styled("plain text");
    assert_eq!(styled, "plain text");
}

#[test]
fn code_block_renders_label_line_divider() {
    let out = render_all(&["```bash", "echo hi", "```"]);
    assert_eq!(out.len(), 3);
    assert_eq!(out[0], "Code (bash)");
    assert_eq!(out[1], "echo hi");
    assert_eq!(out[2], "\u{2500}".repeat(35));
}

#[test]
fn shell_commands_are_indented() {
    assert_eq!(classify("$ ls"), LineClass::ShellCommand);
    assert_eq!(render_line("$ ls"), "  $ ls");
    assert_eq!(classify("   sudo apt update"), LineClass::ShellCommand);
    assert_eq!(render_line("   sudo apt update"), "     sudo apt update");
    assert_eq!(classify("echo $HOME"), LineClass::PlainText);
}

#[test]
fn empty_blob_renders_one_empty_line() {
    let lines = split_lines("");
    assert_eq!(lines, vec!["".to_string()]);
    assert_eq!(format_output_plain(""), "\n");
}

#[test]
fn split_and_join_lines() {
    assert_eq!(split_lines("a\nb"), vec!["a".to_string(), "b".to_string()]);
    // A trailing newline ends the last line instead of opening an empty one.
    assert_eq!(
        split_lines("a\n\nb\n"),
        vec!["a".to_string(), "".to_string(), "b".to_string()]
    );
    assert_eq!(split_lines("\n"), vec!["".to_string()]);
    let lines = vec!["x".to_string(), "y".to_string()];
    assert_eq!(join_lines(&lines), "x\ny\n");
}

#[test]
fn formatted_blob_has_one_terminated_line_per_input_line() {
    let blob = "# Title\n- item\nplain";
    let plain = format_output_plain(blob);
    assert_eq!(plain, "Title\n  \u{2022} item\nplain\n");
    let styled = format_output(blob);
    assert_eq!(styled.matches('\n').count(), 3);
    assert!(styled.contains("Title"));
    assert!(styled.contains("\u{2022} item"));
    assert!(styled.contains("plain"));
}

#[test]
fn unicode_content_passes_through() {
    assert_eq!(render_line("caf\u{e9} \u{1f50d}"), "caf\u{e9} \u{1f50d}");
    assert_eq!(render_line("- caf\u{e9}"), "  \u{2022} caf\u{e9}");
}
