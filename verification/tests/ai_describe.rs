use majjit::ai_describe::{
    build_stdin_payload, describe_invocation, check_generate_request, clean_generated_message, finish_generate,
    is_blank_str, join_bookmarks, strip_markdown_fences, strip_think_blocks, DescribeError,
};

#[test]
fn test_strip_markdown_fences_plain() {
    assert_eq!(strip_markdown_fences("fix: update login"), "fix: update login");
}

#[test]
fn test_strip_markdown_fences_with_fences() {
    let input = "Here's a commit message:\n\n```\nfeat: add user auth\n\nAdded JWT-based authentication.\n```\n";
    assert_eq!(
        strip_markdown_fences(input),
        "feat: add user auth\n\nAdded JWT-based authentication."
    );
}

#[test]
fn test_strip_single_backticks() {
    assert_eq!(strip_markdown_fences("`feat: blah blah blah`"), "feat: blah blah blah");
}

#[test]
fn test_strip_single_backticks_first_line_only() {
    let input = "`feat: something something`\n\nother content of the commit here stuff\nblah blah blah";
    assert_eq!(
        strip_markdown_fences(input),
        "feat: something something\n\nother content of the commit here stuff\nblah blah blah"
    );
}

#[test]
fn test_strip_markdown_fences_with_language() {
    let input = "```text\nfix: resolve race condition\n```";
    assert_eq!(strip_markdown_fences(input), "fix: resolve race condition");
}

#[test]
fn test_clean_generated_message_rejects_empty_stdout() {
    let err = clean_generated_message("\n\t\n", "").unwrap_err();
    assert_eq!(err.to_string(), "Generate command produced no commit message");
}

#[test]
fn test_clean_generated_message_rejects_empty_fence() {
    let err = clean_generated_message("```text\n\n```", "model returned nothing").unwrap_err();
    assert_eq!(
        err.to_string(),
        "Generate command produced no commit message: model returned nothing"
    );
}

#[test]
fn test_build_stdin_payload_no_bookmarks() {
    assert_eq!(build_stdin_payload("diff body\n", &[]), "diff body\n");
}

#[test]
fn test_build_stdin_payload_single_bookmark() {
    assert_eq!(
        build_stdin_payload("diff body\n", &["feat/x".to_string()]),
        "Bookmarks: feat/x\n\ndiff body\n"
    );
}

#[test]
fn test_build_stdin_payload_multiple_bookmarks() {
    assert_eq!(
        build_stdin_payload("d\n", &["a".to_string(), "b".to_string()]),
        "Bookmarks: a b\n\nd\n"
    );
}

// The checks that `generate_message` makes before it runs anything.
#[test]
fn test_generate_message_empty_command_errors() {
    let err = check_generate_request("diff\n", "   ").unwrap_err();
    assert!(err.to_string().contains("No AI command configured"));
}

#[test]
fn test_generate_message_empty_diff_errors() {
    let err = check_generate_request("  \n ", "cat").unwrap_err();
    assert_eq!(err.to_string(), "No changes to describe");
}

#[test]
fn generate_request_accepted_with_command_and_diff() {
    assert!(check_generate_request("diff\n", "cat").is_ok());
}

#[test]
fn not_configured_message_is_exact() {
    assert_eq!(
        DescribeError::NotConfigured.to_string(),
        "No AI command configured. Set it with:\n  jj config set --user majjit.ai-describe-command '<command>'"
    );
}

#[test]
fn finish_generate_reports_failed_command_with_trimmed_stderr() {
    let err = finish_generate(false, "ignored", "  boom \n").unwrap_err();
    assert!(matches!(&err, DescribeError::CommandFailed { stderr } if stderr == "boom"));
    assert_eq!(err.to_string(), "Generate command failed: boom");
}

#[test]
fn finish_generate_cleans_successful_output() {
    assert_eq!(finish_generate(true, "feat: hi\n", "").unwrap(), "feat: hi");
    assert_eq!(
        finish_generate(true, "Bookmarks: feat/x\n\nbody\n", "").unwrap(),
        "Bookmarks: feat/x\n\nbody"
    );
}

#[test]
fn finish_generate_blank_output_is_no_message() {
    let err = finish_generate(true, "  ", " why ").unwrap_err();
    assert!(matches!(&err, DescribeError::NoMessage { stderr } if stderr == "why"));
}

#[test]
fn think_blocks_are_stripped_before_the_message() {
    let out = clean_generated_message("<think>\nreasoning here\n</think>\n\nfix: the bug\n", "").unwrap();
    assert_eq!(out, "fix: the bug");
}

#[test]
fn every_think_block_is_stripped() {
    assert_eq!(strip_think_blocks("a<think>x</think>b<think>y</think>c"), "abc");
}

#[test]
fn unclosed_think_block_is_kept() {
    assert_eq!(strip_think_blocks("<think>never closed"), "<think>never closed");
}

#[test]
fn think_block_inside_fences_output() {
    let out = clean_generated_message("<think>plan</think>```\nfeat: x\n```", "").unwrap();
    assert_eq!(out, "feat: x");
}

#[test]
fn only_think_block_is_no_message() {
    let err = clean_generated_message("<think>all reasoning</think>", "").unwrap_err();
    assert_eq!(err.to_string(), "Generate command produced no commit message");
}

#[test]
fn fence_without_closing_uses_rest() {
    assert_eq!(strip_markdown_fences("intro ```\nfeat: y\nmore"), "feat: y\nmore");
}

#[test]
fn fence_without_newline_after_opening() {
    assert_eq!(strip_markdown_fences("```feat: z```"), "feat: z");
}

#[test]
fn stripped_message_is_trimmed() {
    let out = strip_markdown_fences("  \n `x` \n  ");
    assert_eq!(out, out.trim());
}

#[test]
fn blank_detection_uses_unicode_whitespace() {
    assert!(is_blank_str(" \t\n\u{a0}\u{3000}"));
    assert!(!is_blank_str(" x "));
}

#[test]
fn bookmarks_joined_by_spaces() {
    assert_eq!(join_bookmarks(&["bk1".to_string(), "bk2".to_string()]), "bk1 bk2");
    assert_eq!(join_bookmarks(&[]), "");
}

#[test]
fn invocation_runs_the_command_through_sh() {
    let inv = describe_invocation("d\n", &["bk1".to_string(), "bk2".to_string()], "chg", "cat").unwrap();
    assert_eq!(inv.program, "sh");
    assert_eq!(inv.args, vec!["-c", "cat"]);
    assert_eq!(
        inv.env,
        vec![
            ("MAJJIT_AI_DESCRIBE_CHANGE_ID".to_string(), "chg".to_string()),
            ("MAJJIT_AI_DESCRIBE_BOOKMARKS".to_string(), "bk1 bk2".to_string()),
            ("MAJJIT_AI_DESCRIBE_DIFF_BYTES".to_string(), "2".to_string()),
        ]
    );
    assert_eq!(inv.stdin, "Bookmarks: bk1 bk2\n\nd\n");
}

#[test]
fn invocation_refuses_blank_command_and_diff() {
    assert!(matches!(describe_invocation("d", &[], "c", " "), Err(DescribeError::NotConfigured)));
    assert!(matches!(describe_invocation(" ", &[], "c", "cat"), Err(DescribeError::NoChanges)));
}

#[test]
fn diff_size_is_counted_in_bytes() {
    let inv = describe_invocation("é\n", &[], "c", "cat").unwrap();
    assert_eq!(inv.env[2].1, "3");
}

// The command's process is run by the caller; here `cat`, `printf` and
// `false` are played by handing back what each would print.

#[test]
fn test_generate_message_pipes_diff_to_stdin() {
    // `cat` echoes stdin; with no bookmarks the payload is just the diff.
    let inv = describe_invocation("feat: hi\n", &[], "abc123", "cat").unwrap();
    assert_eq!(inv.args, vec!["-c", "cat"]);
    let out = finish_generate(true, &inv.stdin, "").unwrap();
    assert_eq!(out, "feat: hi");
}

#[test]
fn test_generate_message_includes_bookmark_header() {
    let inv = describe_invocation("body\n", &["feat/x".to_string()], "abc123", "cat").unwrap();
    let out = finish_generate(true, &inv.stdin, "").unwrap();
    assert_eq!(out, "Bookmarks: feat/x\n\nbody");
}

#[test]
fn test_generate_message_exports_bookmark_env() {
    let inv = describe_invocation(
        "d\n",
        &["bk1".to_string(), "bk2".to_string()],
        "chg",
        "printf %s \"$MAJJIT_AI_DESCRIBE_BOOKMARKS\"",
    )
    .unwrap();
    let exported = inv
        .env
        .iter()
        .find(|(name, _)| name == "MAJJIT_AI_DESCRIBE_BOOKMARKS")
        .map(|(_, value)| value.clone())
        .unwrap();
    let out = finish_generate(true, &exported, "").unwrap();
    assert_eq!(out, "bk1 bk2");
}

#[test]
fn test_generate_message_nonzero_exit_errors() {
    assert!(describe_invocation("d\n", &[], "chg", "false").is_ok());
    let err = finish_generate(false, "", "").unwrap_err();
    assert!(err.to_string().contains("Generate command failed"));
}
