use majjit::log_tree::{RowColor, RowPiece};
use majjit::model::{GlobalArgs, Term};
use majjit::shell_out::{
    ai_describe_command_argv, combine_output, commit_message_args, delta_cleared_env, revsets_log_argv, config_get_argv, delta_render_args, description_args,
    diff_git_args, diff_git_file_args, ensure_valid_repo_argv, new_merge_args, optional_config_value,
    rendered_file_diff, run_tuicr, split_args, trimmed_stdout, tuicr_args, tuicr_outcome,
    DiffRenderAction, DiffRenderEvent, JjCommand, JjCommandError, ProcessOutput, RawArgsError,
    TuicrAction, TuicrError, TuicrEvent, TuicrLaunchFailure, TuicrTarget,
};

fn repo() -> GlobalArgs {
    GlobalArgs { repository: "/repo".to_string(), ignore_immutable: false }
}

/// Drive a tuicr review, recording each outside step, with the given
/// outcomes for handing over the terminal, running tuicr and taking it back.
fn drive_tuicr(
    relinquish: Result<(), String>,
    run: Result<bool, TuicrLaunchFailure>,
    takeover: Result<(), String>,
) -> (Result<(), TuicrError>, Vec<&'static str>) {
    let mut events = Vec::new();
    let mut relinquish = Some(relinquish);
    let mut run = Some(run);
    let mut takeover = Some(takeover);
    let mut event = TuicrEvent::Start;
    loop {
        match run_tuicr("/repo", &TuicrTarget::WorkingCopy, event) {
            TuicrAction::Relinquish => {
                events.push("relinquish");
                event = TuicrEvent::Relinquished(relinquish.take().unwrap());
            }
            TuicrAction::Run { program, args, dir } => {
                assert_eq!(program, "tuicr");
                assert_eq!(args, vec!["-w"]);
                assert_eq!(dir, "/repo");
                events.push("run");
                event = TuicrEvent::Ran(run.take().unwrap());
            }
            TuicrAction::TakeOver(process) => {
                events.push("takeover");
                event = TuicrEvent::TookOver { process, takeover: takeover.take().unwrap() };
            }
            TuicrAction::Finish(result) => return (result, events),
        }
    }
}

#[test]
fn tuicr_target_arguments_are_exact() {
    assert_eq!(tuicr_args(&TuicrTarget::WorkingCopy), vec!["-w"]);
    assert_eq!(
        tuicr_args(&TuicrTarget::Change("CHANGE".to_string())),
        vec!["-r", "CHANGE-..CHANGE"]
    );
    assert_eq!(
        tuicr_args(&TuicrTarget::Range { base: "BASE".to_string(), tip: "TIP".to_string() }),
        vec!["-r", "BASE..TIP"]
    );
}

#[test]
fn tuicr_uses_repository_as_current_dir() {
    match run_tuicr("/repo", &TuicrTarget::WorkingCopy, TuicrEvent::Relinquished(Ok(()))) {
        TuicrAction::Run { program, dir, .. } => {
            assert_eq!(program, "tuicr");
            assert_eq!(dir, "/repo");
        }
        _ => panic!("expected tuicr to run"),
    }
}

#[test]
fn tuicr_accepts_successful_process_and_recovers_terminal() {
    let (result, events) = drive_tuicr(Ok(()), Ok(true), Ok(()));
    assert!(result.is_ok());
    assert_eq!(events, ["relinquish", "run", "takeover"]);
}

#[test]
fn tuicr_reclaims_terminal_after_nonzero_exit() {
    let (result, events) = drive_tuicr(Ok(()), Ok(false), Ok(()));
    let error = result.unwrap_err();
    assert!(error.to_string().contains("tuicr exited unsuccessfully"));
    assert_eq!(events, ["relinquish", "run", "takeover"]);
}

#[test]
fn tuicr_takeover_failure_is_terminal() {
    let (result, events) = drive_tuicr(Ok(()), Ok(false), Err("takeover failed".to_string()));
    let error = result.unwrap_err();
    assert!(matches!(error, TuicrError::Terminal(_)));
    assert_eq!(events, ["relinquish", "run", "takeover"]);
}

#[test]
fn tuicr_reclaims_terminal_and_explains_missing_executable() {
    let (result, events) = drive_tuicr(Ok(()), Err(TuicrLaunchFailure::NotFound), Ok(()));
    let error = result.unwrap_err();
    assert_eq!(events, ["relinquish", "run", "takeover"]);
    let message = error.to_string();
    assert!(message.contains("tuicr"));
    assert!(message.contains("PATH"));
    assert!(message.contains("https://tuicr.dev"));
}

#[test]
fn tuicr_exposes_a_narrow_terminal_backed_adapter() {
    let _: fn(&str, &TuicrTarget, TuicrEvent) -> TuicrAction = run_tuicr;
}

#[test]
fn tuicr_relinquish_failure_stops_before_running() {
    let (result, events) = drive_tuicr(Err("no tty".to_string()), Ok(true), Ok(()));
    assert!(matches!(result, Err(TuicrError::Terminal(ref m)) if m == "no tty"));
    assert_eq!(events, ["relinquish"]);
}

#[test]
fn tuicr_other_launch_failure_keeps_its_message() {
    let r = tuicr_outcome(Err(TuicrLaunchFailure::Other("permission denied".to_string())), Ok(()));
    assert!(matches!(r, Err(TuicrError::Launch(ref m)) if m == "permission denied"));
}

#[test]
fn test_diff_git_args() {
    assert_eq!(
        diff_git_args("abc123"),
        ["diff", "--ignore-working-copy", "--git", "--revisions", "abc123"]
    );
}

#[test]
fn test_description_args() {
    assert_eq!(
        description_args("abc123"),
        ["log", "--ignore-working-copy", "--no-graph", "--revisions", "abc123", "-T", "description"]
    );
}

#[test]
fn test_new_merge_args() {
    assert_eq!(
        new_merge_args("main@origin", "feat/variables", "Merge feat/variables into main"),
        ["new", "--message", "Merge feat/variables into main", "main@origin", "feat/variables"]
    );
}

#[test]
fn test_commit_message_args_without_path() {
    assert_eq!(
        commit_message_args("feat: add thing", None),
        vec!["commit", "--message", "feat: add thing"]
    );
}

#[test]
fn test_commit_message_args_with_path() {
    assert_eq!(
        commit_message_args("feat: add thing", Some("src/main.rs")),
        vec!["commit", "--message", "feat: add thing", "src/main.rs"]
    );
}

#[test]
fn test_split_args_default() {
    assert_eq!(
        split_args("abc123", "feat: part one", false, None, None),
        vec!["split", "--revision", "abc123", "--message", "feat: part one"]
    );
}

#[test]
fn test_split_args_parallel() {
    assert_eq!(
        split_args("abc123", "feat: part one", true, None, None),
        vec!["split", "--revision", "abc123", "--message", "feat: part one", "--parallel"]
    );
}

#[test]
fn test_split_args_onto_destination() {
    assert_eq!(
        split_args("abc123", "feat: part one", false, Some("--onto"), Some("def456")),
        vec!["split", "--revision", "abc123", "--message", "feat: part one", "--onto", "def456"]
    );
}

#[test]
fn test_split_args_parallel_with_destination() {
    assert_eq!(
        split_args("abc123", "m", true, Some("--insert-after"), Some("def456")),
        vec!["split", "--revision", "abc123", "--message", "m", "--parallel", "--insert-after", "def456"]
    );
}

#[test]
fn split_destination_needs_both_parts() {
    assert_eq!(
        split_args("a", "m", false, Some("--onto"), None),
        vec!["split", "--revision", "a", "--message", "m"]
    );
}

#[test]
fn diff_git_file_args_name_the_file() {
    assert_eq!(
        diff_git_file_args("abc", "src/x.rs"),
        ["diff", "--ignore-working-copy", "--git", "--revisions", "abc", "src/x.rs"]
    );
}

#[test]
fn combine_output_joins_with_newline() {
    assert_eq!(combine_output(String::new(), String::new()), "");
    assert_eq!(combine_output("out".to_string(), String::new()), "out");
    assert_eq!(combine_output(String::new(), "err".to_string()), "err");
    assert_eq!(combine_output("out".to_string(), "err".to_string()), "out\nerr");
}

#[test]
fn command_argv_starts_with_global_options() {
    let argv = JjCommand::jj_undo(repo()).argv();
    assert_eq!(argv[0], "--color");
    assert_eq!(argv[1], "always");
    let n = argv.len();
    assert_eq!(argv[n - 3], "--repository");
    assert_eq!(argv[n - 2], "/repo");
    assert_eq!(argv[n - 1], "undo");
}

#[test]
fn ignore_immutable_is_passed_before_the_arguments() {
    let g = GlobalArgs { repository: "/r".to_string(), ignore_immutable: true };
    let argv = JjCommand::jj_edit("abc", g).argv();
    let n = argv.len();
    assert_eq!(argv[n - 3], "--ignore-immutable");
    assert_eq!(argv[n - 2], "edit");
    assert_eq!(argv[n - 1], "abc");
}

#[test]
fn uncolored_commands_ask_for_no_color() {
    let argv = JjCommand::jj_diff_git_file("abc", "f", repo()).argv();
    assert_eq!(argv[1], "never");
}

#[test]
fn run_reads_the_requested_stream() {
    let out = ProcessOutput { success: true, stdout: "log".to_string(), stderr: "warn".to_string() };
    assert_eq!(JjCommand::jj_log("@", repo()).run(out).unwrap(), "log");
    let out = ProcessOutput { success: true, stdout: "x".to_string(), stderr: "done".to_string() };
    assert_eq!(JjCommand::jj_undo(repo()).run(out).unwrap(), "done");
}

#[test]
fn run_failure_carries_trimmed_stderr() {
    let out = ProcessOutput { success: false, stdout: String::new(), stderr: " Error: no\n".to_string() };
    let err = JjCommand::jj_undo(repo()).run(out).unwrap_err();
    assert!(matches!(&err, JjCommandError::Failed { stderr } if stderr == "Error: no"));
    assert_eq!(err.to_string(), "Error: no");
}

#[test]
fn interactive_run_keeps_styled_stderr_only() {
    let cmd = JjCommand::jj_status(repo(), Term);
    assert!(cmd.interactive_term().is_some());
    let out = ProcessOutput {
        success: true,
        stdout: "ignored".to_string(),
        stderr: "\x1b[2Jdone \x1b[1mbold\x1b[0m".to_string(),
    };
    assert_eq!(cmd.run(out).unwrap(), "done \x1b[1mbold\x1b[0m");
}

#[test]
fn raw_commands_split_like_a_shell() {
    let cmd = JjCommand::jj_raw("log -r 'a b' --no-graph", repo()).unwrap();
    assert_eq!(cmd.display_args(), "log -r a b --no-graph");
    let argv = cmd.argv();
    assert_eq!(argv[argv.len() - 2], "a b");
    assert!(cmd.sync);
    let out = ProcessOutput { success: true, stdout: "o".to_string(), stderr: "e".to_string() };
    assert_eq!(cmd.run(out).unwrap(), "o\ne");
}

#[test]
fn raw_command_with_open_quote_is_refused() {
    let err = JjCommand::jj_raw("log -r 'oops", repo()).unwrap_err();
    assert!(matches!(err, RawArgsError::MissingClosingQuote));
    assert_eq!(err.to_string(), "missing closing quote");
    assert!(JjCommand::jj_raw_interactive("x \"y", repo(), Term).is_err());
}

#[test]
fn config_and_repo_argv() {
    assert_eq!(
        config_get_argv("/r", "revsets.log"),
        ["--repository", "/r", "config", "get", "revsets.log"]
    );
    assert_eq!(
        ensure_valid_repo_argv("/r"),
        ["--repository", "/r", "workspace", "root", "--color", "always"]
    );
}

#[test]
fn config_values_are_trimmed_or_absent() {
    let ok = ProcessOutput { success: true, stdout: " all() \n".to_string(), stderr: String::new() };
    assert_eq!(trimmed_stdout(ok).unwrap(), "all()");
    let bad = ProcessOutput { success: false, stdout: String::new(), stderr: "no repo\n".to_string() };
    assert!(matches!(trimmed_stdout(bad), Err(JjCommandError::Failed { stderr }) if stderr == "no repo"));
    let unset = ProcessOutput { success: false, stdout: String::new(), stderr: "unset".to_string() };
    assert_eq!(optional_config_value(unset), None);
    let blank = ProcessOutput { success: true, stdout: "  \n".to_string(), stderr: String::new() };
    assert_eq!(optional_config_value(blank), None);
    let set = ProcessOutput { success: true, stdout: "cat\n".to_string(), stderr: String::new() };
    assert_eq!(optional_config_value(set), Some("cat".to_string()));
}

#[test]
fn delta_arguments_are_exact() {
    assert_eq!(
        delta_render_args(),
        [
            "--color-only",
            "--line-numbers",
            "--no-gitconfig",
            "--paging=never",
            "--true-color=always",
            "--width=variable",
            "--syntax-theme",
            "Dracula",
        ]
    );
}

#[test]
fn rendering_with_delta_pipes_the_raw_diff() {
    let g = repo();
    let cmd = match rendered_file_diff("abc", "f.rs", &g, DiffRenderEvent::Start { delta_available: true }) {
        DiffRenderAction::RunRawDiff(cmd) => cmd,
        _ => panic!("expected the raw diff"),
    };
    assert_eq!(cmd.display_args(), "diff --ignore-working-copy --git --revisions abc f.rs");
    assert_eq!(cmd.argv()[1], "never");
    match rendered_file_diff("abc", "f.rs", &g, DiffRenderEvent::RawDiff(Ok("raw".to_string()))) {
        DiffRenderAction::RunDelta(raw) => assert_eq!(raw, "raw"),
        _ => panic!("expected delta"),
    }
    match rendered_file_diff("abc", "f.rs", &g, DiffRenderEvent::Delta(Some("pretty".to_string()))) {
        DiffRenderAction::Finish(Ok(s)) => assert_eq!(s, "pretty"),
        _ => panic!("expected the rendered diff"),
    }
}

#[test]
fn rendering_falls_back_to_colored_diff() {
    let g = repo();
    for event in [DiffRenderEvent::Start { delta_available: false }, DiffRenderEvent::Delta(None)] {
        match rendered_file_diff("abc", "f.rs", &g, event) {
            DiffRenderAction::RunColoredDiff(cmd) => {
                assert_eq!(cmd.display_args(), "diff --ignore-working-copy --git --revisions abc f.rs");
                assert_eq!(cmd.argv()[1], "always");
            }
            _ => panic!("expected the colored diff"),
        }
    }
    match rendered_file_diff("abc", "f.rs", &g, DiffRenderEvent::ColoredDiff(Ok("c".to_string()))) {
        DiffRenderAction::Finish(Ok(s)) => assert_eq!(s, "c"),
        _ => panic!("expected the colored diff output"),
    }
}

#[test]
fn rendering_stops_on_a_failed_command() {
    let g = repo();
    let e = JjCommandError::new_failed("bad".to_string());
    match rendered_file_diff("abc", "f.rs", &g, DiffRenderEvent::RawDiff(Err(e))) {
        DiffRenderAction::Finish(Err(JjCommandError::Failed { stderr })) => assert_eq!(stderr, "bad"),
        _ => panic!("expected the error"),
    }
}

#[test]
fn other_errors_keep_their_message() {
    assert_eq!(JjCommandError::new_other("spawn failed".to_string()).to_string(), "spawn failed");
}

#[test]
fn display_args_join_with_spaces() {
    let cmd = JjCommand::jj_new("main", &["--no-edit"], repo());
    assert_eq!(cmd.display_args(), "new --no-edit main");
}

#[test]
fn command_announces_itself() {
    let lines = JjCommand::jj_undo(repo()).to_lines();
    assert_eq!(lines.len(), 2);
    assert!(matches!(&lines[0][0], RowPiece::Colored(t, RowColor::Yellow) if t == "❯"));
    assert!(matches!(&lines[0][1], RowPiece::Raw(t) if t == " jj "));
    assert!(matches!(&lines[0][2], RowPiece::Raw(t) if t == "undo"));
    assert!(lines[1].is_empty());
}

#[test]
fn config_keys_are_exact() {
    assert_eq!(revsets_log_argv("/r"), ["--repository", "/r", "config", "get", "revsets.log"]);
    assert_eq!(
        ai_describe_command_argv("/r"),
        ["--repository", "/r", "config", "get", "majjit.ai-describe-command"]
    );
}

#[test]
fn delta_environment_is_cleared() {
    assert_eq!(
        delta_cleared_env(),
        ["DELTA_FEATURES", "GIT_CONFIG_PARAMETERS", "BAT_THEME", "BAT_STYLE"]
    );
}
