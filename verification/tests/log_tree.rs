use majjit::ansi::strip_ansi;
use majjit::log_tree::{
    derive_graph_indent, diff_body, get_parent_tree_position, split_line1, split_line2_gutter,
    Commit, CommitOrText, DiffLine, FileDiff, FileDiffStatus, FoldAction, JjLog, LogTreeError,
    TreeNode,
};
use majjit::model::GlobalArgs;

#[test]
fn diff_body_keeps_lines_from_first_hunk_onward() {
    let lines = vec![
        "diff --git a/foo.rs b/foo.rs",
        "index 111..222 100644",
        "--- a/foo.rs",
        "+++ b/foo.rs",
        "@@ -1,2 +1,2 @@",
        " context",
        "-removed",
        "+added",
    ];
    assert_eq!(
        diff_body(&lines),
        vec!["@@ -1,2 +1,2 @@", " context", "-removed", "+added"],
    );
}

#[test]
fn diff_body_keeps_every_hunk() {
    let lines = vec![
        "diff --git a/foo b/foo",
        "@@ -1,1 +1,1 @@",
        "-a",
        "+b",
        "@@ -10,1 +10,1 @@",
        "-c",
        "+d",
    ];
    let body = diff_body(&lines);
    assert_eq!(body.len(), 6);
    assert!(body[0].starts_with("@@"));
}

#[test]
fn diff_body_detects_hunk_through_ansi_color() {
    let lines = vec![
        "\x1b[1mdiff --git a/f b/f\x1b[0m",
        "\x1b[36m@@ -1,1 +1,1 @@\x1b[0m",
        "\x1b[32m+x\x1b[0m",
    ];
    let body = diff_body(&lines);
    assert_eq!(body.len(), 2);
    assert!(strip_ansi(body[0]).starts_with("@@"));
}

#[test]
fn diff_body_content_line_starting_with_at_is_not_a_header() {
    let lines = vec!["diff --git a/f b/f", "@@ -1,1 +1,1 @@", " @@ this is content"];
    let body = diff_body(&lines);
    assert_eq!(body, vec!["@@ -1,1 +1,1 @@", " @@ this is content"]);
}

#[test]
fn diff_body_binary_file_keeps_only_binary_notice() {
    let lines = vec![
        "diff --git a/img.png b/img.png",
        "index 111..222 100644",
        "Binary files a/img.png and b/img.png differ",
    ];
    assert_eq!(diff_body(&lines), vec!["Binary files a/img.png and b/img.png differ"]);
}

#[test]
fn diff_body_hunkless_diff_keeps_metadata() {
    let lines = vec!["diff --git a/old b/new", "rename from old", "rename to new"];
    assert_eq!(diff_body(&lines), vec!["rename from old", "rename to new"]);
}

#[test]
fn diff_body_mode_change_keeps_mode_lines_drops_index() {
    let lines = vec!["diff --git a/s.sh b/s.sh", "old mode 100644", "new mode 100755"];
    assert_eq!(diff_body(&lines), vec!["old mode 100644", "new mode 100755"]);
}

#[test]
fn diff_body_of_nothing_is_nothing() {
    let lines: Vec<&str> = vec![];
    assert!(diff_body(&lines).is_empty());
}

const M: &str = "_MAJJIT_";

fn line1(gutter: &str, fields: [&str; 12], rest: &str) -> String {
    let mut s = String::from(gutter);
    s.push_str("  ");
    for f in fields.iter() {
        s.push_str(M);
        s.push_str(f);
    }
    s.push_str(M);
    s.push_str(rest);
    s
}

fn sample_line1() -> String {
    line1(
        "@",
        [
            "abc", "def", "Y", "N", "N", "N", "default", "main dev", "", "a@b.c", "2024",
            "first line",
        ],
        " abc me 2024",
    )
}

#[test]
fn commit_reads_fields_and_gutters() {
    let c = Commit::new(sample_line1(), Some("│  first line".to_string())).unwrap();
    assert_eq!(c.change_id, "abc");
    assert_eq!(c.commit_id, "def");
    assert!(c.current_working_copy);
    assert!(!c.has_conflict);
    assert_eq!(c.workspaces, vec!["default"]);
    assert_eq!(c.bookmarks, vec!["main", "dev"]);
    assert!(c.tags.is_empty());
    assert_eq!(c.description_first_line.as_deref(), Some("first line"));
    assert_eq!(c.email, "a@b.c");
    assert_eq!(c.line1_gutter_ansi, "@");
    assert_eq!(c.line1_ansi, " abc me 2024");
    assert_eq!(c.line2_graph_chars, "│  ");
    assert_eq!(c.line2_ansi, "first line");
    assert_eq!(c.graph_indent, "│ ");
    assert!(!c.unfolded);
    assert!(!c.loaded);
}

#[test]
fn root_commit_has_no_second_line() {
    let l = line1("◆", ["zzz", "000", "N", "N", "Y", "Y", "", "", "", "", "", ""], " root()");
    let c = Commit::new(l, None).unwrap();
    assert!(c.is_root);
    assert!(c.empty);
    assert_eq!(c.description_first_line, None);
    assert_eq!(c.line2_ansi, "");
    assert_eq!(c.graph_indent, "");
}

#[test]
fn commit_without_marker_is_refused() {
    let err = Commit::new("@  plain text".to_string(), None).unwrap_err();
    assert!(matches!(err, LogTreeError::MissingMarker { .. }));
    assert_eq!(
        err.to_string(),
        "Commit line 1 missing leading _MAJJIT_ marker: \"@  plain text\""
    );
}

#[test]
fn commit_with_one_marker_is_refused() {
    let err = Commit::new("@  _MAJJIT_abc".to_string(), None).unwrap_err();
    assert!(matches!(err, LogTreeError::SingleMarker { .. }));
    assert_eq!(
        err.to_string(),
        "Commit line 1 has only one _MAJJIT_ marker: \"@  _MAJJIT_abc\""
    );
}

#[test]
fn commit_with_wrong_field_count_is_refused() {
    let err = Commit::new("@  _MAJJIT_a_MAJJIT_b_MAJJIT_ x".to_string(), None).unwrap_err();
    assert!(matches!(err, LogTreeError::FieldCount { found: 2, .. }));
    assert_eq!(
        err.to_string(),
        "Commit marker block has 2 fields, expected 12: \"_MAJJIT_a_MAJJIT_b_MAJJIT_\""
    );
}

#[test]
fn split_line1_keeps_extra_gutter_padding() {
    let l = line1("│ ○", ["a", "b", "N", "N", "N", "N", "", "", "", "", "", "d"], "rest");
    let parts = split_line1(&format!("  {}", l)).unwrap();
    assert_eq!(parts.gutter_ansi, "  │ ○");
    assert_eq!(parts.fields.len(), 12);
    assert_eq!(parts.fields[11], "d");
    assert_eq!(parts.line1_ansi, "rest");
}

#[test]
fn split_line2_gutter_stops_at_first_content_char() {
    let (g, d) = split_line2_gutter("│ │  ├─╮ text │ more");
    assert_eq!(g, "│ │  ├─╮ ");
    assert_eq!(d, "text │ more");
}

#[test]
fn graph_indent_keeps_surviving_branches() {
    assert_eq!(derive_graph_indent("│ @", "│ ├─╮ "), "│ │ │");
    assert_eq!(derive_graph_indent("│", "──"), "│");
    assert_eq!(derive_graph_indent("", ""), "");
}

#[test]
fn file_diff_reads_status_and_path() {
    let f = FileDiff::new("abc".to_string(), "M src/main.rs".to_string(), "│ ".to_string()).unwrap();
    assert!(matches!(f.status, FileDiffStatus::Modified));
    assert_eq!(f.path, "src/main.rs");
    assert_eq!(f.description, "src/main.rs");
    assert_eq!(f.change_id, "abc");
    assert_eq!(f.status.label(), "modified");
}

#[test]
fn file_diff_rename_takes_new_path() {
    let f = FileDiff::new("abc".to_string(), "R src/{old.rs => new.rs}".to_string(), String::new()).unwrap();
    assert!(matches!(f.status, FileDiffStatus::Renamed));
    assert_eq!(f.path, "src/new.rs");
    assert_eq!(f.description, "src/{old.rs => new.rs}");
}

#[test]
fn file_diff_copy_with_prefix_and_suffix() {
    let f = FileDiff::new("c".to_string(), "C a/{b => c}/d.txt".to_string(), String::new()).unwrap();
    assert!(matches!(f.status, FileDiffStatus::Copied));
    assert_eq!(f.path, "a/c/d.txt");
}

#[test]
fn file_diff_through_ansi_color() {
    let f = FileDiff::new("c".to_string(), "\x1b[32mA\x1b[0m  new.txt".to_string(), String::new()).unwrap();
    assert!(matches!(f.status, FileDiffStatus::Added));
    assert_eq!(f.path, "new.txt");
}

#[test]
fn file_diff_bad_line_is_refused() {
    let err = FileDiff::new("c".to_string(), "X what".to_string(), String::new()).unwrap_err();
    assert!(matches!(err, LogTreeError::FileDiffSyntax { .. }));
    assert_eq!(err.to_string(), "Cannot parse file diff string: X what");
}

#[test]
fn file_diff_bad_rename_is_refused() {
    let err = FileDiff::new("c".to_string(), "R no braces".to_string(), String::new()).unwrap_err();
    assert!(matches!(err, LogTreeError::RenameSyntax { .. }));
    assert_eq!(err.to_string(), "Cannot parse file diff rename/copied paths: no braces");
}

#[test]
fn diff_lines_end_with_divider() {
    let dls = DiffLine::load_all("diff --git a/f b/f\n@@ -1 +1 @@\n-a\n+b\n", "│ ");
    assert_eq!(dls.len(), 4);
    assert_eq!(dls[0].ansi_string, "@@ -1 +1 @@");
    assert_eq!(dls[3].ansi_string, "\x1b[35m~\x1b[0m");
    assert_eq!(dls[3].graph_indent, "│ ");
}

#[test]
fn empty_diff_has_no_lines() {
    assert!(DiffLine::load_all("", "").is_empty());
}

#[test]
fn parent_position_drops_last_index() {
    assert_eq!(get_parent_tree_position(&vec![3, 1, 4]), Some(vec![3, 1]));
    assert_eq!(get_parent_tree_position(&vec![3, 1]), Some(vec![3]));
    assert_eq!(get_parent_tree_position(&vec![3]), None);
}

fn sample_log_output() -> String {
    let c2 = line1("○", ["xyz", "987", "N", "N", "N", "N", "", "", "", "", "", "second"], " xyz");
    format!("{}\n│  first line\n{}\n│  second\n~  (elided revisions)\n", sample_line1(), c2)
}

fn loaded_log() -> JjLog {
    let mut log = JjLog::new().unwrap();
    log.load_log_tree(&sample_log_output(), "all()").unwrap();
    log
}

#[test]
fn log_reads_commits_and_info_text() {
    let log = loaded_log();
    assert_eq!(log.log_tree.len(), 3);
    assert!(matches!(&log.log_tree[0], CommitOrText::Commit(c) if c.change_id == "abc"));
    assert!(matches!(&log.log_tree[1], CommitOrText::Commit(c) if c.change_id == "xyz"));
    assert!(matches!(&log.log_tree[2], CommitOrText::InfoText(t) if t.ansi_string == "~  (elided revisions)"));
    assert_eq!(log.get_current_commit().map(|c| c.change_id.as_str()), Some("abc"));
}

#[test]
fn empty_log_is_empty_revset() {
    let mut log = JjLog::new().unwrap();
    let err = log.load_log_tree("  \n", "none()").unwrap_err();
    assert_eq!(err.to_string(), "Revset 'none()' is empty");
    assert!(log.log_tree.is_empty());
}

#[test]
fn flatten_lists_folded_entries() {
    let mut log = loaded_log();
    let positions = log.flatten_log();
    assert_eq!(positions, vec![vec![0], vec![1], vec![2]]);
    for (row, pos) in positions.iter().enumerate() {
        assert_eq!(log.log_tree[pos[0]].flat_log_idx(), row);
    }
}

#[test]
fn unfolding_a_commit_asks_for_its_file_diffs_then_lists_them() {
    let mut log = loaded_log();
    let g = GlobalArgs { repository: "/repo".to_string(), ignore_immutable: false };
    log.flatten_log();
    let action = log.toggle_fold(&g, &vec![0]).unwrap();
    let cmd = match action {
        FoldAction::LoadFileDiffs(cmd) => cmd,
        other => panic!("unexpected {:?}", other),
    };
    assert_eq!(
        cmd.display_args(),
        "diff --ignore-working-copy --summary --revisions abc"
    );
    let row = log.finish_fold_load(&vec![0], "M a.txt\nA b.txt\n").unwrap();
    assert_eq!(row, 0);
    let positions = log.flatten_log();
    assert_eq!(positions, vec![vec![0], vec![0, 0], vec![0, 1], vec![1], vec![2]]);
    assert_eq!(log.get_tree_file_diff(&vec![0, 1]).unwrap().path, "b.txt");
    match log.get_tree_node(&vec![0, 1]).unwrap() {
        TreeNode::FileDiff(f) => assert_eq!(f.flat_log_idx, 2),
        _ => panic!("expected a file diff"),
    }
}

#[test]
fn unfolding_a_file_diff_asks_for_its_lines_then_lists_them() {
    let mut log = loaded_log();
    let g = GlobalArgs { repository: "/repo".to_string(), ignore_immutable: false };
    log.toggle_fold(&g, &vec![0]).unwrap();
    log.finish_fold_load(&vec![0], "M a.txt\n").unwrap();
    log.flatten_log();
    match log.toggle_fold(&g, &vec![0, 0]).unwrap() {
        FoldAction::LoadDiffLines { change_id, path } => {
            assert_eq!(change_id, "abc");
            assert_eq!(path, "a.txt");
        }
        other => panic!("unexpected {:?}", other),
    }
    log.finish_fold_load(&vec![0, 0], "diff --git a/a.txt b/a.txt\n@@ -1 +1 @@\n-x\n+y\n").unwrap();
    let positions = log.flatten_log();
    assert_eq!(positions.len(), 3 + 1 + 4);
    assert_eq!(positions[2], vec![0, 0, 0]);
    assert_eq!(positions[5], vec![0, 0, 3]);
    match log.get_tree_node(&positions[5]).unwrap() {
        TreeNode::DiffLine(d) => {
            assert_eq!(d.ansi_string, "\x1b[35m~\x1b[0m");
            assert_eq!(d.flat_log_idx, 5);
        }
        _ => panic!("expected a diff line"),
    }
    // A position inside a diff is folded at its file.
    match log.toggle_fold(&g, &vec![0, 0, 2]).unwrap() {
        FoldAction::Done(row) => assert_eq!(row, 1),
        other => panic!("unexpected {:?}", other),
    }
    assert_eq!(log.flatten_log().len(), 3 + 1);
}

#[test]
fn folding_twice_restores_the_rows() {
    let mut log = loaded_log();
    let g = GlobalArgs { repository: "/repo".to_string(), ignore_immutable: false };
    log.toggle_fold(&g, &vec![0]).unwrap();
    log.finish_fold_load(&vec![0], "M a.txt\n").unwrap();
    let before = log.flatten_log();
    assert!(matches!(log.toggle_fold(&g, &vec![0]).unwrap(), FoldAction::Done(0)));
    assert_eq!(log.flatten_log(), vec![vec![0], vec![1], vec![2]]);
    assert!(matches!(log.toggle_fold(&g, &vec![0]).unwrap(), FoldAction::Done(0)));
    assert_eq!(log.flatten_log(), before);
}

#[test]
fn info_text_does_not_fold() {
    let mut log = loaded_log();
    let g = GlobalArgs { repository: "/repo".to_string(), ignore_immutable: false };
    log.flatten_log();
    assert!(matches!(log.toggle_fold(&g, &vec![2]).unwrap(), FoldAction::Done(2)));
    assert!(matches!(log.get_tree_node(&vec![2]).unwrap(), TreeNode::InfoText(_)));
}

#[test]
fn unloaded_children_are_refused() {
    let mut log = loaded_log();
    let g = GlobalArgs { repository: "/repo".to_string(), ignore_immutable: false };
    let err = log.toggle_fold(&g, &vec![1, 0]).unwrap_err();
    assert_eq!(err.to_string(), "Trying to get unloaded file diffs for commit");
    assert!(matches!(log.get_tree_node(&vec![1, 0]), Err(LogTreeError::UnloadedFileDiffs)));
    log.toggle_fold(&g, &vec![0]).unwrap();
    log.finish_fold_load(&vec![0], "M a.txt\n").unwrap();
    let err = log.get_tree_node(&vec![0, 0, 0]).unwrap_err();
    assert_eq!(err.to_string(), "Trying to get unloaded diff lines for file diff");
}

#[test]
fn bad_summary_leaves_commit_unloaded() {
    let mut log = loaded_log();
    let err = log.finish_fold_load(&vec![0], "?? what\n").unwrap_err();
    assert!(matches!(err, LogTreeError::FileDiffSyntax { .. }));
    match &log.log_tree[0] {
        CommitOrText::Commit(c) => {
            assert!(!c.loaded);
            assert!(c.file_diffs.is_empty());
        }
        _ => panic!("expected a commit"),
    }
}

#[test]
fn tree_commit_lookup() {
    let log = loaded_log();
    assert_eq!(log.get_tree_commit(&vec![1]).unwrap().change_id, "xyz");
    assert!(log.get_tree_commit(&vec![2]).is_none());
    assert!(log.get_tree_file_diff(&vec![1]).is_none());
}

fn text_of(piece: &majjit::log_tree::RowPiece) -> &str {
    match piece {
        majjit::log_tree::RowPiece::Raw(t)
        | majjit::log_tree::RowPiece::Colored(t, _)
        | majjit::log_tree::RowPiece::AnsiLine(t) => t.as_str(),
    }
}

#[test]
fn commit_renders_two_lines() {
    let c = Commit::new(sample_line1(), Some("│  first line".to_string())).unwrap();
    let lines = c.render();
    assert_eq!(lines.len(), 2);
    let l1: Vec<&str> = lines[0].iter().map(text_of).collect();
    assert_eq!(l1, vec!["@", " ", "▸", " ", " abc me 2024"]);
    let l2: Vec<&str> = lines[1].iter().map(text_of).collect();
    assert_eq!(l2, vec!["│  ", " ", "first line"]);
}

#[test]
fn file_diff_renders_status_and_description() {
    let mut f = FileDiff::new("c".to_string(), "R {a => b}.rs".to_string(), "│ ".to_string()).unwrap();
    f.unfolded = true;
    let lines = f.render();
    assert_eq!(lines.len(), 1);
    let l: Vec<&str> = lines[0].iter().map(text_of).collect();
    assert_eq!(l, vec!["│ ", "▾", " ", "renamed  {a => b}.rs"]);
    assert!(matches!(lines[0][3], majjit::log_tree::RowPiece::Colored(_, majjit::log_tree::RowColor::LightBlue)));
}

#[test]
fn diff_line_renders_under_indent() {
    let dls = DiffLine::load_all("@@ -1 +1 @@\n", "│ ");
    let lines = dls[0].render();
    let l: Vec<&str> = lines[0].iter().map(text_of).collect();
    assert_eq!(l, vec!["│ ", "  ", "@@ -1 +1 @@"]);
}

#[test]
fn every_listed_row_can_be_fetched_and_rendered() {
    let mut log = loaded_log();
    let g = GlobalArgs { repository: "/repo".to_string(), ignore_immutable: false };
    log.toggle_fold(&g, &vec![0]).unwrap();
    log.finish_fold_load(&vec![0], "M a.txt\n").unwrap();
    log.toggle_fold(&g, &vec![0, 0]).unwrap();
    log.finish_fold_load(&vec![0, 0], "@@ -1 +1 @@\n-x\n+y\n").unwrap();
    let positions = log.flatten_log();
    assert_eq!(positions.len(), 8);
    for pos in positions.iter() {
        assert!(log.node_path_in_range(pos));
        let node = log.get_tree_node(pos).unwrap();
        assert!(!node.render().is_empty());
    }
    assert!(!log.node_path_in_range(&vec![9]));
    assert!(!log.node_path_in_range(&vec![0, 5]));
    assert!(log.fold_position_in_range(&vec![1, 7]));
    assert!(!log.fold_position_in_range(&vec![0, 7]));
}

#[test]
fn diff_line_renders_true_color_delta_output() {
    // A representative `delta --color-only` line: 24-bit background + foreground,
    // a combined SGR sequence, and the leading '+' marker preserved as content.
    let ansi = "\x1b[48;2;0;40;0m+\x1b[38;2;248;248;242m    \
                 \x1b[48;2;0;96;0;38;2;255;121;198mlet x = 1;\x1b[0m";
    let diff_line = DiffLine::new(ansi.to_string(), "│ ".to_string());

    let text = diff_line.render();

    assert_eq!(text.len(), 1);
    let rendered: String = text[0]
        .iter()
        .map(|piece| match piece {
            majjit::log_tree::RowPiece::AnsiLine(t) => strip_ansi(t),
            other => text_of(other).to_string(),
        })
        .collect();
    // graph indent ("│ ") + the two-space gutter, then delta's content verbatim.
    assert!(rendered.starts_with("│   "), "got {rendered:?}");
    assert!(rendered.contains("+    let x = 1;"), "got {rendered:?}");
}

#[test]
fn status_letters_parse() {
    assert!(matches!(FileDiffStatus::from_str("D"), Ok(FileDiffStatus::Deleted)));
    assert!(matches!(FileDiffStatus::from_str("C"), Ok(FileDiffStatus::Copied)));
    let err = FileDiffStatus::from_str("MM").unwrap_err();
    assert_eq!(err.to_string(), "Unknown file diff status: MM");
    assert!(FileDiffStatus::from_str("").is_err());
}

#[test]
fn children_follow_the_tree() {
    let mut log = loaded_log();
    let g = GlobalArgs { repository: "/repo".to_string(), ignore_immutable: false };
    log.toggle_fold(&g, &vec![0]).unwrap();
    log.finish_fold_load(&vec![0], "M a.txt\nD b.txt\n").unwrap();
    let commit = log.get_tree_commit(&vec![0]).unwrap();
    let kids = commit.children();
    assert_eq!(kids.len(), 2);
    assert!(matches!(kids[1], TreeNode::FileDiff(f) if f.path == "b.txt"));
    assert!(commit.file_diffs[0].children().is_empty());
}

#[test]
fn short_positions_have_no_file_diff() {
    let log = loaded_log();
    assert!(log.get_tree_file_diff(&vec![]).is_none());
    assert!(log.get_tree_file_diff(&vec![7]).is_none());
}

#[test]
fn failed_reload_keeps_rows_and_indices() {
    let mut log = loaded_log();
    log.flatten_log();
    assert!(log.load_log_tree("@  _MAJJIT_x\n", "all()").is_err());
    assert_eq!(log.log_tree.len(), 3);
    assert_eq!(log.log_tree[2].flat_log_idx(), 2);
}

#[test]
fn loading_keeps_the_loaded_nodes_row() {
    let mut log = loaded_log();
    let g = GlobalArgs { repository: "/repo".to_string(), ignore_immutable: false };
    log.flatten_log();
    log.toggle_fold(&g, &vec![1]).unwrap();
    assert_eq!(log.finish_fold_load(&vec![1], "M a.txt\n").unwrap(), 1);
    assert_eq!(log.log_tree[1].flat_log_idx(), 1);
    assert_eq!(log.log_tree[2].flat_log_idx(), 2);
}

#[test]
fn new_nodes_start_at_row_zero() {
    let log = loaded_log();
    assert!(log.log_tree.iter().all(|e| e.flat_log_idx() == 0));
    let dls = DiffLine::load_all("@@ -1 +1 @@\n-x\n", "");
    assert!(dls.iter().all(|d| d.flat_log_idx == 0));
}

#[test]
fn hidden_nodes_keep_their_rows() {
    let mut log = loaded_log();
    let g = GlobalArgs { repository: "/repo".to_string(), ignore_immutable: false };
    log.toggle_fold(&g, &vec![0]).unwrap();
    log.finish_fold_load(&vec![0], "M a.txt\nA b.txt\n").unwrap();
    log.flatten_log();
    assert_eq!(log.get_tree_file_diff(&vec![0, 1]).unwrap().flat_log_idx, 2);
    log.toggle_fold(&g, &vec![0]).unwrap();
    let rows = log.flatten_log();
    assert_eq!(rows.len(), 3);
    assert_eq!(log.log_tree[1].flat_log_idx(), 1);
    // The folded commit's file diffs are not rows; they keep their indices.
    assert_eq!(log.get_tree_file_diff(&vec![0, 1]).unwrap().flat_log_idx, 2);
}
