//! The jj log as a tree of commits, file diffs and diff lines.
//!
//! The tree is read from the output of `jj log` (with the template of
//! `JjCommand::jj_log`), of `jj diff --summary` and of a file's git diff.
//! Commits and file diffs fold and unfold; flattening lists the visible
//! nodes in display order together with their tree positions.
use crate::ansi::{strip_ansi, strip_ansi_chars, strip_ansi_spec};
use crate::text::{
    chars_of, debug_str, decimal, decimal_exec, find, find_exec, lit, str_debug, lines, lines_exec, rfind, rfind_exec, seqs_of, split, split_exec,
    split_whitespace, split_whitespace_exec, starts_with, starts_with_exec, string_of, strings_of,
    sub_chars, trim, trim_chars,
};
use vstd::prelude::*;

verus! {

/// Marker delimiting structured fields in our custom `jj log` template
/// output. Emitted via `stringify(...)` so it never carries ANSI styling.
pub const COMMIT_FIELD_MARKER: &'static str = "_MAJJIT_";

/// Number of structured fields between the leading and trailing markers.
pub const COMMIT_NUM_FIELDS: usize = 12;

/// The marker as characters.
pub open spec fn marker() -> Seq<char> {
    COMMIT_FIELD_MARKER@
}

proof fn lemma_marker_len()
    ensures
        marker().len() == 8,
{
    reveal_strlit("_MAJJIT_");
}

// ---------------------------------------------------------------------------
// Errors
// ---------------------------------------------------------------------------

/// Why the log, or part of it, could not be read.
#[derive(Debug)]
pub enum LogTreeError {
    /// The revset selected no commit.
    EmptyRevset { revset: String },
    /// A commit line has no field marker.
    MissingMarker { line: String },
    /// A commit line has a single field marker.
    SingleMarker { line: String },
    /// A commit line's marker block has the wrong number of fields.
    FieldCount { found: usize, block: String },
    /// A line of `jj diff --summary` is not a status and a path.
    FileDiffSyntax { line: String },
    /// A rename or copy is not of the form `prefix{old => new}suffix`.
    RenameSyntax { description: String },
    /// File diffs of an unloaded commit were asked for.
    UnloadedFileDiffs,
    /// Diff lines of an unloaded file diff were asked for.
    UnloadedDiffLines,
    /// A file status is not one of the letters `M`, `A`, `D`, `R`, `C`.
    UnknownStatus { status: String },
}

/// The abstract content of a `LogTreeError`.
pub enum LogTreeErrorView {
    EmptyRevset(Seq<char>),
    MissingMarker(Seq<char>),
    SingleMarker(Seq<char>),
    FieldCount(nat, Seq<char>),
    FileDiffSyntax(Seq<char>),
    RenameSyntax(Seq<char>),
    UnloadedFileDiffs,
    UnloadedDiffLines,
    UnknownStatus(Seq<char>),
}

impl View for LogTreeError {
    type V = LogTreeErrorView;

    open spec fn view(&self) -> LogTreeErrorView {
        match self {
            LogTreeError::EmptyRevset { revset } => LogTreeErrorView::EmptyRevset(revset@),
            LogTreeError::MissingMarker { line } => LogTreeErrorView::MissingMarker(line@),
            LogTreeError::SingleMarker { line } => LogTreeErrorView::SingleMarker(line@),
            LogTreeError::FieldCount { found, block } => LogTreeErrorView::FieldCount(
                *found as nat,
                block@,
            ),
            LogTreeError::FileDiffSyntax { line } => LogTreeErrorView::FileDiffSyntax(line@),
            LogTreeError::RenameSyntax { description } => LogTreeErrorView::RenameSyntax(
                description@,
            ),
            LogTreeError::UnloadedFileDiffs => LogTreeErrorView::UnloadedFileDiffs,
            LogTreeError::UnloadedDiffLines => LogTreeErrorView::UnloadedDiffLines,
            LogTreeError::UnknownStatus { status } => LogTreeErrorView::UnknownStatus(status@),
        }
    }
}

/// The message of a log error.
pub open spec fn log_tree_error_message(e: LogTreeErrorView) -> Seq<char> {
    match e {
        LogTreeErrorView::EmptyRevset(revset) => "Revset '"@ + revset + "' is empty"@,
        LogTreeErrorView::MissingMarker(line) => "Commit line 1 missing leading _MAJJIT_ marker: "@
            + str_debug(line),
        LogTreeErrorView::SingleMarker(line) => "Commit line 1 has only one _MAJJIT_ marker: "@
            + str_debug(line),
        LogTreeErrorView::FieldCount(found, block) => "Commit marker block has "@ + decimal(found)
            + " fields, expected 12: "@ + str_debug(block),
        LogTreeErrorView::FileDiffSyntax(line) => "Cannot parse file diff string: "@ + line,
        LogTreeErrorView::RenameSyntax(description) => "Cannot parse file diff rename/copied paths: "@
            + description,
        LogTreeErrorView::UnloadedFileDiffs => "Trying to get unloaded file diffs for commit"@,
        LogTreeErrorView::UnloadedDiffLines => "Trying to get unloaded diff lines for file diff"@,
        LogTreeErrorView::UnknownStatus(status) => "Unknown file diff status: "@ + status,
    }
}

impl LogTreeError {
    /// The error's message.
    pub fn to_string(&self) -> (r: String)
        ensures
            r@ == log_tree_error_message(self@),
    {
        match self {
            LogTreeError::EmptyRevset { revset } => {
                let mut m = lit("Revset '");
                m.append(revset.as_str());
                m.append("' is empty");
                m
            },
            LogTreeError::MissingMarker { line } => {
                let mut m = lit("Commit line 1 missing leading _MAJJIT_ marker: ");
                m.append(debug_str(line.as_str()).as_str());
                m
            },
            LogTreeError::SingleMarker { line } => {
                let mut m = lit("Commit line 1 has only one _MAJJIT_ marker: ");
                m.append(debug_str(line.as_str()).as_str());
                m
            },
            LogTreeError::FieldCount { found, block } => {
                let mut m = lit("Commit marker block has ");
                m.append(string_of(&decimal_exec(*found)).as_str());
                m.append(" fields, expected 12: ");
                m.append(debug_str(block.as_str()).as_str());
                m
            },
            LogTreeError::FileDiffSyntax { line } => {
                let mut m = lit("Cannot parse file diff string: ");
                m.append(line.as_str());
                m
            },
            LogTreeError::RenameSyntax { description } => {
                let mut m = lit("Cannot parse file diff rename/copied paths: ");
                m.append(description.as_str());
                m
            },
            LogTreeError::UnloadedFileDiffs => lit("Trying to get unloaded file diffs for commit"),
            LogTreeError::UnloadedDiffLines => lit("Trying to get unloaded diff lines for file diff"),
            LogTreeError::UnknownStatus { status } => {
                let mut m = lit("Unknown file diff status: ");
                m.append(status.as_str());
                m
            },
        }
    }
}

// ---------------------------------------------------------------------------
// Commit lines
// ---------------------------------------------------------------------------

/// A commit's first line cut at its markers: the graph gutter (ANSI styling
/// kept, jj's two-space separator removed), the fields between the markers
/// (ANSI styling removed) and the styled display text after the last marker.
pub struct Line1Parts {
    pub gutter_ansi: String,
    pub fields: Vec<String>,
    pub line1_ansi: String,
}

/// Whether `s` ends with two spaces.
pub open spec fn ends_with_two_spaces(s: Seq<char>) -> bool {
    s.len() >= 2 && s[s.len() - 2] == ' ' && s[s.len() - 1] == ' '
}

/// The pieces of a commit's first line, or why it cannot be cut:
/// the first and the last marker must be distinct, and the marker block
/// between them (styling removed) must split into exactly the expected
/// number of fields, with empty text before the first and after the last.
pub open spec fn split_line1_spec(line1: Seq<char>) -> Result<
    (Seq<char>, Seq<Seq<char>>, Seq<char>),
    LogTreeErrorView,
> {
    match find(line1, marker()) {
        None => Err(LogTreeErrorView::MissingMarker(line1)),
        Some(first) => match rfind(line1, marker()) {
            None => Err(LogTreeErrorView::MissingMarker(line1)),
            Some(last) => if first == last {
                Err(LogTreeErrorView::SingleMarker(line1))
            } else {
                let raw_gutter = line1.take(first);
                let gutter = if ends_with_two_spaces(raw_gutter) {
                    raw_gutter.take(raw_gutter.len() - 2)
                } else {
                    raw_gutter
                };
                let block = line1.subrange(first, last + marker().len());
                let rest = line1.skip(last + marker().len());
                let clean = strip_ansi_spec(block);
                let parts = split(clean, marker());
                if parts.len() != COMMIT_NUM_FIELDS + 2 {
                    Err(
                        LogTreeErrorView::FieldCount(
                            if parts.len() >= 2 {
                                (parts.len() - 2) as nat
                            } else {
                                0
                            },
                            clean,
                        ),
                    )
                } else {
                    Ok((gutter, parts.subrange(1, COMMIT_NUM_FIELDS + 1), rest))
                }
            },
        },
    }
}

/// Slice line 1 into its gutter, its fields and its display text using the
/// `COMMIT_FIELD_MARKER` markers. The gutter strips jj's standard `  `
/// separator but keeps any extra alignment padding.
pub fn split_line1(line1: &str) -> (r: Result<Line1Parts, LogTreeError>)
    ensures
        match split_line1_spec(line1@) {
            Ok((g, f, l)) => r matches Ok(p) && p.gutter_ansi@ == g && strings_of(p.fields@) == f
                && p.line1_ansi@ == l,
            Err(e) => r matches Err(x) && x@ == e,
        },
        r matches Ok(p) ==> p.fields@.len() == COMMIT_NUM_FIELDS,
{
    proof {
        lemma_marker_len();
    }
    let s = chars_of(line1);
    let n = s.len();
    let m = chars_of(COMMIT_FIELD_MARKER);
    let first = match find_exec(&s, &m) {
        Some(i) => i,
        None => {
            return Err(LogTreeError::MissingMarker { line: string_of(&s) });
        },
    };
    let last = match rfind_exec(&s, &m) {
        Some(i) => i,
        None => {
            return Err(LogTreeError::MissingMarker { line: string_of(&s) });
        },
    };
    if first == last {
        return Err(LogTreeError::SingleMarker { line: string_of(&s) });
    }
    let raw_gutter = sub_chars(&s, 0, first);
    let gl = raw_gutter.len();
    let gutter = if gl >= 2 && raw_gutter[gl - 2] == ' ' && raw_gutter[gl - 1] == ' ' {
        sub_chars(&raw_gutter, 0, gl - 2)
    } else {
        raw_gutter
    };
    proof {
        crate::text::lemma_find_from_found(s@, m@, 0);
        crate::text::lemma_rfind_below_found(s@, m@, s@.len() + 1int);
        crate::text::lemma_find_from_le(s@, m@, 0, last as int);
    }
    let end = last + m.len();
    let block = sub_chars(&s, first, end);
    let rest = sub_chars(&s, end, n);
    let clean = strip_ansi_chars(&block);
    let parts = split_exec(&clean, &m);
    assert(raw_gutter@ =~= line1@.take(first as int));
    assert(rest@ =~= line1@.skip(end as int));
    proof {
        if ends_with_two_spaces(raw_gutter@) {
            assert(gutter@ =~= raw_gutter@.take(raw_gutter@.len() - 2));
        }
    }
    if parts.len() != COMMIT_NUM_FIELDS + 2 {
        let found = if parts.len() >= 2 {
            parts.len() - 2
        } else {
            0
        };
        return Err(LogTreeError::FieldCount { found, block: string_of(&clean) });
    }
    let mut fields: Vec<String> = Vec::new();
    let mut i: usize = 1;
    while i <= COMMIT_NUM_FIELDS
        invariant
            1 <= i <= COMMIT_NUM_FIELDS + 1,
            parts@.len() == COMMIT_NUM_FIELDS + 2,
            strings_of(fields@) == seqs_of(parts@).subrange(1, i as int),
        decreases COMMIT_NUM_FIELDS + 1 - i,
    {
        let ghost old_f = strings_of(fields@);
        let f = string_of(&parts[i]);
        fields.push(f);
        assert(strings_of(fields@) =~= old_f.push(parts@[i as int]@));
        assert(seqs_of(parts@).subrange(1, i + 1) =~= seqs_of(parts@).subrange(1, i as int).push(
            parts@[i as int]@,
        ));
        i = i + 1;
    }
    Ok(Line1Parts { gutter_ansi: string_of(&gutter), fields, line1_ansi: string_of(&rest) })
}

/// A character of the commit graph drawn in line 2's gutter.
pub open spec fn is_gutter_char(c: char) -> bool {
    c == ' ' || c == '│' || c == '├' || c == '┤' || c == '┬' || c == '┴' || c == '╭' || c == '╮'
        || c == '╯' || c == '╰' || c == '─' || c == '┼'
}

/// The length of the run of graph characters that starts line 2.
pub open spec fn gutter_len(s: Seq<char>, i: int) -> nat
    decreases s.len() - i,
{
    if 0 <= i < s.len() && is_gutter_char(s[i]) {
        1 + gutter_len(s, i + 1)
    } else {
        0
    }
}

/// Where the first line feed at or after `i` is, or the end of `s`.
pub open spec fn line_end(s: Seq<char>, i: int) -> int
    decreases s.len() - i,
{
    if i < 0 || i >= s.len() {
        s.len() as int
    } else if s[i] == '\n' {
        i
    } else {
        line_end(s, i + 1)
    }
}

/// Line 2 cut into its leading graph gutter and its styled description
/// (what follows the gutter, up to a line feed).
pub open spec fn split_line2_spec(s: Seq<char>) -> (Seq<char>, Seq<char>) {
    let g = gutter_len(s, 0) as int;
    (s.take(g), s.subrange(g, line_end(s, g)))
}

fn is_gutter_char_exec(c: char) -> (r: bool)
    ensures
        r == is_gutter_char(c),
{
    c == ' ' || c == '│' || c == '├' || c == '┤' || c == '┬' || c == '┴' || c == '╭' || c == '╮'
        || c == '╯' || c == '╰' || c == '─' || c == '┼'
}

/// Split a line 2 ANSI string into its leading graph gutter and the styled
/// description. Gutter chars never carry ANSI styling.
pub fn split_line2_gutter(line2_ansi: &str) -> (r: (String, String))
    ensures
        (r.0@, r.1@) == split_line2_spec(line2_ansi@),
{
    let s = chars_of(line2_ansi);
    let n = s.len();
    let mut g: usize = 0;
    while g < n && is_gutter_char_exec(s[g])
        invariant
            0 <= g <= n,
            n == s@.len(),
            gutter_len(s@, 0) == g + gutter_len(s@, g as int),
        decreases n - g,
    {
        g = g + 1;
    }
    let mut e: usize = g;
    while e < n && s[e] != '\n'
        invariant
            g <= e <= n,
            n == s@.len(),
            line_end(s@, g as int) == line_end(s@, e as int),
        decreases n - e,
    {
        e = e + 1;
    }
    (string_of(&sub_chars(&s, 0, g)), string_of(&sub_chars(&s, g, e)))
}

/// A graph character that continues a branch downwards.
pub open spec fn is_vertical_connector(c: char) -> bool {
    c == '│' || c == '├' || c == '┤' || c == '┬' || c == '╭' || c == '╮' || c == '┼'
}

/// The indent character under line 2's `c2` and line 1's `c1`.
pub open spec fn indent_char(c2: char, c1: char) -> char {
    if is_vertical_connector(c2) || (c2 == '─' && c1 == '│') {
        '│'
    } else {
        ' '
    }
}

/// The child-row indent: one character per line 2 gutter character but the
/// last, a bar where a branch continues, else a space (line 1 is read as if
/// padded with spaces).
pub open spec fn graph_indent_spec(line1_clean: Seq<char>, line2_graph_chars: Seq<char>) -> Seq<char> {
    let n = if line2_graph_chars.len() > 0 {
        line2_graph_chars.len() - 1
    } else {
        0
    };
    Seq::new(
        n as nat,
        |i: int|
            indent_char(
                line2_graph_chars[i],
                if i < line1_clean.len() {
                    line1_clean[i]
                } else {
                    ' '
                },
            ),
    )
}

/// Build a child-row indent prefix. Vertical connectors in line 2 are
/// surviving branches; a `─` sweep over a line 1 `│` also keeps that branch.
/// The trailing space jj puts before line 2's content is dropped.
pub fn derive_graph_indent(line1_clean: &str, line2_graph_chars: &str) -> (r: String)
    ensures
        r@ == graph_indent_spec(line1_clean@, line2_graph_chars@),
{
    let l1 = chars_of(line1_clean);
    let l2 = chars_of(line2_graph_chars);
    let n = if l2.len() > 0 {
        l2.len() - 1
    } else {
        0
    };
    let mut out: Vec<char> = Vec::new();
    let mut i: usize = 0;
    while i < n
        invariant
            0 <= i <= n,
            n == (if l2@.len() > 0 { l2@.len() - 1 } else { 0 }),
            out@ =~= graph_indent_spec(l1@, l2@).take(i as int),
        decreases n - i,
    {
        let c2 = l2[i];
        let c1 = if i < l1.len() {
            l1[i]
        } else {
            ' '
        };
        let bar = c2 == '│' || c2 == '├' || c2 == '┤' || c2 == '┬' || c2 == '╭' || c2 == '╮' || c2
            == '┼' || (c2 == '─' && c1 == '│');
        out.push(
            if bar {
                '│'
            } else {
                ' '
            },
        );
        i = i + 1;
    }
    assert(graph_indent_spec(l1@, l2@).take(n as int) =~= graph_indent_spec(l1@, l2@));
    string_of(&out)
}

} // verus!

verus! {

// ---------------------------------------------------------------------------
// Nodes
// ---------------------------------------------------------------------------

/// How a file changed in a commit.
#[derive(Clone, Copy, Debug)]
pub enum FileDiffStatus {
    Modified,
    Added,
    Deleted,
    Renamed,
    Copied,
}

/// The word shown for each status, padded to a common width.
pub open spec fn status_label(s: FileDiffStatus) -> Seq<char> {
    match s {
        FileDiffStatus::Modified => "modified"@,
        FileDiffStatus::Added => "new file"@,
        FileDiffStatus::Deleted => "deleted "@,
        FileDiffStatus::Renamed => "renamed "@,
        FileDiffStatus::Copied => "copied  "@,
    }
}

impl FileDiffStatus {
    /// The word shown for this status, padded to a common width.
    pub fn label(&self) -> (r: String)
        ensures
            r@ == status_label(*self),
    {
        match self {
            FileDiffStatus::Modified => crate::text::lit("modified"),
            FileDiffStatus::Added => crate::text::lit("new file"),
            FileDiffStatus::Deleted => crate::text::lit("deleted "),
            FileDiffStatus::Renamed => crate::text::lit("renamed "),
            FileDiffStatus::Copied => crate::text::lit("copied  "),
        }
    }
}

/// One line of a file's diff.
#[derive(Debug)]
pub struct DiffLine {
    pub ansi_string: String,
    pub graph_indent: String,
    pub flat_log_idx: usize,
}

/// The content of a diff line.
pub struct DiffLineView {
    pub ansi_string: Seq<char>,
    pub graph_indent: Seq<char>,
}

impl View for DiffLine {
    type V = DiffLineView;

    open spec fn view(&self) -> DiffLineView {
        DiffLineView { ansi_string: self.ansi_string@, graph_indent: self.graph_indent@ }
    }
}

/// A file changed by a commit, with its diff lines once loaded.
#[derive(Debug)]
pub struct FileDiff {
    pub change_id: String,
    pub path: String,
    pub description: String,
    pub status: FileDiffStatus,
    pub graph_indent: String,
    pub unfolded: bool,
    pub loaded: bool,
    pub diff_lines: Vec<DiffLine>,
    pub flat_log_idx: usize,
}

/// The content of a file diff (all but its flat index).
pub struct FileDiffView {
    pub change_id: Seq<char>,
    pub path: Seq<char>,
    pub description: Seq<char>,
    pub status: FileDiffStatus,
    pub graph_indent: Seq<char>,
    pub unfolded: bool,
    pub loaded: bool,
    pub diff_lines: Seq<DiffLineView>,
}

impl View for FileDiff {
    type V = FileDiffView;

    open spec fn view(&self) -> FileDiffView {
        FileDiffView {
            change_id: self.change_id@,
            path: self.path@,
            description: self.description@,
            status: self.status,
            graph_indent: self.graph_indent@,
            unfolded: self.unfolded,
            loaded: self.loaded,
            diff_lines: Seq::new(self.diff_lines@.len(), |k: int| self.diff_lines@[k]@),
        }
    }
}

/// A commit of the log, with its file diffs once loaded.
#[derive(Debug)]
pub struct Commit {
    pub change_id: String,
    pub commit_id: String,
    pub current_working_copy: bool,
    pub workspaces: Vec<String>,
    pub bookmarks: Vec<String>,
    pub tags: Vec<String>,
    pub description_first_line: Option<String>,
    pub has_conflict: bool,
    pub empty: bool,
    pub is_root: bool,
    pub email: String,
    pub timestamp: String,
    /// Line 1 graph gutter (graph chars + symbol), ANSI styling preserved.
    pub line1_gutter_ansi: String,
    /// Line 2 graph gutter, ANSI-stripped.
    pub line2_graph_chars: String,
    /// Line 1 styled display portion (after the trailing marker).
    pub line1_ansi: String,
    /// Line 2 styled display portion (the description).
    pub line2_ansi: String,
    /// Indent prefix for child rows so they line up under this commit's gutter.
    pub graph_indent: String,
    pub unfolded: bool,
    pub loaded: bool,
    pub file_diffs: Vec<FileDiff>,
    pub flat_log_idx: usize,
}

/// The content of a commit (all but the flat indices in it).
pub struct CommitView {
    pub change_id: Seq<char>,
    pub commit_id: Seq<char>,
    pub current_working_copy: bool,
    pub workspaces: Seq<Seq<char>>,
    pub bookmarks: Seq<Seq<char>>,
    pub tags: Seq<Seq<char>>,
    pub description_first_line: Option<Seq<char>>,
    pub has_conflict: bool,
    pub empty: bool,
    pub is_root: bool,
    pub email: Seq<char>,
    pub timestamp: Seq<char>,
    pub line1_gutter_ansi: Seq<char>,
    pub line2_graph_chars: Seq<char>,
    pub line1_ansi: Seq<char>,
    pub line2_ansi: Seq<char>,
    pub graph_indent: Seq<char>,
    pub unfolded: bool,
    pub loaded: bool,
    pub file_diffs: Seq<FileDiffView>,
}

/// The content of an optional string.
pub open spec fn opt_view(o: Option<String>) -> Option<Seq<char>> {
    match o {
        Some(s) => Some(s@),
        None => None,
    }
}

impl View for Commit {
    type V = CommitView;

    open spec fn view(&self) -> CommitView {
        CommitView {
            change_id: self.change_id@,
            commit_id: self.commit_id@,
            current_working_copy: self.current_working_copy,
            workspaces: strings_of(self.workspaces@),
            bookmarks: strings_of(self.bookmarks@),
            tags: strings_of(self.tags@),
            description_first_line: opt_view(self.description_first_line),
            has_conflict: self.has_conflict,
            empty: self.empty,
            is_root: self.is_root,
            email: self.email@,
            timestamp: self.timestamp@,
            line1_gutter_ansi: self.line1_gutter_ansi@,
            line2_graph_chars: self.line2_graph_chars@,
            line1_ansi: self.line1_ansi@,
            line2_ansi: self.line2_ansi@,
            graph_indent: self.graph_indent@,
            unfolded: self.unfolded,
            loaded: self.loaded,
            file_diffs: Seq::new(self.file_diffs@.len(), |j: int| self.file_diffs@[j]@),
        }
    }
}

/// A line of the log that is not a commit (such as jj's elided-revisions notice).
#[derive(Debug)]
pub struct InfoText {
    pub ansi_string: String,
    pub flat_log_idx: usize,
}

impl InfoText {
    fn new(ansi_string: String) -> (r: Self)
        ensures
            r.ansi_string@ == ansi_string@,
            r.flat_log_idx == 0,
    {
        InfoText { ansi_string, flat_log_idx: 0 }
    }
}

/// A top-level entry of the log.
#[derive(Debug)]
pub enum CommitOrText {
    Commit(Commit),
    InfoText(InfoText),
}

/// The content of a top-level entry.
pub enum CommitOrTextView {
    Commit(CommitView),
    InfoText(Seq<char>),
}

impl View for CommitOrText {
    type V = CommitOrTextView;

    open spec fn view(&self) -> CommitOrTextView {
        match self {
            CommitOrText::Commit(c) => CommitOrTextView::Commit(c@),
            CommitOrText::InfoText(t) => CommitOrTextView::InfoText(t.ansi_string@),
        }
    }
}

/// The line that ends a file's diff lines, a dim `~`.
pub open spec fn divider() -> Seq<char> {
    "\x1b[35m~\x1b[0m"@
}

impl DiffLine {
    /// A diff line showing `ansi_string` under `graph_indent`.
    pub fn new(ansi_string: String, graph_indent: String) -> (r: Self)
        ensures
            r@ == (DiffLineView { ansi_string: ansi_string@, graph_indent: graph_indent@ }),
            r.flat_log_idx == 0,
    {
        DiffLine { ansi_string, graph_indent, flat_log_idx: 0 }
    }
}

// ---------------------------------------------------------------------------
// Parsing a commit
// ---------------------------------------------------------------------------

/// Whether a field holds the template's "yes".
pub open spec fn is_yes(f: Seq<char>) -> bool {
    f =~= seq!['Y']
}

/// The commit that the two lines of a `jj log` entry describe.
pub open spec fn commit_parse(line1: Seq<char>, line2: Option<Seq<char>>) -> Result<
    CommitView,
    LogTreeErrorView,
> {
    match split_line1_spec(line1) {
        Err(e) => Err(e),
        Ok((gutter, f, rest)) => {
            let (l2g, l2a) = match line2 {
                Some(l) => split_line2_spec(l),
                None => (seq![], seq![]),
            };
            Ok(
                CommitView {
                    change_id: f[0],
                    commit_id: f[1],
                    current_working_copy: is_yes(f[2]),
                    has_conflict: is_yes(f[3]),
                    empty: is_yes(f[4]),
                    is_root: is_yes(f[5]),
                    workspaces: split_whitespace(f[6]),
                    bookmarks: split_whitespace(f[7]),
                    tags: split_whitespace(f[8]),
                    email: f[9],
                    timestamp: f[10],
                    description_first_line: if f[11].len() > 0 {
                        Some(f[11])
                    } else {
                        None
                    },
                    line1_gutter_ansi: gutter,
                    line2_graph_chars: l2g,
                    line1_ansi: rest,
                    line2_ansi: l2a,
                    graph_indent: graph_indent_spec(strip_ansi_spec(gutter), l2g),
                    unfolded: false,
                    loaded: false,
                    file_diffs: seq![],
                },
            )
        },
    }
}

fn is_yes_exec(f: &String) -> (r: bool)
    ensures
        r == is_yes(f@),
{
    let v = chars_of(f.as_str());
    let r = v.len() == 1 && v[0] == 'Y';
    proof {
        if r {
            assert(v@ =~= seq!['Y']);
        }
    }
    r
}

impl Commit {
    /// Read a commit from its `jj log` line 1 and, unless it is the root, line 2.
    pub fn new(line1: String, line2: Option<String>) -> (r: Result<Self, LogTreeError>)
        ensures
            match commit_parse(line1@, opt_view(line2)) {
                Ok(c) => r matches Ok(x) && x@ == c && x.flat_log_idx == 0,
                Err(e) => r matches Err(x) && x@ == e,
            },
    {
        let parts = split_line1(line1.as_str());
        let Line1Parts { gutter_ansi, fields, line1_ansi } = match parts {
            Ok(p) => p,
            Err(e) => {
                return Err(e);
            },
        };
        let (line2_graph_chars, line2_ansi) = match &line2 {
            Some(l) => split_line2_gutter(l.as_str()),
            None => (String::new(), String::new()),
        };
        let gutter_clean = strip_ansi(gutter_ansi.as_str());
        let graph_indent = derive_graph_indent(gutter_clean.as_str(), line2_graph_chars.as_str());
        let workspaces = split_whitespace_exec(&chars_of(fields[6].as_str()));
        let bookmarks = split_whitespace_exec(&chars_of(fields[7].as_str()));
        let tags = split_whitespace_exec(&chars_of(fields[8].as_str()));
        let description = crate::text::lit(fields[11].as_str());
        let description_first_line = if description.as_str().is_empty() {
            None
        } else {
            Some(description)
        };
        let c = Commit {
            change_id: crate::text::lit(fields[0].as_str()),
            commit_id: crate::text::lit(fields[1].as_str()),
            current_working_copy: is_yes_exec(&fields[2]),
            has_conflict: is_yes_exec(&fields[3]),
            empty: is_yes_exec(&fields[4]),
            is_root: is_yes_exec(&fields[5]),
            workspaces,
            bookmarks,
            tags,
            email: crate::text::lit(fields[9].as_str()),
            timestamp: crate::text::lit(fields[10].as_str()),
            description_first_line,
            line1_gutter_ansi: gutter_ansi,
            line2_graph_chars,
            line1_ansi,
            line2_ansi,
            graph_indent,
            unfolded: false,
            loaded: false,
            file_diffs: Vec::new(),
            flat_log_idx: 0,
        };
        proof {
            let f = strings_of(fields@);
            assert(f[6] == fields@[6]@);
            assert(f[7] == fields@[7]@);
            assert(f[8] == fields@[8]@);
            assert(f[11] == fields@[11]@);
            assert(c@.file_diffs =~= Seq::<FileDiffView>::empty());
            let spec_l2 = match opt_view(line2) {
                Some(l) => split_line2_spec(l),
                None => (Seq::<char>::empty(), Seq::<char>::empty()),
            };
            assert(c.line2_graph_chars@ == spec_l2.0);
            assert(c.line2_ansi@ == spec_l2.1);
            assert(c.change_id@ == f[0]);
            assert(c.current_working_copy == is_yes(f[2]));
            assert(c.description_first_line is Some <==> f[11].len() > 0);
        }
        Ok(c)
    }
}

} // verus!

verus! {

// ---------------------------------------------------------------------------
// Parsing a file diff summary line
// ---------------------------------------------------------------------------

/// A status letter of `jj diff --summary`.
pub open spec fn is_status_char(c: char) -> bool {
    c == 'M' || c == 'A' || c == 'D' || c == 'R' || c == 'C'
}

/// The status a letter stands for.
pub open spec fn status_of(c: char) -> FileDiffStatus {
    if c == 'M' {
        FileDiffStatus::Modified
    } else if c == 'A' {
        FileDiffStatus::Added
    } else if c == 'D' {
        FileDiffStatus::Deleted
    } else if c == 'R' {
        FileDiffStatus::Renamed
    } else {
        FileDiffStatus::Copied
    }
}

impl FileDiffStatus {
    /// The status that a one-letter status of `jj diff --summary` stands for.
    pub fn from_str(s: &str) -> (r: Result<FileDiffStatus, LogTreeError>)
        ensures
            s@.len() == 1 && is_status_char(s@[0]) ==> r == Ok::<FileDiffStatus, LogTreeError>(status_of(s@[0])),
            !(s@.len() == 1 && is_status_char(s@[0])) ==> (r matches Err(e) && e@ == LogTreeErrorView::UnknownStatus(s@)),
    {
        let v = chars_of(s);
        if v.len() == 1 {
            let c = v[0];
            if c == 'M' {
                return Ok(FileDiffStatus::Modified);
            } else if c == 'A' {
                return Ok(FileDiffStatus::Added);
            } else if c == 'D' {
                return Ok(FileDiffStatus::Deleted);
            } else if c == 'R' {
                return Ok(FileDiffStatus::Renamed);
            } else if c == 'C' {
                return Ok(FileDiffStatus::Copied);
            }
        }
        Err(LogTreeError::UnknownStatus { status: lit(s) })
    }
}

/// The summary line `clean` is a status letter, whitespace, and from index
/// `k` on a non-empty description without line feeds.
pub open spec fn summary_ok(clean: Seq<char>, k: int) -> bool {
    &&& clean.len() >= 1
    &&& is_status_char(clean[0])
    &&& 2 <= k < clean.len()
    &&& crate::text::all_whitespace(clean.subrange(1, k))
    &&& crate::text::lacks(clean.skip(k), '\n')
}

/// Where the description of a summary line starts: the whitespace after the
/// status letter is taken greedily, as long as a description remains.
pub open spec fn summary_start(clean: Seq<char>) -> Option<int> {
    if exists|k: int| summary_ok(clean, k) {
        Some(choose|k: int| summary_ok(clean, k) && forall|k2: int| summary_ok(clean, k2) ==> k2 <= k)
    } else {
        None
    }
}

/// The whitespace run starting at `i` ends at the returned index.
fn ws_end(s: &[char], i: usize) -> (j: usize)
    requires
        i <= s@.len(),
    ensures
        i <= j <= s@.len(),
        crate::text::all_whitespace(s@.subrange(i as int, j as int)),
        j < s@.len() ==> !crate::text::is_whitespace(s@[j as int]),
{
    let n = s.len();
    let mut j = i;
    while j < n && crate::text::char_is_whitespace(s[j])
        invariant
            i <= j <= n,
            n == s@.len(),
            crate::text::all_whitespace(s@.subrange(i as int, j as int)),
        decreases n - j,
    {
        assert(s@.subrange(i as int, j + 1) =~= s@.subrange(i as int, j as int).push(s@[j as int]));
        j = j + 1;
    }
    j
}

/// Whether `s[lo..hi]` has no line feed.
fn lacks_newline(s: &[char], lo: usize, hi: usize) -> (r: bool)
    requires
        lo <= hi <= s@.len(),
    ensures
        r == crate::text::lacks(s@.subrange(lo as int, hi as int), '\n'),
{
    let mut k = lo;
    while k < hi
        invariant
            lo <= k <= hi,
            hi <= s@.len(),
            crate::text::lacks(s@.subrange(lo as int, k as int), '\n'),
        decreases hi - k,
    {
        if s[k] == '\n' {
            assert(s@.subrange(lo as int, hi as int)[k - lo] == '\n');
            return false;
        }
        assert(s@.subrange(lo as int, k + 1) =~= s@.subrange(lo as int, k as int).push(s@[k as int]));
        k = k + 1;
    }
    true
}

/// A whitespace run ends exactly where a non-whitespace character follows it.
proof fn lemma_run_end_unique(s: Seq<char>, i: int, j: int, k: int)
    requires
        0 <= i <= j <= s.len(),
        crate::text::all_whitespace(s.subrange(i, j)),
        j < s.len() ==> !crate::text::is_whitespace(s[j]),
        i <= k < s.len(),
        crate::text::all_whitespace(s.subrange(i, k)),
        !crate::text::is_whitespace(s[k]),
    ensures
        k == j,
{
    if k < j {
        assert(s.subrange(i, j)[k - i] == s[k]);
    } else if k > j {
        assert(s.subrange(i, k)[j - i] == s[j]);
    }
}

/// A whitespace run cannot extend past the end of the maximal run.
proof fn lemma_run_within(s: Seq<char>, i: int, j: int, k: int)
    requires
        0 <= i <= j <= s.len(),
        j < s.len() ==> !crate::text::is_whitespace(s[j]),
        i <= k <= s.len(),
        crate::text::all_whitespace(s.subrange(i, k)),
    ensures
        k <= j,
{
    if k > j {
        assert(s.subrange(i, k)[j - i] == s[j]);
    }
}

/// A line feed in `s[lo..hi]` is a line feed in any range that contains it.
proof fn lemma_lacks_sub(s: Seq<char>, lo: int, hi: int, lo2: int, hi2: int)
    requires
        0 <= lo2 <= lo <= hi <= hi2 <= s.len(),
        crate::text::lacks(s.subrange(lo2, hi2), '\n'),
    ensures
        crate::text::lacks(s.subrange(lo, hi), '\n'),
{
    assert forall|x: int| 0 <= x < hi - lo implies #[trigger] s.subrange(lo, hi)[x] != '\n' by {
        assert(s.subrange(lo, hi)[x] == s.subrange(lo2, hi2)[x + lo - lo2]);
    }
}

/// Part of a whitespace run is whitespace.
proof fn lemma_ws_sub(s: Seq<char>, lo: int, hi: int, lo2: int, hi2: int)
    requires
        0 <= lo2 <= lo <= hi <= hi2 <= s.len(),
        crate::text::all_whitespace(s.subrange(lo2, hi2)),
    ensures
        crate::text::all_whitespace(s.subrange(lo, hi)),
{
    assert forall|x: int| 0 <= x < hi - lo implies crate::text::is_whitespace(
        #[trigger] s.subrange(lo, hi)[x],
    ) by {
        assert(s.subrange(lo, hi)[x] == s.subrange(lo2, hi2)[x + lo - lo2]);
    }
}

/// Where the description of a summary line starts.
fn summary_start_exec(clean: &[char]) -> (r: Option<usize>)
    requires
        clean@.len() >= 1,
        is_status_char(clean@[0]),
    ensures
        crate::text::same_index(r, summary_start(clean@)),
        r matches Some(k) ==> k < clean@.len(),
{
    let n = clean.len();
    let w = ws_end(clean, 1);
    let r: Option<usize> = if w < n {
        if w >= 2 && lacks_newline(clean, w, n) {
            Some(w)
        } else {
            None
        }
    } else if n >= 3 && clean[n - 1] != '\n' {
        Some(n - 1)
    } else {
        None
    };
    proof {
        let s = clean@;
        assert(s.skip(w as int) =~= s.subrange(w as int, n as int));
        // Every candidate ends its whitespace run at or before `w`.
        assert forall|k2: int| summary_ok(s, k2) implies k2 <= w by {
            lemma_run_within(s, 1, w as int, k2);
        }
        match r {
            Some(k) => {
                if k == w {
                    assert(summary_ok(s, k as int));
                } else {
                    lemma_ws_sub(s, 1, n - 1, 1, n as int);
                    assert(s.skip(n - 1) =~= seq![s[n - 1]]);
                    assert(summary_ok(s, k as int));
                    assert forall|k2: int| summary_ok(s, k2) implies k2 <= k by {
                        if k2 == n {
                        }
                    }
                }
                let c = choose|k: int| summary_ok(s, k) && forall|k2: int| summary_ok(s, k2) ==> k2 <= k;
                assert(c == k);
            },
            None => {
                assert forall|k2: int| !summary_ok(s, k2) by {
                    if summary_ok(s, k2) {
                        lemma_run_within(s, 1, w as int, k2);
                        if w < n {
                            if w >= 2 {
                                lemma_lacks_sub(s, w as int, n as int, k2, n as int);
                                assert(s.skip(k2) =~= s.subrange(k2, n as int));
                            }
                        } else {
                            assert(s.skip(k2)[n - 1 - k2] == s[n - 1]);
                        }
                    }
                }
            },
        }
    }
    r
}

// ---------------------------------------------------------------------------
// Renames and copies: `prefix{old => new}suffix`
// ---------------------------------------------------------------------------

/// The braces and arrow of a rename description, as indices: `{` at `a`, the
/// old part in `(a, b)`, whitespace in `[b, c)`, `=>` at `c`, whitespace in
/// `[c + 2, d)`, the new part in `[d, e)`, `}` at `e`. No line feed occurs
/// outside the whitespace runs.
pub open spec fn rename_candidate(s: Seq<char>, a: int, b: int, c: int, d: int, e: int) -> bool {
    &&& 0 <= a && a + 2 <= b && b <= c && c + 2 <= d && d < e && e < s.len()
    &&& s[a] == '{'
    &&& crate::text::lacks(s.take(a), '\n')
    &&& crate::text::lacks(s.subrange(a + 1, b), '\n')
    &&& crate::text::all_whitespace(s.subrange(b, c))
    &&& s[c] == '=' && s[c + 1] == '>'
    &&& crate::text::all_whitespace(s.subrange(c + 2, d))
    &&& crate::text::lacks(s.subrange(d, e), '\n')
    &&& s[e] == '}'
    &&& crate::text::lacks(s.skip(e + 1), '\n')
}

/// `t` is preferred over `u` by a regex match that takes the prefix greedily,
/// the old part lazily, both whitespace runs greedily and the new part lazily.
pub open spec fn rename_outranks(
    t: (int, int, int, int, int),
    u: (int, int, int, int, int),
) -> bool {
    ||| t.0 > u.0
    ||| t.0 == u.0 && t.1 < u.1
    ||| t.0 == u.0 && t.1 == u.1 && t.2 > u.2
    ||| t.0 == u.0 && t.1 == u.1 && t.2 == u.2 && t.3 > u.3
    ||| t.0 == u.0 && t.1 == u.1 && t.2 == u.2 && t.3 == u.3 && t.4 < u.4
}

/// The candidate that the rename pattern matches: no other candidate outranks it.
pub open spec fn rename_match(s: Seq<char>, a: int, b: int, c: int, d: int, e: int) -> bool {
    &&& rename_candidate(s, a, b, c, d, e)
    &&& forall|a2: int, b2: int, c2: int, d2: int, e2: int|
        #[trigger] rename_candidate(s, a2, b2, c2, d2, e2) ==> !rename_outranks(
            (a2, b2, c2, d2, e2),
            (a, b, c, d, e),
        )
}

/// The path after a rename or copy: the prefix, the new part and the suffix.
pub open spec fn rename_path(s: Seq<char>) -> Option<Seq<char>> {
    if exists|a: int, b: int, c: int, d: int, e: int| rename_match(s, a, b, c, d, e) {
        let (a, b, c, d, e) = choose|a: int, b: int, c: int, d: int, e: int|
            rename_match(s, a, b, c, d, e);
        Some(s.take(a) + s.subrange(d, e) + s.skip(e + 1))
    } else {
        None
    }
}

/// The first `}` after `d`, when nothing from `d` on is a line feed.
fn close_after(s: &[char], d: usize) -> (r: Option<usize>)
    requires
        d < s@.len(),
    ensures
        match r {
            Some(e) => d < e < s@.len() && s@[e as int] == '}' && crate::text::lacks(
                s@.subrange(d as int, e as int),
                '\n',
            ) && crate::text::lacks(s@.skip(e + 1), '\n') && forall|e2: int|
                d < e2 < e ==> s@[e2] != '}',
            None => forall|e2: int|
                d < e2 < s@.len() && s@[e2] == '}' ==> !(crate::text::lacks(
                    s@.subrange(d as int, e2),
                    '\n',
                ) && crate::text::lacks(s@.skip(e2 + 1), '\n')),
        },
{
    let n = s.len();
    if !lacks_newline(s, d, n) {
        proof {
            assert forall|e2: int|
                d < e2 < s@.len() && s@[e2] == '}' implies !(crate::text::lacks(
                s@.subrange(d as int, e2),
                '\n',
            ) && crate::text::lacks(s@.skip(e2 + 1), '\n')) by {
                if crate::text::lacks(s@.subrange(d as int, e2), '\n') && crate::text::lacks(
                    s@.skip(e2 + 1),
                    '\n',
                ) {
                    assert forall|x: int| 0 <= x < n - d implies #[trigger] s@.subrange(
                        d as int,
                        n as int,
                    )[x] != '\n' by {
                        let y = x + d;
                        if y < e2 {
                            assert(s@.subrange(d as int, e2)[x] == s@[y]);
                        } else if y > e2 {
                            assert(s@.skip(e2 + 1)[y - e2 - 1] == s@[y]);
                        }
                    }
                }
            }
        }
        return None;
    }
    let mut e = d + 1;
    while e < n
        invariant
            d < e <= n,
            n == s@.len(),
            crate::text::lacks(s@.subrange(d as int, n as int), '\n'),
            forall|e2: int| d < e2 < e ==> s@[e2] != '}',
        decreases n - e,
    {
        if s[e] == '}' {
            proof {
                lemma_lacks_sub(s@, d as int, e as int, d as int, n as int);
                lemma_lacks_sub(s@, e + 1, n as int, d as int, n as int);
                assert(s@.skip(e + 1) =~= s@.subrange(e + 1, n as int));
            }
            return Some(e);
        }
        e = e + 1;
    }
    None
}

/// The greatest `d` in `[c + 2, dmax]` that a closing brace can follow, with
/// the first such brace.
fn rename_tail(s: &[char], c: usize) -> (r: Option<(usize, usize)>)
    requires
        c + 1 < s@.len(),
        s@[c as int] == '=',
        s@[c + 1] == '>',
    ensures
        match r {
            Some((d, e)) => rename_tail_ok(s@, c as int, d as int, e as int) && forall|d2: int, e2: int|
                #[trigger] rename_tail_ok(s@, c as int, d2, e2) ==> d2 < d || (d2 == d && e2 >= e),
            None => forall|d2: int, e2: int| !#[trigger] rename_tail_ok(s@, c as int, d2, e2),
        },
{
    let n = s.len();
    let dmax = ws_end(s, c + 2);
    let mut d = dmax;
    assert forall|d2: int, e2: int| #[trigger] rename_tail_ok(s@, c as int, d2, e2) implies d2 <= d by {
        lemma_run_within(s@, c + 2, dmax as int, d2);
    }
    loop
        invariant
            c + 2 <= d <= dmax <= n,
            n == s@.len(),
            crate::text::all_whitespace(s@.subrange(c + 2, dmax as int)),
            dmax < n ==> !crate::text::is_whitespace(s@[dmax as int]),
            forall|d2: int, e2: int| #[trigger] rename_tail_ok(s@, c as int, d2, e2) ==> d2 <= d,
        decreases d,
    {
        if d < n {
            match close_after(s, d) {
                Some(e) => {
                    proof {
                        lemma_ws_sub(s@, c + 2, d as int, c + 2, dmax as int);
                    }
                    return Some((d, e));
                },
                None => {},
            }
        }
        if d == c + 2 {
            return None;
        }
        d = d - 1;
    }
}

/// The part of a rename candidate after `=>`.
pub open spec fn rename_tail_ok(s: Seq<char>, c: int, d: int, e: int) -> bool {
    &&& c + 2 <= d && d < e && e < s.len()
    &&& crate::text::all_whitespace(s.subrange(c + 2, d))
    &&& crate::text::lacks(s.subrange(d, e), '\n')
    &&& s[e] == '}'
    &&& crate::text::lacks(s.skip(e + 1), '\n')
}

} // verus!

verus! {

/// The best rename candidate whose `{` is at `a`.
fn rename_from(s: &[char], a: usize) -> (r: Option<(usize, usize, usize, usize)>)
    requires
        a < s@.len(),
        s@[a as int] == '{',
        crate::text::lacks(s@.take(a as int), '\n'),
    ensures
        match r {
            Some((b, c, d, e)) => rename_candidate(s@, a as int, b as int, c as int, d as int, e as int)
                && forall|b2: int, c2: int, d2: int, e2: int|
                #[trigger] rename_candidate(s@, a as int, b2, c2, d2, e2) ==> !rename_outranks(
                    (a as int, b2, c2, d2, e2),
                    (a as int, b as int, c as int, d as int, e as int),
                ),
            None => forall|b2: int, c2: int, d2: int, e2: int|
                !#[trigger] rename_candidate(s@, a as int, b2, c2, d2, e2),
        },
{
    let n = s.len();
    if n - a < 2 {
        return None;
    }
    let mut b = a + 2;
    while b < n
        invariant
            a + 2 <= b <= n,
            n == s@.len(),
            a < n,
            s@[a as int] == '{',
            crate::text::lacks(s@.take(a as int), '\n'),
            crate::text::lacks(s@.subrange(a + 1, b - 1), '\n'),
            forall|b2: int, c2: int, d2: int, e2: int|
                #[trigger] rename_candidate(s@, a as int, b2, c2, d2, e2) ==> b2 >= b,
        decreases n - b,
    {
        if s[b - 1] == '\n' {
            proof {
                assert forall|b2: int, c2: int, d2: int, e2: int|
                    !#[trigger] rename_candidate(s@, a as int, b2, c2, d2, e2) by {
                    if rename_candidate(s@, a as int, b2, c2, d2, e2) {
                        assert(s@.subrange(a + 1, b2)[b - 1 - (a + 1)] == s@[b - 1]);
                    }
                }
            }
            return None;
        }
        proof {
            assert(s@.subrange(a + 1, b as int) =~= s@.subrange(a + 1, b - 1).push(s@[b - 1]));
        }
        let c = ws_end(s, b);
        if c < n && c + 1 < n && s[c] == '=' && s[c + 1] == '>' {
            match rename_tail(s, c) {
                Some((d, e)) => {
                    proof {
                        assert forall|b2: int, c2: int, d2: int, e2: int|
                            #[trigger] rename_candidate(s@, a as int, b2, c2, d2, e2) implies !rename_outranks(
                            (a as int, b2, c2, d2, e2),
                            (a as int, b as int, c as int, d as int, e as int),
                        ) by {
                            if b2 == b {
                                lemma_run_end_unique(s@, b as int, c as int, c2);
                                assert(rename_tail_ok(s@, c as int, d2, e2));
                            }
                        }
                    }
                    return Some((b, c, d, e));
                },
                None => {},
            }
        }
        proof {
            assert forall|b2: int, c2: int, d2: int, e2: int|
                #[trigger] rename_candidate(s@, a as int, b2, c2, d2, e2) implies b2 >= b + 1 by {
                if b2 == b {
                    lemma_run_end_unique(s@, b as int, c as int, c2);
                    assert(rename_tail_ok(s@, c as int, d2, e2));
                }
            }
        }
        b = b + 1;
    }
    None
}

/// The rename candidate that the pattern matches, if any.
fn rename_split(s: &[char]) -> (r: Option<(usize, usize, usize, usize, usize)>)
    ensures
        match r {
            Some((a, b, c, d, e)) => rename_match(s@, a as int, b as int, c as int, d as int, e as int),
            None => forall|a2: int, b2: int, c2: int, d2: int, e2: int|
                !#[trigger] rename_candidate(s@, a2, b2, c2, d2, e2),
        },
{
    let n = s.len();
    let mut a = n;
    while a > 0
        invariant
            a <= n,
            n == s@.len(),
            forall|a2: int, b2: int, c2: int, d2: int, e2: int|
                #[trigger] rename_candidate(s@, a2, b2, c2, d2, e2) ==> a2 < a,
        decreases a,
    {
        a = a - 1;
        let open = s[a] == '{' && lacks_newline(s, 0, a);
        proof {
            assert(s@.take(a as int) =~= s@.subrange(0, a as int));
        }
        if open {
            match rename_from(s, a) {
                Some((b, c, d, e)) => {
                    return Some((a, b, c, d, e));
                },
                None => {},
            }
        }
    }
    None
}

/// The best rename candidate is unique.
proof fn lemma_rename_match_unique(
    s: Seq<char>,
    t: (int, int, int, int, int),
    u: (int, int, int, int, int),
)
    requires
        rename_match(s, t.0, t.1, t.2, t.3, t.4),
        rename_match(s, u.0, u.1, u.2, u.3, u.4),
    ensures
        t == u,
{
    assert(rename_candidate(s, u.0, u.1, u.2, u.3, u.4));
    assert(rename_candidate(s, t.0, t.1, t.2, t.3, t.4));
}

/// The path of a renamed or copied file: prefix, new part and suffix of the
/// `prefix{old => new}suffix` description.
fn rename_path_exec(description: &[char]) -> (r: Option<Vec<char>>)
    ensures
        match rename_path(description@) {
            Some(p) => r matches Some(v) && v@ == p,
            None => r is None,
        },
{
    match rename_split(description) {
        Some((a, b, c, d, e)) => {
            let n = description.len();
            let mut path = sub_chars(description, 0, a);
            crate::text::append_chars(&mut path, &sub_chars(description, d, e));
            crate::text::append_chars(&mut path, &sub_chars(description, e + 1, n));
            proof {
                let s = description@;
                assert(exists|a: int, b: int, c: int, d: int, e: int| rename_match(s, a, b, c, d, e));
                let t = choose|a: int, b: int, c: int, d: int, e: int| rename_match(s, a, b, c, d, e);
                lemma_rename_match_unique(s, t, (a as int, b as int, c as int, d as int, e as int));
                assert(s.take(a as int) =~= s.subrange(0, a as int));
                assert(s.skip(e + 1) =~= s.subrange(e + 1, s.len() as int));
            }
            Some(path)
        },
        None => {
            proof {
                let s = description@;
                if exists|a: int, b: int, c: int, d: int, e: int| rename_match(s, a, b, c, d, e) {
                    let t = choose|a: int, b: int, c: int, d: int, e: int| rename_match(s, a, b, c, d, e);
                    assert(rename_candidate(s, t.0, t.1, t.2, t.3, t.4));
                }
            }
            None
        },
    }
}

/// The file diff that a `jj diff --summary` line describes: a status letter,
/// whitespace, and a description that is the path, or for renames and copies
/// `prefix{old => new}suffix` whose path is prefix, new part and suffix.
pub open spec fn file_diff_parse(change_id: Seq<char>, line: Seq<char>, graph_indent: Seq<char>) -> Result<
    FileDiffView,
    LogTreeErrorView,
> {
    let clean = strip_ansi_spec(line);
    if clean.len() < 1 || !is_status_char(clean[0]) {
        Err(LogTreeErrorView::FileDiffSyntax(clean))
    } else {
        match summary_start(clean) {
            None => Err(LogTreeErrorView::FileDiffSyntax(clean)),
            Some(k) => {
                let status = status_of(clean[0]);
                let description = clean.skip(k);
                let path = if status == FileDiffStatus::Renamed || status == FileDiffStatus::Copied {
                    rename_path(description)
                } else {
                    Some(description)
                };
                match path {
                    None => Err(LogTreeErrorView::RenameSyntax(description)),
                    Some(p) => Ok(
                        FileDiffView {
                            change_id,
                            path: p,
                            description,
                            status,
                            graph_indent,
                            unfolded: false,
                            loaded: false,
                            diff_lines: seq![],
                        },
                    ),
                }
            },
        }
    }
}

impl FileDiff {
    /// Read a file diff from a line of `jj diff --summary`.
    pub fn new(change_id: String, ansi_string: String, graph_indent: String) -> (r: Result<Self, LogTreeError>)
        ensures
            match file_diff_parse(change_id@, ansi_string@, graph_indent@) {
                Ok(f) => r matches Ok(x) && x@ == f && x.flat_log_idx == 0,
                Err(e) => r matches Err(x) && x@ == e,
            },
    {
        let clean = strip_ansi_chars(&chars_of(ansi_string.as_str()));
        if clean.len() < 1 {
            return Err(LogTreeError::FileDiffSyntax { line: string_of(&clean) });
        }
        let c0 = clean[0];
        if !(c0 == 'M' || c0 == 'A' || c0 == 'D' || c0 == 'R' || c0 == 'C') {
            return Err(LogTreeError::FileDiffSyntax { line: string_of(&clean) });
        }
        let k = match summary_start_exec(&clean) {
            Some(k) => k,
            None => {
                return Err(LogTreeError::FileDiffSyntax { line: string_of(&clean) });
            },
        };
        let status = if c0 == 'M' {
            FileDiffStatus::Modified
        } else if c0 == 'A' {
            FileDiffStatus::Added
        } else if c0 == 'D' {
            FileDiffStatus::Deleted
        } else if c0 == 'R' {
            FileDiffStatus::Renamed
        } else {
            FileDiffStatus::Copied
        };
        let description = sub_chars(&clean, k, clean.len());
        assert(description@ =~= clean@.skip(k as int));
        let path = match status {
            FileDiffStatus::Renamed | FileDiffStatus::Copied => match rename_path_exec(&description) {
                Some(p) => p,
                None => {
                    return Err(LogTreeError::RenameSyntax { description: string_of(&description) });
                },
            },
            _ => sub_chars(&description, 0, description.len()),
        };
        assert(description@.subrange(0, description@.len() as int) =~= description@);
        let f = FileDiff {
            change_id,
            path: string_of(&path),
            description: string_of(&description),
            status,
            graph_indent,
            unfolded: false,
            loaded: false,
            diff_lines: Vec::new(),
            flat_log_idx: 0,
        };
        assert(f@.diff_lines =~= Seq::<DiffLineView>::empty());
        Ok(f)
    }
}

} // verus!

verus! {

// ---------------------------------------------------------------------------
// Loading
// ---------------------------------------------------------------------------

/// A line of a git diff that opens a hunk (`@@`), once styling is removed.
pub open spec fn is_hunk_header(l: Seq<char>) -> bool {
    starts_with(strip_ansi_spec(l), "@@"@)
}

/// A line of a git diff that repeats the file node's path: `diff --git` or
/// `index `, once styling is removed.
pub open spec fn is_git_header(l: Seq<char>) -> bool {
    starts_with(strip_ansi_spec(l), "diff --git"@) || starts_with(strip_ansi_spec(l), "index "@)
}

/// The first hunk header at or after index `i`.
pub open spec fn first_hunk_from(ls: Seq<Seq<char>>, i: int) -> Option<int>
    decreases ls.len() - i,
{
    if i < 0 || i >= ls.len() {
        None
    } else if is_hunk_header(ls[i]) {
        Some(i)
    } else {
        first_hunk_from(ls, i + 1)
    }
}

/// The lines that are not `diff --git` or `index ` headers, in order.
pub open spec fn drop_git_headers(ls: Seq<Seq<char>>) -> Seq<Seq<char>>
    decreases ls.len(),
{
    if ls.len() == 0 {
        seq![]
    } else if is_git_header(ls.last()) {
        drop_git_headers(ls.drop_last())
    } else {
        drop_git_headers(ls.drop_last()).push(ls.last())
    }
}

/// The displayable body of a file's git diff: the lines from the first hunk
/// header onward; without a hunk, every line but the `diff --git` and
/// `index ` headers.
pub open spec fn diff_body_spec(ls: Seq<Seq<char>>) -> Seq<Seq<char>> {
    match first_hunk_from(ls, 0) {
        Some(start) => ls.skip(start),
        None => drop_git_headers(ls),
    }
}

fn starts_with_clean(line: &str, prefix: &str) -> (r: bool)
    ensures
        r == starts_with(strip_ansi_spec(line@), prefix@),
{
    let clean = strip_ansi_chars(&chars_of(line));
    let p = chars_of(prefix);
    starts_with_exec(&clean, &p)
}

/// Extract the displayable body of a single file's git diff.
///
/// delta (and jj's colored git diff) emit the standard git file headers
/// (`diff --git`, `index`, `--- a/…`, `+++ b/…`) ahead of the hunks. Those repeat
/// the path already shown on the file node, so we keep only the lines from the
/// first hunk header (`@@`) onward. A file with no textual hunk (binary, a
/// mode-only change, or a pure rename) has no `@@`; there we drop just the
/// redundant `diff --git`/`index` lines and keep the remaining metadata (mode,
/// rename, or `Binary files …`) so the file still shows why it changed rather
/// than expanding to nothing.
pub fn diff_body<'a>(lines: &[&'a str]) -> (r: Vec<&'a str>)
    ensures
        crate::text::strs_of(r@) == diff_body_spec(crate::text::strs_of(lines@)),
{
    let ghost ls = crate::text::strs_of(lines@);
    let n = lines.len();
    let mut i: usize = 0;
    while i < n
        invariant
            0 <= i <= n,
            n == lines@.len(),
            ls == crate::text::strs_of(lines@),
            first_hunk_from(ls, 0) == first_hunk_from(ls, i as int),
        decreases n - i,
    {
        if starts_with_clean(lines[i], "@@") {
            let mut body: Vec<&'a str> = Vec::new();
            let mut j = i;
            while j < n
                invariant
                    i <= j <= n,
                    n == lines@.len(),
                    ls == crate::text::strs_of(lines@),
                    crate::text::strs_of(body@) =~= ls.subrange(i as int, j as int),
                decreases n - j,
            {
                let ghost prev = crate::text::strs_of(body@);
                body.push(lines[j]);
                assert(crate::text::strs_of(body@) =~= prev.push(lines@[j as int]@));
                assert(ls.subrange(i as int, j + 1) =~= ls.subrange(i as int, j as int).push(ls[j as int]));
                j = j + 1;
            }
            assert(ls.skip(i as int) =~= ls.subrange(i as int, n as int));
            return body;
        }
        i = i + 1;
    }
    let mut body: Vec<&'a str> = Vec::new();
    let mut k: usize = 0;
    while k < n
        invariant
            0 <= k <= n,
            n == lines@.len(),
            ls == crate::text::strs_of(lines@),
            crate::text::strs_of(body@) == drop_git_headers(ls.take(k as int)),
        decreases n - k,
    {
        let ghost prev = crate::text::strs_of(body@);
        assert(ls.take(k + 1).drop_last() =~= ls.take(k as int));
        if !(starts_with_clean(lines[k], "diff --git") || starts_with_clean(lines[k], "index ")) {
            body.push(lines[k]);
            assert(crate::text::strs_of(body@) =~= prev.push(ls[k as int]));
        }
        k = k + 1;
    }
    assert(ls.take(n as int) =~= ls);
    body
}

/// The diff lines of a file: one per line of its diff's body, each under the
/// file's indent, then a divider when there are any.
pub open spec fn diff_lines_load(output: Seq<char>, graph_indent: Seq<char>) -> Seq<DiffLineView> {
    let body = diff_body_spec(lines(output));
    let dl = Seq::new(
        body.len(),
        |i: int| DiffLineView { ansi_string: body[i], graph_indent },
    );
    if body.len() > 0 {
        dl.push(DiffLineView { ansi_string: divider(), graph_indent })
    } else {
        dl
    }
}

/// The contents of a sequence of diff lines.
pub open spec fn diff_lines_of(v: Seq<DiffLine>) -> Seq<DiffLineView> {
    Seq::new(v.len(), |k: int| v[k]@)
}

/// The contents of a sequence of file diffs.
pub open spec fn file_diffs_of(v: Seq<FileDiff>) -> Seq<FileDiffView> {
    Seq::new(v.len(), |j: int| v[j]@)
}

/// The contents of a sequence of log entries.
pub open spec fn entries_of(v: Seq<CommitOrText>) -> Seq<CommitOrTextView> {
    Seq::new(v.len(), |i: int| v[i]@)
}

impl DiffLine {
    /// The diff lines that a file's rendered diff yields, under the file's indent.
    pub fn load_all(output: &str, graph_indent: &str) -> (r: Vec<DiffLine>)
        ensures
            diff_lines_of(r@) == diff_lines_load(output@, graph_indent@),
            forall|k: int| 0 <= k < r@.len() ==> (#[trigger] r@[k]).flat_log_idx == 0,
    {
        let out_lines = lines_exec(&chars_of(output));
        let mut owned: Vec<String> = Vec::new();
        let mut i: usize = 0;
        while i < out_lines.len()
            invariant
                0 <= i <= out_lines@.len(),
                strings_of(owned@) =~= seqs_of(out_lines@).take(i as int),
            decreases out_lines@.len() - i,
        {
            let ghost prev = strings_of(owned@);
            owned.push(string_of(&out_lines[i]));
            assert(strings_of(owned@) =~= prev.push(out_lines@[i as int]@));
            assert(seqs_of(out_lines@).take(i + 1) =~= seqs_of(out_lines@).take(i as int).push(
                out_lines@[i as int]@,
            ));
            i = i + 1;
        }
        let mut borrowed: Vec<&str> = Vec::new();
        let mut j: usize = 0;
        while j < owned.len()
            invariant
                0 <= j <= owned@.len(),
                crate::text::strs_of(borrowed@) =~= strings_of(owned@).take(j as int),
            decreases owned@.len() - j,
        {
            let ghost prev = crate::text::strs_of(borrowed@);
            borrowed.push(owned[j].as_str());
            assert(crate::text::strs_of(borrowed@) =~= prev.push(owned@[j as int]@));
            assert(strings_of(owned@).take(j + 1) =~= strings_of(owned@).take(j as int).push(
                owned@[j as int]@,
            ));
            j = j + 1;
        }
        assert(seqs_of(out_lines@).take(out_lines@.len() as int) =~= seqs_of(out_lines@));
        assert(strings_of(owned@).take(owned@.len() as int) =~= strings_of(owned@));
        let body = diff_body(&borrowed);
        let ghost bs = crate::text::strs_of(body@);
        let mut result: Vec<DiffLine> = Vec::new();
        let mut k: usize = 0;
        while k < body.len()
            invariant
                0 <= k <= body@.len(),
                bs == crate::text::strs_of(body@),
                diff_lines_of(result@) =~= Seq::new(
                    k as nat,
                    |x: int| DiffLineView { ansi_string: bs[x], graph_indent: graph_indent@ },
                ),
                forall|x: int| 0 <= x < result@.len() ==> (#[trigger] result@[x]).flat_log_idx == 0,
            decreases body@.len() - k,
        {
            let ghost prev = diff_lines_of(result@);
            let line = DiffLine::new(crate::text::lit(body[k]), crate::text::lit(graph_indent));
            let ghost lv = line@;
            result.push(line);
            assert(diff_lines_of(result@) =~= prev.push(lv));
            k = k + 1;
        }
        if result.len() > 0 {
            let ghost prev = diff_lines_of(result@);
            // Visual divider between this file's diff and the next item in the log list
            result.push(DiffLine::new(crate::text::lit("\x1b[35m~\x1b[0m"), crate::text::lit(graph_indent)));
            assert(diff_lines_of(result@) =~= prev.push(
                DiffLineView { ansi_string: divider(), graph_indent: graph_indent@ },
            ));
        }
        result
    }
}

/// Whether a line carries the field marker, that is, opens a commit entry.
pub open spec fn has_marker(l: Seq<char>) -> bool {
    find(l, marker()) is Some
}

/// An outcome with `done` put in front of a successful rest.
pub open spec fn prepend<T>(done: Seq<T>, rest: Result<Seq<T>, LogTreeErrorView>) -> Result<
    Seq<T>,
    LogTreeErrorView,
> {
    match rest {
        Ok(r) => Ok(done + r),
        Err(e) => Err(e),
    }
}

/// The file diffs of `jj diff --summary` lines, or the first line's error.
pub open spec fn parse_file_diffs(ls: Seq<Seq<char>>, change_id: Seq<char>, graph_indent: Seq<char>) -> Result<
    Seq<FileDiffView>,
    LogTreeErrorView,
>
    decreases ls.len(),
{
    if ls.len() == 0 {
        Ok(seq![])
    } else {
        match file_diff_parse(change_id, ls[0], graph_indent) {
            Err(e) => Err(e),
            Ok(f) => prepend(seq![f], parse_file_diffs(ls.drop_first(), change_id, graph_indent)),
        }
    }
}

proof fn lemma_prepend_assoc<T>(a: Seq<T>, b: Seq<T>, rest: Result<Seq<T>, LogTreeErrorView>)
    ensures
        prepend(a, prepend(b, rest)) == prepend(a + b, rest),
{
    match rest {
        Ok(r) => assert(a + (b + r) =~= (a + b) + r),
        Err(e) => {},
    }
}

proof fn lemma_prepend_empty<T>(rest: Result<Seq<T>, LogTreeErrorView>)
    ensures
        prepend(Seq::<T>::empty(), rest) == rest,
{
    match rest {
        Ok(r) => assert(Seq::<T>::empty() + r =~= r),
        Err(e) => {},
    }
}

impl FileDiff {
    /// The file diffs of a commit, read from its `jj diff --summary` output.
    pub fn load_all(output: &str, change_id: &str, graph_indent: &str) -> (r: Result<Vec<FileDiff>, LogTreeError>)
        ensures
            match parse_file_diffs(lines(trim(output@)), change_id@, graph_indent@) {
                Ok(fs) => r matches Ok(v) && file_diffs_of(v@) == fs && forall|j: int|
                    0 <= j < v@.len() ==> (#[trigger] v@[j]).flat_log_idx == 0,
                Err(e) => r matches Err(x) && x@ == e,
            },
    {
        let ls = lines_exec(&trim_chars(&chars_of(output)));
        let ghost all = seqs_of(ls@);
        let mut file_diffs: Vec<FileDiff> = Vec::new();
        let mut i: usize = 0;
        assert(all.skip(0) =~= all);
        proof {
            lemma_prepend_empty(parse_file_diffs(all, change_id@, graph_indent@));
        }
        while i < ls.len()
            invariant
                0 <= i <= ls@.len(),
                all == seqs_of(ls@),
                all == lines(trim(output@)),
                parse_file_diffs(all, change_id@, graph_indent@) == prepend(
                    file_diffs_of(file_diffs@),
                    parse_file_diffs(all.skip(i as int), change_id@, graph_indent@),
                ),
                forall|j: int| 0 <= j < file_diffs@.len() ==> (#[trigger] file_diffs@[j]).flat_log_idx == 0,
            decreases ls@.len() - i,
        {
            let ghost rest = all.skip(i as int);
            assert(rest[0] == all[i as int]);
            assert(rest.drop_first() =~= all.skip(i + 1));
            let f = FileDiff::new(
                crate::text::lit(change_id),
                string_of(&ls[i]),
                crate::text::lit(graph_indent),
            );
            match f {
                Ok(fd) => {
                    let ghost prev = file_diffs_of(file_diffs@);
                    let ghost fv = fd@;
                    file_diffs.push(fd);
                    proof {
                        assert(file_diffs_of(file_diffs@) =~= prev + seq![fv]);
                        lemma_prepend_assoc(
                            prev,
                            seq![fv],
                            parse_file_diffs(all.skip(i + 1), change_id@, graph_indent@),
                        );
                    }
                },
                Err(e) => {
                    assert(parse_file_diffs(rest, change_id@, graph_indent@) == Err::<Seq<FileDiffView>, LogTreeErrorView>(e@));
                    assert(parse_file_diffs(all, change_id@, graph_indent@) == Err::<Seq<FileDiffView>, LogTreeErrorView>(e@));
                    return Err(e);
                },
            }
            i = i + 1;
        }
        proof {
            assert(all.skip(i as int) =~= Seq::<Seq<char>>::empty());
            assert(file_diffs_of(file_diffs@) + Seq::<FileDiffView>::empty() =~= file_diffs_of(
                file_diffs@,
            ));
        }
        Ok(file_diffs)
    }
}

} // verus!

verus! {

/// The entries of the `jj log` lines: a line with the field marker opens a
/// commit, whose line 2 is the next line unless that one opens a commit too;
/// any other line is an info text. The first error ends the reading.
pub open spec fn parse_entries(ls: Seq<Seq<char>>) -> Result<Seq<CommitOrTextView>, LogTreeErrorView>
    decreases ls.len(),
{
    if ls.len() == 0 {
        Ok(seq![])
    } else if !has_marker(ls[0]) {
        prepend(seq![CommitOrTextView::InfoText(ls[0])], parse_entries(ls.drop_first()))
    } else if ls.len() >= 2 && !has_marker(ls[1]) {
        match commit_parse(ls[0], Some(ls[1])) {
            Err(e) => Err(e),
            Ok(c) => prepend(seq![CommitOrTextView::Commit(c)], parse_entries(ls.skip(2))),
        }
    } else {
        match commit_parse(ls[0], None) {
            Err(e) => Err(e),
            Ok(c) => prepend(seq![CommitOrTextView::Commit(c)], parse_entries(ls.drop_first())),
        }
    }
}

/// The log that `jj log` output describes; an empty output means the revset
/// selected nothing.
pub open spec fn log_parse(output: Seq<char>, revset: Seq<char>) -> Result<
    Seq<CommitOrTextView>,
    LogTreeErrorView,
> {
    let ls = lines(trim(output));
    if ls.len() == 0 {
        Err(LogTreeErrorView::EmptyRevset(revset))
    } else {
        parse_entries(ls)
    }
}

fn has_marker_exec(line: &[char], m: &[char]) -> (r: bool)
    requires
        m@ == marker(),
    ensures
        r == has_marker(line@),
{
    find_exec(line, m).is_some()
}

impl CommitOrText {
    /// The log entries that `jj log` output for `revset` describes.
    pub fn load_all(output: &str, revset: &str) -> (r: Result<Vec<Self>, LogTreeError>)
        ensures
            match log_parse(output@, revset@) {
                Ok(es) => r matches Ok(v) && entries_of(v@) == es,
                Err(e) => r matches Err(x) && x@ == e,
            },
            r matches Ok(v) ==> forall|j: int| 0 <= j < v@.len() ==> entry_flat_idx(#[trigger] v@[j]) == 0,
    {
        let ls = lines_exec(&trim_chars(&chars_of(output)));
        let ghost all = seqs_of(ls@);
        if ls.len() == 0 {
            return Err(LogTreeError::EmptyRevset { revset: crate::text::lit(revset) });
        }
        let m = chars_of(COMMIT_FIELD_MARKER);
        let n = ls.len();
        let mut entries: Vec<CommitOrText> = Vec::new();
        let mut i: usize = 0;
        assert(all.skip(0) =~= all);
        proof {
            lemma_prepend_empty(parse_entries(all));
        }
        while i < n
            invariant
                0 <= i <= n,
                n == ls@.len(),
                m@ == marker(),
                all == seqs_of(ls@),
                all == lines(trim(output@)),
                parse_entries(all) == prepend(entries_of(entries@), parse_entries(all.skip(i as int))),
                forall|j: int| 0 <= j < entries@.len() ==> entry_flat_idx(#[trigger] entries@[j]) == 0,
            decreases n - i,
        {
            let ghost rest = all.skip(i as int);
            let ghost prev = entries_of(entries@);
            assert(rest[0] == all[i as int]);
            if !has_marker_exec(&ls[i], &m) {
                let e = CommitOrText::InfoText(InfoText::new(string_of(&ls[i])));
                let ghost ev = e@;
                entries.push(e);
                proof {
                    assert(rest.drop_first() =~= all.skip(i + 1));
                    assert(entries_of(entries@) =~= prev + seq![ev]);
                    lemma_prepend_assoc(prev, seq![ev], parse_entries(all.skip(i + 1)));
                }
                i = i + 1;
            } else {
                let with_line2 = i + 1 < n && !has_marker_exec(&ls[i + 1], &m);
                let line2 = if with_line2 {
                    Some(string_of(&ls[i + 1]))
                } else {
                    None
                };
                let ghost l2v = opt_view(line2);
                let step: usize = if with_line2 {
                    2
                } else {
                    1
                };
                proof {
                    if with_line2 {
                        assert(rest[1] == all[i + 1]);
                        assert(rest.skip(2) =~= all.skip(i + 2));
                    } else {
                        assert(rest.drop_first() =~= all.skip(i + 1));
                    }
                }
                match Commit::new(string_of(&ls[i]), line2) {
                    Ok(c) => {
                        let e = CommitOrText::Commit(c);
                        let ghost ev = e@;
                        entries.push(e);
                        proof {
                            assert(entries_of(entries@) =~= prev + seq![ev]);
                            lemma_prepend_assoc(prev, seq![ev], parse_entries(all.skip(i + step)));
                        }
                    },
                    Err(e) => {
                        assert(parse_entries(rest) == Err::<Seq<CommitOrTextView>, LogTreeErrorView>(e@));
                        return Err(e);
                    },
                }
                i = i + step;
            }
        }
        proof {
            assert(all.skip(i as int) =~= Seq::<Seq<char>>::empty());
            assert(entries_of(entries@) + Seq::<CommitOrTextView>::empty() =~= entries_of(entries@));
        }
        Ok(entries)
    }

    /// The flat index of this entry's row.
    pub fn flat_log_idx(&self) -> (r: usize)
        ensures
            r == entry_flat_idx(*self),
    {
        match self {
            CommitOrText::Commit(commit) => commit.flat_log_idx,
            CommitOrText::InfoText(info_text) => info_text.flat_log_idx,
        }
    }
}

/// The flat index of an entry's own row.
pub open spec fn entry_flat_idx(e: CommitOrText) -> usize {
    match e {
        CommitOrText::Commit(c) => c.flat_log_idx,
        CommitOrText::InfoText(t) => t.flat_log_idx,
    }
}

/// A position in the log tree: the entry's index, then the file diff's, then
/// the diff line's.
pub type TreePosition = Vec<usize>;

/// The jj log: its entries, in display order.
#[derive(Debug)]
pub struct JjLog {
    pub log_tree: Vec<CommitOrText>,
}

impl View for JjLog {
    type V = Seq<CommitOrTextView>;

    open spec fn view(&self) -> Seq<CommitOrTextView> {
        entries_of(self.log_tree@)
    }
}

/// The parent of a position: the position without its last index, for a
/// position below the top level.
pub fn get_parent_tree_position(tree_pos: &TreePosition) -> (r: Option<TreePosition>)
    ensures
        tree_pos@.len() > 1 ==> (r matches Some(p) && p@ == tree_pos@.drop_last()),
        tree_pos@.len() <= 1 ==> r is None,
{
    if tree_pos.len() > 1 {
        let mut p: Vec<usize> = Vec::new();
        let mut i: usize = 0;
        while i < tree_pos.len() - 1
            invariant
                0 <= i <= tree_pos@.len() - 1,
                p@ =~= tree_pos@.take(i as int),
            decreases tree_pos@.len() - 1 - i,
        {
            p.push(tree_pos[i]);
            i = i + 1;
        }
        Some(p)
    } else {
        None
    }
}

/// The commit that a top-level entry is, if it is one.
pub open spec fn entry_commit(e: CommitOrText) -> Option<Commit> {
    match e {
        CommitOrText::Commit(c) => Some(c),
        CommitOrText::InfoText(_) => None,
    }
}

/// The index of the first entry that is the working-copy commit, searching from `i`.
pub open spec fn first_working_copy(es: Seq<CommitOrText>, i: int) -> Option<int>
    decreases es.len() - i,
{
    if i < 0 || i >= es.len() {
        None
    } else if entry_commit(es[i]) matches Some(c) && c.current_working_copy {
        Some(i)
    } else {
        first_working_copy(es, i + 1)
    }
}

impl JjLog {
    /// An empty log.
    pub fn new() -> (r: Result<Self, LogTreeError>)
        ensures
            r matches Ok(l) && l@ == Seq::<CommitOrTextView>::empty(),
    {
        let l = JjLog { log_tree: Vec::new() };
        assert(l@ =~= Seq::<CommitOrTextView>::empty());
        Ok(l)
    }

    /// Replace the log by the one that `jj log` output for `revset` describes;
    /// on error the log is left as it was.
    pub fn load_log_tree(&mut self, log_output: &str, revset: &str) -> (r: Result<(), LogTreeError>)
        ensures
            match log_parse(log_output@, revset@) {
                Ok(es) => r is Ok && final(self)@ == es,
                Err(e) => r matches Err(x) && x@ == e && final(self)@ == old(self)@,
            },
            r is Ok ==> loads_consistent(final(self)@) && indices_fit(final(self)@),
            r is Err ==> final(self).log_tree@ == old(self).log_tree@,
            r is Ok ==> forall|j: int|
                0 <= j < final(self).log_tree@.len() ==> entry_flat_idx(#[trigger] final(self).log_tree@[j]) == 0,
    {
        proof {
            lemma_parse_entries_consistent(lines(trim(log_output@)));
        }
        match CommitOrText::load_all(log_output, revset) {
            Ok(v) => {
                self.log_tree = v;
                Ok(())
            },
            Err(e) => Err(e),
        }
    }

    /// The commit at a position's top-level index, or `None` for an info text.
    pub fn get_tree_commit(&self, tree_pos: &TreePosition) -> (r: Option<&Commit>)
        requires
            tree_pos@.len() >= 1,
            tree_pos@[0] < self.log_tree@.len(),
        ensures
            match entry_commit(self.log_tree@[tree_pos@[0] as int]) {
                Some(c) => r matches Some(x) && *x == c,
                None => r is None,
            },
    {
        let commit_or_text = &self.log_tree[tree_pos[0]];
        match commit_or_text {
            CommitOrText::InfoText(_) => None,
            CommitOrText::Commit(commit) => Some(commit),
        }
    }

    /// The file diff at a position below a commit, or `None` for a top-level
    /// position or an info text.
    pub fn get_tree_file_diff(&self, tree_pos: &TreePosition) -> (r: Option<&FileDiff>)
        requires
            tree_pos@.len() > 1 ==> tree_pos@[0] < self.log_tree@.len() && (entry_commit(
                self.log_tree@[tree_pos@[0] as int],
            ) matches Some(c) ==> tree_pos@[1] < c.file_diffs@.len()),
        ensures
            tree_pos@.len() <= 1 ==> r is None,
            tree_pos@.len() > 1 ==> match entry_commit(self.log_tree@[tree_pos@[0] as int]) {
                Some(c) => r matches Some(x) && *x == c.file_diffs@[tree_pos@[1] as int],
                None => r is None,
            },
    {
        if tree_pos.len() <= 1 {
            return None;
        }
        let commit = match self.get_tree_commit(tree_pos) {
            Some(c) => c,
            None => {
                return None;
            },
        };
        Some(&commit.file_diffs[tree_pos[1]])
    }

    /// The working-copy commit: the first commit marked as such.
    pub fn get_current_commit(&self) -> (r: Option<&Commit>)
        ensures
            match first_working_copy(self.log_tree@, 0) {
                Some(i) => r matches Some(x) && entry_commit(self.log_tree@[i]) == Some(*x),
                None => r is None,
            },
    {
        let mut i: usize = 0;
        while i < self.log_tree.len()
            invariant
                0 <= i <= self.log_tree@.len(),
                first_working_copy(self.log_tree@, 0) == first_working_copy(self.log_tree@, i as int),
            decreases self.log_tree@.len() - i,
        {
            match &self.log_tree[i] {
                CommitOrText::Commit(commit) => {
                    if commit.current_working_copy {
                        return Some(commit);
                    }
                },
                CommitOrText::InfoText(_) => {},
            }
            i = i + 1;
        }
        None
    }
}

} // verus!

verus! {

// ---------------------------------------------------------------------------
// Flattening
// ---------------------------------------------------------------------------

/// The positions held by a sequence of position vectors.
pub open spec fn pos_seqs(v: Seq<Vec<usize>>) -> Seq<Seq<usize>> {
    Seq::new(v.len(), |i: int| v[i]@)
}

/// The rows of a file diff at `pos`: its own, then its diff lines' when unfolded.
pub open spec fn fd_rows(f: FileDiffView, pos: Seq<usize>) -> Seq<Seq<usize>> {
    seq![pos] + if f.unfolded {
        Seq::new(f.diff_lines.len(), |k: int| pos.push(k as usize))
    } else {
        seq![]
    }
}

/// The rows of the first `n` file diffs of a commit at `pos`.
pub open spec fn fds_rows(fs: Seq<FileDiffView>, pos: Seq<usize>, n: int) -> Seq<Seq<usize>>
    decreases n,
{
    if n <= 0 {
        seq![]
    } else {
        fds_rows(fs, pos, n - 1) + fd_rows(fs[n - 1], pos.push((n - 1) as usize))
    }
}

/// The rows of a commit at `pos`: its own, then its file diffs' when unfolded.
pub open spec fn commit_rows(c: CommitView, pos: Seq<usize>) -> Seq<Seq<usize>> {
    seq![pos] + if c.unfolded {
        fds_rows(c.file_diffs, pos, c.file_diffs.len() as int)
    } else {
        seq![]
    }
}

/// The rows of a top-level entry at `pos`.
pub open spec fn entry_rows(e: CommitOrTextView, pos: Seq<usize>) -> Seq<Seq<usize>> {
    match e {
        CommitOrTextView::Commit(c) => commit_rows(c, pos),
        CommitOrTextView::InfoText(_) => seq![pos],
    }
}

/// The rows of the first `n` entries of the log.
pub open spec fn entries_rows(es: Seq<CommitOrTextView>, n: int) -> Seq<Seq<usize>>
    decreases n,
{
    if n <= 0 {
        seq![]
    } else {
        entries_rows(es, n - 1) + entry_rows(es[n - 1], seq![(n - 1) as usize])
    }
}

/// The positions of the visible nodes of the log, in display order: each
/// entry, and below an unfolded commit its file diffs, and below an unfolded
/// file diff its lines.
pub open spec fn log_rows(es: Seq<CommitOrTextView>) -> Seq<Seq<usize>> {
    entries_rows(es, es.len() as int)
}

/// The flat index of the node at `rel` below a file diff.
pub open spec fn fd_idx_at(fd: FileDiff, rel: Seq<usize>) -> int {
    if rel.len() == 0 {
        fd.flat_log_idx as int
    } else if rel.len() == 1 && rel[0] < fd.diff_lines@.len() {
        fd.diff_lines@[rel[0] as int].flat_log_idx as int
    } else {
        -1
    }
}

/// The flat index of the node at `rel` below a commit.
pub open spec fn commit_idx_at(c: Commit, rel: Seq<usize>) -> int {
    if rel.len() == 0 {
        c.flat_log_idx as int
    } else if rel[0] < c.file_diffs@.len() {
        fd_idx_at(c.file_diffs@[rel[0] as int], rel.drop_first())
    } else {
        -1
    }
}

/// The flat index of the node at `rel` below a top-level entry.
pub open spec fn entry_idx_at(e: CommitOrText, rel: Seq<usize>) -> int {
    match e {
        CommitOrText::Commit(c) => commit_idx_at(c, rel),
        CommitOrText::InfoText(t) => if rel.len() == 0 {
            t.flat_log_idx as int
        } else {
            -1
        },
    }
}

/// The flat index of the node at a position of the log (-1 where there is none).
pub open spec fn log_idx_at(log: JjLog, pos: Seq<usize>) -> int {
    if pos.len() >= 1 && pos[0] < log.log_tree@.len() {
        entry_idx_at(log.log_tree@[pos[0] as int], pos.drop_first())
    } else {
        -1
    }
}

/// `x` starts with `p`.
pub open spec fn has_prefix(x: Seq<usize>, p: Seq<usize>) -> bool {
    x.len() >= p.len() && x.take(p.len() as int) == p
}

proof fn lemma_fd_rows_shape(f: FileDiffView, p: Seq<usize>)
    ensures
        forall|i: int| 0 <= i < fd_rows(f, p).len() ==> has_prefix(#[trigger] fd_rows(f, p)[i], p),
{
    assert forall|i: int| 0 <= i < fd_rows(f, p).len() implies has_prefix(#[trigger] fd_rows(f, p)[i], p) by {
        if i > 0 {
            assert(fd_rows(f, p)[i] == p.push((i - 1) as usize));
            assert(p.push((i - 1) as usize).take(p.len() as int) =~= p);
        } else {
            assert(p.take(p.len() as int) =~= p);
        }
    }
}

proof fn lemma_fds_rows_shape(fs: Seq<FileDiffView>, p: Seq<usize>, n: int)
    requires
        0 <= n <= fs.len(),
    ensures
        forall|i: int|
            0 <= i < fds_rows(fs, p, n).len() ==> {
                let x = #[trigger] fds_rows(fs, p, n)[i];
                &&& x.len() > p.len()
                &&& x.take(p.len() as int) == p
                &&& x[p.len() as int] < n
            },
    decreases n,
{
    if n > 0 {
        lemma_fds_rows_shape(fs, p, n - 1);
        let q = p.push((n - 1) as usize);
        lemma_fd_rows_shape(fs[n - 1], q);
        let a = fds_rows(fs, p, n - 1);
        let b = fd_rows(fs[n - 1], q);
        assert forall|i: int| 0 <= i < fds_rows(fs, p, n).len() implies {
            let x = #[trigger] fds_rows(fs, p, n)[i];
            &&& x.len() > p.len()
            &&& x.take(p.len() as int) == p
            &&& x[p.len() as int] < n
        } by {
            if i < a.len() {
                assert(fds_rows(fs, p, n)[i] == a[i]);
            } else {
                let x = b[i - a.len()];
                assert(fds_rows(fs, p, n)[i] == x);
                assert(has_prefix(x, q));
                assert(x[p.len() as int] == x.take(q.len() as int)[p.len() as int]);
                assert(x.take(p.len() as int) =~= x.take(q.len() as int).take(p.len() as int));
                assert(q.take(p.len() as int) =~= p);
            }
        }
    }
}

proof fn lemma_entries_rows_shape(es: Seq<CommitOrTextView>, n: int)
    requires
        0 <= n <= es.len(),
    ensures
        forall|i: int|
            0 <= i < entries_rows(es, n).len() ==> {
                let x = #[trigger] entries_rows(es, n)[i];
                &&& x.len() >= 1
                &&& x[0] < n
            },
    decreases n,
{
    if n > 0 {
        lemma_entries_rows_shape(es, n - 1);
        let q = seq![(n - 1) as usize];
        let a = entries_rows(es, n - 1);
        let b = entry_rows(es[n - 1], q);
        match es[n - 1] {
            CommitOrTextView::Commit(c) => {
                lemma_fds_rows_shape(c.file_diffs, q, c.file_diffs.len() as int);
            },
            CommitOrTextView::InfoText(_) => {},
        }
        assert forall|i: int| 0 <= i < entries_rows(es, n).len() implies {
            let x = #[trigger] entries_rows(es, n)[i];
            &&& x.len() >= 1
            &&& x[0] < n
        } by {
            if i < a.len() {
                assert(entries_rows(es, n)[i] == a[i]);
            } else {
                let x = b[i - a.len()];
                assert(entries_rows(es, n)[i] == x);
                if i - a.len() > 0 {
                    match es[n - 1] {
                        CommitOrTextView::Commit(c) => {
                            let fr = fds_rows(c.file_diffs, q, c.file_diffs.len() as int);
                            assert(x == fr[i - a.len() - 1]);
                            assert(x.take(1)[0] == x[0]);
                        },
                        CommitOrTextView::InfoText(_) => {},
                    }
                }
            }
        }
    }
}

// ---------------------------------------------------------------------------
// Rows and nodes
// ---------------------------------------------------------------------------

/// Nothing hangs below a commit or a file diff before it is loaded.
pub open spec fn commit_loads_consistent(c: CommitView) -> bool {
    &&& !c.loaded ==> c.file_diffs.len() == 0
    &&& forall|j: int|
        0 <= j < c.file_diffs.len() ==> (!(#[trigger] c.file_diffs[j]).loaded
            ==> c.file_diffs[j].diff_lines.len() == 0)
}

/// Every commit of the log holds nothing it has not loaded.
pub open spec fn loads_consistent(es: Seq<CommitOrTextView>) -> bool {
    forall|i: int|
        0 <= i < es.len() ==> match #[trigger] es[i] {
            CommitOrTextView::Commit(c) => commit_loads_consistent(c),
            CommitOrTextView::InfoText(_) => true,
        }
}

/// Every commit's file diffs can be indexed by a `usize`, as they can in a `Vec`.
pub open spec fn indices_fit(es: Seq<CommitOrTextView>) -> bool {
    forall|i: int|
        0 <= i < es.len() ==> match #[trigger] es[i] {
            CommitOrTextView::Commit(c) => c.file_diffs.len() <= usize::MAX,
            CommitOrTextView::InfoText(_) => true,
        }
}

/// The position names a node that the walk down the tree reaches.
pub open spec fn reaches_node(es: Seq<CommitOrTextView>, pos: Seq<usize>) -> bool {
    node_path_ok(es, pos) && node_at(es, pos) is Ok
}

proof fn lemma_fd_rows_reach(es: Seq<CommitOrTextView>, i: int, c: CommitView, j: int, p: Seq<usize>)
    requires
        0 <= i < es.len(),
        es[i] == CommitOrTextView::Commit(c),
        commit_loads_consistent(c),
        0 <= j < c.file_diffs.len(),
        p == seq![i as usize, j as usize],
        i <= usize::MAX,
        j <= usize::MAX,
    ensures
        forall|k: int|
            0 <= k < fd_rows(c.file_diffs[j], p).len() ==> reaches_node(es, #[trigger] fd_rows(c.file_diffs[j], p)[k]),
{
    let f = c.file_diffs[j];
    assert(c.loaded);
    assert forall|k: int| 0 <= k < fd_rows(f, p).len() implies reaches_node(es, #[trigger] fd_rows(f, p)[k]) by {
        let x = fd_rows(f, p)[k];
        if k > 0 {
            assert(x == p.push((k - 1) as usize));
            assert(f.loaded);
        }
    }
}

proof fn lemma_fds_rows_reach(es: Seq<CommitOrTextView>, i: int, c: CommitView, n: int, p: Seq<usize>)
    requires
        0 <= i < es.len(),
        es[i] == CommitOrTextView::Commit(c),
        commit_loads_consistent(c),
        0 <= n <= c.file_diffs.len(),
        p == seq![i as usize],
        i <= usize::MAX,
        c.file_diffs.len() <= usize::MAX,
    ensures
        forall|k: int|
            0 <= k < fds_rows(c.file_diffs, p, n).len() ==> reaches_node(es, #[trigger] fds_rows(c.file_diffs, p, n)[k]),
    decreases n,
{
    if n > 0 {
        let q = p.push((n - 1) as usize);
        assert(q =~= seq![i as usize, (n - 1) as usize]);
        lemma_fds_rows_reach(es, i, c, n - 1, p);
        lemma_fd_rows_reach(es, i, c, n - 1, q);
        let a = fds_rows(c.file_diffs, p, n - 1);
        let b = fd_rows(c.file_diffs[n - 1], q);
        assert forall|k: int| 0 <= k < fds_rows(c.file_diffs, p, n).len() implies reaches_node(
            es,
            #[trigger] fds_rows(c.file_diffs, p, n)[k],
        ) by {
            if k < a.len() {
                assert(fds_rows(c.file_diffs, p, n)[k] == a[k]);
            } else {
                assert(fds_rows(c.file_diffs, p, n)[k] == b[k - a.len()]);
            }
        }
    }
}

proof fn lemma_entries_rows_reach(es: Seq<CommitOrTextView>, n: int)
    requires
        loads_consistent(es),
        indices_fit(es),
        0 <= n <= es.len(),
        n <= usize::MAX + 1,
    ensures
        forall|k: int| 0 <= k < entries_rows(es, n).len() ==> reaches_node(es, #[trigger] entries_rows(es, n)[k]),
    decreases n,
{
    if n > 0 {
        lemma_entries_rows_reach(es, n - 1);
        let q = seq![(n - 1) as usize];
        let a = entries_rows(es, n - 1);
        let b = entry_rows(es[n - 1], q);
        match es[n - 1] {
            CommitOrTextView::Commit(c) => {
                assert(commit_loads_consistent(c));
                assert(c.file_diffs.len() <= usize::MAX);
                lemma_fds_rows_reach(es, n - 1, c, c.file_diffs.len() as int, q);
            },
            CommitOrTextView::InfoText(_) => {},
        }
        assert forall|k: int| 0 <= k < entries_rows(es, n).len() implies reaches_node(
            es,
            #[trigger] entries_rows(es, n)[k],
        ) by {
            if k < a.len() {
                assert(entries_rows(es, n)[k] == a[k]);
            } else {
                assert(entries_rows(es, n)[k] == b[k - a.len()]);
                if k - a.len() > 0 {
                    match es[n - 1] {
                        CommitOrTextView::Commit(c) => {
                            let fr = fds_rows(c.file_diffs, q, c.file_diffs.len() as int);
                            assert(b[k - a.len()] == fr[k - a.len() - 1]);
                        },
                        CommitOrTextView::InfoText(_) => {},
                    }
                }
            }
        }
    }
}

/// Every file diff that `jj diff --summary` lines yield is unloaded and empty.
proof fn lemma_parse_file_diffs_unloaded(ls: Seq<Seq<char>>, change_id: Seq<char>, graph_indent: Seq<char>)
    ensures
        parse_file_diffs(ls, change_id, graph_indent) matches Ok(fs) ==> forall|j: int|
            0 <= j < fs.len() ==> !(#[trigger] fs[j]).loaded && fs[j].diff_lines.len() == 0,
    decreases ls.len(),
{
    if ls.len() > 0 {
        lemma_parse_file_diffs_unloaded(ls.drop_first(), change_id, graph_indent);
        match file_diff_parse(change_id, ls[0], graph_indent) {
            Ok(f) => match parse_file_diffs(ls.drop_first(), change_id, graph_indent) {
                Ok(rest) => {
                    assert forall|j: int| 0 <= j < (seq![f] + rest).len() implies !(#[trigger] (seq![f]
                        + rest)[j]).loaded && (seq![f] + rest)[j].diff_lines.len() == 0 by {
                        if j > 0 {
                            assert((seq![f] + rest)[j] == rest[j - 1]);
                        }
                    }
                },
                Err(_) => {},
            },
            Err(_) => {},
        }
    }
}

/// A log read from `jj log` output holds no loaded commit.
proof fn lemma_parse_entries_consistent(ls: Seq<Seq<char>>)
    ensures
        parse_entries(ls) matches Ok(es) ==> loads_consistent(es) && indices_fit(es),
    decreases ls.len(),
{
    if ls.len() > 0 {
        let rest_ls = if !has_marker(ls[0]) {
            ls.drop_first()
        } else if ls.len() >= 2 && !has_marker(ls[1]) {
            ls.skip(2)
        } else {
            ls.drop_first()
        };
        lemma_parse_entries_consistent(rest_ls);
        if let Ok(es) = parse_entries(ls) {
            let rest = parse_entries(rest_ls)->Ok_0;
            assert(es.drop_first() =~= rest);
            assert forall|i: int| 0 <= i < es.len() implies match #[trigger] es[i] {
                CommitOrTextView::Commit(c) => commit_loads_consistent(c) && c.file_diffs.len() <= usize::MAX,
                CommitOrTextView::InfoText(_) => true,
            } by {
                if i > 0 {
                    assert(es[i] == rest[i - 1]);
                }
            }
        }
    }
}

/// Every row that flattening lists names a node that `get_tree_node`
/// reaches, as long as nothing hangs below an unloaded commit or file diff.
pub proof fn lemma_rows_reach_nodes(es: Seq<CommitOrTextView>)
    requires
        loads_consistent(es),
        es.len() <= usize::MAX,
        indices_fit(es),
    ensures
        forall|k: int| 0 <= k < log_rows(es).len() ==> reaches_node(es, #[trigger] log_rows(es)[k]),
{
    lemma_entries_rows_reach(es, es.len() as int);
}

/// Whether the node at `rel` below a file diff is shown: the file diff
/// itself, or one of its lines when it is unfolded.
pub open spec fn fd_shown(f: FileDiffView, rel: Seq<usize>) -> bool {
    rel.len() == 0 || (rel.len() == 1 && f.unfolded && rel[0] < f.diff_lines.len())
}

/// Whether the node at `rel` below a commit is shown: the commit itself, or
/// a shown node of one of its file diffs when it is unfolded.
pub open spec fn commit_shown(c: CommitView, rel: Seq<usize>) -> bool {
    rel.len() == 0 || (c.unfolded && rel[0] < c.file_diffs.len() && fd_shown(
        c.file_diffs[rel[0] as int],
        rel.drop_first(),
    ))
}

/// Whether the node at `rel` below a top-level entry is shown.
pub open spec fn entry_shown(e: CommitOrTextView, rel: Seq<usize>) -> bool {
    match e {
        CommitOrTextView::Commit(c) => commit_shown(c, rel),
        CommitOrTextView::InfoText(_) => rel.len() == 0,
    }
}

/// Whether the node at a position of the log is shown, that is, not hidden
/// below a folded commit or file diff.
pub open spec fn log_shown(es: Seq<CommitOrTextView>, pos: Seq<usize>) -> bool {
    pos.len() >= 1 && pos[0] < es.len() && entry_shown(es[pos[0] as int], pos.drop_first())
}

/// Below a file diff, every position that is not shown keeps its flat index.
pub open spec fn fd_hidden_kept(new: FileDiff, old: FileDiff) -> bool {
    forall|rel: Seq<usize>| !fd_shown(old@, rel) ==> #[trigger] fd_idx_at(new, rel) == fd_idx_at(old, rel)
}

/// Below a commit, every position that is not shown keeps its flat index.
pub open spec fn commit_hidden_kept(new: Commit, old: Commit) -> bool {
    forall|rel: Seq<usize>| !commit_shown(old@, rel) ==> #[trigger] commit_idx_at(new, rel) == commit_idx_at(old, rel)
}

/// Below an entry, every position that is not shown keeps its flat index.
pub open spec fn entry_hidden_kept(new: CommitOrText, old: CommitOrText) -> bool {
    forall|rel: Seq<usize>| !entry_shown(old@, rel) ==> #[trigger] entry_idx_at(new, rel) == entry_idx_at(old, rel)
}

/// Every position of the log that is not shown keeps its flat index.
pub open spec fn log_hidden_kept(new: JjLog, old: JjLog) -> bool {
    forall|pos: Seq<usize>| !log_shown(old@, pos) ==> #[trigger] log_idx_at(new, pos) == log_idx_at(old, pos)
}

proof fn lemma_concat_contains<T>(a: Seq<T>, b: Seq<T>, x: T)
    ensures
        a.contains(x) ==> (a + b).contains(x),
        b.contains(x) ==> (a + b).contains(x),
{
    if a.contains(x) {
        let k = choose|k: int| 0 <= k < a.len() && a[k] == x;
        assert((a + b)[k] == x);
    }
    if b.contains(x) {
        let k = choose|k: int| 0 <= k < b.len() && b[k] == x;
        assert((a + b)[a.len() + k] == x);
    }
}

proof fn lemma_fd_rows_contain(f: FileDiffView, p: Seq<usize>, rel: Seq<usize>)
    requires
        fd_shown(f, rel),
    ensures
        fd_rows(f, p).contains(p + rel),
{
    if rel.len() == 0 {
        assert(p + rel =~= p);
        assert(fd_rows(f, p)[0] == p);
    } else {
        assert(p + rel =~= p.push(rel[0]));
        assert(fd_rows(f, p)[1 + rel[0]] == p.push(rel[0]));
    }
}

proof fn lemma_fds_rows_contain(fs: Seq<FileDiffView>, p: Seq<usize>, n: int, j: int, tail: Seq<usize>)
    requires
        0 <= j < n <= fs.len(),
        n <= usize::MAX + 1,
        fd_shown(fs[j], tail),
    ensures
        fds_rows(fs, p, n).contains(p.push(j as usize) + tail),
    decreases n,
{
    let x = p.push(j as usize) + tail;
    if j == n - 1 {
        lemma_fd_rows_contain(fs[n - 1], p.push((n - 1) as usize), tail);
        lemma_concat_contains(fds_rows(fs, p, n - 1), fd_rows(fs[n - 1], p.push((n - 1) as usize)), x);
    } else {
        lemma_fds_rows_contain(fs, p, n - 1, j, tail);
        lemma_concat_contains(fds_rows(fs, p, n - 1), fd_rows(fs[n - 1], p.push((n - 1) as usize)), x);
    }
}

proof fn lemma_entries_rows_contain(es: Seq<CommitOrTextView>, n: int, pos: Seq<usize>)
    requires
        0 <= n <= es.len(),
        n <= usize::MAX + 1,
        indices_fit(es),
        log_shown(es, pos),
        pos[0] < n,
    ensures
        entries_rows(es, n).contains(pos),
    decreases n,
{
    let a = entries_rows(es, n - 1);
    let q = seq![(n - 1) as usize];
    let b = entry_rows(es[n - 1], q);
    if pos[0] < n - 1 {
        lemma_entries_rows_contain(es, n - 1, pos);
        lemma_concat_contains(a, b, pos);
    } else {
        let rel = pos.drop_first();
        assert(pos =~= q + rel);
        match es[n - 1] {
            CommitOrTextView::InfoText(_) => {
                assert(b[0] == pos);
            },
            CommitOrTextView::Commit(c) => {
                if rel.len() == 0 {
                    assert(b[0] == pos);
                } else {
                    assert(c.file_diffs.len() <= usize::MAX);
                    let j = rel[0] as int;
                    let tail = rel.drop_first();
                    assert(rel =~= seq![rel[0]] + tail);
                    assert(pos =~= q.push(j as usize) + tail);
                    lemma_fds_rows_contain(c.file_diffs, q, c.file_diffs.len() as int, j, tail);
                    lemma_concat_contains(seq![q], fds_rows(c.file_diffs, q, c.file_diffs.len() as int), pos);
                }
            },
        }
        lemma_concat_contains(a, b, pos);
    }
}

/// Every shown node of the log is one of the rows that flattening lists.
pub proof fn lemma_shown_nodes_are_rows(es: Seq<CommitOrTextView>, pos: Seq<usize>)
    requires
        es.len() <= usize::MAX,
        indices_fit(es),
        log_shown(es, pos),
    ensures
        log_rows(es).contains(pos),
{
    lemma_entries_rows_contain(es, es.len() as int, pos);
}

fn copy_pos(v: &Vec<usize>) -> (r: Vec<usize>)
    ensures
        r@ == v@,
{
    let mut r: Vec<usize> = Vec::new();
    let mut i: usize = 0;
    while i < v.len()
        invariant
            0 <= i <= v@.len(),
            r@ =~= v@.take(i as int),
        decreases v@.len() - i,
    {
        r.push(v[i]);
        i = i + 1;
    }
    r
}

impl FileDiff {
    /// Give this file diff, and its lines when unfolded, the next flat
    /// indices, recording their positions.
    pub fn flatten(&mut self, tree_pos: TreePosition, positions: &mut Vec<TreePosition>)
        ensures
            final(self)@ == old(self)@,
            pos_seqs(final(positions)@) == pos_seqs(old(positions)@) + fd_rows(old(self)@, tree_pos@),
            forall|r: int|
                old(positions)@.len() <= r < final(positions)@.len() ==> fd_idx_at(
                    *final(self),
                    (#[trigger] pos_seqs(final(positions)@)[r]).skip(tree_pos@.len() as int),
                ) == r,
            fd_hidden_kept(*final(self), *old(self)),
    {
        let ghost old_self = *self;
        let ghost base = positions@.len();
        let ghost p = tree_pos@;
        let ghost old_view = self@;
        let ghost old_pos = pos_seqs(positions@);
        self.flat_log_idx = positions.len();
        positions.push(copy_pos(&tree_pos));
        assert(pos_seqs(positions@) =~= old_pos + seq![p]);
        assert(p.skip(p.len() as int) =~= Seq::<usize>::empty());
        if !self.unfolded {
            assert(self@ =~= old_view);
            assert(fd_rows(old_view, p) =~= seq![p]);
            assert(self.diff_lines@ == old_self.diff_lines@);
            return;
        }
        let n = self.diff_lines.len();
        let mut k: usize = 0;
        while k < n
            invariant
                0 <= k <= n,
                n == self.diff_lines@.len(),
                self.unfolded,
                self.flat_log_idx == base,
                self@ == old_view,
                tree_pos@ == p,
                pos_seqs(positions@) == old_pos + seq![p] + Seq::new(k as nat, |x: int| p.push(x as usize)),
                old_pos.len() == base,
                forall|r: int|
                    base <= r < positions@.len() ==> fd_idx_at(
                        *self,
                        (#[trigger] pos_seqs(positions@)[r]).skip(p.len() as int),
                    ) == r,
            decreases n - k,
        {
            let ghost prev_self = *self;
            let ghost prev_pos = pos_seqs(positions@);
            let mut q = copy_pos(&tree_pos);
            q.push(k);
            let idx = positions.len();
            let line = &mut self.diff_lines[k];
            line.flat_log_idx = idx;
            positions.push(q);
            proof {
                assert(self.diff_lines@ == prev_self.diff_lines@.update(k as int, self.diff_lines@[k as int]));
                assert(self@.diff_lines =~= old_view.diff_lines);
                assert(self@ =~= old_view);
                assert(pos_seqs(positions@) =~= prev_pos.push(p.push(k)));
                assert(old_pos + seq![p] + Seq::new((k + 1) as nat, |x: int| p.push(x as usize)) =~= prev_pos.push(
                    p.push(k),
                ));
                assert forall|r: int|
                    base <= r < positions@.len() implies fd_idx_at(
                    *self,
                    (#[trigger] pos_seqs(positions@)[r]).skip(p.len() as int),
                ) == r by {
                    if r < positions@.len() - 1 {
                        assert(pos_seqs(positions@)[r] == prev_pos[r]);
                        if r > base {
                            let x = (r - base - 1) as int;
                            assert(prev_pos[r] == p.push(x as usize));
                            assert(p.push(x as usize).skip(p.len() as int) =~= seq![x as usize]);
                        }
                    } else {
                        assert(p.push(k).skip(p.len() as int) =~= seq![k]);
                    }
                }
            }
            k = k + 1;
        }
        assert(fd_rows(old_view, p) =~= seq![p] + Seq::new(n as nat, |x: int| p.push(x as usize)));
        assert(self.diff_lines@.len() == old_self.diff_lines@.len());
    }
}

} // verus!

verus! {

impl Commit {
    /// Give this commit, and its unfolded subtree, the next flat indices,
    /// recording their positions.
    pub fn flatten(&mut self, tree_pos: TreePosition, positions: &mut Vec<TreePosition>)
        ensures
            final(self)@ == old(self)@,
            pos_seqs(final(positions)@) == pos_seqs(old(positions)@) + commit_rows(old(self)@, tree_pos@),
            forall|r: int|
                old(positions)@.len() <= r < final(positions)@.len() ==> commit_idx_at(
                    *final(self),
                    (#[trigger] pos_seqs(final(positions)@)[r]).skip(tree_pos@.len() as int),
                ) == r,
            commit_hidden_kept(*final(self), *old(self)),
    {
        let ghost old_self = *self;
        let ghost base = positions@.len();
        let ghost p = tree_pos@;
        let ghost old_view = self@;
        let ghost old_pos = pos_seqs(positions@);
        self.flat_log_idx = positions.len();
        positions.push(copy_pos(&tree_pos));
        assert(pos_seqs(positions@) =~= old_pos + seq![p]);
        assert(p.skip(p.len() as int) =~= Seq::<usize>::empty());
        assert(self@ =~= old_view);
        if !self.unfolded {
            assert(commit_rows(old_view, p) =~= seq![p]);
            assert(self.file_diffs@ == old_self.file_diffs@);
            return;
        }
        let n = self.file_diffs.len();
        let mut j: usize = 0;
        assert(old_pos + seq![p] + fds_rows(old_view.file_diffs, p, 0) =~= old_pos + seq![p]);
        while j < n
            invariant
                0 <= j <= n,
                n == self.file_diffs@.len(),
                self.unfolded,
                self.flat_log_idx == base,
                self@ == old_view,
                tree_pos@ == p,
                old_pos.len() == base,
                pos_seqs(positions@) == old_pos + seq![p] + fds_rows(old_view.file_diffs, p, j as int),
                forall|r: int|
                    base <= r < positions@.len() ==> commit_idx_at(
                        *self,
                        (#[trigger] pos_seqs(positions@)[r]).skip(p.len() as int),
                    ) == r,
                old_self.file_diffs@.len() == n,
                old_self@ == old_view,
                forall|k: int| 0 <= k < j ==> fd_hidden_kept(#[trigger] self.file_diffs@[k], old_self.file_diffs@[k]),
                forall|k: int| j <= k < n ==> #[trigger] self.file_diffs@[k] == old_self.file_diffs@[k],
            decreases n - j,
        {
            let ghost prev_self = *self;
            let ghost prev_pos = pos_seqs(positions@);
            let ghost q = p.push(j);
            let mut sub = copy_pos(&tree_pos);
            sub.push(j);
            let fd = &mut self.file_diffs[j];
            fd.flatten(sub, positions);
            proof {
                assert(fd_hidden_kept(self.file_diffs@[j as int], old_self.file_diffs@[j as int]));
                let fdv = old_view.file_diffs[j as int];
                assert(prev_self.file_diffs@[j as int]@ == fdv);
                assert(self.file_diffs@ == prev_self.file_diffs@.update(j as int, self.file_diffs@[j as int]));
                assert(self@.file_diffs =~= old_view.file_diffs);
                assert(self@ =~= old_view);
                assert(pos_seqs(positions@) =~= old_pos + seq![p] + fds_rows(old_view.file_diffs, p, j + 1));
                lemma_fds_rows_shape(old_view.file_diffs, p, j as int);
                lemma_fd_rows_shape(fdv, q);
                assert forall|r: int|
                    base <= r < positions@.len() implies commit_idx_at(
                    *self,
                    (#[trigger] pos_seqs(positions@)[r]).skip(p.len() as int),
                ) == r by {
                    let x = pos_seqs(positions@)[r];
                    if r < prev_pos.len() {
                        assert(x == prev_pos[r]);
                        if r > base {
                            let y = fds_rows(old_view.file_diffs, p, j as int)[r - base - 1];
                            assert(x == y);
                            assert(x.skip(p.len() as int)[0] == x[p.len() as int]);
                        }
                    } else {
                        let y = fd_rows(fdv, q)[r - prev_pos.len()];
                        assert(x == y);
                        assert(has_prefix(y, q));
                        assert(x.skip(p.len() as int)[0] == x.take(q.len() as int)[p.len() as int]);
                        assert(x.skip(p.len() as int).drop_first() =~= x.skip(q.len() as int));
                    }
                }
            }
            j = j + 1;
        }
    }
}

impl JjLog {
    /// Give every visible node of the log its row: the positions of the
    /// visible nodes in display order, each node's flat index being its row.
    #[verifier::spinoff_prover]
    pub fn flatten_log(&mut self) -> (r: Vec<TreePosition>)
        ensures
            final(self)@ == old(self)@,
            pos_seqs(r@) == log_rows(old(self)@),
            forall|i: int| 0 <= i < r@.len() ==> log_idx_at(*final(self), #[trigger] pos_seqs(r@)[i]) == i,
            log_hidden_kept(*final(self), *old(self)),
            forall|pos: Seq<usize>|
                !pos_seqs(r@).contains(pos) ==> #[trigger] log_idx_at(*final(self), pos) == log_idx_at(*old(self), pos),
    {
        let ghost old_self = *self;
        let ghost old_view = self@;
        let mut positions: Vec<TreePosition> = Vec::new();
        let n = self.log_tree.len();
        let mut i: usize = 0;
        assert(pos_seqs(positions@) =~= entries_rows(old_view, 0));
        while i < n
            invariant
                0 <= i <= n,
                n == self.log_tree@.len(),
                self@ == old_view,
                pos_seqs(positions@) == entries_rows(old_view, i as int),
                forall|r: int| 0 <= r < positions@.len() ==> log_idx_at(*self, #[trigger] pos_seqs(positions@)[r]) == r,
                old_self.log_tree@.len() == n,
                old_self@ == old_view,
                forall|k: int| 0 <= k < i ==> entry_hidden_kept(#[trigger] self.log_tree@[k], old_self.log_tree@[k]),
                forall|k: int| i <= k < n ==> #[trigger] self.log_tree@[k] == old_self.log_tree@[k],
                forall|k: int|
                    0 <= k < i ==> match #[trigger] old_view[k] {
                        CommitOrTextView::Commit(c) => c.file_diffs.len() <= usize::MAX,
                        CommitOrTextView::InfoText(_) => true,
                    },
            decreases n - i,
        {
            let ghost prev_self = *self;
            let ghost prev_pos = pos_seqs(positions@);
            let ghost q = seq![i];
            let mut sub: Vec<usize> = Vec::new();
            sub.push(i);
            assert(sub@ =~= q);
            let entry = &mut self.log_tree[i];
            match entry {
                CommitOrText::Commit(commit) => {
                    let count = commit.file_diffs.len();
                    assert(commit@.file_diffs.len() == count);
                    commit.flatten(sub, &mut positions);
                },
                CommitOrText::InfoText(info_text) => {
                    info_text.flat_log_idx = positions.len();
                    positions.push(sub);
                    assert(pos_seqs(positions@) =~= prev_pos + seq![q]);
                },
            }
            proof {
                assert(entry_hidden_kept(self.log_tree@[i as int], old_self.log_tree@[i as int]));
                let ev = old_view[i as int];
                assert(prev_self.log_tree@[i as int]@ == ev);
                assert(self.log_tree@ == prev_self.log_tree@.update(i as int, self.log_tree@[i as int]));
                assert(self@ =~= old_view);
                assert(pos_seqs(positions@) =~= entries_rows(old_view, i + 1));
                lemma_entries_rows_shape(old_view, i as int);
                assert forall|r: int| 0 <= r < positions@.len() implies log_idx_at(
                    *self,
                    #[trigger] pos_seqs(positions@)[r],
                ) == r by {
                    let x = pos_seqs(positions@)[r];
                    if r < prev_pos.len() {
                        assert(x == prev_pos[r]);
                        assert(x == entries_rows(old_view, i as int)[r]);
                    } else {
                        let y = entry_rows(ev, q)[r - prev_pos.len()];
                        assert(x == y);
                        match ev {
                            CommitOrTextView::Commit(c) => {
                                lemma_fds_rows_shape(c.file_diffs, q, c.file_diffs.len() as int);
                                if r - prev_pos.len() > 0 {
                                    let z = fds_rows(c.file_diffs, q, c.file_diffs.len() as int)[r - prev_pos.len() - 1];
                                    assert(x == z);
                                    assert(x[0] == x.take(1)[0]);
                                }
                                assert(x.drop_first() =~= x.skip(1));
                            },
                            CommitOrTextView::InfoText(_) => {
                                assert(x.drop_first() =~= Seq::<usize>::empty());
                            },
                        }
                    }
                }
            }
            i = i + 1;
        }
        proof {
            assert(indices_fit(old_view));
            assert forall|pos: Seq<usize>| !pos_seqs(positions@).contains(pos) implies #[trigger] log_idx_at(
                *self,
                pos,
            ) == log_idx_at(old_self, pos) by {
                if log_shown(old_view, pos) {
                    lemma_shown_nodes_are_rows(old_view, pos);
                }
            }
        }
        positions
    }
}

} // verus!

verus! {

// ---------------------------------------------------------------------------
// Folding
// ---------------------------------------------------------------------------

/// Folding applies at the file level at most: a position cut to its entry
/// and file diff indices.
pub open spec fn fold_position(pos: Seq<usize>) -> Seq<usize> {
    if pos.len() > 2 {
        pos.take(2)
    } else {
        pos
    }
}

/// A position that names an entry, and below a loaded commit an existing
/// file diff.
pub open spec fn position_ok(es: Seq<CommitOrTextView>, pos: Seq<usize>) -> bool {
    &&& pos.len() >= 1
    &&& pos[0] < es.len()
    &&& pos.len() >= 2 ==> match es[pos[0] as int] {
        CommitOrTextView::Commit(c) => c.loaded ==> pos[1] < c.file_diffs.len(),
        CommitOrTextView::InfoText(_) => true,
    }
}

/// A commit with its fold state flipped.
pub open spec fn flip_commit(c: CommitView) -> CommitView {
    CommitView { unfolded: !c.unfolded, ..c }
}

/// A file diff with its fold state flipped.
pub open spec fn flip_file_diff(f: FileDiffView) -> FileDiffView {
    FileDiffView { unfolded: !f.unfolded, ..f }
}

/// The log after toggling the fold of the node at `p` (a fold position): an
/// info text does not fold; a commit flips; a file diff of a loaded commit
/// flips; below an unloaded commit nothing changes.
pub open spec fn toggled(es: Seq<CommitOrTextView>, p: Seq<usize>) -> Seq<CommitOrTextView> {
    match es[p[0] as int] {
        CommitOrTextView::InfoText(_) => es,
        CommitOrTextView::Commit(c) => if p.len() == 1 {
            es.update(p[0] as int, CommitOrTextView::Commit(flip_commit(c)))
        } else if !c.loaded {
            es
        } else {
            es.update(
                p[0] as int,
                CommitOrTextView::Commit(
                    CommitView {
                        file_diffs: c.file_diffs.update(p[1] as int, flip_file_diff(c.file_diffs[p[1] as int])),
                        ..c
                    },
                ),
            )
        },
    }
}

/// Toggling the same fold twice gives the log back; a position that was
/// valid stays valid after a toggle.
pub proof fn lemma_toggle_twice(es: Seq<CommitOrTextView>, pos: Seq<usize>)
    requires
        position_ok(es, pos),
    ensures
        position_ok(toggled(es, fold_position(pos)), pos),
        toggled(toggled(es, fold_position(pos)), fold_position(pos)) == es,
{
    let p = fold_position(pos);
    let once = toggled(es, p);
    match es[p[0] as int] {
        CommitOrTextView::InfoText(_) => {},
        CommitOrTextView::Commit(c) => {
            if p.len() == 1 {
                assert(flip_commit(flip_commit(c)) == c);
                assert(toggled(once, p) =~= es);
            } else if c.loaded {
                let j = p[1] as int;
                let c1 = CommitView {
                    file_diffs: c.file_diffs.update(j, flip_file_diff(c.file_diffs[j])),
                    ..c
                };
                assert(once[p[0] as int] == CommitOrTextView::Commit(c1));
                assert(flip_file_diff(flip_file_diff(c.file_diffs[j])) == c.file_diffs[j]);
                assert(c1.file_diffs.update(j, flip_file_diff(c1.file_diffs[j])) =~= c.file_diffs);
                assert(toggled(once, p) =~= es);
            }
        },
    }
}

/// What toggling a fold asks of the caller.
#[derive(Debug)]
pub enum FoldAction {
    /// Nothing more: the row of the toggled node.
    Done(usize),
    /// Run this command and hand its output to `finish_fold_load`: the
    /// commit was unfolded for the first time.
    LoadFileDiffs(crate::shell_out::JjCommand),
    /// Render this file's diff and hand it to `finish_fold_load`: the file
    /// diff was toggled for the first time.
    LoadDiffLines { change_id: String, path: String },
}

/// The log with the entry at `i` replaced by a commit.
pub open spec fn with_commit(es: Seq<CommitOrTextView>, i: int, c: CommitView) -> Seq<CommitOrTextView> {
    es.update(i, CommitOrTextView::Commit(c))
}

/// No flat index of the log changed.
pub open spec fn same_flat_indices(a: JjLog, b: JjLog) -> bool {
    forall|pos: Seq<usize>| #[trigger] log_idx_at(b, pos) == log_idx_at(a, pos)
}

/// Every node below the one at `p` is new: its flat index is 0.
pub open spec fn fresh_below(log: JjLog, p: Seq<usize>) -> bool {
    forall|pos: Seq<usize>|
        pos.len() > p.len() && pos.take(p.len() as int) == p && #[trigger] log_idx_at(log, pos) >= 0
            ==> log_idx_at(log, pos) == 0
}

/// Nothing hangs below an info text.
proof fn lemma_fresh_below_info_text(log: JjLog, i: int, p: Seq<usize>)
    requires
        0 <= i < log.log_tree@.len(),
        log.log_tree@[i] is InfoText,
        p.len() >= 1,
        p[0] == i,
    ensures
        fresh_below(log, p),
{
    assert forall|pos: Seq<usize>|
        pos.len() > p.len() && pos.take(p.len() as int) == p && #[trigger] log_idx_at(log, pos) >= 0 implies log_idx_at(
        log,
        pos,
    ) == 0 by {
        assert(pos[0] == pos.take(p.len() as int)[0]);
    }
}

/// A commit whose file diffs are all new and hold no lines has only new nodes below it.
proof fn lemma_fresh_after_commit_load(log: JjLog, i: usize, p: Seq<usize>)
    requires
        i < log.log_tree@.len(),
        p == seq![i],
        log.log_tree@[i as int] matches CommitOrText::Commit(c) && forall|k: int|
            0 <= k < c.file_diffs@.len() ==> (#[trigger] c.file_diffs@[k]).flat_log_idx == 0
                && c.file_diffs@[k].diff_lines@.len() == 0,
    ensures
        fresh_below(log, p),
{
    assert forall|pos: Seq<usize>|
        pos.len() > p.len() && pos.take(p.len() as int) == p && #[trigger] log_idx_at(log, pos) >= 0 implies log_idx_at(
        log,
        pos,
    ) == 0 by {
        assert(pos[0] == pos.take(1)[0]);
        let c = entry_commit(log.log_tree@[i as int]).unwrap();
        let rel = pos.drop_first();
        if rel[0] < c.file_diffs@.len() {
            let f = c.file_diffs@[rel[0] as int];
            assert(f.flat_log_idx == 0 && f.diff_lines@.len() == 0);
        }
    }
}

/// A file diff whose lines are all new has only new nodes below it.
proof fn lemma_fresh_after_file_diff_load(log: JjLog, i: usize, j: usize, p: Seq<usize>)
    requires
        i < log.log_tree@.len(),
        p == seq![i, j],
        log.log_tree@[i as int] matches CommitOrText::Commit(c) && j < c.file_diffs@.len() && forall|k: int|
            0 <= k < c.file_diffs@[j as int].diff_lines@.len() ==> (
            #[trigger] c.file_diffs@[j as int].diff_lines@[k]).flat_log_idx == 0,
    ensures
        fresh_below(log, p),
{
    assert forall|pos: Seq<usize>|
        pos.len() > p.len() && pos.take(p.len() as int) == p && #[trigger] log_idx_at(log, pos) >= 0 implies log_idx_at(
        log,
        pos,
    ) == 0 by {
        assert(pos[0] == pos.take(2)[0]);
        assert(pos[1] == pos.take(2)[1]);
        let c = entry_commit(log.log_tree@[i as int]).unwrap();
        let rel = pos.drop_first();
        assert(rel[0] == j);
        let tail = rel.drop_first();
        let f = c.file_diffs@[j as int];
        if tail.len() == 1 && tail[0] < f.diff_lines@.len() {
            assert(f.diff_lines@[tail[0] as int].flat_log_idx == 0);
        }
    }
}

/// No flat index changed, but below the node at `p`.
pub open spec fn same_flat_indices_outside(a: JjLog, b: JjLog, p: Seq<usize>) -> bool {
    forall|pos: Seq<usize>|
        !(pos.len() > p.len() && pos.take(p.len() as int) == p) ==> #[trigger] log_idx_at(b, pos)
            == log_idx_at(a, pos)
}

/// A node of the log tree.
#[derive(Debug)]
pub enum TreeNode<'a> {
    InfoText(&'a InfoText),
    Commit(&'a Commit),
    FileDiff(&'a FileDiff),
    DiffLine(&'a DiffLine),
}

/// The content of a node of the log tree.
pub enum TreeNodeView {
    InfoText(Seq<char>),
    Commit(CommitView),
    FileDiff(FileDiffView),
    DiffLine(DiffLineView),
}

impl<'a> View for TreeNode<'a> {
    type V = TreeNodeView;

    open spec fn view(&self) -> TreeNodeView {
        match self {
            TreeNode::InfoText(t) => TreeNodeView::InfoText(t.ansi_string@),
            TreeNode::Commit(c) => TreeNodeView::Commit(c@),
            TreeNode::FileDiff(f) => TreeNodeView::FileDiff(f@),
            TreeNode::DiffLine(d) => TreeNodeView::DiffLine(d@),
        }
    }
}

/// A position whose indices stay in range as far as the walk down the tree
/// goes: it stops at an info text and at an unloaded commit or file diff.
pub open spec fn node_path_ok(es: Seq<CommitOrTextView>, pos: Seq<usize>) -> bool {
    &&& pos.len() >= 1
    &&& pos[0] < es.len()
    &&& match es[pos[0] as int] {
        CommitOrTextView::InfoText(_) => true,
        CommitOrTextView::Commit(c) => pos.len() >= 2 && c.loaded ==> {
            &&& pos[1] < c.file_diffs.len()
            &&& pos.len() >= 3 && c.file_diffs[pos[1] as int].loaded ==> pos[2]
                < c.file_diffs[pos[1] as int].diff_lines.len()
        },
    }
}

/// The node at a position: the walk stops at an info text, and fails below
/// an unloaded commit or file diff.
pub open spec fn node_at(es: Seq<CommitOrTextView>, pos: Seq<usize>) -> Result<TreeNodeView, LogTreeErrorView> {
    match es[pos[0] as int] {
        CommitOrTextView::InfoText(t) => Ok(TreeNodeView::InfoText(t)),
        CommitOrTextView::Commit(c) => if pos.len() <= 1 {
            Ok(TreeNodeView::Commit(c))
        } else if !c.loaded {
            Err(LogTreeErrorView::UnloadedFileDiffs)
        } else {
            let f = c.file_diffs[pos[1] as int];
            if pos.len() <= 2 {
                Ok(TreeNodeView::FileDiff(f))
            } else if !f.loaded {
                Err(LogTreeErrorView::UnloadedDiffLines)
            } else {
                Ok(TreeNodeView::DiffLine(f.diff_lines[pos[2] as int]))
            }
        },
    }
}

impl JjLog {
    /// Whether the walk down the tree along a position stays in range, as
    /// `get_tree_node` asks.
    pub fn node_path_in_range(&self, tree_pos: &TreePosition) -> (r: bool)
        ensures
            r == node_path_ok(self@, tree_pos@),
    {
        if tree_pos.len() == 0 || tree_pos[0] >= self.log_tree.len() {
            return false;
        }
        match &self.log_tree[tree_pos[0]] {
            CommitOrText::InfoText(_) => true,
            CommitOrText::Commit(c) => {
                if tree_pos.len() < 2 || !c.loaded {
                    return true;
                }
                if tree_pos[1] >= c.file_diffs.len() {
                    return false;
                }
                let f = &c.file_diffs[tree_pos[1]];
                tree_pos.len() < 3 || !f.loaded || tree_pos[2] < f.diff_lines.len()
            },
        }
    }

    /// Whether a position names a node that can be folded or loaded, as
    /// `toggle_fold` and `finish_fold_load` ask.
    pub fn fold_position_in_range(&self, tree_pos: &TreePosition) -> (r: bool)
        ensures
            r == position_ok(self@, tree_pos@),
    {
        if tree_pos.len() == 0 || tree_pos[0] >= self.log_tree.len() {
            return false;
        }
        match &self.log_tree[tree_pos[0]] {
            CommitOrText::InfoText(_) => true,
            CommitOrText::Commit(c) => tree_pos.len() < 2 || !c.loaded || tree_pos[1] < c.file_diffs.len(),
        }
    }
}

impl JjLog {
    /// The node at a position of the tree.
    pub fn get_tree_node(&self, tree_pos: &TreePosition) -> (r: Result<TreeNode<'_>, LogTreeError>)
        requires
            node_path_ok(self@, tree_pos@),
        ensures
            match node_at(self@, tree_pos@) {
                Ok(n) => r matches Ok(x) && x@ == n,
                Err(e) => r matches Err(x) && x@ == e,
            },
    {
        let commit = match &self.log_tree[tree_pos[0]] {
            CommitOrText::InfoText(info_text) => {
                return Ok(TreeNode::InfoText(info_text));
            },
            CommitOrText::Commit(commit) => commit,
        };
        if tree_pos.len() <= 1 {
            return Ok(TreeNode::Commit(commit));
        }
        if !commit.loaded {
            return Err(LogTreeError::UnloadedFileDiffs);
        }
        let file_diff = &commit.file_diffs[tree_pos[1]];
        if tree_pos.len() <= 2 {
            return Ok(TreeNode::FileDiff(file_diff));
        }
        if !file_diff.loaded {
            return Err(LogTreeError::UnloadedDiffLines);
        }
        Ok(TreeNode::DiffLine(&file_diff.diff_lines[tree_pos[2]]))
    }
}

impl JjLog {
    /// Toggle the fold of the node at a position (cut to the file level):
    /// the caller then loads what the action names, if anything.
    #[verifier::spinoff_prover]
    pub fn toggle_fold(
        &mut self,
        global_args: &crate::model::GlobalArgs,
        tree_pos: &TreePosition,
    ) -> (r: Result<FoldAction, LogTreeError>)
        requires
            position_ok(old(self)@, tree_pos@),
        ensures
            ({
                let p = fold_position(tree_pos@);
                match old(self)@[p[0] as int] {
                    CommitOrTextView::InfoText(_) => r matches Ok(FoldAction::Done(i)) && i == log_idx_at(
                        *old(self),
                        p.take(1),
                    ) && final(self)@ == old(self)@,
                    CommitOrTextView::Commit(c) => if p.len() == 1 {
                        &&& final(self)@ == toggled(old(self)@, p)
                        &&& if !c.unfolded && !c.loaded {
                            r matches Ok(FoldAction::LoadFileDiffs(cmd)) && cmd@ == crate::shell_out::synced(
                                seq![
                                    "diff"@,
                                    "--ignore-working-copy"@,
                                    "--summary"@,
                                    "--revisions"@,
                                    c.change_id,
                                ],
                                global_args@,
                                false,
                                crate::shell_out::ReturnOutput::Stdout,
                            )
                        } else {
                            r matches Ok(FoldAction::Done(i)) && i == log_idx_at(*old(self), p)
                        }
                    } else if !c.loaded {
                        r matches Err(x) && x@ == LogTreeErrorView::UnloadedFileDiffs && final(self)@
                            == old(self)@
                    } else {
                        let f = c.file_diffs[p[1] as int];
                        &&& final(self)@ == toggled(old(self)@, p)
                        &&& if !f.loaded {
                            r matches Ok(FoldAction::LoadDiffLines { change_id, path }) && change_id@
                                == f.change_id && path@ == f.path
                        } else {
                            r matches Ok(FoldAction::Done(i)) && i == log_idx_at(*old(self), p)
                        }
                    },
                }
            }),
            same_flat_indices(*old(self), *final(self)),
            final(self)@ == toggled(old(self)@, fold_position(tree_pos@)),
            loads_consistent(old(self)@) ==> loads_consistent(final(self)@),
            indices_fit(old(self)@) ==> indices_fit(final(self)@),
    {
        let ghost old_self = *self;
        let ghost old_view = self@;
        let ghost p = fold_position(tree_pos@);
        assert(p.drop_first() =~= tree_pos@.take(if tree_pos@.len() > 2 { 2int } else { tree_pos@.len() as int }).drop_first());
        let i = tree_pos[0];
        let short = tree_pos.len() <= 1;
        let j: usize = if short {
            0
        } else {
            tree_pos[1]
        };
        let entry = &mut self.log_tree[i];
        let r = match entry {
            CommitOrText::InfoText(t) => Ok(FoldAction::Done(t.flat_log_idx)),
            CommitOrText::Commit(c) => {
                if short {
                    c.unfolded = !c.unfolded;
                    if c.unfolded && !c.loaded {
                        Ok(
                            FoldAction::LoadFileDiffs(
                                crate::shell_out::JjCommand::jj_diff_summary(
                                    c.change_id.as_str(),
                                    global_args.duplicate(),
                                ),
                            ),
                        )
                    } else {
                        Ok(FoldAction::Done(c.flat_log_idx))
                    }
                } else if !c.loaded {
                    Err(LogTreeError::UnloadedFileDiffs)
                } else {
                    let f = &mut c.file_diffs[j];
                    f.unfolded = !f.unfolded;
                    if !f.loaded {
                        Ok(
                            FoldAction::LoadDiffLines {
                                change_id: crate::text::lit(f.change_id.as_str()),
                                path: crate::text::lit(f.path.as_str()),
                            },
                        )
                    } else {
                        Ok(FoldAction::Done(f.flat_log_idx))
                    }
                }
            },
        };
        proof {
            assert(p.take(1).drop_first().len() == 0);
            assert(self.log_tree@ == old_self.log_tree@.update(i as int, self.log_tree@[i as int]));
            match old_view[i as int] {
                CommitOrTextView::InfoText(_) => {
                    assert(self@ =~= old_view);
                },
                CommitOrTextView::Commit(c) => {
                    if short {
                        assert(self@ =~= toggled(old_view, p));
                    } else if !c.loaded {
                        assert(self@ =~= old_view);
                    } else {
                        let nc = entry_commit(self.log_tree@[i as int]).unwrap();
                        let oc = entry_commit(old_self.log_tree@[i as int]).unwrap();
                        assert(nc.file_diffs@ == oc.file_diffs@.update(j as int, nc.file_diffs@[j as int]));
                        assert(nc@.file_diffs =~= c.file_diffs.update(j as int, flip_file_diff(c.file_diffs[j as int])));
                        assert(self@ =~= toggled(old_view, p));
                    }
                },
            }
            assert forall|pos: Seq<usize>| #[trigger] log_idx_at(*self, pos) == log_idx_at(old_self, pos) by {
                if pos.len() >= 1 && pos[0] < self.log_tree@.len() && pos[0] == i {
                    let rel = pos.drop_first();
                    match old_self.log_tree@[i as int] {
                        CommitOrText::Commit(oc) => {
                            let nc = entry_commit(self.log_tree@[i as int]).unwrap();
                            if rel.len() > 0 && rel[0] < oc.file_diffs@.len() && rel[0] == j && !short && oc.loaded {
                                assert(nc.file_diffs@[j as int].diff_lines@ == oc.file_diffs@[j as int].diff_lines@);
                            }
                        },
                        CommitOrText::InfoText(_) => {},
                    }
                }
            }
        }
        r
    }
}

proof fn lemma_with_commit_consistent(es: Seq<CommitOrTextView>, i: int, c: CommitView)
    requires
        0 <= i < es.len(),
        commit_loads_consistent(c),
    ensures
        loads_consistent(es) ==> loads_consistent(with_commit(es, i, c)),
        indices_fit(es) && c.file_diffs.len() <= usize::MAX ==> indices_fit(with_commit(es, i, c)),
{
    let es2 = with_commit(es, i, c);
    assert forall|k: int| 0 <= k < es2.len() && k != i implies #[trigger] es2[k] == es[k] by {}
}

impl JjLog {
    /// Hand the output that a fold action asked for to the node at a position
    /// (cut to the file level): a commit takes the file diffs of its
    /// `jj diff --summary` output, a file diff the lines of its rendered diff.
    /// Gives the row of the node.
    #[verifier::spinoff_prover]
    pub fn finish_fold_load(&mut self, tree_pos: &TreePosition, output: &str) -> (r: Result<
        usize,
        LogTreeError,
    >)
        requires
            position_ok(old(self)@, tree_pos@),
        ensures
            ({
                let p = fold_position(tree_pos@);
                match old(self)@[p[0] as int] {
                    CommitOrTextView::InfoText(_) => r matches Ok(i) && i == log_idx_at(*old(self), p.take(1))
                        && final(self)@ == old(self)@,
                    CommitOrTextView::Commit(c) => if p.len() == 1 {
                        match parse_file_diffs(lines(trim(output@)), c.change_id, c.graph_indent) {
                            Ok(fs) => r matches Ok(i) && i == log_idx_at(*old(self), p) && final(self)@
                                == with_commit(old(self)@, p[0] as int, CommitView { file_diffs: fs, loaded: true, ..c }),
                            Err(e) => r matches Err(x) && x@ == e && final(self)@ == old(self)@,
                        }
                    } else if !c.loaded {
                        r matches Err(x) && x@ == LogTreeErrorView::UnloadedFileDiffs && final(self)@
                            == old(self)@
                    } else {
                        let f = c.file_diffs[p[1] as int];
                        &&& r matches Ok(i) && i == log_idx_at(*old(self), p)
                        &&& final(self)@ == with_commit(
                            old(self)@,
                            p[0] as int,
                            CommitView {
                                file_diffs: c.file_diffs.update(
                                    p[1] as int,
                                    FileDiffView {
                                        diff_lines: diff_lines_load(output@, f.graph_indent),
                                        loaded: true,
                                        ..f
                                    },
                                ),
                                ..c
                            },
                        )
                    },
                }
            }),
            loads_consistent(old(self)@) ==> loads_consistent(final(self)@),
            indices_fit(old(self)@) ==> indices_fit(final(self)@),
            same_flat_indices_outside(*old(self), *final(self), fold_position(tree_pos@)),
            r is Ok ==> fresh_below(*final(self), fold_position(tree_pos@)),
    {
        let ghost old_self = *self;
        let ghost old_view = self@;
        let ghost p = fold_position(tree_pos@);
        let i = tree_pos[0];
        let short = tree_pos.len() <= 1;
        let j: usize = if short {
            0
        } else {
            tree_pos[1]
        };
        let entry = &mut self.log_tree[i];
        let r = match entry {
            CommitOrText::InfoText(t) => Ok(t.flat_log_idx),
            CommitOrText::Commit(c) => {
                if short {
                    match FileDiff::load_all(output, c.change_id.as_str(), c.graph_indent.as_str()) {
                        Ok(fds) => {
                            let count = fds.len();
                            proof {
                                lemma_parse_file_diffs_unloaded(lines(trim(output@)), c.change_id@, c.graph_indent@);
                                assert forall|k: int| 0 <= k < fds@.len() implies (#[trigger] fds@[k]).diff_lines@.len()
                                    == 0 by {
                                    assert(file_diffs_of(fds@)[k] == fds@[k]@);
                                }
                            }
                            c.file_diffs = fds;
                            c.loaded = true;
                            assert(c.file_diffs@.len() == count);
                            Ok(c.flat_log_idx)
                        },
                        Err(e) => Err(e),
                    }
                } else if !c.loaded {
                    Err(LogTreeError::UnloadedFileDiffs)
                } else {
                    let f = &mut c.file_diffs[j];
                    let dls = DiffLine::load_all(output, f.graph_indent.as_str());
                    f.diff_lines = dls;
                    f.loaded = true;
                    Ok(f.flat_log_idx)
                }
            },
        };
        proof {
            assert(p.take(1).drop_first().len() == 0);
            assert(self.log_tree@ == old_self.log_tree@.update(i as int, self.log_tree@[i as int]));
            match old_view[i as int] {
                CommitOrTextView::InfoText(_) => {
                    assert(self@ =~= old_view);
                },
                CommitOrTextView::Commit(c) => {
                    let nc = entry_commit(self.log_tree@[i as int]).unwrap();
                    let oc = entry_commit(old_self.log_tree@[i as int]).unwrap();
                    if short {
                        match parse_file_diffs(lines(trim(output@)), c.change_id, c.graph_indent) {
                            Ok(fs) => {
                                let c2 = CommitView { file_diffs: fs, loaded: true, ..c };
                                assert(nc@.file_diffs =~= fs);
                                assert(self@ =~= with_commit(old_view, i as int, c2));
                                lemma_parse_file_diffs_unloaded(lines(trim(output@)), c.change_id, c.graph_indent);
                                lemma_with_commit_consistent(old_view, i as int, c2);
                            },
                            Err(e) => {
                                assert(self@ =~= old_view);
                            },
                        }
                    } else if !c.loaded {
                        assert(self@ =~= old_view);
                    } else {
                        let f = c.file_diffs[j as int];
                        assert(nc.file_diffs@ == oc.file_diffs@.update(j as int, nc.file_diffs@[j as int]));
                        assert(nc.file_diffs@[j as int]@.diff_lines =~= diff_lines_load(output@, f.graph_indent));
                        assert(nc@.file_diffs =~= c.file_diffs.update(
                            j as int,
                            FileDiffView { diff_lines: diff_lines_load(output@, f.graph_indent), loaded: true, ..f },
                        ));
                        let c2 = CommitView {
                            file_diffs: c.file_diffs.update(
                                j as int,
                                FileDiffView { diff_lines: diff_lines_load(output@, f.graph_indent), loaded: true, ..f },
                            ),
                            ..c
                        };
                        assert(self@ =~= with_commit(old_view, i as int, c2));
                        if loads_consistent(old_view) {
                            assert(commit_loads_consistent(c));
                            assert forall|k: int| 0 <= k < c2.file_diffs.len() && k != j implies #[trigger] c2.file_diffs[k]
                                == c.file_diffs[k] by {}
                            lemma_with_commit_consistent(old_view, i as int, c2);
                        }
                        if indices_fit(old_view) {
                            assert(c.file_diffs.len() <= usize::MAX);
                        }
                    }
                },
            }
        }
        proof {
            if r is Ok {
                match old_self.log_tree@[i as int] {
                    CommitOrText::Commit(_) => {
                        if short {
                            assert(p =~= seq![i]);
                            lemma_fresh_after_commit_load(*self, i, p);
                        } else {
                            assert(p =~= seq![i, j]);
                            lemma_fresh_after_file_diff_load(*self, i, j, p);
                        }
                    },
                    CommitOrText::InfoText(_) => {
                        lemma_fresh_below_info_text(*self, i as int, p);
                    },
                }
            }
            assert forall|pos: Seq<usize>| !(pos.len() > p.len() && pos.take(p.len() as int) == p) implies #[trigger] log_idx_at(
                *self,
                pos,
            ) == log_idx_at(old_self, pos) by {
                if pos.len() >= 1 && pos[0] < self.log_tree@.len() && pos[0] == i {
                    let rel = pos.drop_first();
                    match old_self.log_tree@[i as int] {
                        CommitOrText::Commit(oc) => {
                            let nc = entry_commit(self.log_tree@[i as int]).unwrap();
                            if short {
                                assert(p =~= seq![i]);
                                assert(pos.take(1) =~= seq![i]);
                                assert(rel.len() == 0);
                            } else if oc.loaded {
                                assert(p =~= seq![i, j]);
                                assert(nc.file_diffs@ == oc.file_diffs@.update(j as int, nc.file_diffs@[j as int]));
                                if rel.len() > 0 && rel[0] == j {
                                    assert(pos.take(2) =~= seq![i, j]);
                                    assert(rel.drop_first().len() == 0);
                                }
                            }
                        },
                        CommitOrText::InfoText(_) => {},
                    }
                }
            }
        }
        r
    }
}

} // verus!

verus! {

// ---------------------------------------------------------------------------
// Rendering
// ---------------------------------------------------------------------------

/// The colors that rows use, beyond the ones their ANSI text carries.
#[derive(Clone, Copy, Debug)]
pub enum RowColor {
    DarkGray,
    LightBlue,
    Yellow,
}

/// A piece of a rendered row.
#[derive(Debug)]
pub enum RowPiece {
    /// Plain text.
    Raw(String),
    /// Text in one color.
    Colored(String, RowColor),
    /// Text styled by its own ANSI escape sequences, of which the first
    /// line is shown.
    AnsiLine(String),
}

/// The content of a row piece.
pub enum RowPieceView {
    Raw(Seq<char>),
    Colored(Seq<char>, RowColor),
    AnsiLine(Seq<char>),
}

impl View for RowPiece {
    type V = RowPieceView;

    open spec fn view(&self) -> RowPieceView {
        match self {
            RowPiece::Raw(t) => RowPieceView::Raw(t@),
            RowPiece::Colored(t, c) => RowPieceView::Colored(t@, *c),
            RowPiece::AnsiLine(t) => RowPieceView::AnsiLine(t@),
        }
    }
}

/// The content of rendered lines.
pub open spec fn lines_view(lines: Seq<Vec<RowPiece>>) -> Seq<Seq<RowPieceView>> {
    Seq::new(lines.len(), |i: int| Seq::new(lines[i]@.len(), |k: int| lines[i]@[k]@))
}

/// The fold marker: pointing down when unfolded, right when folded.
pub open spec fn fold_symbol_view(unfolded: bool) -> RowPieceView {
    RowPieceView::Colored(if unfolded { "▾"@ } else { "▸"@ }, RowColor::DarkGray)
}

/// The fold marker of a node.
pub fn fold_symbol(unfolded: bool) -> (r: RowPiece)
    ensures
        r@ == fold_symbol_view(unfolded),
{
    RowPiece::Colored(crate::text::lit(if unfolded { "▾" } else { "▸" }), RowColor::DarkGray)
}

/// An info text shows its own styled line.
pub open spec fn info_text_render(ansi_string: Seq<char>) -> Seq<Seq<RowPieceView>> {
    seq![seq![RowPieceView::AnsiLine(ansi_string)]]
}

/// A commit shows its gutter, fold marker and styled first line, then, when
/// it has one, its second line's graph gutter and description.
pub open spec fn commit_render(c: CommitView) -> Seq<Seq<RowPieceView>> {
    let line1 = seq![
        RowPieceView::AnsiLine(c.line1_gutter_ansi),
        RowPieceView::Raw(" "@),
        fold_symbol_view(c.unfolded),
        RowPieceView::Raw(" "@),
        RowPieceView::AnsiLine(c.line1_ansi),
    ];
    if c.line2_ansi.len() == 0 {
        seq![line1]
    } else {
        seq![
            line1,
            seq![
                RowPieceView::Raw(c.line2_graph_chars),
                RowPieceView::Raw(" "@),
                RowPieceView::AnsiLine(c.line2_ansi),
            ],
        ]
    }
}

/// A file diff shows the indent, its fold marker, and its status and
/// description in light blue.
pub open spec fn file_diff_render(f: FileDiffView) -> Seq<Seq<RowPieceView>> {
    seq![
        seq![
            RowPieceView::Raw(f.graph_indent),
            fold_symbol_view(f.unfolded),
            RowPieceView::Raw(" "@),
            RowPieceView::Colored(status_label(f.status) + " "@ + f.description, RowColor::LightBlue),
        ],
    ]
}

/// A diff line shows the indent, two spaces, and its styled text.
pub open spec fn diff_line_render(d: DiffLineView) -> Seq<Seq<RowPieceView>> {
    seq![seq![RowPieceView::Raw(d.graph_indent), RowPieceView::Raw("  "@), RowPieceView::AnsiLine(d.ansi_string)]]
}

/// What a node of the tree shows.
pub open spec fn node_render(n: TreeNodeView) -> Seq<Seq<RowPieceView>> {
    match n {
        TreeNodeView::InfoText(t) => info_text_render(t),
        TreeNodeView::Commit(c) => commit_render(c),
        TreeNodeView::FileDiff(f) => file_diff_render(f),
        TreeNodeView::DiffLine(d) => diff_line_render(d),
    }
}

impl InfoText {
    /// The lines this info text shows.
    pub fn render(&self) -> (r: Vec<Vec<RowPiece>>)
        ensures
            lines_view(r@) == info_text_render(self.ansi_string@),
    {
        let line = vec![RowPiece::AnsiLine(crate::text::lit(self.ansi_string.as_str()))];
        let r = vec![line];
        assert(lines_view(r@) =~= info_text_render(self.ansi_string@)) by {
            assert(lines_view(r@)[0] =~= info_text_render(self.ansi_string@)[0]);
        }
        r
    }
}

impl Commit {
    /// The lines this commit shows.
    pub fn render(&self) -> (r: Vec<Vec<RowPiece>>)
        ensures
            lines_view(r@) == commit_render(self@),
    {
        let line1 = vec![
            RowPiece::AnsiLine(crate::text::lit(self.line1_gutter_ansi.as_str())),
            RowPiece::Raw(crate::text::lit(" ")),
            fold_symbol(self.unfolded),
            RowPiece::Raw(crate::text::lit(" ")),
            RowPiece::AnsiLine(crate::text::lit(self.line1_ansi.as_str())),
        ];
        let ghost v = commit_render(self@);
        if self.line2_ansi.as_str().is_empty() {
            let r = vec![line1];
            assert(lines_view(r@)[0] =~= v[0]);
            assert(lines_view(r@) =~= v);
            r
        } else {
            let line2 = vec![
                RowPiece::Raw(crate::text::lit(self.line2_graph_chars.as_str())),
                RowPiece::Raw(crate::text::lit(" ")),
                RowPiece::AnsiLine(crate::text::lit(self.line2_ansi.as_str())),
            ];
            let r = vec![line1, line2];
            assert(lines_view(r@)[0] =~= v[0]);
            assert(lines_view(r@)[1] =~= v[1]);
            assert(lines_view(r@) =~= v);
            r
        }
    }
}

impl FileDiff {
    /// The line this file diff shows.
    pub fn render(&self) -> (r: Vec<Vec<RowPiece>>)
        ensures
            lines_view(r@) == file_diff_render(self@),
    {
        let mut text = self.status.label();
        text.append(" ");
        text.append(self.description.as_str());
        let line = vec![
            RowPiece::Raw(crate::text::lit(self.graph_indent.as_str())),
            fold_symbol(self.unfolded),
            RowPiece::Raw(crate::text::lit(" ")),
            RowPiece::Colored(text, RowColor::LightBlue),
        ];
        let r = vec![line];
        let ghost v = file_diff_render(self@);
        assert(lines_view(r@)[0] =~= v[0]);
        assert(lines_view(r@) =~= v);
        r
    }
}

impl DiffLine {
    /// The line this diff line shows.
    pub fn render(&self) -> (r: Vec<Vec<RowPiece>>)
        ensures
            lines_view(r@) == diff_line_render(self@),
    {
        let line = vec![
            RowPiece::Raw(crate::text::lit(self.graph_indent.as_str())),
            RowPiece::Raw(crate::text::lit("  ")),
            RowPiece::AnsiLine(crate::text::lit(self.ansi_string.as_str())),
        ];
        let r = vec![line];
        let ghost v = diff_line_render(self@);
        assert(lines_view(r@)[0] =~= v[0]);
        assert(lines_view(r@) =~= v);
        r
    }
}

impl Commit {
    /// The nodes right below this commit: its file diffs.
    pub fn children(&self) -> (r: Vec<TreeNode<'_>>)
        ensures
            r@.len() == self.file_diffs@.len(),
            forall|j: int| 0 <= j < r@.len() ==> (#[trigger] r@[j])@ == TreeNodeView::FileDiff(self.file_diffs@[j]@),
    {
        let mut r: Vec<TreeNode<'_>> = Vec::new();
        let mut j: usize = 0;
        while j < self.file_diffs.len()
            invariant
                0 <= j <= self.file_diffs@.len(),
                r@.len() == j,
                forall|k: int| 0 <= k < j ==> (#[trigger] r@[k])@ == TreeNodeView::FileDiff(self.file_diffs@[k]@),
            decreases self.file_diffs@.len() - j,
        {
            r.push(TreeNode::FileDiff(&self.file_diffs[j]));
            j = j + 1;
        }
        r
    }
}

impl FileDiff {
    /// The nodes right below this file diff: its diff lines.
    pub fn children(&self) -> (r: Vec<TreeNode<'_>>)
        ensures
            r@.len() == self.diff_lines@.len(),
            forall|k: int| 0 <= k < r@.len() ==> (#[trigger] r@[k])@ == TreeNodeView::DiffLine(self.diff_lines@[k]@),
    {
        let mut r: Vec<TreeNode<'_>> = Vec::new();
        let mut k: usize = 0;
        while k < self.diff_lines.len()
            invariant
                0 <= k <= self.diff_lines@.len(),
                r@.len() == k,
                forall|i: int| 0 <= i < k ==> (#[trigger] r@[i])@ == TreeNodeView::DiffLine(self.diff_lines@[i]@),
            decreases self.diff_lines@.len() - k,
        {
            r.push(TreeNode::DiffLine(&self.diff_lines[k]));
            k = k + 1;
        }
        r
    }
}

impl<'a> TreeNode<'a> {
    /// The lines this node shows.
    pub fn render(&self) -> (r: Vec<Vec<RowPiece>>)
        ensures
            lines_view(r@) == node_render(self@),
    {
        match self {
            TreeNode::InfoText(t) => t.render(),
            TreeNode::Commit(c) => c.render(),
            TreeNode::FileDiff(f) => f.render(),
            TreeNode::DiffLine(d) => d.render(),
        }
    }
}

} // verus!

verus! {

// ---------------------------------------------------------------------------
// Laws of reading and showing the log
// ---------------------------------------------------------------------------

/// The box-drawing characters, and the space, that jj draws its graph with.
pub open spec fn jj_graph_char(c: char) -> bool {
    c == ' ' || c == '│' || c == '├' || c == '┤' || c == '┬' || c == '┴' || c == '╭' || c == '╮'
        || c == '╯' || c == '╰' || c == '─' || c == '┼'
}

proof fn lemma_gutter_run(g: Seq<char>, d: Seq<char>, i: int)
    requires
        0 <= i <= g.len(),
        forall|k: int| 0 <= k < g.len() ==> jj_graph_char(#[trigger] g[k]),
        d.len() == 0 || !jj_graph_char(d[0]),
    ensures
        gutter_len(g + d, i) == g.len() - i,
    decreases g.len() - i,
{
    let s = g + d;
    if i < g.len() {
        assert(s[i] == g[i]);
        lemma_gutter_run(g, d, i + 1);
    } else if d.len() > 0 {
        assert(s[i] == d[0]);
    }
}

proof fn lemma_line_end_none(s: Seq<char>, i: int)
    requires
        0 <= i <= s.len(),
        forall|k: int| i <= k < s.len() ==> s[k] != '\n',
    ensures
        line_end(s, i) == s.len(),
    decreases s.len() - i,
{
    if i < s.len() {
        lemma_line_end_none(s, i + 1);
    }
}

/// Line 2 of a commit splits at the end of its graph: when the line is a
/// run of graph characters (any of ` │├┤┬┴╭╮╯╰─┼`) followed by a description
/// that does not start with one and holds no line feed, the gutter is that
/// run and the description is the rest.
pub proof fn lemma_line2_splits_after_graph(g: Seq<char>, d: Seq<char>)
    requires
        forall|k: int| 0 <= k < g.len() ==> jj_graph_char(#[trigger] g[k]),
        d.len() == 0 || !jj_graph_char(d[0]),
        forall|k: int| 0 <= k < d.len() ==> #[trigger] d[k] != '\n',
    ensures
        split_line2_spec(g + d) == (g, d),
{
    let s = g + d;
    lemma_gutter_run(g, d, 0);
    assert forall|k: int| g.len() <= k < s.len() implies s[k] != '\n' by {
        assert(s[k] == d[k - g.len()]);
    }
    lemma_line_end_none(s, g.len() as int);
    assert(s.take(g.len() as int) =~= g);
    assert(s.subrange(g.len() as int, s.len() as int) =~= d);
}

/// The fold marker that a state shows: pointing down when unfolded, right
/// when folded, in dark gray.
pub open spec fn marker_for(unfolded: bool) -> RowPieceView {
    if unfolded {
        RowPieceView::Colored(seq!['▾'], RowColor::DarkGray)
    } else {
        RowPieceView::Colored(seq!['▸'], RowColor::DarkGray)
    }
}

/// A rendered commit's first line shows its fold state, and only that:
/// the marker points down exactly when the commit is unfolded, whether or
/// not its file diffs are loaded; likewise for a file diff.
pub proof fn lemma_render_shows_fold_state(c: CommitView, f: FileDiffView)
    ensures
        commit_render(c)[0].len() == 5,
        commit_render(c)[0][2] == marker_for(c.unfolded),
        file_diff_render(f)[0][1] == marker_for(f.unfolded),
{
    reveal_strlit("▾");
    reveal_strlit("▸");
    assert("▾"@ =~= seq!['▾']);
    assert("▸"@ =~= seq!['▸']);
}

/// A summary line's status is the one its letter names: `M` modified, `A`
/// added, `D` deleted, `R` renamed, `C` copied.
pub proof fn lemma_summary_status_letter(change_id: Seq<char>, line: Seq<char>, graph_indent: Seq<char>)
    ensures
        file_diff_parse(change_id, line, graph_indent) matches Ok(f) ==> {
            let letter = strip_ansi_spec(line)[0];
            &&& letter == 'M' ==> f.status == FileDiffStatus::Modified
            &&& letter == 'A' ==> f.status == FileDiffStatus::Added
            &&& letter == 'D' ==> f.status == FileDiffStatus::Deleted
            &&& letter == 'R' ==> f.status == FileDiffStatus::Renamed
            &&& letter == 'C' ==> f.status == FileDiffStatus::Copied
            &&& letter == 'M' || letter == 'A' || letter == 'D' || letter == 'R' || letter == 'C'
        },
{
}

/// The line repeats a git file header: without its styling it starts with
/// `diff --git` or `index `.
pub open spec fn repeats_git_header(l: Seq<char>) -> bool {
    let c = strip_ansi_spec(l);
    ||| (c.len() >= 10 && c.take(10) == seq!['d', 'i', 'f', 'f', ' ', '-', '-', 'g', 'i', 't'])
    ||| (c.len() >= 6 && c.take(6) == seq!['i', 'n', 'd', 'e', 'x', ' '])
}

/// Which lines of a hunkless diff are shown: all but the git file headers.
pub open spec fn shown_diff_line() -> spec_fn(Seq<char>) -> bool {
    |l: Seq<char>| !repeats_git_header(l)
}

proof fn lemma_hunk_header_is_opens_hunk(l: Seq<char>)
    ensures
        is_hunk_header(l) == (strip_ansi_spec(l).len() >= 2 && strip_ansi_spec(l)[0] == '@' && strip_ansi_spec(l)[1]
            == '@'),
{
    reveal_strlit("@@");
    let c = strip_ansi_spec(l);
    if c.len() >= 2 && c[0] == '@' && c[1] == '@' {
        assert(c.subrange(0, 2) =~= "@@"@);
    }
    if is_hunk_header(l) {
        assert(c.subrange(0, 2)[0] == c[0]);
        assert(c.subrange(0, 2)[1] == c[1]);
    }
}

proof fn lemma_first_hunk_is_first(ls: Seq<Seq<char>>, i: int, k: int)
    requires
        0 <= k <= i < ls.len(),
        is_hunk_header(ls[i]),
        forall|j: int| 0 <= j < i ==> !is_hunk_header(#[trigger] ls[j]),
    ensures
        first_hunk_from(ls, k) == Some(i),
    decreases i - k,
{
    if k < i {
        lemma_first_hunk_is_first(ls, i, k + 1);
    }
}

proof fn lemma_no_hunk(ls: Seq<Seq<char>>, k: int)
    requires
        0 <= k,
        forall|j: int| 0 <= j < ls.len() ==> !is_hunk_header(#[trigger] ls[j]),
    ensures
        first_hunk_from(ls, k) is None,
    decreases ls.len() - k,
{
    if k < ls.len() {
        lemma_no_hunk(ls, k + 1);
    }
}

proof fn lemma_git_header_is_repeat(l: Seq<char>)
    ensures
        is_git_header(l) == repeats_git_header(l),
{
    reveal_strlit("diff --git");
    reveal_strlit("index ");
    let c = strip_ansi_spec(l);
    assert("diff --git"@ =~= seq!['d', 'i', 'f', 'f', ' ', '-', '-', 'g', 'i', 't']);
    assert("index "@ =~= seq!['i', 'n', 'd', 'e', 'x', ' ']);
    assert(c.len() >= 10 ==> c.subrange(0, 10) =~= c.take(10));
    assert(c.len() >= 6 ==> c.subrange(0, 6) =~= c.take(6));
}

proof fn lemma_drop_git_headers_filter(ls: Seq<Seq<char>>)
    ensures
        drop_git_headers(ls) == ls.filter(shown_diff_line()),
    decreases ls.len(),
{
    reveal(Seq::filter);
    if ls.len() > 0 {
        lemma_drop_git_headers_filter(ls.drop_last());
        lemma_git_header_is_repeat(ls.last());
        assert(shown_diff_line()(ls.last()) == !repeats_git_header(ls.last()));
    }
}

/// The body of a file's diff starts at its first hunk header, wherever that
/// is; a diff without a hunk header keeps, in order, every line that is not
/// a `diff --git` or `index ` header.
pub proof fn lemma_diff_body_from_first_hunk(ls: Seq<Seq<char>>)
    ensures
        forall|i: int|
            0 <= i < ls.len() && opens_hunk_clean(#[trigger] ls[i]) && (forall|j: int|
                0 <= j < i ==> !opens_hunk_clean(#[trigger] ls[j])) ==> diff_body_spec(ls) == ls.skip(i),
        (forall|j: int| 0 <= j < ls.len() ==> !opens_hunk_clean(#[trigger] ls[j])) ==> diff_body_spec(ls)
            == ls.filter(shown_diff_line()),
{
    assert forall|j: int| 0 <= j < ls.len() implies is_hunk_header(#[trigger] ls[j]) == opens_hunk_clean(ls[j]) by {
        lemma_hunk_header_is_opens_hunk(ls[j]);
    }
    assert forall|i: int|
        0 <= i < ls.len() && opens_hunk_clean(#[trigger] ls[i]) && (forall|j: int|
            0 <= j < i ==> !opens_hunk_clean(#[trigger] ls[j])) implies diff_body_spec(ls) == ls.skip(i) by {
        lemma_first_hunk_is_first(ls, i, 0);
    }
    if forall|j: int| 0 <= j < ls.len() ==> !opens_hunk_clean(#[trigger] ls[j]) {
        lemma_no_hunk(ls, 0);
        lemma_drop_git_headers_filter(ls);
    }
}

/// Without its styling the line starts with `@@`.
pub open spec fn opens_hunk_clean(l: Seq<char>) -> bool {
    strip_ansi_spec(l).len() >= 2 && strip_ansi_spec(l)[0] == '@' && strip_ansi_spec(l)[1] == '@'
}

/// The indent under a commit has one character for each of line 2's gutter
/// characters but the last: a bar where a branch goes on down (under
/// `│├┤┬╭╮┼`, or under a `─` that crosses a bar of line 1), a space
/// elsewhere (under `╯`, `╰`, `┴`, a space, or a `─` that crosses nothing).
pub proof fn lemma_indent_follows_branches(line1_clean: Seq<char>, line2_graph_chars: Seq<char>)
    ensures
        graph_indent_spec(line1_clean, line2_graph_chars).len() == if line2_graph_chars.len() > 0 {
            line2_graph_chars.len() - 1
        } else {
            0
        },
        forall|k: int|
            0 <= k < graph_indent_spec(line1_clean, line2_graph_chars).len() ==> {
                let c2 = line2_graph_chars[k];
                let bar = c2 == '│' || c2 == '├' || c2 == '┤' || c2 == '┬' || c2 == '╭' || c2 == '╮' || c2 == '┼'
                    || (c2 == '─' && k < line1_clean.len() && line1_clean[k] == '│');
                &&& bar ==> #[trigger] graph_indent_spec(line1_clean, line2_graph_chars)[k] == '│'
                &&& !bar ==> graph_indent_spec(line1_clean, line2_graph_chars)[k] == ' '
            },
{
}

} // verus!
