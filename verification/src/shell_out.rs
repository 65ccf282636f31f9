//! Building and interpreting jj invocations.
//!
//! A `JjCommand` is a value: the arguments of one jj invocation and how its
//! output is to be read. The process itself is started by the caller, which
//! hands the outcome back to `JjCommand::run`.
use crate::ansi::{strip_non_style_ansi, strip_non_style_spec};
use crate::log_tree::{lines_view, RowColor, RowPiece, RowPieceView, COMMIT_FIELD_MARKER};
use crate::model::{GlobalArgs, Term};
use crate::text::{join, join_strings, lit, strings_of, strs_of, trim, trim_str};
use vstd::prelude::*;

verus! {

/// Which of a command's outputs its caller reads.
#[derive(Clone, Copy, Debug)]
pub enum ReturnOutput {
    /// Stdout and stderr together, stdout first.
    Combined,
    Stdout,
    Stderr,
}

/// The abstract content of a `JjCommand`.
pub struct JjCommandView {
    /// The jj arguments proper (after the global options).
    pub args: Seq<Seq<char>>,
    /// The repository and the `--ignore-immutable` switch.
    pub global_args: (Seq<char>, bool),
    /// Whether the command takes over the terminal while it runs.
    pub interactive: bool,
    pub return_output: ReturnOutput,
    /// Whether the log is to be reloaded after the command.
    pub sync: bool,
    /// Whether jj colors its output.
    pub color: bool,
}

/// One jj invocation: its arguments and how its output is read.
#[derive(Debug)]
pub struct JjCommand {
    args: Vec<String>,
    global_args: GlobalArgs,
    interactive_term: Option<Term>,
    return_output: ReturnOutput,
    pub sync: bool,
    color: bool,
}

impl JjCommand {
    /// The abstract content of this command.
    pub closed spec fn command_view(&self) -> JjCommandView {
        JjCommandView {
            args: strings_of(self.args@),
            global_args: self.global_args@,
            interactive: self.interactive_term is Some,
            return_output: self.return_output,
            sync: self.sync,
            color: self.color,
        }
    }
}

impl View for JjCommand {
    type V = JjCommandView;

    open spec fn view(&self) -> JjCommandView {
        self.command_view()
    }
}

/// A colored command after which the log is reloaded.
pub open spec fn synced(
    args: Seq<Seq<char>>,
    global_args: (Seq<char>, bool),
    interactive: bool,
    return_output: ReturnOutput,
) -> JjCommandView {
    JjCommandView { args, global_args, interactive, return_output, sync: true, color: true }
}

/// A colored command after which the log is not reloaded.
pub open spec fn unsynced(
    args: Seq<Seq<char>>,
    global_args: (Seq<char>, bool),
    interactive: bool,
    return_output: ReturnOutput,
) -> JjCommandView {
    JjCommandView { args, global_args, interactive, return_output, sync: false, color: true }
}

/// An uncolored, non-interactive command after which the log is not reloaded.
pub open spec fn uncolored(
    args: Seq<Seq<char>>,
    global_args: (Seq<char>, bool),
    return_output: ReturnOutput,
) -> JjCommandView {
    JjCommandView { args, global_args, interactive: false, return_output, sync: false, color: false }
}


/// An optional argument.
pub open spec fn opt_arg(a: Option<&str>) -> Seq<Seq<char>> {
    match a {
        Some(x) => seq![x@],
        None => seq![],
    }
}

/// Two arguments passed only when both are given.
pub open spec fn opt_pair(a: Option<&str>, b: Option<&str>) -> Seq<Seq<char>> {
    match (a, b) {
        (Some(x), Some(y)) => seq![x@, y@],
        _ => seq![],
    }
}

/// A switch passed when `on`.
pub open spec fn flag_arg(on: bool, flag: Seq<char>) -> Seq<Seq<char>> {
    if on {
        seq![flag]
    } else {
        seq![]
    }
}

/// An optional value passed after its option name.
pub open spec fn opt_flagged(flag: Seq<char>, a: Option<&str>) -> Seq<Seq<char>> {
    match a {
        Some(x) => seq![flag, x@],
        None => seq![],
    }
}

fn push_arg(v: &mut Vec<String>, s: &str)
    ensures
        strings_of(final(v)@) == strings_of(old(v)@).push(s@),
{
    v.push(lit(s));
    assert(strings_of(v@) =~= strings_of(old(v)@).push(s@));
}

fn push_opt(v: &mut Vec<String>, a: Option<&str>)
    ensures
        strings_of(final(v)@) == strings_of(old(v)@) + opt_arg(a),
{
    match a {
        Some(x) => push_arg(v, x),
        None => {},
    }
    assert(strings_of(v@) =~= strings_of(old(v)@) + opt_arg(a));
}

fn push_pair(v: &mut Vec<String>, a: Option<&str>, b: Option<&str>)
    ensures
        strings_of(final(v)@) == strings_of(old(v)@) + opt_pair(a, b),
{
    if let (Some(x), Some(y)) = (a, b) {
        push_arg(v, x);
        push_arg(v, y);
    }
    assert(strings_of(v@) =~= strings_of(old(v)@) + opt_pair(a, b));
}

fn push_flag(v: &mut Vec<String>, on: bool, flag: &str)
    ensures
        strings_of(final(v)@) == strings_of(old(v)@) + flag_arg(on, flag@),
{
    if on {
        push_arg(v, flag);
    }
    assert(strings_of(v@) =~= strings_of(old(v)@) + flag_arg(on, flag@));
}

fn push_opt_flagged(v: &mut Vec<String>, flag: &str, a: Option<&str>)
    ensures
        strings_of(final(v)@) == strings_of(old(v)@) + opt_flagged(flag@, a),
{
    if let Some(x) = a {
        push_arg(v, flag);
        push_arg(v, x);
    }
    assert(strings_of(v@) =~= strings_of(old(v)@) + opt_flagged(flag@, a));
}

fn push_all(v: &mut Vec<String>, items: &[&str])
    ensures
        strings_of(final(v)@) == strings_of(old(v)@) + strs_of(items@),
{
    let mut i: usize = 0;
    while i < items.len()
        invariant
            0 <= i <= items@.len(),
            strings_of(v@) == strings_of(old(v)@) + strs_of(items@).take(i as int),
        decreases items@.len() - i,
    {
        push_arg(v, items[i]);
        assert(strs_of(items@).take(i + 1) =~= strs_of(items@).take(i as int).push(items@[i as int]@));
        i = i + 1;
    }
    assert(strs_of(items@).take(items@.len() as int) =~= strs_of(items@));
}

/// The pieces of the `jj log` template between its field markers: twelve
/// fields, each opened by a marker, and a closing marker before jj's compact
/// log rendering.
pub open spec fn log_template_pieces() -> Seq<Seq<char>> {
    seq![
        r#"stringify(concat(
                ""#@,
        r#"", change_id.shortest(8), if(divergent, "/" ++ change_offset),
                ""#@,
        r#"", commit_id.shortest(8),
                ""#@,
        r#"", if(current_working_copy, "Y", "N"),
                ""#@,
        r#"", if(conflict, "Y", "N"),
                ""#@,
        r#"", if(empty, "Y", "N"),
                ""#@,
        r#"", if(root, "Y", "N"),
                ""#@,
        r#"", working_copies,
                ""#@,
        r#"", local_bookmarks.map(|b| b.name()).join(" "),
                ""#@,
        r#"", tags.map(|t| t.name()).join(" "),
                ""#@,
        r#"", coalesce(author.email(), ""),
                ""#@,
        r#"", author.timestamp().local().format("%Y-%m-%d %H:%M:%S"),
                ""#@,
        r#"", coalesce(description.first_line(), ""),
                ""#@,
        r#""
            )) ++ builtin_log_compact"#@,
    ]
}

/// The `jj log` template: the pieces joined by the field marker.
pub open spec fn log_template() -> Seq<char> {
    join(log_template_pieces(), COMMIT_FIELD_MARKER@)
}

fn log_template_exec() -> (r: String)
    ensures
        r@ == log_template(),
{
    let mut pieces: Vec<String> = Vec::new();
    push_arg(&mut pieces, r#"stringify(concat(
                ""#);
    push_arg(&mut pieces, r#"", change_id.shortest(8), if(divergent, "/" ++ change_offset),
                ""#);
    push_arg(&mut pieces, r#"", commit_id.shortest(8),
                ""#);
    push_arg(&mut pieces, r#"", if(current_working_copy, "Y", "N"),
                ""#);
    push_arg(&mut pieces, r#"", if(conflict, "Y", "N"),
                ""#);
    push_arg(&mut pieces, r#"", if(empty, "Y", "N"),
                ""#);
    push_arg(&mut pieces, r#"", if(root, "Y", "N"),
                ""#);
    push_arg(&mut pieces, r#"", working_copies,
                ""#);
    push_arg(&mut pieces, r#"", local_bookmarks.map(|b| b.name()).join(" "),
                ""#);
    push_arg(&mut pieces, r#"", tags.map(|t| t.name()).join(" "),
                ""#);
    push_arg(&mut pieces, r#"", coalesce(author.email(), ""),
                ""#);
    push_arg(&mut pieces, r#"", author.timestamp().local().format("%Y-%m-%d %H:%M:%S"),
                ""#);
    push_arg(&mut pieces, r#"", coalesce(description.first_line(), ""),
                ""#);
    push_arg(&mut pieces, r#""
            )) ++ builtin_log_compact"#);
    assert(strings_of(pieces@) =~= log_template_pieces());
    join_strings(&pieces, COMMIT_FIELD_MARKER)
}

/// The global options that precede every command's arguments.
pub open spec fn base_args(color: bool, repository: Seq<char>) -> Seq<Seq<char>> {
    seq![
        "--color"@,
        (if color { "always"@ } else { "never"@ }),
        "--config"@,
        "ui.pager=:builtin"@,
        "--config"@,
        "ui.diff-editor=:builtin"@,
        "--config"@,
        "ui.conflict-marker-style=snapshot"@,
        "--config"@,
        "ui.streampager.interface=full-screen-clear-output"@,
        "--config"@,
        r#"template-aliases."format_short_change_id(id)"=format_short_id(id)"#@,
        "--config"@,
        r#"template-aliases."format_short_id(id)"=id.shortest(8)"#@,
        "--config"@,
        r#"template-aliases."format_short_signature(signature)"="coalesce(signature.email(), email_placeholder)""#@,
        "--config"@,
        r#"template-aliases."format_timestamp(timestamp)"='timestamp.local().format("%Y-%m-%d %H:%M:%S")'"#@,
        "--config"@,
        r#"templates.log_node=
                coalesce(
                  if(!self, label("elided", "~")),
                  label(
                    separate(" ",
                      if(current_working_copy, "working_copy"),
                      if(immutable, "immutable"),
                      if(conflict, "conflict"),
                    ),
                    coalesce(
                      if(current_working_copy, "@"),
                      if(root, "┴"),
                      if(immutable, "●"),
                      if(conflict, "⊗"),
                      "○",
                    )
                  )
                )
            "#@,
        "--repository"@,
        repository,
    ]
}

/// The complete argument list that jj is started with.
pub open spec fn full_argv(c: JjCommandView) -> Seq<Seq<char>> {
    base_args(c.color, c.global_args.0) + flag_arg(c.global_args.1, "--ignore-immutable"@) + c.args
}

/// The outcome of a finished process: whether it exited successfully, and
/// what it wrote.
#[derive(Debug)]
pub struct ProcessOutput {
    pub success: bool,
    pub stdout: String,
    pub stderr: String,
}

/// Why a jj command yielded no output.
#[derive(Debug)]
pub enum JjCommandError {
    /// jj exited unsuccessfully; its trimmed stderr.
    Failed { stderr: String },
    /// jj could not be run or waited for.
    Other { err: String },
}

impl JjCommandError {
    /// A failure reported by jj on stderr.
    pub fn new_failed(stderr: String) -> (r: Self)
        ensures
            r matches JjCommandError::Failed { stderr: s } && s@ == trim(stderr@),
    {
        JjCommandError::Failed { stderr: trim_str(stderr.as_str()) }
    }

    /// A failure to run jj at all.
    pub fn new_other(err: String) -> (r: Self)
        ensures
            r matches JjCommandError::Other { err: e } && e@ == err@,
    {
        JjCommandError::Other { err }
    }

    /// The error's message.
    pub fn to_string(&self) -> (r: String)
        ensures
            r@ == match self {
                JjCommandError::Failed { stderr } => stderr@,
                JjCommandError::Other { err } => err@,
            },
    {
        match self {
            JjCommandError::Failed { stderr } => lit(stderr.as_str()),
            JjCommandError::Other { err } => lit(err.as_str()),
        }
    }
}

/// Stdout and stderr together: whichever is non-empty, or both separated by a
/// line feed.
pub open spec fn combined(stdout: Seq<char>, stderr: Seq<char>) -> Seq<char> {
    if stdout.len() == 0 && stderr.len() == 0 {
        seq![]
    } else if stderr.len() == 0 {
        stdout
    } else if stdout.len() == 0 {
        stderr
    } else {
        stdout + seq!['\n'] + stderr
    }
}

/// Stdout and stderr together: whichever is non-empty, or both separated by a
/// line feed.
pub fn combine_output(stdout: String, stderr: String) -> (r: String)
    ensures
        r@ == combined(stdout@, stderr@),
{
    match (stdout.as_str().is_empty(), stderr.as_str().is_empty()) {
        (true, true) => String::new(),
        (false, true) => stdout,
        (true, false) => stderr,
        (false, false) => {
            let mut r = stdout;
            r.append("\n");
            r.append(stderr.as_str());
            proof {
                reveal_strlit("\n");
            }
            r
        },
    }
}

/// What running a command yields, given whether jj succeeded and what it
/// wrote: an interactive command's stdout went to the terminal and its stderr
/// is read without cursor and screen sequences; a failure yields the trimmed
/// stderr; a success yields the output the command reads.
pub open spec fn run_result(
    c: JjCommandView,
    success: bool,
    stdout: Seq<char>,
    stderr: Seq<char>,
) -> Result<Seq<char>, Seq<char>> {
    let so = if c.interactive {
        seq![]
    } else {
        stdout
    };
    let se = if c.interactive {
        strip_non_style_spec(stderr)
    } else {
        stderr
    };
    if !success {
        Err(trim(se))
    } else {
        Ok(
            match c.return_output {
                ReturnOutput::Combined => combined(so, se),
                ReturnOutput::Stdout => so,
                ReturnOutput::Stderr => se,
            },
        )
    }
}

impl JjCommand {
    fn new(
        args: Vec<String>,
        global_args: GlobalArgs,
        interactive_term: Option<Term>,
        return_output: ReturnOutput,
    ) -> (r: Self)
        ensures
            r@ == synced(strings_of(args@), global_args@, interactive_term is Some, return_output),
    {
        JjCommand { args, global_args, interactive_term, return_output, sync: true, color: true }
    }

    fn new_skip_sync(
        args: Vec<String>,
        global_args: GlobalArgs,
        interactive_term: Option<Term>,
        return_output: ReturnOutput,
    ) -> (r: Self)
        ensures
            r@ == unsynced(strings_of(args@), global_args@, interactive_term is Some, return_output),
    {
        JjCommand { args, global_args, interactive_term, return_output, sync: false, color: true }
    }

    fn new_no_color(args: Vec<String>, global_args: GlobalArgs, return_output: ReturnOutput) -> (r: Self)
        ensures
            r@ == uncolored(strings_of(args@), global_args@, return_output),
    {
        JjCommand {
            args,
            global_args,
            interactive_term: None,
            return_output,
            sync: false,
            color: false,
        }
    }

    /// The terminal this command takes over while it runs, if any.
    pub fn interactive_term(&self) -> (r: Option<Term>)
        ensures
            r is Some == self@.interactive,
    {
        self.interactive_term
    }

    /// The command's arguments separated by spaces, as shown to the user.
    pub fn display_args(&self) -> (r: String)
        ensures
            r@ == join(self@.args, seq![' ']),
    {
        let r = join_strings(self.args.as_slice(), " ");
        proof {
            reveal_strlit(" ");
            assert(" "@ =~= seq![' ']);
        }
        r
    }

    /// The lines that announce this command in the output panel: a yellow
    /// prompt, `jj` and the arguments, then a blank line.
    pub fn to_lines(&self) -> (r: Vec<Vec<RowPiece>>)
        ensures
            lines_view(r@) == seq![
                seq![
                    RowPieceView::Colored("❯"@, RowColor::Yellow),
                    RowPieceView::Raw(" jj "@),
                    RowPieceView::Raw(join(self@.args, seq![' '])),
                ],
                Seq::<RowPieceView>::empty(),
            ],
    {
        let line = vec![
            RowPiece::Colored(lit("❯"), RowColor::Yellow),
            RowPiece::Raw(lit(" jj ")),
            RowPiece::Raw(self.display_args()),
        ];
        let blank: Vec<RowPiece> = Vec::new();
        let r = vec![line, blank];
        assert(lines_view(r@)[0] =~= seq![
            RowPieceView::Colored("❯"@, RowColor::Yellow),
            RowPieceView::Raw(" jj "@),
            RowPieceView::Raw(join(self@.args, seq![' '])),
        ]);
        assert(lines_view(r@)[1] =~= Seq::<RowPieceView>::empty());
        assert(lines_view(r@) =~= seq![
            seq![
                RowPieceView::Colored("❯"@, RowColor::Yellow),
                RowPieceView::Raw(" jj "@),
                RowPieceView::Raw(join(self@.args, seq![' '])),
            ],
            Seq::<RowPieceView>::empty(),
        ]);
        r
    }

    /// The complete argument list that jj is started with: the global options,
    /// `--ignore-immutable` when asked for, then the command's own arguments.
    pub fn argv(&self) -> (r: Vec<String>)
        ensures
            strings_of(r@) == full_argv(self@),
    {
        let mut argv: Vec<String> = Vec::new();
        push_arg(&mut argv, "--color");
        push_arg(&mut argv, if self.color { "always" } else { "never" });
        push_arg(&mut argv, "--config");
        push_arg(&mut argv, "ui.pager=:builtin");
        push_arg(&mut argv, "--config");
        push_arg(&mut argv, "ui.diff-editor=:builtin");
        push_arg(&mut argv, "--config");
        push_arg(&mut argv, "ui.conflict-marker-style=snapshot");
        push_arg(&mut argv, "--config");
        push_arg(&mut argv, "ui.streampager.interface=full-screen-clear-output");
        push_arg(&mut argv, "--config");
        push_arg(&mut argv, r#"template-aliases."format_short_change_id(id)"=format_short_id(id)"#);
        push_arg(&mut argv, "--config");
        push_arg(&mut argv, r#"template-aliases."format_short_id(id)"=id.shortest(8)"#);
        push_arg(&mut argv, "--config");
        push_arg(&mut argv, r#"template-aliases."format_short_signature(signature)"="coalesce(signature.email(), email_placeholder)""#);
        push_arg(&mut argv, "--config");
        push_arg(&mut argv, r#"template-aliases."format_timestamp(timestamp)"='timestamp.local().format("%Y-%m-%d %H:%M:%S")'"#);
        push_arg(&mut argv, "--config");
        push_arg(&mut argv, r#"templates.log_node=
                coalesce(
                  if(!self, label("elided", "~")),
                  label(
                    separate(" ",
                      if(current_working_copy, "working_copy"),
                      if(immutable, "immutable"),
                      if(conflict, "conflict"),
                    ),
                    coalesce(
                      if(current_working_copy, "@"),
                      if(root, "┴"),
                      if(immutable, "●"),
                      if(conflict, "⊗"),
                      "○",
                    )
                  )
                )
            "#);
        push_arg(&mut argv, "--repository");
        push_arg(&mut argv, self.global_args.repository.as_str());
        assert(strings_of(argv@) =~= base_args(self.color, self.global_args.repository@));
        push_flag(&mut argv, self.global_args.ignore_immutable, "--ignore-immutable");
        let mut i: usize = 0;
        let ghost prefix = strings_of(argv@);
        while i < self.args.len()
            invariant
                0 <= i <= self.args@.len(),
                strings_of(argv@) == prefix + strings_of(self.args@).take(i as int),
            decreases self.args@.len() - i,
        {
            push_arg(&mut argv, self.args[i].as_str());
            assert(strings_of(self.args@).take(i + 1) =~= strings_of(self.args@).take(i as int).push(
                self.args@[i as int]@,
            ));
            i = i + 1;
        }
        assert(strings_of(self.args@).take(self.args@.len() as int) =~= strings_of(self.args@));
        argv
    }

    /// What running this command yields, given the outcome of its process.
    pub fn run(&self, output: ProcessOutput) -> (r: Result<String, JjCommandError>)
        ensures
            match run_result(self@, output.success, output.stdout@, output.stderr@) {
                Ok(s) => r matches Ok(x) && x@ == s,
                Err(e) => r matches Err(JjCommandError::Failed { stderr: x }) && x@ == e,
            },
    {
        let ProcessOutput { success, stdout, stderr } = output;
        let (stdout, stderr) = match self.interactive_term {
            Some(_) => (String::new(), strip_non_style_ansi(stderr.as_str())),
            None => (stdout, stderr),
        };
        if !success {
            return Err(JjCommandError::new_failed(stderr));
        }
        match self.return_output {
            ReturnOutput::Combined => Ok(combine_output(stdout, stderr)),
            ReturnOutput::Stdout => Ok(stdout),
            ReturnOutput::Stderr => Ok(stderr),
        }
    }

    /// The commits of `revset`, each rendered as a line of structured fields
    /// between markers followed by jj's compact log line.
    pub fn jj_log(revset: &str, global_args: GlobalArgs) -> (r: Self)
        ensures
            r@ == synced(
                seq!["log"@, "--template"@, log_template(), "--revisions"@, revset@],
                global_args@,
                false,
                ReturnOutput::Stdout,
            ),
    {
        let template = log_template_exec();
        let mut args: Vec<String> = Vec::new();
        push_arg(&mut args, "log");
        push_arg(&mut args, "--template");
        push_arg(&mut args, template.as_str());
        push_arg(&mut args, "--revisions");
        push_arg(&mut args, revset);
        assert(strings_of(args@) =~= seq!["log"@, "--template"@, log_template(), "--revisions"@, revset@]);
        Self::new(args, global_args, None, ReturnOutput::Stdout)
    }

    /// The ids, bookmarks, tags and workspaces of the revisions in `revset`, one per line.
    pub fn jj_log_targets(revset: &str, global_args: GlobalArgs) -> (r: Self)
        ensures
            r@ == uncolored(seq!["log"@, "--no-graph"@, "--revisions"@, revset@, "-T"@, r#"change_id.shortest(8) ++ "\n" ++ commit_id.shortest(8) ++ "\n" ++ local_bookmarks.map(|b| b.name()).join("\n") ++ "\n" ++ remote_bookmarks.filter(|b| b.remote() != "git").map(|b| b.name() ++ "@" ++ b.remote()).join("\n") ++ "\n" ++ tags.map(|t| t.name()).join("\n") ++ "\n" ++ working_copies ++ "\n""#@], global_args@, ReturnOutput::Stdout),
    {
        let mut args: Vec<String> = Vec::new();
        push_arg(&mut args, "log");
        push_arg(&mut args, "--no-graph");
        push_arg(&mut args, "--revisions");
        push_arg(&mut args, revset);
        push_arg(&mut args, "-T");
        push_arg(&mut args, r#"change_id.shortest(8) ++ "\n" ++ commit_id.shortest(8) ++ "\n" ++ local_bookmarks.map(|b| b.name()).join("\n") ++ "\n" ++ remote_bookmarks.filter(|b| b.remote() != "git").map(|b| b.name() ++ "@" ++ b.remote()).join("\n") ++ "\n" ++ tags.map(|t| t.name()).join("\n") ++ "\n" ++ working_copies ++ "\n""#);
        assert(strings_of(args@) =~= seq!["log"@, "--no-graph"@, "--revisions"@, revset@, "-T"@, r#"change_id.shortest(8) ++ "\n" ++ commit_id.shortest(8) ++ "\n" ++ local_bookmarks.map(|b| b.name()).join("\n") ++ "\n" ++ remote_bookmarks.filter(|b| b.remote() != "git").map(|b| b.name() ++ "@" ++ b.remote()).join("\n") ++ "\n" ++ tags.map(|t| t.name()).join("\n") ++ "\n" ++ working_copies ++ "\n""#@]);
        Self::new_no_color(args, global_args, ReturnOutput::Stdout)
    }


    /// The per-file change summary of a revision.
    pub fn jj_diff_summary(change_id: &str, global_args: GlobalArgs) -> (r: Self)
        ensures
            r@ == synced(seq!["diff"@, "--ignore-working-copy"@, "--summary"@, "--revisions"@, change_id@], global_args@, false, ReturnOutput::Stdout),
    {
        let mut args: Vec<String> = Vec::new();
        push_arg(&mut args, "diff");
        push_arg(&mut args, "--ignore-working-copy");
        push_arg(&mut args, "--summary");
        push_arg(&mut args, "--revisions");
        push_arg(&mut args, change_id);
        assert(strings_of(args@) =~= seq!["diff"@, "--ignore-working-copy"@, "--summary"@, "--revisions"@, change_id@]);
        Self::new(args, global_args, None, ReturnOutput::Stdout)
    }


    /// The git-format diff of a revision.
    pub fn jj_diff_git(change_id: &str, global_args: GlobalArgs) -> (r: Self)
        ensures
            r@ == uncolored(seq!["diff"@, "--ignore-working-copy"@, "--git"@, "--revisions"@, change_id@], global_args@, ReturnOutput::Stdout),
    {
        let args = diff_git_args(change_id);
        Self::new_no_color(args, global_args, ReturnOutput::Stdout)
    }

    /// The plain git-format diff of one file.
    pub fn jj_diff_git_file(change_id: &str, file: &str, global_args: GlobalArgs) -> (r: Self)
        ensures
            r@ == uncolored(seq!["diff"@, "--ignore-working-copy"@, "--git"@, "--revisions"@, change_id@, file@], global_args@, ReturnOutput::Stdout),
    {
        let args = diff_git_file_args(change_id, file);
        Self::new_no_color(args, global_args, ReturnOutput::Stdout)
    }

    /// The colored git-format diff of one file.
    pub fn jj_diff_git_file_colored(change_id: &str, file: &str, global_args: GlobalArgs) -> (r: Self)
        ensures
            r@ == synced(seq!["diff"@, "--ignore-working-copy"@, "--git"@, "--revisions"@, change_id@, file@], global_args@, false, ReturnOutput::Stdout),
    {
        let args = diff_git_file_args(change_id, file);
        Self::new(args, global_args, None, ReturnOutput::Stdout)
    }

    /// Show the diff of one file in the pager.
    pub fn jj_diff_file_interactive(change_id: &str, file: &str, global_args: GlobalArgs, term: Term) -> (r: Self)
        ensures
            r@ == unsynced(seq!["diff"@, "--revisions"@, change_id@, file@], global_args@, true, ReturnOutput::Stderr),
    {
        let mut args: Vec<String> = Vec::new();
        push_arg(&mut args, "diff");
        push_arg(&mut args, "--revisions");
        push_arg(&mut args, change_id);
        push_arg(&mut args, file);
        assert(strings_of(args@) =~= seq!["diff"@, "--revisions"@, change_id@, file@]);
        Self::new_skip_sync(args, global_args, Some(term), ReturnOutput::Stderr)
    }


    /// Show the diff between two revisions in the pager.
    pub fn jj_diff_from_to_interactive(from: &str, to: &str, file: Option<&str>, global_args: GlobalArgs, term: Term) -> (r: Self)
        ensures
            r@ == unsynced(seq!["diff"@, "--from"@, from@, "--to"@, to@] + opt_arg(file), global_args@, true, ReturnOutput::Stderr),
    {
        let mut args: Vec<String> = Vec::new();
        push_arg(&mut args, "diff");
        push_arg(&mut args, "--from");
        push_arg(&mut args, from);
        push_arg(&mut args, "--to");
        push_arg(&mut args, to);
        push_opt(&mut args, file);
        assert(strings_of(args@) =~= seq!["diff"@, "--from"@, from@, "--to"@, to@] + opt_arg(file));
        Self::new_skip_sync(args, global_args, Some(term), ReturnOutput::Stderr)
    }


    /// Set a revision's description.
    pub fn jj_describe_with_message(change_id: &str, message: &str, global_args: GlobalArgs) -> (r: Self)
        ensures
            r@ == synced(seq!["describe"@, change_id@, "-m"@, message@], global_args@, false, ReturnOutput::Stderr),
    {
        let mut args: Vec<String> = Vec::new();
        push_arg(&mut args, "describe");
        push_arg(&mut args, change_id);
        push_arg(&mut args, "-m");
        push_arg(&mut args, message);
        assert(strings_of(args@) =~= seq!["describe"@, change_id@, "-m"@, message@]);
        Self::new(args, global_args, None, ReturnOutput::Stderr)
    }


    /// Fetch a change's full description text (all lines, not just the first).
    /// Non-interactive; the output is the raw description, to be trimmed before use.
    pub fn jj_description(change_id: &str, global_args: GlobalArgs) -> (r: Self)
        ensures
            r@ == uncolored(seq!["log"@, "--ignore-working-copy"@, "--no-graph"@, "--revisions"@, change_id@, "-T"@, "description"@], global_args@, ReturnOutput::Stdout),
    {
        let args = description_args(change_id);
        Self::new_no_color(args, global_args, ReturnOutput::Stdout)
    }

    /// Duplicate a revision, optionally onto a destination (given only when both its kind and value are).
    pub fn jj_duplicate(change_id: &str, destination_type: Option<&str>, destination: Option<&str>, global_args: GlobalArgs) -> (r: Self)
        ensures
            r@ == synced(seq!["duplicate"@, change_id@] + opt_pair(destination_type, destination), global_args@, false, ReturnOutput::Stderr),
    {
        let mut args: Vec<String> = Vec::new();
        push_arg(&mut args, "duplicate");
        push_arg(&mut args, change_id);
        push_pair(&mut args, destination_type, destination);
        assert(strings_of(args@) =~= seq!["duplicate"@, change_id@] + opt_pair(destination_type, destination));
        Self::new(args, global_args, None, ReturnOutput::Stderr)
    }


    /// Create a new change on `target`.
    pub fn jj_new(target: &str, flags: &[&str], global_args: GlobalArgs) -> (r: Self)
        ensures
            r@ == synced(seq!["new"@] + strs_of(flags@) + seq![target@], global_args@, false, ReturnOutput::Stderr),
    {
        let mut args: Vec<String> = Vec::new();
        push_arg(&mut args, "new");
        push_all(&mut args, flags);
        push_arg(&mut args, target);
        assert(strings_of(args@) =~= seq!["new"@] + strs_of(flags@) + seq![target@]);
        Self::new(args, global_args, None, ReturnOutput::Stderr)
    }


    /// Create a merge change of two parents.
    pub fn jj_new_merge(first_parent: &str, second_parent: &str, message: &str, global_args: GlobalArgs) -> (r: Self)
        ensures
            r@ == synced(seq!["new"@, "--message"@, message@, first_parent@, second_parent@], global_args@, false, ReturnOutput::Stderr),
    {
        let args = new_merge_args(first_parent, second_parent, message);
        Self::new(args, global_args, None, ReturnOutput::Stderr)
    }

    /// Make the revisions in `revset` siblings.
    pub fn jj_parallelize(revset: &str, global_args: GlobalArgs) -> (r: Self)
        ensures
            r@ == synced(seq!["parallelize"@, revset@], global_args@, false, ReturnOutput::Stderr),
    {
        let mut args: Vec<String> = Vec::new();
        push_arg(&mut args, "parallelize");
        push_arg(&mut args, revset);
        assert(strings_of(args@) =~= seq!["parallelize"@, revset@]);
        Self::new(args, global_args, None, ReturnOutput::Stderr)
    }


    /// Move the working copy to a child or parent.
    pub fn jj_next_prev(direction: &str, mode: Option<&str>, offset: Option<&str>, global_args: GlobalArgs) -> (r: Self)
        ensures
            r@ == synced(seq![direction@] + opt_arg(mode) + opt_arg(offset), global_args@, false, ReturnOutput::Stderr),
    {
        let mut args: Vec<String> = Vec::new();
        push_arg(&mut args, direction);
        push_opt(&mut args, mode);
        push_opt(&mut args, offset);
        assert(strings_of(args@) =~= seq![direction@] + opt_arg(mode) + opt_arg(offset));
        Self::new(args, global_args, None, ReturnOutput::Stderr)
    }


    /// Abandon a revision.
    pub fn jj_abandon(change_id: &str, mode: Option<&str>, global_args: GlobalArgs) -> (r: Self)
        ensures
            r@ == synced(seq!["abandon"@] + opt_arg(mode) + seq![change_id@], global_args@, false, ReturnOutput::Stderr),
    {
        let mut args: Vec<String> = Vec::new();
        push_arg(&mut args, "abandon");
        push_opt(&mut args, mode);
        push_arg(&mut args, change_id);
        assert(strings_of(args@) =~= seq!["abandon"@] + opt_arg(mode) + seq![change_id@]);
        Self::new(args, global_args, None, ReturnOutput::Stderr)
    }


    /// Move changes from a revision into the ancestors that last touched those lines.
    pub fn jj_absorb(from_change_id: &str, maybe_into_change_id: Option<&str>, maybe_file_path: Option<&str>, global_args: GlobalArgs) -> (r: Self)
        ensures
            r@ == synced(seq!["absorb"@, "--from"@, from_change_id@] + opt_flagged("--into"@, maybe_into_change_id) + opt_arg(maybe_file_path), global_args@, false, ReturnOutput::Stderr),
    {
        let mut args: Vec<String> = Vec::new();
        push_arg(&mut args, "absorb");
        push_arg(&mut args, "--from");
        push_arg(&mut args, from_change_id);
        push_opt_flagged(&mut args, "--into", maybe_into_change_id);
        push_opt(&mut args, maybe_file_path);
        assert(strings_of(args@) =~= seq!["absorb"@, "--from"@, from_change_id@] + opt_flagged("--into"@, maybe_into_change_id) + opt_arg(maybe_file_path));
        Self::new(args, global_args, None, ReturnOutput::Stderr)
    }


    /// Apply the reverse of a revision at a destination.
    pub fn jj_revert(revision: &str, destination_type: &str, destination: &str, global_args: GlobalArgs) -> (r: Self)
        ensures
            r@ == synced(seq!["revert"@, "-r"@, revision@, destination_type@, destination@], global_args@, false, ReturnOutput::Stderr),
    {
        let mut args: Vec<String> = Vec::new();
        push_arg(&mut args, "revert");
        push_arg(&mut args, "-r");
        push_arg(&mut args, revision);
        push_arg(&mut args, destination_type);
        push_arg(&mut args, destination);
        assert(strings_of(args@) =~= seq!["revert"@, "-r"@, revision@, destination_type@, destination@]);
        Self::new(args, global_args, None, ReturnOutput::Stderr)
    }


    /// Sign or unsign revisions.
    pub fn jj_sign(action: &str, revset: &str, global_args: GlobalArgs) -> (r: Self)
        ensures
            r@ == synced(seq![action@, "-r"@, revset@], global_args@, false, ReturnOutput::Stderr),
    {
        let mut args: Vec<String> = Vec::new();
        push_arg(&mut args, action);
        push_arg(&mut args, "-r");
        push_arg(&mut args, revset);
        assert(strings_of(args@) =~= seq![action@, "-r"@, revset@]);
        Self::new(args, global_args, None, ReturnOutput::Stderr)
    }


    /// Show a revision in the pager.
    pub fn jj_show(change_id: &str, global_args: GlobalArgs, term: Term) -> (r: Self)
        ensures
            r@ == unsynced(seq!["show"@, change_id@], global_args@, true, ReturnOutput::Stderr),
    {
        let mut args: Vec<String> = Vec::new();
        push_arg(&mut args, "show");
        push_arg(&mut args, change_id);
        assert(strings_of(args@) =~= seq!["show"@, change_id@]);
        Self::new_skip_sync(args, global_args, Some(term), ReturnOutput::Stderr)
    }


    /// Show the working copy status in the pager.
    pub fn jj_status(global_args: GlobalArgs, term: Term) -> (r: Self)
        ensures
            r@ == unsynced(seq!["status"@], global_args@, true, ReturnOutput::Stderr),
    {
        let mut args: Vec<String> = Vec::new();
        push_arg(&mut args, "status");
        assert(strings_of(args@) =~= seq!["status"@]);
        Self::new_skip_sync(args, global_args, Some(term), ReturnOutput::Stderr)
    }


    /// Remove redundant parent edges.
    pub fn jj_simplify_parents(revision: &str, mode: &str, global_args: GlobalArgs) -> (r: Self)
        ensures
            r@ == synced(seq!["simplify-parents"@, mode@, revision@], global_args@, false, ReturnOutput::Stderr),
    {
        let mut args: Vec<String> = Vec::new();
        push_arg(&mut args, "simplify-parents");
        push_arg(&mut args, mode);
        push_arg(&mut args, revision);
        assert(strings_of(args@) =~= seq!["simplify-parents"@, mode@, revision@]);
        Self::new(args, global_args, None, ReturnOutput::Stderr)
    }


    /// Undo the last operation.
    pub fn jj_undo(global_args: GlobalArgs) -> (r: Self)
        ensures
            r@ == synced(seq!["undo"@], global_args@, false, ReturnOutput::Stderr),
    {
        let mut args: Vec<String> = Vec::new();
        push_arg(&mut args, "undo");
        assert(strings_of(args@) =~= seq!["undo"@]);
        Self::new(args, global_args, None, ReturnOutput::Stderr)
    }


    /// Redo the last undone operation.
    pub fn jj_redo(global_args: GlobalArgs) -> (r: Self)
        ensures
            r@ == synced(seq!["redo"@], global_args@, false, ReturnOutput::Stderr),
    {
        let mut args: Vec<String> = Vec::new();
        push_arg(&mut args, "redo");
        assert(strings_of(args@) =~= seq!["redo"@]);
        Self::new(args, global_args, None, ReturnOutput::Stderr)
    }


    /// Commit the working copy with a message.
    pub fn jj_commit_with_message(message: &str, maybe_file_path: Option<&str>, global_args: GlobalArgs) -> (r: Self)
        ensures
            r@ == synced(seq!["commit"@, "--message"@, message@] + opt_arg(maybe_file_path), global_args@, false, ReturnOutput::Stderr),
    {
        let args = commit_message_args(message, maybe_file_path);
        Self::new(args, global_args, None, ReturnOutput::Stderr)
    }

    /// Rebase revisions.
    pub fn jj_rebase(source_type: &str, source: &str, destination_type: &str, destination: &str, global_args: GlobalArgs) -> (r: Self)
        ensures
            r@ == synced(seq!["rebase"@, source_type@, source@, destination_type@, destination@], global_args@, false, ReturnOutput::Stderr),
    {
        let mut args: Vec<String> = Vec::new();
        push_arg(&mut args, "rebase");
        push_arg(&mut args, source_type);
        push_arg(&mut args, source);
        push_arg(&mut args, destination_type);
        push_arg(&mut args, destination);
        assert(strings_of(args@) =~= seq!["rebase"@, source_type@, source@, destination_type@, destination@]);
        Self::new(args, global_args, None, ReturnOutput::Stderr)
    }


    /// Split a revision interactively.
    pub fn jj_split(change_id: &str, message: &str, destination_type: Option<&str>, destination: Option<&str>, parallel: bool, global_args: GlobalArgs, term: Term) -> (r: Self)
        ensures
            r@ == synced(seq!["split"@, "--revision"@, change_id@, "--message"@, message@] + flag_arg(parallel, "--parallel"@) + opt_pair(destination_type, destination), global_args@, true, ReturnOutput::Stderr),
    {
        let args = split_args(change_id, message, parallel, destination_type, destination);
        Self::new(args, global_args, Some(term), ReturnOutput::Stderr)
    }

    /// Resolve conflicts with meld, which auto-merges the clean hunks and presents only
    /// real conflicts for editing.
    pub fn jj_resolve(change_id: &str, maybe_file_path: Option<&str>, global_args: GlobalArgs, term: Term) -> (r: Self)
        ensures
            r@ == synced(seq!["resolve"@, "--tool"@, "meld"@, "-r"@, change_id@] + opt_arg(maybe_file_path), global_args@, true, ReturnOutput::Stderr),
    {
        let mut args: Vec<String> = Vec::new();
        push_arg(&mut args, "resolve");
        push_arg(&mut args, "--tool");
        push_arg(&mut args, "meld");
        push_arg(&mut args, "-r");
        push_arg(&mut args, change_id);
        push_opt(&mut args, maybe_file_path);
        assert(strings_of(args@) =~= seq!["resolve"@, "--tool"@, "meld"@, "-r"@, change_id@] + opt_arg(maybe_file_path));
        Self::new(args, global_args, Some(term), ReturnOutput::Stderr)
    }


    /// Restore paths from another revision.
    pub fn jj_restore(flags: &[&str], maybe_file_path: Option<&str>, global_args: GlobalArgs) -> (r: Self)
        ensures
            r@ == synced(seq!["restore"@] + strs_of(flags@) + opt_arg(maybe_file_path), global_args@, false, ReturnOutput::Stderr),
    {
        let mut args: Vec<String> = Vec::new();
        push_arg(&mut args, "restore");
        push_all(&mut args, flags);
        push_opt(&mut args, maybe_file_path);
        assert(strings_of(args@) =~= seq!["restore"@] + strs_of(flags@) + opt_arg(maybe_file_path));
        Self::new(args, global_args, None, ReturnOutput::Stderr)
    }


    /// Squash a revision into its parent.
    pub fn jj_squash_noninteractive(change_id: &str, maybe_file_path: Option<&str>, global_args: GlobalArgs) -> (r: Self)
        ensures
            r@ == synced(seq!["squash"@, "--revision"@, change_id@] + opt_arg(maybe_file_path), global_args@, false, ReturnOutput::Stderr),
    {
        let mut args: Vec<String> = Vec::new();
        push_arg(&mut args, "squash");
        push_arg(&mut args, "--revision");
        push_arg(&mut args, change_id);
        push_opt(&mut args, maybe_file_path);
        assert(strings_of(args@) =~= seq!["squash"@, "--revision"@, change_id@] + opt_arg(maybe_file_path));
        Self::new(args, global_args, None, ReturnOutput::Stderr)
    }


    /// Squash a revision into its parent, editing the description.
    pub fn jj_squash_interactive(change_id: &str, maybe_file_path: Option<&str>, global_args: GlobalArgs, term: Term) -> (r: Self)
        ensures
            r@ == synced(seq!["squash"@, "--revision"@, change_id@] + opt_arg(maybe_file_path), global_args@, true, ReturnOutput::Stderr),
    {
        let mut args: Vec<String> = Vec::new();
        push_arg(&mut args, "squash");
        push_arg(&mut args, "--revision");
        push_arg(&mut args, change_id);
        push_opt(&mut args, maybe_file_path);
        assert(strings_of(args@) =~= seq!["squash"@, "--revision"@, change_id@] + opt_arg(maybe_file_path));
        Self::new(args, global_args, Some(term), ReturnOutput::Stderr)
    }


    /// Squash one revision into another.
    pub fn jj_squash_into_interactive(from_change_id: &str, into_change_id: &str, maybe_file_path: Option<&str>, global_args: GlobalArgs, term: Term) -> (r: Self)
        ensures
            r@ == synced(seq!["squash"@, "--from"@, from_change_id@, "--into"@, into_change_id@] + opt_arg(maybe_file_path), global_args@, true, ReturnOutput::Stderr),
    {
        let mut args: Vec<String> = Vec::new();
        push_arg(&mut args, "squash");
        push_arg(&mut args, "--from");
        push_arg(&mut args, from_change_id);
        push_arg(&mut args, "--into");
        push_arg(&mut args, into_change_id);
        push_opt(&mut args, maybe_file_path);
        assert(strings_of(args@) =~= seq!["squash"@, "--from"@, from_change_id@, "--into"@, into_change_id@] + opt_arg(maybe_file_path));
        Self::new(args, global_args, Some(term), ReturnOutput::Stderr)
    }


    /// Make a revision the working copy.
    pub fn jj_edit(change_id: &str, global_args: GlobalArgs) -> (r: Self)
        ensures
            r@ == synced(seq!["edit"@, change_id@], global_args@, false, ReturnOutput::Stderr),
    {
        let mut args: Vec<String> = Vec::new();
        push_arg(&mut args, "edit");
        push_arg(&mut args, change_id);
        assert(strings_of(args@) =~= seq!["edit"@, change_id@]);
        Self::new(args, global_args, None, ReturnOutput::Stderr)
    }


    /// Show how a change evolved, in the pager.
    pub fn jj_evolog(change_id: &str, patch: bool, global_args: GlobalArgs, term: Term) -> (r: Self)
        ensures
            r@ == unsynced(seq!["evolog"@, "-r"@, change_id@] + flag_arg(patch, "--patch"@), global_args@, true, ReturnOutput::Stderr),
    {
        let mut args: Vec<String> = Vec::new();
        push_arg(&mut args, "evolog");
        push_arg(&mut args, "-r");
        push_arg(&mut args, change_id);
        push_flag(&mut args, patch, "--patch");
        assert(strings_of(args@) =~= seq!["evolog"@, "-r"@, change_id@] + flag_arg(patch, "--patch"@));
        Self::new_skip_sync(args, global_args, Some(term), ReturnOutput::Stderr)
    }


    /// Show the difference between the changes of two revisions, in the pager.
    pub fn jj_interdiff(from: &str, to: &str, maybe_file_path: Option<&str>, global_args: GlobalArgs, term: Term) -> (r: Self)
        ensures
            r@ == unsynced(seq!["interdiff"@, "--from"@, from@, "--to"@, to@] + opt_arg(maybe_file_path), global_args@, true, ReturnOutput::Stderr),
    {
        let mut args: Vec<String> = Vec::new();
        push_arg(&mut args, "interdiff");
        push_arg(&mut args, "--from");
        push_arg(&mut args, from);
        push_arg(&mut args, "--to");
        push_arg(&mut args, to);
        push_opt(&mut args, maybe_file_path);
        assert(strings_of(args@) =~= seq!["interdiff"@, "--from"@, from@, "--to"@, to@] + opt_arg(maybe_file_path));
        Self::new_skip_sync(args, global_args, Some(term), ReturnOutput::Stderr)
    }


    /// List the tracked files.
    pub fn jj_file_list(global_args: GlobalArgs) -> (r: Self)
        ensures
            r@ == uncolored(seq!["file"@, "list"@], global_args@, ReturnOutput::Stdout),
    {
        let mut args: Vec<String> = Vec::new();
        push_arg(&mut args, "file");
        push_arg(&mut args, "list");
        assert(strings_of(args@) =~= seq!["file"@, "list"@]);
        Self::new_no_color(args, global_args, ReturnOutput::Stdout)
    }


    /// Print a file's content at a revision.
    pub fn jj_file_show(change_id: &str, file_path: &str, global_args: GlobalArgs) -> (r: Self)
        ensures
            r@ == uncolored(seq!["file"@, "show"@, "--revision"@, change_id@, file_path@], global_args@, ReturnOutput::Stdout),
    {
        let mut args: Vec<String> = Vec::new();
        push_arg(&mut args, "file");
        push_arg(&mut args, "show");
        push_arg(&mut args, "--revision");
        push_arg(&mut args, change_id);
        push_arg(&mut args, file_path);
        assert(strings_of(args@) =~= seq!["file"@, "show"@, "--revision"@, change_id@, file_path@]);
        Self::new_no_color(args, global_args, ReturnOutput::Stdout)
    }


    /// Start tracking a path.
    pub fn jj_file_track(file_path: &str, global_args: GlobalArgs) -> (r: Self)
        ensures
            r@ == synced(seq!["file"@, "track"@, file_path@], global_args@, false, ReturnOutput::Stderr),
    {
        let mut args: Vec<String> = Vec::new();
        push_arg(&mut args, "file");
        push_arg(&mut args, "track");
        push_arg(&mut args, file_path);
        assert(strings_of(args@) =~= seq!["file"@, "track"@, file_path@]);
        Self::new(args, global_args, None, ReturnOutput::Stderr)
    }


    /// Stop tracking a path.
    pub fn jj_file_untrack(file_path: &str, global_args: GlobalArgs) -> (r: Self)
        ensures
            r@ == synced(seq!["file"@, "untrack"@, file_path@], global_args@, false, ReturnOutput::Stderr),
    {
        let mut args: Vec<String> = Vec::new();
        push_arg(&mut args, "file");
        push_arg(&mut args, "untrack");
        push_arg(&mut args, file_path);
        assert(strings_of(args@) =~= seq!["file"@, "untrack"@, file_path@]);
        Self::new(args, global_args, None, ReturnOutput::Stderr)
    }


    /// Edit a revision's metadata.
    pub fn jj_metaedit(change_id: &str, flag: &str, value: Option<&str>, global_args: GlobalArgs) -> (r: Self)
        ensures
            r@ == synced(seq!["metaedit"@, flag@] + opt_arg(value) + seq![change_id@], global_args@, false, ReturnOutput::Stderr),
    {
        let mut args: Vec<String> = Vec::new();
        push_arg(&mut args, "metaedit");
        push_arg(&mut args, flag);
        push_opt(&mut args, value);
        push_arg(&mut args, change_id);
        assert(strings_of(args@) =~= seq!["metaedit"@, flag@] + opt_arg(value) + seq![change_id@]);
        Self::new(args, global_args, None, ReturnOutput::Stderr)
    }


    /// Fetch from git remotes.
    pub fn jj_git_fetch(flag: Option<&str>, value: Option<&str>, global_args: GlobalArgs) -> (r: Self)
        ensures
            r@ == synced(seq!["git"@, "fetch"@] + opt_arg(flag) + opt_arg(value), global_args@, false, ReturnOutput::Stderr),
    {
        let mut args: Vec<String> = Vec::new();
        push_arg(&mut args, "git");
        push_arg(&mut args, "fetch");
        push_opt(&mut args, flag);
        push_opt(&mut args, value);
        assert(strings_of(args@) =~= seq!["git"@, "fetch"@] + opt_arg(flag) + opt_arg(value));
        Self::new(args, global_args, None, ReturnOutput::Stderr)
    }


    /// Push to git remotes.
    pub fn jj_git_push(flag: Option<&str>, value: Option<&str>, global_args: GlobalArgs) -> (r: Self)
        ensures
            r@ == synced(seq!["git"@, "push"@] + opt_arg(flag) + opt_arg(value), global_args@, false, ReturnOutput::Stderr),
    {
        let mut args: Vec<String> = Vec::new();
        push_arg(&mut args, "git");
        push_arg(&mut args, "push");
        push_opt(&mut args, flag);
        push_opt(&mut args, value);
        assert(strings_of(args@) =~= seq!["git"@, "push"@] + opt_arg(flag) + opt_arg(value));
        Self::new(args, global_args, None, ReturnOutput::Stderr)
    }


    /// List the git remotes.
    pub fn jj_git_remote_list(global_args: GlobalArgs) -> (r: Self)
        ensures
            r@ == unsynced(seq!["git"@, "remote"@, "list"@], global_args@, false, ReturnOutput::Stdout),
    {
        let mut args: Vec<String> = Vec::new();
        push_arg(&mut args, "git");
        push_arg(&mut args, "remote");
        push_arg(&mut args, "list");
        assert(strings_of(args@) =~= seq!["git"@, "remote"@, "list"@]);
        Self::new_skip_sync(args, global_args, None, ReturnOutput::Stdout)
    }


    /// Create bookmarks at a revision.
    pub fn jj_bookmark_create(bookmark_names: &str, change_id: &str, global_args: GlobalArgs) -> (r: Self)
        ensures
            r@ == synced(seq!["bookmark"@, "create"@, "--revision"@, change_id@, bookmark_names@], global_args@, false, ReturnOutput::Stderr),
    {
        let mut args: Vec<String> = Vec::new();
        push_arg(&mut args, "bookmark");
        push_arg(&mut args, "create");
        push_arg(&mut args, "--revision");
        push_arg(&mut args, change_id);
        push_arg(&mut args, bookmark_names);
        assert(strings_of(args@) =~= seq!["bookmark"@, "create"@, "--revision"@, change_id@, bookmark_names@]);
        Self::new(args, global_args, None, ReturnOutput::Stderr)
    }


    /// Delete bookmarks.
    pub fn jj_bookmark_delete(bookmark_names: &str, global_args: GlobalArgs) -> (r: Self)
        ensures
            r@ == synced(seq!["bookmark"@, "delete"@, bookmark_names@], global_args@, false, ReturnOutput::Stderr),
    {
        let mut args: Vec<String> = Vec::new();
        push_arg(&mut args, "bookmark");
        push_arg(&mut args, "delete");
        push_arg(&mut args, bookmark_names);
        assert(strings_of(args@) =~= seq!["bookmark"@, "delete"@, bookmark_names@]);
        Self::new(args, global_args, None, ReturnOutput::Stderr)
    }


    /// Forget bookmarks.
    pub fn jj_bookmark_forget(bookmark_names: &str, include_remotes: bool, global_args: GlobalArgs) -> (r: Self)
        ensures
            r@ == synced(seq!["bookmark"@, "forget"@] + flag_arg(include_remotes, "--include-remotes"@) + seq![bookmark_names@], global_args@, false, ReturnOutput::Stderr),
    {
        let mut args: Vec<String> = Vec::new();
        push_arg(&mut args, "bookmark");
        push_arg(&mut args, "forget");
        push_flag(&mut args, include_remotes, "--include-remotes");
        push_arg(&mut args, bookmark_names);
        assert(strings_of(args@) =~= seq!["bookmark"@, "forget"@] + flag_arg(include_remotes, "--include-remotes"@) + seq![bookmark_names@]);
        Self::new(args, global_args, None, ReturnOutput::Stderr)
    }


    /// Advance bookmarks to a revision.
    pub fn jj_bookmark_advance(to_change_id: &str, global_args: GlobalArgs) -> (r: Self)
        ensures
            r@ == synced(seq!["bookmark"@, "advance"@, "--to"@, to_change_id@], global_args@, false, ReturnOutput::Stderr),
    {
        let mut args: Vec<String> = Vec::new();
        push_arg(&mut args, "bookmark");
        push_arg(&mut args, "advance");
        push_arg(&mut args, "--to");
        push_arg(&mut args, to_change_id);
        assert(strings_of(args@) =~= seq!["bookmark"@, "advance"@, "--to"@, to_change_id@]);
        Self::new(args, global_args, None, ReturnOutput::Stderr)
    }


    /// List the names of all bookmarks, local and remote.
    pub fn jj_bookmark_list_all_names(global_args: GlobalArgs) -> (r: Self)
        ensures
            r@ == unsynced(seq!["bookmark"@, "list"@, "--all-remotes"@, "-T"@, r#"name ++ "\n""#@], global_args@, false, ReturnOutput::Stdout),
    {
        let mut args: Vec<String> = Vec::new();
        push_arg(&mut args, "bookmark");
        push_arg(&mut args, "list");
        push_arg(&mut args, "--all-remotes");
        push_arg(&mut args, "-T");
        push_arg(&mut args, r#"name ++ "\n""#);
        assert(strings_of(args@) =~= seq!["bookmark"@, "list"@, "--all-remotes"@, "-T"@, r#"name ++ "\n""#@]);
        Self::new_skip_sync(args, global_args, None, ReturnOutput::Stdout)
    }


    /// List the tracked remote bookmarks as `name@remote`.
    pub fn jj_bookmark_list_tracked_remote(global_args: GlobalArgs) -> (r: Self)
        ensures
            r@ == uncolored(seq!["bookmark"@, "list"@, "--tracked"@, "-T"@, r#"if(remote, name ++ "@" ++ remote ++ "\n")"#@], global_args@, ReturnOutput::Stdout),
    {
        let mut args: Vec<String> = Vec::new();
        push_arg(&mut args, "bookmark");
        push_arg(&mut args, "list");
        push_arg(&mut args, "--tracked");
        push_arg(&mut args, "-T");
        push_arg(&mut args, r#"if(remote, name ++ "@" ++ remote ++ "\n")"#);
        assert(strings_of(args@) =~= seq!["bookmark"@, "list"@, "--tracked"@, "-T"@, r#"if(remote, name ++ "@" ++ remote ++ "\n")"#@]);
        Self::new_no_color(args, global_args, ReturnOutput::Stdout)
    }


    /// List the untracked remote bookmarks as `name@remote`.
    pub fn jj_bookmark_list_untracked_remote(global_args: GlobalArgs) -> (r: Self)
        ensures
            r@ == uncolored(seq!["bookmark"@, "list"@, "--all-remotes"@, "-T"@, r#"if(remote && !tracked, name ++ "@" ++ remote ++ "\n")"#@], global_args@, ReturnOutput::Stdout),
    {
        let mut args: Vec<String> = Vec::new();
        push_arg(&mut args, "bookmark");
        push_arg(&mut args, "list");
        push_arg(&mut args, "--all-remotes");
        push_arg(&mut args, "-T");
        push_arg(&mut args, r#"if(remote && !tracked, name ++ "@" ++ remote ++ "\n")"#);
        assert(strings_of(args@) =~= seq!["bookmark"@, "list"@, "--all-remotes"@, "-T"@, r#"if(remote && !tracked, name ++ "@" ++ remote ++ "\n")"#@]);
        Self::new_no_color(args, global_args, ReturnOutput::Stdout)
    }


    /// List all bookmarks, remote ones as `name@remote`.
    pub fn jj_bookmark_list_all_display(global_args: GlobalArgs) -> (r: Self)
        ensures
            r@ == uncolored(seq!["bookmark"@, "list"@, "--all-remotes"@, "-T"@, r#"if(remote, name ++ "@" ++ remote, name) ++ "\n""#@], global_args@, ReturnOutput::Stdout),
    {
        let mut args: Vec<String> = Vec::new();
        push_arg(&mut args, "bookmark");
        push_arg(&mut args, "list");
        push_arg(&mut args, "--all-remotes");
        push_arg(&mut args, "-T");
        push_arg(&mut args, r#"if(remote, name ++ "@" ++ remote, name) ++ "\n""#);
        assert(strings_of(args@) =~= seq!["bookmark"@, "list"@, "--all-remotes"@, "-T"@, r#"if(remote, name ++ "@" ++ remote, name) ++ "\n""#@]);
        Self::new_no_color(args, global_args, ReturnOutput::Stdout)
    }


    /// List the names of the local bookmarks.
    pub fn jj_bookmark_list_local_only_names(global_args: GlobalArgs) -> (r: Self)
        ensures
            r@ == uncolored(seq!["bookmark"@, "list"@, "-T"@, r#"if(!remote, name ++ "\n")"#@], global_args@, ReturnOutput::Stdout),
    {
        let mut args: Vec<String> = Vec::new();
        push_arg(&mut args, "bookmark");
        push_arg(&mut args, "list");
        push_arg(&mut args, "-T");
        push_arg(&mut args, r#"if(!remote, name ++ "\n")"#);
        assert(strings_of(args@) =~= seq!["bookmark"@, "list"@, "-T"@, r#"if(!remote, name ++ "\n")"#@]);
        Self::new_no_color(args, global_args, ReturnOutput::Stdout)
    }


    /// List the names of the conflicted local bookmarks.
    pub fn jj_bookmark_list_conflicted_names(global_args: GlobalArgs) -> (r: Self)
        ensures
            r@ == uncolored(seq!["bookmark"@, "list"@, "--conflicted"@, "-T"@, r#"if(!remote, name ++ "\n")"#@], global_args@, ReturnOutput::Stdout),
    {
        let mut args: Vec<String> = Vec::new();
        push_arg(&mut args, "bookmark");
        push_arg(&mut args, "list");
        push_arg(&mut args, "--conflicted");
        push_arg(&mut args, "-T");
        push_arg(&mut args, r#"if(!remote, name ++ "\n")"#);
        assert(strings_of(args@) =~= seq!["bookmark"@, "list"@, "--conflicted"@, "-T"@, r#"if(!remote, name ++ "\n")"#@]);
        Self::new_no_color(args, global_args, ReturnOutput::Stdout)
    }


    /// Move bookmarks from one revision to another.
    pub fn jj_bookmark_move(from_change_id: &str, to_change_id: &str, allow_backwards: bool, global_args: GlobalArgs) -> (r: Self)
        ensures
            r@ == synced(seq!["bookmark"@, "move"@, "--from"@, from_change_id@, "--to"@, to_change_id@] + flag_arg(allow_backwards, "--allow-backwards"@), global_args@, false, ReturnOutput::Stderr),
    {
        let mut args: Vec<String> = Vec::new();
        push_arg(&mut args, "bookmark");
        push_arg(&mut args, "move");
        push_arg(&mut args, "--from");
        push_arg(&mut args, from_change_id);
        push_arg(&mut args, "--to");
        push_arg(&mut args, to_change_id);
        push_flag(&mut args, allow_backwards, "--allow-backwards");
        assert(strings_of(args@) =~= seq!["bookmark"@, "move"@, "--from"@, from_change_id@, "--to"@, to_change_id@] + flag_arg(allow_backwards, "--allow-backwards"@));
        Self::new(args, global_args, None, ReturnOutput::Stderr)
    }


    /// Rename a bookmark.
    pub fn jj_bookmark_rename(old_bookmark_name: &str, new_bookmark_name: &str, global_args: GlobalArgs) -> (r: Self)
        ensures
            r@ == synced(seq!["bookmark"@, "rename"@, old_bookmark_name@, new_bookmark_name@], global_args@, false, ReturnOutput::Stderr),
    {
        let mut args: Vec<String> = Vec::new();
        push_arg(&mut args, "bookmark");
        push_arg(&mut args, "rename");
        push_arg(&mut args, old_bookmark_name);
        push_arg(&mut args, new_bookmark_name);
        assert(strings_of(args@) =~= seq!["bookmark"@, "rename"@, old_bookmark_name@, new_bookmark_name@]);
        Self::new(args, global_args, None, ReturnOutput::Stderr)
    }


    /// Create or move bookmarks to a revision.
    pub fn jj_bookmark_set(bookmark_names: &str, change_id: &str, allow_backwards: bool, global_args: GlobalArgs) -> (r: Self)
        ensures
            r@ == synced(seq!["bookmark"@, "set"@, bookmark_names@, "--revision"@, change_id@] + flag_arg(allow_backwards, "--allow-backwards"@), global_args@, false, ReturnOutput::Stderr),
    {
        let mut args: Vec<String> = Vec::new();
        push_arg(&mut args, "bookmark");
        push_arg(&mut args, "set");
        push_arg(&mut args, bookmark_names);
        push_arg(&mut args, "--revision");
        push_arg(&mut args, change_id);
        push_flag(&mut args, allow_backwards, "--allow-backwards");
        assert(strings_of(args@) =~= seq!["bookmark"@, "set"@, bookmark_names@, "--revision"@, change_id@] + flag_arg(allow_backwards, "--allow-backwards"@));
        Self::new(args, global_args, None, ReturnOutput::Stderr)
    }


    /// Track a remote bookmark.
    pub fn jj_bookmark_track(bookmark_at_remote: &str, global_args: GlobalArgs) -> (r: Self)
        ensures
            r@ == synced(seq!["bookmark"@, "track"@, bookmark_at_remote@], global_args@, false, ReturnOutput::Stderr),
    {
        let mut args: Vec<String> = Vec::new();
        push_arg(&mut args, "bookmark");
        push_arg(&mut args, "track");
        push_arg(&mut args, bookmark_at_remote);
        assert(strings_of(args@) =~= seq!["bookmark"@, "track"@, bookmark_at_remote@]);
        Self::new(args, global_args, None, ReturnOutput::Stderr)
    }


    /// Stop tracking a remote bookmark.
    pub fn jj_bookmark_untrack(bookmark_at_remote: &str, global_args: GlobalArgs) -> (r: Self)
        ensures
            r@ == synced(seq!["bookmark"@, "untrack"@, bookmark_at_remote@], global_args@, false, ReturnOutput::Stderr),
    {
        let mut args: Vec<String> = Vec::new();
        push_arg(&mut args, "bookmark");
        push_arg(&mut args, "untrack");
        push_arg(&mut args, bookmark_at_remote);
        assert(strings_of(args@) =~= seq!["bookmark"@, "untrack"@, bookmark_at_remote@]);
        Self::new(args, global_args, None, ReturnOutput::Stderr)
    }


    /// List the workspace names.
    pub fn jj_workspace_list_names(global_args: GlobalArgs) -> (r: Self)
        ensures
            r@ == uncolored(seq!["workspace"@, "list"@, "--ignore-working-copy"@, "-T"@, r#"name ++ "\n""#@], global_args@, ReturnOutput::Stdout),
    {
        let mut args: Vec<String> = Vec::new();
        push_arg(&mut args, "workspace");
        push_arg(&mut args, "list");
        push_arg(&mut args, "--ignore-working-copy");
        push_arg(&mut args, "-T");
        push_arg(&mut args, r#"name ++ "\n""#);
        assert(strings_of(args@) =~= seq!["workspace"@, "list"@, "--ignore-working-copy"@, "-T"@, r#"name ++ "\n""#@]);
        Self::new_no_color(args, global_args, ReturnOutput::Stdout)
    }


    /// Print the current workspace's name.
    pub fn jj_workspace_list_current_name(global_args: GlobalArgs) -> (r: Self)
        ensures
            r@ == uncolored(seq!["workspace"@, "list"@, "--ignore-working-copy"@, "-T"@, r#"if(target.current_working_copy(), name ++ "\n")"#@], global_args@, ReturnOutput::Stdout),
    {
        let mut args: Vec<String> = Vec::new();
        push_arg(&mut args, "workspace");
        push_arg(&mut args, "list");
        push_arg(&mut args, "--ignore-working-copy");
        push_arg(&mut args, "-T");
        push_arg(&mut args, r#"if(target.current_working_copy(), name ++ "\n")"#);
        assert(strings_of(args@) =~= seq!["workspace"@, "list"@, "--ignore-working-copy"@, "-T"@, r#"if(target.current_working_copy(), name ++ "\n")"#@]);
        Self::new_no_color(args, global_args, ReturnOutput::Stdout)
    }


    /// Add a workspace.
    pub fn jj_workspace_add(destination: &str, name: Option<&str>, global_args: GlobalArgs) -> (r: Self)
        ensures
            r@ == synced(seq!["workspace"@, "add"@] + opt_flagged("--name"@, name) + seq![destination@], global_args@, false, ReturnOutput::Stderr),
    {
        let mut args: Vec<String> = Vec::new();
        push_arg(&mut args, "workspace");
        push_arg(&mut args, "add");
        push_opt_flagged(&mut args, "--name", name);
        push_arg(&mut args, destination);
        assert(strings_of(args@) =~= seq!["workspace"@, "add"@] + opt_flagged("--name"@, name) + seq![destination@]);
        Self::new(args, global_args, None, ReturnOutput::Stderr)
    }


    /// Forget workspaces.
    pub fn jj_workspace_forget(names: &[&str], global_args: GlobalArgs) -> (r: Self)
        ensures
            r@ == synced(seq!["workspace"@, "forget"@] + strs_of(names@), global_args@, false, ReturnOutput::Stderr),
    {
        let mut args: Vec<String> = Vec::new();
        push_arg(&mut args, "workspace");
        push_arg(&mut args, "forget");
        push_all(&mut args, names);
        assert(strings_of(args@) =~= seq!["workspace"@, "forget"@] + strs_of(names@));
        Self::new(args, global_args, None, ReturnOutput::Stderr)
    }


    /// Rename the current workspace.
    pub fn jj_workspace_rename(new_name: &str, global_args: GlobalArgs) -> (r: Self)
        ensures
            r@ == synced(seq!["workspace"@, "rename"@, new_name@], global_args@, false, ReturnOutput::Stderr),
    {
        let mut args: Vec<String> = Vec::new();
        push_arg(&mut args, "workspace");
        push_arg(&mut args, "rename");
        push_arg(&mut args, new_name);
        assert(strings_of(args@) =~= seq!["workspace"@, "rename"@, new_name@]);
        Self::new(args, global_args, None, ReturnOutput::Stderr)
    }


    /// Update a stale working copy.
    pub fn jj_workspace_update_stale(global_args: GlobalArgs) -> (r: Self)
        ensures
            r@ == synced(seq!["workspace"@, "update-stale"@], global_args@, false, ReturnOutput::Stderr),
    {
        let mut args: Vec<String> = Vec::new();
        push_arg(&mut args, "workspace");
        push_arg(&mut args, "update-stale");
        assert(strings_of(args@) =~= seq!["workspace"@, "update-stale"@]);
        Self::new(args, global_args, None, ReturnOutput::Stderr)
    }
}

/// Arguments of `jj diff --git` for one revision.
pub fn diff_git_args(change_id: &str) -> (r: Vec<String>)
    ensures
        strings_of(r@) == seq!["diff"@, "--ignore-working-copy"@, "--git"@, "--revisions"@, change_id@],
{
    let mut args: Vec<String> = Vec::new();
    push_arg(&mut args, "diff");
    push_arg(&mut args, "--ignore-working-copy");
    push_arg(&mut args, "--git");
    push_arg(&mut args, "--revisions");
    push_arg(&mut args, change_id);
    assert(strings_of(args@) =~= seq!["diff"@, "--ignore-working-copy"@, "--git"@, "--revisions"@, change_id@]);
    args
}


/// Arguments of `jj new` creating a merge of two parents with a message.
pub fn new_merge_args(first: &str, second: &str, message: &str) -> (r: Vec<String>)
    ensures
        strings_of(r@) == seq!["new"@, "--message"@, message@, first@, second@],
{
    let mut args: Vec<String> = Vec::new();
    push_arg(&mut args, "new");
    push_arg(&mut args, "--message");
    push_arg(&mut args, message);
    push_arg(&mut args, first);
    push_arg(&mut args, second);
    assert(strings_of(args@) =~= seq!["new"@, "--message"@, message@, first@, second@]);
    args
}


/// Arguments of `jj commit` with a message, optionally limited to one path.
pub fn commit_message_args(message: &str, maybe_file_path: Option<&str>) -> (r: Vec<String>)
    ensures
        strings_of(r@) == seq!["commit"@, "--message"@, message@] + opt_arg(maybe_file_path),
{
    let mut args: Vec<String> = Vec::new();
    push_arg(&mut args, "commit");
    push_arg(&mut args, "--message");
    push_arg(&mut args, message);
    push_opt(&mut args, maybe_file_path);
    assert(strings_of(args@) =~= seq!["commit"@, "--message"@, message@] + opt_arg(maybe_file_path));
    args
}


/// Arguments of `jj split`; the destination is passed only when both its kind and value are given.
pub fn split_args(change_id: &str, message: &str, parallel: bool, destination_type: Option<&str>, destination: Option<&str>) -> (r: Vec<String>)
    ensures
        strings_of(r@) == seq!["split"@, "--revision"@, change_id@, "--message"@, message@] + flag_arg(parallel, "--parallel"@) + opt_pair(destination_type, destination),
{
    let mut args: Vec<String> = Vec::new();
    push_arg(&mut args, "split");
    push_arg(&mut args, "--revision");
    push_arg(&mut args, change_id);
    push_arg(&mut args, "--message");
    push_arg(&mut args, message);
    push_flag(&mut args, parallel, "--parallel");
    push_pair(&mut args, destination_type, destination);
    assert(strings_of(args@) =~= seq!["split"@, "--revision"@, change_id@, "--message"@, message@] + flag_arg(parallel, "--parallel"@) + opt_pair(destination_type, destination));
    args
}


/// Arguments of the `jj log` call that prints a revision's full description.
pub fn description_args(change_id: &str) -> (r: Vec<String>)
    ensures
        strings_of(r@) == seq!["log"@, "--ignore-working-copy"@, "--no-graph"@, "--revisions"@, change_id@, "-T"@, "description"@],
{
    let mut args: Vec<String> = Vec::new();
    push_arg(&mut args, "log");
    push_arg(&mut args, "--ignore-working-copy");
    push_arg(&mut args, "--no-graph");
    push_arg(&mut args, "--revisions");
    push_arg(&mut args, change_id);
    push_arg(&mut args, "-T");
    push_arg(&mut args, "description");
    assert(strings_of(args@) =~= seq!["log"@, "--ignore-working-copy"@, "--no-graph"@, "--revisions"@, change_id@, "-T"@, "description"@]);
    args
}


/// Arguments of `jj diff --git` for one file of one revision.
pub fn diff_git_file_args(change_id: &str, file: &str) -> (r: Vec<String>)
    ensures
        strings_of(r@) == seq!["diff"@, "--ignore-working-copy"@, "--git"@, "--revisions"@, change_id@, file@],
{
    let mut args: Vec<String> = Vec::new();
    push_arg(&mut args, "diff");
    push_arg(&mut args, "--ignore-working-copy");
    push_arg(&mut args, "--git");
    push_arg(&mut args, "--revisions");
    push_arg(&mut args, change_id);
    push_arg(&mut args, file);
    assert(strings_of(args@) =~= seq!["diff"@, "--ignore-working-copy"@, "--git"@, "--revisions"@, change_id@, file@]);
    args
}

/// The words of a command line as `shell_words::split` parses it, or `None`
/// where it reports an error. It depends on the text alone.
pub uninterp spec fn shell_words_split(s: Seq<char>) -> Option<Seq<Seq<char>>>;

#[verifier::external_type_specification]
#[verifier::external_body]
pub struct ExShellWordsParseError(shell_words::ParseError);

/// `shell_words::split`: splits a command line into words the way a POSIX
/// shell would, doing quote removal only. The contract names its result: the
/// words are `shell_words_split` of the text, and an error comes exactly
/// where that is `None`.
#[verifier::external_body]
fn split_shell_words(s: &str) -> (r: Result<Vec<String>, shell_words::ParseError>)
    ensures
        match shell_words_split(s@) {
            Some(words) => r matches Ok(v) && strings_of(v@) == words,
            None => r is Err,
        },
{
    shell_words::split(s)
}

/// Why a raw command line was refused.
#[derive(Debug)]
pub enum RawArgsError {
    /// A quote is never closed.
    MissingClosingQuote,
}

impl RawArgsError {
    /// The error's message.
    pub fn to_string(&self) -> (r: String)
        ensures
            r@ == "missing closing quote"@,
    {
        lit("missing closing quote")
    }
}

/// A raw command: colored, reloading the log, reading stdout and stderr together.
pub open spec fn raw_view(words: Seq<Seq<char>>, global_args: (Seq<char>, bool), interactive: bool) -> JjCommandView {
    JjCommandView {
        args: words,
        global_args,
        interactive,
        return_output: ReturnOutput::Combined,
        sync: true,
        color: true,
    }
}

impl JjCommand {
    /// The command that runs the given words, or the error that their parse
    /// ended in (`None`).
    pub fn raw_command(
        words: Option<Vec<String>>,
        global_args: GlobalArgs,
        interactive_term: Option<Term>,
    ) -> (r: Result<Self, RawArgsError>)
        ensures
            match words {
                Some(w) => r matches Ok(c) && c@ == raw_view(strings_of(w@), global_args@, interactive_term is Some),
                None => r matches Err(RawArgsError::MissingClosingQuote),
            },
    {
        match words {
            Some(args) => Ok(JjCommand {
                args,
                global_args,
                interactive_term,
                return_output: ReturnOutput::Combined,
                sync: true,
                color: true,
            }),
            None => Err(RawArgsError::MissingClosingQuote),
        }
    }

    /// A command typed by the user, split into words as a shell would.
    pub fn jj_raw(args: &str, global_args: GlobalArgs) -> (r: Result<Self, RawArgsError>)
        ensures
            match shell_words_split(args@) {
                Some(w) => r matches Ok(c) && c@ == raw_view(w, global_args@, false),
                None => r matches Err(RawArgsError::MissingClosingQuote),
            },
    {
        let words = match split_shell_words(args) {
            Ok(v) => Some(v),
            Err(_) => None,
        };
        Self::raw_command(words, global_args, None)
    }

    /// A command typed by the user that takes over the terminal while it runs.
    pub fn jj_raw_interactive(args: &str, global_args: GlobalArgs, term: Term) -> (r: Result<Self, RawArgsError>)
        ensures
            match shell_words_split(args@) {
                Some(w) => r matches Ok(c) && c@ == raw_view(w, global_args@, true),
                None => r matches Err(RawArgsError::MissingClosingQuote),
            },
    {
        let words = match split_shell_words(args) {
            Ok(v) => Some(v),
            Err(_) => None,
        };
        Self::raw_command(words, global_args, Some(term))
    }
}

/// Arguments of `jj config get` for one key of a repository's configuration.
pub fn config_get_argv(repository: &str, key: &str) -> (r: Vec<String>)
    ensures
        strings_of(r@) == seq!["--repository"@, repository@, "config"@, "get"@, key@],
{
    let mut args: Vec<String> = Vec::new();
    push_arg(&mut args, "--repository");
    push_arg(&mut args, repository);
    push_arg(&mut args, "config");
    push_arg(&mut args, "get");
    push_arg(&mut args, key);
    assert(strings_of(args@) =~= seq!["--repository"@, repository@, "config"@, "get"@, key@]);
    args
}

/// Arguments of the `jj config get` call that reads the repository's default
/// log revset, `revsets.log`.
pub fn revsets_log_argv(repository: &str) -> (r: Vec<String>)
    ensures
        strings_of(r@) == seq!["--repository"@, repository@, "config"@, "get"@, "revsets.log"@],
{
    config_get_argv(repository, "revsets.log")
}

/// Arguments of the `jj config get` call that reads the AI describe command,
/// `majjit.ai-describe-command`.
pub fn ai_describe_command_argv(repository: &str) -> (r: Vec<String>)
    ensures
        strings_of(r@) == seq!["--repository"@, repository@, "config"@, "get"@, "majjit.ai-describe-command"@],
{
    config_get_argv(repository, "majjit.ai-describe-command")
}

/// Arguments of the `jj workspace root` call that checks a repository exists.
pub fn ensure_valid_repo_argv(repository: &str) -> (r: Vec<String>)
    ensures
        strings_of(r@) == seq!["--repository"@, repository@, "workspace"@, "root"@, "--color"@, "always"@],
{
    let mut args: Vec<String> = Vec::new();
    push_arg(&mut args, "--repository");
    push_arg(&mut args, repository);
    push_arg(&mut args, "workspace");
    push_arg(&mut args, "root");
    push_arg(&mut args, "--color");
    push_arg(&mut args, "always");
    assert(strings_of(args@) =~= seq!["--repository"@, repository@, "workspace"@, "root"@, "--color"@, "always"@]);
    args
}

/// A query's answer: its trimmed stdout on success, else the failure that
/// its stderr reports.
pub fn trimmed_stdout(output: ProcessOutput) -> (r: Result<String, JjCommandError>)
    ensures
        output.success ==> (r matches Ok(s) && s@ == trim(output.stdout@)),
        !output.success ==> (r matches Err(JjCommandError::Failed { stderr: e }) && e@ == trim(output.stderr@)),
{
    if output.success {
        Ok(trim_str(output.stdout.as_str()))
    } else {
        Err(JjCommandError::new_failed(output.stderr))
    }
}

/// An optional configuration value: absent when `jj config get` failed (the
/// key is unset) or printed only whitespace, else its trimmed stdout.
pub fn optional_config_value(output: ProcessOutput) -> (r: Option<String>)
    ensures
        !output.success ==> r is None,
        output.success && trim(output.stdout@).len() == 0 ==> r is None,
        output.success && trim(output.stdout@).len() > 0 ==> (r matches Some(s) && s@ == trim(output.stdout@)),
{
    if !output.success {
        return None;
    }
    let value = trim_str(output.stdout.as_str());
    if value.as_str().is_empty() {
        None
    } else {
        Some(value)
    }
}

/// Syntax-highlighting theme handed to delta. A dark theme, to match a dark terminal.
pub const DELTA_SYNTAX_THEME: &'static str = "Dracula";

/// 3-way merge tool used by `jj resolve`. meld's built-in jj config auto-merges the
/// clean hunks (`--auto-merge`) and opens a visual editor for the real conflicts.
pub const MERGE_TOOL: &'static str = "meld";

/// The environment variables removed before delta runs: delta and bat read
/// them despite `--no-gitconfig`, and clearing them keeps the rendering
/// deterministic and single-column.
pub fn delta_cleared_env() -> (r: Vec<String>)
    ensures
        strings_of(r@) == seq!["DELTA_FEATURES"@, "GIT_CONFIG_PARAMETERS"@, "BAT_THEME"@, "BAT_STYLE"@],
{
    let mut names: Vec<String> = Vec::new();
    push_arg(&mut names, "DELTA_FEATURES");
    push_arg(&mut names, "GIT_CONFIG_PARAMETERS");
    push_arg(&mut names, "BAT_THEME");
    push_arg(&mut names, "BAT_STYLE");
    assert(strings_of(names@) =~= seq!["DELTA_FEATURES"@, "GIT_CONFIG_PARAMETERS"@, "BAT_THEME"@, "BAT_STYLE"@]);
    names
}

/// Arguments that make delta color a git-format diff without changing its
/// lines: `--color-only` keeps headers and markers, `--no-gitconfig` keeps the
/// rendering independent of the user's delta configuration.
pub fn delta_render_args() -> (r: Vec<String>)
    ensures
        strings_of(r@) == seq![
            "--color-only"@,
            "--line-numbers"@,
            "--no-gitconfig"@,
            "--paging=never"@,
            "--true-color=always"@,
            "--width=variable"@,
            "--syntax-theme"@,
            DELTA_SYNTAX_THEME@,
        ],
{
    let mut args: Vec<String> = Vec::new();
    push_arg(&mut args, "--color-only");
    push_arg(&mut args, "--line-numbers");
    push_arg(&mut args, "--no-gitconfig");
    push_arg(&mut args, "--paging=never");
    push_arg(&mut args, "--true-color=always");
    push_arg(&mut args, "--width=variable");
    push_arg(&mut args, "--syntax-theme");
    push_arg(&mut args, DELTA_SYNTAX_THEME);
    assert(strings_of(args@) =~= seq![
        "--color-only"@,
        "--line-numbers"@,
        "--no-gitconfig"@,
        "--paging=never"@,
        "--true-color=always"@,
        "--width=variable"@,
        "--syntax-theme"@,
        DELTA_SYNTAX_THEME@,
    ]);
    args
}

/// What tuicr reviews: the working copy, one change, or a range of changes.
#[derive(Debug, Clone, PartialEq, Eq)]
pub enum TuicrTarget {
    WorkingCopy,
    Change(String),
    Range { base: String, tip: String },
}

/// tuicr's arguments for a target.
pub open spec fn tuicr_args_spec(target: TuicrTarget) -> Seq<Seq<char>> {
    match target {
        TuicrTarget::WorkingCopy => seq!["-w"@],
        TuicrTarget::Change(change) => seq!["-r"@, change@ + "-.."@ + change@],
        TuicrTarget::Range { base, tip } => seq!["-r"@, base@ + ".."@ + tip@],
    }
}

/// tuicr's arguments for a target: `-w` for the working copy, else `-r` and
/// the revset covering the change or range.
pub fn tuicr_args(target: &TuicrTarget) -> (r: Vec<String>)
    ensures
        strings_of(r@) == tuicr_args_spec(*target),
{
    let mut args: Vec<String> = Vec::new();
    assert(strings_of(args@) =~= Seq::<Seq<char>>::empty());
    match target {
        TuicrTarget::WorkingCopy => {
            push_arg(&mut args, "-w");
            assert(strings_of(args@) =~= tuicr_args_spec(*target));
        },
        TuicrTarget::Change(change) => {
            push_arg(&mut args, "-r");
            let mut revset = lit(change.as_str());
            revset.append("-..");
            revset.append(change.as_str());
            let ghost rv = revset@;
            push_arg(&mut args, revset.as_str());
            assert(strings_of(args@) =~= seq!["-r"@, rv]);
        },
        TuicrTarget::Range { base, tip } => {
            push_arg(&mut args, "-r");
            let mut revset = lit(base.as_str());
            revset.append("..");
            revset.append(tip.as_str());
            let ghost rv = revset@;
            push_arg(&mut args, revset.as_str());
            assert(strings_of(args@) =~= seq!["-r"@, rv]);
        },
    }
    args
}

/// How starting or running tuicr went wrong.
#[derive(Debug)]
pub enum TuicrLaunchFailure {
    /// The executable was not found.
    NotFound,
    /// Any other failure to start or wait for it; its message.
    Other(String),
}

/// Why a tuicr review ended in error.
#[derive(Debug)]
pub enum TuicrError {
    /// tuicr could not be started, or exited unsuccessfully.
    Launch(String),
    /// The terminal could not be handed over or taken back.
    Terminal(String),
}

impl TuicrError {
    /// The error's message.
    pub fn to_string(&self) -> (r: String)
        ensures
            r@ == match self {
                TuicrError::Launch(m) => m@,
                TuicrError::Terminal(m) => m@,
            },
    {
        match self {
            TuicrError::Launch(m) => lit(m.as_str()),
            TuicrError::Terminal(m) => lit(m.as_str()),
        }
    }
}

/// The message for a tuicr that exited unsuccessfully.
pub open spec fn tuicr_unsuccessful_message() -> Seq<char> {
    "tuicr exited unsuccessfully"@
}

/// The message for a tuicr that is not installed.
pub open spec fn tuicr_not_found_message() -> Seq<char> {
    "Unable to start tuicr: it was not found on PATH. Please install it from https://tuicr.dev."@
}

/// `r` is how a review ends after tuicr's `process` result and the
/// terminal's `takeover`: a failed takeover first, then tuicr's outcome.
pub open spec fn tuicr_outcome_is(
    process: Result<bool, TuicrLaunchFailure>,
    takeover: Result<(), String>,
    r: Result<(), TuicrError>,
) -> bool {
    match takeover {
        Err(e) => r matches Err(TuicrError::Terminal(m)) && m@ == e@,
        Ok(_) => match process {
            Ok(true) => r is Ok,
            Ok(false) => r matches Err(TuicrError::Launch(m)) && m@ == tuicr_unsuccessful_message(),
            Err(TuicrLaunchFailure::NotFound) => r matches Err(TuicrError::Launch(m)) && m@
                == tuicr_not_found_message(),
            Err(TuicrLaunchFailure::Other(e)) => r matches Err(TuicrError::Launch(m)) && m@ == e@,
        },
    }
}

/// How a tuicr review ends, once the terminal was handed over, tuicr was run
/// and the terminal taken back: a failure to take the terminal back comes
/// first, then tuicr's own outcome.
pub fn tuicr_outcome(
    process: Result<bool, TuicrLaunchFailure>,
    takeover: Result<(), String>,
) -> (r: Result<(), TuicrError>)
    ensures
        tuicr_outcome_is(process, takeover, r),
{
    if let Err(e) = takeover {
        return Err(TuicrError::Terminal(e));
    }
    match process {
        Ok(true) => Ok(()),
        Ok(false) => Err(TuicrError::Launch(lit("tuicr exited unsuccessfully"))),
        Err(TuicrLaunchFailure::NotFound) => Err(
            TuicrError::Launch(
                lit(
                    "Unable to start tuicr: it was not found on PATH. Please install it from https://tuicr.dev.",
                ),
            ),
        ),
        Err(TuicrLaunchFailure::Other(e)) => Err(TuicrError::Launch(e)),
    }
}

/// What the last outside step of a tuicr review reported.
pub enum TuicrEvent {
    /// Nothing has been done yet.
    Start,
    /// The terminal was handed over, or could not be: the error's message.
    Relinquished(Result<(), String>),
    /// tuicr ran: whether it succeeded, or why it could not be run.
    Ran(Result<bool, TuicrLaunchFailure>),
    /// The terminal was taken back after tuicr ran with the given result.
    TookOver { process: Result<bool, TuicrLaunchFailure>, takeover: Result<(), String> },
}

/// The next step of a tuicr review.
pub enum TuicrAction {
    /// Hand the terminal over, and report `Relinquished`.
    Relinquish,
    /// Run `program` with `args` in the directory `dir`, and report `Ran`.
    Run { program: String, args: Vec<String>, dir: String },
    /// Take the terminal back, and report `TookOver` with this process result.
    TakeOver(Result<bool, TuicrLaunchFailure>),
    /// The review is over.
    Finish(Result<(), TuicrError>),
}

/// One step of reviewing `target` with tuicr in `repository`: hand the
/// terminal over, run tuicr there, take the terminal back (also after a
/// failed run), then report. A terminal that cannot be handed over ends the
/// review before tuicr runs.
pub fn run_tuicr(repository: &str, target: &TuicrTarget, event: TuicrEvent) -> (r: TuicrAction)
    ensures
        match event {
            TuicrEvent::Start => r is Relinquish,
            TuicrEvent::Relinquished(Err(e)) => r matches TuicrAction::Finish(Err(TuicrError::Terminal(m)))
                && m@ == e@,
            TuicrEvent::Relinquished(Ok(_)) => r matches TuicrAction::Run { program, args, dir } && program@
                == "tuicr"@ && strings_of(args@) == tuicr_args_spec(*target) && dir@ == repository@,
            TuicrEvent::Ran(p) => r == TuicrAction::TakeOver(p),
            TuicrEvent::TookOver { process, takeover } => r matches TuicrAction::Finish(x)
                && tuicr_outcome_is(process, takeover, x),
        },
{
    match event {
        TuicrEvent::Start => TuicrAction::Relinquish,
        TuicrEvent::Relinquished(Err(e)) => TuicrAction::Finish(Err(TuicrError::Terminal(e))),
        TuicrEvent::Relinquished(Ok(_)) => TuicrAction::Run {
            program: lit("tuicr"),
            args: tuicr_args(target),
            dir: lit(repository),
        },
        TuicrEvent::Ran(p) => TuicrAction::TakeOver(p),
        TuicrEvent::TookOver { process, takeover } => TuicrAction::Finish(tuicr_outcome(process, takeover)),
    }
}

/// What rendering a file's diff has learnt so far.
pub enum DiffRenderEvent {
    /// Nothing has run yet: whether `delta` is installed.
    Start { delta_available: bool },
    /// The raw git diff command finished.
    RawDiff(Result<String, JjCommandError>),
    /// delta finished: its output, or `None` where it failed.
    Delta(Option<String>),
    /// jj's colored git diff command finished.
    ColoredDiff(Result<String, JjCommandError>),
}

/// The next step of rendering a file's diff.
pub enum DiffRenderAction {
    /// Run this command and report its result as `RawDiff`.
    RunRawDiff(JjCommand),
    /// Pipe this raw diff through delta with `delta_render_args`, and report `Delta`.
    RunDelta(String),
    /// Run this command and report its result as `ColoredDiff`.
    RunColoredDiff(JjCommand),
    /// The rendered diff, or the error that ended the rendering.
    Finish(Result<String, JjCommandError>),
}

/// One step of rendering a single file's diff to ANSI-colored text for the
/// log tree. Where delta is installed, the raw git diff is piped through it;
/// where delta is missing or fails, jj's own colored git diff is used. A
/// failing jj command ends the rendering with its error.
pub fn rendered_file_diff(change_id: &str, file: &str, global_args: &GlobalArgs, event: DiffRenderEvent) -> (r:
    DiffRenderAction)
    ensures
        match event {
            DiffRenderEvent::Start { delta_available: true } => r matches DiffRenderAction::RunRawDiff(c) && c@
                == uncolored(
                seq!["diff"@, "--ignore-working-copy"@, "--git"@, "--revisions"@, change_id@, file@],
                global_args@,
                ReturnOutput::Stdout,
            ),
            DiffRenderEvent::Start { delta_available: false } | DiffRenderEvent::Delta(None) => r matches DiffRenderAction::RunColoredDiff(c)
                && c@ == synced(
                seq!["diff"@, "--ignore-working-copy"@, "--git"@, "--revisions"@, change_id@, file@],
                global_args@,
                false,
                ReturnOutput::Stdout,
            ),
            DiffRenderEvent::RawDiff(Ok(raw)) => r matches DiffRenderAction::RunDelta(x) && x@ == raw@,
            DiffRenderEvent::RawDiff(Err(e)) => r == DiffRenderAction::Finish(Err(e)),
            DiffRenderEvent::Delta(Some(out)) => r matches DiffRenderAction::Finish(Ok(x)) && x@ == out@,
            DiffRenderEvent::ColoredDiff(res) => r == DiffRenderAction::Finish(res),
        },
{
    match event {
        DiffRenderEvent::Start { delta_available } => {
            if delta_available {
                DiffRenderAction::RunRawDiff(JjCommand::jj_diff_git_file(change_id, file, global_args.duplicate()))
            } else {
                DiffRenderAction::RunColoredDiff(
                    JjCommand::jj_diff_git_file_colored(change_id, file, global_args.duplicate()),
                )
            }
        },
        DiffRenderEvent::RawDiff(Ok(raw)) => DiffRenderAction::RunDelta(raw),
        DiffRenderEvent::RawDiff(Err(e)) => DiffRenderAction::Finish(Err(e)),
        DiffRenderEvent::Delta(Some(out)) => DiffRenderAction::Finish(Ok(out)),
        DiffRenderEvent::Delta(None) => DiffRenderAction::RunColoredDiff(
            JjCommand::jj_diff_git_file_colored(change_id, file, global_args.duplicate()),
        ),
        DiffRenderEvent::ColoredDiff(res) => DiffRenderAction::Finish(res),
    }
}

} // verus!
