//! Drafting a change description with a user-configured command.
//!
//! The command itself is run by the caller (it is a process); this module
//! decides what the command is fed, when it is not run at all, and what its
//! output becomes.
use crate::text::{
    append_chars, blank_chars, chars_of, decimal, decimal_exec, find, find_exec, find_from, find_from_exec, lemma_find_from_found, join, join_exec, join_strings, lemma_trim_idempotent, lines, lines_exec,
    lit, seqs_of, string_of, strings_of, sub_chars, trim, trim_chars, trim_str, is_blank,
};
use vstd::prelude::*;

verus! {

/// Why no description message came out.
#[derive(Debug)]
pub enum DescribeError {
    /// No generate command is configured.
    NotConfigured,
    /// The change has no diff to describe.
    NoChanges,
    /// The command exited unsuccessfully; its trimmed stderr.
    CommandFailed { stderr: String },
    /// The command printed no message; its trimmed stderr, possibly empty.
    NoMessage { stderr: String },
}

/// The message of each error.
pub open spec fn describe_error_message(e: DescribeError) -> Seq<char> {
    match e {
        DescribeError::NotConfigured =>
            "No AI command configured. Set it with:\n  jj config set --user majjit.ai-describe-command '<command>'"@,
        DescribeError::NoChanges => "No changes to describe"@,
        DescribeError::CommandFailed { stderr } => "Generate command failed: "@ + stderr@,
        DescribeError::NoMessage { stderr } => if stderr@.len() == 0 {
            "Generate command produced no commit message"@
        } else {
            "Generate command produced no commit message: "@ + stderr@
        },
    }
}

impl DescribeError {
    /// The error's message.
    pub fn to_string(&self) -> (r: String)
        ensures
            r@ == describe_error_message(*self),
    {
        match self {
            DescribeError::NotConfigured => lit(
                "No AI command configured. Set it with:\n  jj config set --user majjit.ai-describe-command '<command>'",
            ),
            DescribeError::NoChanges => lit("No changes to describe"),
            DescribeError::CommandFailed { stderr } => {
                let mut m = lit("Generate command failed: ");
                m.append(stderr.as_str());
                m
            },
            DescribeError::NoMessage { stderr } => {
                if stderr.as_str().is_empty() {
                    lit("Generate command produced no commit message")
                } else {
                    let mut m = lit("Generate command produced no commit message: ");
                    m.append(stderr.as_str());
                    m
                }
            },
        }
    }
}

/// The `Bookmarks:` header line's list: the names separated by spaces.
pub open spec fn bookmark_list(bookmarks: Seq<String>) -> Seq<char> {
    join(strings_of(bookmarks), seq![' '])
}

/// What the generate command reads on stdin.
pub open spec fn stdin_payload(diff: Seq<char>, bookmarks: Seq<String>) -> Seq<char> {
    if bookmarks.len() == 0 {
        diff
    } else {
        "Bookmarks: "@ + bookmark_list(bookmarks) + seq!['\n', '\n'] + diff
    }
}

/// The bookmark names separated by single spaces, as exported to the command.
pub fn join_bookmarks(bookmarks: &[String]) -> (r: String)
    ensures
        r@ == bookmark_list(bookmarks@),
{
    let r = join_strings(bookmarks, " ");
    proof {
        reveal_strlit(" ");
        assert(" "@ =~= seq![' ']);
    }
    r
}

/// Build the payload fed to the generate command on stdin: the change's diff,
/// optionally preceded by a `Bookmarks:` header when the change has bookmarks.
pub fn build_stdin_payload(diff: &str, bookmarks: &[String]) -> (r: String)
    ensures
        r@ == stdin_payload(diff@, bookmarks@),
{
    if bookmarks.len() == 0 {
        lit(diff)
    } else {
        let mut r = lit("Bookmarks: ");
        let list = join_bookmarks(bookmarks);
        r.append(list.as_str());
        r.append("\n\n");
        r.append(diff);
        proof {
            reveal_strlit("\n\n");
            assert("\n\n"@ =~= seq!['\n', '\n']);
        }
        r
    }
}

/// How the generate command is started: `sh -c` with the configured command,
/// the variables exported to it, and what it reads on stdin.
#[derive(Debug)]
pub struct DescribeInvocation {
    pub program: String,
    pub args: Vec<String>,
    pub env: Vec<(String, String)>,
    pub stdin: String,
}

/// The names and values of the exported variables, as plain text.
pub open spec fn env_view(env: Seq<(String, String)>) -> Seq<(Seq<char>, Seq<char>)> {
    Seq::new(env.len(), |i: int| (env[i].0@, env[i].1@))
}

/// The variables exported to the generate command: the change id, the
/// space-separated bookmark names and the diff's size in bytes.
pub open spec fn describe_env(change_id: Seq<char>, bookmarks: Seq<String>, diff_bytes: nat) -> Seq<
    (Seq<char>, Seq<char>),
> {
    seq![
        ("MAJJIT_AI_DESCRIBE_CHANGE_ID"@, change_id),
        ("MAJJIT_AI_DESCRIBE_BOOKMARKS"@, bookmark_list(bookmarks)),
        ("MAJJIT_AI_DESCRIBE_DIFF_BYTES"@, decimal(diff_bytes)),
    ]
}

/// How to run the generate command for a change, after the checks that
/// come first: a command must be configured and the diff must not be
/// blank.
pub fn describe_invocation(
    diff: &str,
    bookmarks: &[String],
    change_id: &str,
    generate_command: &str,
) -> (r: Result<DescribeInvocation, DescribeError>)
    ensures
        is_blank(generate_command@) ==> r matches Err(DescribeError::NotConfigured),
        !is_blank(generate_command@) && is_blank(diff@) ==> r matches Err(DescribeError::NoChanges),
        !is_blank(generate_command@) && !is_blank(diff@) ==> (r matches Ok(inv) && {
            &&& inv.program@ == "sh"@
            &&& strings_of(inv.args@) == seq!["-c"@, generate_command@]
            &&& env_view(inv.env@) == describe_env(change_id@, bookmarks@, diff.len() as nat)
            &&& inv.stdin@ == stdin_payload(diff@, bookmarks@)
        }),
{
    match check_generate_request(diff, generate_command) {
        Err(e) => Err(e),
        Ok(()) => {
            let diff_bytes = diff.len();
            let args: Vec<String> = vec![lit("-c"), lit(generate_command)];
            let env: Vec<(String, String)> = vec![
                (lit("MAJJIT_AI_DESCRIBE_CHANGE_ID"), lit(change_id)),
                (lit("MAJJIT_AI_DESCRIBE_BOOKMARKS"), join_bookmarks(bookmarks)),
                (lit("MAJJIT_AI_DESCRIBE_DIFF_BYTES"), string_of(&decimal_exec(diff_bytes))),
            ];
            assert(strings_of(args@) =~= seq!["-c"@, generate_command@]);
            assert(env_view(env@) =~= describe_env(change_id@, bookmarks@, diff.len() as nat));
            Ok(DescribeInvocation { program: lit("sh"), args, env, stdin: build_stdin_payload(diff, bookmarks) })
        },
    }
}

/// The opening and closing marker of a markdown code block.
pub open spec fn fence() -> Seq<char> {
    seq!['`', '`', '`']
}

/// A line with one wrapping pair of single backticks removed.
pub open spec fn unwrap_backticks(line: Seq<char>) -> Seq<char> {
    if line.len() >= 2 && line[0] == '`' && line.last() == '`' {
        line.subrange(1, line.len() - 1)
    } else {
        line
    }
}

/// What a generated message becomes once its markdown decoration is removed:
/// - with a code fence, the trimmed content of the first fenced block (after
///   the opening fence's line, up to the closing fence or the end);
/// - otherwise the trimmed text, its first line unwrapped from single backticks.
pub open spec fn strip_fences_spec(raw: Seq<char>) -> Seq<char> {
    let t = trim(raw);
    match find(t, fence()) {
        Some(start) => {
            let after = t.skip(start + 3);
            let content = match find(after, seq!['\n']) {
                Some(i) => after.skip(i + 1),
                None => after,
            };
            match find(content, fence()) {
                Some(end) => trim(content.take(end)),
                None => trim(content),
            }
        },
        None => {
            let ls = lines(t);
            let ls2 = if ls.len() > 0 {
                ls.update(0, unwrap_backticks(ls[0]))
            } else {
                ls
            };
            trim(join(ls2, seq!['\n']))
        },
    }
}

/// Strip markdown code fences and any preamble text before the message.
/// The result is trimmed: it neither starts nor ends with whitespace.
pub fn strip_markdown_fences(raw: &str) -> (r: String)
    ensures
        r@ == strip_fences_spec(raw@),
        trim(r@) == r@,
{
    let v = chars_of(raw);
    let t = trim_chars(&v);
    let ticks: Vec<char> = vec!['`', '`', '`'];
    assert(ticks@ =~= fence());
    let out = match find_exec(&t, &ticks) {
        Some(start) => {
            let tn = t.len();
            assert(ticks@.len() == 3);
            let after = sub_chars(&t, start + 3, tn);
            assert(after@ =~= t@.skip(start + 3));
            let newline: Vec<char> = vec!['\n'];
            assert(newline@ =~= seq!['\n']);
            let content = match find_exec(&after, &newline) {
                Some(i) => {
                    let c = sub_chars(&after, i + 1, after.len());
                    assert(c@ =~= after@.skip(i + 1));
                    c
                },
                None => after,
            };
            match find_exec(&content, &ticks) {
                Some(end) => {
                    let head = sub_chars(&content, 0, end);
                    assert(head@ =~= content@.take(end as int));
                    trim_chars(&head)
                },
                None => trim_chars(&content),
            }
        },
        None => {
            let mut ls = lines_exec(&t);
            let ghost ls_view = seqs_of(ls@);
            if ls.len() > 0 {
                let n = ls[0].len();
                if n >= 2 && ls[0][0] == '`' && ls[0][n - 1] == '`' {
                    let inner = sub_chars(&ls[0], 1, n - 1);
                    ls.set(0, inner);
                }
                assert(seqs_of(ls@) =~= ls_view.update(0, unwrap_backticks(ls_view[0])));
            }
            let newline: Vec<char> = vec!['\n'];
            assert(newline@ =~= seq!['\n']);
            let joined = join_exec(&ls, &newline);
            trim_chars(&joined)
        },
    };
    proof {
        lemma_trim_result(raw@);
    }
    string_of(&out)
}

/// Every branch of `strip_fences_spec` ends in `trim`, so its result is trimmed.
proof fn lemma_trim_result(raw: Seq<char>)
    ensures
        trim(strip_fences_spec(raw)) == strip_fences_spec(raw),
{
    let t = trim(raw);
    match find(t, fence()) {
        Some(start) => {
            let after = t.skip(start + 3);
            let content = match find(after, seq!['\n']) {
                Some(i) => after.skip(i + 1),
                None => after,
            };
            match find(content, fence()) {
                Some(end) => lemma_trim_idempotent(content.take(end)),
                None => lemma_trim_idempotent(content),
            }
        },
        None => {
            let ls = lines(t);
            let ls2 = if ls.len() > 0 {
                ls.update(0, unwrap_backticks(ls[0]))
            } else {
                ls
            };
            lemma_trim_idempotent(join(ls2, seq!['\n']));
        },
    }
}

/// The tag that opens a reasoning block.
pub open spec fn think_open() -> Seq<char> {
    seq!['<', 't', 'h', 'i', 'n', 'k', '>']
}

/// The tag that closes a reasoning block.
pub open spec fn think_close() -> Seq<char> {
    seq!['<', '/', 't', 'h', 'i', 'n', 'k', '>']
}

/// The text with every `<think>…</think>` reasoning block removed, tags
/// included, from left to right; an opening tag that is never closed stays.
pub open spec fn strip_think(s: Seq<char>) -> Seq<char>
    decreases s.len(),
{
    match find(s, think_open()) {
        None => s,
        Some(i) => match find_from(s, think_close(), i + 7) {
            None => s,
            Some(j) => {
                proof {
                    lemma_find_from_found(s, think_close(), i + 7);
                    lemma_find_from_found(s, think_open(), 0);
                }
                s.take(i) + strip_think(s.skip(j + 8))
            },
        },
    }
}

/// Remove the `<think>…</think>` reasoning blocks that some models print
/// ahead of their answer.
pub fn strip_think_blocks(raw: &str) -> (r: String)
    ensures
        r@ == strip_think(raw@),
{
    let open: Vec<char> = vec!['<', 't', 'h', 'i', 'n', 'k', '>'];
    let close: Vec<char> = vec!['<', '/', 't', 'h', 'i', 'n', 'k', '>'];
    assert(open@ =~= think_open());
    assert(close@ =~= think_close());
    let mut rest = chars_of(raw);
    let mut out: Vec<char> = Vec::new();
    loop
        invariant
            strip_think(raw@) == out@ + strip_think(rest@),
            open@ == think_open(),
            close@ == think_close(),
            open@.len() == 7,
            close@.len() == 8,
        ensures
            strip_think(raw@) == out@ + rest@,
        decreases rest@.len(),
    {
        let n = rest.len();
        let oi = find_exec(&rest, &open);
        if oi.is_none() {
            break;
        }
        let i = oi.unwrap();
        assert(i + 7 <= n);
        let oj = find_from_exec(&rest, &close, i + 7);
        if oj.is_none() {
            break;
        }
        let j = oj.unwrap();
        assert(j + 8 <= n);
        let ghost old_rest = rest@;
        let head = sub_chars(&rest, 0, i);
        append_chars(&mut out, &head);
        rest = sub_chars(&rest, j + 8, n);
        assert(head@ =~= old_rest.take(i as int));
        assert(rest@ =~= old_rest.skip(j + 8));
        assert(out@ + strip_think(rest@) =~= (out@.subrange(0, out@.len() - head@.len()) + head@) + strip_think(rest@));
    }
    append_chars(&mut out, &rest);
    string_of(&out)
}

/// What a command's stdout and stderr become: the message with reasoning
/// blocks and fences stripped, or
/// `NoMessage` with the trimmed stderr when the message is blank.
pub open spec fn cleaned_message(stdout: Seq<char>, stderr: Seq<char>) -> Result<Seq<char>, Seq<char>> {
    let message = strip_fences_spec(strip_think(stdout));
    if is_blank(message) {
        Err(trim(stderr))
    } else {
        Ok(message)
    }
}

/// Turn the generate command's output into a message, refusing a blank one.
pub fn clean_generated_message(stdout: &str, stderr: &str) -> (r: Result<String, DescribeError>)
    ensures
        match cleaned_message(stdout@, stderr@) {
            Ok(m) => r matches Ok(s) && s@ == m,
            Err(e) => r matches Err(DescribeError::NoMessage { stderr: s }) && s@ == e,
        },
        r matches Ok(s) ==> !is_blank(s@) && trim(s@) == s@,
{
    let thought_free = strip_think_blocks(stdout);
    let message = strip_markdown_fences(thought_free.as_str());
    let mv = chars_of(message.as_str());
    if blank_chars(&mv) {
        let e = trim_str(stderr);
        Err(DescribeError::NoMessage { stderr: e })
    } else {
        Ok(message)
    }
}

/// Whether text is empty once trimmed.
pub fn is_blank_str(s: &str) -> (r: bool)
    ensures
        r == is_blank(s@),
{
    let v = chars_of(s);
    blank_chars(&v)
}

/// The checks made before the generate command runs: a command must be
/// configured and the change must have a diff.
pub fn check_generate_request(diff: &str, generate_command: &str) -> (r: Result<(), DescribeError>)
    ensures
        is_blank(generate_command@) ==> r matches Err(DescribeError::NotConfigured),
        !is_blank(generate_command@) && is_blank(diff@) ==> r matches Err(DescribeError::NoChanges),
        !is_blank(generate_command@) && !is_blank(diff@) ==> r is Ok,
{
    if is_blank_str(generate_command) {
        return Err(DescribeError::NotConfigured);
    }
    if is_blank_str(diff) {
        return Err(DescribeError::NoChanges);
    }
    Ok(())
}

/// The message that a finished generate command yields: its cleaned stdout
/// when it succeeded, else `CommandFailed` with its trimmed stderr.
pub fn finish_generate(success: bool, stdout: &str, stderr: &str) -> (r: Result<String, DescribeError>)
    ensures
        !success ==> (r matches Err(DescribeError::CommandFailed { stderr: s }) && s@ == trim(stderr@)),
        success ==> match cleaned_message(stdout@, stderr@) {
            Ok(m) => r matches Ok(s) && s@ == m,
            Err(e) => r matches Err(DescribeError::NoMessage { stderr: s }) && s@ == e,
        },
{
    if !success {
        return Err(DescribeError::CommandFailed { stderr: trim_str(stderr) });
    }
    clean_generated_message(stdout, stderr)
}

} // verus!

verus! {

// ---------------------------------------------------------------------------
// Laws of the drafted message
// ---------------------------------------------------------------------------

/// Whether the text holds three backticks in a row, that is, a code fence.
pub open spec fn has_fence(s: Seq<char>) -> bool {
    exists|j: int| 0 <= j && j + 3 <= s.len() && #[trigger] s[j] == '`' && s[j + 1] == '`' && s[j + 2] == '`'
}

proof fn lemma_fence_at(s: Seq<char>, j: int)
    requires
        0 <= j && j + 3 <= s.len(),
    ensures
        crate::text::matches_at(s, fence(), j) <==> (s[j] == '`' && s[j + 1] == '`' && s[j + 2] == '`'),
{
    if s[j] == '`' && s[j + 1] == '`' && s[j + 2] == '`' {
        assert(s.subrange(j, j + 3) =~= fence());
    }
    if crate::text::matches_at(s, fence(), j) {
        assert(s.subrange(j, j + 3)[0] == s[j]);
        assert(s.subrange(j, j + 3)[1] == s[j + 1]);
        assert(s.subrange(j, j + 3)[2] == s[j + 2]);
    }
}

/// `find` of a fence says where the first fence is: none before it, and
/// none at all where it finds none.
proof fn lemma_find_fence(s: Seq<char>)
    ensures
        find(s, fence()) is None ==> !has_fence(s),
        find(s, fence()) matches Some(e) ==> !has_fence(s.take(e)),
        has_fence(s) ==> find(s, fence()) is Some,
{
    if has_fence(s) {
        let j = choose|j: int| 0 <= j && j + 3 <= s.len() && #[trigger] s[j] == '`' && s[j + 1] == '`' && s[j + 2] == '`';
        lemma_fence_at(s, j);
        crate::text::lemma_find_from_le(s, fence(), 0, j);
    }
    if let Some(e) = find(s, fence()) {
        lemma_find_from_found(s, fence(), 0);
        let x = s.take(e);
        if has_fence(x) {
            let j = choose|j: int| 0 <= j && j + 3 <= x.len() && #[trigger] x[j] == '`' && x[j + 1] == '`' && x[j + 2] == '`';
            assert(s[j] == x[j] && s[j + 1] == x[j + 1] && s[j + 2] == x[j + 2]);
            lemma_fence_at(s, j);
            crate::text::lemma_find_from_le(s, fence(), 0, j);
        }
    }
}

/// Trimming brings no fence into a text that holds none.
proof fn lemma_trim_adds_no_fence(x: Seq<char>)
    requires
        !has_fence(x),
    ensures
        !has_fence(trim(x)),
{
    let u = crate::text::trim_start(x);
    crate::text::lemma_trim_start_shape(x);
    crate::text::lemma_trim_end_shape(u);
    let a = choose|k: int| 0 <= k <= x.len() && crate::text::trim_start(x) == x.skip(k);
    let b = choose|k: int| 0 <= k <= u.len() && crate::text::trim_end(u) == u.take(k);
    let t = trim(x);
    if has_fence(t) {
        let j = choose|j: int| 0 <= j && j + 3 <= t.len() && #[trigger] t[j] == '`' && t[j + 1] == '`' && t[j + 2] == '`';
        assert(t[j] == x[a + j] && t[j + 1] == x[a + j + 1] && t[j + 2] == x[a + j + 2]);
        assert(x[a + j] == '`');
    }
}

/// Where the command's output holds a code fence, the message is taken from
/// the first fenced block: the text after the opening fence's line, up to
/// the first closing fence. So the message itself never holds a fence.
pub proof fn lemma_fenced_message_has_no_fence(raw: Seq<char>)
    requires
        has_fence(trim(raw)),
    ensures
        !has_fence(strip_fences_spec(raw)),
{
    let t = trim(raw);
    lemma_find_fence(t);
    let start = find(t, fence())->Some_0;
    let after = t.skip(start + 3);
    let content = match find(after, seq!['\n']) {
        Some(i) => after.skip(i + 1),
        None => after,
    };
    lemma_find_fence(content);
    match find(content, fence()) {
        Some(end) => lemma_trim_adds_no_fence(content.take(end)),
        None => lemma_trim_adds_no_fence(content),
    }
}

/// The message drafted from a fenced answer holds no fence.
pub proof fn lemma_cleaned_message_has_no_fence(stdout: Seq<char>, stderr: Seq<char>)
    requires
        has_fence(trim(strip_think(stdout))),
    ensures
        cleaned_message(stdout, stderr) matches Ok(m) ==> !has_fence(m),
{
    lemma_fenced_message_has_no_fence(strip_think(stdout));
}

} // verus!
