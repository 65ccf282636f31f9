//! ANSI escape sequences in jj's and delta's colored output.
//!
//! Two grammars are recognised, each specified as a left-to-right scan that
//! removes every sequence it finds and keeps every other character:
//! - SGR (styling) sequences, `ESC [ (digits | ';')* m`;
//! - non-styling sequences: CSI sequences whose final byte is not `m`
//!   (`ESC [ (digit | ';' | '?')* (' '..='/')* final`), OSC strings
//!   (`ESC ] ... (BEL | ESC \)`, with no line feed inside) and DCS strings
//!   (`ESC P ... ESC \`, with no line feed inside).
use crate::text::{chars_of, string_of};
use vstd::prelude::*;

verus! {

/// The escape character.
pub open spec fn esc() -> char {
    '\x1b'
}

/// A parameter character of an SGR sequence.
pub open spec fn is_sgr_param(c: char) -> bool {
    (0x30 <= (c as u32) && (c as u32) <= 0x39) || c == ';'
}

/// A parameter character of a CSI sequence.
pub open spec fn is_csi_param(c: char) -> bool {
    (0x30 <= (c as u32) && (c as u32) <= 0x39) || c == ';' || c == '?'
}

/// An intermediate character of a CSI sequence.
pub open spec fn is_csi_intermediate(c: char) -> bool {
    0x20 <= (c as u32) && (c as u32) <= 0x2F
}

/// A final character of a non-styling CSI sequence: `@`..=`~` except `m`.
pub open spec fn is_csi_final(c: char) -> bool {
    (0x40 <= (c as u32) && (c as u32) <= 0x6C) || (0x6E <= (c as u32) && (c as u32) <= 0x7E)
}

/// The length of the run of characters satisfying `p` that starts at `i`.
pub open spec fn run_len(s: Seq<char>, i: int, p: spec_fn(char) -> bool) -> nat
    decreases s.len() - i,
{
    if 0 <= i < s.len() && p(s[i]) {
        1 + run_len(s, i + 1, p)
    } else {
        0
    }
}

/// Where the SGR sequence starting at `i` ends, if one starts there.
pub open spec fn sgr_end(s: Seq<char>, i: int) -> Option<int> {
    if 0 <= i && i + 1 < s.len() && s[i] == esc() && s[i + 1] == '[' {
        let k = i + 2 + run_len(s, i + 2, |c: char| is_sgr_param(c));
        if k < s.len() && s[k] == 'm' {
            Some(k + 1)
        } else {
            None
        }
    } else {
        None
    }
}

/// `s[i..]` with every SGR sequence removed, scanning left to right.
pub open spec fn strip_sgr_from(s: Seq<char>, i: int) -> Seq<char>
    decreases s.len() - i,
{
    if i < 0 || i >= s.len() {
        seq![]
    } else {
        match sgr_end(s, i) {
            Some(e) => if i < e <= s.len() {
                strip_sgr_from(s, e)
            } else {
                seq![]
            },
            None => seq![s[i]] + strip_sgr_from(s, i + 1),
        }
    }
}

/// `s` with its SGR (styling) sequences removed.
pub open spec fn strip_ansi_spec(s: Seq<char>) -> Seq<char> {
    strip_sgr_from(s, 0)
}

/// Where the terminator of an OSC string that starts its payload at `j` ends:
/// the first BEL or `ESC \`, with no line feed before it.
pub open spec fn osc_end(s: Seq<char>, j: int) -> Option<int>
    decreases s.len() - j,
{
    if j < 0 || j >= s.len() {
        None
    } else if s[j] == '\x07' {
        Some(j + 1)
    } else if s[j] == esc() && j + 1 < s.len() && s[j + 1] == '\\' {
        Some(j + 2)
    } else if s[j] == '\n' {
        None
    } else {
        osc_end(s, j + 1)
    }
}

/// Where the terminator of a DCS string that starts its payload at `j` ends:
/// the first `ESC \`, with no line feed before it.
pub open spec fn dcs_end(s: Seq<char>, j: int) -> Option<int>
    decreases s.len() - j,
{
    if j < 0 || j >= s.len() {
        None
    } else if s[j] == esc() && j + 1 < s.len() && s[j + 1] == '\\' {
        Some(j + 2)
    } else if s[j] == '\n' {
        None
    } else {
        dcs_end(s, j + 1)
    }
}

/// Where the non-styling CSI sequence starting at `i` (after `ESC [`) ends.
pub open spec fn csi_end(s: Seq<char>, i: int) -> Option<int> {
    let k = i + 2 + run_len(s, i + 2, |c: char| is_csi_param(c));
    let k2 = k + run_len(s, k, |c: char| is_csi_intermediate(c));
    if k2 < s.len() && is_csi_final(s[k2]) {
        Some(k2 + 1)
    } else {
        None
    }
}

/// Where the non-styling escape sequence starting at `i` ends, if one starts there.
pub open spec fn non_style_end(s: Seq<char>, i: int) -> Option<int> {
    if 0 <= i && i + 1 < s.len() && s[i] == esc() {
        if s[i + 1] == '[' {
            csi_end(s, i)
        } else if s[i + 1] == ']' {
            osc_end(s, i + 2)
        } else if s[i + 1] == 'P' {
            dcs_end(s, i + 2)
        } else {
            None
        }
    } else {
        None
    }
}

/// `s[i..]` with every non-styling escape sequence removed, scanning left to right.
pub open spec fn strip_non_style_from(s: Seq<char>, i: int) -> Seq<char>
    decreases s.len() - i,
{
    if i < 0 || i >= s.len() {
        seq![]
    } else {
        match non_style_end(s, i) {
            Some(e) => if i < e <= s.len() {
                strip_non_style_from(s, e)
            } else {
                seq![]
            },
            None => seq![s[i]] + strip_non_style_from(s, i + 1),
        }
    }
}

/// `s` with its non-styling escape sequences removed; styling (SGR) sequences stay.
pub open spec fn strip_non_style_spec(s: Seq<char>) -> Seq<char> {
    strip_non_style_from(s, 0)
}

fn sgr_param_exec(c: char) -> (r: bool)
    ensures
        r == is_sgr_param(c),
{
    ('0' <= c && c <= '9') || c == ';'
}

fn csi_param_exec(c: char) -> (r: bool)
    ensures
        r == is_csi_param(c),
{
    ('0' <= c && c <= '9') || c == ';' || c == '?'
}

fn csi_intermediate_exec(c: char) -> (r: bool)
    ensures
        r == is_csi_intermediate(c),
{
    ' ' <= c && c <= '/'
}

fn csi_final_exec(c: char) -> (r: bool)
    ensures
        r == is_csi_final(c),
{
    ('@' <= c && c <= 'l') || ('n' <= c && c <= '~')
}

proof fn lemma_run_len_bound(s: Seq<char>, i: int, p: spec_fn(char) -> bool)
    requires
        0 <= i <= s.len(),
    ensures
        i + run_len(s, i, p) <= s.len(),
    decreases s.len() - i,
{
    if i < s.len() && p(s[i]) {
        lemma_run_len_bound(s, i + 1, p);
    }
}

/// The end of the run of SGR parameter characters starting at `i`.
fn sgr_param_run(s: &[char], i: usize) -> (k: usize)
    requires
        i <= s@.len(),
    ensures
        k == i + run_len(s@, i as int, |c: char| is_sgr_param(c)),
        k <= s@.len(),
{
    let ghost p = |c: char| is_sgr_param(c);
    let mut k = i;
    assert(run_len(s@, i as int, p) == 0 + run_len(s@, i as int, p));
    while k < s.len() && sgr_param_exec(s[k])
        invariant
            i <= k <= s@.len(),
            p == (|c: char| is_sgr_param(c)),
            run_len(s@, i as int, p) == (k - i) + run_len(s@, k as int, p),
        decreases s@.len() - k,
    {
        assert(p(s@[k as int]));
        assert(run_len(s@, k as int, p) == 1 + run_len(s@, k + 1, p));
        k = k + 1;
    }
    k
}

/// The end of the run of CSI parameter characters starting at `i`.
fn csi_param_run(s: &[char], i: usize) -> (k: usize)
    requires
        i <= s@.len(),
    ensures
        k == i + run_len(s@, i as int, |c: char| is_csi_param(c)),
        k <= s@.len(),
{
    let ghost p = |c: char| is_csi_param(c);
    let mut k = i;
    assert(run_len(s@, i as int, p) == 0 + run_len(s@, i as int, p));
    while k < s.len() && csi_param_exec(s[k])
        invariant
            i <= k <= s@.len(),
            p == (|c: char| is_csi_param(c)),
            run_len(s@, i as int, p) == (k - i) + run_len(s@, k as int, p),
        decreases s@.len() - k,
    {
        assert(p(s@[k as int]));
        assert(run_len(s@, k as int, p) == 1 + run_len(s@, k + 1, p));
        k = k + 1;
    }
    k
}

/// The end of the run of CSI intermediate characters starting at `i`.
fn csi_intermediate_run(s: &[char], i: usize) -> (k: usize)
    requires
        i <= s@.len(),
    ensures
        k == i + run_len(s@, i as int, |c: char| is_csi_intermediate(c)),
        k <= s@.len(),
{
    let ghost p = |c: char| is_csi_intermediate(c);
    let mut k = i;
    assert(run_len(s@, i as int, p) == 0 + run_len(s@, i as int, p));
    while k < s.len() && csi_intermediate_exec(s[k])
        invariant
            i <= k <= s@.len(),
            p == (|c: char| is_csi_intermediate(c)),
            run_len(s@, i as int, p) == (k - i) + run_len(s@, k as int, p),
        decreases s@.len() - k,
    {
        assert(p(s@[k as int]));
        assert(run_len(s@, k as int, p) == 1 + run_len(s@, k + 1, p));
        k = k + 1;
    }
    k
}

/// Where the SGR sequence starting at `i` ends, if one starts there.
fn sgr_end_exec(s: &[char], i: usize) -> (r: Option<usize>)
    requires
        i < s@.len(),
    ensures
        crate::text::same_index(r, sgr_end(s@, i as int)),
        r matches Some(e) ==> i < e <= s@.len(),
{
    if i < s.len() - 1 && s[i] == '\x1b' && s[i + 1] == '[' {
        let k = sgr_param_run(s, i + 2);
        if k < s.len() && s[k] == 'm' {
            Some(k + 1)
        } else {
            None
        }
    } else {
        None
    }
}

fn osc_end_exec(s: &[char], j: usize) -> (r: Option<usize>)
    requires
        j <= s@.len(),
    ensures
        crate::text::same_index(r, osc_end(s@, j as int)),
        r matches Some(e) ==> j < e <= s@.len(),
{
    let n = s.len();
    let mut k = j;
    while k < n
        invariant
            j <= k <= n,
            n == s@.len(),
            osc_end(s@, j as int) == osc_end(s@, k as int),
        decreases n - k,
    {
        if s[k] == '\x07' {
            return Some(k + 1);
        } else if s[k] == '\x1b' && k + 1 < n && s[k + 1] == '\\' {
            return Some(k + 2);
        } else if s[k] == '\n' {
            return None;
        }
        k = k + 1;
    }
    None
}

fn dcs_end_exec(s: &[char], j: usize) -> (r: Option<usize>)
    requires
        j <= s@.len(),
    ensures
        crate::text::same_index(r, dcs_end(s@, j as int)),
        r matches Some(e) ==> j < e <= s@.len(),
{
    let n = s.len();
    let mut k = j;
    while k < n
        invariant
            j <= k <= n,
            n == s@.len(),
            dcs_end(s@, j as int) == dcs_end(s@, k as int),
        decreases n - k,
    {
        if s[k] == '\x1b' && k + 1 < n && s[k + 1] == '\\' {
            return Some(k + 2);
        } else if s[k] == '\n' {
            return None;
        }
        k = k + 1;
    }
    None
}

/// Where the non-styling escape sequence starting at `i` ends, if one starts there.
fn non_style_end_exec(s: &[char], i: usize) -> (r: Option<usize>)
    requires
        i < s@.len(),
    ensures
        crate::text::same_index(r, non_style_end(s@, i as int)),
        r matches Some(e) ==> i < e <= s@.len(),
{
    if i < s.len() - 1 && s[i] == '\x1b' {
        if s[i + 1] == '[' {
            let k = csi_param_run(s, i + 2);
            let k2 = csi_intermediate_run(s, k);
            if k2 < s.len() && csi_final_exec(s[k2]) {
                Some(k2 + 1)
            } else {
                None
            }
        } else if s[i + 1] == ']' {
            osc_end_exec(s, i + 2)
        } else if s[i + 1] == 'P' {
            dcs_end_exec(s, i + 2)
        } else {
            None
        }
    } else {
        None
    }
}

/// The characters of `s` with every SGR (styling) sequence removed.
pub fn strip_ansi_chars(s: &[char]) -> (r: Vec<char>)
    ensures
        r@ == strip_ansi_spec(s@),
{
    let mut out: Vec<char> = Vec::new();
    let mut i: usize = 0;
    while i < s.len()
        invariant
            0 <= i <= s@.len(),
            strip_ansi_spec(s@) == out@ + strip_sgr_from(s@, i as int),
        decreases s@.len() - i,
    {
        match sgr_end_exec(s, i) {
            Some(e) => {
                i = e;
            },
            None => {
                assert(out@ + (seq![s@[i as int]] + strip_sgr_from(s@, i + 1)) =~= out@.push(
                    s@[i as int],
                ) + strip_sgr_from(s@, i + 1));
                out.push(s[i]);
                i = i + 1;
            },
        }
    }
    assert(out@ + strip_sgr_from(s@, i as int) =~= out@);
    out
}

/// `strip_ansi`: the text with every SGR (styling) escape sequence removed.
pub fn strip_ansi(ansi_str: &str) -> (r: String)
    ensures
        r@ == strip_ansi_spec(ansi_str@),
{
    let v = chars_of(ansi_str);
    let out = strip_ansi_chars(&v);
    string_of(&out)
}

/// The characters of `s` with every non-styling escape sequence removed.
pub fn strip_non_style_chars(s: &[char]) -> (r: Vec<char>)
    ensures
        r@ == strip_non_style_spec(s@),
{
    let mut out: Vec<char> = Vec::new();
    let mut i: usize = 0;
    while i < s.len()
        invariant
            0 <= i <= s@.len(),
            strip_non_style_spec(s@) == out@ + strip_non_style_from(s@, i as int),
        decreases s@.len() - i,
    {
        match non_style_end_exec(s, i) {
            Some(e) => {
                i = e;
            },
            None => {
                assert(out@ + (seq![s@[i as int]] + strip_non_style_from(s@, i + 1)) =~= out@.push(
                    s@[i as int],
                ) + strip_non_style_from(s@, i + 1));
                out.push(s[i]);
                i = i + 1;
            },
        }
    }
    assert(out@ + strip_non_style_from(s@, i as int) =~= out@);
    out
}

/// `strip_non_style_ansi`: the text with cursor, screen and other non-styling
/// escape sequences removed, keeping its colors.
pub fn strip_non_style_ansi(text: &str) -> (r: String)
    ensures
        r@ == strip_non_style_spec(text@),
{
    let v = chars_of(text);
    let out = strip_non_style_chars(&v);
    string_of(&out)
}

} // verus!
