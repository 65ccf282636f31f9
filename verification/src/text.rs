//! Character-level text operations, each specified over `Seq<char>`.
//!
//! Text handled by the library is worked on as a sequence of characters; the
//! spec functions here say what `str::trim`, `str::find`, `str::lines` and
//! friends mean on such a sequence, and the executable functions compute them.
use vstd::prelude::*;
use vstd::slice::{slice_subrange, slice_to_vec};

verus! {

// ---------------------------------------------------------------------------
// Whitespace
// ---------------------------------------------------------------------------

/// The characters with Unicode's `White_Space` property.
pub open spec fn is_whitespace(c: char) -> bool {
    let u = c as u32;
    ||| (0x09 <= u && u <= 0x0D)
    ||| u == 0x20
    ||| u == 0x85
    ||| u == 0xA0
    ||| u == 0x1680
    ||| (0x2000 <= u && u <= 0x200A)
    ||| u == 0x2028
    ||| u == 0x2029
    ||| u == 0x202F
    ||| u == 0x205F
    ||| u == 0x3000
}

/// Whether `c` has Unicode's `White_Space` property, as `char::is_whitespace` tells.
pub fn char_is_whitespace(c: char) -> (r: bool)
    ensures
        r == is_whitespace(c),
{
    let u = c as u32;
    (0x09 <= u && u <= 0x0D) || u == 0x20 || u == 0x85 || u == 0xA0 || u == 0x1680 || (0x2000 <= u
        && u <= 0x200A) || u == 0x2028 || u == 0x2029 || u == 0x202F || u == 0x205F || u == 0x3000
}

/// `String::push`: appends one character.
#[verifier::external_body]
pub(crate) fn string_push(s: &mut String, c: char)
    ensures
        final(s)@ == old(s)@.push(c),
{
    s.push(c)
}

/// The characters of `s`, in order.
pub fn chars_of(s: &str) -> (v: Vec<char>)
    ensures
        v@ == s@,
{
    let mut v: Vec<char> = Vec::new();
    for c in it: s.chars()
        invariant
            v@ == it.seq().take(it.index() as int),
    {
        v.push(c);
    }
    v
}

/// A `String` holding exactly the characters of `v`.
pub fn string_of(v: &[char]) -> (s: String)
    ensures
        s@ == v@,
{
    let mut s = String::new();
    let mut i: usize = 0;
    while i < v.len()
        invariant
            0 <= i <= v@.len(),
            s@ == v@.take(i as int),
        decreases v@.len() - i,
    {
        string_push(&mut s, v[i]);
        assert(v@.take(i + 1) =~= v@.take(i as int).push(v@[i as int]));
        i = i + 1;
    }
    assert(v@.take(v@.len() as int) =~= v@);
    s
}

/// The characters `v[lo..hi]` as a new vector.
pub fn sub_chars(v: &[char], lo: usize, hi: usize) -> (r: Vec<char>)
    requires
        lo <= hi <= v@.len(),
    ensures
        r@ == v@.subrange(lo as int, hi as int),
{
    slice_to_vec(slice_subrange(v, lo, hi))
}

/// Whether every character of `s` has the `White_Space` property.
pub open spec fn all_whitespace(s: Seq<char>) -> bool {
    forall|i: int| 0 <= i < s.len() ==> is_whitespace(#[trigger] s[i])
}

/// Whether `c` occurs nowhere in `s`.
pub open spec fn lacks(s: Seq<char>, c: char) -> bool {
    forall|i: int| 0 <= i < s.len() ==> #[trigger] s[i] != c
}

// ---------------------------------------------------------------------------
// trim
// ---------------------------------------------------------------------------

/// `str::trim_start`: drops leading whitespace.
pub open spec fn trim_start(s: Seq<char>) -> Seq<char>
    decreases s.len(),
{
    if s.len() > 0 && is_whitespace(s[0]) {
        trim_start(s.drop_first())
    } else {
        s
    }
}

/// `str::trim_end`: drops trailing whitespace.
pub open spec fn trim_end(s: Seq<char>) -> Seq<char>
    decreases s.len(),
{
    if s.len() > 0 && is_whitespace(s.last()) {
        trim_end(s.drop_last())
    } else {
        s
    }
}

/// `str::trim`: drops leading and trailing whitespace.
pub open spec fn trim(s: Seq<char>) -> Seq<char> {
    trim_end(trim_start(s))
}

/// A text is blank when it trims to nothing.
pub open spec fn is_blank(s: Seq<char>) -> bool {
    trim(s).len() == 0
}

proof fn lemma_trim_start_step(s: Seq<char>, i: int)
    requires
        0 <= i < s.len(),
        is_whitespace(s[i]),
    ensures
        trim_start(s.subrange(i, s.len() as int)) == trim_start(s.subrange(i + 1, s.len() as int)),
{
    assert(s.subrange(i, s.len() as int).drop_first() =~= s.subrange(i + 1, s.len() as int));
}

proof fn lemma_trim_end_step(s: Seq<char>, lo: int, hi: int)
    requires
        0 <= lo < hi <= s.len(),
        is_whitespace(s[hi - 1]),
    ensures
        trim_end(s.subrange(lo, hi)) == trim_end(s.subrange(lo, hi - 1)),
{
    assert(s.subrange(lo, hi).drop_last() =~= s.subrange(lo, hi - 1));
}

/// The bounds `(lo, hi)` of `trim(s)` within `s`.
pub fn trim_bounds(s: &[char]) -> (r: (usize, usize))
    ensures
        r.0 <= r.1 <= s@.len(),
        trim(s@) == s@.subrange(r.0 as int, r.1 as int),
        all_whitespace(s@.subrange(0, r.0 as int)),
        all_whitespace(s@.subrange(r.1 as int, s@.len() as int)),
        r.0 < r.1 ==> !is_whitespace(s@[r.0 as int]) && !is_whitespace(s@[r.1 - 1]),
{
    let n = s.len();
    let mut lo: usize = 0;
    assert(s@.subrange(0, n as int) =~= s@);
    while lo < n && char_is_whitespace(s[lo])
        invariant
            0 <= lo <= n,
            n == s@.len(),
            trim_start(s@) == trim_start(s@.subrange(lo as int, n as int)),
            all_whitespace(s@.subrange(0, lo as int)),
        decreases n - lo,
    {
        proof {
            lemma_trim_start_step(s@, lo as int);
        }
        assert(s@.subrange(0, lo + 1) =~= s@.subrange(0, lo as int).push(s@[lo as int]));
        lo = lo + 1;
    }
    let ghost t = s@.subrange(lo as int, n as int);
    assert(trim_start(t) == t);
    let mut hi: usize = n;
    assert(s@.subrange(lo as int, hi as int) == t);
    while hi > lo && char_is_whitespace(s[hi - 1])
        invariant
            lo <= hi <= n,
            n == s@.len(),
            t == s@.subrange(lo as int, n as int),
            trim_end(t) == trim_end(s@.subrange(lo as int, hi as int)),
            all_whitespace(s@.subrange(hi as int, n as int)),
        decreases hi - lo,
    {
        proof {
            lemma_trim_end_step(s@, lo as int, hi as int);
        }
        assert(s@.subrange(hi - 1, n as int) =~= seq![s@[hi - 1]] + s@.subrange(hi as int, n as int));
        hi = hi - 1;
    }
    let ghost u = s@.subrange(lo as int, hi as int);
    assert(trim_end(u) == u);
    (lo, hi)
}

/// `str::trim` on characters.
pub fn trim_chars(s: &[char]) -> (r: Vec<char>)
    ensures
        r@ == trim(s@),
{
    let (lo, hi) = trim_bounds(s);
    sub_chars(s, lo, hi)
}

/// Whether `s` trims to nothing.
pub fn blank_chars(s: &[char]) -> (r: bool)
    ensures
        r == is_blank(s@),
{
    let (lo, hi) = trim_bounds(s);
    lo == hi
}

/// `str::trim` on a string.
pub fn trim_str(s: &str) -> (r: String)
    ensures
        r@ == trim(s@),
{
    let v = chars_of(s);
    let t = trim_chars(&v);
    string_of(&t)
}

// ---------------------------------------------------------------------------
// find, rfind, starts_with
// ---------------------------------------------------------------------------

/// `pat` occurs in `s` starting at index `i`.
pub open spec fn matches_at(s: Seq<char>, pat: Seq<char>, i: int) -> bool {
    0 <= i && i + pat.len() <= s.len() && s.subrange(i, i + pat.len()) == pat
}

/// The first index at or after `i` where `pat` occurs in `s`.
pub open spec fn find_from(s: Seq<char>, pat: Seq<char>, i: int) -> Option<int>
    decreases s.len() + 1 - i,
{
    if i < 0 || i + pat.len() > s.len() {
        None
    } else if matches_at(s, pat, i) {
        Some(i)
    } else {
        find_from(s, pat, i + 1)
    }
}

/// `str::find`: the first index where `pat` occurs in `s`.
pub open spec fn find(s: Seq<char>, pat: Seq<char>) -> Option<int> {
    find_from(s, pat, 0)
}

/// The last index below `k` where `pat` occurs in `s`.
pub open spec fn rfind_below(s: Seq<char>, pat: Seq<char>, k: int) -> Option<int>
    decreases k,
{
    if k <= 0 {
        None
    } else if matches_at(s, pat, k - 1) {
        Some(k - 1)
    } else {
        rfind_below(s, pat, k - 1)
    }
}

/// `str::rfind`: the last index where `pat` occurs in `s`.
pub open spec fn rfind(s: Seq<char>, pat: Seq<char>) -> Option<int> {
    rfind_below(s, pat, s.len() + 1int)
}

/// `str::starts_with`.
pub open spec fn starts_with(s: Seq<char>, pat: Seq<char>) -> bool {
    matches_at(s, pat, 0)
}

/// The executable index `r` stands for the spec result `o`.
pub open spec fn same_index(r: Option<usize>, o: Option<int>) -> bool {
    match r {
        Some(i) => o == Some(i as int),
        None => o is None,
    }
}

/// Whether `pat` occurs in `s` at index `i`.
pub fn matches_at_exec(s: &[char], pat: &[char], i: usize) -> (r: bool)
    ensures
        r == matches_at(s@, pat@, i as int),
{
    let n = s.len();
    if i > n || pat.len() > n - i {
        return false;
    }
    let mut k: usize = 0;
    while k < pat.len()
        invariant
            n == s@.len(),
            i + pat@.len() <= s@.len(),
            0 <= k <= pat@.len(),
            s@.subrange(i as int, i + k) =~= pat@.subrange(0, k as int),
        decreases pat@.len() - k,
    {
        if s[i + k] != pat[k] {
            assert(s@.subrange(i as int, i + pat@.len())[k as int] != pat@[k as int]);
            return false;
        }
        k = k + 1;
        assert(s@.subrange(i as int, i + k) =~= pat@.subrange(0, k as int));
    }
    assert(pat@.subrange(0, pat@.len() as int) =~= pat@);
    true
}

/// `str::find` starting from index `from`.
pub fn find_from_exec(s: &[char], pat: &[char], from: usize) -> (r: Option<usize>)
    ensures
        same_index(r, find_from(s@, pat@, from as int)),
        r matches Some(i) ==> from <= i && i + pat@.len() <= s@.len(),
{
    let n = s.len();
    let mut i = from;
    while i <= n && pat.len() <= n - i
        invariant
            from <= i,
            n == s@.len(),
            find_from(s@, pat@, from as int) == find_from(s@, pat@, i as int),
        decreases s@.len() + 1 - i,
    {
        if matches_at_exec(s, pat, i) {
            return Some(i);
        }
        if i == n {
            assert(s@.subrange(i as int, i as int) =~= pat@);
            assert(false);
        }
        i = i + 1;
    }
    None
}

/// `str::find`.
pub fn find_exec(s: &[char], pat: &[char]) -> (r: Option<usize>)
    ensures
        same_index(r, find(s@, pat@)),
        r matches Some(i) ==> i + pat@.len() <= s@.len(),
{
    find_from_exec(s, pat, 0)
}

/// `str::rfind`.
pub fn rfind_exec(s: &[char], pat: &[char]) -> (r: Option<usize>)
    ensures
        same_index(r, rfind(s@, pat@)),
        r matches Some(i) ==> i + pat@.len() <= s@.len(),
{
    if pat.len() > s.len() {
        proof {
            lemma_rfind_below_none(s@, pat@, s@.len() + 1int);
        }
        return None;
    }
    let mut j: usize = s.len() - pat.len();
    proof {
        lemma_rfind_below_skip(s@, pat@, s@.len() + 1int, j + 1);
    }
    loop
        invariant
            0 <= j <= s@.len() - pat@.len(),
            pat@.len() <= s@.len(),
            rfind(s@, pat@) == rfind_below(s@, pat@, j + 1),
        decreases j,
    {
        if matches_at_exec(s, pat, j) {
            return Some(j);
        }
        if j == 0 {
            assert(rfind_below(s@, pat@, 0) is None);
            return None;
        }
        j = j - 1;
    }
}

proof fn lemma_rfind_below_none(s: Seq<char>, pat: Seq<char>, k: int)
    requires
        pat.len() > s.len(),
    ensures
        rfind_below(s, pat, k) is None,
    decreases k,
{
    if k > 0 {
        lemma_rfind_below_none(s, pat, k - 1);
    }
}

proof fn lemma_rfind_below_skip(s: Seq<char>, pat: Seq<char>, k: int, j: int)
    requires
        0 <= j <= k,
        j >= s.len() - pat.len() + 1,
    ensures
        rfind_below(s, pat, k) == rfind_below(s, pat, j),
    decreases k - j,
{
    if k > j {
        lemma_rfind_below_skip(s, pat, k - 1, j);
    }
}

/// `str::starts_with`.
pub fn starts_with_exec(s: &[char], pat: &[char]) -> (r: bool)
    ensures
        r == starts_with(s@, pat@),
{
    matches_at_exec(s, pat, 0)
}

/// The character sequences held by a sequence of character vectors.
pub open spec fn seqs_of(v: Seq<Vec<char>>) -> Seq<Seq<char>> {
    Seq::new(v.len(), |i: int| v[i]@)
}

// ---------------------------------------------------------------------------
// lines
// ---------------------------------------------------------------------------

/// A line with one trailing carriage return removed, as `str::lines` does
/// before a line feed.
pub open spec fn strip_cr(l: Seq<char>) -> Seq<char> {
    if l.len() > 0 && l.last() == '\r' {
        l.drop_last()
    } else {
        l
    }
}

/// The lines of `s`, given that `cur` is the start of the current line.
pub open spec fn lines_acc(s: Seq<char>, cur: Seq<char>) -> Seq<Seq<char>>
    decreases s.len(),
{
    if s.len() == 0 {
        if cur.len() == 0 {
            seq![]
        } else {
            seq![cur]
        }
    } else if s[0] == '\n' {
        seq![strip_cr(cur)] + lines_acc(s.drop_first(), seq![])
    } else {
        lines_acc(s.drop_first(), cur.push(s[0]))
    }
}

/// `str::lines`: split at `\n` (dropping a `\r` before it); a final line
/// ending adds no empty line.
pub open spec fn lines(s: Seq<char>) -> Seq<Seq<char>> {
    lines_acc(s, seq![])
}

/// `str::lines`.
pub fn lines_exec(s: &[char]) -> (r: Vec<Vec<char>>)
    ensures
        seqs_of(r@) == lines(s@),
{
    let mut out: Vec<Vec<char>> = Vec::new();
    let mut cur: Vec<char> = Vec::new();
    let mut i: usize = 0;
    assert(s@.skip(0) =~= s@);
    assert(seqs_of(out@) =~= Seq::<Seq<char>>::empty());
    while i < s.len()
        invariant
            0 <= i <= s@.len(),
            lines(s@) == seqs_of(out@) + lines_acc(s@.skip(i as int), cur@),
        decreases s@.len() - i,
    {
        let ghost old_out = seqs_of(out@);
        let ghost old_cur = cur@;
        assert(s@.skip(i as int).drop_first() =~= s@.skip(i + 1));
        if s[i] == '\n' {
            let mut line = cur;
            let len = line.len();
            if len > 0 && line[len - 1] == '\r' {
                line.pop();
            }
            assert(line@ == strip_cr(old_cur));
            out.push(line);
            cur = Vec::new();
            assert(seqs_of(out@) =~= old_out.push(strip_cr(old_cur)));
            assert(old_out + (seq![strip_cr(old_cur)] + lines_acc(s@.skip(i + 1), seq![]))
                =~= seqs_of(out@) + lines_acc(s@.skip(i + 1), cur@));
        } else {
            cur.push(s[i]);
        }
        i = i + 1;
    }
    let ghost old_out = seqs_of(out@);
    assert(s@.skip(i as int) =~= Seq::<char>::empty());
    if cur.len() > 0 {
        let ghost c = cur@;
        out.push(cur);
        assert(seqs_of(out@) =~= old_out.push(c));
        assert(seqs_of(out@) =~= old_out + seq![c]);
    } else {
        assert(old_out + Seq::<Seq<char>>::empty() =~= old_out);
    }
    out
}

// ---------------------------------------------------------------------------
// join
// ---------------------------------------------------------------------------

/// `[T]::join`: the parts with `sep` between each two.
pub open spec fn join(parts: Seq<Seq<char>>, sep: Seq<char>) -> Seq<char>
    decreases parts.len(),
{
    if parts.len() == 0 {
        seq![]
    } else if parts.len() == 1 {
        parts[0]
    } else {
        join(parts.drop_last(), sep) + sep + parts.last()
    }
}

/// `[T]::join` on character vectors.
pub fn join_exec(parts: &Vec<Vec<char>>, sep: &[char]) -> (r: Vec<char>)
    ensures
        r@ == join(seqs_of(parts@), sep@),
{
    let mut r: Vec<char> = Vec::new();
    let mut i: usize = 0;
    while i < parts.len()
        invariant
            0 <= i <= parts@.len(),
            r@ == join(seqs_of(parts@).take(i as int), sep@),
        decreases parts@.len() - i,
    {
        let ghost prev = r@;
        if i > 0 {
            append_chars(&mut r, sep);
        }
        append_chars(&mut r, parts[i].as_slice());
        proof {
            let dv = seqs_of(parts@);
            assert(dv.take(i + 1).drop_last() =~= dv.take(i as int));
            assert(dv.take(i + 1).last() == parts@[i as int]@);
            if i == 0 {
                assert(r@ =~= dv.take(1)[0]);
            }
        }
        i = i + 1;
    }
    assert(seqs_of(parts@).take(parts@.len() as int) =~= seqs_of(parts@));
    r
}

/// Appends the characters of `s` to `v`.
pub fn append_chars(v: &mut Vec<char>, s: &[char])
    ensures
        final(v)@ == old(v)@ + s@,
{
    let mut i: usize = 0;
    while i < s.len()
        invariant
            0 <= i <= s@.len(),
            v@ == old(v)@ + s@.take(i as int),
        decreases s@.len() - i,
    {
        v.push(s[i]);
        assert(s@.take(i + 1) =~= s@.take(i as int).push(s@[i as int]));
        i = i + 1;
    }
    assert(s@.take(s@.len() as int) =~= s@);
}

// ---------------------------------------------------------------------------
// split, split_whitespace
// ---------------------------------------------------------------------------

/// The pieces of `s` between occurrences of `pat`, found left to right,
/// given that `cur` is the start of the current piece.
pub open spec fn split_acc(s: Seq<char>, pat: Seq<char>, cur: Seq<char>) -> Seq<Seq<char>>
    decreases s.len(),
{
    if s.len() == 0 {
        seq![cur]
    } else if pat.len() > 0 && starts_with(s, pat) {
        seq![cur] + split_acc(s.skip(pat.len() as int), pat, seq![])
    } else {
        split_acc(s.drop_first(), pat, cur.push(s[0]))
    }
}

/// `str::split` with a non-empty string pattern.
pub open spec fn split(s: Seq<char>, pat: Seq<char>) -> Seq<Seq<char>> {
    split_acc(s, pat, seq![])
}

/// `str::split` with a non-empty string pattern.
pub fn split_exec(s: &[char], pat: &[char]) -> (r: Vec<Vec<char>>)
    requires
        pat@.len() > 0,
    ensures
        seqs_of(r@) == split(s@, pat@),
{
    let mut out: Vec<Vec<char>> = Vec::new();
    let mut cur: Vec<char> = Vec::new();
    let mut i: usize = 0;
    assert(s@.skip(0) =~= s@);
    assert(seqs_of(out@) =~= Seq::<Seq<char>>::empty());
    while i < s.len()
        invariant
            0 <= i <= s@.len(),
            pat@.len() > 0,
            split(s@, pat@) == seqs_of(out@) + split_acc(s@.skip(i as int), pat@, cur@),
        decreases s@.len() - i,
    {
        let ghost old_out = seqs_of(out@);
        let ghost old_cur = cur@;
        let ghost rest = s@.skip(i as int);
        let hit = matches_at_exec(s, pat, i);
        assert(hit == starts_with(rest, pat@)) by {
            if hit {
                assert(rest.subrange(0, pat@.len() as int) =~= s@.subrange(i as int, i + pat@.len()));
            }
            if starts_with(rest, pat@) {
                assert(rest.subrange(0, pat@.len() as int) =~= s@.subrange(i as int, i + pat@.len()));
            }
        }
        if hit {
            out.push(cur);
            cur = Vec::new();
            assert(seqs_of(out@) =~= old_out.push(old_cur));
            assert(rest.skip(pat@.len() as int) =~= s@.skip(i + pat@.len()));
            assert(old_out + (seq![old_cur] + split_acc(rest.skip(pat@.len() as int), pat@, seq![]))
                =~= seqs_of(out@) + split_acc(s@.skip(i + pat@.len()), pat@, cur@));
            i = i + pat.len();
        } else {
            assert(rest.drop_first() =~= s@.skip(i + 1));
            cur.push(s[i]);
            i = i + 1;
        }
    }
    let ghost old_out = seqs_of(out@);
    assert(s@.skip(i as int) =~= Seq::<char>::empty());
    let ghost c = cur@;
    out.push(cur);
    assert(seqs_of(out@) =~= old_out + seq![c]);
    out
}

/// The whitespace-separated words of `s`, given that `cur` is the start of
/// the current word.
pub open spec fn words_acc(s: Seq<char>, cur: Seq<char>) -> Seq<Seq<char>>
    decreases s.len(),
{
    if s.len() == 0 {
        if cur.len() == 0 {
            seq![]
        } else {
            seq![cur]
        }
    } else if is_whitespace(s[0]) {
        (if cur.len() == 0 {
            seq![]
        } else {
            seq![cur]
        }) + words_acc(s.drop_first(), seq![])
    } else {
        words_acc(s.drop_first(), cur.push(s[0]))
    }
}

/// `str::split_whitespace`: the non-empty runs of non-whitespace characters.
pub open spec fn split_whitespace(s: Seq<char>) -> Seq<Seq<char>> {
    words_acc(s, seq![])
}

/// `str::split_whitespace`, each word as a `String`.
pub fn split_whitespace_exec(s: &[char]) -> (r: Vec<String>)
    ensures
        strings_of(r@) == split_whitespace(s@),
{
    let mut out: Vec<String> = Vec::new();
    let mut cur: Vec<char> = Vec::new();
    let mut i: usize = 0;
    assert(s@.skip(0) =~= s@);
    assert(strings_of(out@) =~= Seq::<Seq<char>>::empty());
    while i < s.len()
        invariant
            0 <= i <= s@.len(),
            split_whitespace(s@) == strings_of(out@) + words_acc(s@.skip(i as int), cur@),
        decreases s@.len() - i,
    {
        let ghost old_out = strings_of(out@);
        let ghost old_cur = cur@;
        assert(s@.skip(i as int).drop_first() =~= s@.skip(i + 1));
        if char_is_whitespace(s[i]) {
            if cur.len() > 0 {
                let w = string_of(&cur);
                out.push(w);
                assert(strings_of(out@) =~= old_out + seq![old_cur]);
                cur = Vec::new();
                assert(old_out + (seq![old_cur] + words_acc(s@.skip(i + 1), seq![]))
                    =~= strings_of(out@) + words_acc(s@.skip(i + 1), cur@));
            } else {
                assert(Seq::<Seq<char>>::empty() + words_acc(s@.skip(i + 1), seq![])
                    =~= words_acc(s@.skip(i + 1), seq![]));
                assert(cur@ =~= Seq::<char>::empty());
            }
        } else {
            cur.push(s[i]);
        }
        i = i + 1;
    }
    let ghost old_out = strings_of(out@);
    assert(s@.skip(i as int) =~= Seq::<char>::empty());
    if cur.len() > 0 {
        let ghost c = cur@;
        let w = string_of(&cur);
        out.push(w);
        assert(strings_of(out@) =~= old_out + seq![c]);
    } else {
        assert(old_out + Seq::<Seq<char>>::empty() =~= old_out);
    }
    out
}

} // verus!

verus! {

/// The character sequences of string slices.
pub open spec fn strs_of(v: Seq<&str>) -> Seq<Seq<char>> {
    Seq::new(v.len(), |i: int| v[i]@)
}

/// The character sequences held by a sequence of strings.
pub open spec fn strings_of(v: Seq<String>) -> Seq<Seq<char>> {
    Seq::new(v.len(), |i: int| v[i]@)
}

/// A `String` holding the characters of a string literal.
pub fn lit(s: &str) -> (r: String)
    ensures
        r@ == s@,
{
    String::from_str(s)
}

/// `[String]::join`.
pub fn join_strings(parts: &[String], sep: &str) -> (r: String)
    ensures
        r@ == join(strings_of(parts@), sep@),
{
    let mut r = String::new();
    let mut i: usize = 0;
    while i < parts.len()
        invariant
            0 <= i <= parts@.len(),
            r@ == join(strings_of(parts@).take(i as int), sep@),
        decreases parts@.len() - i,
    {
        if i > 0 {
            r.append(sep);
        }
        r.append(parts[i].as_str());
        proof {
            let dv = strings_of(parts@);
            assert(dv.take(i + 1).drop_last() =~= dv.take(i as int));
            assert(dv.take(i + 1).last() == parts@[i as int]@);
            if i == 0 {
                assert(r@ =~= dv.take(1)[0]);
            }
        }
        i = i + 1;
    }
    assert(strings_of(parts@).take(parts@.len() as int) =~= strings_of(parts@));
    r
}

/// `trim_start` keeps a suffix that is empty or starts with a non-whitespace character.
pub proof fn lemma_trim_start_shape(s: Seq<char>)
    ensures
        exists|k: int| 0 <= k <= s.len() && trim_start(s) == s.skip(k),
        trim_start(s).len() == 0 || !is_whitespace(trim_start(s)[0]),
    decreases s.len(),
{
    if s.len() > 0 && is_whitespace(s[0]) {
        lemma_trim_start_shape(s.drop_first());
        let k = choose|k: int| 0 <= k <= s.drop_first().len() && trim_start(s.drop_first()) == s.drop_first().skip(k);
        assert(s.drop_first().skip(k) =~= s.skip(k + 1));
    } else {
        assert(s.skip(0) =~= s);
    }
}

/// `trim_end` keeps a prefix that is empty or ends with a non-whitespace character.
pub proof fn lemma_trim_end_shape(s: Seq<char>)
    ensures
        exists|k: int| 0 <= k <= s.len() && trim_end(s) == s.take(k),
        trim_end(s).len() == 0 || !is_whitespace(trim_end(s).last()),
    decreases s.len(),
{
    if s.len() > 0 && is_whitespace(s.last()) {
        lemma_trim_end_shape(s.drop_last());
        let k = choose|k: int| 0 <= k <= s.drop_last().len() && trim_end(s.drop_last()) == s.drop_last().take(k);
        assert(s.drop_last().take(k) =~= s.take(k));
    } else {
        assert(s.take(s.len() as int) =~= s);
    }
}

/// Trimming is idempotent: a trimmed text has nothing left to trim.
pub proof fn lemma_trim_idempotent(s: Seq<char>)
    ensures
        trim(trim(s)) == trim(s),
{
    let u = trim_start(s);
    lemma_trim_start_shape(s);
    lemma_trim_end_shape(u);
    let w = trim_end(u);
    let k = choose|k: int| 0 <= k <= u.len() && trim_end(u) == u.take(k);
    if w.len() > 0 {
        assert(w[0] == u[0]);
    }
    assert(trim_start(w) == w);
    assert(trim_end(w) == w);
}

} // verus!

verus! {

/// `find_from` finds a match at or before any match at or after its start.
pub proof fn lemma_find_from_le(s: Seq<char>, pat: Seq<char>, i: int, j: int)
    requires
        0 <= i <= j,
        matches_at(s, pat, j),
    ensures
        find_from(s, pat, i) matches Some(k) && i <= k <= j && matches_at(s, pat, k),
    decreases j - i,
{
    if !matches_at(s, pat, i) {
        lemma_find_from_le(s, pat, i + 1, j);
    }
}

/// What `find_from` returns is a match at or after its start.
pub proof fn lemma_find_from_found(s: Seq<char>, pat: Seq<char>, i: int)
    ensures
        find_from(s, pat, i) matches Some(k) ==> i <= k && matches_at(s, pat, k),
    decreases s.len() + 1 - i,
{
    if !(i < 0 || i + pat.len() > s.len()) && !matches_at(s, pat, i) {
        lemma_find_from_found(s, pat, i + 1);
    }
}

/// What `rfind_below` returns is a match below its bound.
pub proof fn lemma_rfind_below_found(s: Seq<char>, pat: Seq<char>, k: int)
    ensures
        rfind_below(s, pat, k) matches Some(j) ==> j < k && matches_at(s, pat, j),
    decreases k,
{
    if k > 0 && !matches_at(s, pat, k - 1) {
        lemma_rfind_below_found(s, pat, k - 1);
    }
}

/// `rfind_below` finds a match at or after any match below its bound.
pub proof fn lemma_rfind_below_ge(s: Seq<char>, pat: Seq<char>, k: int, j: int)
    requires
        0 <= j < k,
        matches_at(s, pat, j),
    ensures
        rfind_below(s, pat, k) matches Some(x) && j <= x < k,
    decreases k,
{
    if !matches_at(s, pat, k - 1) {
        lemma_rfind_below_ge(s, pat, k - 1, j);
    }
}

// ---------------------------------------------------------------------------
// Numbers and quoting
// ---------------------------------------------------------------------------

/// The decimal digit for `d` (0 to 9).
pub open spec fn digit_char(d: nat) -> char {
    seq!['0', '1', '2', '3', '4', '5', '6', '7', '8', '9'][d as int]
}

/// The decimal notation of `n`, as `{}` writes an unsigned integer.
pub open spec fn decimal(n: nat) -> Seq<char>
    decreases n,
{
    if n < 10 {
        seq![digit_char(n)]
    } else {
        decimal(n / 10).push(digit_char(n % 10))
    }
}

/// The decimal notation of `n`.
pub fn decimal_exec(n: usize) -> (r: Vec<char>)
    ensures
        r@ == decimal(n as nat),
    decreases n,
{
    let digits: [char; 10] = ['0', '1', '2', '3', '4', '5', '6', '7', '8', '9'];
    assert(digits@ =~= seq!['0', '1', '2', '3', '4', '5', '6', '7', '8', '9']);
    if n < 10 {
        vec![digits[n]]
    } else {
        let mut r = decimal_exec(n / 10);
        r.push(digits[n % 10]);
        r
    }
}

/// The text that `{:?}` writes for a `str`: the characters in double quotes,
/// with quotes, backslashes and control characters escaped. It depends on
/// the text alone.
pub uninterp spec fn str_debug(s: Seq<char>) -> Seq<char>;

/// `format!("{:?}", s)`: std's `Debug` for `str`, named by `str_debug`.
#[verifier::external_body]
pub(crate) fn debug_str(s: &str) -> (r: String)
    ensures
        r@ == str_debug(s@),
{
    format!("{:?}", s)
}

} // verus!
