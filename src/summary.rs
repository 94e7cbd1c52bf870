//! Summary extraction and title synthesis for sections of Markdown text.
//!
//! Every function here works on the characters of the text; the spec
//! functions say what each result is, and the executable functions are
//! proved to compute exactly that.

use vstd::prelude::*;
use crate::text::{
    append_chars, chars_of, copy_range, ellipsis, is_whitespace_char, is_ws, skip_end,
    string_of, trim, trim_end, trim_range, trimmed, lemma_trim_starts_with_word,
};

verus! {

/// Hard cap on the length of a summary, in characters.
pub const MAX_SUMMARY_CHARS: usize = 1000;

/// Length kept of a text that has no paragraph break.
pub const FALLBACK_CHARS: usize = 200;

/// Longest title synthesised from content, in characters.
pub const MAX_TITLE_CHARS: usize = 30;

/// Number of consecutive backticks in `s` starting at `i`.
pub open spec fn run_len(s: Seq<char>, i: int) -> nat
    decreases s.len() - i,
{
    if 0 <= i < s.len() && s[i] == '`' {
        1 + run_len(s, i + 1)
    } else {
        0
    }
}

/// The first position at or after `i` where a run of at least `m` backticks starts.
pub open spec fn next_fence(s: Seq<char>, i: int, m: nat) -> Option<int>
    decreases s.len() - i,
{
    if i >= s.len() {
        None
    } else if run_len(s, i) >= m {
        Some(i)
    } else {
        next_fence(s, i + 1, m)
    }
}

/// The position just after the fence that closes the first fenced block of
/// `s`: the opening fence is the first run of three or more backticks, the
/// closing one the next run at least as long.
pub open spec fn code_block_end(s: Seq<char>) -> Option<int> {
    match next_fence(s, 0, 3) {
        None => None,
        Some(o) => match next_fence(s, o + run_len(s, o), run_len(s, o)) {
            None => None,
            Some(c) => Some(c + run_len(s, c)),
        },
    }
}

/// The first position at or after `i` of a blank line, that is of `"\n\n"`.
pub open spec fn para_break(s: Seq<char>, i: int) -> Option<int>
    decreases s.len() - i,
{
    if i + 1 >= s.len() {
        None
    } else if s[i] == '\n' && s[i + 1] == '\n' {
        Some(i)
    } else {
        para_break(s, i + 1)
    }
}

/// A sentence terminator: `.`, `!`, `?` or their full-width forms.
pub open spec fn is_term(c: char) -> bool {
    c == '.' || c == '!' || c == '?' || c == '。' || c == '！' || c == '？'
}

/// Whether `s` opens with a code fence.
pub open spec fn starts_with_fence(s: Seq<char>) -> bool {
    s.len() >= 3 && s[0] == '`' && s[1] == '`' && s[2] == '`'
}

/// The last position below `i` of a terminator that is followed by
/// whitespace or sits right before `limit`.
pub open spec fn last_cut(s: Seq<char>, limit: int, i: int) -> Option<int>
    decreases i,
{
    if i <= 0 {
        None
    } else if is_term(s[i - 1]) && (i == limit || is_ws(s[i])) {
        Some(i - 1)
    } else {
        last_cut(s, limit, i - 1)
    }
}

/// The smaller of `a` and `b`.
pub open spec fn min_int(a: int, b: int) -> int {
    if a < b {
        a
    } else {
        b
    }
}

/// `s` cut to at most `max` characters: after the last sentence terminator
/// before the limit, or at the limit with an ellipsis where none is found
/// and text was dropped.
pub open spec fn truncated(s: Seq<char>, max: int) -> Seq<char> {
    let limit = min_int(max, s.len() as int);
    match last_cut(s, limit, limit) {
        Some(j) => s.take(j + 1),
        None => if limit < s.len() {
            trim_end(s.take(limit)) + ellipsis()
        } else {
            s.take(limit)
        },
    }
}

/// Where the excerpt of trimmed, non-empty text `t` ends, if before its end.
pub open spec fn excerpt_end(t: Seq<char>) -> Option<int> {
    if starts_with_fence(t) {
        code_block_end(t)
    } else {
        para_break(t, 0)
    }
}

/// The excerpt of trimmed text `t` (its first fenced block or first
/// paragraph), capped in length.
pub open spec fn capped_excerpt(t: Seq<char>) -> Seq<char> {
    let end = excerpt_end(t);
    let x = match end {
        Some(p) => t.take(p),
        None => t,
    };
    if x.len() > MAX_SUMMARY_CHARS {
        truncated(x, MAX_SUMMARY_CHARS as int)
    } else if x.len() > FALLBACK_CHARS && end is None {
        truncated(x, FALLBACK_CHARS as int)
    } else {
        x
    }
}

/// The summary of a text: its first fenced block or first paragraph,
/// capped in length, trimmed.
pub open spec fn summary_of(c: Seq<char>) -> Seq<char> {
    let t = trim(c);
    if t.len() == 0 {
        Seq::empty()
    } else {
        trim(capped_excerpt(t))
    }
}

/// Whether `c` is a sentence terminator.
pub fn is_terminator(c: char) -> (r: bool)
    ensures
        r == is_term(c),
{
    c == '.' || c == '!' || c == '?' || c == '。' || c == '！' || c == '？'
}

/// Number of consecutive backticks in `v` from position `i` on.
pub fn count_backticks_bytes(v: &[char], i: usize) -> (r: usize)
    requires
        i <= v@.len(),
    ensures
        r == run_len(v@, i as int),
        i + r <= v@.len(),
{
    let mut j: usize = i;
    while j < v.len() && v[j] == '`'
        invariant
            i <= j <= v@.len(),
            run_len(v@, i as int) == (j - i) + run_len(v@, j as int),
        decreases v@.len() - j,
    {
        j = j + 1;
    }
    j - i
}

/// The first position at or after `i` where at least `m` backticks run.
fn find_fence(v: &[char], i: usize, m: usize) -> (r: Option<usize>)
    requires
        i <= v@.len(),
        m >= 1,
    ensures
        r is None <==> next_fence(v@, i as int, m as nat) is None,
        r matches Some(p) ==> next_fence(v@, i as int, m as nat) == Some(p as int),
        r matches Some(p) ==> p < v@.len() && run_len(v@, p as int) >= m,
{
    let mut j: usize = i;
    while j < v.len()
        invariant
            i <= j <= v@.len(),
            m >= 1,
            next_fence(v@, i as int, m as nat) == next_fence(v@, j as int, m as nat),
        decreases v@.len() - j,
    {
        if v[j] == '`' {
            let c = count_backticks_bytes(v, j);
            if c >= m {
                return Some(j);
            }
        }
        j = j + 1;
    }
    None
}

/// The position just after the fence closing the first fenced block of `v`.
pub fn find_code_block_end(v: &[char]) -> (r: Option<usize>)
    ensures
        r is None <==> code_block_end(v@) is None,
        r matches Some(p) ==> code_block_end(v@) == Some(p as int),
        r matches Some(p) ==> p <= v@.len(),
{
    let n = v.len();
    match find_fence(v, 0, 3) {
        None => None,
        Some(o) => {
            let m = count_backticks_bytes(v, o);
            match find_fence(v, o + m, m) {
                None => None,
                Some(c) => {
                    let k = count_backticks_bytes(v, c);
                    Some(c + k)
                },
            }
        },
    }
}

/// The position of the first blank line in `v`.
fn find_para_break(v: &[char]) -> (r: Option<usize>)
    ensures
        r is None <==> para_break(v@, 0) is None,
        r matches Some(p) ==> para_break(v@, 0) == Some(p as int),
        r matches Some(p) ==> p <= v@.len(),
{
    let n = v.len();
    if n < 2 {
        return None;
    }
    let mut i: usize = 0;
    while i < n - 1
        invariant
            n == v@.len(),
            n >= 2,
            i <= v@.len(),
            para_break(v@, 0) == para_break(v@, i as int),
        decreases v@.len() - i,
    {
        if v[i] == '\n' && v[i + 1] == '\n' {
            return Some(i);
        }
        i = i + 1;
    }
    None
}

/// Cuts `text` to at most `max_chars` characters at a sentence boundary,
/// or at the limit with an ellipsis.
pub fn smart_truncate(text: &[char], max_chars: usize) -> (r: Vec<char>)
    ensures
        r@ == truncated(text@, max_chars as int),
{
    let limit: usize = if max_chars < text.len() {
        max_chars
    } else {
        text.len()
    };
    let mut i: usize = limit;
    while i > 0
        invariant
            i <= limit <= text@.len(),
            limit == min_int(max_chars as int, text@.len() as int),
            last_cut(text@, limit as int, limit as int) == last_cut(text@, limit as int, i as int),
        decreases i,
    {
        if is_terminator(text[i - 1]) && (i == limit || is_whitespace_char(text[i])) {
            return copy_range(text, 0, i);
        }
        i = i - 1;
    }
    if limit < text.len() {
        let e = skip_end(text, 0, limit);
        let mut r = copy_range(text, 0, e);
        append_chars(&mut r, &['.', '.', '.']);
        r
    } else {
        copy_range(text, 0, limit)
    }
}

/// The capped excerpt of the trimmed text `t`.
fn excerpt(t: &[char]) -> (r: Vec<char>)
    ensures
        r@ == capped_excerpt(t@),
{
    let end = if t.len() >= 3 && t[0] == '`' && t[1] == '`' && t[2] == '`' {
        find_code_block_end(t)
    } else {
        find_para_break(t)
    };
    let x = match end {
        Some(p) => copy_range(t, 0, p),
        None => copy_range(t, 0, t.len()),
    };
    assert(t@.subrange(0, t@.len() as int) =~= t@);
    if x.len() > MAX_SUMMARY_CHARS {
        smart_truncate(&x, MAX_SUMMARY_CHARS)
    } else if x.len() > FALLBACK_CHARS && end.is_none() {
        smart_truncate(&x, FALLBACK_CHARS)
    } else {
        x
    }
}

/// The summary of `content`: its opening fenced block, or its first
/// paragraph, capped in length and trimmed.
pub fn extract_summary(content: &str) -> (r: String)
    ensures
        r@ == summary_of(content@),
{
    let v = chars_of(content);
    let (a, b) = trim_range(&v, 0, v.len());
    assert(v@.subrange(0, v@.len() as int) =~= v@);
    let t = copy_range(&v, a, b);
    if t.len() == 0 {
        return String::new();
    }
    let y = excerpt(&t);
    let z = trimmed(&y);
    string_of(&z)
}

} // verus!

verus! {

/// The last position below `i` of a sentence terminator.
pub open spec fn last_term(s: Seq<char>, i: int) -> Option<int>
    decreases i,
{
    if i <= 0 {
        None
    } else if is_term(s[i - 1]) {
        Some(i - 1)
    } else {
        last_term(s, i - 1)
    }
}

/// `s` cut after its last sentence terminator within `max` characters, or
/// at that limit with an ellipsis.
pub open spec fn sentence_break(s: Seq<char>, max: int) -> Seq<char> {
    let limit = min_int(max, s.len() as int);
    match last_term(s, limit) {
        Some(j) => s.take(j + 1),
        None => trim_end(s.take(limit)) + ellipsis(),
    }
}

/// The position of the first `'\n'` at or after `i`, or the length of `s`.
pub open spec fn newline_at(s: Seq<char>, i: int) -> int
    decreases s.len() - i,
{
    if i >= s.len() {
        s.len() as int
    } else if s[i] == '\n' {
        i
    } else {
        newline_at(s, i + 1)
    }
}

/// The first line of `s`, without its line ending (`"\n"` or `"\r\n"`).
pub open spec fn first_line(s: Seq<char>) -> Seq<char> {
    let k = newline_at(s, 0);
    if 0 < k < s.len() && s[k - 1] == '\r' {
        s.take(k - 1)
    } else {
        s.take(k)
    }
}

/// The words of `s[i..]` joined by single spaces; `st` is 0 before the
/// first word, 1 inside a word and 2 in the whitespace after one.
pub open spec fn squash(s: Seq<char>, i: int, st: nat) -> Seq<char>
    decreases s.len() - i,
{
    if i < 0 || i >= s.len() {
        Seq::empty()
    } else if is_ws(s[i]) {
        squash(s, i + 1, if st == 0 { 0 } else { 2 })
    } else if st == 2 {
        seq![' ', s[i]] + squash(s, i + 1, 1)
    } else {
        seq![s[i]] + squash(s, i + 1, 1)
    }
}

/// The words of `s` joined by single spaces.
pub open spec fn collapse_ws(s: Seq<char>) -> Seq<char> {
    squash(s, 0, 0)
}

/// The text a synthesised title is made from: for a fenced block, the
/// rest of its opening line after the whole backtick run, behind a
/// marking prefix; otherwise the first
/// line, cut at a sentence boundary when it is long.
pub open spec fn title_base(c: Seq<char>) -> Seq<char> {
    if starts_with_fence(c) {
        "Code: "@ + trim(first_line(c.skip(run_len(c, 0) as int)))
    } else {
        let fl = first_line(c);
        if fl.len() > MAX_TITLE_CHARS {
            sentence_break(fl, MAX_TITLE_CHARS as int)
        } else {
            fl
        }
    }
}

/// The title synthesised from a section's trimmed content.
pub open spec fn smart_title(c: Seq<char>) -> Seq<char> {
    if c.len() == 0 {
        "Untitled Section"@
    } else {
        let t = collapse_ws(title_base(c));
        if t.len() > MAX_TITLE_CHARS {
            t.take(MAX_TITLE_CHARS - 3) + ellipsis()
        } else {
            t
        }
    }
}

/// Cuts `text` after its last sentence terminator within `max_chars`
/// characters, or at that limit with an ellipsis.
pub fn find_sentence_break(text: &[char], max_chars: usize) -> (r: Vec<char>)
    ensures
        r@ == sentence_break(text@, max_chars as int),
{
    let limit: usize = if max_chars < text.len() {
        max_chars
    } else {
        text.len()
    };
    let mut i: usize = limit;
    while i > 0
        invariant
            i <= limit <= text@.len(),
            limit == min_int(max_chars as int, text@.len() as int),
            last_term(text@, limit as int) == last_term(text@, i as int),
        decreases i,
    {
        if is_terminator(text[i - 1]) {
            return copy_range(text, 0, i);
        }
        i = i - 1;
    }
    let e = skip_end(text, 0, limit);
    let mut r = copy_range(text, 0, e);
    append_chars(&mut r, &['.', '.', '.']);
    r
}

/// The first line of `v`, without its line ending.
fn first_line_of(v: &[char]) -> (r: Vec<char>)
    ensures
        r@ == first_line(v@),
{
    let n = v.len();
    let mut k: usize = 0;
    while k < n && v[k] != '\n'
        invariant
            n == v@.len(),
            k <= n,
            newline_at(v@, 0) == newline_at(v@, k as int),
        decreases n - k,
    {
        k = k + 1;
    }
    if 0 < k && k < n && v[k - 1] == '\r' {
        copy_range(v, 0, k - 1)
    } else {
        copy_range(v, 0, k)
    }
}

/// The words of `v` joined by single spaces.
fn collapse_whitespace(v: &[char]) -> (r: Vec<char>)
    ensures
        r@ == collapse_ws(v@),
{
    let n = v.len();
    let mut out: Vec<char> = Vec::new();
    let mut st: u8 = 0;
    let mut i: usize = 0;
    while i < n
        invariant
            n == v@.len(),
            i <= n,
            st <= 2,
            out@ + squash(v@, i as int, st as nat) == squash(v@, 0, 0),
        decreases n - i,
    {
        let c = v[i];
        if is_whitespace_char(c) {
            if st != 0 {
                st = 2;
            }
        } else {
            if st == 2 {
                out.push(' ');
                out.push(c);
                assert(seq![' ', c] + squash(v@, i + 1, 1) =~= seq![' '] + seq![c] + squash(
                    v@,
                    i + 1,
                    1,
                ));
            } else {
                out.push(c);
            }
            st = 1;
        }
        proof {
            assert(out@ + squash(v@, i + 1, st as nat) =~= squash(v@, 0, 0));
        }
        i = i + 1;
    }
    assert(out@ =~= out@ + squash(v@, i as int, st as nat));
    out
}

/// A non-empty title made from a section's trimmed content, for a section
/// whose heading has no text.
pub fn generate_smart_title(content: &[char]) -> (r: Vec<char>)
    ensures
        r@ == smart_title(content@),
{
    if content.len() == 0 {
        return chars_of("Untitled Section");
    }
    let base = if content.len() >= 3 && content[0] == '`' && content[1] == '`' && content[2]
        == '`' {
        let m = count_backticks_bytes(content, 0);
        let rest = copy_range(content, m, content.len());
        let line = first_line_of(&rest);
        let mut b = chars_of("Code: ");
        let t = trimmed(&line);
        append_chars(&mut b, &t);
        b
    } else {
        let line = first_line_of(content);
        if line.len() > MAX_TITLE_CHARS {
            find_sentence_break(&line, MAX_TITLE_CHARS)
        } else {
            line
        }
    };
    let title = collapse_whitespace(&base);
    if title.len() > MAX_TITLE_CHARS {
        let mut r = copy_range(&title, 0, MAX_TITLE_CHARS - 3);
        append_chars(&mut r, &['.', '.', '.']);
        r
    } else {
        title
    }
}

proof fn lemma_squash_nonempty(s: Seq<char>, i: int, st: nat, j: int)
    requires
        0 <= i <= j < s.len(),
        !is_ws(s[j]),
    ensures
        squash(s, i, st).len() > 0,
    decreases j - i,
{
    if is_ws(s[i]) {
        lemma_squash_nonempty(s, i + 1, if st == 0 { 0 } else { 2 }, j);
    }
}

proof fn lemma_newline_at_bounds(s: Seq<char>, i: int)
    requires
        0 <= i <= s.len(),
    ensures
        i <= newline_at(s, i) <= s.len(),
    decreases s.len() - i,
{
    if i < s.len() && s[i] != '\n' {
        lemma_newline_at_bounds(s, i + 1);
    }
}

proof fn lemma_title_base_has_word(c: Seq<char>)
    requires
        c.len() > 0,
        !is_ws(c[0]),
    ensures
        exists|j: int| 0 <= j < title_base(c).len() && !is_ws(#[trigger] title_base(c)[j]),
{
    let b = title_base(c);
    if starts_with_fence(c) {
        reveal_strlit("Code: ");
        assert(b[0] == 'C');
        assert(!is_ws(b[0]));
    } else {
        assert(c[0] != '\n');
        lemma_newline_at_bounds(c, 1);
        let k = newline_at(c, 0);
        assert(k == newline_at(c, 1));
        let fl = first_line(c);
        assert(fl.len() > 0 && fl[0] == c[0]);
        if fl.len() > MAX_TITLE_CHARS {
            let limit = min_int(MAX_TITLE_CHARS as int, fl.len() as int);
            match last_term(fl, limit) {
                Some(jj) => {
                    lemma_last_term_bounds(fl, limit);
                    assert(b[0] == c[0]);
                },
                None => {
                    assert(b[b.len() - 1] == '.');
                    assert(!is_ws(b[b.len() - 1]));
                },
            }
        } else {
            assert(b[0] == c[0]);
        }
    }
}

proof fn lemma_last_term_bounds(s: Seq<char>, i: int)
    ensures
        last_term(s, i) matches Some(j) ==> 0 <= j < i,
    decreases i,
{
    if i > 0 && !is_term(s[i - 1]) {
        lemma_last_term_bounds(s, i - 1);
    }
}

/// A title synthesised from trimmed content that is not empty is not empty.
pub proof fn lemma_smart_title_nonempty(c: Seq<char>)
    requires
        trim(c).len() > 0,
    ensures
        smart_title(trim(c)).len() > 0,
{
    let t = trim(c);
    lemma_trim_starts_with_word(c);
    lemma_title_base_has_word(t);
    let b = title_base(t);
    let j = choose|j: int| 0 <= j < b.len() && !is_ws(#[trigger] b[j]);
    lemma_squash_nonempty(b, 0, 0, j);
}

} // verus!
