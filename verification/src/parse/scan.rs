use vstd::prelude::*;
use vstd::string::*;

verus! {

// ------------------------------------------------------------------
// Character classes
// ------------------------------------------------------------------

/// The blank characters a rule skips inside a statement: space and tab.
pub open spec fn is_blank(c: char) -> bool {
    c == ' ' || c == '\t'
}

/// ASCII whitespace: trimmed from captured names and skipped between nodes.
pub open spec fn is_ws(c: char) -> bool {
    c == ' ' || c == '\t' || c == '\n' || c == '\r'
}

/// ASCII letters and digits: the characters an identifier may hold.
pub open spec fn is_alnum(c: char) -> bool {
    ||| 'a' as u32 <= c as u32 && c as u32 <= 'z' as u32
    ||| 'A' as u32 <= c as u32 && c as u32 <= 'Z' as u32
    ||| '0' as u32 <= c as u32 && c as u32 <= '9' as u32
}

/// The two quote marks a module source may be delimited by.
pub open spec fn is_quote(c: char) -> bool {
    c == '"' || c == '\''
}

pub fn blank_char(c: char) -> (b: bool)
    ensures
        b == is_blank(c),
{
    c == ' ' || c == '\t'
}

pub fn ws_char(c: char) -> (b: bool)
    ensures
        b == is_ws(c),
{
    c == ' ' || c == '\t' || c == '\n' || c == '\r'
}

pub fn alnum_char(c: char) -> (b: bool)
    ensures
        b == is_alnum(c),
{
    let u = c as u32;
    ('a' as u32 <= u && u <= 'z' as u32) || ('A' as u32 <= u && u <= 'Z' as u32) || ('0' as u32
        <= u && u <= '9' as u32)
}

pub fn not_newline_char(c: char) -> (b: bool)
    ensures
        b == (c != '\n' && c != '\r'),
{
    c != '\n' && c != '\r'
}

pub fn quote_char(c: char) -> (b: bool)
    ensures
        b == is_quote(c),
{
    c == '"' || c == '\''
}

// ------------------------------------------------------------------
// Literal matching
// ------------------------------------------------------------------

/// `lit` occurs in `s` at position `pos`.
pub open spec fn match_at(s: Seq<char>, lit: Seq<char>, pos: int) -> bool {
    &&& 0 <= pos
    &&& pos + lit.len() <= s.len()
    &&& forall|j: int| 0 <= j < lit.len() ==> s[pos + j] == #[trigger] lit[j]
}

/// Whether `input` holds `lit` at position `pos`.
pub fn match_at_exec(input: &str, lit: &str, pos: usize, n: usize, m: usize) -> (b: bool)
    requires
        n == input@.len(),
        m == lit@.len(),
        pos <= n,
    ensures
        b == match_at(input@, lit@, pos as int),
{
    if m > n - pos {
        return false;
    }
    let mut j: usize = 0;
    while j < m
        invariant
            j <= m,
            m == lit@.len(),
            n == input@.len(),
            pos + m <= n,
            forall|k: int| 0 <= k < j ==> input@[pos + k] == #[trigger] lit@[k],
        decreases m - j,
    {
        if input.get_char(pos + j) != lit.get_char(j) {
            proof {
                assert(input@[pos + j] != lit@[j as int]);
            }
            return false;
        }
        j = j + 1;
    }
    true
}

/// The first position at or after `pos` where `lit` occurs in `s`, if any.
pub open spec fn find_from(s: Seq<char>, lit: Seq<char>, pos: int) -> Option<int>
    decreases s.len() - pos,
{
    if pos + lit.len() > s.len() {
        None
    } else if match_at(s, lit, pos) {
        Some(pos)
    } else {
        find_from(s, lit, pos + 1)
    }
}

/// `find_from` returns the first match, and `None` only when there is none.
pub proof fn lemma_find_from(s: Seq<char>, lit: Seq<char>, pos: int)
    requires
        0 <= pos,
    ensures
        match find_from(s, lit, pos) {
            Some(j) => pos <= j && j + lit.len() <= s.len() && match_at(s, lit, j) && forall|
                k: int,
            | pos <= k < j ==> !match_at(s, lit, k),
            None => forall|k: int| pos <= k ==> !match_at(s, lit, k),
        },
    decreases s.len() - pos,
{
    if pos + lit.len() > s.len() {
        assert forall|k: int| pos <= k implies !match_at(s, lit, k) by {
            assert(k + lit.len() > s.len());
        }
    } else if match_at(s, lit, pos) {
    } else {
        lemma_find_from(s, lit, pos + 1);
    }
}

/// A match with none before it is what `find_from` returns.
pub proof fn lemma_find_from_is(s: Seq<char>, lit: Seq<char>, pos: int, j: int)
    requires
        0 <= pos <= j,
        match_at(s, lit, j),
        forall|k: int| pos <= k < j ==> !match_at(s, lit, k),
    ensures
        find_from(s, lit, pos) == Some(j),
    decreases j - pos,
{
    if pos < j {
        lemma_find_from_is(s, lit, pos + 1, j);
    }
}

/// A text without a match anywhere at or after `pos` has no find result.
pub proof fn lemma_find_from_none(s: Seq<char>, lit: Seq<char>, pos: int)
    requires
        0 <= pos,
        forall|k: int| pos <= k ==> !match_at(s, lit, k),
    ensures
        find_from(s, lit, pos) is None,
{
    lemma_find_from(s, lit, pos);
    match find_from(s, lit, pos) {
        Some(j) => {
            assert(!match_at(s, lit, j));
        },
        None => {},
    }
}

/// Scan `input` for the first occurrence of `lit` at or after `pos`.
pub fn find_from_exec(input: &str, lit: &str, pos: usize, n: usize) -> (r: Option<usize>)
    requires
        n == input@.len(),
        pos <= n,
    ensures
        match find_from(input@, lit@, pos as int) {
            Some(j) => r matches Some(rj) && rj as int == j,
            None => r is None,
        },
{
    let m = lit.unicode_len();
    let mut i: usize = pos;
    proof {
        lemma_find_from(input@, lit@, pos as int);
    }
    while i <= n && m <= n - i
        invariant
            pos <= i <= n,
            n == input@.len(),
            m == lit@.len(),
            forall|k: int| pos <= k < i ==> !match_at(input@, lit@, k),
        decreases n - i,
    {
        if match_at_exec(input, lit, i, n, m) {
            proof {
                lemma_find_from(input@, lit@, pos as int);
                if find_from(input@, lit@, pos as int) is None {
                    assert(!match_at(input@, lit@, i as int));
                }
                let j = find_from(input@, lit@, pos as int)->Some_0;
                if j < i {
                    assert(!match_at(input@, lit@, j));
                }
                if i < j {
                    assert(!match_at(input@, lit@, i as int));
                }
            }
            return Some(i);
        }
        i = i + 1;
    }
    proof {
        lemma_find_from(input@, lit@, pos as int);
        match find_from(input@, lit@, pos as int) {
            Some(j) => {
                assert(j + lit@.len() <= input@.len());
                assert(!match_at(input@, lit@, j));
            },
            None => {},
        }
    }
    None
}

// ------------------------------------------------------------------
// Character runs
// ------------------------------------------------------------------

/// How many characters satisfying `pred` stand in `s` from `pos` on.
pub open spec fn run_len(s: Seq<char>, pos: int, pred: spec_fn(char) -> bool) -> int
    decreases s.len() - pos,
{
    if 0 <= pos < s.len() && pred(s[pos]) {
        1 + run_len(s, pos + 1, pred)
    } else {
        0
    }
}

/// Bounds and content of a character run.
pub proof fn lemma_run_len(s: Seq<char>, pos: int, pred: spec_fn(char) -> bool)
    requires
        0 <= pos <= s.len(),
    ensures
        0 <= run_len(s, pos, pred),
        pos + run_len(s, pos, pred) <= s.len(),
        forall|k: int| pos <= k < pos + run_len(s, pos, pred) ==> pred(s[k]),
        pos + run_len(s, pos, pred) == s.len() || !pred(s[pos + run_len(s, pos, pred)]),
    decreases s.len() - pos,
{
    if pos < s.len() && pred(s[pos]) {
        lemma_run_len(s, pos + 1, pred);
    }
}

/// A scan that stopped at the first failing character found the whole run.
pub proof fn lemma_run_len_exact(s: Seq<char>, pos: int, i: int, pred: spec_fn(char) -> bool)
    requires
        0 <= pos <= i <= s.len(),
        forall|k: int| pos <= k < i ==> pred(s[k]),
        i == s.len() || !pred(s[i]),
    ensures
        pos + run_len(s, pos, pred) == i,
    decreases i - pos,
{
    if pos < i {
        assert(pred(s[pos]));
        lemma_run_len_exact(s, pos + 1, i, pred);
    }
}

/// The blank run starting at `pos`.
pub open spec fn blank_run(s: Seq<char>, pos: int) -> int {
    run_len(s, pos, |c: char| is_blank(c))
}

/// The whitespace run starting at `pos`.
pub open spec fn ws_run(s: Seq<char>, pos: int) -> int {
    run_len(s, pos, |c: char| is_ws(c))
}

/// The alphanumeric run starting at `pos`.
pub open spec fn alnum_run(s: Seq<char>, pos: int) -> int {
    run_len(s, pos, |c: char| is_alnum(c))
}

/// The run of characters other than a line break starting at `pos`.
pub open spec fn nonl_run(s: Seq<char>, pos: int) -> int {
    run_len(s, pos, |c: char| c != '\n' && c != '\r')
}

/// Bounds and content of the blank run.
pub proof fn lemma_blank_run(s: Seq<char>, pos: int)
    requires
        0 <= pos <= s.len(),
    ensures
        0 <= blank_run(s, pos),
        pos + blank_run(s, pos) <= s.len(),
        forall|k: int| pos <= k < pos + blank_run(s, pos) ==> is_blank(s[k]),
        pos + blank_run(s, pos) == s.len() || !is_blank(s[pos + blank_run(s, pos)]),
{
    lemma_run_len(s, pos, |c: char| is_blank(c));
}

/// Bounds and content of the whitespace run.
pub proof fn lemma_ws_run(s: Seq<char>, pos: int)
    requires
        0 <= pos <= s.len(),
    ensures
        0 <= ws_run(s, pos),
        pos + ws_run(s, pos) <= s.len(),
        forall|k: int| pos <= k < pos + ws_run(s, pos) ==> is_ws(s[k]),
        pos + ws_run(s, pos) == s.len() || !is_ws(s[pos + ws_run(s, pos)]),
{
    lemma_run_len(s, pos, |c: char| is_ws(c));
}

/// Bounds and content of the alphanumeric run.
pub proof fn lemma_alnum_run(s: Seq<char>, pos: int)
    requires
        0 <= pos <= s.len(),
    ensures
        0 <= alnum_run(s, pos),
        pos + alnum_run(s, pos) <= s.len(),
        forall|k: int| pos <= k < pos + alnum_run(s, pos) ==> is_alnum(s[k]),
        pos + alnum_run(s, pos) == s.len() || !is_alnum(s[pos + alnum_run(s, pos)]),
{
    lemma_run_len(s, pos, |c: char| is_alnum(c));
}

/// Bounds and content of the run without a line break.
pub proof fn lemma_nonl_run(s: Seq<char>, pos: int)
    requires
        0 <= pos <= s.len(),
    ensures
        0 <= nonl_run(s, pos),
        pos + nonl_run(s, pos) <= s.len(),
        forall|k: int|
            pos <= k < pos + nonl_run(s, pos) ==> s[k] != '\n' && s[k] != '\r',
        pos + nonl_run(s, pos) == s.len() || s[pos + nonl_run(s, pos)] == '\n' || s[pos
            + nonl_run(s, pos)] == '\r',
{
    lemma_run_len(s, pos, |c: char| c != '\n' && c != '\r');
}

/// A scan that stopped at the first blank found the whole blank run.
pub proof fn lemma_blank_run_exact(s: Seq<char>, pos: int, i: int)
    requires
        0 <= pos <= i <= s.len(),
        forall|k: int| pos <= k < i ==> is_blank(s[k]),
        i == s.len() || !is_blank(s[i]),
    ensures
        pos + blank_run(s, pos) == i,
{
    lemma_run_len_exact(s, pos, i, |c: char| is_blank(c));
}

/// A scan that stopped at the first non-whitespace found the whole run.
pub proof fn lemma_ws_run_exact(s: Seq<char>, pos: int, i: int)
    requires
        0 <= pos <= i <= s.len(),
        forall|k: int| pos <= k < i ==> is_ws(s[k]),
        i == s.len() || !is_ws(s[i]),
    ensures
        pos + ws_run(s, pos) == i,
{
    lemma_run_len_exact(s, pos, i, |c: char| is_ws(c));
}

/// A scan that stopped at the first non-alphanumeric found the whole run.
pub proof fn lemma_alnum_run_exact(s: Seq<char>, pos: int, i: int)
    requires
        0 <= pos <= i <= s.len(),
        forall|k: int| pos <= k < i ==> is_alnum(s[k]),
        i == s.len() || !is_alnum(s[i]),
    ensures
        pos + alnum_run(s, pos) == i,
{
    lemma_run_len_exact(s, pos, i, |c: char| is_alnum(c));
}

/// A scan that stopped at the first line break found the whole run.
pub proof fn lemma_nonl_run_exact(s: Seq<char>, pos: int, i: int)
    requires
        0 <= pos <= i <= s.len(),
        forall|k: int| pos <= k < i ==> s[k] != '\n' && s[k] != '\r',
        i == s.len() || s[i] == '\n' || s[i] == '\r',
    ensures
        pos + nonl_run(s, pos) == i,
{
    lemma_run_len_exact(s, pos, i, |c: char| c != '\n' && c != '\r');
}

/// Scan the blank run starting at `pos`; returns its end.
pub fn scan_blanks(input: &str, pos: usize, n: usize) -> (r: usize)
    requires
        n == input@.len(),
        pos <= n,
    ensures
        r as int == pos + blank_run(input@, pos as int),
        pos <= r <= n,
{
    let mut i: usize = pos;
    while i < n && blank_char(input.get_char(i))
        invariant
            pos <= i <= n,
            n == input@.len(),
            forall|k: int| pos <= k < i ==> is_blank(input@[k]),
        decreases n - i,
    {
        i = i + 1;
    }
    proof {
        lemma_run_len_exact(input@, pos as int, i as int, |c: char| is_blank(c));
    }
    i
}

/// Scan the whitespace run starting at `pos`; returns its end.
pub fn scan_ws(input: &str, pos: usize, n: usize) -> (r: usize)
    requires
        n == input@.len(),
        pos <= n,
    ensures
        r as int == pos + ws_run(input@, pos as int),
        pos <= r <= n,
{
    let mut i: usize = pos;
    while i < n && ws_char(input.get_char(i))
        invariant
            pos <= i <= n,
            n == input@.len(),
            forall|k: int| pos <= k < i ==> is_ws(input@[k]),
        decreases n - i,
    {
        i = i + 1;
    }
    proof {
        lemma_run_len_exact(input@, pos as int, i as int, |c: char| is_ws(c));
    }
    i
}

/// Scan the alphanumeric run starting at `pos`; returns its end.
pub fn scan_alnum(input: &str, pos: usize, n: usize) -> (r: usize)
    requires
        n == input@.len(),
        pos <= n,
    ensures
        r as int == pos + alnum_run(input@, pos as int),
        pos <= r <= n,
{
    let mut i: usize = pos;
    while i < n && alnum_char(input.get_char(i))
        invariant
            pos <= i <= n,
            n == input@.len(),
            forall|k: int| pos <= k < i ==> is_alnum(input@[k]),
        decreases n - i,
    {
        i = i + 1;
    }
    proof {
        lemma_run_len_exact(input@, pos as int, i as int, |c: char| is_alnum(c));
    }
    i
}

/// Scan the run of characters other than a line break starting at `pos`.
pub fn scan_not_newline(input: &str, pos: usize, n: usize) -> (r: usize)
    requires
        n == input@.len(),
        pos <= n,
    ensures
        r as int == pos + nonl_run(input@, pos as int),
        pos <= r <= n,
{
    let mut i: usize = pos;
    while i < n && not_newline_char(input.get_char(i))
        invariant
            pos <= i <= n,
            n == input@.len(),
            forall|k: int| pos <= k < i ==> input@[k] != '\n' && input@[k] != '\r',
        decreases n - i,
    {
        i = i + 1;
    }
    proof {
        lemma_run_len_exact(input@, pos as int, i as int, |c: char| c != '\n' && c != '\r');
    }
    i
}

// ------------------------------------------------------------------
// Single characters
// ------------------------------------------------------------------

/// The first quote mark at or after `pos`.
pub open spec fn find_quote(s: Seq<char>, pos: int) -> Option<int>
    decreases s.len() - pos,
{
    if pos >= s.len() {
        None
    } else if 0 <= pos && is_quote(s[pos]) {
        Some(pos)
    } else {
        find_quote(s, pos + 1)
    }
}

/// The first occurrence of the character `q` at or after `pos`.
pub open spec fn find_char_eq(s: Seq<char>, pos: int, q: char) -> Option<int>
    decreases s.len() - pos,
{
    if pos >= s.len() {
        None
    } else if 0 <= pos && s[pos] == q {
        Some(pos)
    } else {
        find_char_eq(s, pos + 1, q)
    }
}

/// `find_quote` returns the first quote mark, and `None` only when there is
/// none.
pub proof fn lemma_find_quote(s: Seq<char>, pos: int)
    requires
        0 <= pos,
    ensures
        match find_quote(s, pos) {
            Some(j) => pos <= j < s.len() && is_quote(s[j]) && forall|k: int|
                pos <= k < j ==> !is_quote(s[k]),
            None => forall|k: int| pos <= k < s.len() ==> !is_quote(s[k]),
        },
    decreases s.len() - pos,
{
    if pos >= s.len() {
    } else if is_quote(s[pos]) {
    } else {
        lemma_find_quote(s, pos + 1);
    }
}

/// A quote mark with none before it is what `find_quote` returns.
pub proof fn lemma_find_quote_is(s: Seq<char>, pos: int, j: int)
    requires
        0 <= pos <= j < s.len(),
        is_quote(s[j]),
        forall|k: int| pos <= k < j ==> !is_quote(s[k]),
    ensures
        find_quote(s, pos) == Some(j),
    decreases j - pos,
{
    if pos < j {
        lemma_find_quote_is(s, pos + 1, j);
    }
}

/// An occurrence of `q` with none before it is what `find_char_eq` returns.
pub proof fn lemma_find_char_eq_is(s: Seq<char>, pos: int, q: char, j: int)
    requires
        0 <= pos <= j < s.len(),
        s[j] == q,
        forall|k: int| pos <= k < j ==> s[k] != q,
    ensures
        find_char_eq(s, pos, q) == Some(j),
    decreases j - pos,
{
    if pos < j {
        lemma_find_char_eq_is(s, pos + 1, q, j);
    }
}

/// `find_char_eq` returns the first occurrence, and `None` only when there
/// is none.
pub proof fn lemma_find_char_eq(s: Seq<char>, pos: int, q: char)
    requires
        0 <= pos,
    ensures
        match find_char_eq(s, pos, q) {
            Some(j) => pos <= j < s.len() && s[j] == q && forall|k: int|
                pos <= k < j ==> s[k] != q,
            None => forall|k: int| pos <= k < s.len() ==> s[k] != q,
        },
    decreases s.len() - pos,
{
    if pos >= s.len() {
    } else if s[pos] == q {
    } else {
        lemma_find_char_eq(s, pos + 1, q);
    }
}

/// Scan for the first quote mark at or after `pos`.
pub fn scan_quote(input: &str, pos: usize, n: usize) -> (r: Option<usize>)
    requires
        n == input@.len(),
        pos <= n,
    ensures
        match find_quote(input@, pos as int) {
            Some(j) => r matches Some(rj) && rj as int == j,
            None => r is None,
        },
{
    let mut i: usize = pos;
    while i < n
        invariant
            pos <= i <= n,
            n == input@.len(),
            forall|k: int| pos <= k < i ==> !is_quote(input@[k]),
        decreases n - i,
    {
        if quote_char(input.get_char(i)) {
            proof {
                lemma_find_quote(input@, pos as int);
            }
            return Some(i);
        }
        i = i + 1;
    }
    proof {
        lemma_find_quote(input@, pos as int);
    }
    None
}

/// Scan for the first occurrence of the character `q` at or after `pos`.
pub fn scan_char(input: &str, pos: usize, n: usize, q: char) -> (r: Option<usize>)
    requires
        n == input@.len(),
        pos <= n,
    ensures
        match find_char_eq(input@, pos as int, q) {
            Some(j) => r matches Some(rj) && rj as int == j,
            None => r is None,
        },
{
    let mut i: usize = pos;
    while i < n
        invariant
            pos <= i <= n,
            n == input@.len(),
            forall|k: int| pos <= k < i ==> input@[k] != q,
        decreases n - i,
    {
        if input.get_char(i) == q {
            proof {
                lemma_find_char_eq(input@, pos as int, q);
            }
            return Some(i);
        }
        i = i + 1;
    }
    proof {
        lemma_find_char_eq(input@, pos as int, q);
    }
    None
}

// ------------------------------------------------------------------
// Trimming and extraction
// ------------------------------------------------------------------

/// Where the trailing whitespace run that ends at `pos` begins.
pub open spec fn ws_end(s: Seq<char>, pos: int) -> int
    decreases pos,
{
    if 0 < pos <= s.len() && is_ws(s[pos - 1]) {
        ws_end(s, pos - 1)
    } else {
        pos
    }
}

/// The trailing whitespace run begins no earlier than 0 and no later than
/// `pos`.
pub proof fn lemma_ws_end(s: Seq<char>, pos: int)
    requires
        0 <= pos <= s.len(),
    ensures
        0 <= ws_end(s, pos) <= pos,
    decreases pos,
{
    if 0 < pos && is_ws(s[pos - 1]) {
        lemma_ws_end(s, pos - 1);
    }
}

/// A backward scan that stopped at the first non-whitespace character found
/// the whole trailing run.
pub proof fn lemma_ws_end_exact(s: Seq<char>, pos: int, e: int)
    requires
        0 <= e <= pos <= s.len(),
        forall|k: int| e <= k < pos ==> is_ws(s[k]),
        e == 0 || !is_ws(s[e - 1]),
    ensures
        ws_end(s, pos) == e,
    decreases pos - e,
{
    if pos > e {
        assert(is_ws(s[pos - 1]));
        lemma_ws_end_exact(s, pos - 1, e);
    }
}

/// `s` without its leading and trailing whitespace.
pub open spec fn trim_view(s: Seq<char>) -> Seq<char> {
    let a = ws_run(s, 0);
    let b = ws_end(s, s.len() as int);
    if a >= b {
        Seq::empty()
    } else {
        s.subrange(a, b)
    }
}

/// A text that is whitespace before `a` and from `b` on trims to its middle.
pub proof fn lemma_trim_padded(s: Seq<char>, a: int, b: int)
    requires
        0 <= a <= b <= s.len(),
        forall|k: int| 0 <= k < a ==> is_ws(s[k]),
        forall|k: int| b <= k < s.len() ==> is_ws(s[k]),
        a == b || (!is_ws(s[a]) && !is_ws(s[b - 1])),
    ensures
        a == b ==> trim_view(s) == Seq::<char>::empty(),
        a < b ==> trim_view(s) == s.subrange(a, b),
{
    if a == b {
        lemma_ws_run_exact(s, 0, s.len() as int);
        lemma_ws_end(s, s.len() as int);
    } else {
        lemma_ws_run_exact(s, 0, a);
        lemma_ws_end_exact(s, s.len() as int, b);
    }
}

/// The characters of `input` between `lo` and `hi`, without surrounding
/// whitespace.
pub fn trimmed_slice(input: &str, lo: usize, hi: usize) -> (r: String)
    requires
        lo <= hi,
        hi <= input@.len(),
    ensures
        r@ == trim_view(input@.subrange(lo as int, hi as int)),
{
    let ghost t = input@.subrange(lo as int, hi as int);
    let mut a: usize = lo;
    while a < hi && ws_char(input.get_char(a))
        invariant
            lo <= a <= hi,
            hi <= input@.len(),
            forall|k: int| lo <= k < a ==> is_ws(input@[k]),
        decreases hi - a,
    {
        a = a + 1;
    }
    proof {
        assert forall|k: int| 0 <= k < a - lo implies is_ws(t[k]) by {
            assert(t[k] == input@[lo + k]);
        }
        lemma_ws_run_exact(t, 0, a - lo);
    }
    if a == hi {
        let r = String::new();
        proof {
            assert(ws_run(t, 0) == t.len());
            lemma_ws_end(t, t.len() as int);
            assert(r@ =~= trim_view(t));
        }
        return r;
    }
    let mut b: usize = hi;
    while b > a && ws_char(input.get_char(b - 1))
        invariant
            a <= b <= hi,
            hi <= input@.len(),
            forall|k: int| b <= k < hi ==> is_ws(input@[k]),
        decreases b,
    {
        b = b - 1;
    }
    proof {
        assert(!is_ws(input@[a as int]));
        assert(b > a) by {
            if b == a {
                assert(is_ws(input@[a as int]));
            }
        }
        assert forall|k: int| b - lo <= k < t.len() implies is_ws(t[k]) by {
            assert(t[k] == input@[lo + k]);
        }
        assert(t[(b - lo - 1) as int] == input@[b - 1]);
        assert(!is_ws(t[(b - lo - 1) as int]));
        lemma_ws_end_exact(t, t.len() as int, b - lo);
        assert(ws_run(t, 0) == a - lo);
        assert(t.subrange(a - lo, b - lo) =~= input@.subrange(a as int, b as int));
    }
    let piece = input.substring_char(a, b);
    piece.to_owned()
}

} // verus!
