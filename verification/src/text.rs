//! Basic text primitives: a text is a `Vec<char>`, viewed as a `Seq<char>`.
//! All pattern matching of the rewrite rules is built from these.

use vstd::prelude::*;

verus! {

/// The pattern `p` occurs in `s` starting at position `i`.
pub open spec fn is_at(s: Seq<char>, p: Seq<char>, i: int) -> bool {
    &&& 0 <= i
    &&& i + p.len() <= s.len()
    &&& forall|j: int| 0 <= j < p.len() ==> s[i + j] == p[j]
}

/// Position of the first occurrence of `p` in `s` at or after `i`.
pub open spec fn find_at(s: Seq<char>, p: Seq<char>, i: int) -> Option<int>
    decreases s.len() - i,
{
    if i < 0 || i + p.len() > s.len() {
        None
    } else if is_at(s, p, i) {
        Some(i)
    } else {
        find_at(s, p, i + 1)
    }
}

/// Character classes used by the rewrite rules.
#[derive(Clone, Copy, PartialEq, Eq)]
pub enum CharClass {
    /// The whitespace characters recognised by the rules.
    Ws,
    /// A single space.
    Space,
    /// A newline.
    Newline,
}

pub open spec fn in_class(c: char, k: CharClass) -> bool {
    match k {
        CharClass::Ws => c == ' ' || c == '\t' || c == '\n' || c == '\r' || c == '\u{b}'
            || c == '\u{c}',
        CharClass::Space => c == ' ',
        CharClass::Newline => c == '\n',
    }
}

/// End of the run of class-`k` characters that starts at `i`.
pub open spec fn run_end(s: Seq<char>, i: int, k: CharClass) -> int
    decreases s.len() - i,
{
    if 0 <= i < s.len() && in_class(s[i], k) {
        run_end(s, i + 1, k)
    } else {
        i
    }
}

/// No character in `s[i..j)` equals `c`.
pub open spec fn no_char_in(s: Seq<char>, c: char, i: int, j: int) -> bool {
    forall|k: int| i <= k < j ==> s[k] != c
}

/// Largest `k` in `[i, j]` such that `s[i..k)` has no trailing whitespace.
pub open spec fn rtrim_end(s: Seq<char>, i: int, j: int) -> int
    decreases j - i,
{
    if j <= i {
        i
    } else if in_class(s[j - 1], CharClass::Ws) {
        rtrim_end(s, i, j - 1)
    } else {
        j
    }
}

/// Builds the character vector of a string literal.
pub fn lit(s: &str) -> (r: Vec<char>)
    ensures
        r@ == s@,
{
    let n = s.unicode_len();
    let mut r: Vec<char> = Vec::new();
    let mut i: usize = 0;
    while i < n
        invariant
            i <= n,
            n == s@.len(),
            r@ == s@.subrange(0, i as int),
        decreases n - i,
    {
        r.push(s.get_char(i));
        i += 1;
        proof {
            assert(r@ =~= s@.subrange(0, i as int));
        }
    }
    proof {
        assert(r@ =~= s@);
    }
    r
}

/// Appends all of `src` to `out`.
pub fn push_all(out: &mut Vec<char>, src: &Vec<char>)
    ensures
        final(out)@ == old(out)@ + src@,
{
    let mut j: usize = 0;
    while j < src.len()
        invariant
            j <= src.len(),
            out@ == old(out)@ + src@.subrange(0, j as int),
        decreases src.len() - j,
    {
        out.push(src[j]);
        j += 1;
        proof {
            assert(out@ =~= old(out)@ + src@.subrange(0, j as int));
        }
    }
    proof {
        assert(old(out)@ + src@.subrange(0, src@.len() as int) =~= old(out)@ + src@);
    }
}

/// Character-vector equality.
pub fn eq_vec(a: &Vec<char>, b: &Vec<char>) -> (r: bool)
    ensures
        r == (a@ == b@),
{
    if a.len() != b.len() {
        return false;
    }
    let mut i: usize = 0;
    while i < a.len()
        invariant
            i <= a.len(),
            a@.len() == b@.len(),
            forall|k: int| 0 <= k < i ==> a@[k] == b@[k],
        decreases a.len() - i,
    {
        if a[i] != b[i] {
            return false;
        }
        i += 1;
    }
    proof {
        assert(a@ =~= b@);
    }
    true
}

/// Does `p` occur in `s` at position `i`?
pub fn match_at(s: &Vec<char>, p: &Vec<char>, i: usize) -> (r: bool)
    ensures
        r == is_at(s@, p@, i as int),
{
    if i > s.len() || p.len() > s.len() - i {
        return false;
    }
    let mut j: usize = 0;
    while j < p.len()
        invariant
            j <= p.len(),
            i + p.len() <= s.len(),
            forall|k: int| 0 <= k < j ==> s@[i + k] == p@[k],
        decreases p.len() - j,
    {
        if s[i + j] != p[j] {
            return false;
        }
        j += 1;
    }
    true
}

/// First occurrence of `p` in `s` at or after `i`.
pub fn find_from(s: &Vec<char>, p: &Vec<char>, i: usize) -> (r: Option<usize>)
    ensures
        match r {
            Some(j) => i <= j && j + p.len() <= s.len() && find_at(s@, p@, i as int) == Some(
                j as int,
            ),
            None => find_at(s@, p@, i as int) is None,
        },
{
    if p.len() > s.len() {
        return None;
    }
    let mut j: usize = i;
    while j <= s.len() - p.len()
        invariant
            i <= j,
            p.len() <= s.len(),
            find_at(s@, p@, i as int) == find_at(s@, p@, j as int),
        decreases s.len() - j,
    {
        if match_at(s, p, j) {
            return Some(j);
        }
        j += 1;
    }
    None
}

/// Exec mirror of `in_class`.
pub fn char_in_class(c: char, k: CharClass) -> (r: bool)
    ensures
        r == in_class(c, k),
{
    match k {
        CharClass::Ws => c == ' ' || c == '\t' || c == '\n' || c == '\r' || c == '\u{b}'
            || c == '\u{c}',
        CharClass::Space => c == ' ',
        CharClass::Newline => c == '\n',
    }
}

/// Scans past the run of class-`k` characters starting at `i`.
pub fn scan_run(s: &Vec<char>, i: usize, k: CharClass) -> (r: usize)
    requires
        i <= s.len(),
    ensures
        r == run_end(s@, i as int, k),
        i <= r <= s.len(),
{
    let mut j: usize = i;
    while j < s.len() && char_in_class(s[j], k)
        invariant
            i <= j <= s.len(),
            run_end(s@, i as int, k) == run_end(s@, j as int, k),
        decreases s.len() - j,
    {
        j += 1;
    }
    j
}

/// Checks that no character in `s[i..j)` equals `c`.
pub fn check_no_char(s: &Vec<char>, c: char, i: usize, j: usize) -> (r: bool)
    requires
        i <= j <= s.len(),
    ensures
        r == no_char_in(s@, c, i as int, j as int),
{
    let mut k: usize = i;
    while k < j
        invariant
            i <= k <= j <= s.len(),
            no_char_in(s@, c, i as int, k as int),
        decreases j - k,
    {
        if s[k] == c {
            return false;
        }
        k += 1;
    }
    true
}

/// Trims whitespace from the right end of `s[i..j)`.
pub fn scan_rtrim(s: &Vec<char>, i: usize, j: usize) -> (r: usize)
    requires
        i <= j <= s.len(),
    ensures
        r == rtrim_end(s@, i as int, j as int),
        i <= r <= j,
{
    let mut k: usize = j;
    while k > i && char_in_class(s[k - 1], CharClass::Ws)
        invariant
            i <= k <= j <= s.len(),
            rtrim_end(s@, i as int, j as int) == rtrim_end(s@, i as int, k as int),
        decreases k,
    {
        k -= 1;
    }
    k
}

/// Copies `s[i..j)` into a fresh vector.
pub fn sub_vec(s: &Vec<char>, i: usize, j: usize) -> (r: Vec<char>)
    requires
        i <= j <= s.len(),
    ensures
        r@ == s@.subrange(i as int, j as int),
{
    let mut r: Vec<char> = Vec::new();
    let mut k: usize = i;
    while k < j
        invariant
            i <= k <= j <= s.len(),
            r@ == s@.subrange(i as int, k as int),
        decreases j - k,
    {
        r.push(s[k]);
        k += 1;
        proof {
            assert(r@ =~= s@.subrange(i as int, k as int));
        }
    }
    r
}

/// Position of the first occurrence of the character `c` at or after `i`.
pub open spec fn find_char_at(s: Seq<char>, c: char, i: int) -> Option<int>
    decreases s.len() - i,
{
    if i < 0 || i >= s.len() {
        None
    } else if s[i] == c {
        Some(i)
    } else {
        find_char_at(s, c, i + 1)
    }
}

/// First occurrence of the character `c` at or after `i`.
pub fn find_char_from(s: &Vec<char>, c: char, i: usize) -> (r: Option<usize>)
    ensures
        match r {
            Some(j) => i <= j < s.len() && find_char_at(s@, c, i as int) == Some(j as int),
            None => find_char_at(s@, c, i as int) is None,
        },
{
    let mut j: usize = i;
    while j < s.len()
        invariant
            i <= j,
            find_char_at(s@, c, i as int) == find_char_at(s@, c, j as int),
        decreases s.len() - j,
    {
        if s[j] == c {
            return Some(j);
        }
        j += 1;
    }
    None
}

/// Largest `j` in `[lo, hi]` such that `p` occurs in `s` at `j`.
pub open spec fn find_last_at(s: Seq<char>, p: Seq<char>, lo: int, hi: int) -> Option<int>
    decreases hi - lo + 1,
{
    if hi < lo {
        None
    } else if is_at(s, p, hi) {
        Some(hi)
    } else {
        find_last_at(s, p, lo, hi - 1)
    }
}

/// Last occurrence of `p` in `s` within `[lo, hi]`.
pub fn find_last_from(s: &Vec<char>, p: &Vec<char>, lo: usize, hi: usize) -> (r: Option<usize>)
    requires
        hi <= s.len(),
    ensures
        match r {
            Some(j) => lo <= j && j + p.len() <= s.len() && find_last_at(
                s@,
                p@,
                lo as int,
                hi as int,
            ) == Some(j as int),
            None => find_last_at(s@, p@, lo as int, hi as int) is None,
        },
{
    if hi < lo {
        return None;
    }
    let mut j: usize = hi;
    loop
        invariant
            lo <= j <= hi <= s.len(),
            find_last_at(s@, p@, lo as int, hi as int) == find_last_at(
                s@,
                p@,
                lo as int,
                j as int,
            ),
        decreases j,
    {
        if match_at(s, p, j) {
            return Some(j);
        }
        if j == lo {
            proof {
                assert(find_last_at(s@, p@, lo as int, lo as int - 1) is None);
                assert(find_last_at(s@, p@, lo as int, lo as int) is None);
            }
            return None;
        }
        j -= 1;
    }
}

/// Literal replacement, from position `i` on: every occurrence of `p` is
/// replaced by `r`, scanning left to right.
pub open spec fn repl_from(s: Seq<char>, p: Seq<char>, r: Seq<char>, i: int) -> Seq<char>
    decreases s.len() - i,
{
    if i < 0 || i >= s.len() {
        Seq::empty()
    } else if p.len() > 0 && is_at(s, p, i) {
        r + repl_from(s, p, r, i + p.len())
    } else {
        seq![s[i]] + repl_from(s, p, r, i + 1)
    }
}

/// Every occurrence of `p` in `s` replaced by `r`.
pub open spec fn replace_lit_spec(s: Seq<char>, p: Seq<char>, r: Seq<char>) -> Seq<char> {
    repl_from(s, p, r, 0)
}

/// Exec literal replacement.
pub fn replace_lit(s: &Vec<char>, p: &Vec<char>, r: &Vec<char>) -> (out: Vec<char>)
    ensures
        out@ == replace_lit_spec(s@, p@, r@),
{
    let mut out: Vec<char> = Vec::new();
    let mut i: usize = 0;
    while i < s.len()
        invariant
            i <= s.len(),
            replace_lit_spec(s@, p@, r@) == out@ + repl_from(s@, p@, r@, i as int),
        decreases s.len() - i,
    {
        if p.len() > 0 && match_at(s, p, i) {
            proof {
                assert(repl_from(s@, p@, r@, i as int) == r@ + repl_from(
                    s@,
                    p@,
                    r@,
                    i + p@.len(),
                ));
                assert(out@ + (r@ + repl_from(s@, p@, r@, i + p@.len())) =~= (out@ + r@)
                    + repl_from(s@, p@, r@, i + p@.len()));
            }
            push_all(&mut out, r);
            i += p.len();
        } else {
            proof {
                assert(repl_from(s@, p@, r@, i as int) == seq![s@[i as int]] + repl_from(
                    s@,
                    p@,
                    r@,
                    i + 1,
                ));
                assert(out@ + (seq![s@[i as int]] + repl_from(s@, p@, r@, i + 1)) =~= out@.push(
                    s@[i as int],
                ) + repl_from(s@, p@, r@, i + 1));
            }
            out.push(s[i]);
            i += 1;
        }
    }
    proof {
        assert(out@ + repl_from(s@, p@, r@, i as int) =~= out@);
    }
    out
}

/// What bounds a run: it reaches at most the end of the text, stops at
/// the first character outside the class, and covers only class members.
pub proof fn lemma_run_end_props(s: Seq<char>, i: int, k: CharClass)
    requires
        0 <= i <= s.len(),
    ensures
        i <= run_end(s, i, k) <= s.len(),
        run_end(s, i, k) < s.len() ==> !in_class(s[run_end(s, i, k)], k),
        forall|j: int| i <= j < run_end(s, i, k) ==> in_class(#[trigger] s[j], k),
    decreases s.len() - i,
{
    if 0 <= i < s.len() && in_class(s[i], k) {
        lemma_run_end_props(s, i + 1, k);
    }
}

/// No character of `s` equals `c`.
pub open spec fn seq_has_no(s: Seq<char>, c: char) -> bool {
    forall|j: int| 0 <= j < s.len() ==> s[j] != c
}

/// Replacement is the identity on a text in which the pattern's first
/// character never occurs.
pub proof fn lemma_repl_absent(s: Seq<char>, p: Seq<char>, r: Seq<char>, i: int)
    requires
        p.len() > 0,
        seq_has_no(s, p[0]),
        0 <= i <= s.len(),
    ensures
        repl_from(s, p, r, i) == s.subrange(i, s.len() as int),
    decreases s.len() - i,
{
    if i >= s.len() {
        assert(repl_from(s, p, r, i) =~= s.subrange(i, s.len() as int));
    } else {
        if is_at(s, p, i) {
            assert(s[i + 0] == p[0]);
            assert(false);
        }
        lemma_repl_absent(s, p, r, i + 1);
        assert(seq![s[i]] + s.subrange(i + 1, s.len() as int) =~= s.subrange(
            i,
            s.len() as int,
        ));
    }
}

/// Identity form at the top level.
pub proof fn lemma_replace_absent(s: Seq<char>, p: Seq<char>, r: Seq<char>)
    requires
        p.len() > 0,
        seq_has_no(s, p[0]),
    ensures
        replace_lit_spec(s, p, r) == s,
{
    lemma_repl_absent(s, p, r, 0);
    assert(s.subrange(0, s.len() as int) =~= s);
}

/// Replacing a single-character pattern cannot put `c` into the result if
/// the replacement is free of `c` and every occurrence of `c` in the text
/// is an occurrence of the pattern.
pub proof fn lemma_repl_keeps_absence(s: Seq<char>, p: Seq<char>, r: Seq<char>, c: char, i: int)
    requires
        p.len() == 1,
        seq_has_no(r, c),
        forall|j: int| i <= j < s.len() ==> s[j] != c || s[j] == p[0],
        0 <= i,
    ensures
        seq_has_no(repl_from(s, p, r, i), c),
    decreases s.len() - i,
{
    if i >= s.len() {
    } else if is_at(s, p, i) {
        lemma_repl_keeps_absence(s, p, r, c, i + 1);
        let rest = repl_from(s, p, r, i + 1);
        assert forall|j: int| 0 <= j < (r + rest).len() implies (r + rest)[j] != c by {
            if j < r.len() {
                assert((r + rest)[j] == r[j]);
            } else {
                assert((r + rest)[j] == rest[j - r.len()]);
            }
        }
    } else {
        assert(s[i] != p[0]) by {
            if s[i] == p[0] {
                assert forall|j: int| 0 <= j < p.len() implies s[i + j] == p[j] by {
                    assert(j == 0);
                }
                assert(is_at(s, p, i));
            }
        }
        lemma_repl_keeps_absence(s, p, r, c, i + 1);
        let rest = repl_from(s, p, r, i + 1);
        assert forall|j: int| 0 <= j < (seq![s[i]] + rest).len() implies (seq![s[i]] + rest)[j]
            != c by {
            if j == 0 {
                assert((seq![s[i]] + rest)[0] == s[i]);
            } else {
                assert((seq![s[i]] + rest)[j] == rest[j - 1]);
            }
        }
    }
}

/// Top-level form of `lemma_repl_keeps_absence`.
pub proof fn lemma_replace_keeps_absence(s: Seq<char>, p: Seq<char>, r: Seq<char>, c: char)
    requires
        p.len() == 1,
        seq_has_no(r, c),
        forall|j: int| 0 <= j < s.len() ==> s[j] != c || s[j] == p[0],
    ensures
        seq_has_no(replace_lit_spec(s, p, r), c),
{
    lemma_repl_keeps_absence(s, p, r, c, 0);
}

} // verus!
