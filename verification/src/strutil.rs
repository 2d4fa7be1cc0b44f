//! Verified character-level string utilities: substring search, prefix
//! tests, runs and scans, trimming, splitting, and ASCII case folding.
//! All executable functions are specified against spec functions over
//! `Seq<char>` views.

use vstd::prelude::*;

verus! {

// ---------------------------------------------------------------------------
// Spec: matching and searching
// ---------------------------------------------------------------------------

/// `pat` occurs in `s` starting at position `i`.
pub open spec fn match_at(s: Seq<char>, pat: Seq<char>, i: int) -> bool {
    0 <= i && i + pat.len() <= s.len() && s.subrange(i, i + pat.len() as int) == pat
}

/// `pre` is a prefix of `s`.
pub open spec fn is_prefix(pre: Seq<char>, s: Seq<char>) -> bool {
    pre.len() <= s.len() && s.subrange(0, pre.len() as int) == pre
}

/// The position of the first occurrence of `pat` in `s` at or after `i`.
pub open spec fn first_match_from(s: Seq<char>, pat: Seq<char>, i: int) -> Option<int>
    decreases s.len() - i,
    when 0 <= i && pat.len() > 0
{
    if i + pat.len() > s.len() {
        None
    } else if match_at(s, pat, i) {
        Some(i)
    } else {
        first_match_from(s, pat, i + 1)
    }
}

/// The position of the first occurrence of `pat` in `s`, if any.
pub open spec fn find_sub(s: Seq<char>, pat: Seq<char>) -> Option<int> {
    first_match_from(s, pat, 0)
}

/// `pat` occurs somewhere in `s`.
pub open spec fn contains_sub(s: Seq<char>, pat: Seq<char>) -> bool {
    find_sub(s, pat) is Some
}

pub proof fn lemma_first_match_bounds(s: Seq<char>, pat: Seq<char>, i: int)
    requires
        0 <= i,
        pat.len() > 0,
        first_match_from(s, pat, i) is Some,
    ensures
        i <= first_match_from(s, pat, i)->0,
        first_match_from(s, pat, i)->0 + pat.len() <= s.len(),
        match_at(s, pat, first_match_from(s, pat, i)->0),
    decreases s.len() - i,
{
    if i + pat.len() > s.len() {
    } else if match_at(s, pat, i) {
    } else {
        lemma_first_match_bounds(s, pat, i + 1);
    }
}

// ---------------------------------------------------------------------------
// Spec: character classes and runs
// ---------------------------------------------------------------------------

pub open spec fn is_ascii_letter(c: char) -> bool {
    ('a' <= c && c <= 'z') || ('A' <= c && c <= 'Z')
}

pub open spec fn is_ascii_digit(c: char) -> bool {
    '0' <= c && c <= '9'
}

pub open spec fn is_ascii_alnum(c: char) -> bool {
    is_ascii_letter(c) || is_ascii_digit(c)
}

/// ASCII whitespace.
pub open spec fn is_space(c: char) -> bool {
    c == ' ' || c == '\t' || c == '\n' || c == '\r' || c == '\u{b}' || c == '\u{c}'
}

/// The first position at or after `i` whose character fails `p` (or the
/// length of `s` if every later character satisfies `p`).
pub open spec fn run_end(s: Seq<char>, i: int, p: spec_fn(char) -> bool) -> int
    decreases s.len() - i,
    when 0 <= i <= s.len()
{
    if i == s.len() {
        i
    } else if p(s[i]) {
        run_end(s, i + 1, p)
    } else {
        i
    }
}

pub proof fn lemma_run_end(s: Seq<char>, i: int, p: spec_fn(char) -> bool)
    requires
        0 <= i <= s.len(),
    ensures
        i <= run_end(s, i, p) <= s.len(),
        forall|k: int| i <= k < run_end(s, i, p) ==> p(s[k]),
        run_end(s, i, p) < s.len() ==> !p(s[run_end(s, i, p)]),
    decreases s.len() - i,
{
    if i < s.len() && p(s[i]) {
        lemma_run_end(s, i + 1, p);
    }
}

/// The position of the first occurrence of the character `c` at or after
/// `i`, or the length of `s` if there is none.
pub open spec fn upto_char(s: Seq<char>, i: int, c: char) -> int {
    run_end(s, i, |x: char| x != c)
}

/// The first position from the right end such that every character from
/// there to `i - 1` satisfies `p`.
pub open spec fn back_while(s: Seq<char>, i: int, p: spec_fn(char) -> bool) -> int
    decreases i,
    when 0 <= i <= s.len()
{
    if i == 0 {
        0
    } else if p(s[i - 1]) {
        back_while(s, i - 1, p)
    } else {
        i
    }
}

// ---------------------------------------------------------------------------
// Spec: trimming, stripping, case folding, splitting
// ---------------------------------------------------------------------------

/// The first position at or after `i` whose character is not `c`.
pub open spec fn char_run_end(s: Seq<char>, i: int, c: char) -> int
    decreases s.len() - i,
    when 0 <= i <= s.len()
{
    if i == s.len() {
        i
    } else if s[i] == c {
        char_run_end(s, i + 1, c)
    } else {
        i
    }
}

/// The first position from the right such that everything from there up
/// to `i - 1` is the character `c`.
pub open spec fn char_back(s: Seq<char>, i: int, c: char) -> int
    decreases i,
    when 0 <= i <= s.len()
{
    if i == 0 {
        0
    } else if s[i - 1] == c {
        char_back(s, i - 1, c)
    } else {
        i
    }
}

/// `s` without its leading run of `c` characters.
pub open spec fn strip_lead_char(s: Seq<char>, c: char) -> Seq<char> {
    s.subrange(char_run_end(s, 0, c), s.len() as int)
}

/// `s` without its trailing run of `c` characters.
pub open spec fn strip_trail_char(s: Seq<char>, c: char) -> Seq<char> {
    s.subrange(0, char_back(s, s.len() as int, c))
}

/// `s` without leading and trailing ASCII whitespace.
pub open spec fn trim_spaces(s: Seq<char>) -> Seq<char> {
    let t = s.subrange(run_end(s, 0, |x: char| is_space(x)), s.len() as int);
    t.subrange(0, back_while(t, t.len() as int, |x: char| is_space(x)))
}

/// `s` with every leading repetition of `pat` removed.
pub open spec fn strip_prefix_reps(s: Seq<char>, pat: Seq<char>) -> Seq<char>
    decreases s.len(),
    when pat.len() > 0
{
    if is_prefix(pat, s) {
        strip_prefix_reps(s.subrange(pat.len() as int, s.len() as int), pat)
    } else {
        s
    }
}

/// ASCII lowercase of one character.
pub open spec fn lower_char(c: char) -> char {
    if 'A' <= c && c <= 'Z' {
        (((c as u8) + 32) as char)
    } else {
        c
    }
}

/// ASCII lowercase, character by character.
pub open spec fn lower_seq(s: Seq<char>) -> Seq<char> {
    s.map_values(|c: char| lower_char(c))
}

/// `s` split on the character `c`; empty segments are preserved.
pub open spec fn split_char(s: Seq<char>, c: char) -> Seq<Seq<char>>
    decreases s.len(),
    via split_char_decreases
{
    let j = upto_char(s, 0, c);
    if j >= s.len() {
        seq![s]
    } else {
        seq![s.subrange(0, j)] + split_char(s.subrange(j + 1, s.len() as int), c)
    }
}

#[via_fn]
proof fn split_char_decreases(s: Seq<char>, c: char) {
    lemma_run_end(s, 0, |x: char| x != c);
}

/// `s` split on every (non-overlapping, left-to-right) occurrence of `pat`.
pub open spec fn split_sub(s: Seq<char>, pat: Seq<char>) -> Seq<Seq<char>>
    decreases s.len(),
    when pat.len() > 0
    via split_sub_decreases
{
    match find_sub(s, pat) {
        None => seq![s],
        Some(i) => seq![s.subrange(0, i)] + split_sub(
            s.subrange(i + pat.len(), s.len() as int),
            pat,
        ),
    }
}

#[via_fn]
proof fn split_sub_decreases(s: Seq<char>, pat: Seq<char>) {
    if pat.len() > 0 && find_sub(s, pat) is Some {
        lemma_first_match_bounds(s, pat, 0);
    }
}

pub proof fn lemma_split_sub_nonempty(s: Seq<char>, pat: Seq<char>)
    requires
        pat.len() > 0,
    ensures
        split_sub(s, pat).len() >= 1,
{
    if find_sub(s, pat) is Some {
    }
}

/// Every position at or after `i` where `pat` occurs, in order.
pub open spec fn all_matches(s: Seq<char>, pat: Seq<char>, i: int) -> Seq<int>
    decreases s.len() - i,
    when 0 <= i && pat.len() > 0
{
    if i + pat.len() > s.len() {
        Seq::<int>::empty()
    } else if match_at(s, pat, i) {
        seq![i] + all_matches(s, pat, i + 1)
    } else {
        all_matches(s, pat, i + 1)
    }
}

pub proof fn lemma_all_matches(s: Seq<char>, pat: Seq<char>, i: int)
    requires
        0 <= i,
        pat.len() > 0,
    ensures
        forall|k: int|
            0 <= k < all_matches(s, pat, i).len() ==> match_at(
                s,
                pat,
                #[trigger] all_matches(s, pat, i)[k],
            ) && i <= all_matches(s, pat, i)[k],
    decreases s.len() - i,
{
    if i + pat.len() > s.len() {
    } else {
        lemma_all_matches(s, pat, i + 1);
        let r = all_matches(s, pat, i);
        let rest = all_matches(s, pat, i + 1);
        if match_at(s, pat, i) {
            assert forall|k: int| 0 <= k < r.len() implies match_at(s, pat, r[k]) && i
                <= r[k] by {
                if k == 0 {
                    assert(r[0] == i);
                } else {
                    assert(r[k] == rest[k - 1]);
                }
            }
        } else {
            assert forall|k: int| 0 <= k < r.len() implies match_at(s, pat, r[k]) && i
                <= r[k] by {
                assert(r[k] == rest[k]);
            }
        }
    }
}

/// Every position at or after `i` holding the character `c`, in order.
pub open spec fn char_positions(s: Seq<char>, c: char, i: int) -> Seq<int>
    decreases s.len() - i,
    when 0 <= i
{
    if i >= s.len() {
        Seq::<int>::empty()
    } else if s[i] == c {
        seq![i] + char_positions(s, c, i + 1)
    } else {
        char_positions(s, c, i + 1)
    }
}

pub proof fn lemma_char_positions(s: Seq<char>, c: char, i: int)
    requires
        0 <= i,
    ensures
        forall|k: int|
            0 <= k < char_positions(s, c, i).len() ==> i <= #[trigger] char_positions(s, c, i)[k]
                < s.len(),
    decreases s.len() - i,
{
    if i >= s.len() {
    } else {
        lemma_char_positions(s, c, i + 1);
        let r = char_positions(s, c, i);
        let rest = char_positions(s, c, i + 1);
        if s[i] == c {
            assert forall|k: int| 0 <= k < r.len() implies i <= #[trigger] r[k] < s.len() by {
                if k == 0 {
                    assert(r[0] == i);
                } else {
                    assert(r[k] == rest[k - 1]);
                }
            }
        } else {
            assert forall|k: int| 0 <= k < r.len() implies i <= #[trigger] r[k] < s.len() by {
                assert(r[k] == rest[k]);
            }
        }
    }
}

/// Replaces every (non-overlapping, left-to-right) occurrence of `pat` in
/// `s` with `val`; the replacement text is not rescanned.
pub open spec fn replace_all(s: Seq<char>, pat: Seq<char>, val: Seq<char>) -> Seq<char>
    decreases s.len(),
    when pat.len() > 0
    via replace_all_decreases
{
    match find_sub(s, pat) {
        None => s,
        Some(i) => s.subrange(0, i) + val + replace_all(
            s.subrange(i + pat.len(), s.len() as int),
            pat,
            val,
        ),
    }
}

#[via_fn]
proof fn replace_all_decreases(s: Seq<char>, pat: Seq<char>, val: Seq<char>) {
    if pat.len() > 0 && find_sub(s, pat) is Some {
        lemma_first_match_bounds(s, pat, 0);
    }
}

pub proof fn lemma_match_implies_found(s: Seq<char>, pat: Seq<char>, k: int, j: int)
    requires
        pat.len() > 0,
        0 <= k <= j,
        match_at(s, pat, j),
    ensures
        first_match_from(s, pat, k) is Some,
    decreases j - k,
{
    if k + pat.len() > s.len() {
        assert(j + pat.len() <= s.len());
        assert(false);
    } else if match_at(s, pat, k) {
    } else {
        assert(k < j);
        lemma_match_implies_found(s, pat, k + 1, j);
    }
}

/// An occurrence anywhere means the pattern is contained.
pub proof fn lemma_match_implies_contains(s: Seq<char>, pat: Seq<char>, j: int)
    requires
        pat.len() > 0,
        match_at(s, pat, j),
    ensures
        contains_sub(s, pat),
{
    lemma_match_implies_found(s, pat, 0, j);
}

/// A match inside a subrange is a (shifted) match in the whole sequence.
pub proof fn lemma_match_up(s: Seq<char>, a: int, b: int, pat: Seq<char>, i: int)
    requires
        0 <= a <= b <= s.len(),
        match_at(s.subrange(a, b), pat, i),
    ensures
        match_at(s, pat, a + i),
{
    assert(s.subrange(a + i, a + i + pat.len() as int) =~= s.subrange(a, b).subrange(
        i,
        i + pat.len() as int,
    ));
}

/// A (shifted) match within the bounds of a subrange is a match in it.
pub proof fn lemma_match_down(s: Seq<char>, a: int, b: int, pat: Seq<char>, i: int)
    requires
        0 <= a <= b <= s.len(),
        a <= a + i,
        a + i + pat.len() <= b,
        match_at(s, pat, a + i),
    ensures
        match_at(s.subrange(a, b), pat, i),
{
    assert(s.subrange(a, b).subrange(i, i + pat.len() as int) =~= s.subrange(
        a + i,
        a + i + pat.len() as int,
    ));
}

/// Replacing a pattern that does not occur leaves the text unchanged.
pub proof fn lemma_replace_absent(t: Seq<char>, pat: Seq<char>, val: Seq<char>)
    requires
        pat.len() > 0,
        !contains_sub(t, pat),
    ensures
        replace_all(t, pat, val) == t,
{
}

/// A pattern occurrence that overlaps no occurrence of the replaced
/// pattern survives the replacement.
pub proof fn lemma_replace_all_preserves(
    t: Seq<char>,
    pat: Seq<char>,
    val: Seq<char>,
    q: Seq<char>,
    j: int,
)
    requires
        pat.len() > 0,
        q.len() > 0,
        match_at(t, q, j),
        forall|i: int| match_at(t, pat, i) ==> (i + pat.len() <= j || j + q.len() <= i),
    ensures
        contains_sub(replace_all(t, pat, val), q),
    decreases t.len(),
{
    match find_sub(t, pat) {
        None => {
            lemma_match_implies_contains(t, q, j);
        },
        Some(i0) => {
            lemma_first_match_bounds(t, pat, 0);
            let rest = t.subrange(i0 + pat.len(), t.len() as int);
            let out = t.subrange(0, i0) + val + replace_all(rest, pat, val);
            assert(replace_all(t, pat, val) == out);
            assert(match_at(t, pat, i0));
            if j + q.len() <= i0 {
                // the occurrence lies in the untouched prefix
                assert(out.subrange(j, j + q.len() as int) =~= t.subrange(j, j + q.len() as int));
                assert(match_at(out, q, j));
                lemma_match_implies_contains(out, q, j);
            } else {
                assert(i0 + pat.len() <= j);
                let a = i0 + pat.len() as int;
                let j2 = j - a;
                lemma_match_down(t, a, t.len() as int, q, j2);
                assert(match_at(rest, q, j2));
                assert forall|i2: int| match_at(rest, pat, i2) implies (i2 + pat.len() <= j2 || j2
                    + q.len() <= i2) by {
                    lemma_match_up(t, a, t.len() as int, pat, i2);
                }
                lemma_replace_all_preserves(rest, pat, val, q, j2);
                let tail = replace_all(rest, pat, val);
                lemma_first_match_bounds(tail, q, 0);
                let j3 = find_sub(tail, q)->0;
                let off = i0 + val.len() as int;
                assert(out.subrange(off + j3, off + j3 + q.len() as int) =~= tail.subrange(
                    j3,
                    j3 + q.len() as int,
                ));
                assert(match_at(out, q, off + j3));
                lemma_match_implies_contains(out, q, off + j3);
            }
        },
    }
}

// ---------------------------------------------------------------------------
// Spec: decimal numbers
// ---------------------------------------------------------------------------

pub open spec fn digit_val(c: char) -> int {
    (c as u32) as int - 48
}

pub open spec fn all_digits(s: Seq<char>) -> bool {
    forall|k: int| 0 <= k < s.len() ==> is_ascii_digit(#[trigger] s[k])
}

/// The value of a digit sequence read in base 10.
pub open spec fn digits_value(s: Seq<char>) -> int
    decreases s.len(),
{
    if s.len() == 0 {
        0
    } else {
        10 * digits_value(s.drop_last()) + digit_val(s.last())
    }
}

/// The number a string parses to as a `u8` in base 10: an optional `+`
/// sign, then one or more digits, with a value of at most 255.
pub open spec fn spec_dec_u8(s: Seq<char>) -> Option<u8> {
    let t = if s.len() > 0 && s[0] == '+' {
        s.drop_first()
    } else {
        s
    };
    if t.len() > 0 && all_digits(t) && digits_value(t) <= 255 {
        Some(digits_value(t) as u8)
    } else {
        None
    }
}

// ---------------------------------------------------------------------------
// Exec: basics
// ---------------------------------------------------------------------------

/// Relies on `String::push`: appends exactly one character.
#[verifier::external_body]
pub fn push_char(s: &mut String, c: char)
    ensures
        final(s)@ == old(s)@.push(c),
{
    s.push(c);
}

/// Whether `pat` occurs in `s` at position `i`.
pub fn is_match_at(s: &str, pat: &str, i: usize) -> (r: bool)
    requires
        i + pat@.len() <= s@.len(),
    ensures
        r == match_at(s@, pat@, i as int),
{
    let n = s.unicode_len();
    let m = pat.unicode_len();
    let mut j: usize = 0;
    while j < m
        invariant
            j <= m,
            m == pat@.len(),
            n == s@.len(),
            i + m <= n,
            forall|k: int| 0 <= k < j ==> s@[i + k] == pat@[k],
        decreases m - j,
    {
        if s.get_char(i + j) != pat.get_char(j) {
            assert(s@.subrange(i as int, i + m as int)[j as int] == s@[i + j]);
            return false;
        }
        j += 1;
    }
    assert(s@.subrange(i as int, i + m as int) =~= pat@);
    true
}

/// The first occurrence of `pat` in `s` at or after `from`.
pub fn find_sub_from(s: &str, pat: &str, from: usize) -> (r: Option<usize>)
    requires
        pat@.len() > 0,
    ensures
        match r {
            Some(i) => first_match_from(s@, pat@, from as int) == Some(i as int),
            None => first_match_from(s@, pat@, from as int) is None,
        },
{
    let n = s.unicode_len();
    let m = pat.unicode_len();
    if m > n || from > n - m {
        return None;
    }
    let mut i: usize = from;
    while i <= n - m
        invariant
            from <= i,
            m == pat@.len(),
            n == s@.len(),
            1 <= m <= n,
            i <= n - m + 1,
            first_match_from(s@, pat@, from as int) == first_match_from(s@, pat@, i as int),
        decreases n - i,
    {
        if is_match_at(s, pat, i) {
            return Some(i);
        }
        i += 1;
    }
    None
}

/// Whether `pat` occurs anywhere in `s`.
pub fn contains_str(s: &str, pat: &str) -> (r: bool)
    requires
        pat@.len() > 0,
    ensures
        r == contains_sub(s@, pat@),
{
    match find_sub_from(s, pat, 0) {
        Some(_) => true,
        None => false,
    }
}

/// Character-by-character string equality.
pub fn str_eq(a: &str, b: &str) -> (r: bool)
    ensures
        r == (a@ == b@),
{
    let n = a.unicode_len();
    let m = b.unicode_len();
    if n != m {
        return false;
    }
    let mut i: usize = 0;
    while i < n
        invariant
            i <= n,
            n == a@.len(),
            n == b@.len(),
            forall|k: int| 0 <= k < i ==> a@[k] == b@[k],
        decreases n - i,
    {
        if a.get_char(i) != b.get_char(i) {
            return false;
        }
        i += 1;
    }
    assert(a@ =~= b@);
    true
}

/// Whether the character at position `i` is an ASCII letter.
pub fn letter_at(s: &str, i: usize) -> (r: bool)
    requires
        i < s@.len(),
    ensures
        r == is_ascii_letter(s@[i as int]),
{
    let c = s.get_char(i);
    ('a' <= c && c <= 'z') || ('A' <= c && c <= 'Z')
}

/// Whether the character at position `i` is an ASCII letter or digit.
pub fn alnum_at(s: &str, i: usize) -> (r: bool)
    requires
        i < s@.len(),
    ensures
        r == is_ascii_alnum(s@[i as int]),
{
    let c = s.get_char(i);
    ('a' <= c && c <= 'z') || ('A' <= c && c <= 'Z') || ('0' <= c && c <= '9')
}

/// Whether the character at position `i` is `c`.
pub fn char_at_is(s: &str, i: usize, c: char) -> (r: bool)
    requires
        i < s@.len(),
    ensures
        r == (s@[i as int] == c),
{
    s.get_char(i) == c
}

/// ASCII-lowercases a string, character by character.
pub fn ascii_lower(s: &str) -> (r: String)
    ensures
        r@ == lower_seq(s@),
{
    let n = s.unicode_len();
    let mut out = String::new();
    let mut i: usize = 0;
    while i < n
        invariant
            i <= n,
            n == s@.len(),
            out@.len() == i,
            forall|k: int| 0 <= k < i ==> out@[k] == lower_char(s@[k]),
        decreases n - i,
    {
        let c = s.get_char(i);
        let lc: char = if 'A' <= c && c <= 'Z' {
            ((c as u8) + 32) as char
        } else {
            c
        };
        assert(lc == lower_char(c));
        push_char(&mut out, lc);
        i += 1;
    }
    assert(out@ =~= lower_seq(s@));
    out
}

/// Splits `s` on the character `c`, preserving empty segments.
pub fn split_char_exec(s: &str, c: char) -> (r: Vec<String>)
    ensures
        r@.map_values(|t: String| t@) == split_char(s@, c),
{
    let mut out: Vec<String> = Vec::new();
    let mut rest: &str = s;
    loop
        invariant_except_break
            split_char(s@, c) =~= out@.map_values(|t: String| t@) + split_char(rest@, c),
        ensures
            out@.map_values(|t: String| t@) =~= split_char(s@, c),
        decreases rest@.len(),
    {
        let m = rest.unicode_len();
        proof {
            lemma_run_end(rest@, 0, |x: char| x != c);
        }
        let mut j: usize = 0;
        while j < m && rest.get_char(j) != c
            invariant
                0 <= j <= m,
                m == rest@.len(),
                upto_char(rest@, 0, c) == upto_char(rest@, j as int, c),
            decreases m - j,
        {
            j += 1;
        }
        assert(upto_char(rest@, 0, c) == j);
        if j >= m {
            let ghost old_out = out@;
            out.push(rest.to_owned());
            assert(out@.map_values(|t: String| t@) =~= old_out.map_values(|t: String| t@)
                + seq![rest@]);
            break ;
        } else {
            let ghost old_out = out@;
            let ghost old_rest = rest@;
            let seg = rest.substring_char(0, j);
            out.push(seg.to_owned());
            rest = rest.substring_char(j + 1, m);
            assert(out@.map_values(|t: String| t@) =~= old_out.map_values(|t: String| t@) + seq![
                old_rest.subrange(0, j as int),
            ]);
        }
    }
    out
}

/// Whether `pre` is a prefix of `s`.
pub fn str_starts_with(s: &str, pre: &str) -> (r: bool)
    ensures
        r == is_prefix(pre@, s@),
{
    let n = s.unicode_len();
    let m = pre.unicode_len();
    if m > n {
        return false;
    }
    is_match_at(s, pre, 0)
}

/// Whether the character at position `i` is ASCII whitespace.
pub fn space_at(s: &str, i: usize) -> (r: bool)
    requires
        i < s@.len(),
    ensures
        r == is_space(s@[i as int]),
{
    let c = s.get_char(i);
    c == ' ' || c == '\t' || c == '\n' || c == '\r' || c == '\u{b}' || c == '\u{c}'
}

/// The position of the first `c` at or after `from`, or the length of `s`.
pub fn upto_char_exec(s: &str, from: usize, c: char) -> (r: usize)
    requires
        from <= s@.len(),
    ensures
        r == upto_char(s@, from as int, c),
        from <= r <= s@.len(),
        r < s@.len() ==> s@[r as int] == c,
{
    let n = s.unicode_len();
    proof {
        lemma_run_end(s@, from as int, |x: char| x != c);
    }
    let mut j: usize = from;
    while j < n && !char_at_is(s, j, c)
        invariant
            from <= j <= n,
            n == s@.len(),
            upto_char(s@, from as int, c) == upto_char(s@, j as int, c),
        decreases n - j,
    {
        j += 1;
    }
    j
}

/// `s` without leading and trailing ASCII whitespace.
pub fn trim_exec<'a>(s: &'a str) -> (r: &'a str)
    ensures
        r@ == trim_spaces(s@),
{
    let n = s.unicode_len();
    proof {
        lemma_run_end(s@, 0, |x: char| is_space(x));
    }
    let mut a: usize = 0;
    while a < n && space_at(s, a)
        invariant
            0 <= a <= n,
            n == s@.len(),
            run_end(s@, 0, |x: char| is_space(x)) == run_end(s@, a as int, |x: char| is_space(x)),
        decreases n - a,
    {
        a += 1;
    }
    assert(a == run_end(s@, 0, |x: char| is_space(x)));
    let ghost t = s@.subrange(a as int, n as int);
    let mut b: usize = n;
    while b > a && space_at(s, b - 1)
        invariant
            a <= b <= n,
            n == s@.len(),
            t == s@.subrange(a as int, n as int),
            back_while(t, (n - a) as int, |x: char| is_space(x)) == back_while(
                t,
                (b - a) as int,
                |x: char| is_space(x),
            ),
        decreases b,
    {
        proof {
            assert(t[(b - a - 1) as int] == s@[b - 1]);
        }
        b -= 1;
    }
    assert(back_while(t, (n - a) as int, |x: char| is_space(x)) == (b - a) as int) by {
        if b > a {
            assert(t[(b - a - 1) as int] == s@[b - 1]);
        }
    }
    let r = s.substring_char(a, b);
    assert(r@ =~= t.subrange(0, (b - a) as int));
    r
}

/// `s` without its leading run of `c` characters.
pub fn strip_lead_char_exec<'a>(s: &'a str, c: char) -> (r: &'a str)
    ensures
        r@ == strip_lead_char(s@, c),
{
    let n = s.unicode_len();
    let mut a: usize = 0;
    while a < n && char_at_is(s, a, c)
        invariant
            0 <= a <= n,
            n == s@.len(),
            char_run_end(s@, 0, c) == char_run_end(s@, a as int, c),
        decreases n - a,
    {
        a += 1;
    }
    assert(char_run_end(s@, a as int, c) == a);
    s.substring_char(a, n)
}

/// `s` without its trailing run of `c` characters.
pub fn strip_trail_char_exec<'a>(s: &'a str, c: char) -> (r: &'a str)
    ensures
        r@ == strip_trail_char(s@, c),
{
    let n = s.unicode_len();
    let mut b: usize = n;
    while b > 0 && char_at_is(s, b - 1, c)
        invariant
            0 <= b <= n,
            n == s@.len(),
            char_back(s@, n as int, c) == char_back(s@, b as int, c),
        decreases b,
    {
        b -= 1;
    }
    assert(char_back(s@, b as int, c) == b);
    s.substring_char(0, b)
}

/// `s` with every leading repetition of `pat` removed.
pub fn strip_reps_exec<'a>(s: &'a str, pat: &str) -> (r: &'a str)
    requires
        pat@.len() > 0,
    ensures
        r@ == strip_prefix_reps(s@, pat@),
{
    let plen = pat.unicode_len();
    let mut rest: &str = s;
    loop
        invariant_except_break
            strip_prefix_reps(s@, pat@) == strip_prefix_reps(rest@, pat@),
            plen == pat@.len(),
            plen > 0,
        ensures
            rest@ == strip_prefix_reps(s@, pat@),
        decreases rest@.len(),
    {
        let m = rest.unicode_len();
        if str_starts_with(rest, pat) {
            rest = rest.substring_char(plen, m);
        } else {
            break ;
        }
    }
    rest
}

/// Splits `s` on every occurrence of `pat`, left to right.
pub fn split_sub_exec(s: &str, pat: &str) -> (r: Vec<String>)
    requires
        pat@.len() > 0,
    ensures
        r@.map_values(|t: String| t@) == split_sub(s@, pat@),
{
    let plen = pat.unicode_len();
    let mut out: Vec<String> = Vec::new();
    let mut rest: &str = s;
    loop
        invariant_except_break
            split_sub(s@, pat@) =~= out@.map_values(|t: String| t@) + split_sub(rest@, pat@),
            plen == pat@.len(),
            plen > 0,
        ensures
            out@.map_values(|t: String| t@) =~= split_sub(s@, pat@),
        decreases rest@.len(),
    {
        let m = rest.unicode_len();
        match find_sub_from(rest, pat, 0) {
            None => {
                let ghost old_out = out@;
                out.push(rest.to_owned());
                assert(out@.map_values(|t: String| t@) =~= old_out.map_values(|t: String| t@)
                    + seq![rest@]);
                break ;
            },
            Some(i) => {
                proof {
                    lemma_first_match_bounds(rest@, pat@, 0);
                }
                let ghost old_out = out@;
                let ghost old_rest = rest@;
                let seg = rest.substring_char(0, i);
                out.push(seg.to_owned());
                rest = rest.substring_char(i + plen, m);
                assert(out@.map_values(|t: String| t@) =~= old_out.map_values(|t: String| t@)
                    + seq![old_rest.subrange(0, i as int)]);
            },
        }
    }
    out
}

/// Every position where `pat` occurs in `s`, in order.
pub fn find_all_exec(s: &str, pat: &str) -> (r: Vec<usize>)
    requires
        pat@.len() > 0,
    ensures
        r@.map_values(|u: usize| u as int) == all_matches(s@, pat@, 0),
{
    let n = s.unicode_len();
    let m = pat.unicode_len();
    let mut out: Vec<usize> = Vec::new();
    assert(out@.map_values(|u: usize| u as int) =~= Seq::<int>::empty());
    if m > n {
        return out;
    }
    let mut i: usize = 0;
    while i <= n - m
        invariant
            0 <= i <= n - m + 1,
            n == s@.len(),
            m == pat@.len(),
            1 <= m <= n,
            all_matches(s@, pat@, 0) =~= out@.map_values(|u: usize| u as int) + all_matches(
                s@,
                pat@,
                i as int,
            ),
        decreases n - i,
    {
        let ghost old_out = out@;
        if is_match_at(s, pat, i) {
            out.push(i);
            assert(out@.map_values(|u: usize| u as int) =~= old_out.map_values(|u: usize| u as int)
                + seq![i as int]);
        }
        i += 1;
    }
    assert(all_matches(s@, pat@, i as int) =~= Seq::<int>::empty());
    out
}

/// Every position of the character `c` in `s`, in order.
pub fn char_positions_exec(s: &str, c: char) -> (r: Vec<usize>)
    ensures
        r@.map_values(|u: usize| u as int) == char_positions(s@, c, 0),
{
    let n = s.unicode_len();
    let mut out: Vec<usize> = Vec::new();
    assert(out@.map_values(|u: usize| u as int) =~= Seq::<int>::empty());
    let mut i: usize = 0;
    while i < n
        invariant
            0 <= i <= n,
            n == s@.len(),
            char_positions(s@, c, 0) =~= out@.map_values(|u: usize| u as int) + char_positions(
                s@,
                c,
                i as int,
            ),
        decreases n - i,
    {
        let ghost old_out = out@;
        if char_at_is(s, i, c) {
            out.push(i);
            assert(out@.map_values(|u: usize| u as int) =~= old_out.map_values(|u: usize| u as int)
                + seq![i as int]);
        }
        i += 1;
    }
    out
}

/// Parses a base-10 `u8`: an optional `+` sign, then digits, value at
/// most 255.
pub fn parse_u8_dec(s: &str) -> (r: Option<u8>)
    ensures
        r == spec_dec_u8(s@),
{
    let n = s.unicode_len();
    let start: usize = if n > 0 && char_at_is(s, 0, '+') {
        1
    } else {
        0
    };
    let ghost t = if s@.len() > 0 && s@[0] == '+' {
        s@.drop_first()
    } else {
        s@
    };
    assert(t =~= s@.subrange(start as int, n as int));
    if start >= n {
        return None;
    }
    let mut acc: u32 = 0;
    let mut j: usize = start;
    while j < n
        invariant
            start <= j <= n,
            n == s@.len(),
            t =~= s@.subrange(start as int, n as int),
            t == (if s@.len() > 0 && s@[0] == '+' {
                s@.drop_first()
            } else {
                s@
            }),
            all_digits(t.subrange(0, (j - start) as int)),
            digits_value(t.subrange(0, (j - start) as int)) >= 0,
            acc == if digits_value(t.subrange(0, (j - start) as int)) > 255 {
                256int
            } else {
                digits_value(t.subrange(0, (j - start) as int))
            },
        decreases n - j,
    {
        let c = s.get_char(j);
        if c < '0' || c > '9' {
            assert(t[(j - start) as int] == s@[j as int]);
            assert(!all_digits(t));
            return None;
        }
        let d: u32 = (c as u32) - 48;
        let ghost pre = t.subrange(0, (j - start) as int);
        let ghost pre2 = t.subrange(0, (j + 1 - start) as int);
        proof {
            assert(pre2.drop_last() =~= pre);
            assert(pre2.last() == s@[j as int]);
            assert(digits_value(pre2) == 10 * digits_value(pre) + digit_val(s@[j as int]));
            assert(all_digits(pre2)) by {
                assert(forall|k: int| 0 <= k < pre2.len() - 1 ==> pre2[k] == pre[k]);
            }
        }
        acc = if acc * 10 + d > 255 {
            256
        } else {
            acc * 10 + d
        };
        j += 1;
    }
    assert(t.subrange(0, (n - start) as int) =~= t);
    if acc > 255 {
        None
    } else {
        assert(spec_dec_u8(s@) == Some(digits_value(t) as u8));
        Some(acc as u8)
    }
}

} // verus!
