//! Verified text utilities: decimal rendering and parsing, and character-level
//! string predicates used by the source adapters.

use vstd::prelude::*;
use vstd::string::StrSliceExecFns;
use vstd::string::StringExecFns;

verus! {

/// The character for a single decimal digit value.
pub open spec fn spec_digit_char(d: int) -> char {
    if d == 0 {
        '0'
    } else if d == 1 {
        '1'
    } else if d == 2 {
        '2'
    } else if d == 3 {
        '3'
    } else if d == 4 {
        '4'
    } else if d == 5 {
        '5'
    } else if d == 6 {
        '6'
    } else if d == 7 {
        '7'
    } else if d == 8 {
        '8'
    } else {
        '9'
    }
}

/// The decimal rendering of a natural number, most significant digit first.
pub open spec fn spec_dec_digits(n: nat) -> Seq<char>
    decreases n,
{
    if n < 10 {
        seq![spec_digit_char(n as int)]
    } else {
        spec_dec_digits(n / 10).push(spec_digit_char((n % 10) as int))
    }
}

/// The decimal rendering of an integer, with a leading minus sign when negative.
pub open spec fn spec_dec_int(n: int) -> Seq<char> {
    if n < 0 {
        seq!['-'] + spec_dec_digits((-n) as nat)
    } else {
        spec_dec_digits(n as nat)
    }
}

fn digit_str(d: u64) -> (s: &'static str)
    requires
        d < 10,
    ensures
        s@ =~= seq![spec_digit_char(d as int)],
{
    proof {
        reveal_strlit("0");
        reveal_strlit("1");
        reveal_strlit("2");
        reveal_strlit("3");
        reveal_strlit("4");
        reveal_strlit("5");
        reveal_strlit("6");
        reveal_strlit("7");
        reveal_strlit("8");
        reveal_strlit("9");
    }
    match d {
        0 => "0",
        1 => "1",
        2 => "2",
        3 => "3",
        4 => "4",
        5 => "5",
        6 => "6",
        7 => "7",
        8 => "8",
        _ => "9",
    }
}

/// Renders a number in decimal, exactly as the standard formatter would.
pub fn u64_to_string(n: u64) -> (s: String)
    ensures
        s@ == spec_dec_digits(n as nat),
    decreases n,
{
    if n < 10 {
        let s = String::from_str(digit_str(n));
        assert(s@ =~= spec_dec_digits(n as nat));
        s
    } else {
        let q = n / 10;
        let r = n % 10;
        assert(q < n) by (nonlinear_arith)
            requires
                n >= 10,
                q == n / 10,
        {}
        let mut s = u64_to_string(q);
        s.append(digit_str(r));
        assert(s@ =~= spec_dec_digits(n as nat));
        s
    }
}

/// Renders a signed number in decimal, with a leading minus sign when negative.
pub fn i64_to_string(n: i64) -> (s: String)
    ensures
        s@ == spec_dec_int(n as int),
{
    if n >= 0 {
        u64_to_string(n as u64)
    } else {
        // The magnitude of i64::MIN does not fit in i64, so step through n + 1.
        let m: u64 = ((-(n + 1)) as u64) + 1;
        assert(m == -(n as int));
        let mut s = String::from_str("-");
        proof {
            reveal_strlit("-");
        }
        s.append(u64_to_string(m).as_str());
        assert(s@ =~= spec_dec_int(n as int));
        s
    }
}

/// Whether a character is a decimal digit.
pub open spec fn is_digit_char(c: char) -> bool {
    48 <= c as int <= 57
}

/// The numeric value of a decimal digit character.
pub open spec fn digit_val(c: char) -> int {
    c as int - 48
}

/// Whether every character of a sequence is a decimal digit.
pub open spec fn all_digits(s: Seq<char>) -> bool {
    forall|i: int| 0 <= i < s.len() ==> is_digit_char(#[trigger] s[i])
}

/// The numeric value of a sequence of decimal digit characters.
pub open spec fn digits_val(s: Seq<char>) -> int
    decreases s.len(),
{
    if s.len() == 0 {
        0
    } else {
        digits_val(s.drop_last()) * 10 + digit_val(s.last())
    }
}

proof fn lemma_digits_val_nonneg(s: Seq<char>)
    requires
        all_digits(s),
    ensures
        digits_val(s) >= 0,
    decreases s.len(),
{
    if s.len() > 0 {
        lemma_digits_val_nonneg(s.drop_last());
        assert(digits_val(s.drop_last()) * 10 >= 0) by (nonlinear_arith)
            requires
                digits_val(s.drop_last()) >= 0,
        {}
    }
}

proof fn lemma_digits_val_prefix_le(s: Seq<char>, i: int)
    requires
        all_digits(s),
        0 <= i <= s.len(),
    ensures
        digits_val(s.take(i)) <= digits_val(s),
    decreases s.len() - i,
{
    if i == s.len() {
        assert(s.take(i) =~= s);
    } else {
        let t = s.take(i + 1);
        assert(t.drop_last() =~= s.take(i));
        lemma_digits_val_nonneg(s.take(i));
        assert(digits_val(s.take(i)) * 10 >= digits_val(s.take(i))) by (nonlinear_arith)
            requires
                digits_val(s.take(i)) >= 0,
        {}
        lemma_digits_val_prefix_le(s, i + 1);
    }
}

/// The digit portion of a decimal numeral: the whole string, or what follows a
/// single leading plus sign.
pub open spec fn spec_numeral_body(s: Seq<char>) -> Seq<char> {
    if s.len() > 0 && s[0] == '+' {
        s.subrange(1, s.len() as int)
    } else {
        s
    }
}

/// What parsing a string as an unsigned 64-bit decimal yields: the value when
/// the string is one or more digits after an optional leading plus sign and
/// the value fits, and nothing otherwise.
pub open spec fn spec_parse_u64(s: Seq<char>) -> Option<u64> {
    let body = spec_numeral_body(s);
    if body.len() > 0 && all_digits(body) && digits_val(body) <= u64::MAX {
        Some(digits_val(body) as u64)
    } else {
        None
    }
}

/// Parses a string as an unsigned 64-bit decimal number.
pub fn parse_u64(s: &str) -> (r: Option<u64>)
    ensures
        r == spec_parse_u64(s@),
{
    let len = s.unicode_len();
    let start: usize = if len > 0 && s.get_char(0) == '+' {
        1
    } else {
        0
    };
    let ghost body = spec_numeral_body(s@);
    assert(body =~= s@.subrange(start as int, len as int));
    if start == len {
        return None;
    }
    let mut value: u64 = 0;
    let mut i: usize = start;
    while i < len
        invariant
            start <= i <= len,
            len == s@.len(),
            start == 1 ==> s@.len() > 0 && s@[0] == '+',
            start == 0 ==> !(s@.len() > 0 && s@[0] == '+'),
            body == spec_numeral_body(s@),
            body =~= s@.subrange(start as int, len as int),
            all_digits(body.take(i - start)),
            value == digits_val(body.take(i - start)),
        decreases len - i,
    {
        let c = s.get_char(i);
        let u = c as u32;
        if u < 48 || u > 57 {
            assert(!is_digit_char(body[i - start]));
            return None;
        }
        let d = (u - 48) as u64;
        proof {
            assert(body.take(i + 1 - start).drop_last() =~= body.take(i - start));
        }
        if value > (u64::MAX - d) / 10 {
            proof {
                assert(digits_val(body.take(i + 1 - start)) > u64::MAX) by (nonlinear_arith)
                    requires
                        digits_val(body.take(i + 1 - start)) == digits_val(
                            body.take(i - start),
                        ) * 10 + d,
                        digits_val(body.take(i - start)) > (u64::MAX - d) / 10,
                        0 <= d <= 9,
                {}
                if all_digits(body) {
                    lemma_digits_val_prefix_le(body, i + 1 - start);
                }
            }
            return None;
        }
        assert(value * 10 + d <= u64::MAX) by (nonlinear_arith)
            requires
                0 <= value <= (u64::MAX - d) / 10,
                0 <= d <= 9,
        {}
        value = value * 10 + d;
        i = i + 1;
    }
    assert(body.take(len - start) =~= body);
    Some(value)
}

/// Compares two strings for equality of their character sequences.
pub fn str_eq(a: &str, b: &str) -> (r: bool)
    ensures
        r == (a@ == b@),
{
    let la = a.unicode_len();
    let lb = b.unicode_len();
    if la != lb {
        return false;
    }
    let mut i: usize = 0;
    while i < la
        invariant
            0 <= i <= la,
            la == a@.len(),
            la == b@.len(),
            forall|j: int| 0 <= j < i ==> a@[j] == b@[j],
        decreases la - i,
    {
        if a.get_char(i) != b.get_char(i) {
            return false;
        }
        i = i + 1;
    }
    assert(a@ =~= b@);
    true
}

/// Whether a character is an ASCII uppercase letter.
pub open spec fn is_ascii_upper(c: char) -> bool {
    65 <= c as int <= 90
}

/// Whether two characters match ignoring ASCII case.
pub open spec fn chars_ci_eq(c1: char, c2: char) -> bool {
    c1 == c2 || (is_ascii_upper(c1) && c2 as int == c1 as int + 32) || (is_ascii_upper(c2)
        && c1 as int == c2 as int + 32)
}

/// Whether two character sequences match ignoring ASCII case.
pub open spec fn spec_eq_ignore_ascii_case(a: Seq<char>, b: Seq<char>) -> bool {
    a.len() == b.len() && forall|i: int| 0 <= i < a.len() ==> chars_ci_eq(a[i], #[trigger] b[i])
}

/// Compares two strings for equality ignoring ASCII case, as the standard
/// ASCII case-insensitive comparison does.
pub fn eq_ignore_ascii_case(a: &str, b: &str) -> (r: bool)
    ensures
        r == spec_eq_ignore_ascii_case(a@, b@),
{
    let la = a.unicode_len();
    let lb = b.unicode_len();
    if la != lb {
        return false;
    }
    let mut i: usize = 0;
    while i < la
        invariant
            0 <= i <= la,
            la == a@.len(),
            la == b@.len(),
            forall|j: int| 0 <= j < i ==> chars_ci_eq(a@[j], #[trigger] b@[j]),
        decreases la - i,
    {
        let c1 = a.get_char(i) as u32;
        let c2 = b.get_char(i) as u32;
        let m = c1 == c2 || (65 <= c1 && c1 <= 90 && c2 == c1 + 32) || (65 <= c2 && c2 <= 90 && c1
            == c2 + 32);
        if !m {
            return false;
        }
        i = i + 1;
    }
    true
}

/// Clones an optional string, preserving its view.
pub fn clone_opt_string(o: &Option<String>) -> (r: Option<String>)
    ensures
        r.deep_view() == o.deep_view(),
{
    match o {
        Some(s) => Some(s.clone()),
        None => None,
    }
}

/// Clones a vector of strings, preserving its view.
pub fn clone_string_vec(v: &Vec<String>) -> (r: Vec<String>)
    ensures
        r.deep_view() == v.deep_view(),
{
    let r = v.clone();
    proof {
        assert(r.deep_view() =~= v.deep_view());
    }
    r
}

/// The first position of a character in a sequence, or -1 when absent.
pub open spec fn spec_find(s: Seq<char>, c: char) -> int
    decreases s.len(),
{
    if s.len() == 0 {
        -1
    } else if s[0] == c {
        0
    } else {
        let r = spec_find(s.drop_first(), c);
        if r == -1 {
            -1
        } else {
            r + 1
        }
    }
}

/// What the first position of a character means: it carries the character,
/// nothing before it does, and -1 means the character is absent.
pub proof fn lemma_spec_find(s: Seq<char>, c: char)
    ensures
        spec_find(s, c) == -1 ==> forall|j: int| 0 <= j < s.len() ==> s[j] != c,
        spec_find(s, c) != -1 ==> 0 <= spec_find(s, c) < s.len() && s[spec_find(s, c)] == c
            && forall|j: int| 0 <= j < spec_find(s, c) ==> s[j] != c,
    decreases s.len(),
{
    if s.len() > 0 && s[0] != c {
        lemma_spec_find(s.drop_first(), c);
        assert forall|j: int| 0 <= j < s.len() && s[j] == c implies spec_find(s, c) != -1 && j
            >= spec_find(s, c) by {
            assert(s.drop_first()[j - 1] == s[j]);
        }
        if spec_find(s, c) != -1 {
            assert(s[spec_find(s, c)] == s.drop_first()[spec_find(s.drop_first(), c)]);
            assert forall|j: int| 0 <= j < spec_find(s, c) implies s[j] != c by {
                if j > 0 {
                    assert(s.drop_first()[j - 1] == s[j]);
                }
            }
        }
    }
}

/// The last position of a character in a sequence, or -1 when absent.
pub open spec fn spec_rfind(s: Seq<char>, c: char) -> int
    decreases s.len(),
{
    if s.len() == 0 {
        -1
    } else if s.last() == c {
        s.len() - 1
    } else {
        spec_rfind(s.drop_last(), c)
    }
}

/// What the last position of a character means: it carries the character,
/// nothing after it does, and -1 means the character is absent.
pub proof fn lemma_spec_rfind(s: Seq<char>, c: char)
    ensures
        spec_rfind(s, c) == -1 ==> forall|j: int| 0 <= j < s.len() ==> s[j] != c,
        spec_rfind(s, c) != -1 ==> 0 <= spec_rfind(s, c) < s.len() && s[spec_rfind(s, c)] == c
            && forall|j: int| spec_rfind(s, c) < j < s.len() ==> s[j] != c,
    decreases s.len(),
{
    if s.len() > 0 && s.last() != c {
        lemma_spec_rfind(s.drop_last(), c);
        let dl = s.drop_last();
        if spec_rfind(s, c) == -1 {
            assert forall|j: int| 0 <= j < s.len() implies s[j] != c by {
                if j < s.len() - 1 {
                    assert(dl[j] == s[j]);
                }
            }
        } else {
            let r = spec_rfind(s, c);
            assert(s[r] == dl[r]);
            assert forall|j: int| r < j < s.len() implies s[j] != c by {
                if j < s.len() - 1 {
                    assert(dl[j] == s[j]);
                }
            }
        }
    }
}

/// Finds the first position of a character in a string.
pub fn find_char_first(s: &str, c: char) -> (r: Option<usize>)
    ensures
        match r {
            Some(i) => i == spec_find(s@, c) && i < s@.len() && s@[i as int] == c && forall|j: int|
                0 <= j < i ==> s@[j] != c,
            None => spec_find(s@, c) == -1 && forall|j: int| 0 <= j < s@.len() ==> s@[j] != c,
        },
{
    proof {
        lemma_spec_find(s@, c);
    }
    let len = s.unicode_len();
    let mut i: usize = 0;
    while i < len
        invariant
            0 <= i <= len,
            len == s@.len(),
            forall|j: int| 0 <= j < i ==> s@[j] != c,
        decreases len - i,
    {
        if s.get_char(i) == c {
            proof {
                lemma_spec_find(s@, c);
            }
            return Some(i);
        }
        i = i + 1;
    }
    None
}

/// Finds the last position of a character in a string.
pub fn find_char_last(s: &str, c: char) -> (r: Option<usize>)
    ensures
        match r {
            Some(i) => i == spec_rfind(s@, c) && i < s@.len() && s@[i as int] == c && forall|
                j: int,
            |
                i < j < s@.len() ==> s@[j] != c,
            None => spec_rfind(s@, c) == -1 && forall|j: int| 0 <= j < s@.len() ==> s@[j] != c,
        },
{
    proof {
        lemma_spec_rfind(s@, c);
    }
    let len = s.unicode_len();
    let mut i: usize = len;
    while i > 0
        invariant
            0 <= i <= len,
            len == s@.len(),
            forall|j: int| i <= j < s@.len() ==> s@[j] != c,
        decreases i,
    {
        i = i - 1;
        if s.get_char(i) == c {
            proof {
                lemma_spec_rfind(s@, c);
            }
            return Some(i);
        }
    }
    None
}

/// Copies a character range of a string into an owned string.
pub fn substring_string(s: &str, from: usize, to: usize) -> (r: String)
    requires
        from <= to <= s@.len(),
    ensures
        r@ == s@.subrange(from as int, to as int),
{
    s.substring_char(from, to).to_owned()
}

/// Whether a pattern occurs in a sequence at a given position.
pub open spec fn matches_at(s: Seq<char>, pat: Seq<char>, i: int) -> bool {
    0 <= i && i + pat.len() <= s.len() && s.subrange(i, i + pat.len() as int) == pat
}

/// Whether a pattern occurs anywhere in a sequence.
pub open spec fn spec_contains(s: Seq<char>, pat: Seq<char>) -> bool {
    exists|i: int| matches_at(s, pat, i)
}

/// The first position at or after `i` at which a pattern occurs in a
/// sequence, or -1 when it occurs nowhere there.
pub open spec fn spec_find_sub_from(s: Seq<char>, pat: Seq<char>, i: int) -> int
    decreases s.len() - i,
{
    if i < 0 || i + pat.len() > s.len() {
        -1
    } else if pat.len() == 0 || matches_at(s, pat, i) {
        i
    } else {
        spec_find_sub_from(s, pat, i + 1)
    }
}

/// The first position at which a pattern occurs in a sequence, or -1 when it
/// does not occur.
pub open spec fn spec_find_sub(s: Seq<char>, pat: Seq<char>) -> int {
    spec_find_sub_from(s, pat, 0)
}

proof fn lemma_spec_find_sub_from(s: Seq<char>, pat: Seq<char>, i: int)
    requires
        0 <= i,
    ensures
        spec_find_sub_from(s, pat, i) == -1 ==> forall|j: int| i <= j ==> !matches_at(s, pat, j),
        spec_find_sub_from(s, pat, i) != -1 ==> i <= spec_find_sub_from(s, pat, i) && matches_at(
            s,
            pat,
            spec_find_sub_from(s, pat, i),
        ) && forall|j: int| i <= j < spec_find_sub_from(s, pat, i) ==> !matches_at(s, pat, j),
    decreases s.len() - i,
{
    if i + pat.len() > s.len() {
    } else if pat.len() == 0 {
        assert(s.subrange(i, i + pat.len() as int) =~= pat);
    } else if matches_at(s, pat, i) {
    } else {
        lemma_spec_find_sub_from(s, pat, i + 1);
    }
}

/// What the first position of a pattern means: the pattern occurs there,
/// nowhere earlier, and -1 means it occurs nowhere.
pub proof fn lemma_spec_find_sub(s: Seq<char>, pat: Seq<char>)
    ensures
        spec_find_sub(s, pat) == -1 ==> !spec_contains(s, pat),
        spec_find_sub(s, pat) != -1 ==> 0 <= spec_find_sub(s, pat) && matches_at(
            s,
            pat,
            spec_find_sub(s, pat),
        ) && forall|j: int| 0 <= j < spec_find_sub(s, pat) ==> !matches_at(s, pat, j),
{
    lemma_spec_find_sub_from(s, pat, 0);
    if spec_find_sub(s, pat) == -1 {
        assert forall|j: int| !matches_at(s, pat, j) by {
            if j >= 0 {
                assert(!matches_at(s, pat, j));
            }
        }
    }
}

fn substr_match_here(s: &str, pat: &str, at: usize, s_len: usize, pat_len: usize) -> (r: bool)
    requires
        s_len == s@.len(),
        pat_len == pat@.len(),
        at + pat_len <= s_len,
    ensures
        r == matches_at(s@, pat@, at as int),
{
    let mut k: usize = 0;
    while k < pat_len
        invariant
            0 <= k <= pat_len,
            s_len == s@.len(),
            pat_len == pat@.len(),
            at + pat_len <= s_len,
            forall|j: int| 0 <= j < k ==> s@[at + j] == pat@[j],
        decreases pat_len - k,
    {
        if s.get_char(at + k) != pat.get_char(k) {
            assert(s@.subrange(at as int, at + pat@.len() as int)[k as int] != pat@[k as int]);
            return false;
        }
        k = k + 1;
    }
    assert(s@.subrange(at as int, at + pat@.len() as int) =~= pat@);
    true
}

/// Finds the first position at which a pattern occurs in a string.
pub fn find_substr(s: &str, pat: &str) -> (r: Option<usize>)
    ensures
        match r {
            Some(i) => i == spec_find_sub(s@, pat@) && matches_at(s@, pat@, i as int) && forall|
                j: int,
            |
                0 <= j < i ==> !matches_at(s@, pat@, j),
            None => spec_find_sub(s@, pat@) == -1 && !spec_contains(s@, pat@),
        },
{
    proof {
        lemma_spec_find_sub(s@, pat@);
    }
    let s_len = s.unicode_len();
    let pat_len = pat.unicode_len();
    if pat_len > s_len {
        return None;
    }
    if pat_len == 0 {
        assert(s@.subrange(0, 0) =~= pat@);
        return Some(0);
    }
    let mut i: usize = 0;
    while i <= s_len - pat_len
        invariant
            0 <= i <= s_len - pat_len + 1,
            s_len == s@.len(),
            pat_len == pat@.len(),
            0 < pat_len <= s_len,
            forall|j: int| 0 <= j < i ==> !matches_at(s@, pat@, j),
        decreases s_len - i,
    {
        if substr_match_here(s, pat, i, s_len, pat_len) {
            proof {
                lemma_spec_find_sub(s@, pat@);
            }
            return Some(i);
        }
        i = i + 1;
    }
    proof {
        lemma_spec_find_sub(s@, pat@);
    }
    None
}

/// Whether a pattern occurs anywhere in a string.
pub fn contains_substr(s: &str, pat: &str) -> (r: bool)
    ensures
        r == spec_contains(s@, pat@),
{
    match find_substr(s, pat) {
        Some(_) => true,
        None => false,
    }
}

/// A sequence with its leading run of one character removed.
pub open spec fn spec_strip_leading(s: Seq<char>, c: char) -> Seq<char>
    decreases s.len(),
{
    if s.len() == 0 || s[0] != c {
        s
    } else {
        spec_strip_leading(s.drop_first(), c)
    }
}

proof fn lemma_strip_leading_subrange(s: Seq<char>, c: char, n: int)
    requires
        0 <= n <= s.len(),
        forall|j: int| 0 <= j < n ==> s[j] == c,
        n < s.len() ==> s[n] != c,
    ensures
        spec_strip_leading(s, c) == s.subrange(n, s.len() as int),
    decreases n,
{
    if n == 0 {
        assert(s.subrange(0, s.len() as int) =~= s);
    } else {
        let d = s.drop_first();
        assert forall|j: int| 0 <= j < n - 1 implies d[j] == c by {
            assert(d[j] == s[j + 1]);
        }
        lemma_strip_leading_subrange(d, c, n - 1);
        assert(d.subrange(n - 1, d.len() as int) =~= s.subrange(n, s.len() as int));
    }
}

/// Removes the leading run of one character from the start of a string.
pub fn strip_leading(s: &str, c: char) -> (r: String)
    ensures
        r@ == spec_strip_leading(s@, c),
{
    let n = leading_count(s, c);
    let len = s.unicode_len();
    proof {
        lemma_strip_leading_subrange(s@, c, n as int);
    }
    substring_string(s, n, len)
}

/// Counts the characters equal to the given one at the start of a string.
pub fn leading_count(s: &str, c: char) -> (r: usize)
    ensures
        r <= s@.len(),
        forall|j: int| 0 <= j < r ==> s@[j] == c,
        r < s@.len() ==> s@[r as int] != c,
{
    let len = s.unicode_len();
    let mut i: usize = 0;
    while i < len
        invariant
            0 <= i <= len,
            len == s@.len(),
            forall|j: int| 0 <= j < i ==> s@[j] == c,
        decreases len - i,
    {
        if s.get_char(i) != c {
            return i;
        }
        i = i + 1;
    }
    len
}

} // verus!
