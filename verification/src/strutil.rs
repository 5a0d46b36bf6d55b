//! Verified helpers for working with strings at the character level.
//!
//! Contracts throughout the crate speak about `Seq<char>` views; the
//! executable functions here connect those views to `&str` and `String`
//! values: equality, prefix and suffix tests, searching, slicing,
//! concatenation, trimming, splitting and joining, decimal rendering, and
//! a lexicographic order.

use vstd::prelude::*;
use vstd::seq_lib::*;
use vstd::string::*;

verus! {

/// First index at which character `c` occurs in `s`, if any.
pub open spec fn find_char_spec(s: Seq<char>, c: char) -> Option<int>
    decreases s.len(),
{
    if s.len() == 0 {
        None
    } else if s[0] == c {
        Some(0int)
    } else {
        match find_char_spec(s.skip(1), c) {
            Some(i) => Some(i + 1),
            None => None,
        }
    }
}

/// The characteristic property of `find_char_spec`.
pub proof fn lemma_find_char_spec(s: Seq<char>, c: char)
    ensures
        match find_char_spec(s, c) {
            Some(i) => 0 <= i < s.len() && s[i] == c && forall|j: int|
                0 <= j < i ==> s[j] != c,
            None => forall|j: int| 0 <= j < s.len() ==> s[j] != c,
        },
    decreases s.len(),
{
    if s.len() != 0 && s[0] != c {
        let t = s.skip(1);
        lemma_find_char_spec(t, c);
        assert(forall|j: int| 0 <= j < t.len() ==> t[j] == s[j + 1]);
        match find_char_spec(t, c) {
            Some(i) => {
                assert(s[i + 1] == t[i]);
                assert forall|j: int| 0 <= j < i + 1 implies s[j] != c by {
                    if j > 0 {
                        assert(s[j] == t[j - 1]);
                    }
                }
            },
            None => {
                assert forall|j: int| 0 <= j < s.len() implies s[j] != c by {
                    if j > 0 {
                        assert(s[j] == t[j - 1]);
                    }
                }
            },
        }
    }
}

/// `s` contains character `c` exactly when `find_char_spec` finds an index.
pub proof fn lemma_find_char_contains(s: Seq<char>, c: char)
    ensures
        find_char_spec(s, c) is Some <==> s.contains(c),
{
    lemma_find_char_spec(s, c);
    if s.contains(c) {
        let i = choose|i: int| 0 <= i < s.len() && s[i] == c;
        assert(s[i] == c);
    }
}

/// Index of the first occurrence of `c` in `s`.
pub fn find_char(s: &str, c: char) -> (r: Option<usize>)
    ensures
        match r {
            Some(i) => find_char_spec(s@, c) == Some(i as int),
            None => find_char_spec(s@, c) is None,
        },
{
    let n = s.unicode_len();
    let mut i: usize = 0;
    while i < n
        invariant
            n == s@.len(),
            0 <= i <= n,
            forall|j: int| 0 <= j < i ==> s@[j] != c,
        decreases n - i,
    {
        if s.get_char(i) == c {
            proof {
                lemma_find_char_spec(s@, c);
                if find_char_spec(s@, c) is None {
                    assert(s@[i as int] == c);
                } else {
                    let k = find_char_spec(s@, c)->Some_0;
                    if k < i {
                        assert(s@[k] != c);
                    } else if k > i {
                        assert(s@[i as int] != c);
                    }
                }
            }
            return Some(i);
        }
        i = i + 1;
    }
    proof {
        lemma_find_char_spec(s@, c);
        if find_char_spec(s@, c) is Some {
            let k = find_char_spec(s@, c)->Some_0;
            assert(s@[k] != c);
        }
    }
    None
}

/// True when `s` contains the character `c`.
pub fn contains_char(s: &str, c: char) -> (r: bool)
    ensures
        r == s@.contains(c),
{
    proof {
        lemma_find_char_contains(s@, c);
    }
    find_char(s, c).is_some()
}

/// First index at which `p` occurs as a contiguous run inside `s`, if any.
pub open spec fn find_sub_spec(s: Seq<char>, p: Seq<char>) -> Option<int>
    decreases s.len(),
{
    if p.len() > s.len() {
        None
    } else if s.subrange(0, p.len() as int) == p {
        Some(0int)
    } else if s.len() == p.len() {
        None
    } else {
        match find_sub_spec(s.skip(1), p) {
            Some(i) => Some(i + 1),
            None => None,
        }
    }
}

/// `s` holds `p` as a contiguous run somewhere.
pub open spec fn has_sub(s: Seq<char>, p: Seq<char>) -> bool {
    exists|j: int| 0 <= j && j + p.len() <= s.len() && #[trigger] s.subrange(j, j + p.len() as int)
        == p
}

/// The characteristic property of `find_sub_spec`.
pub proof fn lemma_find_sub_spec(s: Seq<char>, p: Seq<char>)
    ensures
        match find_sub_spec(s, p) {
            Some(i) => 0 <= i && i + p.len() <= s.len() && s.subrange(i, i + p.len() as int) == p
                && forall|j: int|
                0 <= j < i ==> #[trigger] s.subrange(j, j + p.len() as int) != p,
            None => forall|j: int|
                0 <= j && j + p.len() <= s.len() ==> #[trigger] s.subrange(j, j + p.len() as int)
                    != p,
        },
    decreases s.len(),
{
    let m = p.len() as int;
    if p.len() > s.len() {
    } else if s.subrange(0, m) == p {
    } else if s.len() == p.len() {
    } else {
        let t = s.skip(1);
        lemma_find_sub_spec(t, p);
        assert(t.len() == s.len() - 1);
        assert forall|j: int| 0 <= j && j + m <= t.len() implies #[trigger] t.subrange(j, j + m)
            =~= s.subrange(j + 1, j + 1 + m) by {
            let u = t.subrange(j, j + m);
            let v = s.subrange(j + 1, j + 1 + m);
            assert forall|k: int| 0 <= k < m implies u[k] == v[k] by {
                assert(u[k] == t[j + k]);
                assert(t[j + k] == s[j + k + 1]);
            }
        }
        match find_sub_spec(t, p) {
            Some(i) => {
                assert(s.subrange(i + 1, i + 1 + m) == p);
                assert forall|j: int| 0 <= j < i + 1 implies #[trigger] s.subrange(j, j + m) != p by {
                    if j > 0 {
                        assert(t.subrange(j - 1, j - 1 + m) != p);
                    }
                }
            },
            None => {
                assert forall|j: int| 0 <= j && j + m <= s.len() implies #[trigger] s.subrange(
                    j,
                    j + m,
                ) != p by {
                    if j > 0 {
                        assert(t.subrange(j - 1, j - 1 + m) != p);
                    }
                }
            },
        }
    }
}

/// `find_sub_spec` finds an index exactly when the run occurs.
pub proof fn lemma_find_sub_has_sub(s: Seq<char>, p: Seq<char>)
    ensures
        find_sub_spec(s, p) is Some <==> has_sub(s, p),
{
    lemma_find_sub_spec(s, p);
    if find_sub_spec(s, p) is Some {
        let i = find_sub_spec(s, p)->Some_0;
        assert(0 <= i && i + p.len() <= s.len() && s.subrange(i, i + p.len() as int) == p);
    }
}

/// Index of the first occurrence of `p` as a contiguous run in `s`.
pub fn find_sub(s: &str, p: &str) -> (r: Option<usize>)
    ensures
        match r {
            Some(i) => find_sub_spec(s@, p@) == Some(i as int),
            None => find_sub_spec(s@, p@) is None,
        },
{
    let n = s.unicode_len();
    let m = p.unicode_len();
    if m > n {
        proof {
            lemma_find_sub_spec(s@, p@);
        }
        return None;
    }
    if m == 0 {
        proof {
            assert(s@.subrange(0, 0) =~= p@);
        }
        return Some(0);
    }
    let mut i: usize = 0;
    while i <= n - m
        invariant
            n == s@.len(),
            m == p@.len(),
            1 <= m <= n,
            0 <= i <= n - m + 1,
            forall|j: int| 0 <= j < i ==> #[trigger] s@.subrange(j, j + m as int) != p@,
        decreases n - i,
    {
        let w = s.substring_char(i, i + m);
        if str_eq(w, p) {
            proof {
                lemma_find_sub_spec(s@, p@);
                assert(s@.subrange(i as int, i + m as int) == p@);
                if find_sub_spec(s@, p@) is None {
                } else {
                    let k = find_sub_spec(s@, p@)->Some_0;
                    if k < i {
                        assert(s@.subrange(k, k + m as int) != p@);
                    } else if k > i {
                        assert(s@.subrange(i as int, i + m as int) != p@);
                    }
                }
            }
            return Some(i);
        }
        i = i + 1;
    }
    proof {
        lemma_find_sub_spec(s@, p@);
        if find_sub_spec(s@, p@) is Some {
            let k = find_sub_spec(s@, p@)->Some_0;
            assert(s@.subrange(k, k + m as int) != p@);
        }
    }
    None
}

/// True when `p` occurs as a contiguous run inside `s`.
pub fn contains_sub(s: &str, p: &str) -> (r: bool)
    ensures
        r == has_sub(s@, p@),
{
    proof {
        lemma_find_sub_has_sub(s@, p@);
    }
    find_sub(s, p).is_some()
}

/// Character-for-character equality of two string slices.
pub fn str_eq(a: &str, b: &str) -> (r: bool)
    ensures
        r == (a@ == b@),
{
    let na = a.unicode_len();
    let nb = b.unicode_len();
    if na != nb {
        return false;
    }
    let mut i: usize = 0;
    while i < na
        invariant
            na == a@.len(),
            nb == b@.len(),
            na == nb,
            0 <= i <= na,
            forall|j: int| 0 <= j < i ==> a@[j] == b@[j],
        decreases na - i,
    {
        if a.get_char(i) != b.get_char(i) {
            return false;
        }
        i = i + 1;
    }
    proof {
        assert(a@ =~= b@);
    }
    true
}

/// True when `p` is a prefix of `s`.
pub fn starts_with_str(s: &str, p: &str) -> (r: bool)
    ensures
        r == p@.is_prefix_of(s@),
{
    let n = s.unicode_len();
    let m = p.unicode_len();
    if m > n {
        return false;
    }
    let mut i: usize = 0;
    while i < m
        invariant
            n == s@.len(),
            m == p@.len(),
            m <= n,
            0 <= i <= m,
            forall|j: int| 0 <= j < i ==> s@[j] == p@[j],
        decreases m - i,
    {
        if s.get_char(i) != p.get_char(i) {
            assert(!p@.is_prefix_of(s@));
            return false;
        }
        i = i + 1;
    }
    proof {
        assert(s@.subrange(0, m as int) =~= p@);
    }
    true
}

/// True when `p` is a suffix of `s`.
pub fn ends_with_str(s: &str, p: &str) -> (r: bool)
    ensures
        r == p@.is_suffix_of(s@),
{
    let n = s.unicode_len();
    let m = p.unicode_len();
    if m > n {
        return false;
    }
    let off = n - m;
    let mut i: usize = 0;
    while i < m
        invariant
            n == s@.len(),
            m == p@.len(),
            m <= n,
            off == n - m,
            0 <= i <= m,
            forall|j: int| 0 <= j < i ==> s@[off + j] == p@[j],
        decreases m - i,
    {
        if s.get_char(off + i) != p.get_char(i) {
            assert(s@.subrange(off as int, n as int)[i as int] == s@[off + i]);
            assert(!p@.is_suffix_of(s@));
            return false;
        }
        i = i + 1;
    }
    proof {
        assert(s@.subrange(off as int, n as int) =~= p@);
    }
    true
}

/// The code point of a character, with an ASCII capital letter lowered.
pub open spec fn lower_code(c: char) -> int {
    if 65 <= c as int <= 90 {
        c as int + 32
    } else {
        c as int
    }
}

/// `p` is a suffix of `s`, compared ASCII-case-insensitively: the
/// characters match up to the case of ASCII letters.
pub open spec fn has_suffix_ascii_ci(s: Seq<char>, p: Seq<char>) -> bool {
    p.len() <= s.len() && forall|i: int|
        0 <= i < p.len() ==> lower_code(s[s.len() - p.len() + i]) == lower_code(#[trigger] p[i])
}

/// The code point of a character, with an ASCII capital letter lowered.
fn lower_u32(c: char) -> (r: u32)
    ensures
        r as int == lower_code(c),
{
    let v = c as u32;
    if 65 <= v && v <= 90 {
        v + 32
    } else {
        v
    }
}

/// True when `p` is a suffix of `s` up to ASCII letter case.
pub fn ends_with_ascii_ci(s: &str, p: &str) -> (r: bool)
    ensures
        r == has_suffix_ascii_ci(s@, p@),
{
    let n = s.unicode_len();
    let m = p.unicode_len();
    if m > n {
        return false;
    }
    let off = n - m;
    let mut i: usize = 0;
    while i < m
        invariant
            n == s@.len(),
            m == p@.len(),
            m <= n,
            off == n - m,
            0 <= i <= m,
            forall|j: int| 0 <= j < i ==> lower_code(s@[off + j]) == lower_code(#[trigger] p@[j]),
        decreases m - i,
    {
        if lower_u32(s.get_char(off + i)) != lower_u32(p.get_char(i)) {
            return false;
        }
        i = i + 1;
    }
    true
}

/// Copy of the characters of `s` from index `from` (inclusive) to `to`
/// (exclusive), as an owned string.
pub fn substring(s: &str, from: usize, to: usize) -> (r: String)
    requires
        from <= to <= s@.len(),
    ensures
        r@ == s@.subrange(from as int, to as int),
{
    let sub = s.substring_char(from, to);
    sub_to_owned(sub)
}

/// Owned copy of a string slice.
fn sub_to_owned(s: &str) -> (r: String)
    ensures
        r@ == s@,
{
    String::from_str(s)
}

/// Concatenation of two string slices.
pub fn concat2(a: &str, b: &str) -> (r: String)
    ensures
        r@ == a@ + b@,
{
    let mut r = String::from_str(a);
    r.append(b);
    r
}

/// Concatenation of three string slices.
pub fn concat3(a: &str, b: &str, c: &str) -> (r: String)
    ensures
        r@ == a@ + b@ + c@,
{
    let mut r = String::from_str(a);
    r.append(b);
    r.append(c);
    r
}

/// Last index at which character `c` occurs in `s`, if any.
pub open spec fn find_last_char_spec(s: Seq<char>, c: char) -> Option<int>
    decreases s.len(),
{
    if s.len() == 0 {
        None
    } else if s.last() == c {
        Some(s.len() - 1)
    } else {
        find_last_char_spec(s.drop_last(), c)
    }
}

/// The characteristic property of `find_last_char_spec`.
pub proof fn lemma_find_last_char_spec(s: Seq<char>, c: char)
    ensures
        match find_last_char_spec(s, c) {
            Some(i) => 0 <= i < s.len() && s[i] == c && forall|j: int|
                i < j < s.len() ==> s[j] != c,
            None => forall|j: int| 0 <= j < s.len() ==> s[j] != c,
        },
    decreases s.len(),
{
    if s.len() != 0 && s.last() != c {
        let t = s.drop_last();
        lemma_find_last_char_spec(t, c);
        assert(forall|j: int| 0 <= j < t.len() ==> t[j] == s[j]);
    }
}

/// Index of the last occurrence of `c` in `s`.
pub fn find_last_char(s: &str, c: char) -> (r: Option<usize>)
    ensures
        match r {
            Some(i) => find_last_char_spec(s@, c) == Some(i as int),
            None => find_last_char_spec(s@, c) is None,
        },
{
    let n = s.unicode_len();
    let mut b: usize = n;
    while b > 0
        invariant
            n == s@.len(),
            0 <= b <= n,
            forall|j: int| b <= j < n ==> s@[j] != c,
        decreases b,
    {
        if s.get_char(b - 1) == c {
            proof {
                lemma_find_last_char_spec(s@, c);
                if find_last_char_spec(s@, c) is None {
                    assert(s@[b - 1] == c);
                } else {
                    let k = find_last_char_spec(s@, c)->Some_0;
                    if k < b - 1 {
                        assert(s@[b - 1] != c);
                    } else if k > b - 1 {
                        assert(s@[k] != c);
                    }
                }
            }
            return Some(b - 1);
        }
        b = b - 1;
    }
    proof {
        lemma_find_last_char_spec(s@, c);
        if find_last_char_spec(s@, c) is Some {
            let k = find_last_char_spec(s@, c)->Some_0;
            assert(s@[k] != c);
        }
    }
    None
}

/// The character of one decimal digit.
pub open spec fn digit_char(d: int) -> char {
    if d == 0 {
        '0'
    } else if d == 1 {
        '1'
    } else if d == 2 {
        '2'
    } else if d == 3 {
        '3'
    } else if d == 4 {
        '4'
    } else if d == 5 {
        '5'
    } else if d == 6 {
        '6'
    } else if d == 7 {
        '7'
    } else if d == 8 {
        '8'
    } else {
        '9'
    }
}

/// The decimal digits of a non-negative number, most significant first.
pub open spec fn spec_decimal(n: int) -> Seq<char>
    decreases n,
{
    if n < 10 {
        seq![digit_char(n)]
    } else {
        spec_decimal(n / 10).push(digit_char(n % 10))
    }
}

/// The string of one decimal digit.
fn digit_str(d: u32) -> (r: &'static str)
    requires
        d < 10,
    ensures
        r@ == seq![digit_char(d as int)],
{
    proof {
        reveal_strlit("0");
        reveal_strlit("1");
        reveal_strlit("2");
        reveal_strlit("3");
        reveal_strlit("4");
        reveal_strlit("5");
        reveal_strlit("6");
        reveal_strlit("7");
        reveal_strlit("8");
        reveal_strlit("9");
    }
    let r = match d {
        0 => "0",
        1 => "1",
        2 => "2",
        3 => "3",
        4 => "4",
        5 => "5",
        6 => "6",
        7 => "7",
        8 => "8",
        _ => "9",
    };
    proof {
        assert(r@ =~= seq![digit_char(d as int)]);
    }
    r
}

/// The decimal rendering of a number.
pub fn u32_to_string(n: u32) -> (r: String)
    ensures
        r@ == spec_decimal(n as int),
    decreases n,
{
    if n < 10 {
        String::from_str(digit_str(n))
    } else {
        let mut r = u32_to_string(n / 10);
        r.append(digit_str(n % 10));
        proof {
            assert(r@ =~= spec_decimal(n as int));
        }
        r
    }
}

/// The characters that trimming and word splitting treat as whitespace:
/// the members of Unicode's White_Space set, as `char::is_whitespace` has
/// them.
pub open spec fn is_space(c: char) -> bool {
    ||| c == '\t'
    ||| c == '\n'
    ||| c == '\u{B}'
    ||| c == '\u{C}'
    ||| c == '\r'
    ||| c == ' '
    ||| c == '\u{85}'
    ||| c == '\u{A0}'
    ||| c == '\u{1680}'
    ||| 0x2000 <= c as int <= 0x200A
    ||| c == '\u{2028}'
    ||| c == '\u{2029}'
    ||| c == '\u{202F}'
    ||| c == '\u{205F}'
    ||| c == '\u{3000}'
}

/// Number of leading whitespace characters of `s`.
pub open spec fn leading_spaces(s: Seq<char>) -> int
    decreases s.len(),
{
    if s.len() == 0 {
        0
    } else if is_space(s[0]) {
        1 + leading_spaces(s.skip(1))
    } else {
        0
    }
}

/// Number of trailing whitespace characters of `s`.
pub open spec fn trailing_spaces(s: Seq<char>) -> int
    decreases s.len(),
{
    if s.len() == 0 {
        0
    } else if is_space(s.last()) {
        1 + trailing_spaces(s.drop_last())
    } else {
        0
    }
}

/// `s` with leading and trailing whitespace removed.
pub open spec fn trim_spec(s: Seq<char>) -> Seq<char> {
    if leading_spaces(s) == s.len() {
        Seq::empty()
    } else {
        s.subrange(leading_spaces(s), s.len() - trailing_spaces(s))
    }
}

proof fn lemma_leading_spaces(s: Seq<char>)
    ensures
        0 <= leading_spaces(s) <= s.len(),
        forall|j: int| 0 <= j < leading_spaces(s) ==> is_space(s[j]),
        leading_spaces(s) < s.len() ==> !is_space(s[leading_spaces(s)]),
    decreases s.len(),
{
    if s.len() != 0 && is_space(s[0]) {
        let t = s.skip(1);
        lemma_leading_spaces(t);
        assert(forall|j: int| 0 <= j < t.len() ==> t[j] == s[j + 1]);
        assert forall|j: int| 0 <= j < leading_spaces(s) implies is_space(s[j]) by {
            if j > 0 {
                assert(is_space(t[j - 1]));
            }
        }
    }
}

proof fn lemma_trailing_spaces(s: Seq<char>)
    ensures
        0 <= trailing_spaces(s) <= s.len(),
        forall|j: int| s.len() - trailing_spaces(s) <= j < s.len() ==> is_space(s[j]),
        trailing_spaces(s) < s.len() ==> !is_space(s[s.len() - trailing_spaces(s) - 1]),
    decreases s.len(),
{
    if s.len() != 0 && is_space(s.last()) {
        let t = s.drop_last();
        lemma_trailing_spaces(t);
        assert(forall|j: int| 0 <= j < t.len() ==> t[j] == s[j]);
    }
}

/// `s` with leading and trailing whitespace removed, as an owned string.
pub fn trim_str(s: &str) -> (r: String)
    ensures
        r@ == trim_spec(s@),
{
    let n = s.unicode_len();
    let mut a: usize = 0;
    while a < n && is_space_exec(s.get_char(a))
        invariant
            n == s@.len(),
            0 <= a <= n,
            forall|j: int| 0 <= j < a ==> is_space(s@[j]),
        decreases n - a,
    {
        a = a + 1;
    }
    proof {
        lemma_leading_spaces(s@);
        let l = leading_spaces(s@);
        if l < a {
            assert(is_space(s@[l]));
        } else if a < l {
            assert(is_space(s@[a as int]));
        }
    }
    if a == n {
        let r = String::new();
        proof {
            assert(r@ =~= trim_spec(s@));
        }
        return r;
    }
    let mut b: usize = n;
    while b > a && is_space_exec(s.get_char(b - 1))
        invariant
            n == s@.len(),
            0 <= a < n,
            a <= b <= n,
            !is_space(s@[a as int]),
            forall|j: int| b <= j < n ==> is_space(s@[j]),
        decreases b,
    {
        b = b - 1;
    }
    proof {
        lemma_trailing_spaces(s@);
        let t = trailing_spaces(s@);
        if n - t < b {
            assert(is_space(s@[b - 1]));
        } else if b < n - t {
            assert(is_space(s@[n - t - 1]));
        }
        assert(b == n - t);
    }
    substring(s, a, b)
}

/// Number of copies of `c` at the end of `s`.
pub open spec fn trailing_count(s: Seq<char>, c: char) -> int
    decreases s.len(),
{
    if s.len() == 0 {
        0
    } else if s.last() == c {
        1 + trailing_count(s.drop_last(), c)
    } else {
        0
    }
}

/// `s` with every trailing copy of `c` removed.
pub open spec fn trim_trailing(s: Seq<char>, c: char) -> Seq<char> {
    s.take(s.len() - trailing_count(s, c))
}

proof fn lemma_trailing_count(s: Seq<char>, c: char)
    ensures
        0 <= trailing_count(s, c) <= s.len(),
        forall|j: int| s.len() - trailing_count(s, c) <= j < s.len() ==> s[j] == c,
        trailing_count(s, c) < s.len() ==> s[s.len() - trailing_count(s, c) - 1] != c,
    decreases s.len(),
{
    if s.len() != 0 && s.last() == c {
        let t = s.drop_last();
        lemma_trailing_count(t, c);
        assert(forall|j: int| 0 <= j < t.len() ==> t[j] == s[j]);
    }
}

/// `s` with every trailing copy of `c` removed, as an owned string.
pub fn trim_trailing_char(s: &str, c: char) -> (r: String)
    ensures
        r@ == trim_trailing(s@, c),
{
    let n = s.unicode_len();
    let mut b: usize = n;
    while b > 0 && s.get_char(b - 1) == c
        invariant
            n == s@.len(),
            0 <= b <= n,
            forall|j: int| b <= j < n ==> s@[j] == c,
        decreases b,
    {
        b = b - 1;
    }
    proof {
        lemma_trailing_count(s@, c);
        let t = trailing_count(s@, c);
        if n - t < b {
            assert(s@[b - 1] == c);
        } else if b < n - t {
            assert(s@[n - t - 1] == c);
        }
        assert(b == n - t);
        assert(s@.take(b as int) =~= s@.subrange(0, b as int));
    }
    substring(s, 0, b)
}

/// Executable test for the whitespace characters that trimming removes.
pub fn is_space_exec(c: char) -> (r: bool)
    ensures
        r == is_space(c),
{
    let v = c as u32;
    v == 0x9 || v == 0xA || v == 0xB || v == 0xC || v == 0xD || v == 0x20 || v == 0x85
        || v == 0xA0 || v == 0x1680 || (0x2000 <= v && v <= 0x200A) || v == 0x2028 || v == 0x2029
        || v == 0x202F || v == 0x205F || v == 0x3000
}

/// The parts joined with one separator character between them.
pub open spec fn spec_join(parts: Seq<Seq<char>>, c: char) -> Seq<char>
    decreases parts.len(),
{
    if parts.len() == 0 {
        Seq::empty()
    } else if parts.len() == 1 {
        parts[0]
    } else {
        spec_join(parts.drop_last(), c) + seq![c] + parts.last()
    }
}

/// Joining after appending a part appends a separator and the part.
pub proof fn lemma_join_push(q: Seq<Seq<char>>, x: Seq<char>, c: char)
    requires
        q.len() >= 1,
    ensures
        spec_join(q.push(x), c) == spec_join(q, c) + seq![c] + x,
{
    assert(q.push(x).drop_last() =~= q);
    assert(q.push(x).last() == x);
}

/// Splits text at every separator.  The contract pins the result down
/// completely: no part holds the separator, and joining the parts with it
/// gives the text back.
pub fn split_char(s: &str, c: char) -> (r: Vec<String>)
    ensures
        r@.len() >= 1,
        spec_join(r@.map_values(|x: String| x@), c) == s@,
        forall|k: int| 0 <= k < r@.len() ==> !(#[trigger] r@[k]@).contains(c),
{
    let n = s.unicode_len();
    let mut out: Vec<String> = Vec::new();
    let mut start: usize = 0;
    let mut i: usize = 0;
    while i < n
        invariant
            n == s@.len(),
            0 <= start <= i <= n,
            spec_join(
                out@.map_values(|x: String| x@).push(s@.subrange(start as int, i as int)),
                c,
            ) == s@.take(i as int),
            forall|k: int| 0 <= k < out@.len() ==> !(#[trigger] out@[k]@).contains(c),
            forall|j: int| start <= j < i ==> s@[j] != c,
        decreases n - i,
    {
        let ghost ov = out@.map_values(|x: String| x@);
        let ghost piece = s@.subrange(start as int, i as int);
        if s.get_char(i) == c {
            let part = substring(s, start, i);
            proof {
                if piece.contains(c) {
                    let k = choose|k: int| 0 <= k < piece.len() && piece[k] == c;
                    assert(s@[start + k] == c);
                }
            }
            out.push(part);
            proof {
                let ov2 = out@.map_values(|x: String| x@);
                assert(ov2 =~= ov.push(piece));
                lemma_join_push(ov.push(piece), s@.subrange(i + 1, i + 1), c);
                assert(s@.subrange(i + 1, i + 1) =~= Seq::<char>::empty());
                assert(spec_join(ov2.push(s@.subrange(i + 1, i + 1)), c) =~= spec_join(
                    ov.push(piece),
                    c,
                ) + seq![c]);
                assert(s@.take(i + 1) =~= s@.take(i as int) + seq![s@[i as int]]);
            }
            start = i + 1;
        } else {
            proof {
                assert(s@.subrange(start as int, i + 1) =~= piece.push(s@[i as int]));
                if ov.len() == 0 {
                    assert(spec_join(ov.push(piece), c) == piece);
                    assert(spec_join(ov.push(piece.push(s@[i as int])), c) == piece.push(
                        s@[i as int],
                    ));
                } else {
                    lemma_join_push(ov, piece, c);
                    lemma_join_push(ov, piece.push(s@[i as int]), c);
                }
                assert(s@.take(i + 1) =~= s@.take(i as int) + seq![s@[i as int]]);
                assert(spec_join(ov.push(s@.subrange(start as int, i + 1)), c) =~= s@.take(
                    i + 1,
                ));
            }
        }
        i = i + 1;
    }
    let last = substring(s, start, n);
    proof {
        let piece = s@.subrange(start as int, n as int);
        if piece.contains(c) {
            let k = choose|k: int| 0 <= k < piece.len() && piece[k] == c;
            assert(s@[start + k] == c);
        }
    }
    let ghost ov = out@.map_values(|x: String| x@);
    out.push(last);
    proof {
        assert(out@.map_values(|x: String| x@) =~= ov.push(s@.subrange(start as int, n as int)));
        assert(s@.take(n as int) =~= s@);
    }
    out
}

/// Joins the last `count` parts with a line break between them; fewer parts
/// than `count` are all joined.
pub fn join_tail(lines: &Vec<String>, count: u32) -> (r: String)
    ensures
        ({
            let v = lines@.map_values(|x: String| x@);
            let dropped = if (count as int) < v.len() {
                v.len() - count
            } else {
                0
            };
            r@ == spec_join(v.skip(dropped), '\n')
        }),
{
    let ghost v = lines@.map_values(|x: String| x@);
    let n = lines.len();
    let start: usize = if (count as usize) < n {
        n - (count as usize)
    } else {
        0
    };
    if start >= n {
        proof {
            assert(v.skip(start as int) =~= Seq::<Seq<char>>::empty());
        }
        return String::new();
    }
    let mut r = lines[start].clone();
    proof {
        assert(v.skip(start as int).subrange(0, 1) =~= seq![v[start as int]]);
        assert(spec_join(seq![v[start as int]], '\n') == v[start as int]);
        assert(v.skip(start as int).subrange(0, 1)[0] == v[start as int]);
    }
    let mut k: usize = start + 1;
    while k < n
        invariant
            n == lines@.len(),
            v == lines@.map_values(|x: String| x@),
            v.len() == n,
            start < n,
            start < k <= n,
            r@ == spec_join(v.subrange(start as int, k as int), '\n'),
        decreases n - k,
    {
        r.append("\n");
        r.append(lines[k].as_str());
        proof {
            reveal_strlit("\n");
            assert("\n"@ =~= seq!['\n']);
            let q = v.subrange(start as int, k as int);
            lemma_join_push(q, v[k as int], '\n');
            assert(v.subrange(start as int, k + 1) =~= q.push(v[k as int]));
            assert(r@ =~= spec_join(q, '\n') + seq!['\n'] + v[k as int]);
        }
        k = k + 1;
    }
    proof {
        assert(v.subrange(start as int, n as int) =~= v.skip(start as int));
    }
    r
}

/// First index of a whitespace character in `s`, if any.
pub open spec fn space_index(s: Seq<char>) -> Option<int>
    decreases s.len(),
{
    if s.len() == 0 {
        None
    } else if is_space(s[0]) {
        Some(0int)
    } else {
        match space_index(s.skip(1)) {
            Some(i) => Some(i + 1),
            None => None,
        }
    }
}

/// The characteristic property of `space_index`.
pub proof fn lemma_space_index(s: Seq<char>)
    ensures
        match space_index(s) {
            Some(i) => 0 <= i < s.len() && is_space(s[i]) && forall|j: int|
                0 <= j < i ==> !is_space(s[j]),
            None => forall|j: int| 0 <= j < s.len() ==> !is_space(s[j]),
        },
    decreases s.len(),
{
    if s.len() != 0 && !is_space(s[0]) {
        let t = s.skip(1);
        lemma_space_index(t);
        assert(forall|j: int| 0 <= j < t.len() ==> t[j] == s[j + 1]);
        match space_index(t) {
            Some(i) => {
                assert(s[i + 1] == t[i]);
                assert forall|j: int| 0 <= j < i + 1 implies !is_space(s[j]) by {
                    if j > 0 {
                        assert(s[j] == t[j - 1]);
                    }
                }
            },
            None => {
                assert forall|j: int| 0 <= j < s.len() implies !is_space(s[j]) by {
                    if j > 0 {
                        assert(s[j] == t[j - 1]);
                    }
                }
            },
        }
    }
}

/// The first whitespace-delimited word of `s`: leading whitespace dropped,
/// then everything up to the next whitespace.
pub open spec fn spec_first_token(s: Seq<char>) -> Seq<char> {
    let t = s.skip(leading_spaces(s));
    match space_index(t) {
        Some(i) => t.take(i),
        None => t,
    }
}

/// The first whitespace-delimited word of `s`, empty when there is none.
pub fn first_token(s: &str) -> (r: String)
    ensures
        r@ == spec_first_token(s@),
{
    let n = s.unicode_len();
    let mut a: usize = 0;
    while a < n && is_space_exec(s.get_char(a))
        invariant
            n == s@.len(),
            0 <= a <= n,
            forall|j: int| 0 <= j < a ==> is_space(s@[j]),
        decreases n - a,
    {
        a = a + 1;
    }
    proof {
        lemma_leading_spaces(s@);
        let l = leading_spaces(s@);
        if l < a {
            assert(is_space(s@[l]));
        } else if a < l {
            assert(is_space(s@[a as int]));
        }
        assert(a == l);
    }
    let mut b: usize = a;
    while b < n && !is_space_exec(s.get_char(b))
        invariant
            n == s@.len(),
            0 <= a <= b <= n,
            forall|j: int| a <= j < b ==> !is_space(s@[j]),
        decreases n - b,
    {
        b = b + 1;
    }
    proof {
        let t = s@.skip(a as int);
        lemma_space_index(t);
        assert(forall|j: int| 0 <= j < t.len() ==> t[j] == s@[a + j]);
        match space_index(t) {
            Some(i) => {
                if i < b - a {
                    assert(!is_space(s@[a + i]));
                } else if i > b - a {
                    assert(b < n);
                    assert(!is_space(t[b - a]));
                }
                assert(i == b - a);
                assert(t.take(b - a) =~= s@.subrange(a as int, b as int));
            },
            None => {
                if b < n {
                    assert(!is_space(t[b - a]));
                }
                assert(b == n);
                assert(t =~= s@.subrange(a as int, b as int));
            },
        }
    }
    substring(s, a, b)
}

/// `s` with every copy of the suffix peeled off the end, repeatedly.
pub open spec fn spec_trim_suffix(s: Seq<char>, suf: Seq<char>) -> Seq<char>
    decreases s.len(),
{
    if suf.len() > 0 && s.len() >= suf.len() && suf.is_suffix_of(s) {
        spec_trim_suffix(s.take(s.len() - suf.len()), suf)
    } else {
        s
    }
}

/// Peels every copy of a suffix off the end of `s`.
pub fn trim_suffix(s: &str, suf: &str) -> (r: String)
    ensures
        r@ == spec_trim_suffix(s@, suf@),
{
    let suf_len = suf.unicode_len();
    let mut cur = String::from_str(s);
    loop
        invariant
            suf_len == suf@.len(),
            spec_trim_suffix(cur@, suf@) == spec_trim_suffix(s@, suf@),
        ensures
            cur@ == spec_trim_suffix(s@, suf@),
        decreases cur@.len(),
    {
        let cn = cur.as_str().unicode_len();
        if suf_len == 0 || cn < suf_len || !ends_with_str(cur.as_str(), suf) {
            proof {
                assert(spec_trim_suffix(cur@, suf@) == cur@);
            }
            break ;
        }
        let next = substring(cur.as_str(), 0, cn - suf_len);
        proof {
            assert(cur@.take(cur@.len() - suf@.len()) =~= cur@.subrange(
                0,
                cn as int - suf_len as int,
            ));
        }
        cur = next;
    }
    cur
}

/// Number of copies of `c` at the front of `s`.
pub open spec fn leading_count(s: Seq<char>, c: char) -> int
    decreases s.len(),
{
    if s.len() == 0 {
        0
    } else if s[0] == c {
        1 + leading_count(s.skip(1), c)
    } else {
        0
    }
}

proof fn lemma_leading_count(s: Seq<char>, c: char)
    ensures
        0 <= leading_count(s, c) <= s.len(),
        forall|j: int| 0 <= j < leading_count(s, c) ==> s[j] == c,
        leading_count(s, c) < s.len() ==> s[leading_count(s, c)] != c,
    decreases s.len(),
{
    if s.len() != 0 && s[0] == c {
        let t = s.skip(1);
        lemma_leading_count(t, c);
        assert(forall|j: int| 0 <= j < t.len() ==> t[j] == s[j + 1]);
        assert forall|j: int| 0 <= j < leading_count(s, c) implies s[j] == c by {
            if j > 0 {
                assert(s[j] == t[j - 1]);
            }
        }
    }
}

/// `s` with every leading copy of `c` removed.
pub open spec fn trim_leading(s: Seq<char>, c: char) -> Seq<char> {
    s.skip(leading_count(s, c))
}

/// Strips every leading copy of `c` from `s`.
pub fn trim_leading_char(s: &str, c: char) -> (r: String)
    ensures
        r@ == trim_leading(s@, c),
{
    let n = s.unicode_len();
    let mut a: usize = 0;
    while a < n && s.get_char(a) == c
        invariant
            n == s@.len(),
            0 <= a <= n,
            forall|j: int| 0 <= j < a ==> s@[j] == c,
        decreases n - a,
    {
        a = a + 1;
    }
    proof {
        lemma_leading_count(s@, c);
        let l = leading_count(s@, c);
        if l < a {
            assert(s@[l] == c);
        } else if a < l {
            assert(s@[a as int] == c);
        }
        assert(a == l);
        assert(s@.skip(a as int) =~= s@.subrange(a as int, n as int));
    }
    substring(s, a, n)
}

/// Lexicographic order on character sequences, by code point.
pub open spec fn lex_leq(a: Seq<char>, b: Seq<char>) -> bool
    decreases a.len(),
{
    if a.len() == 0 {
        true
    } else if b.len() == 0 {
        false
    } else if (a[0] as int) < (b[0] as int) {
        true
    } else if (a[0] as int) > (b[0] as int) {
        false
    } else {
        lex_leq(a.skip(1), b.skip(1))
    }
}

/// The order is total.
pub proof fn lemma_lex_total(a: Seq<char>, b: Seq<char>)
    ensures
        lex_leq(a, b) || lex_leq(b, a),
    decreases a.len(),
{
    if a.len() != 0 && b.len() != 0 && a[0] == b[0] {
        lemma_lex_total(a.skip(1), b.skip(1));
    }
}

/// The order is transitive.
pub proof fn lemma_lex_trans(a: Seq<char>, b: Seq<char>, c: Seq<char>)
    requires
        lex_leq(a, b),
        lex_leq(b, c),
    ensures
        lex_leq(a, c),
    decreases a.len(),
{
    if a.len() != 0 && b.len() != 0 && c.len() != 0 && a[0] == b[0] && b[0] == c[0] {
        lemma_lex_trans(a.skip(1), b.skip(1), c.skip(1));
    }
}

/// Sharing a prefix of equal characters leaves the order unchanged.
proof fn lemma_lex_skip(a: Seq<char>, b: Seq<char>, i: int)
    requires
        0 <= i <= a.len(),
        i <= b.len(),
        forall|j: int| 0 <= j < i ==> a[j] == b[j],
    ensures
        lex_leq(a, b) == lex_leq(a.skip(i), b.skip(i)),
    decreases i,
{
    if i == 0 {
        assert(a.skip(0) =~= a);
        assert(b.skip(0) =~= b);
    } else {
        assert(a.len() > 0 && b.len() > 0 && a[0] == b[0]);
        lemma_lex_skip(a.skip(1), b.skip(1), i - 1);
        assert(a.skip(1).skip(i - 1) =~= a.skip(i));
        assert(b.skip(1).skip(i - 1) =~= b.skip(i));
    }
}


/// Decides the lexicographic order on two string slices.
pub fn str_leq(a: &str, b: &str) -> (r: bool)
    ensures
        r == lex_leq(a@, b@),
{
    let na = a.unicode_len();
    let nb = b.unicode_len();
    let mut i: usize = 0;
    while i < na && i < nb
        invariant
            na == a@.len(),
            nb == b@.len(),
            0 <= i <= na,
            i <= nb,
            forall|j: int| 0 <= j < i ==> a@[j] == b@[j],
        decreases na - i,
    {
        let ca = a.get_char(i);
        let cb = b.get_char(i);
        if (ca as u32) < (cb as u32) {
            proof {
                lemma_lex_skip(a@, b@, i as int);
                assert(a@.skip(i as int)[0] == ca);
                assert(b@.skip(i as int)[0] == cb);
            }
            return true;
        }
        if (ca as u32) > (cb as u32) {
            proof {
                lemma_lex_skip(a@, b@, i as int);
                assert(a@.skip(i as int)[0] == ca);
                assert(b@.skip(i as int)[0] == cb);
            }
            return false;
        }
        i = i + 1;
    }
    proof {
        lemma_lex_skip(a@, b@, i as int);
    }
    i >= na
}

} // verus!
