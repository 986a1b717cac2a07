//! Character-level string helpers: decimal numbers, searching, substring
//! replacement, and the path-safety transform. Everything here is specified
//! over `Seq<char>` views and proved against those specifications.
use vstd::prelude::*;
use vstd::string::*;

verus! {

/// A decimal digit.
pub open spec fn is_digit(c: char) -> bool {
    ('0' as u32) <= (c as u32) && (c as u32) <= ('9' as u32)
}

/// Numeric value of a digit character.
pub open spec fn digit_val(c: char) -> int {
    (c as u32) - ('0' as u32)
}

/// Every character of `s` is a decimal digit.
pub open spec fn all_digits(s: Seq<char>) -> bool {
    forall|i: int| 0 <= i < s.len() ==> is_digit(#[trigger] s[i])
}

/// The number denoted by a string of decimal digits, most significant first.
pub open spec fn dec_val(s: Seq<char>) -> int
    decreases s.len(),
{
    if s.len() == 0 {
        0
    } else {
        dec_val(s.drop_last()) * 10 + digit_val(s.last())
    }
}

proof fn lemma_mul10_ge(a: int, d: int)
    by (nonlinear_arith)
    requires
        a >= 0,
        d >= 0,
    ensures
        a * 10 + d >= a,
        a * 10 + d >= 0,
{
}

proof fn lemma_dec_val_nonneg(s: Seq<char>)
    requires
        all_digits(s),
    ensures
        dec_val(s) >= 0,
    decreases s.len(),
{
    if s.len() > 0 {
        assert(all_digits(s.drop_last()));
        lemma_dec_val_nonneg(s.drop_last());
        lemma_mul10_ge(dec_val(s.drop_last()), digit_val(s.last()));
    }
}

proof fn lemma_dec_val_take_succ(s: Seq<char>, i: int)
    requires
        0 <= i < s.len(),
    ensures
        dec_val(s.take(i + 1)) == dec_val(s.take(i)) * 10 + digit_val(s[i]),
{
    assert(s.take(i + 1).drop_last() =~= s.take(i));
    assert(s.take(i + 1).last() == s[i]);
}

proof fn lemma_dec_val_take_le(s: Seq<char>, i: int)
    requires
        all_digits(s),
        0 <= i <= s.len(),
    ensures
        dec_val(s.take(i)) <= dec_val(s),
    decreases s.len() - i,
{
    if i == s.len() {
        assert(s.take(i) =~= s);
    } else {
        assert(all_digits(s.take(i)));
        lemma_dec_val_nonneg(s.take(i));
        lemma_dec_val_take_succ(s, i);
        lemma_mul10_ge(dec_val(s.take(i)), digit_val(s[i]));
        lemma_dec_val_take_le(s, i + 1);
    }
}

/// Parses a string of decimal digits as a `u64`.
///
/// Succeeds exactly on nonempty all-digit strings whose value fits in a
/// `u64`, and then returns that value.
pub fn parse_u64(s: &str) -> (r: Option<u64>)
    ensures
        r is Some <==> (s@.len() > 0 && all_digits(s@) && dec_val(s@) <= u64::MAX),
        r is Some ==> r->0 == dec_val(s@),
{
    let n = s.unicode_len();
    if n == 0 {
        return None;
    }
    let mut acc: u64 = 0;
    let mut i: usize = 0;
    while i < n
        invariant
            0 <= i <= n,
            n == s@.len(),
            all_digits(s@.take(i as int)),
            acc == dec_val(s@.take(i as int)),
        decreases n - i,
    {
        let c = s.get_char(i);
        let u = c as u32;
        if u < 48 || u > 57 {
            assert(!is_digit(s@[i as int]));
            return None;
        }
        let d = (u - 48) as u64;
        proof {
            lemma_dec_val_take_succ(s@, i as int);
        }
        let shifted = match acc.checked_mul(10) {
            Some(v) => v,
            None => {
                proof {
                    if all_digits(s@) {
                        lemma_dec_val_nonneg(s@.take(i as int));
                        lemma_mul10_ge(dec_val(s@.take(i as int)) * 10, digit_val(s@[i as int]));
                        lemma_dec_val_take_le(s@, i as int + 1);
                    }
                }
                return None;
            },
        };
        let next = match shifted.checked_add(d) {
            Some(v) => v,
            None => {
                proof {
                    if all_digits(s@) {
                        lemma_dec_val_take_le(s@, i as int + 1);
                    }
                }
                return None;
            },
        };
        acc = next;
        i = i + 1;
    }
    proof {
        assert(s@.take(n as int) =~= s@);
    }
    Some(acc)
}

/// The decimal digit string of a nonnegative number, most significant first.
pub open spec fn dec_str(n: int) -> Seq<char>
    decreases n,
{
    if n < 10 {
        seq![digit_char(n)]
    } else {
        dec_str(n / 10) + seq![digit_char(n % 10)]
    }
}

/// The character for a single decimal digit.
pub open spec fn digit_char(d: int) -> char {
    if d == 0 {
        '0'
    } else if d == 1 {
        '1'
    } else if d == 2 {
        '2'
    } else if d == 3 {
        '3'
    } else if d == 4 {
        '4'
    } else if d == 5 {
        '5'
    } else if d == 6 {
        '6'
    } else if d == 7 {
        '7'
    } else if d == 8 {
        '8'
    } else {
        '9'
    }
}

/// Appends the character for one decimal digit to `out`.
fn push_digit(out: &mut String, d: u64)
    requires
        d < 10,
    ensures
        final(out)@ == old(out)@ + seq![digit_char(d as int)],
{
    proof {
        reveal_strlit("0");
        reveal_strlit("1");
        reveal_strlit("2");
        reveal_strlit("3");
        reveal_strlit("4");
        reveal_strlit("5");
        reveal_strlit("6");
        reveal_strlit("7");
        reveal_strlit("8");
        reveal_strlit("9");
    }
    if d == 0 {
        out.append("0");
    } else if d == 1 {
        out.append("1");
    } else if d == 2 {
        out.append("2");
    } else if d == 3 {
        out.append("3");
    } else if d == 4 {
        out.append("4");
    } else if d == 5 {
        out.append("5");
    } else if d == 6 {
        out.append("6");
    } else if d == 7 {
        out.append("7");
    } else if d == 8 {
        out.append("8");
    } else {
        out.append("9");
    }
}

/// Renders a `u64` as its decimal digit string.
pub fn u64_to_string(n: u64) -> (r: String)
    ensures
        r@ == dec_str(n as int),
{
    let mut digits: Vec<u64> = Vec::new();
    let mut m: u64 = n;
    while m >= 10
        invariant
            forall|j: int| 0 <= j < digits@.len() ==> 0 <= #[trigger] digits@[j] < 10,
            dec_str(n as int) == dec_str(m as int) + rev_digit_chars(digits@),
        decreases m,
    {
        let d = m % 10;
        let m2 = m / 10;
        proof {
            assert(dec_str(m as int) == dec_str(m2 as int) + seq![digit_char(d as int)]);
            lemma_rev_digit_chars_push(digits@, d);
            assert(dec_str(m2 as int) + rev_digit_chars(digits@.push(d)) =~= (dec_str(m2 as int)
                + seq![digit_char(d as int)]) + rev_digit_chars(digits@));
        }
        digits.push(d);
        m = m2;
    }
    proof {
        assert(dec_str(m as int) =~= seq![digit_char(m as int)]);
        lemma_rev_digit_chars_push(digits@, m);
        assert(dec_str(m as int) + rev_digit_chars(digits@) =~= rev_digit_chars(digits@.push(m)));
    }
    digits.push(m);
    let mut out = String::new();
    let mut j: usize = digits.len();
    proof {
        assert(digits@.take(j as int) =~= digits@);
        assert(out@ + rev_digit_chars(digits@) =~= rev_digit_chars(digits@));
    }
    while j > 0
        invariant
            0 <= j <= digits@.len(),
            forall|k: int| 0 <= k < digits@.len() ==> 0 <= #[trigger] digits@[k] < 10,
            dec_str(n as int) == out@ + rev_digit_chars(digits@.take(j as int)),
        decreases j,
    {
        j = j - 1;
        let d = digits[j];
        proof {
            lemma_rev_digit_chars_push(digits@.take(j as int), d);
            assert(digits@.take(j as int + 1) =~= digits@.take(j as int).push(d));
            assert(out@ + rev_digit_chars(digits@.take(j as int + 1)) =~= (out@ + seq![
                digit_char(d as int),
            ]) + rev_digit_chars(digits@.take(j as int)));
        }
        push_digit(&mut out, d);
    }
    proof {
        assert(digits@.take(0) =~= Seq::<u64>::empty());
        assert(out@ + rev_digit_chars(digits@.take(0)) =~= out@);
    }
    out
}

/// The digit characters of `digits` read back-to-front.
spec fn rev_digit_chars(digits: Seq<u64>) -> Seq<char>
    decreases digits.len(),
{
    if digits.len() == 0 {
        Seq::empty()
    } else {
        seq![digit_char(digits.last() as int)] + rev_digit_chars(digits.drop_last())
    }
}

proof fn lemma_rev_digit_chars_push(digits: Seq<u64>, d: u64)
    ensures
        rev_digit_chars(digits.push(d)) == seq![digit_char(d as int)] + rev_digit_chars(digits),
{
    assert(digits.push(d).drop_last() =~= digits);
    assert(digits.push(d).last() == d);
}

/// The pattern `pat` occurs in `s` at position `i`.
pub open spec fn matches_at(s: Seq<char>, pat: Seq<char>, i: int) -> bool {
    0 <= i && i + pat.len() <= s.len() && s.subrange(i, i + pat.len()) == pat
}

/// Compares `pat` with the slice of `s` that starts at position `i`.
pub fn match_at(s: &str, pat: &str, i: usize) -> (b: bool)
    requires
        i + pat@.len() <= s@.len(),
    ensures
        b == matches_at(s@, pat@, i as int),
{
    let m = pat.unicode_len();
    let sn = s.unicode_len();
    let mut k: usize = 0;
    while k < m
        invariant
            0 <= k <= m,
            m == pat@.len(),
            sn == s@.len(),
            i + m <= sn,
            forall|j: int| 0 <= j < k ==> s@[i + j] == pat@[j],
        decreases m - k,
    {
        if s.get_char(i + k) != pat.get_char(k) {
            assert(s@.subrange(i as int, i as int + pat@.len()) != pat@) by {
                assert(s@.subrange(i as int, i as int + pat@.len())[k as int] != pat@[k as int]);
            }
            return false;
        }
        k = k + 1;
    }
    proof {
        assert(s@.subrange(i as int, i as int + pat@.len()) =~= pat@);
    }
    true
}

/// The position of the first occurrence of the pattern `pat` in `s`.
pub open spec fn find_sub_spec(s: Seq<char>, pat: Seq<char>) -> Option<int>
    decreases s.len(),
    when pat.len() > 0
{
    if s.len() < pat.len() {
        None
    } else if s.take(pat.len() as int) == pat {
        Some(0)
    } else {
        match find_sub_spec(s.skip(1), pat) {
            None => None,
            Some(j) => Some(j + 1),
        }
    }
}

/// `find_sub_spec` names the first occurrence: the pattern occurs there and
/// nowhere earlier; `None` means it occurs nowhere.
pub proof fn lemma_find_sub_spec_char(s: Seq<char>, pat: Seq<char>)
    requires
        pat.len() > 0,
    ensures
        match find_sub_spec(s, pat) {
            None => forall|k: int| !matches_at(s, pat, k),
            Some(j) => matches_at(s, pat, j) && forall|k: int| 0 <= k < j ==> !matches_at(s, pat, k),
        },
    decreases s.len(),
{
    if s.len() >= pat.len() {
        assert(s.take(pat.len() as int) =~= s.subrange(0, pat.len() as int));
        if s.take(pat.len() as int) != pat {
            lemma_find_sub_spec_char(s.skip(1), pat);
            assert forall|k: int| 1 <= k implies (matches_at(s, pat, k) <==> matches_at(
                s.skip(1),
                pat,
                k - 1,
            )) by {
                if k + pat.len() <= s.len() {
                    assert(s.subrange(k, k + pat.len()) =~= s.skip(1).subrange(
                        k - 1,
                        k - 1 + pat.len(),
                    ));
                }
            }
        }
    }
}

/// Finds the first occurrence of `pat` in `s`.
///
/// Returns the least position at which `pat` occurs, or `None` when it
/// occurs nowhere.
pub fn find_sub(s: &str, pat: &str) -> (r: Option<usize>)
    requires
        pat@.len() > 0,
    ensures
        match r {
            Some(j) => matches_at(s@, pat@, j as int) && (forall|k: int|
                0 <= k < j ==> !matches_at(s@, pat@, k)) && find_sub_spec(s@, pat@) == Some(
                j as int,
            ),
            None => (forall|k: int| !matches_at(s@, pat@, k)) && find_sub_spec(s@, pat@) is None,
        },
{
    let n = s.unicode_len();
    let m = pat.unicode_len();
    if m > n {
        return None;
    }
    let mut i: usize = 0;
    while i <= n - m
        invariant
            0 <= i <= n - m + 1,
            n == s@.len(),
            m == pat@.len(),
            1 <= m <= n,
            forall|k: int| 0 <= k < i ==> !matches_at(s@, pat@, k),
        decreases n - m - i + 1,
    {
        if match_at(s, pat, i) {
            proof {
                lemma_find_sub_spec_char(s@, pat@);
                match find_sub_spec(s@, pat@) {
                    None => {
                        assert(false);
                    },
                    Some(j) => {
                        assert(!(j < i) && !(i < j));
                    },
                }
            }
            return Some(i);
        }
        i = i + 1;
    }
    proof {
        lemma_find_sub_spec_char(s@, pat@);
        if find_sub_spec(s@, pat@) is Some {
            let j = find_sub_spec(s@, pat@)->0;
            assert(!matches_at(s@, pat@, j));
        }
    }
    None
}

/// Whether `s` ends with the suffix `pat`.
pub open spec fn ends_with_spec(s: Seq<char>, pat: Seq<char>) -> bool {
    s.len() >= pat.len() && s.subrange(s.len() - pat.len(), s.len() as int) == pat
}

/// Tests whether `s` ends with the suffix `pat`.
pub fn ends_with(s: &str, pat: &str) -> (b: bool)
    ensures
        b == ends_with_spec(s@, pat@),
{
    let n = s.unicode_len();
    let m = pat.unicode_len();
    if m > n {
        return false;
    }
    match_at(s, pat, n - m)
}

/// `s` with every non-overlapping occurrence of `pat`, found left to right,
/// replaced by `val`.
pub open spec fn replace_spec(s: Seq<char>, pat: Seq<char>, val: Seq<char>) -> Seq<char>
    decreases s.len(),
    when pat.len() > 0
{
    if s.len() < pat.len() {
        s
    } else if s.subrange(0, pat.len() as int) == pat {
        val + replace_spec(s.skip(pat.len() as int), pat, val)
    } else {
        seq![s[0]] + replace_spec(s.skip(1), pat, val)
    }
}

proof fn lemma_replace_step_match(s: Seq<char>, pat: Seq<char>, val: Seq<char>, i: int)
    requires
        pat.len() > 0,
        matches_at(s, pat, i),
    ensures
        replace_spec(s.skip(i), pat, val) == val + replace_spec(s.skip(i + pat.len()), pat, val),
{
    let rest = s.skip(i);
    assert(rest.subrange(0, pat.len() as int) =~= s.subrange(i, i + pat.len()));
    assert(rest.skip(pat.len() as int) =~= s.skip(i + pat.len()));
}

proof fn lemma_replace_step_char(s: Seq<char>, pat: Seq<char>, val: Seq<char>, i: int)
    requires
        pat.len() > 0,
        0 <= i < s.len(),
        !matches_at(s, pat, i),
    ensures
        replace_spec(s.skip(i), pat, val) == seq![s[i]] + replace_spec(s.skip(i + 1), pat, val),
{
    let rest = s.skip(i);
    assert(rest[0] == s[i]);
    if rest.len() >= pat.len() {
        assert(rest.subrange(0, pat.len() as int) =~= s.subrange(i, i + pat.len()));
        assert(rest.subrange(0, pat.len() as int) != pat);
        assert(rest.skip(1) =~= s.skip(i + 1));
    } else {
        assert(replace_spec(rest, pat, val) == rest);
        assert(s.skip(i + 1).len() < pat.len());
        assert(replace_spec(s.skip(i + 1), pat, val) == s.skip(i + 1));
        assert(rest =~= seq![s[i]] + s.skip(i + 1));
    }
}

/// Replaces every non-overlapping occurrence of `pat` in `s` by `val`,
/// scanning left to right.
pub fn replace(s: &str, pat: &str, val: &str) -> (r: String)
    requires
        pat@.len() > 0,
    ensures
        r@ == replace_spec(s@, pat@, val@),
{
    let n = s.unicode_len();
    let m = pat.unicode_len();
    let mut out = String::new();
    let mut i: usize = 0;
    proof {
        assert(s@.skip(0) =~= s@);
        assert(out@ + replace_spec(s@, pat@, val@) =~= replace_spec(s@, pat@, val@));
    }
    while i < n
        invariant
            0 <= i <= n,
            n == s@.len(),
            m == pat@.len(),
            m > 0,
            replace_spec(s@, pat@, val@) == out@ + replace_spec(s@.skip(i as int), pat@, val@),
        decreases n - i,
    {
        if m <= n && i <= n - m && match_at(s, pat, i) {
            proof {
                lemma_replace_step_match(s@, pat@, val@, i as int);
                assert(out@ + (val@ + replace_spec(s@.skip(i as int + m), pat@, val@)) =~= (out@
                    + val@) + replace_spec(s@.skip(i as int + m), pat@, val@));
            }
            out.append(val);
            i = i + m;
        } else {
            proof {
                lemma_replace_step_char(s@, pat@, val@, i as int);
                assert(s@.subrange(i as int, i as int + 1) =~= seq![s@[i as int]]);
                assert(out@ + (seq![s@[i as int]] + replace_spec(s@.skip(i as int + 1), pat@, val@))
                    =~= (out@ + seq![s@[i as int]]) + replace_spec(
                    s@.skip(i as int + 1),
                    pat@,
                    val@,
                ));
            }
            let piece = s.substring_char(i, i + 1);
            out.append(piece);
            i = i + 1;
        }
    }
    proof {
        assert(s@.skip(n as int) =~= Seq::<char>::empty());
        assert(replace_spec(Seq::<char>::empty(), pat@, val@) == Seq::<char>::empty());
        assert(out@ + Seq::<char>::empty() =~= out@);
    }
    out
}

/// A path separator is turned into the full-width slash so that foreign text
/// can never introduce a directory boundary.
pub open spec fn path_safe_char(c: char) -> char {
    if c == '/' {
        '\u{FF0F}'
    } else {
        c
    }
}

/// `s` with every path separator replaced by the full-width slash.
pub open spec fn path_safe_spec(s: Seq<char>) -> Seq<char> {
    Seq::new(s.len(), |i: int| path_safe_char(s[i]))
}

/// Replaces every `/` in `s` by the full-width slash.
pub fn to_path_safe(s: &str) -> (r: String)
    ensures
        r@ == path_safe_spec(s@),
{
    let n = s.unicode_len();
    let mut out = String::new();
    let mut i: usize = 0;
    while i < n
        invariant
            0 <= i <= n,
            n == s@.len(),
            out@ == path_safe_spec(s@.take(i as int)),
        decreases n - i,
    {
        let c = s.get_char(i);
        if c == '/' {
            proof {
                reveal_strlit("\u{FF0F}");
            }
            out.append("\u{FF0F}");
        } else {
            let piece = s.substring_char(i, i + 1);
            proof {
                assert(s@.subrange(i as int, i as int + 1) =~= seq![s@[i as int]]);
            }
            out.append(piece);
        }
        proof {
            assert(path_safe_spec(s@.take(i as int + 1)) =~= path_safe_spec(
                s@.take(i as int),
            ).push(path_safe_char(s@[i as int])));
            assert(out@ =~= path_safe_spec(s@.take(i as int + 1)));
        }
        i = i + 1;
    }
    proof {
        assert(s@.take(n as int) =~= s@);
    }
    out
}

/// The position of the last occurrence of `c` in `s`.
pub open spec fn rfind_spec(s: Seq<char>, c: char) -> Option<int>
    decreases s.len(),
{
    if s.len() == 0 {
        None
    } else if s.last() == c {
        Some(s.len() - 1)
    } else {
        rfind_spec(s.drop_last(), c)
    }
}

/// Finds the last occurrence of `c` in `s`.
pub fn rfind_char(s: &str, c: char) -> (r: Option<usize>)
    ensures
        match r {
            Some(j) => j < s@.len() && rfind_spec(s@, c) == Some(j as int),
            None => rfind_spec(s@, c) is None,
        },
{
    let n = s.unicode_len();
    let mut j: usize = n;
    proof {
        assert(s@.take(n as int) =~= s@);
    }
    while j > 0
        invariant
            0 <= j <= n,
            n == s@.len(),
            rfind_spec(s@, c) == rfind_spec(s@.take(j as int), c),
        decreases j,
    {
        let j2 = j - 1;
        if s.get_char(j2) == c {
            proof {
                assert(s@.take(j as int).last() == s@[j2 as int]);
            }
            return Some(j2);
        }
        proof {
            assert(s@.take(j as int).last() == s@[j2 as int]);
            assert(s@.take(j as int).drop_last() =~= s@.take(j2 as int));
        }
        j = j2;
    }
    proof {
        assert(s@.take(0) =~= Seq::<char>::empty());
    }
    None
}

/// The position of the first occurrence of `c` in `s`.
pub open spec fn find_spec(s: Seq<char>, c: char) -> Option<int>
    decreases s.len(),
{
    if s.len() == 0 {
        None
    } else if s[0] == c {
        Some(0)
    } else {
        match find_spec(s.skip(1), c) {
            None => None,
            Some(j) => Some(j + 1),
        }
    }
}

/// `find_spec` names the first occurrence: the position holds `c` and no
/// earlier position does; `None` means `c` does not occur at all.
pub proof fn lemma_find_spec_char(s: Seq<char>, c: char)
    ensures
        match find_spec(s, c) {
            None => forall|k: int| 0 <= k < s.len() ==> s[k] != c,
            Some(j) => 0 <= j < s.len() && s[j] == c && forall|k: int| 0 <= k < j ==> s[k] != c,
        },
    decreases s.len(),
{
    if s.len() > 0 && s[0] != c {
        lemma_find_spec_char(s.skip(1), c);
        assert(forall|k: int| 1 <= k < s.len() ==> s[k] == s.skip(1)[k - 1]);
    }
}

/// Finds the first occurrence of `c` in `s`.
///
/// Returns the least position holding `c`, or `None` when `c` does not occur.
pub fn find_char(s: &str, c: char) -> (r: Option<usize>)
    ensures
        match r {
            Some(j) => j < s@.len() && s@[j as int] == c && (forall|k: int|
                0 <= k < j ==> s@[k] != c) && find_spec(s@, c) == Some(j as int),
            None => (forall|k: int| 0 <= k < s@.len() ==> s@[k] != c) && find_spec(s@, c) is None,
        },
{
    let n = s.unicode_len();
    let mut i: usize = 0;
    while i < n
        invariant
            0 <= i <= n,
            n == s@.len(),
            forall|k: int| 0 <= k < i ==> s@[k] != c,
        decreases n - i,
    {
        if s.get_char(i) == c {
            proof {
                lemma_find_spec_char(s@, c);
                match find_spec(s@, c) {
                    None => {
                        assert(false);
                    },
                    Some(j) => {
                        assert(!(j < i) && !(i < j));
                    },
                }
            }
            return Some(i);
        }
        i = i + 1;
    }
    proof {
        lemma_find_spec_char(s@, c);
    }
    None
}

/// `s` divided at every occurrence of `c`: one part more than there are
/// occurrences, each part free of `c`, in order.
pub open spec fn split_spec(s: Seq<char>, c: char) -> Seq<Seq<char>>
    decreases s.len(),
{
    if s.len() == 0 {
        seq![s]
    } else if s[0] == c {
        seq![Seq::<char>::empty()] + split_spec(s.skip(1), c)
    } else {
        let rest = split_spec(s.skip(1), c);
        seq![seq![s[0]] + rest[0]] + rest.skip(1)
    }
}

proof fn lemma_split_spec_len(s: Seq<char>, c: char)
    ensures
        split_spec(s, c).len() >= 1,
    decreases s.len(),
{
    if s.len() > 0 {
        lemma_split_spec_len(s.skip(1), c);
    }
}

proof fn lemma_split_whole(s: Seq<char>, c: char)
    requires
        forall|k: int| 0 <= k < s.len() ==> s[k] != c,
    ensures
        split_spec(s, c) == seq![s],
    decreases s.len(),
{
    if s.len() > 0 {
        lemma_split_whole(s.skip(1), c);
        lemma_split_spec_len(s.skip(1), c);
        let rest = split_spec(s.skip(1), c);
        assert(rest[0] == s.skip(1));
        assert(seq![s[0]] + s.skip(1) =~= s);
        assert(rest.skip(1) =~= Seq::<Seq<char>>::empty());
        assert(seq![seq![s[0]] + rest[0]] + rest.skip(1) =~= seq![s]);
    }
}

proof fn lemma_split_at(s: Seq<char>, c: char, j: int)
    requires
        0 <= j < s.len(),
        s[j] == c,
        forall|k: int| 0 <= k < j ==> s[k] != c,
    ensures
        split_spec(s, c) == seq![s.take(j)] + split_spec(s.skip(j + 1), c),
    decreases j,
{
    if j == 0 {
        assert(s.take(0) =~= Seq::<char>::empty());
    } else {
        assert(s.skip(1)[j - 1] == c);
        assert(forall|k: int| 0 <= k < j - 1 ==> s.skip(1)[k] != c);
        lemma_split_at(s.skip(1), c, j - 1);
        let rest = split_spec(s.skip(1), c);
        assert(rest[0] == s.skip(1).take(j - 1));
        assert(seq![s[0]] + s.skip(1).take(j - 1) =~= s.take(j));
        assert(rest.skip(1) =~= split_spec(s.skip(1).skip(j), c));
        assert(s.skip(1).skip(j) =~= s.skip(j + 1));
        assert(seq![seq![s[0]] + rest[0]] + rest.skip(1) =~= seq![s.take(j)] + split_spec(
            s.skip(j + 1),
            c,
        ));
    }
}

/// Divides `s` at every occurrence of `c`.
pub fn split_char(s: &str, c: char) -> (r: Vec<String>)
    ensures
        r@.map_values(|t: String| t@) == split_spec(s@, c),
{
    let n = s.unicode_len();
    let mut segs: Vec<String> = Vec::new();
    let mut start: usize = 0;
    proof {
        assert(s@.skip(0) =~= s@);
        assert(segs@.map_values(|t: String| t@) + split_spec(s@, c) =~= split_spec(s@, c));
    }
    loop
        invariant
            0 <= start <= n,
            n == s@.len(),
            split_spec(s@, c) == segs@.map_values(|t: String| t@) + split_spec(
                s@.skip(start as int),
                c,
            ),
        decreases n - start,
    {
        let rest = s.substring_char(start, n);
        proof {
            assert(rest@ =~= s@.skip(start as int));
        }
        match find_char(rest, c) {
            Some(j) => {
                let piece = String::from_str(s.substring_char(start, start + j));
                proof {
                    lemma_split_at(s@.skip(start as int), c, j as int);
                    assert(s@.skip(start as int).take(j as int) =~= s@.subrange(
                        start as int,
                        start as int + j,
                    ));
                    assert(s@.skip(start as int).skip(j as int + 1) =~= s@.skip(
                        start as int + j + 1,
                    ));
                    assert(segs@.map_values(|t: String| t@).push(piece@) =~= segs@.push(
                        piece,
                    ).map_values(|t: String| t@));
                    assert(segs@.map_values(|t: String| t@) + (seq![piece@] + split_spec(
                        s@.skip(start as int + j + 1),
                        c,
                    )) =~= segs@.push(piece).map_values(|t: String| t@) + split_spec(
                        s@.skip(start as int + j + 1),
                        c,
                    ));
                }
                segs.push(piece);
                start = start + j + 1;
            },
            None => {
                let piece = String::from_str(s.substring_char(start, n));
                proof {
                    assert(piece@ =~= s@.skip(start as int));
                    lemma_split_whole(s@.skip(start as int), c);
                    assert(segs@.map_values(|t: String| t@).push(piece@) =~= segs@.push(
                        piece,
                    ).map_values(|t: String| t@));
                    assert(segs@.map_values(|t: String| t@) + seq![piece@] =~= segs@.push(
                        piece,
                    ).map_values(|t: String| t@));
                }
                segs.push(piece);
                return segs;
            },
        }
    }
}

/// The part of `s` after its last `/`, or all of `s` when it has none.
pub open spec fn last_component_spec(s: Seq<char>) -> Seq<char> {
    match rfind_spec(s, '/') {
        None => s,
        Some(j) => s.skip(j + 1),
    }
}

/// Returns the part of `s` after its last `/`.
pub fn last_component(s: &str) -> (r: String)
    ensures
        r@ == last_component_spec(s@),
{
    let n = s.unicode_len();
    match rfind_char(s, '/') {
        None => {
            let r = s.substring_char(0, n);
            proof {
                assert(r@ =~= s@);
            }
            String::from_str(r)
        },
        Some(j) => {
            let r = s.substring_char(j + 1, n);
            proof {
                assert(r@ =~= s@.skip(j as int + 1));
            }
            String::from_str(r)
        },
    }
}

/// The file extension of `s`: the part after the last `.`, or `None` when
/// there is no `.` or the only `.` begins the name.
pub open spec fn extension_spec(s: Seq<char>) -> Option<Seq<char>> {
    match rfind_spec(s, '.') {
        None => None,
        Some(j) => if j == 0 {
            None
        } else {
            Some(s.skip(j + 1))
        },
    }
}

/// Returns the file extension of `s`, the part after its last `.`.
pub fn extension_of(s: &str) -> (r: Option<String>)
    ensures
        match r {
            Some(e) => extension_spec(s@) == Some(e@),
            None => extension_spec(s@) is None,
        },
{
    let n = s.unicode_len();
    match rfind_char(s, '.') {
        None => None,
        Some(j) => {
            if j == 0 {
                None
            } else {
                let r = s.substring_char(j + 1, n);
                proof {
                    assert(r@ =~= s@.skip(j as int + 1));
                }
                Some(String::from_str(r))
            }
        },
    }
}

/// Compares two strings character by character.
pub fn str_eq(a: &str, b: &str) -> (r: bool)
    ensures
        r == (a@ == b@),
{
    let n = a.unicode_len();
    let m = b.unicode_len();
    if n != m {
        return false;
    }
    let mut i: usize = 0;
    while i < n
        invariant
            0 <= i <= n,
            n == a@.len(),
            n == b@.len(),
            forall|k: int| 0 <= k < i ==> a@[k] == b@[k],
        decreases n - i,
    {
        if a.get_char(i) != b.get_char(i) {
            return false;
        }
        i = i + 1;
    }
    proof {
        assert(a@ =~= b@);
    }
    true
}

/// `s` without its leading run of `c`.
pub open spec fn trim_leading_spec(s: Seq<char>, c: char) -> Seq<char>
    decreases s.len(),
{
    if s.len() > 0 && s[0] == c {
        trim_leading_spec(s.skip(1), c)
    } else {
        s
    }
}

/// Removes the leading run of `c` from `s`.
pub fn trim_leading(s: &str, c: char) -> (r: String)
    ensures
        r@ == trim_leading_spec(s@, c),
{
    let n = s.unicode_len();
    let mut i: usize = 0;
    proof {
        assert(s@.skip(0) =~= s@);
    }
    while i < n && s.get_char(i) == c
        invariant
            0 <= i <= n,
            n == s@.len(),
            trim_leading_spec(s@, c) == trim_leading_spec(s@.skip(i as int), c),
        decreases n - i,
    {
        proof {
            assert(s@.skip(i as int)[0] == s@[i as int]);
            assert(s@.skip(i as int).skip(1) =~= s@.skip(i as int + 1));
        }
        i = i + 1;
    }
    let r = s.substring_char(i, n);
    proof {
        assert(r@ =~= s@.skip(i as int));
        if i < n {
            assert(s@.skip(i as int)[0] == s@[i as int]);
        } else {
            assert(s@.skip(i as int).len() == 0);
        }
    }
    String::from_str(r)
}


/// The decimal rendering of a nonnegative number is nonempty, consists of
/// digits, and denotes the number again.
pub proof fn lemma_dec_str_digits(n: int)
    requires
        n >= 0,
    ensures
        dec_str(n).len() >= 1,
        all_digits(dec_str(n)),
        dec_val(dec_str(n)) == n,
    decreases n,
{
    if n < 10 {
        let s1 = dec_str(n);
        assert(is_digit(digit_char(n)));
        assert(digit_val(digit_char(n)) == n);
        assert(s1.drop_last() =~= Seq::<char>::empty());
        assert(s1.last() == digit_char(n));
        assert(dec_val(Seq::<char>::empty()) == 0);
        assert(dec_val(s1) == dec_val(s1.drop_last()) * 10 + digit_val(s1.last()));
    } else {
        lemma_dec_str_digits(n / 10);
        vstd::arithmetic::div_mod::lemma_fundamental_div_mod(n, 10);
        let a = dec_str(n / 10);
        let whole = dec_str(n);
        assert(whole == a + seq![digit_char(n % 10)]);
        assert(whole.drop_last() =~= a);
        assert(whole.last() == digit_char(n % 10));
        assert(is_digit(digit_char(n % 10)));
        assert(digit_val(digit_char(n % 10)) == n % 10);
        assert forall|i: int| 0 <= i < whole.len() implies is_digit(#[trigger] whole[i]) by {
            if i < a.len() {
                assert(whole[i] == a[i]);
            }
        }
        assert(dec_val(whole) == dec_val(whole.drop_last()) * 10 + digit_val(whole.last()));
        assert(dec_val(whole.drop_last()) == dec_val(a));
        assert(dec_val(whole) == (n / 10) * 10 + (n % 10));
    }
}

/// In a string shaped `a`, separator, `b` where `a` is free of the
/// separator, the first occurrence of the separator stands exactly after
/// `a`.
pub proof fn lemma_find_sep(a: Seq<char>, b: Seq<char>, c: char)
    requires
        forall|i: int| 0 <= i < a.len() ==> a[i] != c,
    ensures
        find_spec(a + seq![c] + b, c) == Some(a.len() as int),
{
    let s = a + seq![c] + b;
    assert(s[a.len() as int] == c);
    assert(forall|k: int| 0 <= k < a.len() ==> s[k] == a[k]);
    lemma_find_spec_char(s, c);
    match find_spec(s, c) {
        None => {
            assert(false);
        },
        Some(j) => {
            assert(!(j < a.len()));
            assert(!(a.len() < j)) by {
                if a.len() < j {
                    assert(s[a.len() as int] != c);
                }
            }
        },
    }
}

} // verus!
