//! Character-level text handling shared by the log, compositor and
//! configuration code: decimal numbers, whitespace trimming and searching.
//!
//! Every function here is specified over the `Seq<char>` view of its
//! arguments, with the meaning that the standard library documents for the
//! operation of the same name (`str::trim`, `str::find`, `u64::from_str`, ...).
use vstd::prelude::*;
use vstd::string::*;

verus! {

// ---------------------------------------------------------------------------
// Specifications
// ---------------------------------------------------------------------------

/// An ASCII decimal digit.
pub open spec fn is_digit(c: char) -> bool {
    '0' <= c && c <= '9'
}

/// The value of a decimal digit character.
pub open spec fn digit_value(c: char) -> nat {
    (c as int - '0' as int) as nat
}

/// The character that writes the digit `d` (for `d < 10`).
pub open spec fn digit_char(d: nat) -> char {
    (d + 48) as char
}

pub open spec fn all_digits(s: Seq<char>) -> bool {
    forall|i: int| 0 <= i < s.len() ==> is_digit(#[trigger] s[i])
}

/// The number that a string of decimal digits denotes.
pub open spec fn digits_value(s: Seq<char>) -> nat
    decreases s.len(),
{
    if s.len() == 0 {
        0
    } else {
        digits_value(s.drop_last()) * 10 + digit_value(s.last())
    }
}

/// The decimal representation of `n`, without leading zeros (`Display` of an integer).
pub open spec fn decimal(n: nat) -> Seq<char>
    decreases n,
{
    if n < 10 {
        seq![digit_char(n)]
    } else {
        decimal(n / 10).push(digit_char(n % 10))
    }
}

/// The digits part of an unsigned number: an optional leading `+` is dropped.
pub open spec fn unsigned_digits(s: Seq<char>) -> Seq<char> {
    if s.len() > 0 && s[0] == '+' {
        s.drop_first()
    } else {
        s
    }
}

/// What `FromStr` gives for an unsigned integer type whose largest value is
/// `max`: an optional `+`, then at least one ASCII digit, and a value that fits.
pub open spec fn parse_unsigned(s: Seq<char>, max: nat) -> Option<nat> {
    let d = unsigned_digits(s);
    if d.len() > 0 && all_digits(d) && digits_value(d) <= max {
        Some(digits_value(d))
    } else {
        None
    }
}

/// What `i32::from_str` gives: an optional `+` or `-`, then at least one
/// ASCII digit, and a value within `i32::MIN ..= i32::MAX`.
pub open spec fn parse_i32_spec(s: Seq<char>) -> Option<int> {
    if s.len() > 0 && s[0] == '-' {
        let d = s.drop_first();
        if d.len() > 0 && all_digits(d) && digits_value(d) <= 0x8000_0000 {
            Some(-(digits_value(d) as int))
        } else {
            None
        }
    } else {
        match parse_unsigned(s, 0x7fff_ffff) {
            Some(v) => Some(v as int),
            None => None,
        }
    }
}

/// `char::is_whitespace`: the Unicode `White_Space` property.
pub open spec fn is_whitespace(c: char) -> bool {
    ||| ('\u{9}' <= c && c <= '\u{d}')
    ||| c == ' '
    ||| c == '\u{85}'
    ||| c == '\u{a0}'
    ||| c == '\u{1680}'
    ||| ('\u{2000}' <= c && c <= '\u{200a}')
    ||| c == '\u{2028}'
    ||| c == '\u{2029}'
    ||| c == '\u{202f}'
    ||| c == '\u{205f}'
    ||| c == '\u{3000}'
}

/// `str::trim_start`: leading whitespace removed.
pub open spec fn trim_start_spec(s: Seq<char>) -> Seq<char>
    decreases s.len(),
{
    if s.len() > 0 && is_whitespace(s[0]) {
        trim_start_spec(s.drop_first())
    } else {
        s
    }
}

/// `str::trim_end`: trailing whitespace removed.
pub open spec fn trim_end_spec(s: Seq<char>) -> Seq<char>
    decreases s.len(),
{
    if s.len() > 0 && is_whitespace(s.last()) {
        trim_end_spec(s.drop_last())
    } else {
        s
    }
}

/// `str::trim`: leading and trailing whitespace removed.
pub open spec fn trim_spec(s: Seq<char>) -> Seq<char> {
    trim_end_spec(trim_start_spec(s))
}

/// `p` occurs in `s` at position `i`.
pub open spec fn matches_at(s: Seq<char>, p: Seq<char>, i: int) -> bool {
    0 <= i && i + p.len() <= s.len() && s.subrange(i, i + p.len()) == p
}

/// The first position at or after `i` where `p` occurs in `s`, or `-1`.
pub open spec fn find_from(s: Seq<char>, p: Seq<char>, i: int) -> int
    decreases s.len() + 1 - i,
{
    if i < 0 || i + p.len() > s.len() {
        -1
    } else if matches_at(s, p, i) {
        i
    } else {
        find_from(s, p, i + 1)
    }
}

/// The first position where `p` occurs in `s`, or `-1`; positions count
/// characters, not bytes (where `str::find` counts bytes, the two agree on
/// ASCII text).
pub open spec fn find_spec(s: Seq<char>, p: Seq<char>) -> int {
    find_from(s, p, 0)
}

/// `str::contains`.
pub open spec fn contains_spec(s: Seq<char>, p: Seq<char>) -> bool {
    exists|i: int| matches_at(s, p, i)
}

/// `str::starts_with`.
pub open spec fn starts_with_spec(s: Seq<char>, p: Seq<char>) -> bool {
    p.len() <= s.len() && s.subrange(0, p.len() as int) == p
}

// ---------------------------------------------------------------------------
// Lemmas
// ---------------------------------------------------------------------------

/// Appending digits never makes the denoted value smaller.
pub proof fn lemma_digits_value_prefix(s: Seq<char>, k: int, n: int)
    requires
        0 <= k <= n <= s.len(),
    ensures
        digits_value(s.subrange(0, k)) <= digits_value(s.subrange(0, n)),
    decreases n - k,
{
    if k < n {
        lemma_digits_value_prefix(s, k, n - 1);
        assert(s.subrange(0, n).drop_last() =~= s.subrange(0, n - 1));
    }
}

/// One more digit: the value is ten times the old one plus the digit.
pub proof fn lemma_digits_value_step(s: Seq<char>, k: int)
    requires
        0 <= k < s.len(),
    ensures
        digits_value(s.subrange(0, k + 1)) == digits_value(s.subrange(0, k)) * 10 + digit_value(
            s[k],
        ),
{
    assert(s.subrange(0, k + 1).drop_last() =~= s.subrange(0, k));
}

/// The decimal form of `n` is a nonempty string of digits that denotes `n`.
pub proof fn lemma_decimal(n: nat)
    ensures
        decimal(n).len() > 0,
        all_digits(decimal(n)),
        digits_value(decimal(n)) == n,
    decreases n,
{
    if n < 10 {
        assert(digits_value(decimal(n).drop_last()) == 0) by {
            assert(decimal(n).drop_last() =~= Seq::<char>::empty());
        }
    } else {
        lemma_decimal(n / 10);
        let d = decimal(n / 10);
        assert(decimal(n).drop_last() =~= d);
        assert forall|i: int| 0 <= i < decimal(n).len() implies is_digit(#[trigger] decimal(n)[i]) by {
            if i < d.len() {
                assert(decimal(n)[i] == d[i]);
            }
        }
    }
}

/// Trimming the start drops exactly the leading whitespace: what is left is
/// a suffix of `s`, everything dropped is whitespace, and what is left does
/// not start with whitespace.
pub proof fn lemma_trim_start(s: Seq<char>)
    ensures
        trim_start_spec(s).len() <= s.len(),
        trim_start_spec(s) == s.subrange(s.len() - trim_start_spec(s).len(), s.len() as int),
        forall|i: int| 0 <= i < s.len() - trim_start_spec(s).len() ==> is_whitespace(#[trigger] s[i]),
        trim_start_spec(s).len() > 0 ==> !is_whitespace(trim_start_spec(s)[0]),
    decreases s.len(),
{
    if s.len() > 0 && is_whitespace(s[0]) {
        let t = s.drop_first();
        lemma_trim_start(t);
        assert forall|i: int| 0 <= i < s.len() - trim_start_spec(s).len() implies is_whitespace(#[trigger] s[i]) by {
            if i > 0 {
                assert(s[i] == t[i - 1]);
            }
        }
        assert(t.subrange(t.len() - trim_start_spec(t).len(), t.len() as int) =~= s.subrange(
            s.len() - trim_start_spec(s).len(),
            s.len() as int,
        ));
    } else {
        assert(s.subrange(0, s.len() as int) =~= s);
    }
}

/// Trimming the end drops exactly the trailing whitespace: what is left is
/// a prefix of `s`, everything dropped is whitespace, and what is left does
/// not end with whitespace.
pub proof fn lemma_trim_end(s: Seq<char>)
    ensures
        trim_end_spec(s).len() <= s.len(),
        trim_end_spec(s) == s.subrange(0, trim_end_spec(s).len() as int),
        forall|i: int| trim_end_spec(s).len() <= i < s.len() ==> is_whitespace(#[trigger] s[i]),
        trim_end_spec(s).len() > 0 ==> !is_whitespace(trim_end_spec(s).last()),
    decreases s.len(),
{
    if s.len() > 0 && is_whitespace(s.last()) {
        let t = s.drop_last();
        lemma_trim_end(t);
        assert forall|i: int| trim_end_spec(s).len() <= i < s.len() implies is_whitespace(#[trigger] s[i]) by {
            if i < t.len() {
                assert(s[i] == t[i]);
            }
        }
        assert(t.subrange(0, trim_end_spec(t).len() as int) =~= s.subrange(
            0,
            trim_end_spec(s).len() as int,
        ));
    } else {
        assert(s.subrange(0, s.len() as int) =~= s);
    }
}

/// Trimming drops exactly the leading and trailing whitespace: the result is
/// the part of `s` from some position `k` on, everything before `k` and
/// after the result is whitespace, and the result neither starts nor ends
/// with whitespace (it is empty exactly when `s` is all whitespace).
pub proof fn lemma_trim(s: Seq<char>)
    ensures
        ({
            let r = trim_spec(s);
            let k = s.len() - trim_start_spec(s).len();
            &&& 0 <= k && k + r.len() <= s.len()
            &&& r == s.subrange(k, k + r.len())
            &&& forall|i: int| 0 <= i < k ==> is_whitespace(#[trigger] s[i])
            &&& forall|i: int| k + r.len() <= i < s.len() ==> is_whitespace(#[trigger] s[i])
            &&& r.len() > 0 ==> !is_whitespace(r[0]) && !is_whitespace(r.last())
        }),
        trim_spec(s).len() == 0 <==> forall|i: int| 0 <= i < s.len() ==> is_whitespace(#[trigger] s[i]),
{
    lemma_trim_start(s);
    let t = trim_start_spec(s);
    lemma_trim_end(t);
    let r = trim_spec(s);
    let k = s.len() - t.len();
    assert(r =~= s.subrange(k, k + r.len()));
    assert forall|i: int| k + r.len() <= i < s.len() implies is_whitespace(#[trigger] s[i]) by {
        assert(s[i] == t[i - k]);
    }
    if r.len() > 0 {
        assert(r[0] == t[0]);
    }
    if r.len() == 0 {
        assert forall|i: int| 0 <= i < s.len() implies is_whitespace(#[trigger] s[i]) by {
            if i >= k {
                assert(s[i] == t[i - k]);
            }
        }
    } else {
        assert(s[k] == r[0]);
    }
}

/// Reading back the decimal form of a number gives the number.
pub proof fn lemma_parse_decimal(n: nat, max: nat)
    requires
        n <= max,
    ensures
        parse_unsigned(decimal(n), max) == Some(n),
{
    lemma_decimal(n);
    assert(is_digit(decimal(n)[0]));
    assert(unsigned_digits(decimal(n)) == decimal(n));
}

// ---------------------------------------------------------------------------
// Executable functions
// ---------------------------------------------------------------------------

/// `String::push`: appends one character.
#[verifier::external_body]
fn push_char(s: &mut String, c: char)
    ensures
        final(s)@ == old(s)@.push(c),
{
    s.push(c);
}

/// Appends the decimal form of `n` to `out`.
pub fn push_decimal(out: &mut String, n: u64)
    ensures
        final(out)@ == old(out)@ + decimal(n as nat),
    decreases n,
{
    if n >= 10 {
        push_decimal(out, n / 10);
    }
    let d: u8 = (n % 10) as u8;
    let c: char = (d + 48u8) as char;
    push_char(out, c);
    proof {
        assert(c == digit_char((n % 10) as nat));
    }
}

/// The decimal form of `n` (`n.to_string()`).
pub fn decimal_string(n: u64) -> (r: String)
    ensures
        r@ == decimal(n as nat),
{
    let mut out = String::new();
    push_decimal(&mut out, n);
    proof {
        assert(out@ =~= decimal(n as nat));
    }
    out
}

/// `char::is_whitespace`.
pub fn is_whitespace_char(c: char) -> (r: bool)
    ensures
        r == is_whitespace(c),
{
    ('\u{9}' <= c && c <= '\u{d}') || c == ' ' || c == '\u{85}' || c == '\u{a0}' || c == '\u{1680}'
        || ('\u{2000}' <= c && c <= '\u{200a}') || c == '\u{2028}' || c == '\u{2029}' || c
        == '\u{202f}' || c == '\u{205f}' || c == '\u{3000}'
}

/// `str::trim_start`.
pub fn trim_start(s: &str) -> (r: &str)
    ensures
        r@ == trim_start_spec(s@),
{
    let n = s.unicode_len();
    let mut i: usize = 0;
    assert(s@.subrange(0, n as int) =~= s@);
    while i < n && is_whitespace_char(s.get_char(i))
        invariant
            n == s@.len(),
            i <= n,
            trim_start_spec(s@) == trim_start_spec(s@.subrange(i as int, n as int)),
        decreases n - i,
    {
        assert(s@.subrange(i as int, n as int).drop_first() =~= s@.subrange(
            i + 1,
            n as int,
        ));
        i = i + 1;
    }
    s.substring_char(i, n)
}

/// `str::trim_end`.
pub fn trim_end(s: &str) -> (r: &str)
    ensures
        r@ == trim_end_spec(s@),
{
    let n = s.unicode_len();
    let mut j: usize = n;
    assert(s@.subrange(0, n as int) =~= s@);
    while j > 0 && is_whitespace_char(s.get_char(j - 1))
        invariant
            n == s@.len(),
            j <= n,
            trim_end_spec(s@) == trim_end_spec(s@.subrange(0, j as int)),
        decreases j,
    {
        assert(s@.subrange(0, j as int).drop_last() =~= s@.subrange(0, j - 1));
        j = j - 1;
    }
    s.substring_char(0, j)
}

/// `str::trim`.
pub fn trim(s: &str) -> (r: &str)
    ensures
        r@ == trim_spec(s@),
{
    trim_end(trim_start(s))
}

/// Whether `p` occurs in `s` at char position `i`.
fn matches_at_exec(s: &str, p: &str, i: usize) -> (r: bool)
    requires
        i <= s@.len(),
    ensures
        r == matches_at(s@, p@, i as int),
{
    let n = s.unicode_len();
    let m = p.unicode_len();
    if m > n - i {
        return false;
    }
    let mut k: usize = 0;
    while k < m
        invariant
            n == s@.len(),
            m == p@.len(),
            i + m <= n,
            k <= m,
            forall|t: int| 0 <= t < k ==> s@[i + t] == p@[t],
        decreases m - k,
    {
        if s.get_char(i + k) != p.get_char(k) {
            assert(s@.subrange(i as int, i + m)[k as int] != p@[k as int]);
            return false;
        }
        k = k + 1;
    }
    assert(s@.subrange(i as int, i + m) =~= p@);
    true
}

/// The first occurrence of `p` in `s`, as a char position.
pub fn find(s: &str, p: &str) -> (r: Option<usize>)
    ensures
        match r {
            Some(i) => i as int == find_spec(s@, p@) && matches_at(s@, p@, i as int),
            None => find_spec(s@, p@) == -1,
        },
{
    proof {
        lemma_find_from(s@, p@, 0);
    }
    let n = s.unicode_len();
    let m = p.unicode_len();
    if m > n {
        return None;
    }
    if m == 0 {
        assert(s@.subrange(0, 0) =~= p@);
        return Some(0);
    }
    let mut i: usize = 0;
    while i <= n - m
        invariant
            n == s@.len(),
            m == p@.len(),
            1 <= m <= n,
            i <= n - m + 1,
            find_spec(s@, p@) == find_from(s@, p@, i as int),
        decreases n - m + 1 - i,
    {
        if matches_at_exec(s, p, i) {
            return Some(i);
        }
        i = i + 1;
    }
    None
}

/// Where `find_from` returns a position, `p` occurs there; where it returns
/// `-1`, `p` occurs nowhere at or after `i`.
pub proof fn lemma_find_from(s: Seq<char>, p: Seq<char>, i: int)
    requires
        0 <= i,
    ensures
        find_from(s, p, i) != -1 ==> matches_at(s, p, find_from(s, p, i)) && i <= find_from(
            s,
            p,
            i,
        ),
        find_from(s, p, i) == -1 ==> forall|j: int| i <= j ==> !#[trigger] matches_at(s, p, j),
    decreases s.len() + 1 - i,
{
    if i + p.len() > s.len() {
    } else if !matches_at(s, p, i) {
        lemma_find_from(s, p, i + 1);
    }
}

/// No match is skipped: `p` occurs nowhere between `i` and the position
/// that `find_from` returns.
proof fn lemma_find_from_first(s: Seq<char>, p: Seq<char>, i: int)
    requires
        0 <= i,
    ensures
        find_from(s, p, i) != -1 ==> forall|j: int|
            i <= j < find_from(s, p, i) ==> !#[trigger] matches_at(s, p, j),
    decreases s.len() + 1 - i,
{
    if i + p.len() > s.len() {
    } else if !matches_at(s, p, i) {
        lemma_find_from_first(s, p, i + 1);
    }
}

/// Searching finds the first occurrence: where `p` occurs in `s` the search
/// gives a position where it occurs and no earlier one, and it gives `-1`
/// exactly when `p` occurs nowhere.
pub proof fn lemma_find(s: Seq<char>, p: Seq<char>)
    ensures
        find_spec(s, p) == -1 <==> !contains_spec(s, p),
        find_spec(s, p) != -1 ==> matches_at(s, p, find_spec(s, p)) && forall|j: int|
            0 <= j < find_spec(s, p) ==> !#[trigger] matches_at(s, p, j),
{
    lemma_find_from(s, p, 0);
    lemma_find_from_first(s, p, 0);
    if find_spec(s, p) == -1 {
        if contains_spec(s, p) {
            let j = choose|j: int| matches_at(s, p, j);
            assert(0 <= j);
        }
    }
}

/// `str::contains`.
pub fn contains(s: &str, p: &str) -> (r: bool)
    ensures
        r == contains_spec(s@, p@),
{
    proof {
        lemma_find_from(s@, p@, 0);
    }
    match find(s, p) {
        Some(_) => true,
        None => {
            assert forall|j: int| !matches_at(s@, p@, j) by {
                if j >= 0 {
                    assert(!matches_at(s@, p@, j));
                }
            }
            false
        },
    }
}

/// `str::starts_with`.
pub fn starts_with(s: &str, p: &str) -> (r: bool)
    ensures
        r == starts_with_spec(s@, p@),
{
    let n = s.unicode_len();
    let m = p.unicode_len();
    if m > n {
        return false;
    }
    let r = matches_at_exec(s, p, 0);
    proof {
        assert(s@.subrange(0, m as int) == s@.subrange(0, 0 + m as int));
    }
    r
}

/// `==` on two string slices.
pub fn equals(a: &str, b: &str) -> (r: bool)
    ensures
        r == (a@ == b@),
{
    let n = a.unicode_len();
    let m = b.unicode_len();
    if n != m {
        return false;
    }
    let r = matches_at_exec(a, b, 0);
    proof {
        if r {
            assert(a@ =~= a@.subrange(0, 0 + m as int));
        } else {
            assert(a@.subrange(0, 0 + m as int) =~= a@);
        }
    }
    r
}


/// The number written by the digits of `s` from char position `start` on,
/// when they are all digits, there is at least one and the value is at most `max`.
fn parse_digits(s: &str, start: usize, max: u64) -> (r: Option<u64>)
    requires
        start <= s@.len(),
        max >= 9,
    ensures
        ({
            let d = s@.subrange(start as int, s@.len() as int);
            &&& r is Some <==> (d.len() > 0 && all_digits(d) && digits_value(d) <= max)
            &&& r matches Some(v) ==> v == digits_value(d)
        }),
{
    let n = s.unicode_len();
    if start >= n {
        return None;
    }
    let ghost d = s@.subrange(start as int, n as int);
    let mut acc: u64 = 0;
    let mut k: usize = start;
    assert(d.subrange(0, 0) =~= Seq::<char>::empty());
    while k < n
        invariant
            n == s@.len(),
            start < n,
            start <= k <= n,
            max >= 9,
            d == s@.subrange(start as int, n as int),
            all_digits(d.subrange(0, k - start)),
            acc == digits_value(d.subrange(0, k - start)),
            acc <= max,
        decreases n - k,
    {
        let c = s.get_char(k);
        assert(d[k - start] == c);
        if !('0' <= c && c <= '9') {
            return None;
        }
        let dv: u64 = (c as u32 - 48) as u64;
        proof {
            lemma_digits_value_step(d, k - start);
        }
        if acc > (max - dv) / 10 {
            proof {
                assert(acc * 10 + dv > max) by (nonlinear_arith)
                    requires
                        acc > (max - dv) / 10,
                        dv <= 9,
                        max >= 9,
                ;
                lemma_digits_value_prefix(d, k - start + 1, d.len() as int);
                assert(d.subrange(0, d.len() as int) =~= d);
            }
            return None;
        }
        assert(acc * 10 + dv <= max) by (nonlinear_arith)
            requires
                acc <= (max - dv) / 10,
                dv <= 9,
                max >= 9,
        ;
        acc = acc * 10 + dv;
        assert forall|i: int| 0 <= i < k + 1 - start implies is_digit(
            #[trigger] d.subrange(0, k + 1 - start)[i],
        ) by {
            if i < k - start {
                assert(d.subrange(0, k + 1 - start)[i] == d.subrange(0, k - start)[i]);
            }
        }
        k = k + 1;
    }
    assert(d.subrange(0, n - start) =~= d);
    Some(acc)
}

/// `u64::from_str`, giving `None` where it gives an error.
pub fn parse_u64(s: &str) -> (r: Option<u64>)
    ensures
        r is Some <==> parse_unsigned(s@, u64::MAX as nat) is Some,
        r matches Some(v) ==> parse_unsigned(s@, u64::MAX as nat) == Some(v as nat),
{
    let n = s.unicode_len();
    if n > 0 && s.get_char(0) == '+' {
        assert(s@.drop_first() =~= s@.subrange(1, n as int));
        parse_digits(s, 1, u64::MAX)
    } else {
        assert(s@ =~= s@.subrange(0, n as int));
        parse_digits(s, 0, u64::MAX)
    }
}

/// `u32::from_str`, giving `None` where it gives an error.
pub fn parse_u32(s: &str) -> (r: Option<u32>)
    ensures
        r is Some <==> parse_unsigned(s@, u32::MAX as nat) is Some,
        r matches Some(v) ==> parse_unsigned(s@, u32::MAX as nat) == Some(v as nat),
{
    let n = s.unicode_len();
    let v = if n > 0 && s.get_char(0) == '+' {
        assert(s@.drop_first() =~= s@.subrange(1, n as int));
        parse_digits(s, 1, u32::MAX as u64)
    } else {
        assert(s@ =~= s@.subrange(0, n as int));
        parse_digits(s, 0, u32::MAX as u64)
    };
    match v {
        Some(x) => Some(x as u32),
        None => None,
    }
}

/// `i32::from_str`, giving `None` where it gives an error.
pub fn parse_i32(s: &str) -> (r: Option<i32>)
    ensures
        r is Some <==> parse_i32_spec(s@) is Some,
        r matches Some(v) ==> parse_i32_spec(s@) == Some(v as int),
{
    let n = s.unicode_len();
    if n > 0 && s.get_char(0) == '-' {
        assert(s@.drop_first() =~= s@.subrange(1, n as int));
        match parse_digits(s, 1, 0x8000_0000) {
            Some(x) => Some((0i64 - x as i64) as i32),
            None => None,
        }
    } else {
        let v = if n > 0 && s.get_char(0) == '+' {
            assert(s@.drop_first() =~= s@.subrange(1, n as int));
            parse_digits(s, 1, 0x7fff_ffff)
        } else {
            assert(s@ =~= s@.subrange(0, n as int));
            parse_digits(s, 0, 0x7fff_ffff)
        };
        match v {
            Some(x) => Some(x as i32),
            None => None,
        }
    }
}

} // verus!
