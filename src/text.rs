//! Decimal and hexadecimal text: formatting and parsing of integers, and a
//! few string helpers.
use vstd::prelude::*;
use vstd::string::*;

verus! {

/// The character of a digit below sixteen: `0`-`9`, then `A`-`F`.
pub open spec fn digit_char(d: nat) -> char {
    if d < 10 {
        ((d + 48) as u8) as char
    } else {
        ((d + 55) as u8) as char
    }
}

/// The decimal text of `n`, without leading zeros.
pub open spec fn decimal(n: nat) -> Seq<char>
    decreases n,
{
    if n < 10 {
        seq![digit_char(n)]
    } else {
        decimal(n / 10).push(digit_char(n % 10))
    }
}

/// The last `k` uppercase hexadecimal digits of `n`, zero-padded.
pub open spec fn hex_padded(n: nat, k: nat) -> Seq<char>
    decreases k,
{
    if k == 0 {
        Seq::empty()
    } else {
        hex_padded(n / 16, (k - 1) as nat).push(digit_char(n % 16))
    }
}

/// Relies on `String::push`: appends one character.
#[verifier::external_body]
pub(crate) fn push_char(s: &mut String, c: char)
    ensures
        final(s)@ == old(s)@.push(c),
{
    s.push(c)
}

/// Appends `t` to `s`.
pub fn push_str(s: &mut String, t: &str)
    ensures
        final(s)@ == old(s)@ + t@,
{
    s.append(t);
}

fn digit_of(d: u64) -> (c: char)
    requires
        d < 16,
    ensures
        c == digit_char(d as nat),
{
    if d < 10 {
        ((d + 48) as u8) as char
    } else {
        ((d + 55) as u8) as char
    }
}

/// Appends the decimal text of `n` to `s`.
pub fn push_decimal(s: &mut String, n: u64)
    ensures
        final(s)@ == old(s)@ + decimal(n as nat),
    decreases n,
{
    if n >= 10 {
        push_decimal(s, n / 10);
    }
    push_char(s, digit_of(n % 10));
    assert(final(s)@ =~= old(s)@ + decimal(n as nat));
}

/// Appends the last `k` uppercase hexadecimal digits of `n` to `s`.
pub fn push_hex_padded(s: &mut String, n: u64, k: u64)
    ensures
        final(s)@ == old(s)@ + hex_padded(n as nat, k as nat),
    decreases k,
{
    if k > 0 {
        push_hex_padded(s, n / 16, k - 1);
        push_char(s, digit_of(n % 16));
        assert(final(s)@ =~= old(s)@ + hex_padded(n as nat, k as nat));
    }
}

/// An ASCII decimal digit.
pub open spec fn is_digit(c: char) -> bool {
    '0' <= c && c <= '9'
}

/// A non-empty run of ASCII decimal digits.
pub open spec fn all_digits(s: Seq<char>) -> bool {
    s.len() > 0 && forall|i: int| 0 <= i < s.len() ==> is_digit(#[trigger] s[i])
}

/// The value of a run of decimal digits.
pub open spec fn digits_value(s: Seq<char>) -> nat
    decreases s.len(),
{
    if s.len() == 0 {
        0
    } else {
        digits_value(s.drop_last()) * 10 + ((s.last() as nat) - 48) as nat
    }
}

/// The value of unsigned integer text: an optional `+`, then digits.
pub open spec fn unsigned_value(s: Seq<char>) -> Option<nat> {
    let body = if s.len() > 0 && s[0] == '+' {
        s.drop_first()
    } else {
        s
    };
    if all_digits(body) {
        Some(digits_value(body))
    } else {
        None
    }
}

/// The value of signed integer text: an optional `+` or `-`, then digits.
pub open spec fn signed_value(s: Seq<char>) -> Option<int> {
    if s.len() > 0 && s[0] == '-' {
        if all_digits(s.drop_first()) {
            Some(-digits_value(s.drop_first()))
        } else {
            None
        }
    } else {
        match unsigned_value(s) {
            Some(v) => Some(v as int),
            None => None,
        }
    }
}

/// Text that reads as an unsigned integer no larger than `max`.
pub open spec fn unsigned_in_range(s: Seq<char>, max: nat) -> bool {
    unsigned_value(s) is Some && unsigned_value(s)->0 <= max
}

proof fn lemma_digits_step(s: Seq<char>, start: int, i: int)
    requires
        0 <= start <= i < s.len(),
    ensures
        digits_value(s.subrange(start, i + 1)) == digits_value(s.subrange(start, i)) * 10 + ((
        s[i] as nat) - 48) as nat,
{
    assert(s.subrange(start, i + 1).drop_last() =~= s.subrange(start, i));
}

/// The digits of `s` from `start` on, with their value capped at `cap`;
/// `None` where that part is empty or holds a character that is no digit.
fn capped_digits(s: &str, start: usize, cap: u128) -> (r: Option<u128>)
    requires
        start <= s@.len(),
        0 < cap <= 0x1_0000_0000_0000_0000,
    ensures
        r is Some <==> all_digits(s@.subrange(start as int, s@.len() as int)),
        r is Some ==> r->0 == if digits_value(s@.subrange(start as int, s@.len() as int)) < cap {
            digits_value(s@.subrange(start as int, s@.len() as int))
        } else {
            cap as nat
        },
{
    let n = s.unicode_len();
    if start >= n {
        return None;
    }
    let mut acc: u128 = 0;
    let mut i: usize = start;
    while i < n
        invariant
            n == s@.len(),
            start <= i <= n,
            0 < cap <= 0x1_0000_0000_0000_0000,
            forall|j: int| start <= j < i ==> is_digit(#[trigger] s@[j]),
            acc as nat == if digits_value(s@.subrange(start as int, i as int)) < cap {
                digits_value(s@.subrange(start as int, i as int))
            } else {
                cap as nat
            },
        decreases n - i,
    {
        let c = s.get_char(i);
        if !('0' <= c && c <= '9') {
            assert(!is_digit(s@.subrange(start as int, n as int)[i - start]));
            return None;
        }
        let d = (c as u32 - 48) as u128;
        proof {
            lemma_digits_step(s@, start as int, i as int);
            let v = digits_value(s@.subrange(start as int, i as int));
            let cp = cap as nat;
            let dd = d as nat;
            assert(v >= cp ==> v * 10 + dd >= cp) by (nonlinear_arith)
                requires
                    0 < cp,
            ;
            assert(v >= cp ==> cp * 10 + dd >= cp) by (nonlinear_arith)
                requires
                    0 < cp,
            ;
        }
        let next = acc * 10 + d;
        acc = if next < cap {
            next
        } else {
            cap
        };
        i = i + 1;
    }
    assert(s@.subrange(start as int, n as int).len() > 0);
    assert forall|j: int| 0 <= j < s@.subrange(start as int, n as int).len() implies is_digit(
        #[trigger] s@.subrange(start as int, n as int)[j],
    ) by {
        assert(is_digit(s@[start + j]));
    }
    Some(acc)
}

/// Reads unsigned decimal text no larger than `max`, as `str::parse` does for
/// unsigned integers.
fn parse_unsigned(s: &str, max: u64) -> (r: Option<u64>)
    ensures
        r is Some <==> unsigned_in_range(s@, max as nat),
        r is Some ==> r->0 as nat == unsigned_value(s@)->0,
{
    let n = s.unicode_len();
    let start: usize = if n > 0 && s.get_char(0) == '+' {
        1
    } else {
        0
    };
    assert(s@.subrange(start as int, s@.len() as int) =~= if s@.len() > 0 && s@[0] == '+' {
        s@.drop_first()
    } else {
        s@
    });
    match capped_digits(s, start, max as u128 + 1) {
        Some(v) => {
            if v <= max as u128 {
                Some(v as u64)
            } else {
                None
            }
        },
        None => None,
    }
}

/// Reads a `u64` as `str::parse::<u64>` does.
pub fn parse_u64(s: &str) -> (r: Option<u64>)
    ensures
        r is Some <==> unsigned_in_range(s@, u64::MAX as nat),
        r is Some ==> r->0 as nat == unsigned_value(s@)->0,
{
    parse_unsigned(s, u64::MAX)
}

/// Reads a `u32` as `str::parse::<u32>` does.
pub fn parse_u32(s: &str) -> (r: Option<u32>)
    ensures
        r is Some <==> unsigned_in_range(s@, u32::MAX as nat),
        r is Some ==> r->0 as nat == unsigned_value(s@)->0,
{
    match parse_unsigned(s, u32::MAX as u64) {
        Some(v) => Some(v as u32),
        None => None,
    }
}

/// Reads an `i32` as `str::parse::<i32>` does.
pub fn parse_i32(s: &str) -> (r: Option<i32>)
    ensures
        r is Some <==> (signed_value(s@) is Some && i32::MIN <= signed_value(s@)->0 <= i32::MAX),
        r is Some ==> r->0 as int == signed_value(s@)->0,
{
    let n = s.unicode_len();
    if n > 0 && s.get_char(0) == '-' {
        assert(s@.subrange(1, s@.len() as int) =~= s@.drop_first());
        match capped_digits(s, 1, 0x8000_0001) {
            Some(v) => {
                if v <= 0x8000_0000 {
                    Some((0 - (v as i64)) as i32)
                } else {
                    None
                }
            },
            None => None,
        }
    } else {
        match parse_unsigned(s, i32::MAX as u64) {
            Some(v) => Some(v as i32),
            None => None,
        }
    }
}

/// Whether two strings hold the same characters.
pub fn str_eq(a: &str, b: &str) -> (r: bool)
    ensures
        r == (a@ == b@),
{
    let n = a.unicode_len();
    if n != b.unicode_len() {
        return false;
    }
    let mut i: usize = 0;
    while i < n
        invariant
            n == a@.len() == b@.len(),
            i <= n,
            forall|j: int| 0 <= j < i ==> a@[j] == b@[j],
        decreases n - i,
    {
        if a.get_char(i) != b.get_char(i) {
            return false;
        }
        i = i + 1;
    }
    assert(a@ =~= b@);
    true
}

/// `name` placed under the directory `base`: a `/` stands between them
/// unless `base` is empty or already ends with one.
pub open spec fn join_path(base: Seq<char>, name: Seq<char>) -> Seq<char> {
    if base.len() == 0 {
        name
    } else if base.last() == '/' {
        base + name
    } else {
        base + seq!['/'] + name
    }
}

/// Joins `name` onto the directory `base`.
pub fn join(base: &str, name: &str) -> (r: String)
    ensures
        r@ == join_path(base@, name@),
{
    let mut r = base.to_owned();
    let n = base.unicode_len();
    if n > 0 && base.get_char(n - 1) != '/' {
        push_char(&mut r, '/');
    }
    push_str(&mut r, name);
    r
}

/// A character of the Unicode property White_Space, as `char::is_whitespace`
/// documents it.
pub open spec fn is_white_space(c: char) -> bool {
    let v = c as u32;
    ||| 0x9 <= v <= 0xd
    ||| v == 0x20 || v == 0x85 || v == 0xa0 || v == 0x1680
    ||| 0x2000 <= v <= 0x200a
    ||| v == 0x2028 || v == 0x2029 || v == 0x202f || v == 0x205f || v == 0x3000
}

/// The text without its leading white space.
pub open spec fn trim_start(s: Seq<char>) -> Seq<char>
    decreases s.len(),
{
    if s.len() > 0 && is_white_space(s[0]) {
        trim_start(s.drop_first())
    } else {
        s
    }
}

/// The text without its trailing white space.
pub open spec fn trim_end(s: Seq<char>) -> Seq<char>
    decreases s.len(),
{
    if s.len() > 0 && is_white_space(s.last()) {
        trim_end(s.drop_last())
    } else {
        s
    }
}

/// The text without leading and trailing white space.
pub open spec fn trimmed(s: Seq<char>) -> Seq<char> {
    trim_end(trim_start(s))
}

/// Relies on `str::trim`: the text without leading and trailing white space,
/// white space being the Unicode property White_Space.
#[verifier::external_body]
pub(crate) fn trim(s: &str) -> (r: &str)
    ensures
        r@ == trimmed(s@),
{
    s.trim()
}

/// What `str::to_lowercase` makes of a text.
pub uninterp spec fn lower_of(s: Seq<char>) -> Seq<char>;

/// Relies on `str::to_lowercase`: the lowercase form of the text.
#[verifier::external_body]
pub(crate) fn lowercase(s: &str) -> (r: String)
    ensures
        r@ == lower_of(s@),
{
    s.to_lowercase()
}

/// The decimal text of a signed integer.
pub open spec fn signed_decimal(n: int) -> Seq<char> {
    if n < 0 {
        seq!['-'] + decimal((-n) as nat)
    } else {
        decimal(n as nat)
    }
}

/// Appends the decimal text of `n` to `s`.
pub fn push_signed_decimal(s: &mut String, n: i32)
    ensures
        final(s)@ == old(s)@ + signed_decimal(n as int),
{
    if n < 0 {
        push_char(s, '-');
        push_decimal(s, (0 - (n as i64)) as u64);
        assert(final(s)@ =~= old(s)@ + signed_decimal(n as int));
    } else {
        push_decimal(s, n as u64);
    }
}

/// `t` occurs in `s`.
pub open spec fn has_infix(s: Seq<char>, t: Seq<char>) -> bool {
    exists|i: int| 0 <= i && i + t.len() <= s.len() && #[trigger] s.subrange(i, i + t.len()) == t
}

/// Whether `t` occurs in `s`.
pub fn contains_text(s: &str, t: &str) -> (r: bool)
    ensures
        r == has_infix(s@, t@),
{
    let n = s.unicode_len();
    let m = t.unicode_len();
    if m > n {
        assert(!has_infix(s@, t@));
        return false;
    }
    if m == 0 {
        assert(s@.subrange(0int, 0int + t@.len()) =~= t@);
        return true;
    }
    let mut i: usize = 0;
    while i <= n - m
        invariant
            n == s@.len(),
            m == t@.len(),
            0 < m <= n,
            i <= n - m + 1,
            forall|k: int| 0 <= k < i ==> #[trigger] s@.subrange(k, k + m) != t@,
        decreases n - m + 1 - i,
    {
        if str_eq(s.substring_char(i, i + m), t) {
            assert(s@.subrange(i as int, i + t@.len()) == t@);
            return true;
        }
        i = i + 1;
    }
    true_if_found(s, t, i)
}

fn true_if_found(s: &str, t: &str, i: usize) -> (r: bool)
    requires
        i + t@.len() > s@.len(),
        t@.len() <= s@.len(),
        forall|k: int| 0 <= k < i ==> #[trigger] s@.subrange(k, k + t@.len()) != t@,
    ensures
        r == has_infix(s@, t@),
{
    assert forall|k: int| 0 <= k && k + t@.len() <= s@.len() implies #[trigger] s@.subrange(k, k + t@.len()) != t@ by {
        assert(k < i);
    }
    false
}

/// Text made of ASCII digits and at most one `.`, with at least one digit:
/// the decimal floats that `f64::from_str` reads among texts of digits and
/// dots.
pub open spec fn is_plain_float(s: Seq<char>) -> bool {
    &&& forall|i: int| 0 <= i < s.len() ==> is_digit(#[trigger] s[i]) || s[i] == '.'
    &&& forall|i: int, j: int| 0 <= i < j < s.len() && s[i] == '.' ==> s[j] != '.'
    &&& exists|i: int| 0 <= i < s.len() && is_digit(#[trigger] s[i])
}

/// Whether `s` is a plain decimal float.
pub fn plain_float(s: &str) -> (r: bool)
    ensures
        r == is_plain_float(s@),
{
    let n = s.unicode_len();
    let mut dot: Option<usize> = None;
    let mut digit = false;
    let mut i: usize = 0;
    while i < n
        invariant
            n == s@.len(),
            i <= n,
            forall|k: int| 0 <= k < i ==> is_digit(#[trigger] s@[k]) || s@[k] == '.',
            forall|a: int, b: int| 0 <= a < b < i && s@[a] == '.' ==> s@[b] != '.',
            dot is None ==> forall|k: int| 0 <= k < i ==> s@[k] != '.',
            dot matches Some(d) ==> d < i && s@[d as int] == '.',
            digit <==> exists|k: int| 0 <= k < i && is_digit(#[trigger] s@[k]),
        decreases n - i,
    {
        let c = s.get_char(i);
        if '0' <= c && c <= '9' {
            digit = true;
            assert(is_digit(s@[i as int]));
        } else if c == '.' {
            if let Some(d) = dot {
                assert(s@[d as int] == '.' && d < i);
                return false;
            }
            dot = Some(i);
        } else {
            assert(!(is_digit(s@[i as int]) || s@[i as int] == '.'));
            return false;
        }
        i = i + 1;
    }
    digit
}

} // verus!
