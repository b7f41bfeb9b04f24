//! Text primitives the rest of the library is built on: whitespace trimming,
//! decimal integers (parsing and printing), and substring search, each proved
//! against a short mathematical statement over sequences of characters.

use vstd::prelude::*;

verus! {

/// `String::push` appends the given character to the end of the string, as
/// std documents it ("Appends the given char to the end of this String").
pub assume_specification[ String::push ](string: &mut String, ch: char)
    ensures
        final(string)@ == old(string)@.push(ch),
;

/// The characters with the Unicode `White_Space` property: the ones that
/// `char::is_whitespace` accepts and `str::trim` removes.
pub open spec fn is_white_space(c: char) -> bool {
    let v = c as u32;
    ||| v == 0x20
    ||| 0x09 <= v <= 0x0d
    ||| v == 0x85
    ||| v == 0xa0
    ||| v == 0x1680
    ||| 0x2000 <= v <= 0x200a
    ||| v == 0x2028
    ||| v == 0x2029
    ||| v == 0x202f
    ||| v == 0x205f
    ||| v == 0x3000
}

/// `s` without its leading white space.
pub open spec fn trim_start(s: Seq<char>) -> Seq<char>
    decreases s.len(),
{
    if s.len() > 0 && is_white_space(s[0]) {
        trim_start(s.drop_first())
    } else {
        s
    }
}

/// `s` without its trailing white space.
pub open spec fn trim_end(s: Seq<char>) -> Seq<char>
    decreases s.len(),
{
    if s.len() > 0 && is_white_space(s.last()) {
        trim_end(s.drop_last())
    } else {
        s
    }
}

/// `s` with leading and trailing white space removed.
pub open spec fn trimmed(s: Seq<char>) -> Seq<char> {
    trim_end(trim_start(s))
}

/// Whether `c` is white space.
pub fn char_is_white_space(c: char) -> (r: bool)
    ensures
        r == is_white_space(c),
{
    let v = c as u32;
    v == 0x20 || (0x09 <= v && v <= 0x0d) || v == 0x85 || v == 0xa0 || v == 0x1680 || (0x2000
        <= v && v <= 0x200a) || v == 0x2028 || v == 0x2029 || v == 0x202f || v == 0x205f || v
        == 0x3000
}

/// The characters of `s`, in order.
pub fn to_chars(s: &str) -> (v: Vec<char>)
    ensures
        v@ == s@,
{
    let n = s.unicode_len();
    let mut v: Vec<char> = Vec::new();
    let mut i: usize = 0;
    while i < n
        invariant
            n == s@.len(),
            i <= n,
            v@ == s@.take(i as int),
        decreases n - i,
    {
        v.push(s.get_char(i));
        i += 1;
        assert(v@ =~= s@.take(i as int));
    }
    assert(v@ =~= s@);
    v
}

/// `s` with leading and trailing white space removed (`str::trim`).
pub fn trim(s: &str) -> (r: &str)
    ensures
        r@ == trimmed(s@),
{
    let chars = to_chars(s);
    let n = chars.len();
    let mut i: usize = 0;
    assert(s@.subrange(0, n as int) =~= s@);
    while i < n && char_is_white_space(chars[i])
        invariant
            chars@ == s@,
            n == s@.len(),
            i <= n,
            trim_start(s@) == trim_start(s@.subrange(i as int, n as int)),
        decreases n - i,
    {
        assert(s@.subrange(i as int, n as int).drop_first() =~= s@.subrange(i + 1, n as int));
        i += 1;
    }
    assert(trim_start(s@) == s@.subrange(i as int, n as int));
    let mut j: usize = n;
    while j > i && char_is_white_space(chars[j - 1])
        invariant
            chars@ == s@,
            n == s@.len(),
            i <= j <= n,
            trim_end(s@.subrange(i as int, n as int)) == trim_end(
                s@.subrange(i as int, j as int),
            ),
        decreases j,
    {
        assert(s@.subrange(i as int, j as int).drop_last() =~= s@.subrange(i as int, j - 1));
        j -= 1;
    }
    s.substring_char(i, j)
}

/// Why a decimal number could not be read, as std's `IntErrorKind` reports it
/// for an unsigned target.
#[derive(Clone, Copy, Debug, PartialEq, Eq, Structural)]
pub enum IntErrorKind {
    /// The text is empty.
    Empty,
    /// A character other than an ASCII digit, or a sign with nothing after it.
    InvalidDigit,
    /// The value does not fit the target type.
    PosOverflow,
}

/// `c` is one of `'0'..='9'`.
pub open spec fn is_digit(c: char) -> bool {
    48 <= (c as u32) <= 57
}

/// The value of the digit `c`.
pub open spec fn digit_value(c: char) -> nat {
    ((c as u32) - 48) as nat
}

/// Reads the digits `d` after the value `acc` already read, failing at the
/// first character that is not a digit or whose digit takes the value past
/// `max`.
pub open spec fn scan_digits(d: Seq<char>, acc: nat, max: nat) -> Result<nat, IntErrorKind>
    decreases d.len(),
{
    if d.len() == 0 {
        Ok(acc)
    } else if !is_digit(d[0]) {
        Err(IntErrorKind::InvalidDigit)
    } else if acc * 10 + digit_value(d[0]) > max {
        Err(IntErrorKind::PosOverflow)
    } else {
        scan_digits(d.drop_first(), acc * 10 + digit_value(d[0]), max)
    }
}

/// What `str::parse` gives for an unsigned integer type whose largest value
/// is `max`: an optional `+`, then one or more decimal digits.
pub open spec fn parse_unsigned(s: Seq<char>, max: nat) -> Result<nat, IntErrorKind> {
    if s.len() == 0 {
        Err(IntErrorKind::Empty)
    } else if s[0] == '+' {
        if s.len() == 1 {
            Err(IntErrorKind::InvalidDigit)
        } else {
            scan_digits(s.drop_first(), 0, max)
        }
    } else {
        scan_digits(s, 0, max)
    }
}

/// Every character of `d` is a decimal digit.
pub open spec fn all_digits(d: Seq<char>) -> bool {
    forall|i: int| 0 <= i < d.len() ==> is_digit(#[trigger] d[i])
}

/// The number that the decimal digits `d` write: each digit, from the
/// first on, shifts the number written before it one place to the left.
pub open spec fn digits_value(d: Seq<char>) -> nat
    decreases d.len(),
{
    if d.len() == 0 {
        0
    } else {
        digits_value(d.drop_last()) * 10 + digit_value(d.last())
    }
}

proof fn lemma_scan_digits_push(d: Seq<char>, c: char, acc: nat, max: nat)
    ensures
        scan_digits(d.push(c), acc, max) == match scan_digits(d, acc, max) {
            Ok(v) => scan_digits(seq![c], v, max),
            Err(e) => Err(e),
        },
    decreases d.len(),
{
    if d.len() == 0 {
        assert(d.push(c) =~= seq![c]);
    } else {
        assert(d.push(c)[0] == d[0]);
        assert(d.push(c).drop_first() =~= d.drop_first().push(c));
        if is_digit(d[0]) && acc * 10 + digit_value(d[0]) <= max {
            lemma_scan_digits_push(d.drop_first(), c, acc * 10 + digit_value(d[0]), max);
        }
    }
}

proof fn lemma_scan_all_digits(d: Seq<char>, max: nat)
    requires
        all_digits(d),
        digits_value(d) <= max,
    ensures
        scan_digits(d, 0, max) == Ok::<nat, IntErrorKind>(digits_value(d)),
    decreases d.len(),
{
    if d.len() > 0 {
        let init = d.drop_last();
        let c = d.last();
        assert(is_digit(d[d.len() - 1]));
        assert forall|i: int| 0 <= i < init.len() implies is_digit(#[trigger] init[i]) by {
            assert(init[i] == d[i]);
        }
        assert(digits_value(d) == digits_value(init) * 10 + digit_value(c));
        lemma_scan_all_digits(init, max);
        assert(d =~= init.push(c));
        lemma_scan_digits_push(init, c, 0, max);
        assert(seq![c][0] == c);
        assert(seq![c].drop_first() =~= Seq::<char>::empty());
        assert(scan_digits(seq![c].drop_first(), digits_value(d), max) == Ok::<nat, IntErrorKind>(
            digits_value(d),
        ));
        assert(scan_digits(seq![c], digits_value(init), max) == Ok::<nat, IntErrorKind>(
            digits_value(d),
        ));
    }
}

/// Reading the decimal digits `d` as an unsigned integer whose largest value
/// is `max` gives the number they write, when it is no greater than `max`.
pub proof fn lemma_parse_digits(d: Seq<char>, max: nat)
    requires
        d.len() > 0,
        all_digits(d),
        digits_value(d) <= max,
    ensures
        parse_unsigned(d, max) == Ok::<nat, IntErrorKind>(digits_value(d)),
{
    assert(is_digit(d[0]));
    lemma_scan_all_digits(d, max);
}

/// A digit is not white space.
pub proof fn lemma_digit_not_white_space(c: char)
    requires
        is_digit(c),
    ensures
        !is_white_space(c),
{
}

/// Trimming leaves a text that neither starts nor ends with white space as
/// it is.
pub proof fn lemma_trimmed_unchanged(s: Seq<char>)
    requires
        s.len() > 0,
        !is_white_space(s[0]),
        !is_white_space(s.last()),
    ensures
        trimmed(s) == s,
{
}

proof fn lemma_digit_char(d: nat)
    requires
        d < 10,
    ensures
        is_digit(digit_char(d)),
        digit_value(digit_char(d)) == d,
{
}

/// The decimal representation of `n` is one or more digits writing `n`.
pub proof fn lemma_decimal_digits(n: nat)
    ensures
        decimal(n).len() > 0,
        all_digits(decimal(n)),
        digits_value(decimal(n)) == n,
    decreases n,
{
    if n < 10 {
        lemma_digit_char(n);
        assert(decimal(n) =~= seq![digit_char(n)]);
        assert(seq![digit_char(n)].drop_last() =~= Seq::<char>::empty());
        assert(decimal(n).last() == digit_char(n));
        assert(digits_value(decimal(n)) == digits_value(Seq::<char>::empty()) * 10 + digit_value(
            digit_char(n),
        ));
    } else {
        lemma_digit_char(n % 10);
        lemma_decimal_digits(n / 10);
        let d = decimal(n);
        assert(d.drop_last() =~= decimal(n / 10));
        assert forall|i: int| 0 <= i < d.len() implies is_digit(#[trigger] d[i]) by {
            if i < d.len() - 1 {
                assert(d[i] == decimal(n / 10)[i]);
            }
        }
        assert(d.last() == digit_char(n % 10));
        assert(digits_value(d) == digits_value(decimal(n / 10)) * 10 + digit_value(
            digit_char(n % 10),
        ));
        assert((n / 10) * 10 + n % 10 == n) by (nonlinear_arith);
    }
}

/// Reads `s` as an unsigned decimal number no greater than `max`.
fn parse_bounded(s: &str, max: u64) -> (r: Result<u64, IntErrorKind>)
    ensures
        r matches Ok(v) ==> v <= max,
        r matches Ok(v) ==> parse_unsigned(s@, max as nat) == Ok::<nat, IntErrorKind>(v as nat),
        r matches Err(e) ==> parse_unsigned(s@, max as nat) == Err::<nat, IntErrorKind>(e),
{
    let chars = to_chars(s);
    let n = chars.len();
    if n == 0 {
        return Err(IntErrorKind::Empty);
    }
    let mut i: usize = 0;
    if chars[0] == '+' {
        if n == 1 {
            return Err(IntErrorKind::InvalidDigit);
        }
        i = 1;
    }
    let ghost body = s@.subrange(i as int, n as int);
    assert(body =~= if s@[0] == '+' { s@.drop_first() } else { s@ });
    let mut acc: u64 = 0;
    while i < n
        invariant
            chars@ == s@,
            n == s@.len(),
            i <= n,
            acc <= max,
            parse_unsigned(s@, max as nat) == scan_digits(
                s@.subrange(i as int, n as int),
                acc as nat,
                max as nat,
            ),
        decreases n - i,
    {
        let c = chars[i];
        let v = c as u32;
        if v < 48 || v > 57 {
            return Err(IntErrorKind::InvalidDigit);
        }
        let next: u128 = (acc as u128) * 10 + ((v - 48) as u128);
        if next > max as u128 {
            return Err(IntErrorKind::PosOverflow);
        }
        assert(s@.subrange(i as int, n as int).drop_first() =~= s@.subrange(i + 1, n as int));
        acc = next as u64;
        i += 1;
    }
    Ok(acc)
}

/// Reads `s` as a `u64` the way `s.parse::<u64>()` does.
pub fn parse_u64(s: &str) -> (r: Result<u64, IntErrorKind>)
    ensures
        r matches Ok(v) ==> parse_unsigned(s@, u64::MAX as nat) == Ok::<nat, IntErrorKind>(
            v as nat,
        ),
        r matches Err(e) ==> parse_unsigned(s@, u64::MAX as nat) == Err::<nat, IntErrorKind>(e),
{
    parse_bounded(s, u64::MAX)
}

/// Reads `s` as a `u32` the way `s.parse::<u32>()` does.
pub fn parse_u32(s: &str) -> (r: Result<u32, IntErrorKind>)
    ensures
        r matches Ok(v) ==> parse_unsigned(s@, u32::MAX as nat) == Ok::<nat, IntErrorKind>(
            v as nat,
        ),
        r matches Err(e) ==> parse_unsigned(s@, u32::MAX as nat) == Err::<nat, IntErrorKind>(e),
{
    match parse_bounded(s, u32::MAX as u64) {
        Ok(v) => Ok(v as u32),
        Err(e) => Err(e),
    }
}

/// The character of the decimal digit `d`.
pub open spec fn digit_char(d: nat) -> char {
    if d == 0 {
        '0'
    } else if d == 1 {
        '1'
    } else if d == 2 {
        '2'
    } else if d == 3 {
        '3'
    } else if d == 4 {
        '4'
    } else if d == 5 {
        '5'
    } else if d == 6 {
        '6'
    } else if d == 7 {
        '7'
    } else if d == 8 {
        '8'
    } else {
        '9'
    }
}

/// The decimal representation of `n`, without sign or leading zeros (how
/// `Display` prints an unsigned integer).
pub open spec fn decimal(n: nat) -> Seq<char>
    decreases n,
{
    if n < 10 {
        seq![digit_char(n)]
    } else {
        decimal(n / 10).push(digit_char(n % 10))
    }
}

fn digit_to_char(d: u64) -> (c: char)
    requires
        d < 10,
    ensures
        c == digit_char(d as nat),
{
    if d == 0 {
        '0'
    } else if d == 1 {
        '1'
    } else if d == 2 {
        '2'
    } else if d == 3 {
        '3'
    } else if d == 4 {
        '4'
    } else if d == 5 {
        '5'
    } else if d == 6 {
        '6'
    } else if d == 7 {
        '7'
    } else if d == 8 {
        '8'
    } else {
        '9'
    }
}

/// Appends the decimal representation of `n` to `out`.
pub fn push_decimal(out: &mut String, n: u64)
    ensures
        final(out)@ == old(out)@ + decimal(n as nat),
    decreases n,
{
    if n >= 10 {
        push_decimal(out, n / 10);
    }
    out.push(digit_to_char(n % 10));
}

/// `hay` holds `needle` starting at position `i`.
pub open spec fn occurs_at(hay: Seq<char>, needle: Seq<char>, i: int) -> bool {
    0 <= i && i + needle.len() <= hay.len() && hay.subrange(i, i + needle.len()) == needle
}

/// A text found in the middle part of a concatenation is found in the
/// whole, shifted by the length of the first part.
pub proof fn lemma_occurs_in_concat(pre: Seq<char>, mid: Seq<char>, post: Seq<char>, needle: Seq<char>, i: int)
    requires
        occurs_at(mid, needle, i),
    ensures
        occurs_at(pre + mid + post, needle, pre.len() + i),
{
    assert((pre + mid + post).subrange(pre.len() + i, pre.len() + i + needle.len()) =~= mid.subrange(
        i,
        i + needle.len(),
    ));
}

/// `hay` holds `needle` somewhere (`str::contains` with a string pattern).
pub open spec fn contains_text(hay: Seq<char>, needle: Seq<char>) -> bool {
    exists|i: int| occurs_at(hay, needle, i)
}

/// Whether `hay` contains `needle`.
pub fn contains(hay: &str, needle: &str) -> (r: bool)
    ensures
        r == contains_text(hay@, needle@),
{
    let h = to_chars(hay);
    let m = to_chars(needle);
    let hn = h.len();
    let mn = m.len();
    if mn > hn {
        assert forall|i: int| !occurs_at(hay@, needle@, i) by {}
        return false;
    }
    let mut i: usize = 0;
    while i <= hn - mn
        invariant
            h@ == hay@,
            m@ == needle@,
            hn == hay@.len(),
            mn == needle@.len(),
            mn <= hn,
            i <= hn - mn + 1,
            forall|k: int| 0 <= k < i ==> !occurs_at(hay@, needle@, k),
        decreases hn - mn + 1 - i,
    {
        let mut j: usize = 0;
        while j < mn && h[i + j] == m[j]
            invariant
                h@ == hay@,
                m@ == needle@,
                hn == hay@.len(),
                mn == needle@.len(),
                i + mn <= hn,
                j <= mn,
                forall|t: int| 0 <= t < j ==> hay@[i + t] == needle@[t],
            decreases mn - j,
        {
            j += 1;
        }
        if j == mn {
            assert(hay@.subrange(i as int, i + mn) =~= needle@);
            assert(occurs_at(hay@, needle@, i as int));
            return true;
        }
        assert(hay@.subrange(i as int, i + mn)[j as int] != needle@[j as int]);
        i += 1;
    }
    assert forall|k: int| !occurs_at(hay@, needle@, k) by {
        if 0 <= k < i {
        }
    }
    false
}

} // verus!
