//! Decimal text of unsigned integers: formatting as `Display` does it, and
//! parsing as `str::parse::<u64>` does it.
use vstd::prelude::*;
use crate::text::push_char;

verus! {

/// The character of a decimal digit `d < 10`.
pub open spec fn digit_char(d: nat) -> char {
    if d == 0 { '0' } else if d == 1 { '1' } else if d == 2 { '2' } else if d == 3 { '3' }
    else if d == 4 { '4' } else if d == 5 { '5' } else if d == 6 { '6' } else if d == 7 { '7' }
    else if d == 8 { '8' } else { '9' }
}

/// Decimal representation of `n`, most significant digit first, without
/// leading zeros (`0` is written as a single `'0'`).
pub open spec fn decimal_digits(n: nat) -> Seq<char>
    decreases n,
{
    if n < 10 {
        seq![digit_char(n)]
    } else {
        decimal_digits(n / 10).push(digit_char(n % 10))
    }
}

/// Why a text is not the decimal form of a `u64`, as `std::num::IntErrorKind`
/// names it.
#[derive(Debug, Clone, Copy, PartialEq, Eq)]
pub enum IntErrorKind {
    /// The text is empty.
    Empty,
    /// The text holds a character that is not a decimal digit.
    InvalidDigit,
    /// The value is larger than `u64::MAX`.
    PosOverflow,
}

/// Whether byte `b` is an ASCII decimal digit.
pub open spec fn is_digit_byte(b: u8) -> bool {
    48 <= b <= 57
}

/// Reads `s` left to right, starting from the value `acc`: the first byte that
/// is not a digit gives `InvalidDigit`, the first digit that would take the
/// value above `u64::MAX` gives `PosOverflow`.
pub open spec fn parse_digits(acc: nat, s: Seq<u8>) -> Result<nat, IntErrorKind>
    decreases s.len(),
{
    if s.len() == 0 {
        Ok(acc)
    } else if !is_digit_byte(s[0]) {
        Err(IntErrorKind::InvalidDigit)
    } else if acc * 10 + (s[0] - 48) > u64::MAX {
        Err(IntErrorKind::PosOverflow)
    } else {
        parse_digits((acc * 10 + (s[0] - 48)) as nat, s.drop_first())
    }
}

/// What `str::parse::<u64>` gives for the bytes `s`: an optional leading `+`,
/// then one or more decimal digits whose value fits in a `u64`.
pub open spec fn parse_u64_spec(s: Seq<u8>) -> Result<nat, IntErrorKind> {
    if s.len() == 0 {
        Err(IntErrorKind::Empty)
    } else if s.len() == 1 && (s[0] == 43 || s[0] == 45) {
        Err(IntErrorKind::InvalidDigit)
    } else if s[0] == 43 {
        parse_digits(0, s.drop_first())
    } else {
        parse_digits(0, s)
    }
}

/// The bytes of an ASCII text.
pub open spec fn ascii_bytes(s: Seq<char>) -> Seq<u8> {
    s.map_values(|c: char| c as u8)
}

/// Formats `n` in decimal, as `n.to_string()` does.
pub fn u64_to_decimal(n: u64) -> (text: String)
    ensures
        text@ == decimal_digits(n as nat),
{
    let mut digits: Vec<char> = Vec::new();
    let mut m: u64 = n;
    assert(decimal_digits(n as nat) =~= decimal_digits(m as nat) + digits@.reverse());
    // digits holds the low-order digits of n, least significant first
    loop
        invariant_except_break
            m <= n,
            decimal_digits(n as nat) == decimal_digits(m as nat) + digits@.reverse(),
        ensures
            decimal_digits(n as nat) == digits@.reverse(),
        decreases m,
    {
        let d: u64 = m % 10;
        let c: char = if d == 0 { '0' } else if d == 1 { '1' } else if d == 2 { '2' } else if d == 3 {
            '3'
        } else if d == 4 { '4' } else if d == 5 { '5' } else if d == 6 { '6' } else if d == 7 {
            '7'
        } else if d == 8 { '8' } else { '9' };
        assert(c == digit_char(d as nat));
        if m < 10 {
            let ghost old_digits = digits@;
            digits.push(c);
            assert(digits@.reverse() =~= seq![c] + old_digits.reverse());
            assert(decimal_digits(m as nat) =~= seq![c]);
            break;
        }
        let ghost old_digits = digits@;
        digits.push(c);
        assert(digits@.reverse() =~= seq![c] + old_digits.reverse());
        assert(decimal_digits(m as nat) == decimal_digits((m / 10) as nat).push(c));
        assert(decimal_digits((m / 10) as nat) + digits@.reverse() =~= decimal_digits(
            (m / 10) as nat,
        ).push(c) + old_digits.reverse());
        m = m / 10;
    }
    let mut text = String::new();
    let mut i: usize = digits.len();
    assert(digits@.subrange(0, i as int) =~= digits@);
    assert(text@ + digits@.subrange(0, i as int).reverse() =~= digits@.reverse());
    while i > 0
        invariant
            i <= digits@.len(),
            text@ + digits@.subrange(0, i as int).reverse() == decimal_digits(n as nat),
        decreases i,
    {
        let ghost before = text@;
        i = i - 1;
        push_char(&mut text, digits[i]);
        assert(digits@.subrange(0, i + 1).reverse() =~= seq![digits@[i as int]]
            + digits@.subrange(0, i as int).reverse());
        assert(text@ + digits@.subrange(0, i as int).reverse() =~= before + digits@.subrange(
            0,
            i + 1,
        ).reverse());
    }
    assert(digits@.subrange(0, 0).reverse() =~= Seq::<char>::empty());
    assert(text@ =~= decimal_digits(n as nat));
    text
}

/// Parses `bytes` as `str::parse::<u64>` does.
pub fn parse_u64(bytes: &[u8]) -> (res: Result<u64, IntErrorKind>)
    ensures
        match res {
            Ok(v) => parse_u64_spec(bytes@) == Ok::<nat, IntErrorKind>(v as nat),
            Err(e) => parse_u64_spec(bytes@) == Err::<nat, IntErrorKind>(e),
        },
{
    let len = bytes.len();
    if len == 0 {
        return Err(IntErrorKind::Empty);
    }
    if len == 1 && (bytes[0] == 43 || bytes[0] == 45) {
        return Err(IntErrorKind::InvalidDigit);
    }
    let start: usize = if bytes[0] == 43 { 1 } else { 0 };
    let ghost digits = bytes@.subrange(start as int, len as int);
    assert(parse_u64_spec(bytes@) == parse_digits(0, digits)) by {
        if start == 1 {
            assert(digits =~= bytes@.drop_first());
        } else {
            assert(digits =~= bytes@);
        }
    }
    assert(start == 1 ==> digits =~= bytes@.drop_first());
    assert(start == 0 ==> digits =~= bytes@);
    let mut acc: u64 = 0;
    let mut i: usize = start;
    while i < len
        invariant
            start <= i <= len,
            len == bytes@.len(),
            digits == bytes@.subrange(start as int, len as int),
            parse_u64_spec(bytes@) == parse_digits(0, digits),
            parse_digits(0, digits) == parse_digits(acc as nat, bytes@.subrange(i as int, len as int)),
        decreases len - i,
    {
        let b = bytes[i];
        let ghost rest = bytes@.subrange(i as int, len as int);
        assert(rest[0] == b);
        assert(rest.drop_first() =~= bytes@.subrange(i + 1, len as int));
        if b < 48 || b > 57 {
            return Err(IntErrorKind::InvalidDigit);
        }
        let d: u64 = (b - 48) as u64;
        if acc > 1844674407370955161 || (acc == 1844674407370955161 && d > 5) {
            return Err(IntErrorKind::PosOverflow);
        }
        acc = acc * 10 + d;
        i = i + 1;
    }
    assert(bytes@.subrange(len as int, len as int) =~= Seq::<u8>::empty());
    Ok(acc)
}

/// `parse_digits` over a concatenation reads the first part, then goes on
/// from its value.
proof fn lemma_parse_digits_append(acc: nat, s1: Seq<u8>, s2: Seq<u8>)
    ensures
        parse_digits(acc, s1 + s2) == match parse_digits(acc, s1) {
            Ok(v) => parse_digits(v, s2),
            Err(e) => Err(e),
        },
    decreases s1.len(),
{
    if s1.len() > 0 {
        assert((s1 + s2).drop_first() =~= s1.drop_first() + s2);
        assert((s1 + s2)[0] == s1[0]);
        if is_digit_byte(s1[0]) && acc * 10 + (s1[0] - 48) <= u64::MAX {
            lemma_parse_digits_append((acc * 10 + (s1[0] - 48)) as nat, s1.drop_first(), s2);
        }
    } else {
        assert(s1 + s2 =~= s2);
    }
}

/// Decimal text is made of the digits `0` to `9`, and is never empty.
pub proof fn lemma_decimal_digits_are_digits(n: nat)
    ensures
        forall|i: int|
            0 <= i < decimal_digits(n).len() ==> '0' <= #[trigger] decimal_digits(n)[i] <= '9',
        decimal_digits(n).len() >= 1,
        decimal_digits(n)[0] != '+',
    decreases n,
{
    if n >= 10 {
        lemma_decimal_digits_are_digits(n / 10);
    }
}

/// Parsing the decimal text of `n` gives `n` back.
pub proof fn lemma_parse_decimal_roundtrip(n: u64)
    ensures
        parse_u64_spec(ascii_bytes(decimal_digits(n as nat))) == Ok::<nat, IntErrorKind>(n as nat),
{
    lemma_decimal_digits_are_digits(n as nat);
    lemma_parse_digits_of_decimal(n as nat);
    let b = ascii_bytes(decimal_digits(n as nat));
    assert(b[0] == decimal_digits(n as nat)[0] as u8);
    if b.len() == 1 {
        assert(b[0] != 45u8);
    }
}

proof fn lemma_parse_digits_of_decimal(n: nat)
    requires
        n <= u64::MAX,
    ensures
        parse_digits(0, ascii_bytes(decimal_digits(n))) == Ok::<nat, IntErrorKind>(n),
    decreases n,
{
    if n < 10 {
        let b = ascii_bytes(decimal_digits(n));
        assert(b.len() == 1);
        assert(b.drop_first() =~= Seq::<u8>::empty());
        assert(b[0] == digit_char(n) as u8);
        assert(b[0] == 48 + n);
    } else {
        let q = n / 10;
        let d = n % 10;
        assert(q * 10 + d == n) by (nonlinear_arith)
            requires
                q == n / 10,
                d == n % 10,
        ;
        lemma_parse_digits_of_decimal(q);
        let front = ascii_bytes(decimal_digits(q));
        let last = seq![digit_char(d) as u8];
        assert(ascii_bytes(decimal_digits(n)) =~= front + last);
        lemma_parse_digits_append(0, front, last);
        assert(last[0] == 48 + d);
        assert(last.len() == 1);
        assert(last.drop_first() =~= Seq::<u8>::empty());
        assert(parse_digits(n, Seq::<u8>::empty()) == Ok::<nat, IntErrorKind>(n));
        assert(parse_digits(q, last) == parse_digits(n, last.drop_first()));
    }
}

/// Distinct numbers have distinct decimal texts.
pub proof fn lemma_decimal_digits_injective(a: u64, b: u64)
    requires
        decimal_digits(a as nat) == decimal_digits(b as nat),
    ensures
        a == b,
{
    lemma_parse_decimal_roundtrip(a);
    lemma_parse_decimal_roundtrip(b);
}

} // verus!
