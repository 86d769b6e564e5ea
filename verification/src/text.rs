//! Small text conversions: decimal numbers, hexadecimal bytes, characters.

use vstd::prelude::*;
use vstd::string::{StrSliceExecFns, StringExecFns};

verus! {

/// The character of the decimal digit `d`.
pub open spec fn digit_char(d: nat) -> char {
    (0x30 + d) as char
}

/// Whether `c` is a decimal digit.
pub open spec fn is_digit(c: char) -> bool {
    '0' <= c <= '9'
}

/// The decimal numeral of `n`, without leading zeros.
pub open spec fn decimal(n: nat) -> Seq<char>
    decreases n,
{
    if n < 10 {
        seq![digit_char(n)]
    } else {
        decimal(n / 10).push(digit_char(n % 10))
    }
}

/// The number that a string of decimal digits stands for.
pub open spec fn decimal_value(s: Seq<char>) -> nat
    decreases s.len(),
{
    if s.len() == 0 {
        0
    } else {
        (decimal_value(s.drop_last()) * 10 + (s.last() as nat - 0x30)) as nat
    }
}

/// The digits of a numeral: `s` without one leading plus sign.
pub open spec fn numeral_digits(s: Seq<char>) -> Seq<char> {
    if s.len() > 0 && s[0] == '+' {
        s.subrange(1, s.len() as int)
    } else {
        s
    }
}

/// The 16-bit number that `s` spells: an optional plus sign, then one or
/// more decimal digits whose value fits.
pub open spec fn u16_numeral(s: Seq<char>) -> Option<u16> {
    let digits = numeral_digits(s);
    if digits.len() > 0 && (forall|i: int| 0 <= i < digits.len() ==> is_digit(#[trigger] digits[i]))
        && decimal_value(digits) <= u16::MAX {
        Some(decimal_value(digits) as u16)
    } else {
        None
    }
}

/// The lower-case hexadecimal digit of a nibble.
pub open spec fn hex_char(d: nat) -> char {
    if d < 10 {
        (0x30 + d) as char
    } else {
        (0x57 + d) as char
    }
}

/// Lower-case hexadecimal text of `bytes`, two digits per byte.
pub open spec fn hex_text(bytes: Seq<u8>) -> Seq<char>
    decreases bytes.len(),
{
    if bytes.len() == 0 {
        Seq::empty()
    } else {
        hex_text(bytes.drop_last()) + seq![
            hex_char(bytes.last() as nat / 16),
            hex_char(bytes.last() as nat % 16),
        ]
    }
}

/// A prefix of a numeral stands for no more than the whole numeral.
proof fn lemma_decimal_value_prefix(s: Seq<char>, i: int)
    requires
        0 <= i <= s.len(),
        forall|k: int| 0 <= k < s.len() ==> is_digit(#[trigger] s[k]),
    ensures
        decimal_value(s.subrange(0, i)) <= decimal_value(s),
    decreases s.len() - i,
{
    if i == s.len() {
        assert(s.subrange(0, i) =~= s);
    } else {
        lemma_decimal_value_prefix(s, i + 1);
        let longer = s.subrange(0, i + 1);
        assert(longer.drop_last() =~= s.subrange(0, i));
        assert(is_digit(s[i]));
        assert(longer.last() == s[i]);
    }
}

/// Reading a decimal numeral gives back the number it was written from.
pub proof fn law_decimal_roundtrip(n: nat)
    ensures
        decimal_value(decimal(n)) == n,
        decimal(n).len() > 0,
        forall|i: int| 0 <= i < decimal(n).len() ==> is_digit(#[trigger] decimal(n)[i]),
    decreases n,
{
    if n < 10 {
        let s = decimal(n);
        assert(s.drop_last() =~= Seq::empty());
        assert(decimal_value(s.drop_last()) == 0);
    } else {
        law_decimal_roundtrip(n / 10);
        assert(decimal(n).drop_last() =~= decimal(n / 10));
    }
}

/// Every 16-bit number is read back from its decimal numeral.
pub proof fn law_u16_numeral_roundtrip(n: u16)
    ensures
        u16_numeral(decimal(n as nat)) == Some(n),
{
    law_decimal_roundtrip(n as nat);
    assert(is_digit(decimal(n as nat)[0]));
}

/// The characters of `s`, in order.
pub fn chars_of(s: &str) -> (out: Vec<char>)
    ensures
        out@ == s@,
{
    let mut out: Vec<char> = Vec::new();
    for c in it: s.chars()
        invariant
            out@ == it.seq().take(it.index() as int),
            it.seq() == s@,
    {
        out.push(c);
    }
    out
}

/// Appends the decimal numeral of `n` to `out`.
pub fn push_decimal(out: &mut String, n: u64)
    ensures
        final(out)@ == old(out)@ + decimal(n as nat),
    decreases n,
{
    proof {
        reveal_strlit("0123456789");
    }
    let ghost before = out@;
    if n >= 10 {
        push_decimal(out, n / 10);
    }
    let d: usize = (n % 10) as usize;
    let digit = "0123456789".substring_ascii(d, d + 1);
    out.append(digit);
    assert(digit@ =~= seq![digit_char(d as nat)]);
    assert(out@ =~= before + decimal(n as nat));
}

/// Reads a 16-bit number: an optional plus sign, then decimal digits.
pub fn parse_u16(s: &[char]) -> (r: Option<u16>)
    ensures
        r == u16_numeral(s@),
{
    let start: usize = if s.len() > 0 && s[0] == '+' {
        1
    } else {
        0
    };
    let ghost digits = numeral_digits(s@);
    assert(digits =~= s@.subrange(start as int, s.len() as int));
    if s.len() == start {
        return None;
    }
    let mut value: u32 = 0;
    let mut i: usize = start;
    assert(digits.subrange(0, 0) =~= Seq::<char>::empty());
    while i < s.len()
        invariant
            start <= i <= s.len(),
            digits == s@.subrange(start as int, s.len() as int),
            digits == numeral_digits(s@),
            digits.len() > 0,
            value <= u16::MAX,
            value == decimal_value(digits.subrange(0, i - start)),
            forall|k: int| 0 <= k < i - start ==> is_digit(#[trigger] digits[k]),
        decreases s.len() - i,
    {
        let c = s[i];
        assert(c == digits[i - start]);
        if !('0' <= c && c <= '9') {
            return None;
        }
        let d: u32 = c as u32 - 0x30;
        value = value * 10 + d;
        proof {
            let longer = digits.subrange(0, i + 1 - start);
            assert(longer.drop_last() =~= digits.subrange(0, i - start));
            assert(longer.last() == c);
        }
        i += 1;
        if value > u16::MAX as u32 {
            proof {
                if forall|k: int| 0 <= k < digits.len() ==> is_digit(#[trigger] digits[k]) {
                    lemma_decimal_value_prefix(digits, i - start);
                }
            }
            return None;
        }
    }
    assert(digits.subrange(0, i - start) =~= digits);
    Some(value as u16)
}

/// Appends the lower-case hexadecimal text of `bytes` to `out`.
pub fn push_hex(out: &mut String, bytes: &[u8])
    ensures
        final(out)@ == old(out)@ + hex_text(bytes@),
{
    proof {
        reveal_strlit("0123456789abcdef");
    }
    let ghost before = out@;
    let mut i: usize = 0;
    assert(bytes@.subrange(0, 0) =~= Seq::<u8>::empty());
    assert(out@ =~= before + hex_text(bytes@.subrange(0, 0)));
    while i < bytes.len()
        invariant
            i <= bytes.len(),
            out@ == before + hex_text(bytes@.subrange(0, i as int)),
            "0123456789abcdef"@.len() == 16,
            "0123456789abcdef".is_ascii(),
            forall|d: int| 0 <= d < 16 ==> #[trigger] "0123456789abcdef"@[d] == hex_char(d as nat),
        decreases bytes.len() - i,
    {
        let hi: usize = (bytes[i] / 16) as usize;
        let lo: usize = (bytes[i] % 16) as usize;
        let ghost prev = out@;
        let hi_text = "0123456789abcdef".substring_ascii(hi, hi + 1);
        let lo_text = "0123456789abcdef".substring_ascii(lo, lo + 1);
        out.append(hi_text);
        out.append(lo_text);
        proof {
            let longer = bytes@.subrange(0, i + 1);
            assert(longer.drop_last() =~= bytes@.subrange(0, i as int));
            assert(hi_text@ =~= seq![hex_char(bytes@[i as int] as nat / 16)]);
            assert(lo_text@ =~= seq![hex_char(bytes@[i as int] as nat % 16)]);
            assert(out@ =~= before + hex_text(longer));
        }
        i += 1;
    }
    assert(bytes@.subrange(0, i as int) =~= bytes@);
}

/// Whether `s` is made of decimal digits only.
pub open spec fn all_digits(s: Seq<char>) -> bool {
    forall|i: int| 0 <= i < s.len() ==> is_digit(#[trigger] s[i])
}

/// One more digit at the end of a numeral is worth itself, and makes every
/// digit before it worth ten times as much.
pub proof fn law_digit_appended(s: Seq<char>, c: char)
    requires
        is_digit(c),
    ensures
        decimal_value(s.push(c)) == decimal_value(s) * 10 + (c as int - '0' as int),
        decimal_value(Seq::empty()) == 0,
{
    assert(s.push(c).drop_last() =~= s);
}

/// A zero in front of a numeral is worth nothing.
pub proof fn law_leading_zero(s: Seq<char>)
    requires
        all_digits(s),
    ensures
        decimal_value(seq!['0'] + s) == decimal_value(s),
    decreases s.len(),
{
    let t = seq!['0'] + s;
    if s.len() == 0 {
        assert(t.drop_last() =~= s);
        assert(t.last() == '0');
    } else {
        let init = s.drop_last();
        assert forall|i: int| 0 <= i < init.len() implies is_digit(#[trigger] init[i]) by {
            assert(init[i] == s[i]);
        }
        law_leading_zero(init);
        assert(t.drop_last() =~= seq!['0'] + init);
        assert(t.last() == s.last());
    }
}

proof fn lemma_decimal_value_grows(s: Seq<char>)
    requires
        s.len() > 0,
        all_digits(s),
        s[0] != '0',
    ensures
        decimal_value(s) >= 1,
        s.len() > 1 ==> decimal_value(s) >= 10,
    decreases s.len(),
{
    let init = s.drop_last();
    assert(is_digit(s[0]) && is_digit(s.last()));
    if s.len() > 1 {
        assert forall|i: int| 0 <= i < init.len() implies is_digit(#[trigger] init[i]) by {
            assert(init[i] == s[i]);
        }
        assert(init[0] == s[0]);
        lemma_decimal_value_grows(init);
    } else {
        assert(s.last() == s[0]);
        assert(decimal_value(init) == 0);
    }
}

/// A numeral without leading zeros is the one that is written for its value.
pub proof fn law_numeral_canonical(s: Seq<char>)
    requires
        s.len() > 0,
        all_digits(s),
        s[0] != '0' || s.len() == 1,
    ensures
        decimal(decimal_value(s)) == s,
    decreases s.len(),
{
    let init = s.drop_last();
    let d = s.last();
    assert(is_digit(s[s.len() - 1]));
    if s.len() == 1 {
        assert(decimal_value(init) == 0);
        assert(decimal(decimal_value(s)) =~= s);
    } else {
        assert forall|i: int| 0 <= i < init.len() implies is_digit(#[trigger] init[i]) by {
            assert(init[i] == s[i]);
        }
        assert(init[0] == s[0]);
        law_numeral_canonical(init);
        lemma_decimal_value_grows(init);
        let n = decimal_value(s);
        assert(n / 10 == decimal_value(init));
        assert(n % 10 == d as nat - 0x30);
        assert(decimal(n) =~= s);
    }
}

/// What is appended for a number are digits that are worth the number, with no
/// zero in front that is not needed.
pub proof fn law_number_written(out: &mut String, n: u64)
    requires
        call_ensures(push_decimal, (out, n), ()),
    ensures
        exists|digits: Seq<char>| #[trigger]
            all_digits(digits) && final(out)@ == old(out)@ + digits && decimal_value(digits) == n
                && digits.len() > 0 && (digits[0] == '0' ==> digits.len() == 1),
{
    let digits = decimal(n as nat);
    law_decimal_roundtrip(n as nat);
    lemma_no_leading_zero(n as nat);
    assert(all_digits(digits));
}

proof fn lemma_no_leading_zero(n: nat)
    ensures
        decimal(n)[0] == '0' ==> n == 0 && decimal(n).len() == 1,
        n > 0 ==> decimal(n)[0] != '0',
    decreases n,
{
    if n >= 10 {
        lemma_no_leading_zero(n / 10);
        law_decimal_roundtrip(n / 10);
        assert(decimal(n)[0] == decimal(n / 10)[0]);
    }
}

/// Digits are read as the number they are worth, if it fits into 16 bits.
pub proof fn law_digits_read(s: &[char], r: Option<u16>)
    requires
        call_ensures(parse_u16, (s,), r),
        s@.len() > 0,
        all_digits(s@),
    ensures
        decimal_value(s@) <= 65535 ==> r is Some && r->0 == decimal_value(s@),
        decimal_value(s@) > 65535 ==> r is None,
{
    assert(is_digit(s@[0]));
}

/// One plus sign in front makes no difference to digits.
pub proof fn law_plus_sign_read(s: &[char], r: Option<u16>, digits: Seq<char>)
    requires
        call_ensures(parse_u16, (s,), r),
        s@ == seq!['+'] + digits,
        digits.len() > 0,
        all_digits(digits),
    ensures
        r == u16_numeral(digits),
        decimal_value(digits) <= 65535 ==> r is Some && r->0 == decimal_value(digits),
        decimal_value(digits) > 65535 ==> r is None,
{
    assert(s@.subrange(1, s@.len() as int) =~= digits);
    assert(is_digit(digits[0]));
}

/// What holds no digit, or anything but digits behind the sign, is no number.
pub proof fn law_no_number_read(s: &[char], r: Option<u16>)
    requires
        call_ensures(parse_u16, (s,), r),
        s@.len() == 0 || s@ == seq!['+'] || (exists|i: int|
            0 < i < s@.len() && !is_digit(#[trigger] s@[i])) || !(is_digit(s@[0]) || s@[0] == '+'),
    ensures
        r is None,
{
    if s@.len() > 0 {
        let digits = numeral_digits(s@);
        if s@ == seq!['+'] {
            assert(digits.len() == 0);
        } else if exists|i: int| 0 < i < s@.len() && !is_digit(#[trigger] s@[i]) {
            let i = choose|i: int| 0 < i < s@.len() && !is_digit(#[trigger] s@[i]);
            if s@[0] == '+' {
                assert(digits[i - 1] == s@[i]);
            } else {
                assert(digits[i] == s@[i]);
            }
        } else {
            assert(digits[0] == s@[0]);
        }
    }
}

/// Two characters are appended for each byte: the hexadecimal digits of its high
/// and of its low half.
pub proof fn law_hex_written(out: &mut String, bytes: &[u8], i: int)
    requires
        call_ensures(push_hex, (out, bytes), ()),
        0 <= i < bytes@.len(),
    ensures
        final(out)@.len() == old(out)@.len() + 2 * bytes@.len(),
        final(out)@.take(old(out)@.len() as int) == old(out)@,
        final(out)@[old(out)@.len() + 2 * i] == "0123456789abcdef"@[bytes@[i] as int / 16],
        final(out)@[old(out)@.len() + 2 * i + 1] == "0123456789abcdef"@[bytes@[i] as int % 16],
{
    lemma_hex_digits(bytes@, i);
    assert(final(out)@.take(old(out)@.len() as int) =~= old(out)@);
}

proof fn lemma_hex_digits(bytes: Seq<u8>, i: int)
    requires
        0 <= i < bytes.len(),
    ensures
        hex_text(bytes).len() == 2 * bytes.len(),
        hex_text(bytes)[2 * i] == "0123456789abcdef"@[bytes[i] as int / 16],
        hex_text(bytes)[2 * i + 1] == "0123456789abcdef"@[bytes[i] as int % 16],
    decreases bytes.len(),
{
    reveal_strlit("0123456789abcdef");
    let init = bytes.drop_last();
    if init.len() == 0 {
        assert(hex_text(init).len() == 0);
    } else if i < init.len() {
        lemma_hex_digits(init, i);
    } else {
        lemma_hex_digits(init, 0);
    }
}

/// A text is taken apart into its characters, all of them and in order.
pub proof fn law_text_is_its_characters(s: &str, out: Vec<char>, i: int)
    requires
        call_ensures(chars_of, (s,), out),
        0 <= i < s@.len(),
    ensures
        out@.len() == s@.len(),
        out@[i] == s@[i],
{
}

} // verus!
