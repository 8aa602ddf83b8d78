use crate::text::{
    back_space, chars_eq_str, decimal, digit_char, digit_to_char, push_char, push_decimal,
    skip_space, skip_spaces, to_chars, trim_end,
};
use vstd::prelude::*;
use vstd::string::*;

verus! {

/// The unit in which a byte count is shown: 0 for bytes, then one step per
/// factor of 1024 up to 4 for terabytes.
pub open spec fn unit_index(bytes: nat) -> nat {
    if bytes < 1024 {
        0
    } else if bytes < 1048576 {
        1
    } else if bytes < 1073741824 {
        2
    } else if bytes < 1099511627776 {
        3
    } else {
        4
    }
}

/// How many bytes one of the unit `unit` holds.
pub open spec fn unit_bytes(unit: nat) -> nat {
    if unit == 0 {
        1
    } else if unit == 1 {
        1024
    } else if unit == 2 {
        1048576
    } else if unit == 3 {
        1073741824
    } else {
        1099511627776
    }
}

/// The name of a unit.
pub open spec fn unit_name(unit: nat) -> Seq<char> {
    if unit == 0 {
        "B"@
    } else if unit == 1 {
        "KB"@
    } else if unit == 2 {
        "MB"@
    } else if unit == 3 {
        "GB"@
    } else {
        "TB"@
    }
}

/// The quotient `num / den` rounded to the nearest integer, a tie going to
/// the even neighbour.
pub open spec fn round_half_even(num: nat, den: nat) -> nat {
    let q = num / den;
    let r = num % den;
    if 2 * r > den || (2 * r == den && q % 2 == 1) {
        q + 1
    } else {
        q
    }
}

/// A byte count in hundredths of its unit, rounded half to even.
pub open spec fn hundredths(bytes: nat) -> nat {
    round_half_even(bytes * 100, unit_bytes(unit_index(bytes)))
}

/// The text that `format_size` gives for a byte count: the plain number and
/// `B` below 1024, else the count in the largest fitting unit up to `TB`
/// with two decimals.
pub open spec fn size_text(bytes: u64) -> Seq<char> {
    let unit = unit_index(bytes as nat);
    if unit == 0 {
        decimal(bytes as nat) + seq![' '] + unit_name(0)
    } else {
        let h = hundredths(bytes as nat);
        decimal(h / 100) + seq!['.', digit_char((h % 100) / 10), digit_char(h % 10), ' ']
            + unit_name(unit)
    }
}

/// Formats a byte count for people: `500 B`, `1.50 KB`, `1.00 GB`.
pub fn format_size(bytes: u64) -> (text: String)
    ensures
        text@ == size_text(bytes),
{
    let mut out = String::new();
    if bytes < 1024 {
        push_decimal(&mut out, bytes as u128);
        push_char(&mut out, ' ');
        out.append("B");
        assert(out@ =~= size_text(bytes));
        return out;
    }
    let (den, name): (u128, &'static str) = if bytes < 1048576 {
        (1024, "KB")
    } else if bytes < 1073741824 {
        (1048576, "MB")
    } else if bytes < 1099511627776 {
        (1073741824, "GB")
    } else {
        (1099511627776, "TB")
    };
    let num: u128 = bytes as u128 * 100;
    let q: u128 = num / den;
    let r: u128 = num % den;
    let h: u128 = if 2 * r > den || (2 * r == den && q % 2 == 1) {
        q + 1
    } else {
        q
    };
    assert(h == hundredths(bytes as nat));
    push_decimal(&mut out, h / 100);
    push_char(&mut out, '.');
    push_char(&mut out, digit_to_char(((h % 100) / 10) as u8));
    push_char(&mut out, digit_to_char((h % 10) as u8));
    push_char(&mut out, ' ');
    out.append(name);
    assert(out@ =~= size_text(bytes));
    out
}

/// Why a text is no size.
#[derive(Clone, Copy, Debug, PartialEq, Eq, Structural)]
pub enum SizeParseError {
    /// The text is empty or blank.
    Empty,
    /// The number is no plain decimal number, or it is negative.
    InvalidNumber,
    /// The unit is none of bytes, kilo, mega, giga, tera.
    UnknownUnit,
    /// The size does not fit into 64 bits.
    TooLarge,
}

/// Whether `c` is an ASCII letter.
pub open spec fn is_letter(c: char) -> bool {
    ('a' <= c && c <= 'z') || ('A' <= c && c <= 'Z')
}

/// Whether `c` is an ASCII digit.
pub open spec fn is_digit(c: char) -> bool {
    '0' <= c && c <= '9'
}

/// The value of the digit `c`.
pub open spec fn digit_value(c: char) -> nat {
    (c as u32 - '0' as u32) as nat
}

/// The first position in `from..to` that holds a letter, or `to`.
pub open spec fn find_letter(s: Seq<char>, from: int, to: int) -> int
    decreases to - from,
{
    if from < to && !is_letter(s[from]) {
        find_letter(s, from + 1, to)
    } else {
        from
    }
}

/// The first position in `from..to` that holds no digit, or `to`.
pub open spec fn skip_digits(s: Seq<char>, from: int, to: int) -> int
    decreases to - from,
{
    if from < to && is_digit(s[from]) {
        skip_digits(s, from + 1, to)
    } else {
        from
    }
}

/// The number that the digits `s[from..to]` spell.
pub open spec fn digits_value(s: Seq<char>, from: int, to: int) -> nat
    decreases to - from,
{
    if from >= to {
        0
    } else {
        digits_value(s, from, to - 1) * 10 + digit_value(s[to - 1])
    }
}

/// Ten to the power `n`.
pub open spec fn pow10(n: nat) -> nat
    decreases n,
{
    if n == 0 {
        1
    } else {
        10 * pow10((n - 1) as nat)
    }
}

/// The upper-case form of an ASCII letter; any other character as it is.
pub open spec fn upper(c: char) -> char {
    if 'a' <= c && c <= 'z' {
        ((c as u32 - 32) as u8) as char
    } else {
        c
    }
}

/// A text with its ASCII letters in upper case.
pub open spec fn upper_text(s: Seq<char>) -> Seq<char> {
    Seq::new(s.len(), |i: int| upper(s[i]))
}

/// A unit text without one `B` at its end.
pub open spec fn without_b(u: Seq<char>) -> Seq<char> {
    if u.len() > 0 && u.last() == 'B' {
        u.drop_last()
    } else {
        u
    }
}

/// How many bytes the unit with the text `u` holds, the text being in upper
/// case and without its final `B`; nothing for an unknown unit.
pub open spec fn unit_factor(u: Seq<char>) -> Option<nat> {
    if u.len() == 0 {
        Some(1)
    } else if u == "K"@ || u == "KI"@ || u == "KIB"@ || u == "KB"@ {
        Some(1024)
    } else if u == "M"@ || u == "MI"@ || u == "MIB"@ || u == "MB"@ {
        Some(1048576)
    } else if u == "G"@ || u == "GI"@ || u == "GIB"@ || u == "GB"@ {
        Some(1073741824)
    } else if u == "T"@ || u == "TI"@ || u == "TIB"@ || u == "TB"@ {
        Some(1099511627776)
    } else {
        None
    }
}

/// The most digits after the decimal point that count; further ones are ignored.
pub const FRACTION_DIGITS: usize = 18;

/// What a number text `s[from..to]` says, as whole part, digits after the
/// point that count and their number, and whether a minus sign leads it;
/// nothing where the text is no plain decimal number. A plain decimal number
/// is an optional sign, digits, and optionally a point and digits, with a
/// digit on at least one side of the point.
pub open spec fn number_parts(s: Seq<char>, from: int, to: int) -> Option<(nat, nat, nat, bool)> {
    let signed = from < to && (s[from] == '+' || s[from] == '-');
    let negative = from < to && s[from] == '-';
    let i0 = if signed {
        from + 1
    } else {
        from
    };
    let i1 = skip_digits(s, i0, to);
    let pointed = i1 < to && s[i1] == '.';
    let f0 = if pointed {
        i1 + 1
    } else {
        i1
    };
    let f1 = skip_digits(s, f0, to);
    if f1 != to || (i1 - i0) + (f1 - f0) < 1 {
        None
    } else {
        let kept = if f1 - f0 > FRACTION_DIGITS {
            FRACTION_DIGITS as int
        } else {
            f1 - f0
        };
        Some((digits_value(s, i0, i1), digits_value(s, f0, f0 + kept), kept as nat, negative))
    }
}

/// The bytes of `whole` and `fraction / 10^digits` units of `factor` bytes,
/// rounded to the nearest byte, a half upward.
pub open spec fn scaled(whole: nat, fraction: nat, digits: nat, factor: nat) -> nat {
    whole * factor + (2 * fraction * factor + pow10(digits)) / (2 * pow10(digits))
}

/// What `parse_size` makes of a text. The text is trimmed and cut before its
/// first letter into a number and a unit. The number is a plain decimal
/// number that is not below zero; the unit, whatever its case and with or
/// without a final `B`, is empty or one of K, KI, M, MI, G, GI, T, TI, each
/// step a factor of 1024. The size is the product, rounded to the nearest
/// byte, and must fit into 64 bits.
pub open spec fn parsed_size(s: Seq<char>) -> Result<u64, SizeParseError> {
    let a = skip_space(s, 0, s.len() as int);
    let b = back_space(s, a, s.len() as int);
    if a >= b {
        Err(SizeParseError::Empty)
    } else {
        let cut = find_letter(s, a, b);
        let number_end = back_space(s, a, cut);
        match number_parts(s, a, number_end) {
            None => Err(SizeParseError::InvalidNumber),
            Some((whole, fraction, digits, negative)) => if negative && (whole != 0 || fraction
                != 0) {
                Err(SizeParseError::InvalidNumber)
            } else {
                match unit_factor(without_b(upper_text(s.subrange(cut, b)))) {
                    None => Err(SizeParseError::UnknownUnit),
                    Some(factor) => {
                        let bytes = scaled(whole, fraction, digits, factor);
                        if bytes > u64::MAX {
                            Err(SizeParseError::TooLarge)
                        } else {
                            Ok(bytes as u64)
                        }
                    },
                }
            },
        }
    }
}

/// Whether `c` is an ASCII letter.
fn char_is_letter(c: char) -> (r: bool)
    ensures
        r == is_letter(c),
{
    ('a' <= c && c <= 'z') || ('A' <= c && c <= 'Z')
}

/// Whether `c` is an ASCII digit.
fn char_is_digit(c: char) -> (r: bool)
    ensures
        r == is_digit(c),
{
    '0' <= c && c <= '9'
}

/// The end of the run of digits that begins at `from`.
fn digits_end(v: &Vec<char>, from: usize, to: usize) -> (p: usize)
    requires
        from <= to <= v.len(),
    ensures
        p == skip_digits(v@, from as int, to as int),
        from <= p <= to,
        forall|k: int| from <= k < p ==> is_digit(v@[k]),
{
    let mut k = from;
    while k < to && char_is_digit(v[k])
        invariant
            from <= k <= to,
            to <= v.len(),
            skip_digits(v@, from as int, to as int) == skip_digits(v@, k as int, to as int),
            forall|j: int| from <= j < k ==> is_digit(v@[j]),
        decreases to - k,
    {
        k += 1;
    }
    k
}

/// The number that the digits `v[from..to]` spell, or nothing where it is
/// above `limit`.
fn digits_number(v: &Vec<char>, from: usize, to: usize, limit: u128) -> (n: Option<u128>)
    requires
        from <= to <= v.len(),
        forall|k: int| from <= k < to ==> is_digit(v@[k]),
        limit <= 0xffff_ffff_ffff_ffff_ffff,
    ensures
        n matches Some(x) ==> x == digits_value(v@, from as int, to as int) && x <= limit,
        n is None ==> digits_value(v@, from as int, to as int) > limit,
{
    let mut acc: u128 = 0;
    let mut k = from;
    while k < to
        invariant
            from <= k <= to,
            to <= v.len(),
            forall|j: int| from <= j < to ==> is_digit(v@[j]),
            limit <= 0xffff_ffff_ffff_ffff_ffff,
            acc == digits_value(v@, from as int, k as int),
            acc <= limit,
        decreases to - k,
    {
        let d: u128 = (v[k] as u32 - '0' as u32) as u128;
        assert(d == digit_value(v@[k as int]));
        assert(digits_value(v@, from as int, k + 1) == acc * 10 + d);
        if acc * 10 + d > limit {
            proof {
                lemma_digits_grow(v@, from as int, k + 1, to as int);
            }
            return None;
        }
        acc = acc * 10 + d;
        k += 1;
    }
    Some(acc)
}

/// The number spelled by a run of digits is no smaller than that spelled by
/// a shorter run from the same start.
pub proof fn lemma_digits_grow(s: Seq<char>, from: int, mid: int, to: int)
    requires
        from <= mid <= to,
    ensures
        digits_value(s, from, mid) <= digits_value(s, from, to),
    decreases to - mid,
{
    if mid < to {
        lemma_digits_grow(s, from, mid, to - 1);
    }
}

/// Ten to the power `n`, for powers that count.
fn power_of_ten(n: usize) -> (p: u128)
    requires
        n <= FRACTION_DIGITS,
    ensures
        p == pow10(n as nat),
        1 <= p <= 1_000_000_000_000_000_000,
{
    let mut p: u128 = 1;
    let mut k: usize = 0;
    while k < n
        invariant
            k <= n <= FRACTION_DIGITS,
            p == pow10(k as nat),
        decreases n - k,
    {
        proof {
            lemma_pow10_upto(k as nat);
        }
        p = p * 10;
        k += 1;
    }
    proof {
        lemma_pow10_upto(n as nat);
        lemma_pow10_positive(n as nat);
    }
    p
}

/// Powers of ten are at least one.
proof fn lemma_pow10_positive(n: nat)
    ensures
        pow10(n) >= 1,
    decreases n,
{
    if n > 0 {
        lemma_pow10_positive((n - 1) as nat);
    }
}

/// The upper-case form of an ASCII letter; any other character as it is.
fn to_upper(c: char) -> (u: char)
    ensures
        u == upper(c),
{
    if 'a' <= c && c <= 'z' {
        ((c as u32 - 32) as u8) as char
    } else {
        c
    }
}

/// What a number text is made of, as `number_parts` says it; a whole part
/// above 64 bits comes back as nothing.
fn read_number(v: &Vec<char>, from: usize, to: usize) -> (r: Option<
    (Option<u128>, u128, usize, bool),
>)
    requires
        from <= to <= v.len(),
    ensures
        number_parts(v@, from as int, to as int) is None <==> r is None,
        r matches Some(parts) ==> {
            let spec_parts = number_parts(v@, from as int, to as int)->0;
            &&& parts.1 == spec_parts.1
            &&& parts.2 == spec_parts.2
            &&& parts.3 == spec_parts.3
            &&& parts.2 <= FRACTION_DIGITS
            &&& parts.1 <= 999_999_999_999_999_999
            &&& parts.0 matches Some(w) ==> w == spec_parts.0 && w <= 0xffff_ffff_ffff_ffff
            &&& parts.0 is None ==> spec_parts.0 > 0xffff_ffff_ffff_ffff
        },
{
    let signed = from < to && (v[from] == '+' || v[from] == '-');
    let negative = from < to && v[from] == '-';
    let i0 = if signed {
        from + 1
    } else {
        from
    };
    let i1 = digits_end(v, i0, to);
    let pointed = i1 < to && v[i1] == '.';
    let f0 = if pointed {
        i1 + 1
    } else {
        i1
    };
    let f1 = digits_end(v, f0, to);
    if f1 != to || (i1 - i0) + (f1 - f0) < 1 {
        return None;
    }
    let kept: usize = if f1 - f0 > FRACTION_DIGITS {
        FRACTION_DIGITS
    } else {
        f1 - f0
    };
    let whole = digits_number(v, i0, i1, 0xffff_ffff_ffff_ffff);
    proof {
        lemma_digits_bound(v@, f0 as int, f0 + kept);
    }
    let fraction = match digits_number(v, f0, f0 + kept, 999_999_999_999_999_999) {
        Some(f) => f,
        None => 0,
    };
    Some((whole, fraction, kept, negative))
}

/// How many bytes the unit `v[from..to]` holds, as `unit_factor` says it.
fn read_unit(v: &Vec<char>, from: usize, to: usize) -> (r: Option<u128>)
    requires
        from <= to <= v.len(),
    ensures
        r matches Some(f) ==> unit_factor(
            without_b(upper_text(v@.subrange(from as int, to as int))),
        ) == Some(f as nat) && 1 <= f <= 1099511627776,
        r is None ==> unit_factor(without_b(upper_text(v@.subrange(from as int, to as int))))
            is None,
{
    let mut unit: Vec<char> = Vec::new();
    let mut k = from;
    while k < to
        invariant
            from <= k <= to,
            to <= v.len(),
            unit@ == upper_text(v@.subrange(from as int, k as int)),
        decreases to - k,
    {
        unit.push(to_upper(v[k]));
        assert(unit@ =~= upper_text(v@.subrange(from as int, k + 1)));
        k += 1;
    }
    if unit.len() > 0 && unit[unit.len() - 1] == 'B' {
        unit.pop();
    }
    assert(unit@ =~= without_b(upper_text(v@.subrange(from as int, to as int))));
    if unit.len() == 0 {
        Some(1)
    } else if chars_eq_str(&unit, "K") || chars_eq_str(&unit, "KI") || chars_eq_str(&unit, "KIB")
        || chars_eq_str(&unit, "KB") {
        Some(1024)
    } else if chars_eq_str(&unit, "M") || chars_eq_str(&unit, "MI") || chars_eq_str(&unit, "MIB")
        || chars_eq_str(&unit, "MB") {
        Some(1048576)
    } else if chars_eq_str(&unit, "G") || chars_eq_str(&unit, "GI") || chars_eq_str(&unit, "GIB")
        || chars_eq_str(&unit, "GB") {
        Some(1073741824)
    } else if chars_eq_str(&unit, "T") || chars_eq_str(&unit, "TI") || chars_eq_str(&unit, "TIB")
        || chars_eq_str(&unit, "TB") {
        Some(1099511627776)
    } else {
        None
    }
}

/// The bytes of `whole` and `fraction / 10^digits` units of `factor` bytes,
/// rounded to the nearest byte.
fn scale(whole: u128, fraction: u128, digits: usize, factor: u128) -> (bytes: u128)
    requires
        whole <= 0xffff_ffff_ffff_ffff,
        fraction <= 999_999_999_999_999_999,
        digits <= FRACTION_DIGITS,
        1 <= factor <= 1099511627776,
    ensures
        bytes == scaled(whole as nat, fraction as nat, digits as nat, factor as nat),
{
    let scale = power_of_ten(digits);
    assert(whole * factor <= 0xffff_ffff_ffff_ffff * 1099511627776) by (nonlinear_arith)
        requires
            whole <= 0xffff_ffff_ffff_ffff,
            factor <= 1099511627776,
    ;
    assert(fraction * factor <= 999_999_999_999_999_999 * 1099511627776) by (nonlinear_arith)
        requires
            fraction <= 999_999_999_999_999_999,
            factor <= 1099511627776,
    ;
    let part: u128 = (2 * (fraction * factor) + scale) / (2 * scale);
    assert(2 * (fraction * factor) == 2 * fraction * factor) by (nonlinear_arith);
    whole * factor + part
}

/// Parses a size written for people, such as `1024`, `10KB`, `10 kb` or
/// `1.5GiB`, into bytes.
pub fn parse_size(input: &str) -> (r: Result<u64, SizeParseError>)
    ensures
        r == parsed_size(input@),
{
    let v = to_chars(input);
    let n = v.len();
    let a = skip_spaces(&v, 0, n);
    let b = trim_end(&v, a, n);
    if a >= b {
        return Err(SizeParseError::Empty);
    }
    let mut cut = a;
    while cut < b && !char_is_letter(v[cut])
        invariant
            a <= cut <= b,
            b <= v.len(),
            find_letter(v@, a as int, b as int) == find_letter(v@, cut as int, b as int),
        decreases b - cut,
    {
        cut += 1;
    }
    let number_end = trim_end(&v, a, cut);
    let (whole, fraction, digits, negative) = match read_number(&v, a, number_end) {
        Some(parts) => parts,
        None => {
            return Err(SizeParseError::InvalidNumber);
        },
    };
    let is_zero = match whole {
        Some(w) => w == 0 && fraction == 0,
        None => false,
    };
    if negative && !is_zero {
        return Err(SizeParseError::InvalidNumber);
    }
    let factor = match read_unit(&v, cut, b) {
        Some(f) => f,
        None => {
            return Err(SizeParseError::UnknownUnit);
        },
    };
    let w = match whole {
        Some(w) => w,
        None => {
            proof {
                let parts = number_parts(v@, a as int, number_end as int).unwrap();
                let big = parts.0;
                assert(big * (factor as nat) >= big) by (nonlinear_arith)
                    requires
                        factor >= 1,
                ;
                lemma_pow10_positive(parts.2);
                let rest = (2 * parts.1 * (factor as nat) + pow10(parts.2)) / (2 * pow10(parts.2));
                assert(rest >= 0);
                assert(scaled(big, parts.1, parts.2, factor as nat) == big * (factor as nat)
                    + rest);
            }
            return Err(SizeParseError::TooLarge);
        },
    };
    let bytes = scale(w, fraction, digits, factor);
    if bytes > 0xffff_ffff_ffff_ffff {
        Err(SizeParseError::TooLarge)
    } else {
        Ok(bytes as u64)
    }
}

/// A run of at most eighteen digits spells a number below ten to the
/// eighteenth.
proof fn lemma_digits_bound(s: Seq<char>, from: int, to: int)
    requires
        from <= to <= from + 18,
        forall|k: int| from <= k < to ==> is_digit(s[k]),
    ensures
        digits_value(s, from, to) < pow10((to - from) as nat),
        pow10((to - from) as nat) <= 1_000_000_000_000_000_000,
    decreases to - from,
{
    if from < to {
        lemma_digits_bound(s, from, to - 1);
        assert(digit_value(s[to - 1]) <= 9);
    }
    lemma_pow10_upto((to - from) as nat);
}

/// Ten to a power of at most eighteen is at most ten to the eighteenth.
proof fn lemma_pow10_upto(n: nat)
    requires
        n <= 18,
    ensures
        pow10(n) <= 1_000_000_000_000_000_000,
{
    reveal_with_fuel(pow10, 20);
}

} // verus!
