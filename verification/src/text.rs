use vstd::prelude::*;
use vstd::string::*;

verus! {

/// Appends one character to a string.
///
/// Calls `String::push`; the standard library documents that the character is
/// appended at the end and nothing else changes.
#[verifier::external_body]
pub(crate) fn push_char(s: &mut String, c: char)
    ensures
        final(s)@ == old(s)@.push(c),
{
    s.push(c)
}

/// The characters of `s`, in order.
pub fn to_chars(s: &str) -> (v: Vec<char>)
    ensures
        v@ == s@,
{
    let n = s.unicode_len();
    let mut v: Vec<char> = Vec::new();
    let mut i: usize = 0;
    while i < n
        invariant
            i <= n,
            n == s@.len(),
            v@ == s@.subrange(0, i as int),
        decreases n - i,
    {
        v.push(s.get_char(i));
        i += 1;
    }
    v
}

/// Whether two character sequences are equal.
pub fn chars_eq(a: &Vec<char>, b: &Vec<char>) -> (r: bool)
    ensures
        r == (a@ == b@),
{
    if a.len() != b.len() {
        return false;
    }
    let mut i: usize = 0;
    while i < a.len()
        invariant
            i <= a.len(),
            a.len() == b.len(),
            a@.subrange(0, i as int) == b@.subrange(0, i as int),
        decreases a.len() - i,
    {
        if a[i] != b[i] {
            return false;
        }
        assert(a@.subrange(0, i + 1) == a@.subrange(0, i as int).push(a@[i as int]));
        assert(b@.subrange(0, i + 1) == b@.subrange(0, i as int).push(b@[i as int]));
        i += 1;
    }
    assert(a@.subrange(0, a.len() as int) == a@);
    assert(b@.subrange(0, b.len() as int) == b@);
    true
}

/// Whether `text` begins with `prefix`.
pub fn chars_start_with(text: &Vec<char>, prefix: &Vec<char>) -> (r: bool)
    ensures
        r == prefix@.is_prefix_of(text@),
{
    if prefix.len() > text.len() {
        return false;
    }
    let mut i: usize = 0;
    while i < prefix.len()
        invariant
            i <= prefix.len(),
            prefix.len() <= text.len(),
            forall|k: int| 0 <= k < i ==> text@[k] == prefix@[k],
        decreases prefix.len() - i,
    {
        if text[i] != prefix[i] {
            return false;
        }
        i += 1;
    }
    assert(prefix@ =~= text@.subrange(0, prefix@.len() as int));
    true
}

/// Whether the characters `v` spell the text `s`.
pub fn chars_eq_str(v: &Vec<char>, s: &str) -> (r: bool)
    ensures
        r == (v@ == s@),
{
    let t = to_chars(s);
    chars_eq(v, &t)
}

/// Whether the characters `v` begin with the text `prefix`.
pub fn chars_start_with_str(v: &Vec<char>, prefix: &str) -> (r: bool)
    ensures
        r == prefix@.is_prefix_of(v@),
{
    let t = to_chars(prefix);
    chars_start_with(v, &t)
}

/// Whether `c` occurs in `v`.
pub fn chars_contain(v: &Vec<char>, c: char) -> (r: bool)
    ensures
        r == v@.contains(c),
{
    let mut i: usize = 0;
    while i < v.len()
        invariant
            i <= v.len(),
            forall|k: int| 0 <= k < i ==> v@[k] != c,
        decreases v.len() - i,
    {
        if v[i] == c {
            return true;
        }
        i += 1;
    }
    false
}

/// Whether `c` is white space: a blank, a tab, a line break of any kind, or
/// one of the other spaces of Unicode.
pub open spec fn is_space(c: char) -> bool {
    c == ' ' || ('\t' <= c && c <= '\r') || c == '\u{85}' || c == '\u{A0}' || c == '\u{1680}' || (
    '\u{2000}' <= c && c <= '\u{200A}') || c == '\u{2028}' || c == '\u{2029}' || c == '\u{202F}'
        || c == '\u{205F}' || c == '\u{3000}'
}

/// Whether `c` is white space.
pub fn char_is_space(c: char) -> (r: bool)
    ensures
        r == is_space(c),
{
    c == ' ' || ('\t' <= c && c <= '\r') || c == '\u{85}' || c == '\u{A0}' || c == '\u{1680}' || (
    '\u{2000}' <= c && c <= '\u{200A}') || c == '\u{2028}' || c == '\u{2029}' || c == '\u{202F}'
        || c == '\u{205F}' || c == '\u{3000}'
}

/// The first position in `from..to` that holds `c`, or `to` if none does.
pub open spec fn find_char(s: Seq<char>, c: char, from: int, to: int) -> int
    decreases to - from,
{
    if from < to && s[from] != c {
        find_char(s, c, from + 1, to)
    } else {
        from
    }
}

/// The first position in `from..to` that holds no white space, or `to`.
pub open spec fn skip_space(s: Seq<char>, from: int, to: int) -> int
    decreases to - from,
{
    if from < to && is_space(s[from]) {
        skip_space(s, from + 1, to)
    } else {
        from
    }
}

/// The end of `from..to` once the white space at its end is cut off.
pub open spec fn back_space(s: Seq<char>, from: int, to: int) -> int
    decreases to - from,
{
    if from < to && is_space(s[to - 1]) {
        back_space(s, from, to - 1)
    } else {
        to
    }
}

/// The first position in `from..to` that holds white space, or `to`.
pub open spec fn find_space(s: Seq<char>, from: int, to: int) -> int
    decreases to - from,
{
    if from < to && !is_space(s[from]) {
        find_space(s, from + 1, to)
    } else {
        from
    }
}

/// The first position in `from..to` of `v` that holds `c`, or `to`.
pub fn position_of(v: &Vec<char>, c: char, from: usize, to: usize) -> (p: usize)
    requires
        from <= to <= v.len(),
    ensures
        p == find_char(v@, c, from as int, to as int),
        from <= p <= to,
{
    let mut k = from;
    while k < to && v[k] != c
        invariant
            from <= k <= to,
            to <= v.len(),
            find_char(v@, c, from as int, to as int) == find_char(v@, c, k as int, to as int),
        decreases to - k,
    {
        k += 1;
    }
    k
}

/// The first position in `from..to` of `v` that holds no white space, or `to`.
pub fn skip_spaces(v: &Vec<char>, from: usize, to: usize) -> (p: usize)
    requires
        from <= to <= v.len(),
    ensures
        p == skip_space(v@, from as int, to as int),
        from <= p <= to,
{
    let mut k = from;
    while k < to && char_is_space(v[k])
        invariant
            from <= k <= to,
            to <= v.len(),
            skip_space(v@, from as int, to as int) == skip_space(v@, k as int, to as int),
        decreases to - k,
    {
        k += 1;
    }
    k
}

/// The end of `from..to` of `v` once trailing white space is cut off.
pub fn trim_end(v: &Vec<char>, from: usize, to: usize) -> (p: usize)
    requires
        from <= to <= v.len(),
    ensures
        p == back_space(v@, from as int, to as int),
        from <= p <= to,
{
    let mut k = to;
    while from < k && char_is_space(v[k - 1])
        invariant
            from <= k <= to,
            to <= v.len(),
            back_space(v@, from as int, to as int) == back_space(v@, from as int, k as int),
        decreases k - from,
    {
        k -= 1;
    }
    k
}

/// The first position in `from..to` of `v` that holds white space, or `to`.
pub fn find_spaces(v: &Vec<char>, from: usize, to: usize) -> (p: usize)
    requires
        from <= to <= v.len(),
    ensures
        p == find_space(v@, from as int, to as int),
        from <= p <= to,
{
    let mut k = from;
    while k < to && !char_is_space(v[k])
        invariant
            from <= k <= to,
            to <= v.len(),
            find_space(v@, from as int, to as int) == find_space(v@, k as int, to as int),
        decreases to - k,
    {
        k += 1;
    }
    k
}

/// The string spelled by `v[from..to]`.
pub fn slice_to_string(v: &Vec<char>, from: usize, to: usize) -> (s: String)
    requires
        from <= to <= v.len(),
    ensures
        s@ == v@.subrange(from as int, to as int),
{
    let mut s = String::new();
    let mut i: usize = from;
    while i < to
        invariant
            from <= i <= to,
            to <= v.len(),
            s@ == v@.subrange(from as int, i as int),
        decreases to - i,
    {
        push_char(&mut s, v[i]);
        assert(v@.subrange(from as int, i + 1) == v@.subrange(from as int, i as int).push(
            v@[i as int],
        ));
        i += 1;
    }
    s
}

/// The texts of a list of strings, in order.
pub open spec fn string_texts(v: Seq<String>) -> Seq<Seq<char>> {
    Seq::new(v.len(), |i: int| v[i]@)
}

/// Whether one of the first `upto` strings of `list` spells `text`.
pub fn text_in_list(list: &Vec<String>, upto: usize, text: &str) -> (found: bool)
    requires
        upto <= list.len(),
    ensures
        found == string_texts(list@).subrange(0, upto as int).contains(text@),
{
    let wanted = to_chars(text);
    let ghost texts = string_texts(list@).subrange(0, upto as int);
    let mut i: usize = 0;
    while i < upto
        invariant
            i <= upto <= list.len(),
            wanted@ == text@,
            texts == string_texts(list@).subrange(0, upto as int),
            forall|k: int| 0 <= k < i ==> texts[k] != text@,
        decreases upto - i,
    {
        if chars_eq_str(&wanted, list[i].as_str()) {
            assert(texts[i as int] == text@);
            return true;
        }
        i += 1;
    }
    false
}

/// The character of a decimal digit.
pub open spec fn digit_char(d: nat) -> char {
    if d == 0 {
        '0'
    } else if d == 1 {
        '1'
    } else if d == 2 {
        '2'
    } else if d == 3 {
        '3'
    } else if d == 4 {
        '4'
    } else if d == 5 {
        '5'
    } else if d == 6 {
        '6'
    } else if d == 7 {
        '7'
    } else if d == 8 {
        '8'
    } else {
        '9'
    }
}

/// The decimal numeral of `n`, without leading zeros.
pub open spec fn decimal(n: nat) -> Seq<char>
    decreases n,
{
    if n < 10 {
        seq![digit_char(n)]
    } else {
        decimal(n / 10).push(digit_char(n % 10))
    }
}

/// The character of the decimal digit `d`.
pub fn digit_to_char(d: u8) -> (c: char)
    requires
        d < 10,
    ensures
        c == digit_char(d as nat),
{
    if d == 0 {
        '0'
    } else if d == 1 {
        '1'
    } else if d == 2 {
        '2'
    } else if d == 3 {
        '3'
    } else if d == 4 {
        '4'
    } else if d == 5 {
        '5'
    } else if d == 6 {
        '6'
    } else if d == 7 {
        '7'
    } else if d == 8 {
        '8'
    } else {
        '9'
    }
}

/// Appends the decimal numeral of `n` to `s`.
pub fn push_decimal(s: &mut String, n: u128)
    ensures
        final(s)@ == old(s)@ + decimal(n as nat),
    decreases n,
{
    if n >= 10 {
        push_decimal(s, n / 10);
    }
    let ghost mid = s@;
    push_char(s, digit_to_char((n % 10) as u8));
    proof {
        if n >= 10 {
            assert(s@ =~= old(s)@ + decimal(n as nat));
        } else {
            assert(s@ =~= old(s)@ + decimal(n as nat));
        }
    }
}

/// Whether `a` comes before `b` in the order of strings, comparing from
/// position `k` on: character by character, a proper prefix first.
pub open spec fn text_lt_from(a: Seq<char>, b: Seq<char>, k: int) -> bool
    decreases a.len() - k,
{
    if k < 0 || k >= a.len() {
        k < b.len()
    } else if k >= b.len() {
        false
    } else if a[k] != b[k] {
        (a[k] as u32) < (b[k] as u32)
    } else {
        text_lt_from(a, b, k + 1)
    }
}

/// Whether `a` comes strictly before `b` in the order of strings.
pub open spec fn text_lt(a: Seq<char>, b: Seq<char>) -> bool {
    text_lt_from(a, b, 0)
}

/// Whether `a` comes strictly before `b` in the order of strings.
pub fn chars_less(a: &Vec<char>, b: &Vec<char>) -> (r: bool)
    ensures
        r == text_lt(a@, b@),
{
    let mut k: usize = 0;
    while k < a.len() && k < b.len()
        invariant
            k <= a.len(),
            k <= b.len(),
            text_lt(a@, b@) == text_lt_from(a@, b@, k as int),
        decreases a.len() - k,
    {
        if a[k] != b[k] {
            return (a[k] as u32) < (b[k] as u32);
        }
        k += 1;
    }
    k < b.len()
}

/// No text comes before itself.
pub proof fn lemma_text_lt_irreflexive(a: Seq<char>, k: int)
    requires
        0 <= k,
    ensures
        !text_lt_from(a, a, k),
    decreases a.len() - k,
{
    if k < a.len() {
        lemma_text_lt_irreflexive(a, k + 1);
    }
}

/// The order of strings is transitive.
pub proof fn lemma_text_lt_transitive(a: Seq<char>, b: Seq<char>, c: Seq<char>, k: int)
    requires
        0 <= k,
        text_lt_from(a, b, k),
        text_lt_from(b, c, k),
    ensures
        text_lt_from(a, c, k),
    decreases a.len() - k,
{
    if k < a.len() && k < b.len() && k < c.len() && a[k] == b[k] && b[k] == c[k] {
        lemma_text_lt_transitive(a, b, c, k + 1);
    }
}

/// Whether an optional text comes strictly before another: nothing comes
/// before anything, texts in the order of strings.
pub open spec fn opt_text_lt(a: Option<Seq<char>>, b: Option<Seq<char>>) -> bool {
    match (a, b) {
        (None, Some(_)) => true,
        (Some(x), Some(y)) => text_lt(x, y),
        _ => false,
    }
}

/// Whether an optional string comes strictly before another.
pub fn opt_string_less(a: &Option<String>, b: &Option<String>) -> (r: bool)
    ensures
        r == opt_text_lt(opt_text(*a), opt_text(*b)),
{
    match (a, b) {
        (None, Some(_)) => true,
        (Some(x), Some(y)) => {
            let p = to_chars(x.as_str());
            let q = to_chars(y.as_str());
            chars_less(&p, &q)
        },
        _ => false,
    }
}

/// An owned copy of `s`.
pub fn copy_string(s: &String) -> (r: String)
    ensures
        r@ == s@,
{
    s.clone()
}

/// An owned copy of an optional string.
pub fn copy_opt_string(s: &Option<String>) -> (r: Option<String>)
    ensures
        opt_text(r) == opt_text(*s),
{
    match s {
        Some(t) => Some(t.clone()),
        None => None,
    }
}

/// The text of an optional string.
pub open spec fn opt_text(s: Option<String>) -> Option<Seq<char>> {
    match s {
        Some(t) => Some(t@),
        None => None,
    }
}

} // verus!
