//! Numeric literals: which texts denote a signed 64-bit integer and which
//! value, how an integer is written back in decimal, and which texts are
//! floating-point literals.

use crate::text::{chars_of, text_of};
use vstd::prelude::*;

verus! {

/// `c` is one of `0` to `9`.
pub open spec fn is_digit(c: char) -> bool {
    '0' as int <= c as int <= '9' as int
}

/// The number that the digit `c` stands for.
pub open spec fn digit_value(c: char) -> int {
    c as int - '0' as int
}

/// Every character of `s` is a digit.
pub open spec fn all_digits(s: Seq<char>) -> bool {
    forall|i: int| 0 <= i < s.len() ==> is_digit(#[trigger] s[i])
}

/// The number written by the digits `s` in base 10; the empty text is 0.
pub open spec fn digits_value(s: Seq<char>) -> int
    decreases s.len(),
{
    if s.len() == 0 {
        0
    } else {
        10 * digits_value(s.drop_last()) + digit_value(s.last())
    }
}

/// `s` begins with `+` or `-`.
pub open spec fn has_sign(s: Seq<char>) -> bool {
    s.len() > 0 && (s[0] == '+' || s[0] == '-')
}

/// `s` without its leading sign, if it has one.
pub open spec fn unsigned_part(s: Seq<char>) -> Seq<char> {
    if has_sign(s) {
        s.skip(1)
    } else {
        s
    }
}

/// The integer that `s` denotes: an optional sign followed by one or more
/// digits and nothing else.
pub open spec fn integer_value(s: Seq<char>) -> Option<int> {
    let digits = unsigned_part(s);
    if digits.len() > 0 && all_digits(digits) {
        if s[0] == '-' {
            Some(-digits_value(digits))
        } else {
            Some(digits_value(digits))
        }
    } else {
        None
    }
}

/// The signed 64-bit integer that `s` denotes, if it denotes an integer and
/// that integer fits.
pub open spec fn parsed_i64(s: Seq<char>) -> Option<i64> {
    match integer_value(s) {
        Some(v) => if i64::MIN <= v <= i64::MAX {
            Some(v as i64)
        } else {
            None
        },
        None => None,
    }
}

/// The digits of a text of digits never denote a negative number.
pub proof fn lemma_digits_value_bounds(s: Seq<char>)
    requires
        all_digits(s),
    ensures
        digits_value(s) >= 0,
    decreases s.len(),
{
    if s.len() > 0 {
        lemma_digits_value_bounds(s.drop_last());
    }
}

fn is_digit_char(c: char) -> (r: bool)
    ensures
        r == is_digit(c),
{
    let code = c as u32;
    48 <= code && code <= 57
}

fn digit_of(c: char) -> (r: u64)
    requires
        is_digit(c),
    ensures
        r == digit_value(c),
        r <= 9,
{
    (c as u32 - 48) as u64
}

/// Reads `chars` as a signed 64-bit integer in base 10.
pub fn parse_i64(chars: &Vec<char>) -> (r: Option<i64>)
    ensures
        r == parsed_i64(chars@),
{
    let n = chars.len();
    if n == 0 {
        return None;
    }
    let negative = chars[0] == '-';
    let start: usize = if chars[0] == '-' || chars[0] == '+' {
        1
    } else {
        0
    };
    let ghost digits = unsigned_part(chars@);
    if start == n {
        return None;
    }
    let limit: u64 = if negative {
        0x8000_0000_0000_0000
    } else {
        0x7fff_ffff_ffff_ffff
    };
    let mut magnitude: u64 = 0;
    let mut overflow = false;
    let mut i: usize = start;
    while i < n
        invariant
            start <= i <= n,
            n == chars.len(),
            all_digits(chars@.subrange(start as int, i as int)),
            !overflow ==> magnitude == digits_value(chars@.subrange(start as int, i as int))
                && magnitude <= limit,
            overflow ==> digits_value(chars@.subrange(start as int, i as int)) > limit,
            0x7fff_ffff_ffff_ffff <= limit <= 0x8000_0000_0000_0000,
            negative <==> limit == 0x8000_0000_0000_0000,
            negative <==> chars@[0] == '-',
            digits == chars@.subrange(start as int, n as int),
            digits == unsigned_part(chars@),
        decreases n - i,
    {
        let c = chars[i];
        if !is_digit_char(c) {
            assert(digits[i - start] == c);
            return None;
        }
        let d = digit_of(c);
        let ghost before = chars@.subrange(start as int, i as int);
        let ghost after = chars@.subrange(start as int, i + 1);
        proof {
            assert(after.drop_last() =~= before);
            lemma_digits_value_bounds(before);
        }
        if !overflow {
            if magnitude > (limit - d) / 10 {
                overflow = true;
            } else {
                magnitude = magnitude * 10 + d;
            }
        }
        i += 1;
    }
    if overflow {
        None
    } else if negative {
        if magnitude == 0x8000_0000_0000_0000 {
            Some(i64::MIN)
        } else {
            Some(-(magnitude as i64))
        }
    } else {
        Some(magnitude as i64)
    }
}

/// The character that writes the digit `d`.
pub open spec fn digit_char(d: int) -> char {
    ((d + 48) as u8) as char
}

/// The digits of `n` in base 10, without leading zeros.
pub open spec fn natural_digits(n: nat) -> Seq<char>
    decreases n,
{
    if n < 10 {
        seq![digit_char(n as int)]
    } else {
        natural_digits(n / 10).push(digit_char((n % 10) as int))
    }
}

/// The integer `v` written in base 10, with a leading `-` when negative.
pub open spec fn decimal(v: int) -> Seq<char> {
    if v < 0 {
        seq!['-'] + natural_digits((-v) as nat)
    } else {
        natural_digits(v as nat)
    }
}

/// The digits of a number are digits, none of them a sign, and denote the
/// number.
pub proof fn lemma_natural_digits_denote(n: nat)
    ensures
        natural_digits(n).len() > 0,
        all_digits(natural_digits(n)),
        digits_value(natural_digits(n)) == n,
    decreases n,
{
    let text = natural_digits(n);
    if n < 10 {
        assert(digits_value(text.drop_last()) == 0);
    } else {
        lemma_natural_digits_denote(n / 10);
        let front = natural_digits(n / 10);
        assert(text.drop_last() =~= front);
    }
}

/// Writing a signed 64-bit integer in decimal and reading the text back
/// gives the integer again.
pub proof fn lemma_decimal_reads_back(v: i64)
    ensures
        parsed_i64(decimal(v as int)) == Some(v),
{
    let text = decimal(v as int);
    if v < 0 {
        let digits = natural_digits((-v) as nat);
        lemma_natural_digits_denote((-v) as nat);
        assert(unsigned_part(text) =~= digits);
    } else {
        lemma_natural_digits_denote(v as nat);
    }
}

/// Appends the digits of `n` to `out`.
pub fn push_natural(out: &mut String, n: u64)
    ensures
        final(out)@ == old(out)@ + natural_digits(n as nat),
    decreases n,
{
    if n >= 10 {
        push_natural(out, n / 10);
    }
    let digit = (48 + (n % 10) as u8) as char;
    out.push(digit);
}

/// Appends `v`, written in decimal, to `out`.
pub fn push_decimal(out: &mut String, v: i64)
    ensures
        final(out)@ == old(out)@ + decimal(v as int),
{
    if v < 0 {
        out.push('-');
        let magnitude: u64 = (-(v + 1)) as u64 + 1;
        push_natural(out, magnitude);
    } else {
        push_natural(out, v as u64);
    }
}

/// The ASCII lower-case form of `c`; other characters stay as they are.
pub open spec fn lower(c: char) -> char {
    if 'A' as int <= c as int <= 'Z' as int {
        ((c as int + 32) as u8) as char
    } else {
        c
    }
}

/// `s` spells `word` when ASCII letter case is ignored.
pub open spec fn spells_ignoring_case(s: Seq<char>, word: Seq<char>) -> bool {
    s.len() == word.len() && forall|i: int| 0 <= i < s.len() ==> lower(#[trigger] s[i]) == word[i]
}

/// How many digits stand at the start of `s`.
pub open spec fn leading_digits(s: Seq<char>) -> nat
    decreases s.len(),
{
    if s.len() > 0 && is_digit(s[0]) {
        1 + leading_digits(s.drop_first())
    } else {
        0
    }
}

/// `s` is empty, or is an exponent: `e` or `E`, an optional sign, and one or
/// more digits.
pub open spec fn is_exponent_or_empty(s: Seq<char>) -> bool {
    s.len() == 0 || {
        let digits = unsigned_part(s.skip(1));
        (s[0] == 'e' || s[0] == 'E') && digits.len() > 0 && all_digits(digits)
    }
}

/// `s` is a decimal number: digits with an optional `.` among them or at
/// either end, at least one digit in all, and an optional exponent.
pub open spec fn is_decimal_number(s: Seq<char>) -> bool {
    let whole = leading_digits(s);
    let rest = s.skip(whole as int);
    if rest.len() > 0 && rest[0] == '.' {
        let fraction = leading_digits(rest.skip(1));
        whole + fraction > 0 && is_exponent_or_empty(rest.skip(1 + fraction as int))
    } else {
        whole > 0 && is_exponent_or_empty(rest)
    }
}

/// `s` names infinity or not-a-number, in any letter case.
pub open spec fn is_special_number(s: Seq<char>) -> bool {
    spells_ignoring_case(s, "inf"@) || spells_ignoring_case(s, "infinity"@)
        || spells_ignoring_case(s, "nan"@)
}

/// `s` is a floating-point literal: an optional sign followed by a decimal
/// number or by the name of infinity or not-a-number.
pub open spec fn is_float_literal(s: Seq<char>) -> bool {
    let body = unsigned_part(s);
    is_decimal_number(body) || is_special_number(body)
}


fn lower_char(c: char) -> (r: char)
    ensures
        r == lower(c),
{
    let code = c as u32;
    if 65 <= code && code <= 90 {
        ((code + 32) as u8) as char
    } else {
        c
    }
}

fn spells_from(chars: &Vec<char>, from: usize, word: &str) -> (r: bool)
    requires
        from <= chars.len(),
    ensures
        r == spells_ignoring_case(chars@.skip(from as int), word@),
{
    let letters = chars_of(word);
    let ghost s = chars@.skip(from as int);
    if chars.len() - from != letters.len() {
        return false;
    }
    let mut i: usize = 0;
    while i < letters.len()
        invariant
            i <= letters.len(),
            from + letters.len() == chars.len(),
            letters@ == word@,
            s == chars@.skip(from as int),
            forall|j: int| 0 <= j < i ==> lower(#[trigger] s[j]) == letters@[j],
        decreases letters.len() - i,
    {
        if lower_char(chars[from + i]) != letters[i] {
            assert(s[i as int] == chars@[from + i]);
            return false;
        }
        i += 1;
    }
    true
}

fn count_digits(chars: &Vec<char>, from: usize) -> (r: usize)
    requires
        from <= chars.len(),
    ensures
        r == leading_digits(chars@.skip(from as int)),
        from + r <= chars.len(),
{
    let n = chars.len();
    let mut i: usize = from;
    while i < n
        invariant
            from <= i <= n,
            n == chars.len(),
            leading_digits(chars@.skip(from as int)) == (i - from) + leading_digits(
                chars@.skip(i as int),
            ),
        ensures
            i == n || !is_digit(chars@[i as int]),
        decreases n - i,
    {
        if !is_digit_char(chars[i]) {
            break ;
        }
        assert(chars@.skip(i as int).drop_first() =~= chars@.skip(i + 1));
        i += 1;
    }
    i - from
}

fn digits_from(chars: &Vec<char>, from: usize) -> (r: bool)
    requires
        from <= chars.len(),
    ensures
        r == all_digits(chars@.skip(from as int)),
{
    let n = chars.len();
    let ghost s = chars@.skip(from as int);
    let mut i: usize = from;
    while i < n
        invariant
            from <= i <= n,
            n == chars.len(),
            s == chars@.skip(from as int),
            forall|j: int| 0 <= j < i - from ==> is_digit(#[trigger] s[j]),
        decreases n - i,
    {
        if !is_digit_char(chars[i]) {
            assert(s[i - from] == chars@[i as int]);
            return false;
        }
        i += 1;
    }
    true
}

fn exponent_from(chars: &Vec<char>, from: usize) -> (r: bool)
    requires
        from <= chars.len(),
    ensures
        r == is_exponent_or_empty(chars@.skip(from as int)),
{
    let n = chars.len();
    if from == n {
        return true;
    }
    let mark = chars[from];
    if mark != 'e' && mark != 'E' {
        return false;
    }
    let ghost tail = chars@.skip(from as int).skip(1);
    let signed = from + 1 < n && (chars[from + 1] == '+' || chars[from + 1] == '-');
    let start: usize = if signed {
        from + 2
    } else {
        from + 1
    };
    assert(unsigned_part(tail) =~= chars@.skip(start as int));
    start < n && digits_from(chars, start)
}

fn decimal_from(chars: &Vec<char>, from: usize) -> (r: bool)
    requires
        from <= chars.len(),
    ensures
        r == is_decimal_number(chars@.skip(from as int)),
{
    let n = chars.len();
    let whole = count_digits(chars, from);
    let dot = from + whole;
    let ghost rest = chars@.skip(from as int).skip(whole as int);
    assert(rest =~= chars@.skip(dot as int));
    if dot < n && chars[dot] == '.' {
        let fraction = count_digits(chars, dot + 1);
        assert(rest.skip(1) =~= chars@.skip(dot + 1));
        assert(rest.skip(1 + fraction as int) =~= chars@.skip(dot + 1 + fraction));
        whole + fraction > 0 && exponent_from(chars, dot + 1 + fraction)
    } else {
        whole > 0 && exponent_from(chars, dot)
    }
}

/// Whether `chars` is a floating-point literal.
pub fn is_float_text(chars: &Vec<char>) -> (r: bool)
    ensures
        r == is_float_literal(chars@),
{
    let n = chars.len();
    let start: usize = if n > 0 && (chars[0] == '+' || chars[0] == '-') {
        1
    } else {
        0
    };
    assert(unsigned_part(chars@) =~= chars@.skip(start as int));
    decimal_from(chars, start) || spells_from(chars, start, "inf") || spells_from(
        chars,
        start,
        "infinity",
    ) || spells_from(chars, start, "nan")
}

/// A floating-point number, held as the literal that denotes it. The text is
/// always a floating-point literal; the number itself is never computed here.
pub struct FloatLiteral {
    text: String,
}

impl View for FloatLiteral {
    type V = Seq<char>;

    closed spec fn view(&self) -> Seq<char> {
        self.text@
    }
}

impl FloatLiteral {
    #[verifier::type_invariant]
    closed spec fn well_formed(&self) -> bool {
        is_float_literal(self.text@)
    }

    /// The literal `text`, if it is one.
    pub fn parse(text: &str) -> (r: Option<FloatLiteral>)
        ensures
            r is Some <==> is_float_literal(text@),
            r matches Some(literal) ==> literal@ == text@,
    {
        let chars = chars_of(text);
        if is_float_text(&chars) {
            Some(FloatLiteral { text: text_of(&chars) })
        } else {
            None
        }
    }

    /// The literal as written, which is always a floating-point literal.
    pub fn text(&self) -> (r: &String)
        ensures
            r@ == self@,
            is_float_literal(self@),
    {
        proof {
            use_type_invariant(self);
        }
        &self.text
    }
}

impl Clone for FloatLiteral {
    fn clone(&self) -> (r: Self)
        ensures
            r@ == self@,
    {
        proof {
            use_type_invariant(self);
        }
        FloatLiteral { text: self.text.clone() }
    }
}

} // verus!
