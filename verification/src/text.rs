//! Numbers as text, and what the standard library calls white space.

use vstd::prelude::*;

verus! {

/// The digit of value `d`, for `d` below 16, in lower case.
pub open spec fn digit(d: nat) -> char {
    if d < 10 {
        ('0' as nat + d) as char
    } else {
        ('a' as nat + d - 10) as char
    }
}

/// `n` in the given base, without leading zeros.
pub open spec fn numeral(n: nat, base: nat) -> Seq<char>
    decreases n,
{
    if base < 2 || n < base {
        seq![digit(n)]
    } else {
        proof {
            assert(n / base < n) by (nonlinear_arith)
                requires
                    2 <= base <= n,
            ;
        }
        numeral(n / base, base).push(digit(n % base))
    }
}

/// `n` in decimal.
pub open spec fn decimal(n: nat) -> Seq<char> {
    numeral(n, 10)
}

/// `n` in lower case hexadecimal.
pub open spec fn hexadecimal(n: nat) -> Seq<char> {
    numeral(n, 16)
}

/// The digit of value `d` as a string.
fn digit_str(d: u64) -> (r: &'static str)
    requires
        d < 16,
    ensures
        r@ == seq![digit(d as nat)],
{
    proof {
        reveal_strlit("0");
        reveal_strlit("1");
        reveal_strlit("2");
        reveal_strlit("3");
        reveal_strlit("4");
        reveal_strlit("5");
        reveal_strlit("6");
        reveal_strlit("7");
        reveal_strlit("8");
        reveal_strlit("9");
        reveal_strlit("a");
        reveal_strlit("b");
        reveal_strlit("c");
        reveal_strlit("d");
        reveal_strlit("e");
        reveal_strlit("f");
    }
    match d {
        0 => "0",
        1 => "1",
        2 => "2",
        3 => "3",
        4 => "4",
        5 => "5",
        6 => "6",
        7 => "7",
        8 => "8",
        9 => "9",
        10 => "a",
        11 => "b",
        12 => "c",
        13 => "d",
        14 => "e",
        _ => "f",
    }
}

/// Appends `n` in the given base.
pub(crate) fn push_numeral(text: &mut String, n: u64, base: u64)
    requires
        2 <= base <= 16,
    ensures
        final(text)@ == old(text)@ + numeral(n as nat, base as nat),
    decreases n,
{
    if n < base {
        text.append(digit_str(n));
    } else {
        assert(n / base < n) by (nonlinear_arith)
            requires
                2 <= base <= n,
        ;
        push_numeral(text, n / base, base);
        text.append(digit_str(n % base));
        assert(text@ =~= old(text)@ + numeral(n as nat, base as nat));
    }
}

/// Whether all of `s` are decimal digits.
pub open spec fn all_digits(s: Seq<char>) -> bool {
    forall|i: int| 0 <= i < s.len() ==> '0' <= #[trigger] s[i] <= '9'
}

/// The number that a sequence of decimal digits stands for.
pub open spec fn decimal_value(digits: Seq<char>) -> nat
    decreases digits.len(),
{
    if digits.len() == 0 {
        0
    } else {
        (decimal_value(digits.drop_last()) * 10 + (digits.last() as nat - '0' as nat)) as nat
    }
}

/// `text` without the plus sign that it may start with.
pub open spec fn unsigned_digits(text: Seq<char>) -> Seq<char> {
    if text.len() > 0 && text[0] == '+' {
        text.skip(1)
    } else {
        text
    }
}

/// The number that `text` writes in decimal: an optional plus sign, then digits and nothing
/// else. There is none where the number is too large for 64 bits.
pub open spec fn decimal_number(text: Seq<char>) -> Option<u64> {
    let digits = unsigned_digits(text);
    if digits.len() > 0 && all_digits(digits) && decimal_value(digits) <= u64::MAX {
        Some(decimal_value(digits) as u64)
    } else {
        None
    }
}

proof fn lemma_decimal_value_grows(digits: Seq<char>, n: int)
    requires
        all_digits(digits),
        0 <= n <= digits.len(),
    ensures
        decimal_value(digits.take(n)) <= decimal_value(digits),
    decreases digits.len() - n,
{
    if n == digits.len() {
        assert(digits.take(n) =~= digits);
    } else {
        assert(digits.take(n + 1).drop_last() =~= digits.take(n));
        lemma_decimal_value_grows(digits, n + 1);
    }
}

/// Reads a decimal number of 64 bits.
pub fn parse_decimal(text: &str) -> (r: Option<u64>)
    ensures
        r == decimal_number(text@),
{
    if !text.is_ascii() {
        proof {
            let digits = unsigned_digits(text@);
            if all_digits(digits) {
                assert forall|i: int| 0 <= i < text@.len() implies '\0' <= #[trigger] text@[i]
                    <= '\u{7f}' by {
                    if digits == text@ {
                        assert(digits[i] == text@[i]);
                    } else if i > 0 {
                        assert(digits[i - 1] == text@[i]);
                    }
                }
            }
        }
        return None;
    }
    let bytes = text.as_bytes();
    let start: usize = if bytes.len() > 0 && bytes[0] == 43 {
        1
    } else {
        0
    };
    let ghost digits = unsigned_digits(text@);
    assert(digits =~= text@.skip(start as int));
    if bytes.len() == start {
        return None;
    }
    let mut value: u64 = 0;
    let mut i: usize = start;
    while i < bytes.len()
        invariant
            start <= i <= bytes.len(),
            bytes@.len() == text@.len(),
            forall|j: int| 0 <= j < bytes@.len() ==> bytes@[j] as int == #[trigger] text@[j] as int,
            digits == text@.skip(start as int),
            digits == unsigned_digits(text@),
            all_digits(digits.take(i - start)),
            value == decimal_value(digits.take(i - start)),
        decreases bytes.len() - i,
    {
        let b = bytes[i];
        assert(digits[i - start] == text@[i as int]);
        if b < 48 || b > 57 {
            return None;
        }
        let ghost upto = digits.take(i + 1 - start);
        assert(upto.drop_last() =~= digits.take(i - start));
        assert(upto.last() == text@[i as int]);
        assert(all_digits(upto)) by {
            assert forall|j: int| 0 <= j < upto.len() implies '0' <= #[trigger] upto[j] <= '9' by {
                if j < i - start {
                    assert(upto[j] == digits.take(i - start)[j]);
                } else {
                    assert(b as int == text@[i as int] as int);
                }
            }
        }
        assert(decimal_value(upto) == value * 10 + (b - 48));
        proof {
            if all_digits(digits) {
                lemma_decimal_value_grows(digits, i + 1 - start);
            }
        }
        if value > (u64::MAX - (b - 48) as u64) / 10 {
            return None;
        }
        value = value * 10 + (b - 48) as u64;
        i = i + 1;
    }
    assert(digits.take(i - start) =~= digits);
    Some(value)
}

/// A decimal numeral reads back as the number that it writes.
pub proof fn law_decimal_reads_back(n: u64)
    ensures
        decimal_number(decimal(n as nat)) == Some(n),
{
    lemma_decimal_reads_back(n as nat);
}

proof fn lemma_decimal_reads_back(n: nat)
    ensures
        decimal(n).len() > 0,
        all_digits(decimal(n)),
        decimal_value(decimal(n)) == n,
    decreases n,
{
    reveal_with_fuel(decimal_value, 2);
    if n >= 10 {
        lemma_decimal_reads_back(n / 10);
        assert(decimal(n).drop_last() =~= decimal(n / 10));
    } else {
        assert(decimal(n).drop_last() =~= Seq::empty());
    }
}

/// The characters with the Unicode property `White_Space`.
pub open spec fn is_white_space(c: char) -> bool {
    let n = c as nat;
    ||| 0x9 <= n <= 0xd
    ||| n == 0x20
    ||| n == 0x85
    ||| n == 0xa0
    ||| n == 0x1680
    ||| 0x2000 <= n <= 0x200a
    ||| n == 0x2028
    ||| n == 0x2029
    ||| n == 0x202f
    ||| n == 0x205f
    ||| n == 0x3000
}

/// `s` without the white space that it ends in.
pub open spec fn trimmed_end(s: Seq<char>) -> Seq<char>
    decreases s.len(),
{
    if s.len() > 0 && is_white_space(s.last()) {
        trimmed_end(s.drop_last())
    } else {
        s
    }
}

/// `s` without the white space that it starts and ends in.
pub open spec fn trimmed(s: Seq<char>) -> Seq<char>
    decreases s.len(),
{
    if s.len() > 0 && is_white_space(s[0]) {
        trimmed(s.skip(1))
    } else {
        trimmed_end(s)
    }
}

/// `str::trim` of the standard library: the string without leading and trailing white space,
/// where white space is what has the Unicode property `White_Space`.
#[verifier::external_body]
pub(crate) fn trim(s: &str) -> (r: &str)
    ensures
        r@ == trimmed(s@),
{
    s.trim()
}

/// What a numeral is made of: below the base it is a single digit; above it, the numeral of the
/// quotient and the digit of the remainder follow each other. Digits are those of ASCII, and letters
/// are in lower case.
pub proof fn law_numerals(n: nat)
    ensures
        n < 10 ==> decimal(n) == seq![(48 + n) as char],
        n >= 10 ==> decimal(n) == decimal(n / 10).push((48 + n % 10) as char),
        n < 10 ==> hexadecimal(n) == seq![(48 + n) as char],
        10 <= n < 16 ==> hexadecimal(n) == seq![(87 + n) as char],
        n >= 16 && n % 16 < 10 ==> hexadecimal(n) == hexadecimal(n / 16).push(
            (48 + n % 16) as char,
        ),
        n >= 16 && n % 16 >= 10 ==> hexadecimal(n) == hexadecimal(n / 16).push(
            (87 + n % 16) as char,
        ),
{
}

/// How a number is read: a digit alone gives its value, and each further digit gives ten times as
/// much and its own value, up to what 64 bits hold.
pub proof fn law_reads_digits(text: Seq<char>, c: char)
    requires
        '0' <= c <= '9',
    ensures
        decimal_number(seq![c]) == Some((c as int - 48) as u64),
        decimal_number(text) matches Some(n) ==> decimal_number(text.push(c)) == if n * 10 + (
        c as int - 48) <= u64::MAX {
            Some((n * 10 + (c as int - 48)) as u64)
        } else {
            None
        },
        decimal_number(text) is None && text.len() > 0 && text != seq!['+'] ==> decimal_number(
            text.push(c),
        ) is None,
{
    reveal_with_fuel(decimal_value, 2);
    assert(seq![c].drop_last() =~= Seq::empty());
    let more = text.push(c);
    let digits = unsigned_digits(text);
    if text.len() > 0 {
        assert(unsigned_digits(more) =~= digits.push(c));
        assert(digits.push(c).drop_last() =~= digits);
        assert(digits.push(c).last() == c);
        if all_digits(digits) {
            assert(all_digits(digits.push(c)));
        }
        if all_digits(digits.push(c)) {
            assert forall|i: int| 0 <= i < digits.len() implies '0' <= #[trigger] digits[i]
                <= '9' by {
                assert(digits.push(c)[i] == digits[i]);
            }
        }
        if text != seq!['+'] && digits.len() == 0 {
            assert(text =~= seq!['+']);
        }
    }
}

/// What a number can be preceded by: one plus sign, and nothing else.
pub proof fn law_reads_plus_sign(text: Seq<char>)
    ensures
        text.len() > 0 && text[0] != '+' ==> decimal_number(seq!['+'] + text) == decimal_number(
            text,
        ),
        text.len() > 0 && text[0] == '+' ==> decimal_number(seq!['+'] + text) is None,
        decimal_number(seq!['+']) is None,
        decimal_number(seq![]) is None,
{
    assert((seq!['+'] + text).skip(1) =~= text);
    assert(seq!['+'].skip(1) =~= Seq::empty());
    if text.len() > 0 && text[0] == '+' {
        assert(!all_digits(text));
    }
}

/// What is no number: a text with a character that is neither a digit nor a plus sign at the start.
pub proof fn law_reads_nothing_else(text: Seq<char>, i: int)
    requires
        0 <= i < text.len(),
        !('0' <= text[i] <= '9'),
        i > 0 || text[i] != '+',
    ensures
        decimal_number(text) is None,
{
    let digits = unsigned_digits(text);
    if digits == text {
        assert(digits[i] == text[i]);
    } else {
        assert(digits[i - 1] == text[i]);
    }
}

} // verus!
