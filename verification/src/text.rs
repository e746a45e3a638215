//! Numbers as text, and the quoting of text.
use vstd::prelude::*;
use vstd::string::*;
use vstd::arithmetic::div_mod::*;

verus! {

/// `String::push`: appends one character.
pub assume_specification[ String::push ](string: &mut String, ch: char)
    ensures
        final(string)@ == old(string)@.push(ch),
;

/// The character for a digit of a number in a base of at most sixteen.
pub open spec fn digit_char(digit: nat) -> char {
    if digit < 10 {
        ((48 + digit) as u8) as char
    } else {
        ((87 + digit) as u8) as char
    }
}

/// The character for a digit of a number in a base of at most sixteen.
fn digit(value: u8) -> (c: char)
    requires
        value < 16,
    ensures
        c == digit_char(value as nat),
{
    if value < 10 {
        (48 + value) as char
    } else {
        (87 + value) as char
    }
}

/// The digits of `n` in the given base, most significant first, without
/// leading zeroes.
pub open spec fn digits(n: nat, base: nat) -> Seq<char>
    decreases n,
{
    if n < base || base < 2 {
        seq![digit_char(n)]
    } else {
        proof {
            lemma_div_decreases(n as int, base as int);
        }
        digits(n / base, base).push(digit_char(n % base))
    }
}

/// `n` in decimal.
pub open spec fn decimal(n: nat) -> Seq<char> {
    digits(n, 10)
}

/// `n` in lower-case hexadecimal.
pub open spec fn hex(n: nat) -> Seq<char> {
    digits(n, 16)
}

/// Appends the digits of `n` to `text`.
fn push_digits(text: &mut String, n: u128, base: u8)
    requires
        2 <= base <= 16,
    ensures
        final(text)@ == old(text)@ + digits(n as nat, base as nat),
    decreases n,
{
    let wide: u128 = base as u128;
    if n < wide {
        text.push(digit(n as u8));
        assert(text@ =~= old(text)@ + digits(n as nat, base as nat));
    } else {
        proof {
            lemma_div_decreases(n as int, wide as int);
            lemma_mod_bound(n as int, wide as int);
        }
        push_digits(text, n / wide, base);
        let low: u8 = (n % wide) as u8;
        text.push(digit(low));
        assert(text@ =~= old(text)@ + digits(n as nat, base as nat));
    }
}

/// `n` in decimal.
pub fn to_decimal(n: u64) -> (text: String)
    ensures
        text@ == decimal(n as nat),
{
    let mut text = String::new();
    push_digits(&mut text, n as u128, 10);
    assert(text@ =~= decimal(n as nat));
    text
}

/// `n` in lower-case hexadecimal.
pub fn to_hex(n: u128) -> (text: String)
    ensures
        text@ == hex(n as nat),
{
    let mut text = String::new();
    push_digits(&mut text, n, 16);
    assert(text@ =~= hex(n as nat));
    text
}

/// The two hexadecimal digits of each byte, in order.
pub open spec fn hex_pairs(bytes: Seq<u8>) -> Seq<char> {
    Seq::new(
        2 * bytes.len(),
        |i: int|
            if i % 2 == 0 {
                digit_char(bytes[i / 2] as nat / 16)
            } else {
                digit_char(bytes[i / 2] as nat % 16)
            },
    )
}

/// Writes each byte as two hexadecimal digits.
pub fn to_hex_pairs(bytes: &[u8]) -> (text: String)
    ensures
        text@ == hex_pairs(bytes@),
{
    let mut text = String::new();
    let mut i: usize = 0;
    while i < bytes.len()
        invariant
            i <= bytes@.len(),
            text@ == hex_pairs(bytes@.take(i as int)),
        decreases bytes@.len() - i,
    {
        text.push(digit(bytes[i] / 16));
        text.push(digit(bytes[i] % 16));
        assert(text@ =~= hex_pairs(bytes@.take(i + 1)));
        i = i + 1;
    }
    assert(bytes@.take(i as int) =~= bytes@);
    text
}

/// The number of bytes of a text.
pub open spec fn byte_size(text: Seq<char>) -> nat {
    vstd::utf8::encode_utf8(text).len()
}

/// The number of bytes of a text.
pub fn byte_len(text: &str) -> (len: usize)
    ensures
        len == byte_size(text@),
{
    text.as_bytes().len()
}

/// `text` with a backslash before every double quote.
pub open spec fn quotes_escaped(text: Seq<char>) -> Seq<char>
    decreases text.len(),
{
    if text.len() == 0 {
        Seq::empty()
    } else if text.last() == '"' {
        quotes_escaped(text.drop_last()) + seq!['\\', '"']
    } else {
        quotes_escaped(text.drop_last()).push(text.last())
    }
}

/// Puts a backslash before every double quote.
pub fn escape_quotes(text: &str) -> (escaped: String)
    ensures
        escaped@ == quotes_escaped(text@),
{
    let mut escaped = String::new();
    for c in chars: text.chars()
        invariant
            chars.seq() == text@,
            escaped@ == quotes_escaped(text@.take(chars.index() as int)),
    {
        let ghost i = chars.index() as int;
        assert(text@.take(i + 1).drop_last() =~= text@.take(i));
        if c == '"' {
            escaped.push('\\');
            escaped.push('"');
            assert(escaped@ =~= quotes_escaped(text@.take(i)) + seq!['\\', '"']);
        } else {
            escaped.push(c);
        }
    }
    assert(text@.take(text@.len() as int) =~= text@);
    escaped
}

/// Different digits have different characters.
proof fn lemma_digit_char_injective(a: nat, b: nat)
    requires
        a < 16,
        b < 16,
        digit_char(a) == digit_char(b),
    ensures
        a == b,
{
}

/// Bytes with the same hexadecimal digits are the same.
pub proof fn law_hex_pair_injective(a: Seq<u8>, b: Seq<u8>, i: int)
    requires
        hex_pairs(a) == hex_pairs(b),
        0 <= i < a.len(),
    ensures
        a.len() == b.len(),
        a[i] == b[i],
{
    assert(hex_pairs(a).len() == 2 * a.len());
    assert(hex_pairs(b).len() == 2 * b.len());
    assert(hex_pairs(a)[2 * i] == digit_char(a[i] as nat / 16));
    assert(hex_pairs(b)[2 * i] == digit_char(b[i] as nat / 16));
    assert(hex_pairs(a)[2 * i + 1] == digit_char(a[i] as nat % 16));
    assert(hex_pairs(b)[2 * i + 1] == digit_char(b[i] as nat % 16));
    lemma_digit_char_injective(a[i] as nat / 16, b[i] as nat / 16);
    lemma_digit_char_injective(a[i] as nat % 16, b[i] as nat % 16);
}

/// Different numbers have different digits.
pub proof fn law_digits_injective(a: nat, b: nat, base: nat)
    requires
        2 <= base <= 16,
        digits(a, base) == digits(b, base),
    ensures
        a == b,
    decreases a,
{
    lemma_mod_bound(a as int, base as int);
    lemma_mod_bound(b as int, base as int);
    lemma_fundamental_div_mod(a as int, base as int);
    lemma_fundamental_div_mod(b as int, base as int);
    if a < base && b < base {
        assert(digits(a, base).last() == digit_char(a));
        assert(digits(b, base).last() == digit_char(b));
        lemma_digit_char_injective(a, b);
    } else if a < base {
        lemma_digits_nonempty(b / base, base);
        assert(digits(a, base).len() == 1);
    } else if b < base {
        lemma_digits_nonempty(a / base, base);
        assert(digits(b, base).len() == 1);
    } else {
        lemma_div_decreases(a as int, base as int);
        assert(digits(a, base).last() == digit_char(a % base));
        assert(digits(b, base).last() == digit_char(b % base));
        lemma_digit_char_injective(a % base, b % base);
        assert(digits(a, base).drop_last() =~= digits(a / base, base));
        assert(digits(b, base).drop_last() =~= digits(b / base, base));
        law_digits_injective(a / base, b / base, base);
    }
}

/// Every number has at least one digit.
proof fn lemma_digits_nonempty(n: nat, base: nat)
    ensures
        digits(n, base).len() >= 1,
{
}

/// Every digit of a number is a lower-case letter or a decimal digit.
pub proof fn law_digits_are_alphanumeric(n: nat, base: nat, i: int)
    requires
        2 <= base <= 16,
        0 <= i < digits(n, base).len(),
    ensures
        '0' <= digits(n, base)[i] <= '9' || 'a' <= digits(n, base)[i] <= 'f',
    decreases n,
{
    if n >= base {
        lemma_div_decreases(n as int, base as int);
        lemma_mod_bound(n as int, base as int);
        if i < digits(n, base).len() - 1 {
            law_digits_are_alphanumeric(n / base, base, i);
        }
    }
}

/// The value of a character as a digit: of `0` to `9`, and of `a` to `f` behind them.
pub open spec fn digit_value(c: char) -> nat {
    if '0' <= c <= '9' {
        (c as nat - '0' as nat) as nat
    } else {
        (c as nat - 'a' as nat + 10) as nat
    }
}

/// The number that digits stand for, the most significant first.
pub open spec fn number_of(digits: Seq<char>, base: nat) -> nat
    decreases digits.len(),
{
    if digits.len() == 0 {
        0
    } else {
        number_of(digits.drop_last(), base) * base + digit_value(digits.last())
    }
}

/// Every digit has its own value.
proof fn lemma_digit_value(digit: nat)
    requires
        digit < 16,
    ensures
        digit_value(digit_char(digit)) == digit,
{
}

/// The digits of a number stand for it, and none is there for nothing: only zero begins
/// with a zero.
pub proof fn law_digits_are_read_back(n: nat, base: nat)
    requires
        2 <= base <= 16,
    ensures
        number_of(digits(n, base), base) == n,
        digits(n, base).len() >= 1,
        digits(n, base)[0] == '0' ==> n == 0 && digits(n, base).len() == 1,
    decreases n,
{
    if n < base {
        lemma_digit_value(n);
        assert(digits(n, base).drop_last() =~= Seq::<char>::empty());
        assert(number_of(Seq::<char>::empty(), base) == 0);
        assert(0 * base == 0) by (nonlinear_arith);
    } else {
        lemma_div_decreases(n as int, base as int);
        lemma_mod_bound(n as int, base as int);
        lemma_fundamental_div_mod(n as int, base as int);
        lemma_digit_value(n % base);
        law_digits_are_read_back(n / base, base);
        assert(digits(n, base).drop_last() =~= digits(n / base, base));
        assert((n / base) * base == base * (n / base)) by (nonlinear_arith);
        if n / base == 0 {
            assert(base * 0 == 0) by (nonlinear_arith);
        }
    }
}

/// A number in decimal and in hexadecimal is read back as that number.
pub proof fn law_numbers_are_read_back(n: nat)
    ensures
        number_of(decimal(n), 10) == n,
        number_of(hex(n), 16) == n,
{
    law_digits_are_read_back(n, 10);
    law_digits_are_read_back(n, 16);
}

/// Each byte is written as two digits that stand for it, the higher one first.
pub proof fn law_hex_pairs_are_read_back(bytes: Seq<u8>, i: int)
    requires
        0 <= i < bytes.len(),
    ensures
        hex_pairs(bytes).len() == 2 * bytes.len(),
        digit_value(hex_pairs(bytes)[2 * i]) * 16 + digit_value(hex_pairs(bytes)[2 * i + 1])
            == bytes[i],
        digit_value(hex_pairs(bytes)[2 * i + 1]) < 16,
{
    assert(hex_pairs(bytes)[2 * i] == digit_char(bytes[i] as nat / 16));
    assert(hex_pairs(bytes)[2 * i + 1] == digit_char(bytes[i] as nat % 16));
    lemma_digit_value(bytes[i] as nat / 16);
    lemma_digit_value(bytes[i] as nat % 16);
}

/// Only double quotes are escaped, each by one backslash before it: every other character
/// is kept, and texts are escaped piece by piece.
pub proof fn law_only_quotes_are_escaped(a: Seq<char>, b: Seq<char>, c: char)
    ensures
        quotes_escaped(a + b) == quotes_escaped(a) + quotes_escaped(b),
        c != '"' ==> quotes_escaped(seq![c]) == seq![c],
        quotes_escaped(seq!['"']) == seq!['\\', '"'],
        quotes_escaped(Seq::empty()) == Seq::<char>::empty(),
    decreases b.len(),
{
    assert(seq![c].drop_last() =~= Seq::<char>::empty());
    assert(seq!['"'].drop_last() =~= Seq::<char>::empty());
    assert(quotes_escaped(Seq::empty()) == Seq::<char>::empty());
    assert(seq!['"'].last() == '"');
    assert(quotes_escaped(seq!['"']) =~= seq!['\\', '"']);
    if c != '"' {
        assert(quotes_escaped(seq![c]) =~= seq![c]);
    }
    if b.len() == 0 {
        assert(a + b =~= a);
        assert(quotes_escaped(a) + quotes_escaped(b) =~= quotes_escaped(a));
    } else {
        law_only_quotes_are_escaped(a, b.drop_last(), c);
        assert((a + b).drop_last() =~= a + b.drop_last());
        assert((a + b).last() == b.last());
        assert(quotes_escaped(a + b) =~= quotes_escaped(a) + quotes_escaped(b));
    }
}

} // verus!
