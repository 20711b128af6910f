//! Numbers in text: reading decimal and hexadecimal digits, and writing
//! decimal digits.

use vstd::prelude::*;
use crate::text::{rows, to_chars};
use crate::words::{split_words, words};

verus! {

/// Why a text is no number.
#[derive(Clone, Copy, Debug, PartialEq, Eq, Structural)]
pub enum NumberError {
    /// There is no digit to read.
    Empty,
    /// A character is no decimal digit.
    InvalidDigit,
    /// The digits stand for a number too large for the target type.
    Overflow,
}

/// An unsigned integer type that a number can be read into.
pub trait Unsigned: Sized {
    /// The largest value of the type.
    spec fn limit() -> nat;

    /// The number that `self` stands for.
    spec fn value(&self) -> nat;

    /// The largest value of the type is no larger than that of `u64`.
    proof fn limit_fits()
        ensures
            Self::limit() <= u64::MAX,
    ;

    /// `v` in this type, where it fits.
    fn from_u64(v: u64) -> (r: Option<Self>)
        ensures
            r is Some <==> v <= Self::limit(),
            r matches Some(x) ==> x.value() == v,
    ;
}

impl Unsigned for u64 {
    open spec fn limit() -> nat {
        u64::MAX as nat
    }

    open spec fn value(&self) -> nat {
        *self as nat
    }

    proof fn limit_fits() {
    }

    fn from_u64(v: u64) -> (r: Option<u64>) {
        Some(v)
    }
}

impl Unsigned for u32 {
    open spec fn limit() -> nat {
        u32::MAX as nat
    }

    open spec fn value(&self) -> nat {
        *self as nat
    }

    proof fn limit_fits() {
    }

    fn from_u64(v: u64) -> (r: Option<u32>) {
        if v <= 0xffff_ffff {
            Some(v as u32)
        } else {
            None
        }
    }
}

/// Whether `c` is one of the decimal digits `0` to `9`.
pub open spec fn is_digit(c: char) -> bool {
    '0' <= c <= '9'
}

/// The value of the decimal digit `c`.
pub open spec fn digit_value(c: char) -> nat {
    (c as u32 - '0' as u32) as nat
}

/// Whether `s` holds decimal digits only.
pub open spec fn all_digits(s: Seq<char>) -> bool {
    forall|i: int| 0 <= i < s.len() ==> is_digit(#[trigger] s[i])
}

/// The number that the decimal digits `s` stand for.
pub open spec fn decimal_value(s: Seq<char>) -> nat
    decreases s.len(),
{
    if s.len() == 0 {
        0
    } else {
        decimal_value(s.drop_last()) * 10 + digit_value(s.last())
    }
}

/// What reading the digits `s` as a number of at most `limit` gives.
pub open spec fn read_decimal(s: Seq<char>, limit: nat) -> Result<nat, NumberError> {
    if s.len() == 0 {
        Err(NumberError::Empty)
    } else if !all_digits(s) {
        Err(NumberError::InvalidDigit)
    } else if decimal_value(s) > limit {
        Err(NumberError::Overflow)
    } else {
        Ok(decimal_value(s))
    }
}

/// Whether a result of reading a number into `T` agrees with `expected`.
pub open spec fn agrees<T: Unsigned>(r: Result<T, NumberError>, expected: Result<
    nat,
    NumberError,
>) -> bool {
    match r {
        Ok(v) => expected == Ok::<nat, NumberError>(v.value()),
        Err(e) => expected == Err::<nat, NumberError>(e),
    }
}

/// Reads the decimal digits `s` as a number of type `T`. Every character
/// has to be a digit, there has to be one at least, and the number has to
/// fit the type.
pub fn parse_digits<T: Unsigned>(s: &[char]) -> (r: Result<T, NumberError>)
    ensures
        agrees(r, read_decimal(s@, T::limit())),
{
    if s.len() == 0 {
        return Err(NumberError::Empty);
    }
    let mut acc: u64 = 0;
    let mut fits: bool = true;
    let mut i: usize = 0;
    while i < s.len()
        invariant
            i <= s.len(),
            all_digits(s@.take(i as int)),
            fits ==> acc == decimal_value(s@.take(i as int)),
            !fits ==> decimal_value(s@.take(i as int)) > u64::MAX,
        decreases s.len() - i,
    {
        let c = s[i];
        let ghost before = s@.take(i as int);
        let ghost after = s@.take(i + 1);
        proof {
            assert(after.drop_last() == before);
            assert(after.last() == c);
        }
        if !('0' <= c && c <= '9') {
            assert(!is_digit(s@[i as int]));
            return Err(NumberError::InvalidDigit);
        }
        assert forall|k: int| 0 <= k < after.len() implies is_digit(#[trigger] after[k]) by {
            if k < i {
                assert(after[k] == before[k]);
            }
        }
        let d: u64 = (c as u32 - '0' as u32) as u64;
        if fits {
            match acc.checked_mul(10) {
                Some(m) => match m.checked_add(d) {
                    Some(v) => {
                        acc = v;
                    },
                    None => {
                        fits = false;
                    },
                },
                None => {
                    fits = false;
                },
            }
        }
        i += 1;
    }
    assert(s@.take(s.len() as int) == s@);
    proof {
        T::limit_fits();
    }
    if !fits {
        return Err(NumberError::Overflow);
    }
    match T::from_u64(acc) {
        Some(v) => Ok(v),
        None => Err(NumberError::Overflow),
    }
}

/// Whether `c` has one of the Unicode general categories for numbers
/// (`Nd`, `Nl`, `No`).
pub uninterp spec fn is_numeric(c: char) -> bool;

/// `char::is_numeric` tells whether a character has one of the Unicode
/// general categories for numbers. Of the ASCII characters, exactly the
/// decimal digits have.
pub assume_specification[ char::is_numeric ](c: char) -> (b: bool)
    ensures
        b == is_numeric(c),
        (c as u32) < 0x80 ==> b == is_digit(c),
;

/// Number of characters at the start of `s` that are numeric.
pub open spec fn numeric_len(s: Seq<char>) -> nat
    decreases s.len(),
{
    if s.len() == 0 || !is_numeric(s[0]) {
        0
    } else {
        1 + numeric_len(s.drop_first())
    }
}

/// The numeric characters that `s` begins with.
pub open spec fn numeric_prefix(s: Seq<char>) -> Seq<char> {
    s.take(numeric_len(s) as int)
}

/// A run of `n` numeric characters, ended by a character that is not
/// numeric or by the end of `s`, is the numeric prefix of `s`.
pub proof fn lemma_numeric_run(s: Seq<char>, n: int)
    requires
        0 <= n <= s.len(),
        forall|k: int| 0 <= k < n ==> is_numeric(s[k]),
        n == s.len() || !is_numeric(s[n]),
    ensures
        numeric_len(s) == n,
    decreases n,
{
    if n > 0 {
        let t = s.drop_first();
        assert forall|k: int| 0 <= k < n - 1 implies is_numeric(t[k]) by {
            assert(t[k] == s[k + 1]);
        }
        lemma_numeric_run(t, n - 1);
    }
}

/// The numeric characters that `s` begins with.
pub fn leading_numeric(s: &[char]) -> (p: Vec<char>)
    ensures
        p@ == numeric_prefix(s@),
{
    let mut p: Vec<char> = Vec::new();
    let mut i: usize = 0;
    while i < s.len() && s[i].is_numeric()
        invariant
            i <= s.len(),
            p@ == s@.take(i as int),
            forall|k: int| 0 <= k < i ==> is_numeric(s@[k]),
        decreases s.len() - i,
    {
        p.push(s[i]);
        assert(s@.take(i + 1) == s@.take(i as int).push(s@[i as int]));
        i += 1;
    }
    proof {
        lemma_numeric_run(s@, i as int);
    }
    p
}

/// Reads the number that `input` begins with: its numeric characters up to
/// the first that is not numeric, read as decimal digits.
pub fn parse_number<T: Unsigned>(input: &str) -> (r: Result<T, NumberError>)
    ensures
        agrees(r, read_decimal(numeric_prefix(input@), T::limit())),
{
    let chars = to_chars(input);
    let prefix = leading_numeric(chars.as_slice());
    parse_digits(prefix.as_slice())
}

/// What `parse_number_no_separator` reads from `input`: the number that
/// its second word begins with.
pub open spec fn second_word_number(input: Seq<char>, limit: nat) -> Option<nat> {
    if words(input).len() >= 2 {
        match read_decimal(numeric_prefix(words(input)[1]), limit) {
            Ok(v) => Some(v),
            Err(_) => None,
        }
    } else {
        None
    }
}

/// Reads the number that the second word of `input` begins with. This
/// suits lines of a name and a value with white space between them.
pub fn parse_number_no_separator<T: Unsigned>(input: &str) -> (r: Option<T>)
    ensures
        match r {
            Some(v) => second_word_number(input@, T::limit()) == Some(v.value()),
            None => second_word_number(input@, T::limit()) is None,
        },
{
    let chars = to_chars(input);
    let ws = split_words(chars.as_slice());
    if ws.len() >= 2 {
        assert(rows(ws@)[1] == ws@[1]@);
        let prefix = leading_numeric(ws[1].as_slice());
        let r: Result<T, NumberError> = parse_digits(prefix.as_slice());
        match r {
            Ok(v) => Some(v),
            Err(_) => None,
        }
    } else {
        None
    }
}

/// The character of the decimal digit `d`.
pub open spec fn digit_char(d: nat) -> char {
    ('0' as u32 + d) as char
}

/// `n` in decimal digits, without leading zeros.
pub open spec fn decimal(n: nat) -> Seq<char>
    decreases n,
{
    if n < 10 {
        seq![digit_char(n)]
    } else {
        decimal(n / 10).push(digit_char(n % 10))
    }
}

/// Appends `n` in decimal digits to `out`.
pub fn push_decimal(out: &mut Vec<char>, n: u64)
    ensures
        final(out)@ == old(out)@ + decimal(n as nat),
    decreases n,
{
    if n >= 10 {
        push_decimal(out, n / 10);
    }
    let d: u8 = (n % 10) as u8;
    let c: char = (48u8 + d) as char;
    assert(c == digit_char((n % 10) as nat));
    out.push(c);
    assert(out@ == old(out)@ + decimal(n as nat));
}

/// The value of the hexadecimal digit `c`, in either case.
pub open spec fn hex_digit(c: char) -> Option<nat> {
    if '0' <= c <= '9' {
        Some((c as u32 - '0' as u32) as nat)
    } else if 'a' <= c <= 'f' {
        Some((c as u32 - 'a' as u32 + 10) as nat)
    } else if 'A' <= c <= 'F' {
        Some((c as u32 - 'A' as u32 + 10) as nat)
    } else {
        None
    }
}

/// Whether `s` holds hexadecimal digits only.
pub open spec fn all_hex(s: Seq<char>) -> bool {
    forall|i: int| 0 <= i < s.len() ==> hex_digit(#[trigger] s[i]) is Some
}

/// The number that the hexadecimal digits `s` stand for.
pub open spec fn hex_value(s: Seq<char>) -> nat
    decreases s.len(),
{
    if s.len() == 0 {
        0
    } else {
        hex_value(s.drop_last()) * 16 + hex_digit(s.last()).unwrap_or(0)
    }
}

/// `s` without the plus sign that may stand before the digits of a number.
pub open spec fn unsigned_digits(s: Seq<char>) -> Seq<char> {
    if s.len() > 1 && s[0] == '+' {
        s.drop_first()
    } else {
        s
    }
}

/// The number that `s` stands for in hexadecimal: an optional plus sign and
/// then hexadecimal digits only, one at least, that fit 64 bits.
pub open spec fn read_hex(s: Seq<char>) -> Option<u64> {
    let digits = unsigned_digits(s);
    if digits.len() > 0 && all_hex(digits) && hex_value(digits) <= u64::MAX {
        Some(hex_value(digits) as u64)
    } else {
        None
    }
}

/// The value of the hexadecimal digit `c`, in either case.
pub fn hex_digit_of(c: char) -> (d: Option<u64>)
    ensures
        match d {
            Some(v) => hex_digit(c) == Some(v as nat) && v < 16,
            None => hex_digit(c) is None,
        },
{
    if '0' <= c && c <= '9' {
        Some((c as u32 - '0' as u32) as u64)
    } else if 'a' <= c && c <= 'f' {
        Some((c as u32 - 'a' as u32 + 10) as u64)
    } else if 'A' <= c && c <= 'F' {
        Some((c as u32 - 'A' as u32 + 10) as u64)
    } else {
        None
    }
}

/// Reads `s` as a hexadecimal number of 64 bits.
pub fn parse_hex(s: &[char]) -> (r: Option<u64>)
    ensures
        r == read_hex(s@),
{
    let from: usize = if s.len() > 1 && s[0] == '+' {
        1
    } else {
        0
    };
    let ghost digits = unsigned_digits(s@);
    assert(digits == s@.skip(from as int));
    if s.len() == 0 {
        return None;
    }
    let mut acc: u64 = 0;
    let mut fits: bool = true;
    let mut i: usize = from;
    assert(digits.take(0) == Seq::<char>::empty());
    while i < s.len()
        invariant
            from <= i <= s.len(),
            digits == s@.skip(from as int),
            digits == unsigned_digits(s@),
            all_hex(digits.take(i - from)),
            fits ==> acc == hex_value(digits.take(i - from)),
            !fits ==> hex_value(digits.take(i - from)) > u64::MAX,
        decreases s.len() - i,
    {
        let ghost before = digits.take(i - from);
        let ghost after = digits.take(i - from + 1);
        proof {
            assert(after.drop_last() == before);
            assert(after.last() == s@[i as int]);
        }
        match hex_digit_of(s[i]) {
            None => {
                assert(digits[i - from] == s@[i as int]);
                assert(hex_digit(digits[i - from]) is None);
                return None;
            },
            Some(d) => {
                assert forall|k: int| 0 <= k < after.len() implies hex_digit(
                    #[trigger] after[k],
                ) is Some by {
                    if k < i - from {
                        assert(after[k] == before[k]);
                    }
                }
                if fits {
                    match acc.checked_mul(16) {
                        Some(m) => match m.checked_add(d) {
                            Some(v) => {
                                acc = v;
                            },
                            None => {
                                fits = false;
                            },
                        },
                        None => {
                            fits = false;
                        },
                    }
                }
            },
        }
        i += 1;
    }
    assert(digits.take(s.len() - from) == digits);
    if fits {
        Some(acc)
    } else {
        None
    }
}

} // verus!
