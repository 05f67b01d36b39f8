//! Text as sequences of characters.

use vstd::prelude::*;

verus! {

/// `String::push` of std. Its documentation says that it appends the given
/// character to the end of the string; so the characters after the call are
/// taken to be those before it and `c`.
pub assume_specification[ std::string::String::push ](s: &mut std::string::String, c: char)
    ensures
        final(s)@ == old(s)@.push(c),
;

/// `String::pop` of std. Its documentation says that it removes the last
/// character from the string and returns it, and returns `None` if the
/// string is empty; so that is what is taken to hold.
pub assume_specification[ std::string::String::pop ](s: &mut std::string::String) -> (r: Option<
    char,
>)
    ensures
        old(s)@.len() == 0 ==> r.is_none() && final(s)@ == old(s)@,
        old(s)@.len() > 0 ==> r == Some(old(s)@.last()) && final(s)@ == old(s)@.drop_last(),
;

/// The characters of `s`, one by one.
pub fn chars_of(s: &str) -> (v: Vec<char>)
    ensures
        v@ == s@,
{
    let mut v: Vec<char> = Vec::new();
    for c in it: s.chars()
        invariant
            it.seq() == s@,
            v@ == it.seq().take(it.index() as int),
    {
        v.push(c);
    }
    v
}

/// Whether `c` is one of the ten decimal digits.
pub open spec fn is_digit(c: char) -> bool {
    '0' <= c <= '9'
}

/// The number that the digit `c` stands for.
pub open spec fn digit_value(c: char) -> nat {
    (c as int - '0' as int) as nat
}

/// Whether `s` is made of decimal digits, at least one.
pub open spec fn all_digits(s: Seq<char>) -> bool {
    s.len() > 0 && forall|i: int| 0 <= i < s.len() ==> is_digit(#[trigger] s[i])
}

/// The number that the digits of `s` write in base ten.
pub open spec fn decimal_value(s: Seq<char>) -> nat
    decreases s.len(),
{
    if s.len() == 0 {
        0
    } else {
        decimal_value(s.drop_last()) * 10 + digit_value(s.last())
    }
}

/// The number that `s` writes without a sign or after a plus sign.
pub open spec fn unsigned_literal(s: Seq<char>) -> Option<nat> {
    let digits = if s.len() > 0 && s[0] == '+' {
        s.skip(1)
    } else {
        s
    };
    if all_digits(digits) {
        Some(decimal_value(digits))
    } else {
        None
    }
}

/// The number that `s` writes, with a minus sign, a plus sign or none.
pub open spec fn signed_literal(s: Seq<char>) -> Option<int> {
    if s.len() > 0 && s[0] == '-' {
        if all_digits(s.skip(1)) {
            Some(-(decimal_value(s.skip(1)) as int))
        } else {
            None
        }
    } else {
        match unsigned_literal(s) {
            Some(v) => Some(v as int),
            None => None,
        }
    }
}

/// The byte that `s` writes, if it writes a number and that number is a byte.
pub open spec fn u8_literal(s: Seq<char>) -> Option<u8> {
    match unsigned_literal(s) {
        Some(v) => if v <= u8::MAX {
            Some(v as u8)
        } else {
            None
        },
        None => None,
    }
}

/// The integer that `s` writes, if it writes one that an `isize` holds.
pub open spec fn isize_literal(s: Seq<char>) -> Option<isize> {
    match signed_literal(s) {
        Some(v) => if isize::MIN <= v <= isize::MAX {
            Some(v as isize)
        } else {
            None
        },
        None => None,
    }
}

/// The number that the digits of `s` write, if `s` is made of digits and the
/// number is at most `limit`.
pub open spec fn bounded_digits(s: Seq<char>, limit: nat) -> Option<nat> {
    if all_digits(s) && decimal_value(s) <= limit {
        Some(decimal_value(s))
    } else {
        None
    }
}

/// Digits that are added at the end never make the number smaller.
pub proof fn lemma_decimal_value_grows(s: Seq<char>, n: int)
    requires
        0 <= n <= s.len(),
    ensures
        decimal_value(s.take(n)) <= decimal_value(s),
    decreases s.len(),
{
    if n == s.len() {
        assert(s.take(n) =~= s);
    } else {
        assert(s.drop_last().take(n) =~= s.take(n));
        lemma_decimal_value_grows(s.drop_last(), n);
    }
}

/// Reads the digits of `chars` from `from` on.
fn parse_digits(chars: &[char], from: usize, limit: u128) -> (r: Option<u128>)
    requires
        from <= chars@.len(),
        limit <= u64::MAX,
    ensures
        r matches Some(v) ==> bounded_digits(chars@.skip(from as int), limit as nat) == Some(
            v as nat,
        ),
        r.is_none() ==> bounded_digits(chars@.skip(from as int), limit as nat).is_none(),
{
    let ghost digits = chars@.skip(from as int);
    let n: usize = chars.len();
    if from == n {
        return None;
    }
    let mut value: u128 = 0;
    let mut i: usize = from;
    while i < n
        invariant
            from <= i <= n,
            n == chars@.len(),
            digits == chars@.skip(from as int),
            limit <= u64::MAX,
            value == decimal_value(digits.take(i - from)),
            value <= limit,
            forall|j: int| 0 <= j < i - from ==> is_digit(#[trigger] digits[j]),
        decreases n - i,
    {
        let c: char = chars[i];
        assert(c == digits[i - from]);
        if c < '0' || c > '9' {
            return None;
        }
        let d: u128 = (c as u32 - '0' as u32) as u128;
        let next: u128 = value * 10 + d;
        proof {
            assert(digits.take(i + 1 - from).drop_last() =~= digits.take(i - from));
        }
        if next > limit {
            proof {
                lemma_decimal_value_grows(digits, i + 1 - from);
            }
            return None;
        }
        value = next;
        i += 1;
    }
    assert(digits.take(n - from) =~= digits);
    Some(value)
}

/// Reads a byte as `str::parse` does: digits, after a plus sign or none.
pub fn parse_u8(chars: &[char]) -> (r: Option<u8>)
    ensures
        r == u8_literal(chars@),
{
    let from: usize = if chars.len() > 0 && chars[0] == '+' {
        1
    } else {
        0
    };
    assert(chars@.skip(0) =~= chars@);
    match parse_digits(chars, from, u8::MAX as u128) {
        Some(v) => Some(v as u8),
        None => None,
    }
}

/// Reads an integer as `str::parse` does: digits, after a sign or none.
pub fn parse_isize(chars: &[char]) -> (r: Option<isize>)
    ensures
        r == isize_literal(chars@),
{
    assert(chars@.skip(0) =~= chars@);
    let max: u128 = isize::MAX as u128;
    if chars.len() > 0 && chars[0] == '-' {
        match parse_digits(chars, 1, max + 1) {
            Some(v) => if v == max + 1 {
                Some(isize::MIN)
            } else {
                Some(-(v as isize))
            },
            None => None,
        }
    } else {
        let from: usize = if chars.len() > 0 && chars[0] == '+' {
            1
        } else {
            0
        };
        match parse_digits(chars, from, max) {
            Some(v) => Some(v as isize),
            None => None,
        }
    }
}

/// The character that writes the digit `d`.
pub open spec fn digit_char(d: nat) -> char {
    ('0' as nat + d) as char
}

/// The digits that write `n` in base ten, without leading zeros.
pub open spec fn decimal_digits(n: nat) -> Seq<char>
    decreases n,
{
    if n < 10 {
        seq![digit_char(n)]
    } else {
        decimal_digits(n / 10).push(digit_char(n % 10))
    }
}

/// The text that writes `n` in base ten, with a minus sign if it is negative.
pub open spec fn decimal_text(n: int) -> Seq<char> {
    if n < 0 {
        seq!['-'] + decimal_digits((-n) as nat)
    } else {
        decimal_digits(n as nat)
    }
}

/// What is written in base ten reads back as the same number.
pub proof fn lemma_digits_read_back(n: nat)
    ensures
        all_digits(decimal_digits(n)),
        decimal_digits(n)[0] != '+',
        decimal_digits(n)[0] != '-',
        decimal_value(decimal_digits(n)) == n,
    decreases n,
{
    if n < 10 {
        let s = decimal_digits(n);
        assert(decimal_value(s.drop_last()) == 0);
    } else {
        lemma_digits_read_back(n / 10);
        let shorter = decimal_digits(n / 10);
        let s = decimal_digits(n);
        assert(s.drop_last() =~= shorter);
        assert forall|i: int| 0 <= i < s.len() implies is_digit(#[trigger] s[i]) by {
        }
    }
}

/// The text of an integer reads back as that integer.
pub proof fn lemma_text_reads_back(n: int)
    ensures
        signed_literal(decimal_text(n)) == Some(n),
{
    if n < 0 {
        lemma_digits_read_back((-n) as nat);
        let s = decimal_text(n);
        assert(s.skip(1) =~= decimal_digits((-n) as nat));
    } else {
        lemma_digits_read_back(n as nat);
    }
}

/// Appends the digits of `n` to `s`.
pub fn push_digits(s: &mut String, n: u128)
    ensures
        final(s)@ == old(s)@ + decimal_digits(n as nat),
    decreases n,
{
    if n >= 10 {
        push_digits(s, n / 10);
    }
    let d: u8 = (n % 10) as u8;
    s.push(('0' as u8 + d) as char);
}

/// Appends the text of `n` to `s`.
pub fn push_isize(s: &mut String, n: isize)
    ensures
        final(s)@ == old(s)@ + decimal_text(n as int),
{
    if n < 0 {
        s.push('-');
        push_digits(s, (-(n as i128)) as u128);
    } else {
        push_digits(s, n as u128);
    }
}

} // verus!
