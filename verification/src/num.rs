//! Decimal formatting and parsing for the numeric metadata fields, verified
//! against a sequence-of-digits model; the round trip between the two is
//! proved below.
use vstd::prelude::*;
use vstd::arithmetic::div_mod::lemma_fundamental_div_mod;

verus! {

/// `c` is a decimal digit.
pub open spec fn is_digit(c: char) -> bool {
    48 <= c as u32 <= 57
}

/// The numeric value of a digit; zero for any other character.
pub open spec fn digit_val(c: char) -> nat {
    if is_digit(c) {
        (c as u32 - 48) as nat
    } else {
        0
    }
}

/// The digit character for a value below ten.
pub open spec fn digit_char(d: nat) -> char {
    if d == 0 {
        '0'
    } else if d == 1 {
        '1'
    } else if d == 2 {
        '2'
    } else if d == 3 {
        '3'
    } else if d == 4 {
        '4'
    } else if d == 5 {
        '5'
    } else if d == 6 {
        '6'
    } else if d == 7 {
        '7'
    } else if d == 8 {
        '8'
    } else {
        '9'
    }
}

/// The decimal digits of `n`, most significant first, with no leading zeros
/// (a single `'0'` for zero).
pub open spec fn dec_digits(n: nat) -> Seq<char>
    decreases n,
{
    if n < 10 {
        seq![digit_char(n)]
    } else {
        dec_digits(n / 10) + seq![digit_char(n % 10)]
    }
}

/// Every character of `s` is a decimal digit.
pub open spec fn all_digits(s: Seq<char>) -> bool {
    forall|i: int| 0 <= i < s.len() ==> is_digit(s[i])
}

/// `s` is a non-empty run of decimal digits.
pub open spec fn is_digits(s: Seq<char>) -> bool {
    s.len() > 0 && all_digits(s)
}

/// The value of `s` read as decimal digits, most significant first.
pub open spec fn str_to_nat(s: Seq<char>) -> nat
    decreases s.len(),
{
    if s.len() == 0 {
        0
    } else {
        str_to_nat(s.subrange(0, s.len() - 1)) * 10 + digit_val(s[s.len() - 1])
    }
}

/// A digit character carries the value it was made from.
pub proof fn lemma_digit_char_val(d: nat)
    requires
        d < 10,
    ensures
        is_digit(digit_char(d)),
        digit_val(digit_char(d)) == d,
{
}

/// Appending one digit multiplies the value by ten and adds the digit.
pub proof fn lemma_str_to_nat_append(s: Seq<char>, c: char)
    ensures
        str_to_nat(s + seq![c]) == str_to_nat(s) * 10 + digit_val(c),
{
    let t = s + seq![c];
    assert(t.subrange(0, t.len() - 1) =~= s);
    assert(t[t.len() - 1] == c);
}

/// `dec_digits` yields only digits.
pub proof fn lemma_dec_digits_all_digits(n: nat)
    ensures
        is_digits(dec_digits(n)),
    decreases n,
{
    if n >= 10 {
        lemma_dec_digits_all_digits(n / 10);
    }
}

/// Reading the digits of `n` back yields `n`.
pub proof fn lemma_dec_round_trip(n: nat)
    ensures
        str_to_nat(dec_digits(n)) == n,
    decreases n,
{
    if n < 10 {
        lemma_digit_char_val(n);
        let s = seq![digit_char(n)];
        assert(dec_digits(n) == s);
        assert(s.subrange(0, 0) =~= Seq::<char>::empty());
        assert(str_to_nat(Seq::<char>::empty()) == 0);
        assert(str_to_nat(s) == str_to_nat(s.subrange(0, s.len() - 1)) * 10 + digit_val(s[0]));
    } else {
        lemma_dec_round_trip(n / 10);
        lemma_digit_char_val(n % 10);
        lemma_str_to_nat_append(dec_digits(n / 10), digit_char(n % 10));
        lemma_fundamental_div_mod(n as int, 10);
    }
}

/// The value of a prefix never exceeds the value of the whole.
pub proof fn lemma_str_to_nat_prefix(s: Seq<char>, j: int)
    requires
        0 <= j <= s.len(),
    ensures
        str_to_nat(s.subrange(0, j)) <= str_to_nat(s),
    decreases s.len() - j,
{
    if j < s.len() {
        lemma_str_to_nat_prefix(s, j + 1);
        let p = s.subrange(0, j + 1);
        assert(p.subrange(0, p.len() - 1) =~= s.subrange(0, j));
        assert(str_to_nat(s.subrange(0, j)) <= str_to_nat(s.subrange(0, j)) * 10 + digit_val(p[j]));
    } else {
        assert(s.subrange(0, j) =~= s);
    }
}

/// `c` is a decimal digit.
pub fn is_digit_exec(c: char) -> (r: bool)
    ensures
        r == is_digit(c),
{
    let u: u32 = c as u32;
    48 <= u && u <= 57
}

/// The digit character for a value below ten.
fn digit_char_exec(d: u32) -> (c: char)
    requires
        d < 10,
    ensures
        c == digit_char(d as nat),
{
    if d == 0 {
        '0'
    } else if d == 1 {
        '1'
    } else if d == 2 {
        '2'
    } else if d == 3 {
        '3'
    } else if d == 4 {
        '4'
    } else if d == 5 {
        '5'
    } else if d == 6 {
        '6'
    } else if d == 7 {
        '7'
    } else if d == 8 {
        '8'
    } else {
        '9'
    }
}

/// The decimal digits of `n`.
pub fn u32_to_chars(n: u32) -> (r: Vec<char>)
    ensures
        r@ == dec_digits(n as nat),
    decreases n,
{
    if n < 10 {
        let mut r: Vec<char> = Vec::new();
        r.push(digit_char_exec(n));
        proof {
            assert(r@ =~= dec_digits(n as nat));
        }
        r
    } else {
        let mut r = u32_to_chars(n / 10);
        r.push(digit_char_exec(n % 10));
        proof {
            assert(r@ =~= dec_digits(n as nat));
        }
        r
    }
}

/// The decimal digits of `n`.
pub fn usize_to_chars(n: usize) -> (r: Vec<char>)
    ensures
        r@ == dec_digits(n as nat),
    decreases n,
{
    if n < 10 {
        let mut r: Vec<char> = Vec::new();
        r.push(digit_char_exec((n as u32) % 10));
        proof {
            assert(r@ =~= dec_digits(n as nat));
        }
        r
    } else {
        let mut r = usize_to_chars(n / 10);
        r.push(digit_char_exec((n % 10) as u32));
        proof {
            assert(r@ =~= dec_digits(n as nat));
        }
        r
    }
}

/// The decimal form of `n`: a minus sign and the digits of its magnitude
/// when negative, the digits alone otherwise.
pub open spec fn dec_i32(n: int) -> Seq<char> {
    if n < 0 {
        seq!['-'] + dec_digits((-n) as nat)
    } else {
        dec_digits(n as nat)
    }
}

/// The decimal form of `n`.
pub fn i32_to_chars(n: i32) -> (r: Vec<char>)
    ensures
        r@ == dec_i32(n as int),
{
    if n >= 0 {
        u32_to_chars(n as u32)
    } else {
        let wide: i64 = n as i64;
        let mag: u32 = (-wide) as u32;
        let mut r: Vec<char> = Vec::new();
        r.push('-');
        let digits = u32_to_chars(mag);
        crate::text::push_chars(&mut r, &digits);
        proof {
            assert(r@ =~= dec_i32(n as int));
        }
        r
    }
}

/// The value that `s` denotes as an unsigned decimal numeral with an
/// optional leading plus sign; `None` when `s` is not such a numeral.
pub open spec fn u32_parse_spec(s: Seq<char>) -> Option<int> {
    let d = if s.len() >= 1 && s[0] == '+' {
        s.subrange(1, s.len() as int)
    } else {
        s
    };
    if is_digits(d) {
        Some(str_to_nat(d) as int)
    } else {
        None
    }
}

/// The value that `s` denotes as a signed decimal numeral with an optional
/// leading sign; `None` when `s` is not such a numeral.
pub open spec fn i32_parse_spec(s: Seq<char>) -> Option<int> {
    if s.len() >= 1 && s[0] == '-' {
        let d = s.subrange(1, s.len() as int);
        if is_digits(d) {
            Some(-(str_to_nat(d) as int))
        } else {
            None
        }
    } else {
        u32_parse_spec(s)
    }
}

/// Parses a non-empty run of digits, rejecting values above `u32::MAX`.
pub(crate) fn parse_digits(s: &Vec<char>) -> (r: Option<u32>)
    ensures
        match r {
            Some(v) => is_digits(s@) && str_to_nat(s@) == v as nat,
            None => !is_digits(s@) || str_to_nat(s@) > u32::MAX,
        },
{
    let n: usize = s.len();
    if n == 0 {
        return None;
    }
    let mut acc: u32 = 0;
    let mut i: usize = 0;
    while i < n
        invariant
            n == s@.len(),
            i <= n,
            forall|j: int| 0 <= j < i ==> is_digit(s@[j]),
            acc as nat == str_to_nat(s@.subrange(0, i as int)),
        decreases n - i,
    {
        let c = s[i];
        if !is_digit_exec(c) {
            return None;
        }
        let d: u32 = c as u32 - 48;
        if acc > 429496729 || (acc == 429496729 && d > 5) {
            proof {
                lemma_str_to_nat_append(s@.subrange(0, i as int), c);
                assert(s@.subrange(0, i as int) + seq![c] =~= s@.subrange(0, i + 1));
                lemma_str_to_nat_prefix(s@, i + 1);
            }
            return None;
        }
        acc = acc * 10 + d;
        i = i + 1;
        proof {
            lemma_str_to_nat_append(s@.subrange(0, i - 1), c);
            assert(s@.subrange(0, i - 1) + seq![c] =~= s@.subrange(0, i as int));
        }
    }
    proof {
        assert(s@.subrange(0, n as int) =~= s@);
    }
    Some(acc)
}

/// Parses `s` as an unsigned decimal numeral (optional leading plus sign),
/// succeeding exactly on numerals whose value fits in a `u32`.
pub fn parse_u32(s: &Vec<char>) -> (r: Option<u32>)
    ensures
        match r {
            Some(v) => u32_parse_spec(s@) == Some(v as int),
            None => match u32_parse_spec(s@) {
                Some(w) => w > u32::MAX,
                None => true,
            },
        },
{
    if s.len() >= 1 && s[0] == '+' {
        let d = crate::text::sub_vec(s, 1, s.len());
        parse_digits(&d)
    } else {
        parse_digits(s)
    }
}

/// Parses `s` as a signed decimal numeral (optional leading sign),
/// succeeding exactly on numerals whose value fits in an `i32`.
pub fn parse_i32(s: &Vec<char>) -> (r: Option<i32>)
    ensures
        match r {
            Some(v) => i32_parse_spec(s@) == Some(v as int),
            None => match i32_parse_spec(s@) {
                Some(w) => w < i32::MIN || w > i32::MAX,
                None => true,
            },
        },
{
    if s.len() >= 1 && s[0] == '-' {
        let d = crate::text::sub_vec(s, 1, s.len());
        match parse_digits(&d) {
            None => None,
            Some(m) => {
                if m > 2147483648 {
                    None
                } else {
                    let wide: i64 = -(m as i64);
                    Some(wide as i32)
                }
            },
        }
    } else {
        match parse_u32(s) {
            None => None,
            Some(m) => {
                if m > 2147483647 {
                    None
                } else {
                    Some(m as i32)
                }
            },
        }
    }
}

} // verus!
