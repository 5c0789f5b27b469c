//! Small verified helpers on strings shared by the rest of the crate.
use vstd::prelude::*;
use vstd::string::*;

verus! {

/// Compares two strings character by character.
pub fn str_equal(a: &str, b: &str) -> (res: bool)
    ensures
        res == (a@ == b@),
{
    let n = a.unicode_len();
    let m = b.unicode_len();
    if n != m {
        return false;
    }
    let mut i: usize = 0;
    while i < n
        invariant
            n == a@.len(),
            m == b@.len(),
            n == m,
            i <= n,
            forall|j: int| 0 <= j < i ==> a@[j] == b@[j],
        decreases n - i,
    {
        if a.get_char(i) != b.get_char(i) {
            return false;
        }
        i = i + 1;
    }
    assert(a@ =~= b@);
    true
}

/// Copies a string slice into an owned `String`.
pub fn to_owned_string(s: &str) -> (res: String)
    ensures
        res@ == s@,
{
    String::from_str(s)
}

} // verus!

verus! {

/// The character of a decimal digit.
pub open spec fn spec_digit_char(d: int) -> char {
    (d + 48) as char
}

/// The five decimal digits of `n`, most significant first, with leading
/// zeros.
pub open spec fn spec_pad5(n: u16) -> Seq<char> {
    seq![
        spec_digit_char(n as int / 10000),
        spec_digit_char((n as int / 1000) % 10),
        spec_digit_char((n as int / 100) % 10),
        spec_digit_char((n as int / 10) % 10),
        spec_digit_char(n as int % 10),
    ]
}

/// The one-character string of a decimal digit.
pub fn digit_str(d: u16) -> (s: &'static str)
    requires
        d < 10,
    ensures
        s@ == seq![spec_digit_char(d as int)],
{
    match d {
        0 => {
            proof {
                reveal_strlit("0");
            }
            "0"
        },
        1 => {
            proof {
                reveal_strlit("1");
            }
            "1"
        },
        2 => {
            proof {
                reveal_strlit("2");
            }
            "2"
        },
        3 => {
            proof {
                reveal_strlit("3");
            }
            "3"
        },
        4 => {
            proof {
                reveal_strlit("4");
            }
            "4"
        },
        5 => {
            proof {
                reveal_strlit("5");
            }
            "5"
        },
        6 => {
            proof {
                reveal_strlit("6");
            }
            "6"
        },
        7 => {
            proof {
                reveal_strlit("7");
            }
            "7"
        },
        8 => {
            proof {
                reveal_strlit("8");
            }
            "8"
        },
        _ => {
            proof {
                reveal_strlit("9");
            }
            "9"
        },
    }
}

/// Writes `n` with five decimal digits, padded on the left with zeros.
pub fn pad5(n: u16) -> (s: String)
    ensures
        s@ == spec_pad5(n),
{
    let mut s = String::new();
    s.append(digit_str(n / 10000));
    s.append(digit_str((n / 1000) % 10));
    s.append(digit_str((n / 100) % 10));
    s.append(digit_str((n / 10) % 10));
    s.append(digit_str(n % 10));
    assert(s@ =~= spec_pad5(n));
    s
}

/// `dir` joined with the relative name `name`: a separator is put between
/// them unless `dir` is empty or already ends with one.
pub open spec fn spec_join_path(dir: Seq<char>, name: Seq<char>) -> Seq<char> {
    if dir.len() == 0 || dir.last() == '/' {
        dir + name
    } else {
        dir + seq!['/'] + name
    }
}

/// Joins a directory and a relative file name.
pub fn join_path(dir: &str, name: &str) -> (p: String)
    ensures
        p@ == spec_join_path(dir@, name@),
{
    let n = dir.unicode_len();
    let mut p = String::from_str(dir);
    if n > 0 && dir.get_char(n - 1) != '/' {
        proof {
            reveal_strlit("/");
        }
        p.append("/");
    }
    p.append(name);
    p
}

} // verus!

verus! {

/// The value of a sequence of decimal digits, most significant first.
pub open spec fn spec_decimal_value(digits: Seq<char>) -> int
    decreases digits.len(),
{
    if digits.len() == 0 {
        0
    } else {
        spec_decimal_value(digits.drop_last()) * 10 + (digits.last() as int - 48)
    }
}

/// All characters are decimal digits.
pub open spec fn spec_all_digits(s: Seq<char>) -> bool {
    forall|i: int| 0 <= i < s.len() ==> '0' <= #[trigger] s[i] <= '9'
}

/// The digits of a number written with an optional leading `+`.
pub open spec fn spec_unsigned_digits(s: Seq<char>) -> Seq<char> {
    if s.len() > 0 && s[0] == '+' {
        s.drop_first()
    } else {
        s
    }
}

/// The `u16` written by `s` in decimal, as `str::parse::<u16>` reads it: an
/// optional `+`, then at least one digit, with a value that fits.
pub open spec fn spec_parse_u16(s: Seq<char>) -> Option<u16> {
    let digits = spec_unsigned_digits(s);
    if digits.len() > 0 && spec_all_digits(digits) && spec_decimal_value(digits) <= u16::MAX {
        Some(spec_decimal_value(digits) as u16)
    } else {
        None
    }
}

proof fn lemma_decimal_value_monotone(digits: Seq<char>, i: int)
    requires
        0 <= i <= digits.len(),
        spec_all_digits(digits),
    ensures
        0 <= spec_decimal_value(digits.subrange(0, i)) <= spec_decimal_value(digits),
    decreases digits.len() - i,
{
    if i < digits.len() {
        lemma_decimal_value_monotone(digits, i + 1);
        let a = digits.subrange(0, i);
        let b = digits.subrange(0, i + 1);
        assert(b.drop_last() =~= a);
        lemma_decimal_value_nonneg(a);
    } else {
        assert(digits.subrange(0, i) =~= digits);
        lemma_decimal_value_nonneg(digits);
    }
}

proof fn lemma_decimal_value_nonneg(digits: Seq<char>)
    requires
        spec_all_digits(digits),
    ensures
        spec_decimal_value(digits) >= 0,
    decreases digits.len(),
{
    if digits.len() > 0 {
        lemma_decimal_value_nonneg(digits.drop_last());
    }
}

/// Reads a `u16` written in decimal, as `str::parse::<u16>` does.
pub fn parse_u16(s: &str) -> (r: Option<u16>)
    ensures
        r == spec_parse_u16(s@),
{
    let n = s.unicode_len();
    let mut i: usize = 0;
    if n > 0 && s.get_char(0) == '+' {
        i = 1;
    }
    let ghost digits = spec_unsigned_digits(s@);
    assert(digits =~= s@.subrange(i as int, n as int));
    if i == n {
        return None;
    }
    let first = i;
    let mut value: u32 = 0;
    while i < n
        invariant
            n == s@.len(),
            first <= i <= n,
            digits == s@.subrange(first as int, n as int),
            digits == spec_unsigned_digits(s@),
            spec_all_digits(s@.subrange(first as int, i as int)),
            value == spec_decimal_value(s@.subrange(first as int, i as int)),
            value <= u16::MAX,
        decreases n - i,
    {
        let c = s.get_char(i);
        if c < '0' || c > '9' {
            proof {
                assert(digits[i - first] == c);
                assert(!('0' <= digits[i - first] <= '9'));
                assert(!spec_all_digits(digits));
            }
            return None;
        }
        let d = (c as u32) - 48;
        let ghost prefix = s@.subrange(first as int, i as int);
        let ghost next = s@.subrange(first as int, i + 1);
        assert(next.drop_last() =~= prefix);
        assert(spec_all_digits(next));
        value = value * 10 + d;
        i = i + 1;
        if value > 65535 {
            proof {
                if spec_all_digits(digits) {
                    lemma_decimal_value_monotone(digits, i - first);
                    assert(digits.subrange(0, i - first) =~= next);
                }
            }
            return None;
        }
    }
    assert(s@.subrange(first as int, n as int) =~= digits);
    Some(value as u16)
}

} // verus!

verus! {

/// Copies a list of strings.
pub fn clone_strings(v: &Vec<String>) -> (r: Vec<String>)
    ensures
        r@ == v@,
{
    let mut r: Vec<String> = Vec::new();
    let mut i: usize = 0;
    while i < v.len()
        invariant
            i <= v@.len(),
            r@ == v@.subrange(0, i as int),
        decreases v@.len() - i,
    {
        r.push(v[i].clone());
        i = i + 1;
        assert(r@ =~= v@.subrange(0, i as int));
    }
    assert(r@ =~= v@);
    r
}

} // verus!
