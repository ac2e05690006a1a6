//! Decimal rendering and parsing of integers, used for quota messages,
//! log lines and subject identifiers carried as strings.

use vstd::prelude::*;

verus! {

/// The character standing for a single decimal digit.
pub open spec fn digit_char(d: nat) -> char {
    if d == 0 {
        '0'
    } else if d == 1 {
        '1'
    } else if d == 2 {
        '2'
    } else if d == 3 {
        '3'
    } else if d == 4 {
        '4'
    } else if d == 5 {
        '5'
    } else if d == 6 {
        '6'
    } else if d == 7 {
        '7'
    } else if d == 8 {
        '8'
    } else {
        '9'
    }
}

/// The decimal rendering of `n`, most significant digit first, with no
/// leading zeroes (`0` itself renders as "0").
pub open spec fn decimal_digits(n: nat) -> Seq<char>
    decreases n,
{
    if n < 10 {
        seq![digit_char(n)]
    } else {
        decimal_digits(n / 10).push(digit_char(n % 10))
    }
}

pub open spec fn is_digit(c: char) -> bool {
    '0' <= c && c <= '9'
}

pub open spec fn digit_val(c: char) -> nat {
    (c as nat - '0' as nat) as nat
}

pub open spec fn all_digits(s: Seq<char>) -> bool {
    forall|i: int| 0 <= i < s.len() ==> is_digit(s[i])
}

/// The numeric value of a digit string, read most significant digit first.
pub open spec fn decimal_value(s: Seq<char>) -> nat
    decreases s.len(),
{
    if s.len() == 0 {
        0
    } else {
        decimal_value(s.drop_last()) * 10 + digit_val(s.last())
    }
}

/// A single decimal digit as a string slice.
fn digit_str(d: u64) -> (s: &'static str)
    requires
        d < 10,
    ensures
        s@ =~= seq![digit_char(d as nat)],
{
    proof {
        reveal_strlit("0");
        reveal_strlit("1");
        reveal_strlit("2");
        reveal_strlit("3");
        reveal_strlit("4");
        reveal_strlit("5");
        reveal_strlit("6");
        reveal_strlit("7");
        reveal_strlit("8");
        reveal_strlit("9");
    }
    if d == 0 {
        "0"
    } else if d == 1 {
        "1"
    } else if d == 2 {
        "2"
    } else if d == 3 {
        "3"
    } else if d == 4 {
        "4"
    } else if d == 5 {
        "5"
    } else if d == 6 {
        "6"
    } else if d == 7 {
        "7"
    } else if d == 8 {
        "8"
    } else {
        "9"
    }
}

/// Renders `n` in decimal.
pub fn u64_to_string(n: u64) -> (s: String)
    ensures
        s@ =~= decimal_digits(n as nat),
    decreases n,
{
    if n < 10 {
        digit_str(n).to_owned()
    } else {
        let mut s = u64_to_string(n / 10);
        s.append(digit_str(n % 10));
        proof {
            assert(decimal_digits(n as nat) =~= decimal_digits(n as nat / 10).push(
                digit_char(n as nat % 10),
            ));
        }
        s
    }
}

/// Renders `n` in decimal, with a leading minus sign when it is negative.
pub open spec fn decimal_int(n: int) -> Seq<char> {
    if n < 0 {
        seq!['-'] + decimal_digits((-n) as nat)
    } else {
        decimal_digits(n as nat)
    }
}

pub fn i32_to_string(n: i32) -> (s: String)
    ensures
        s@ =~= decimal_int(n as int),
{
    if n >= 0 {
        u64_to_string(n as u64)
    } else {
        let magnitude: u64 = (-(n as i64)) as u64;
        let mut s = "-".to_owned();
        s.append(u64_to_string(magnitude).as_str());
        proof {
            reveal_strlit("-");
            assert(s@ =~= seq!['-'] + decimal_digits(magnitude as nat));
        }
        s
    }
}

/// Extending a digit string never decreases its value.
proof fn lemma_decimal_value_extend(s: Seq<char>, t: Seq<char>)
    requires
        s.len() <= t.len(),
        t.subrange(0, s.len() as int) =~= s,
    ensures
        decimal_value(t) >= decimal_value(s),
    decreases t.len() - s.len(),
{
    if s.len() == t.len() {
        assert(t =~= s);
    } else {
        lemma_decimal_value_extend(s, t.drop_last());
    }
}

/// Parses a non-empty, all-digit string into a `u64`; returns `None` on any
/// other character, on an empty string, and on a value over `u64::MAX`.
pub fn parse_u64(s: &str) -> (r: Option<u64>)
    ensures
        r is Some <==> s@.len() > 0 && all_digits(s@) && decimal_value(s@) <= u64::MAX,
        r matches Some(n) ==> n == decimal_value(s@),
{
    let len = s.unicode_len();
    if len == 0 {
        return None;
    }
    let mut acc: u64 = 0;
    let mut i: usize = 0;
    while i < len
        invariant
            len == s@.len(),
            0 <= i <= len,
            all_digits(s@.subrange(0, i as int)),
            acc == decimal_value(s@.subrange(0, i as int)),
        decreases len - i,
    {
        let c = s.get_char(i);
        let code = c as u32;
        if code < 48 || code > 57 {
            assert(!is_digit(s@[i as int]));
            return None;
        }
        let d = (code - 48) as u64;
        assert(is_digit(s@[i as int]) && digit_val(s@[i as int]) == d);
        if acc > (u64::MAX - d) / 10 {
            proof {
                let ext = s@.subrange(0, i as int + 1);
                assert(ext.drop_last() =~= s@.subrange(0, i as int));
                assert(decimal_value(ext) == acc * 10 + d);
                lemma_decimal_value_extend(ext, s@);
                assert(acc * 10 + d > u64::MAX) by (nonlinear_arith)
                    requires
                        acc > (u64::MAX - d) / 10,
                        d < 10,
                        acc <= u64::MAX,
                ;
            }
            return None;
        }
        assert(acc * 10 + d <= u64::MAX) by (nonlinear_arith)
            requires
                acc <= (u64::MAX - d) / 10,
                d < 10,
        ;
        proof {
            let ext = s@.subrange(0, i as int + 1);
            assert(ext.drop_last() =~= s@.subrange(0, i as int));
            assert(ext.last() == s@[i as int]);
        }
        acc = acc * 10 + d;
        i = i + 1;
    }
    proof {
        assert(s@.subrange(0, len as int) =~= s@);
    }
    Some(acc)
}

/// Character-for-character string equality.
pub fn str_eq(a: &str, b: &str) -> (r: bool)
    ensures
        r == (a@ == b@),
{
    let la = a.unicode_len();
    let lb = b.unicode_len();
    if la != lb {
        return false;
    }
    let mut i: usize = 0;
    while i < la
        invariant
            la == a@.len(),
            lb == b@.len(),
            la == lb,
            0 <= i <= la,
            forall|j: int| 0 <= j < i ==> a@[j] == b@[j],
        decreases la - i,
    {
        if a.get_char(i) != b.get_char(i) {
            return false;
        }
        i = i + 1;
    }
    proof {
        assert(a@ =~= b@);
    }
    true
}

/// Parses a decimal string into a non-negative `i32`, the form subject
/// identifiers take inside session tokens.
pub fn parse_id(s: &str) -> (r: Option<i32>)
    ensures
        r is Some <==> s@.len() > 0 && all_digits(s@) && decimal_value(s@) <= i32::MAX,
        r matches Some(n) ==> n == decimal_value(s@) && n >= 0,
{
    match parse_u64(s) {
        Some(n) => {
            if n <= i32::MAX as u64 {
                Some(n as i32)
            } else {
                None
            }
        },
        None => None,
    }
}

} // verus!
