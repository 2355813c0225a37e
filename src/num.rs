//! Decimal numbers in text, as `u32::from_str` and `i64::from_str` read them.

use vstd::prelude::*;

verus! {

pub open spec fn is_digit(c: char) -> bool {
    '0' <= c && c <= '9'
}

/// Value of a run of decimal digits.
pub open spec fn digits_value(s: Seq<char>) -> int
    decreases s.len(),
{
    if s.len() == 0 {
        0
    } else {
        digits_value(s.drop_last()) * 10 + (s.last() as int - '0' as int)
    }
}

pub open spec fn all_digits(s: Seq<char>) -> bool {
    forall|i: int| 0 <= i < s.len() ==> is_digit(#[trigger] s[i])
}

/// The digits after an optional sign character `sign`.
pub open spec fn unsigned_part(s: Seq<char>, sign: char) -> Seq<char> {
    if s.len() > 0 && s[0] == sign {
        s.drop_first()
    } else {
        s
    }
}

/// The value of `[+]digits`, if `s` has that shape.
pub open spec fn unsigned_value(s: Seq<char>) -> Option<int> {
    let d = unsigned_part(s, '+');
    if d.len() > 0 && all_digits(d) {
        Some(digits_value(d))
    } else {
        None
    }
}

/// The value of `[+|-]digits`, if `s` has that shape.
pub open spec fn signed_value(s: Seq<char>) -> Option<int> {
    if s.len() > 0 && s[0] == '-' {
        let d = s.drop_first();
        if d.len() > 0 && all_digits(d) {
            Some(-digits_value(d))
        } else {
            None
        }
    } else {
        unsigned_value(s)
    }
}

proof fn lemma_digits_nonneg(s: Seq<char>)
    requires
        all_digits(s),
    ensures
        digits_value(s) >= 0,
    decreases s.len(),
{
    if s.len() > 0 {
        assert(is_digit(s[s.len() - 1]));
        assert(all_digits(s.drop_last())) by {
            assert forall|i: int| 0 <= i < s.drop_last().len() implies is_digit(
                #[trigger] s.drop_last()[i],
            ) by {
                assert(s.drop_last()[i] == s[i]);
            }
        }
        lemma_digits_nonneg(s.drop_last());
    }
}

/// Reads the digits of `v[a..b]`; `None` where a character is no digit or the
/// value exceeds `limit`.
fn read_digits(v: &Vec<char>, a: usize, b: usize, limit: u64) -> (r: Option<u64>)
    requires
        a <= b <= v@.len(),
        9 <= limit,
    ensures
        match r {
            Some(n) => all_digits(v@.subrange(a as int, b as int)) && n == digits_value(
                v@.subrange(a as int, b as int),
            ) && n <= limit,
            None => !all_digits(v@.subrange(a as int, b as int)) || digits_value(
                v@.subrange(a as int, b as int),
            ) > limit,
        },
{
    let mut acc: u64 = 0;
    let mut too_big = false;
    let mut i: usize = a;
    while i < b
        invariant
            a <= i <= b <= v@.len(),
            9 <= limit,
            all_digits(v@.subrange(a as int, i as int)),
            !too_big ==> acc == digits_value(v@.subrange(a as int, i as int)) && acc <= limit,
            too_big ==> digits_value(v@.subrange(a as int, i as int)) > limit,
        decreases b - i,
    {
        let c = v[i];
        if !('0' <= c && c <= '9') {
            assert(v@.subrange(a as int, b as int)[i - a] == c);
            return None;
        }
        let ghost prev = v@.subrange(a as int, i as int);
        let ghost next = v@.subrange(a as int, i + 1);
        assert(next.drop_last() =~= prev);
        assert(all_digits(next)) by {
            assert forall|j: int| 0 <= j < next.len() implies is_digit(#[trigger] next[j]) by {
                if j < prev.len() {
                    assert(next[j] == prev[j]);
                }
            }
        }
        proof {
            lemma_digits_nonneg(prev);
        }
        let d = (c as u32 - '0' as u32) as u64;
        if !too_big {
            if acc > (limit - d) / 10 {
                too_big = true;
                assert(acc * 10 + d > limit) by (nonlinear_arith)
                    requires
                        acc > (limit - d) / 10,
                        d <= 9,
                ;
            } else {
                assert(acc * 10 + d <= limit) by (nonlinear_arith)
                    requires
                        acc <= (limit - d) / 10,
                        d <= 9,
                ;
                acc = acc * 10 + d;
            }
        } else {
            assert(digits_value(prev) * 10 + d >= digits_value(prev)) by (nonlinear_arith)
                requires
                    digits_value(prev) >= 0,
                    d >= 0,
            ;
        }
        i = i + 1;
    }
    if too_big {
        None
    } else {
        Some(acc)
    }
}

/// `u32::from_str` on `v[a..b]`.
pub fn parse_u32(v: &Vec<char>, a: usize, b: usize) -> (r: Option<u32>)
    requires
        a <= b <= v@.len(),
    ensures
        match unsigned_value(v@.subrange(a as int, b as int)) {
            Some(n) => if n <= u32::MAX {
                r == Some(n as u32)
            } else {
                r is None
            },
            None => r is None,
        },
{
    let ghost s = v@.subrange(a as int, b as int);
    let mut start = a;
    if a < b && v[a] == '+' {
        start = a + 1;
        assert(s.drop_first() =~= v@.subrange(start as int, b as int));
    } else {
        assert(s =~= v@.subrange(start as int, b as int));
    }
    if start == b {
        return None;
    }
    match read_digits(v, start, b, 0xffff_ffff) {
        Some(n) => Some(n as u32),
        None => None,
    }
}

/// `i64::from_str` on `v[a..b]`.
pub fn parse_i64(v: &Vec<char>, a: usize, b: usize) -> (r: Option<i64>)
    requires
        a <= b <= v@.len(),
    ensures
        match signed_value(v@.subrange(a as int, b as int)) {
            Some(n) => if i64::MIN <= n <= i64::MAX {
                r == Some(n as i64)
            } else {
                r is None
            },
            None => r is None,
        },
{
    let ghost s = v@.subrange(a as int, b as int);
    if a < b && v[a] == '-' {
        assert(s.drop_first() =~= v@.subrange(a + 1, b as int));
        if a + 1 == b {
            return None;
        }
        match read_digits(v, a + 1, b, 0x8000_0000_0000_0000) {
            Some(n) => {
                if n == 0x8000_0000_0000_0000 {
                    Some(i64::MIN)
                } else {
                    Some(-(n as i64))
                }
            },
            None => None,
        }
    } else {
        let mut start = a;
        if a < b && v[a] == '+' {
            start = a + 1;
            assert(s.drop_first() =~= v@.subrange(start as int, b as int));
        } else {
            assert(s =~= v@.subrange(start as int, b as int));
        }
        if start == b {
            return None;
        }
        match read_digits(v, start, b, 0x7fff_ffff_ffff_ffff) {
            Some(n) => Some(n as i64),
            None => None,
        }
    }
}

/// `u64::from_str` on `v[a..b]`.
pub fn parse_u64(v: &Vec<char>, a: usize, b: usize) -> (r: Option<u64>)
    requires
        a <= b <= v@.len(),
    ensures
        unsigned_value(v@.subrange(a as int, b as int)) matches Some(n) ==> 0 <= n,
        match unsigned_value(v@.subrange(a as int, b as int)) {
            Some(n) => if n <= u64::MAX {
                r == Some(n as u64)
            } else {
                r is None
            },
            None => r is None,
        },
{
    let ghost s = v@.subrange(a as int, b as int);
    let mut start = a;
    if a < b && v[a] == '+' {
        start = a + 1;
        assert(s.drop_first() =~= v@.subrange(start as int, b as int));
    } else {
        assert(s =~= v@.subrange(start as int, b as int));
    }
    proof {
        let d = unsigned_part(s, '+');
        if d.len() > 0 && all_digits(d) {
            lemma_digits_nonneg(d);
        }
    }
    if start == b {
        return None;
    }
    read_digits(v, start, b, 0xffff_ffff_ffff_ffff)
}

/// The decimal digit character for `d`.
pub open spec fn digit_char(d: int) -> char {
    ((d + 48) as u8) as char
}

/// The decimal text of `n`, without leading zeros.
pub open spec fn decimal_text(n: nat) -> Seq<char>
    decreases n,
{
    if n < 10 {
        seq![digit_char(n as int)]
    } else {
        decimal_text(n / 10).push(digit_char((n % 10) as int))
    }
}

/// The decimal text of `n`.
pub fn decimal(n: u64) -> (r: String)
    ensures
        r@ == decimal_text(n as nat),
    decreases n,
{
    if n < 10 {
        let mut s = String::new();
        crate::text::push_char(&mut s, ((n as u8) + 48) as char);
        assert(s@ =~= seq![digit_char(n as int)]);
        s
    } else {
        let mut s = decimal(n / 10);
        crate::text::push_char(&mut s, (((n % 10) as u8) + 48) as char);
        s
    }
}

} // verus!
