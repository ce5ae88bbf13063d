use vstd::prelude::*;
use vstd::string::*;

verus! {

/// A decimal digit.
pub open spec fn is_digit(c: char) -> bool {
    '0' <= c && c <= '9'
}

/// The value of a digit character.
pub open spec fn digit_value(c: char) -> int {
    (c as u32) - ('0' as u32)
}

/// The value of a string of decimal digits, most significant first.
pub open spec fn digits_value(s: Seq<char>) -> int
    decreases s.len(),
{
    if s.len() == 0 {
        0
    } else {
        digits_value(s.drop_last()) * 10 + digit_value(s.last())
    }
}

/// The digits of an unsigned number: the text without one leading `+`.
pub open spec fn unsigned_digits(s: Seq<char>) -> Seq<char> {
    if s.len() > 0 && s[0] == '+' {
        s.drop_first()
    } else {
        s
    }
}

/// Whether the text is an unsigned decimal number: an optional `+`, then
/// at least one digit and nothing else.
pub open spec fn is_unsigned(s: Seq<char>) -> bool {
    let d = unsigned_digits(s);
    d.len() > 0 && forall|i: int| 0 <= i < d.len() ==> is_digit(#[trigger] d[i])
}

/// The value of an unsigned decimal number.
pub open spec fn unsigned_value(s: Seq<char>) -> int {
    digits_value(unsigned_digits(s))
}

/// What reading the text as a `u64` gives: the number where the text is one
/// and it fits, nothing otherwise.
pub open spec fn parsed_unsigned(s: Seq<char>) -> Option<u64> {
    if is_unsigned(s) && unsigned_value(s) <= u64::MAX {
        Some(unsigned_value(s) as u64)
    } else {
        None
    }
}

/// Reads an unsigned decimal number that fits in a `u64`.
pub fn parse_unsigned(s: &str) -> (r: Option<u64>)
    ensures
        r == parsed_unsigned(s@),
{
    let n = s.unicode_len();
    let mut i: usize = 0;
    if n > 0 && s.get_char(0) == '+' {
        i = 1;
    }
    let first = i;
    let ghost d = unsigned_digits(s@);
    assert(d =~= s@.subrange(first as int, n as int));
    if i == n {
        return None;
    }
    let mut acc: u64 = 0;
    let mut overflow = false;
    let ghost mut value: int = 0;
    while i < n
        invariant
            first <= i <= n,
            n == s@.len(),
            d =~= s@.subrange(first as int, n as int),
            d == unsigned_digits(s@),
            forall|k: int| 0 <= k < i - first ==> is_digit(#[trigger] d[k]),
            value == digits_value(d.subrange(0, i - first)),
            value >= 0,
            !overflow ==> acc == value,
            overflow ==> value > u64::MAX,
        decreases n - i,
    {
        let c = s.get_char(i);
        if !('0' <= c && c <= '9') {
            assert(d[i - first] == c);
            assert(!is_digit(d[i - first]));
            assert(!is_unsigned(s@));
            return None;
        }
        let dv = (c as u32 - '0' as u32) as u64;
        proof {
            let p = d.subrange(0, i + 1 - first);
            assert(p.drop_last() =~= d.subrange(0, i - first));
            assert(p.last() == c);
            let old_value = value;
            value = value * 10 + dv;
            assert(value >= old_value) by (nonlinear_arith)
                requires
                    value == old_value * 10 + dv,
                    old_value >= 0,
                    dv >= 0,
            ;
        }
        if !overflow {
            if acc > (u64::MAX - dv) / 10 {
                assert(acc * 10 + dv > u64::MAX) by (nonlinear_arith)
                    requires
                        acc > (u64::MAX - dv) / 10,
                        dv <= 9,
                ;
                overflow = true;
            } else {
                assert(acc * 10 + dv <= u64::MAX) by (nonlinear_arith)
                    requires
                        acc <= (u64::MAX - dv) / 10,
                        dv <= 9,
                ;
                acc = acc * 10 + dv;
            }
        }
        i = i + 1;
    }
    assert(d.subrange(0, n - first) =~= d);
    if overflow {
        None
    } else {
        Some(acc)
    }
}

} // verus!
