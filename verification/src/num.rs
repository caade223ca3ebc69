//! Decimal digits: reading a digit run as a `u64` and rendering a `u64` as
//! digits.

use vstd::prelude::*;

verus! {

/// Whether `c` is a decimal digit.
pub open spec fn is_digit(c: char) -> bool {
    48 <= c as u32 <= 57
}

/// The numeric value of a digit character.
pub open spec fn digit_val(c: char) -> nat
    recommends
        is_digit(c),
{
    (c as u32 - 48) as nat
}

/// Whether every character of `s` is a decimal digit.
pub open spec fn all_digits(s: Seq<char>) -> bool {
    forall|i: int| 0 <= i < s.len() ==> is_digit(#[trigger] s[i])
}

/// The number spelled by the digit run `s`, most significant digit first.
pub open spec fn digits_val(s: Seq<char>) -> nat
    recommends
        all_digits(s),
    decreases s.len(),
{
    if s.len() == 0 {
        0
    } else {
        digits_val(s.drop_last()) * 10 + digit_val(s.last())
    }
}

/// The digit character for a value below ten.
pub open spec fn digit_char(d: nat) -> char
    recommends
        d < 10,
{
    if d == 0 {
        '0'
    } else if d == 1 {
        '1'
    } else if d == 2 {
        '2'
    } else if d == 3 {
        '3'
    } else if d == 4 {
        '4'
    } else if d == 5 {
        '5'
    } else if d == 6 {
        '6'
    } else if d == 7 {
        '7'
    } else if d == 8 {
        '8'
    } else {
        '9'
    }
}

/// The shortest decimal spelling of `n` (no leading zeros, except for zero
/// itself).
pub open spec fn dec_rep(n: nat) -> Seq<char>
    decreases n,
{
    if n < 10 {
        seq![digit_char(n)]
    } else {
        dec_rep(n / 10).push(digit_char(n % 10))
    }
}

/// A digit prefix never spells a larger number than the whole run.
proof fn lemma_digits_val_prefix_le(s: Seq<char>, i: int, j: int)
    requires
        0 <= i <= j <= s.len(),
    ensures
        digits_val(s.subrange(0, i)) <= digits_val(s.subrange(0, j)),
    decreases j - i,
{
    if i < j {
        lemma_digits_val_prefix_le(s, i, j - 1);
        let p = s.subrange(0, j);
        assert(p.drop_last() =~= s.subrange(0, j - 1));
        assert(digits_val(p) == digits_val(p.drop_last()) * 10 + digit_val(p.last()));
        assert(digits_val(p.drop_last()) * 10 >= digits_val(p.drop_last()));
    }
}

/// The digit character of a value below ten.
pub(crate) fn digit_to_char(d: u64) -> (c: char)
    requires
        d < 10,
    ensures
        c == digit_char(d as nat),
{
    if d == 0 {
        '0'
    } else if d == 1 {
        '1'
    } else if d == 2 {
        '2'
    } else if d == 3 {
        '3'
    } else if d == 4 {
        '4'
    } else if d == 5 {
        '5'
    } else if d == 6 {
        '6'
    } else if d == 7 {
        '7'
    } else if d == 8 {
        '8'
    } else {
        '9'
    }
}

/// The decimal spelling of `n`.
pub(crate) fn u64_to_chars(n: u64) -> (v: Vec<char>)
    ensures
        v@ == dec_rep(n as nat),
    decreases n,
{
    if n < 10 {
        let mut v: Vec<char> = Vec::new();
        v.push(digit_to_char(n));
        assert(v@ =~= dec_rep(n as nat));
        v
    } else {
        let mut v = u64_to_chars(n / 10);
        v.push(digit_to_char(n % 10));
        assert(v@ =~= dec_rep(n as nat));
        v
    }
}

/// Reads `v[from..to]` as a decimal number.  Returns `None` exactly when the
/// range holds a non-digit or the number does not fit in a `u64`.
pub(crate) fn chars_to_u64(v: &Vec<char>, from: usize, to: usize) -> (r: Option<u64>)
    requires
        from <= to <= v@.len(),
    ensures
        ({
            let s = v@.subrange(from as int, to as int);
            match r {
                Some(n) => all_digits(s) && n as nat == digits_val(s),
                None => !(all_digits(s) && digits_val(s) <= u64::MAX),
            }
        }),
{
    let ghost s = v@.subrange(from as int, to as int);
    let mut acc: u64 = 0;
    let mut i: usize = from;
    while i < to
        invariant
            from <= i <= to <= v@.len(),
            s == v@.subrange(from as int, to as int),
            all_digits(s.subrange(0, i - from)),
            acc as nat == digits_val(s.subrange(0, i - from)),
        decreases to - i,
    {
        let c = v[i];
        if !(c as u32 >= 48 && c as u32 <= 57) {
            assert(s[i - from] == c && !is_digit(c));
            return None;
        }
        let d: u64 = (c as u32 - 48) as u64;
        let ghost p = s.subrange(0, i + 1 - from);
        proof {
            assert(p.drop_last() =~= s.subrange(0, i - from));
            assert(p.last() == c);
        }
        match acc.checked_mul(10) {
            Some(m) => {
                match m.checked_add(d) {
                    Some(a) => {
                        acc = a;
                    },
                    None => {
                        proof {
                            lemma_digits_val_prefix_le(s, i + 1 - from, s.len() as int);
                            assert(s.subrange(0, s.len() as int) =~= s);
                        }
                        return None;
                    },
                }
            },
            None => {
                proof {
                    lemma_digits_val_prefix_le(s, i + 1 - from, s.len() as int);
                    assert(s.subrange(0, s.len() as int) =~= s);
                }
                return None;
            },
        }
        i = i + 1;
    }
    assert(s.subrange(0, (to - from) as int) =~= s);
    Some(acc)
}

} // verus!
