//! Decimal strings: amounts and prices are carried as decimal strings,
//! never floating point. This module gives digit runs a value, renders
//! unsigned integers, and checks that an amount is a positive decimal.

use vstd::prelude::*;

verus! {

/// True of an ASCII decimal digit.
pub open spec fn is_digit(c: char) -> bool {
    48 <= c as int <= 57
}

/// Numeric value of one digit character.
pub open spec fn digit_val(c: char) -> nat {
    (c as int - 48) as nat
}

/// True when every character of `s` is a decimal digit.
pub open spec fn all_digits(s: Seq<char>) -> bool {
    forall|i: int| 0 <= i < s.len() ==> is_digit(#[trigger] s[i])
}

/// Value of a digit run, most significant digit first.
pub open spec fn digits_val(s: Seq<char>) -> nat
    decreases s.len(),
{
    if s.len() == 0 {
        0
    } else {
        digits_val(s.drop_last()) * 10 + digit_val(s.last())
    }
}

/// The digit character for `d % 10`.
pub open spec fn digit_char(d: nat) -> char {
    ((48 + (d % 10)) as u8) as char
}

/// Decimal rendering of `n`, most significant digit first, no sign and no
/// leading zeros.
pub open spec fn dec_str(n: nat) -> Seq<char>
    decreases n,
{
    if n < 10 {
        seq![digit_char(n)]
    } else {
        dec_str(n / 10).push(digit_char(n % 10))
    }
}

/// A positive decimal amount: nonempty, all digits, and not all zeros.
pub open spec fn is_pos_decimal(s: Seq<char>) -> bool {
    &&& s.len() > 0
    &&& all_digits(s)
    &&& exists|i: int| 0 <= i < s.len() && #[trigger] s[i] != '0'
}

/// The one-character string for a digit.
fn digit_str(d: u64) -> (r: &'static str)
    requires
        d < 10,
    ensures
        r@ == seq![digit_char(d as nat)],
{
    proof {
        reveal_strlit("0");
        reveal_strlit("1");
        reveal_strlit("2");
        reveal_strlit("3");
        reveal_strlit("4");
        reveal_strlit("5");
        reveal_strlit("6");
        reveal_strlit("7");
        reveal_strlit("8");
        reveal_strlit("9");
    }
    let r: &'static str = match d {
        0 => "0",
        1 => "1",
        2 => "2",
        3 => "3",
        4 => "4",
        5 => "5",
        6 => "6",
        7 => "7",
        8 => "8",
        _ => "9",
    };
    proof {
        assert(r@ =~= seq![digit_char(d as nat)]);
    }
    r
}

/// Renders `n` in decimal.
pub fn u64_to_dec(n: u64) -> (r: String)
    ensures
        r@ == dec_str(n as nat),
    decreases n,
{
    if n < 10 {
        String::from_str(digit_str(n))
    } else {
        let mut s = u64_to_dec(n / 10);
        s.append(digit_str(n % 10));
        proof {
            assert(s@ =~= dec_str((n / 10) as nat).push(digit_char((n % 10) as nat)));
        }
        s
    }
}

/// Checks that `s` is a well-formed positive decimal amount.
pub fn check_pos_decimal(s: &str) -> (r: bool)
    ensures
        r == is_pos_decimal(s@),
{
    let len: usize = s.unicode_len();
    if len == 0 {
        return false;
    }
    let mut i: usize = 0;
    let mut nonzero: bool = false;
    while i < len
        invariant
            0 <= i <= len,
            len == s@.len(),
            forall|k: int| 0 <= k < i ==> is_digit(#[trigger] s@[k]),
            nonzero == exists|k: int| 0 <= k < i && #[trigger] s@[k] != '0',
        decreases len - i,
    {
        let c = s.get_char(i);
        let u = c as u32;
        if !(48 <= u && u <= 57) {
            return false;
        }
        if u != 48 {
            nonzero = true;
        }
        i = i + 1;
    }
    nonzero
}

/// First position at or after `i` in `s` that does not hold a digit.
pub open spec fn num_end(s: Seq<char>, i: int) -> int
    decreases s.len() - i,
{
    if 0 <= i < s.len() && is_digit(s[i]) {
        num_end(s, i + 1)
    } else {
        i
    }
}

/// The end of a digit run bounds its positions.
pub proof fn lemma_num_end_bounds(s: Seq<char>, i: int)
    requires
        0 <= i <= s.len(),
    ensures
        i <= num_end(s, i) <= s.len(),
        forall|k: int| i <= k < num_end(s, i) ==> is_digit(#[trigger] s[k]),
    decreases s.len() - i,
{
    if 0 <= i < s.len() && is_digit(s[i]) {
        lemma_num_end_bounds(s, i + 1);
    }
}

/// True when position `j` of `s` holds a digit.
fn at_digit(s: &str, j: usize) -> (r: bool)
    requires
        j <= s@.len(),
    ensures
        r == (j < s@.len() && is_digit(s@[j as int])),
{
    if j < s.unicode_len() {
        let u = s.get_char(j) as u32;
        48 <= u && u <= 57
    } else {
        false
    }
}

/// Reads the digit run starting at `i`: its end, and its value when it
/// fits in `u64`.
pub fn scan_u64(s: &str, i: usize) -> (r: (usize, Option<u64>))
    requires
        i <= s@.len(),
        s@.len() <= usize::MAX,
    ensures
        r.0 == num_end(s@, i as int),
        match r.1 {
            Some(v) => v == digits_val(s@.subrange(i as int, r.0 as int)),
            None => digits_val(s@.subrange(i as int, r.0 as int)) > u64::MAX,
        },
{
    let len: usize = s.unicode_len();
    let mut j: usize = i;
    let mut acc: Option<u64> = Some(0);
    proof {
        assert(s@.subrange(i as int, i as int) =~= Seq::<char>::empty());
    }
    while at_digit(s, j)
        invariant
            i <= j <= len,
            len == s@.len(),
            s@.len() <= usize::MAX,
            num_end(s@, i as int) == num_end(s@, j as int),
            forall|k: int| i <= k < j ==> is_digit(#[trigger] s@[k]),
            match acc {
                Some(v) => v == digits_val(s@.subrange(i as int, j as int)),
                None => digits_val(s@.subrange(i as int, j as int)) > u64::MAX,
            },
        decreases len - j,
    {
        let c = s.get_char(j);
        let d: u64 = (c as u32 - 48) as u64;
        proof {
            assert(is_digit(s@[j as int]));
            assert(d == digit_val(s@[j as int]));
            assert(s@.subrange(i as int, j as int + 1).drop_last() =~= s@.subrange(
                i as int,
                j as int,
            ));
            assert(digits_val(s@.subrange(i as int, j as int + 1)) == digits_val(
                s@.subrange(i as int, j as int),
            ) * 10 + d);
        }
        acc = match acc {
            Some(a) => {
                if a <= (u64::MAX - d) / 10 {
                    proof {
                        vstd::arithmetic::div_mod::lemma_fundamental_div_mod(
                            (u64::MAX - d) as int,
                            10,
                        );
                    }
                    Some(a * 10 + d)
                } else {
                    proof {
                        vstd::arithmetic::div_mod::lemma_fundamental_div_mod(
                            (u64::MAX - d) as int,
                            10,
                        );
                    }
                    None
                }
            },
            None => None,
        };
        proof {
            assert(num_end(s@, j as int) == num_end(s@, j as int + 1));
        }
        j = j + 1;
    }
    proof {
        if j < len {
            assert(!is_digit(s@[j as int]));
        }
        assert(num_end(s@, j as int) == j);
    }
    (j, acc)
}

} // verus!
