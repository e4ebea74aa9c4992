//! Decimal rendering of unsigned integers and the human-readable byte-count
//! formatter.
//!
//! Byte counts below 1 KiB print as a plain integer with a `B` suffix; larger
//! counts pick the largest unit (KB, MB, GB at successive powers of 1024)
//! whose threshold they reach and print the quotient with exactly two decimal
//! digits, rounded to the nearest hundredth with ties going to the even
//! hundredth.

use vstd::prelude::*;

verus! {

pub const KIB: u64 = 1024;

pub const MIB: u64 = 1024 * 1024;

pub const GIB: u64 = 1024 * 1024 * 1024;

/// The character for a single decimal digit.
pub open spec fn digit_char(d: nat) -> char {
    if d == 0 {
        '0'
    } else if d == 1 {
        '1'
    } else if d == 2 {
        '2'
    } else if d == 3 {
        '3'
    } else if d == 4 {
        '4'
    } else if d == 5 {
        '5'
    } else if d == 6 {
        '6'
    } else if d == 7 {
        '7'
    } else if d == 8 {
        '8'
    } else {
        '9'
    }
}

/// The decimal rendering of `n`, most significant digit first, with no
/// leading zeros (a single `'0'` for zero).
pub open spec fn dec_seq(n: nat) -> Seq<char>
    decreases n,
{
    if n < 10 {
        seq![digit_char(n)]
    } else {
        dec_seq(n / 10).push(digit_char(n % 10))
    }
}

/// The two-character zero-padded rendering of `n`, intended for `n < 100`.
pub open spec fn two_digit_seq(n: nat) -> Seq<char> {
    seq![digit_char((n / 10) % 10), digit_char(n % 10)]
}

/// `100 * b / unit` rounded to the nearest integer, ties to even.
pub open spec fn centi_units(b: nat, unit: nat) -> nat
    recommends
        unit > 0,
{
    let q = b * 100 / unit;
    let r = (b * 100) % unit;
    if 2 * r > unit || (2 * r == unit && q % 2 == 1) {
        (q + 1) as nat
    } else {
        q
    }
}

/// A hundredth count rendered as `<integer part>.<two fraction digits>`.
pub open spec fn fixed2_seq(c: nat) -> Seq<char> {
    dec_seq(c / 100) + seq!['.'] + two_digit_seq(c % 100)
}

/// The full human-readable rendering of a byte count.
pub open spec fn size_human_seq(b: nat) -> Seq<char> {
    if b < KIB {
        dec_seq(b) + seq![' ', 'B']
    } else if b < MIB {
        fixed2_seq(centi_units(b, KIB as nat)) + seq![' ', 'K', 'B']
    } else if b < GIB {
        fixed2_seq(centi_units(b, MIB as nat)) + seq![' ', 'M', 'B']
    } else {
        fixed2_seq(centi_units(b, GIB as nat)) + seq![' ', 'G', 'B']
    }
}

fn digit_str(d: u64) -> (r: &'static str)
    requires
        d < 10,
    ensures
        r@ == seq![digit_char(d as nat)],
{
    if d == 0 {
        proof {
            reveal_strlit("0");
            assert("0"@ =~= seq![digit_char(0)]);
        }
        "0"
    } else if d == 1 {
        proof {
            reveal_strlit("1");
            assert("1"@ =~= seq![digit_char(1)]);
        }
        "1"
    } else if d == 2 {
        proof {
            reveal_strlit("2");
            assert("2"@ =~= seq![digit_char(2)]);
        }
        "2"
    } else if d == 3 {
        proof {
            reveal_strlit("3");
            assert("3"@ =~= seq![digit_char(3)]);
        }
        "3"
    } else if d == 4 {
        proof {
            reveal_strlit("4");
            assert("4"@ =~= seq![digit_char(4)]);
        }
        "4"
    } else if d == 5 {
        proof {
            reveal_strlit("5");
            assert("5"@ =~= seq![digit_char(5)]);
        }
        "5"
    } else if d == 6 {
        proof {
            reveal_strlit("6");
            assert("6"@ =~= seq![digit_char(6)]);
        }
        "6"
    } else if d == 7 {
        proof {
            reveal_strlit("7");
            assert("7"@ =~= seq![digit_char(7)]);
        }
        "7"
    } else if d == 8 {
        proof {
            reveal_strlit("8");
            assert("8"@ =~= seq![digit_char(8)]);
        }
        "8"
    } else {
        proof {
            reveal_strlit("9");
            assert("9"@ =~= seq![digit_char(9)]);
        }
        "9"
    }
}

/// Appends the decimal rendering of `n` to `s`.
pub fn append_decimal(s: &mut String, n: u64)
    ensures
        final(s)@ == old(s)@ + dec_seq(n as nat),
    decreases n,
{
    if n < 10 {
        s.append(digit_str(n));
        proof {
            assert(old(s)@ + seq![digit_char(n as nat)] =~= old(s)@ + dec_seq(n as nat));
        }
    } else {
        append_decimal(s, n / 10);
        s.append(digit_str(n % 10));
        proof {
            assert(old(s)@ + dec_seq((n / 10) as nat) + seq![digit_char((n % 10) as nat)] =~= old(
                s,
            )@ + dec_seq(n as nat));
        }
    }
}

/// The decimal rendering of `n` as a fresh string.
pub fn u64_to_decimal_string(n: u64) -> (r: String)
    ensures
        r@ == dec_seq(n as nat),
{
    let mut s = String::new();
    append_decimal(&mut s, n);
    proof {
        assert(Seq::<char>::empty() + dec_seq(n as nat) =~= dec_seq(n as nat));
    }
    s
}

/// Appends the two-digit zero-padded rendering of `n` to `s`.
pub fn append_two_digits(s: &mut String, n: u64)
    requires
        n < 100,
    ensures
        final(s)@ == old(s)@ + two_digit_seq(n as nat),
{
    s.append(digit_str(n / 10));
    s.append(digit_str(n % 10));
    proof {
        assert(old(s)@ + seq![digit_char((n / 10) as nat)] + seq![digit_char((n % 10) as nat)]
            =~= old(s)@ + two_digit_seq(n as nat));
    }
}

fn centi_units_exec(b: u64, unit: u64) -> (c: u64)
    requires
        1024 <= unit,
    ensures
        c == centi_units(b as nat, unit as nat),
{
    let p: u128 = (b as u128) * 100;
    let q: u128 = p / (unit as u128);
    let r: u128 = p % (unit as u128);
    proof {
        assert(q <= p / 1024) by {
            vstd::arithmetic::div_mod::lemma_div_is_ordered_by_denominator(
                p as int,
                1024,
                unit as int,
            );
        }
        assert(p / 1024 < 0x10000000000000000u128 * 100 / 1024);
    }
    let rounded: u128 = if 2 * r > unit as u128 || (2 * r == unit as u128 && q % 2 == 1) {
        q + 1
    } else {
        q
    };
    rounded as u64
}

fn append_fixed2(s: &mut String, b: u64, unit: u64)
    requires
        1024 <= unit,
    ensures
        final(s)@ == old(s)@ + fixed2_seq(centi_units(b as nat, unit as nat)),
{
    let c = centi_units_exec(b, unit);
    append_decimal(s, c / 100);
    proof {
        reveal_strlit(".");
        assert("."@ =~= seq!['.']);
    }
    s.append(".");
    append_two_digits(s, c % 100);
    proof {
        assert(old(s)@ + dec_seq((c / 100) as nat) + seq!['.'] + two_digit_seq((c % 100) as nat)
            =~= old(s)@ + fixed2_seq(c as nat));
    }
}

/// Formats a raw byte count as a display string: a plain integer with a
/// `" B"` suffix below 1024 bytes, otherwise a two-decimal quotient of the
/// largest reached power-of-1024 unit with a `" KB"`, `" MB"` or `" GB"`
/// suffix.
pub fn human_readable_size(bytes: u64) -> (r: String)
    ensures
        r@ == size_human_seq(bytes as nat),
{
    proof {
        reveal_strlit(" B");
        assert(" B"@ =~= seq![' ', 'B']);
        reveal_strlit(" KB");
        assert(" KB"@ =~= seq![' ', 'K', 'B']);
        reveal_strlit(" MB");
        assert(" MB"@ =~= seq![' ', 'M', 'B']);
        reveal_strlit(" GB");
        assert(" GB"@ =~= seq![' ', 'G', 'B']);
    }
    let mut s = String::new();
    if bytes >= GIB {
        append_fixed2(&mut s, bytes, GIB);
        s.append(" GB");
    } else if bytes >= MIB {
        append_fixed2(&mut s, bytes, MIB);
        s.append(" MB");
    } else if bytes >= KIB {
        append_fixed2(&mut s, bytes, KIB);
        s.append(" KB");
    } else {
        append_decimal(&mut s, bytes);
        s.append(" B");
    }
    proof {
        assert(s@ =~= size_human_seq(bytes as nat));
    }
    s
}

} // verus!
