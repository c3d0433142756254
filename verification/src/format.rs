//! Human-readable file sizes.
//!
//! A size is shown in the largest binary unit it reaches, with one
//! decimal digit, rounded to nearest with ties to even — in whole bytes
//! below one kibibyte.  All arithmetic is integral; the decimal digit is
//! the rounded count of tenths of the chosen unit.

use vstd::prelude::*;
use vstd::string::*;

verus! {

pub open spec fn digit_char_of(d: int) -> char {
    if d == 0 {
        '0'
    } else if d == 1 {
        '1'
    } else if d == 2 {
        '2'
    } else if d == 3 {
        '3'
    } else if d == 4 {
        '4'
    } else if d == 5 {
        '5'
    } else if d == 6 {
        '6'
    } else if d == 7 {
        '7'
    } else if d == 8 {
        '8'
    } else {
        '9'
    }
}

/// The decimal digits of `n`, most significant first.
pub open spec fn dec_digits(n: nat) -> Seq<char>
    decreases n,
{
    if n < 10 {
        seq![digit_char_of(n as int)]
    } else {
        dec_digits(n / 10) + seq![digit_char_of((n % 10) as int)]
    }
}

/// Index of the largest unit that `size` reaches: 0 for bytes up to 4
/// for tebibytes.
pub open spec fn unit_index_of(size: nat) -> int {
    if size >= 0x10000000000 {
        4
    } else if size >= 0x40000000 {
        3
    } else if size >= 0x100000 {
        2
    } else if size >= 0x400 {
        1
    } else {
        0
    }
}

pub open spec fn unit_name(k: int) -> Seq<char> {
    if k == 0 {
        "B"@
    } else if k == 1 {
        "KB"@
    } else if k == 2 {
        "MB"@
    } else if k == 3 {
        "GB"@
    } else {
        "TB"@
    }
}

pub open spec fn unit_divisor(k: int) -> nat {
    if k <= 0 {
        1
    } else if k == 1 {
        0x400
    } else if k == 2 {
        0x100000
    } else if k == 3 {
        0x40000000
    } else {
        0x10000000000
    }
}

/// `size` in tenths of unit `k`, rounded to nearest, ties to even.
pub open spec fn tenths_rounded(size: nat, k: int) -> nat {
    let num = size * 10;
    let den = unit_divisor(k);
    let q = num / den;
    let r = num % den;
    if 2 * r > den {
        q + 1
    } else if 2 * r < den {
        q
    } else if q % 2 == 0 {
        q
    } else {
        q + 1
    }
}

/// A size as shown: whole bytes below one kibibyte, else one decimal
/// digit of the chosen unit.
pub open spec fn spec_format_size(size: nat) -> Seq<char> {
    let k = unit_index_of(size);
    if k == 0 {
        dec_digits(size) + " B"@
    } else {
        let t = tenths_rounded(size, k);
        dec_digits(t / 10) + "."@ + seq![digit_char_of((t % 10) as int)] + " "@ + unit_name(k)
    }
}

fn digit_str(d: u64) -> (r: &'static str)
    requires
        d < 10,
    ensures
        r@ == seq![digit_char_of(d as int)],
{
    proof {
        reveal_strlit("0");
        reveal_strlit("1");
        reveal_strlit("2");
        reveal_strlit("3");
        reveal_strlit("4");
        reveal_strlit("5");
        reveal_strlit("6");
        reveal_strlit("7");
        reveal_strlit("8");
        reveal_strlit("9");
    }
    if d == 0 {
        "0"
    } else if d == 1 {
        "1"
    } else if d == 2 {
        "2"
    } else if d == 3 {
        "3"
    } else if d == 4 {
        "4"
    } else if d == 5 {
        "5"
    } else if d == 6 {
        "6"
    } else if d == 7 {
        "7"
    } else if d == 8 {
        "8"
    } else {
        "9"
    }
}

/// `n` in decimal.
pub fn dec_string(n: u64) -> (r: String)
    ensures
        r@ == dec_digits(n as nat),
    decreases n,
{
    if n < 10 {
        digit_str(n).to_owned()
    } else {
        let mut s = dec_string(n / 10);
        s.append(digit_str(n % 10));
        s
    }
}

fn unit_str(k: usize) -> (r: &'static str)
    requires
        k <= 4,
    ensures
        r@ == unit_name(k as int),
{
    if k == 0 {
        "B"
    } else if k == 1 {
        "KB"
    } else if k == 2 {
        "MB"
    } else if k == 3 {
        "GB"
    } else {
        "TB"
    }
}

/// A size as shown beside a file.
pub fn format_size(size: u64) -> (r: String)
    ensures
        r@ == spec_format_size(size as nat),
{
    let k: usize = if size >= 0x10000000000 {
        4
    } else if size >= 0x40000000 {
        3
    } else if size >= 0x100000 {
        2
    } else if size >= 0x400 {
        1
    } else {
        0
    };
    if k == 0 {
        let mut s = dec_string(size);
        s.append(" B");
        proof {
            assert(s@ =~= spec_format_size(size as nat));
        }
        s
    } else {
        let den: u128 = if k == 1 {
            0x400
        } else if k == 2 {
            0x100000
        } else if k == 3 {
            0x40000000
        } else {
            0x10000000000
        };
        let num: u128 = (size as u128) * 10;
        let q: u128 = num / den;
        let rem: u128 = num % den;
        let t: u128 = if 2 * rem > den {
            q + 1
        } else if 2 * rem < den {
            q
        } else if q % 2 == 0 {
            q
        } else {
            q + 1
        };
        proof {
            assert(t == tenths_rounded(size as nat, k as int));
            assert(num / den <= num / 0x400) by (nonlinear_arith)
                requires
                    den >= 0x400,
                    num >= 0,
            ;
            assert(t <= 0xffffffffffffffff);
        }
        let whole: u64 = (t / 10) as u64;
        let tenth: u64 = (t % 10) as u64;
        let mut s = dec_string(whole);
        s.append(".");
        s.append(digit_str(tenth));
        s.append(" ");
        s.append(unit_str(k));
        proof {
            reveal_strlit(".");
            reveal_strlit(" ");
            assert(s@ =~= spec_format_size(size as nat));
        }
        s
    }
}

/// A size as shown in the uploads list.
pub fn format_file_size(size: u64) -> (r: String)
    ensures
        r@ == spec_format_size(size as nat),
{
    format_size(size)
}

} // verus!
