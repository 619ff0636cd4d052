//! Human-readable sizes and column-width text.
use vstd::prelude::*;
use vstd::string::StringExecFns;
use vstd::utf8::{decode_utf8, encode_utf8_decode_utf8};
use vstd::string::StringSliceAdditionalSpecFns;
use crate::text::{decimal, decimal_string};

verus! {

/// The unit index for a size: the largest `k <= 4` with `1024^k <= bytes`.
pub open spec fn unit_index(bytes: u64) -> nat {
    if bytes >= 1_099_511_627_776 {
        4
    } else if bytes >= 1_073_741_824 {
        3
    } else if bytes >= 1_048_576 {
        2
    } else if bytes >= 1024 {
        1
    } else {
        0
    }
}

/// `1024^k`.
pub open spec fn unit_scale(k: nat) -> int
    decreases k,
{
    if k == 0 {
        1
    } else {
        1024 * unit_scale((k - 1) as nat)
    }
}

/// The name of unit `k`: B, KB, MB, GB, TB.
pub open spec fn unit_name(k: nat) -> Seq<char> {
    if k == 0 {
        seq!['B']
    } else if k == 1 {
        seq!['K', 'B']
    } else if k == 2 {
        seq!['M', 'B']
    } else if k == 3 {
        seq!['G', 'B']
    } else {
        seq!['T', 'B']
    }
}

/// `n / d` rounded to the nearest integer, ties to the even one.
pub open spec fn div_round_even(n: int, d: int) -> int {
    let q = n / d;
    let r = n % d;
    if 2 * r > d || (2 * r == d && q % 2 == 1) {
        q + 1
    } else {
        q
    }
}

/// A size in hundredths of its unit, rounded to the nearest, ties to even.
pub open spec fn hundredths(bytes: u64) -> int {
    div_round_even(bytes * 100, unit_scale(unit_index(bytes)))
}

/// `bytes` in the largest unit it reaches, with two decimals: `"1.50 KB"`.
pub open spec fn format_bytes_spec(bytes: u64) -> Seq<char> {
    let h = hundredths(bytes);
    decimal((h / 100) as nat) + seq!['.'] + decimal(((h % 100) / 10) as nat) + decimal(
        (h % 10) as nat,
    ) + seq![' '] + unit_name(unit_index(bytes))
}

fn unit_str(k: u64) -> (r: &'static str)
    requires
        k <= 4,
    ensures
        r@ == unit_name(k as nat),
{
    proof {
        reveal_strlit("B");
        reveal_strlit("KB");
        reveal_strlit("MB");
        reveal_strlit("GB");
        reveal_strlit("TB");
    }
    if k == 0 {
        "B"
    } else if k == 1 {
        "KB"
    } else if k == 2 {
        "MB"
    } else if k == 3 {
        "GB"
    } else {
        "TB"
    }
}

/// `bytes * 100 / scale`, rounded to the nearest, ties to even.
fn hundredths_at(bytes: u64, scale: u128) -> (h: u128)
    requires
        1 <= scale <= 1_099_511_627_776,
    ensures
        h == div_round_even(bytes * 100, scale as int),
        h <= bytes * 100 + 1,
{
    let n: u128 = (bytes as u128) * 100;
    let q: u128 = n / scale;
    let rem: u128 = n % scale;
    assert(q <= n) by (nonlinear_arith)
        requires
            q == n / scale,
            scale >= 1,
            n >= 0,
    ;
    if 2 * rem > scale || (2 * rem == scale && q % 2 == 1) {
        q + 1
    } else {
        q
    }
}

/// Writes a size with two decimals in the largest of B, KB, MB, GB and TB (powers of
/// 1024) that it reaches, rounding to the nearest hundredth, ties to even.
pub fn format_bytes(bytes: u64) -> (r: String)
    ensures
        r@ == format_bytes_spec(bytes),
{
    let (k, scale): (u64, u128) = if bytes >= 1_099_511_627_776 {
        (4, 1_099_511_627_776)
    } else if bytes >= 1_073_741_824 {
        (3, 1_073_741_824)
    } else if bytes >= 1_048_576 {
        (2, 1_048_576)
    } else if bytes >= 1024 {
        (1, 1024)
    } else {
        (0, 1)
    };
    assert(k == unit_index(bytes));
    assert(scale == unit_scale(k as nat)) by {
        reveal_with_fuel(unit_scale, 5);
    }
    let h = hundredths_at(bytes, scale);
    assert(h == hundredths(bytes));
    let whole: u64 = (h / 100) as u64;
    let frac: u64 = (h % 100) as u64;
    let mut s = decimal_string(whole);
    s.append(".");
    let tens = decimal_string(frac / 10);
    s.append(tens.as_str());
    let ones = decimal_string(frac % 10);
    s.append(ones.as_str());
    s.append(" ");
    s.append(unit_str(k));
    proof {
        reveal_strlit(".");
        reveal_strlit(" ");
    }
    assert(s@ =~= format_bytes_spec(bytes));
    s
}

/// `s` cut to at most `max_len` bytes: kept whole when it fits, else its first
/// `max_len - 3` bytes followed by `...`.
pub open spec fn truncate_spec(s: &str, max_len: usize) -> Seq<char> {
    if s.spec_bytes().len() <= max_len {
        s@
    } else {
        decode_utf8(s.spec_bytes().subrange(0, max_len - 3)) + seq!['.', '.', '.']
    }
}

/// Fits `s` in `max_len` bytes, marking a cut with `...`. A cut must leave room for
/// the marker and fall on a character boundary.
pub fn truncate_string(s: &str, max_len: usize) -> (r: String)
    requires
        s.spec_bytes().len() > max_len ==> max_len >= 3 && vstd::utf8::is_char_boundary(
            s.spec_bytes(),
            max_len - 3,
        ),
    ensures
        r@ == truncate_spec(s, max_len),
{
    if s.as_bytes().len() <= max_len {
        return String::from_str(s);
    }
    let (head, _tail) = s.split_at(max_len - 3);
    proof {
        encode_utf8_decode_utf8(head@);
        reveal_strlit("...");
    }
    let mut r = String::from_str(head);
    r.append("...");
    assert(r@ =~= truncate_spec(s, max_len));
    r
}

} // verus!
