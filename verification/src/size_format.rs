//! Human-readable byte counts, and decimal text for integers.

use vstd::prelude::*;
use crate::text::string_of;

verus! {

/// The digit character for `d`, which is below ten.
pub open spec fn digit_of(d: nat) -> char {
    if d == 0 { '0' }
    else if d == 1 { '1' }
    else if d == 2 { '2' }
    else if d == 3 { '3' }
    else if d == 4 { '4' }
    else if d == 5 { '5' }
    else if d == 6 { '6' }
    else if d == 7 { '7' }
    else if d == 8 { '8' }
    else { '9' }
}

/// The decimal digits of `n`, most significant first, without leading zeros.
pub open spec fn decimal(n: nat) -> Seq<char>
    decreases n,
{
    if n < 10 {
        seq![digit_of(n)]
    } else {
        decimal(n / 10).push(digit_of(n % 10))
    }
}

/// The character for the digit `d`.
pub fn digit(d: u8) -> (r: char)
    requires
        d < 10,
    ensures
        r == digit_of(d as nat),
{
    if d == 0 { '0' }
    else if d == 1 { '1' }
    else if d == 2 { '2' }
    else if d == 3 { '3' }
    else if d == 4 { '4' }
    else if d == 5 { '5' }
    else if d == 6 { '6' }
    else if d == 7 { '7' }
    else if d == 8 { '8' }
    else { '9' }
}

/// The decimal digits of `n`.
pub fn decimal_chars(n: u128) -> (r: Vec<char>)
    ensures
        r@ == decimal(n as nat),
{
    let mut acc: Vec<char> = Vec::new();
    let mut x = n;
    while x >= 10
        invariant
            decimal(n as nat) == decimal(x as nat) + acc@,
        decreases x,
    {
        let d = digit((x % 10) as u8);
        let ghost before = acc@;
        acc.insert(0, d);
        assert(acc@ =~= seq![d] + before);
        assert(decimal(x as nat) == decimal((x / 10) as nat).push(d));
        assert(decimal((x / 10) as nat).push(d) + before =~= decimal((x / 10) as nat) + acc@);
        x = x / 10;
    }
    let d = digit(x as u8);
    let ghost before = acc@;
    acc.insert(0, d);
    assert(acc@ =~= seq![d] + before);
    acc
}

/// The decimal text of `n`, as `n.to_string()` writes it.
pub fn u64_text(n: u64) -> (r: String)
    ensures
        r@ == decimal(n as nat),
{
    let v = decimal_chars(n as u128);
    string_of(v.as_slice())
}

/// Two to the power `e`.
pub open spec fn pow2n(e: nat) -> nat
    decreases e,
{
    if e == 0 { 1 } else { 2 * pow2n((e - 1) as nat) }
}

/// How many low bits `b` has beyond the 53 that a `f64` keeps.
pub open spec fn scale_exp(b: nat) -> nat
    decreases b,
{
    if b < 0x20_0000_0000_0000 { 0 } else { 1 + scale_exp(b / 2) }
}

/// `q`, or `q + 1` when the remainder `r` of a division by `d` is more than
/// half of `d`, or exactly half and `q` is odd: rounding half to even.
pub open spec fn round_even(q: nat, r: nat, d: nat) -> nat {
    if r * 2 > d || (r * 2 == d && q % 2 == 1) { q + 1 } else { q }
}

/// The value that `b as f64` holds: `b` rounded to 53 significant bits, ties to even.
pub open spec fn f64_value(b: nat) -> nat {
    let p = pow2n(scale_exp(b));
    round_even(b / p, b % p, p) * p
}

/// Which unit a byte count is shown in: 0 for B up to 4 for TB.
pub open spec fn unit_index(b: nat) -> nat {
    if b >= 0x100_0000_0000 { 4 }
    else if b >= 0x4000_0000 { 3 }
    else if b >= 0x10_0000 { 2 }
    else if b >= 0x400 { 1 }
    else { 0 }
}

/// The number of bytes in unit `k`.
pub open spec fn unit_bytes(k: nat) -> nat {
    if k == 4 { 0x100_0000_0000 }
    else if k == 3 { 0x4000_0000 }
    else if k == 2 { 0x10_0000 }
    else if k == 1 { 0x400 }
    else { 1 }
}

/// The name of unit `k`.
pub open spec fn unit_name(k: nat) -> Seq<char> {
    if k == 4 { seq!['T', 'B'] }
    else if k == 3 { seq!['G', 'B'] }
    else if k == 2 { seq!['M', 'B'] }
    else if k == 1 { seq!['K', 'B'] }
    else { seq!['B'] }
}

/// `b` in its unit, in hundredths, rounded half to even.
pub open spec fn hundredths(b: nat) -> nat {
    let d = unit_bytes(unit_index(b));
    let n = f64_value(b) * 100;
    round_even(n / d, n % d, d)
}

/// The text `bytes_to_readable_size` gives for `b`: the count in the largest
/// unit (B, KB, MB, GB, TB) that it reaches, with two decimals, then the unit.
pub open spec fn readable_size(b: nat) -> Seq<char> {
    let h = hundredths(b);
    decimal(h / 100) + seq!['.', digit_of((h % 100) / 10), digit_of(h % 10), ' '] + unit_name(unit_index(b))
}

/// Halving once more divides by the next power of two.
proof fn lemma_halve(b: nat, e: nat)
    ensures
        (b / pow2n(e)) / 2 == b / pow2n(e + 1),
        pow2n(e) > 0,
        pow2n(e + 1) == pow2n(e) * 2,
    decreases e,
{
    lemma_pow2n_pos(e);
    vstd::arithmetic::div_mod::lemma_div_denominator(b as int, pow2n(e) as int, 2);
    assert(pow2n(e + 1) == 2 * pow2n(e));
}

proof fn lemma_pow2n_pos(e: nat)
    ensures
        pow2n(e) > 0,
    decreases e,
{
    if e > 0 {
        lemma_pow2n_pos((e - 1) as nat);
    }
}

/// The value of `b as f64`.
fn f64_value_exec(b: u64) -> (r: u128)
    ensures
        r == f64_value(b as nat),
        r <= 2 * (b as nat) + 1,
{
    let mut x: u128 = b as u128;
    let mut p: u128 = 1;
    let ghost mut e: nat = 0;
    assert(pow2n(0) == 1);
    assert(b as nat / pow2n(0) == b);
    while x >= 0x20_0000_0000_0000
        invariant
            pow2n(e) == p,
            x == b as nat / pow2n(e),
            scale_exp(b as nat) == e + scale_exp(x as nat),
            p * x <= b,
            p > 0,
            p == 1 || p <= b,
        decreases x,
    {
        proof {
            lemma_halve(b as nat, e);
            assert(2 * p * (x / 2) <= p * x) by (nonlinear_arith)
                requires p > 0;
            assert(p * 2 <= p * x) by (nonlinear_arith)
                requires x >= 2, p > 0;
        }
        x = x / 2;
        p = p * 2;
        proof {
            e = e + 1;
        }
    }
    let q = x;
    proof {
        vstd::arithmetic::div_mod::lemma_fundamental_div_mod(b as int, p as int);
        assert(q * p == p * q) by (nonlinear_arith);
    }
    let r = (b as u128) - q * p;
    assert(r == b as nat % pow2n(e));
    let up = r * 2 > p || (r * 2 == p && q % 2 == 1);
    let rq = if up { q + 1 } else { q };
    proof {
        assert(rq * p <= (q + 1) * p) by (nonlinear_arith)
            requires rq <= q + 1;
        assert((q + 1) * p == q * p + p) by (nonlinear_arith);
    }
    rq * p
}

/// The text for a byte count, as `format!("{:.2} {}", size, unit)` gives it
/// when `size` is the count divided by its unit as an `f64`.
pub fn bytes_to_readable_size(bytes: u64) -> (r: String)
    ensures
        r@ == readable_size(bytes as nat),
{
    let k: u8 = if bytes >= 0x100_0000_0000 { 4 }
        else if bytes >= 0x4000_0000 { 3 }
        else if bytes >= 0x10_0000 { 2 }
        else if bytes >= 0x400 { 1 }
        else { 0 };
    let d: u128 = if k == 4 { 0x100_0000_0000 }
        else if k == 3 { 0x4000_0000 }
        else if k == 2 { 0x10_0000 }
        else if k == 1 { 0x400 }
        else { 1 };
    let v = f64_value_exec(bytes);
    let n = v * 100;
    let q = n / d;
    let rem = n % d;
    let h = if rem * 2 > d || (rem * 2 == d && q % 2 == 1) { q + 1 } else { q };
    let mut out = decimal_chars(h / 100);
    out.push('.');
    out.push(digit(((h % 100) / 10) as u8));
    out.push(digit((h % 10) as u8));
    out.push(' ');
    if k == 4 {
        out.push('T');
        out.push('B');
    } else if k == 3 {
        out.push('G');
        out.push('B');
    } else if k == 2 {
        out.push('M');
        out.push('B');
    } else if k == 1 {
        out.push('K');
        out.push('B');
    } else {
        out.push('B');
    }
    assert(out@ =~= readable_size(bytes as nat));
    string_of(out.as_slice())
}

} // verus!
