//! Decimal rendering of integers, used in error messages and in the mint
//! signing message.

use vstd::prelude::*;

verus! {

/// The decimal digits of a non-negative integer, most significant first.
pub open spec fn udec_str(n: int) -> Seq<char>
    recommends
        n >= 0,
    decreases n,
{
    if n < 10 {
        seq![((n % 10) + 48) as char]
    } else {
        udec_str(n / 10).push(((n % 10) + 48) as char)
    }
}

/// The decimal form of an integer: a minus sign before the digits when it
/// is negative.
pub open spec fn dec_str(n: int) -> Seq<char> {
    if n < 0 {
        seq!['-'] + udec_str(-n)
    } else {
        udec_str(n)
    }
}

/// Relies on `String::push`: appends one character.
#[verifier::external_body]
pub fn push_char(s: &mut String, c: char)
    ensures
        final(s)@ == old(s)@ + seq![c],
{
    s.push(c)
}

/// Renders a non-negative 64-bit value in decimal.
pub fn u64_to_string(v: u64) -> (r: String)
    ensures
        r@ == udec_str(v as int),
{
    let mut digits: Vec<char> = Vec::new();
    let mut rest: u64 = v;
    proof {
        assert(udec_str(rest as int) + digits@ =~= udec_str(v as int));
    }
    loop
        invariant_except_break
            udec_str(rest as int) + digits@ == udec_str(v as int),
        ensures
            digits@ == udec_str(v as int),
        decreases rest,
    {
        let d: u8 = (rest % 10) as u8;
        let c: char = (d + 48) as char;
        let ghost prev_digits = digits@;
        let ghost prev_rest = rest;
        // Prepend the new digit.
        let mut next: Vec<char> = Vec::new();
        next.push(c);
        let dn: usize = digits.len();
        let mut k: usize = 0;
        while k < dn
            invariant
                k <= dn,
                dn == digits@.len(),
                digits@ == prev_digits,
                next@ == seq![c] + digits@.subrange(0, k as int),
            decreases dn - k,
        {
            next.push(digits[k]);
            proof {
                assert(next@ =~= seq![c] + digits@.subrange(0, k as int + 1));
            }
            k = k + 1;
        }
        proof {
            assert(digits@.subrange(0, dn as int) =~= digits@);
            assert(next@ =~= seq![c] + digits@);
            assert(c == ((prev_rest as int % 10) + 48) as char);
        }
        digits = next;
        if rest < 10 {
            proof {
                assert(udec_str(prev_rest as int) =~= seq![c]);
                assert(digits@ =~= udec_str(v as int));
            }
            break;
        }
        rest = rest / 10;
        proof {
            assert(udec_str(prev_rest as int) =~= udec_str(rest as int) + seq![c]);
            assert(udec_str(rest as int) + digits@ =~= (udec_str(rest as int) + seq![c])
                + prev_digits);
            assert(udec_str(rest as int) + digits@ =~= udec_str(v as int));
        }
    }
    let mut out = String::new();
    let n: usize = digits.len();
    let mut i: usize = 0;
    while i < n
        invariant
            i <= n,
            n == digits@.len(),
            digits@ == udec_str(v as int),
            out@ == digits@.subrange(0, i as int),
        decreases n - i,
    {
        push_char(&mut out, digits[i]);
        proof {
            assert(out@ =~= digits@.subrange(0, i as int + 1));
        }
        i = i + 1;
    }
    proof {
        assert(digits@.subrange(0, n as int) =~= digits@);
    }
    out
}

/// Renders a signed 64-bit value in decimal.
pub fn i64_to_string(v: i64) -> (r: String)
    ensures
        r@ == dec_str(v as int),
{
    if v >= 0 {
        u64_to_string(v as u64)
    } else {
        let mag: u64 = (-(v as i128)) as u64;
        proof {
            assert(mag as int == -(v as int));
        }
        let digits = u64_to_string(mag);
        let mut out = String::new();
        push_char(&mut out, '-');
        proof {
            assert(out@ =~= seq!['-']);
        }
        let r = out.concat(digits.as_str());
        proof {
            assert(r@ =~= dec_str(v as int));
        }
        r
    }
}


/// The ASCII bytes of the decimal digits of a non-negative integer.
pub open spec fn udec_bytes(n: int) -> Seq<u8>
    recommends
        n >= 0,
    decreases n,
{
    if n < 10 {
        seq![((n % 10) + 48) as u8]
    } else {
        udec_bytes(n / 10).push(((n % 10) + 48) as u8)
    }
}

/// Renders a non-negative 64-bit value in decimal, as ASCII bytes.
pub fn u64_dec_bytes(v: u64) -> (r: Vec<u8>)
    ensures
        r@ == udec_bytes(v as int),
{
    let mut digits: Vec<u8> = Vec::new();
    let mut rest: u64 = v;
    proof {
        assert(udec_bytes(rest as int) + digits@ =~= udec_bytes(v as int));
    }
    loop
        invariant_except_break
            udec_bytes(rest as int) + digits@ == udec_bytes(v as int),
        ensures
            digits@ == udec_bytes(v as int),
        decreases rest,
    {
        let d: u8 = (rest % 10) as u8;
        let c: u8 = d + 48;
        let ghost prev_digits = digits@;
        let ghost prev_rest = rest;
        let mut next: Vec<u8> = Vec::new();
        next.push(c);
        let dn: usize = digits.len();
        let mut k: usize = 0;
        while k < dn
            invariant
                k <= dn,
                dn == digits@.len(),
                digits@ == prev_digits,
                next@ == seq![c] + digits@.subrange(0, k as int),
            decreases dn - k,
        {
            next.push(digits[k]);
            proof {
                assert(next@ =~= seq![c] + digits@.subrange(0, k as int + 1));
            }
            k = k + 1;
        }
        proof {
            assert(digits@.subrange(0, dn as int) =~= digits@);
            assert(next@ =~= seq![c] + digits@);
            assert(c == ((prev_rest as int % 10) + 48) as u8);
        }
        digits = next;
        if rest < 10 {
            proof {
                assert(udec_bytes(prev_rest as int) =~= seq![c]);
                assert(digits@ =~= udec_bytes(v as int));
            }
            break;
        }
        rest = rest / 10;
        proof {
            assert(udec_bytes(prev_rest as int) =~= udec_bytes(rest as int) + seq![c]);
            assert(udec_bytes(rest as int) + digits@ =~= (udec_bytes(rest as int) + seq![c])
                + prev_digits);
            assert(udec_bytes(rest as int) + digits@ =~= udec_bytes(v as int));
        }
    }
    digits
}

} // verus!
