//! Byte-level text fragments: decimal and lowercase-hexadecimal numerals and
//! the names of the architectural registers, as they appear in node names and
//! in the serialized output.

use vstd::prelude::*;
use vstd::string::StringSliceAdditionalSpecFns;

verus! {

/// The ASCII digit for a value below ten.
pub open spec fn dec_digit(d: int) -> u8 {
    (48 + d) as u8
}

/// The decimal numeral of `n`, most significant digit first.
pub open spec fn dec_bytes(n: nat) -> Seq<u8>
    decreases n,
{
    if n < 10 {
        seq![dec_digit(n as int)]
    } else {
        dec_bytes(n / 10).push(dec_digit((n % 10) as int))
    }
}

/// Appends the decimal numeral of `n`.
pub fn push_dec(out: &mut Vec<u8>, n: u64)
    ensures
        final(out)@ == old(out)@ + dec_bytes(n as nat),
    decreases n,
{
    if n < 10 {
        out.push(48 + n as u8);
        assert(out@ =~= old(out)@ + dec_bytes(n as nat));
    } else {
        push_dec(out, n / 10);
        out.push(48 + (n % 10) as u8);
        assert(out@ =~= old(out)@ + dec_bytes(n as nat));
    }
}

/// The ASCII lowercase hexadecimal digit for a value below sixteen.
pub open spec fn hex_digit(d: int) -> u8 {
    if d < 10 {
        (48 + d) as u8
    } else {
        (87 + d) as u8
    }
}

/// The lowercase hexadecimal numeral of `n`, most significant digit first.
pub open spec fn hex_bytes(n: nat) -> Seq<u8>
    decreases n,
{
    if n < 16 {
        seq![hex_digit(n as int)]
    } else {
        hex_bytes(n / 16).push(hex_digit((n % 16) as int))
    }
}

/// Appends the lowercase hexadecimal numeral of `n`.
pub fn push_hex(out: &mut Vec<u8>, n: u64)
    ensures
        final(out)@ == old(out)@ + hex_bytes(n as nat),
    decreases n,
{
    if n < 16 {
        let d = n as u8;
        if d < 10 {
            out.push(48 + d);
        } else {
            out.push(87 + d);
        }
        assert(out@ =~= old(out)@ + hex_bytes(n as nat));
    } else {
        push_hex(out, n / 16);
        let d = (n % 16) as u8;
        if d < 10 {
            out.push(48 + d);
        } else {
            out.push(87 + d);
        }
        assert(out@ =~= old(out)@ + hex_bytes(n as nat));
    }
}

/// The bytes of a string slice, as a fresh vector.
pub fn name_bytes(s: &str) -> (r: Vec<u8>)
    ensures
        r@ == s.spec_bytes(),
{
    vstd::slice::slice_to_vec(s.as_bytes())
}

/// Appends the bytes of a string slice.
pub fn push_str_bytes(out: &mut Vec<u8>, s: &str)
    ensures
        final(out)@ == old(out)@ + s.spec_bytes(),
{
    let mut v = name_bytes(s);
    out.append(&mut v);
}

/// The printed name of an architectural register.
pub open spec fn spec_reg_name(r: int) -> Seq<u8> {
    if r == 0 {
        "zero".spec_bytes()
    } else if r == 1 {
        "ra".spec_bytes()
    } else if r == 2 {
        "sp".spec_bytes()
    } else if r == 3 {
        "gp".spec_bytes()
    } else if r == 4 {
        "tp".spec_bytes()
    } else if r == 5 {
        "t0".spec_bytes()
    } else if r == 6 {
        "t1".spec_bytes()
    } else if r == 7 {
        "t2".spec_bytes()
    } else if r == 8 {
        "fp".spec_bytes()
    } else if r == 9 {
        "s1".spec_bytes()
    } else if r == 10 {
        "a0".spec_bytes()
    } else if r == 11 {
        "a1".spec_bytes()
    } else if r == 12 {
        "a2".spec_bytes()
    } else if r == 13 {
        "a3".spec_bytes()
    } else if r == 14 {
        "a4".spec_bytes()
    } else if r == 15 {
        "a5".spec_bytes()
    } else if r == 16 {
        "a6".spec_bytes()
    } else if r == 17 {
        "a7".spec_bytes()
    } else if r == 18 {
        "s2".spec_bytes()
    } else if r == 19 {
        "s3".spec_bytes()
    } else if r == 20 {
        "s4".spec_bytes()
    } else if r == 21 {
        "s5".spec_bytes()
    } else if r == 22 {
        "s6".spec_bytes()
    } else if r == 23 {
        "s7".spec_bytes()
    } else if r == 24 {
        "s8".spec_bytes()
    } else if r == 25 {
        "s9".spec_bytes()
    } else if r == 26 {
        "s10".spec_bytes()
    } else if r == 27 {
        "s11".spec_bytes()
    } else if r == 28 {
        "t3".spec_bytes()
    } else if r == 29 {
        "t4".spec_bytes()
    } else if r == 30 {
        "t5".spec_bytes()
    } else {
        "t6".spec_bytes()
    }
}

/// The printed name of an architectural register, as fresh bytes.
pub fn reg_name(r: u8) -> (out: Vec<u8>)
    requires
        r < 32,
    ensures
        out@ == spec_reg_name(r as int),
{
    let s: &str = if r == 0 {
        "zero"
    } else if r == 1 {
        "ra"
    } else if r == 2 {
        "sp"
    } else if r == 3 {
        "gp"
    } else if r == 4 {
        "tp"
    } else if r == 5 {
        "t0"
    } else if r == 6 {
        "t1"
    } else if r == 7 {
        "t2"
    } else if r == 8 {
        "fp"
    } else if r == 9 {
        "s1"
    } else if r == 10 {
        "a0"
    } else if r == 11 {
        "a1"
    } else if r == 12 {
        "a2"
    } else if r == 13 {
        "a3"
    } else if r == 14 {
        "a4"
    } else if r == 15 {
        "a5"
    } else if r == 16 {
        "a6"
    } else if r == 17 {
        "a7"
    } else if r == 18 {
        "s2"
    } else if r == 19 {
        "s3"
    } else if r == 20 {
        "s4"
    } else if r == 21 {
        "s5"
    } else if r == 22 {
        "s6"
    } else if r == 23 {
        "s7"
    } else if r == 24 {
        "s8"
    } else if r == 25 {
        "s9"
    } else if r == 26 {
        "s10"
    } else if r == 27 {
        "s11"
    } else if r == 28 {
        "t3"
    } else if r == 29 {
        "t4"
    } else if r == 30 {
        "t5"
    } else {
        "t6"
    };
    name_bytes(s)
}

} // verus!
