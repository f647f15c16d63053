//! Byte-string helpers.
//!
//! The interpreter stores every name and every Ruby string as a plain
//! byte vector, so a handful of small, fully specified operations on
//! `Vec<u8>` are shared across the crate.

use vstd::prelude::*;
use vstd::slice::slice_to_vec;
use vstd::string::StringSliceAdditionalSpecFns;

verus! {

/// Copy the UTF-8 bytes of a string literal into an owned byte vector.
pub fn bytes_of(s: &str) -> (r: Vec<u8>)
    ensures
        r@ == s.spec_bytes(),
{
    slice_to_vec(s.as_bytes())
}

/// Copy a byte vector.
pub fn clone_bytes(v: &Vec<u8>) -> (r: Vec<u8>)
    ensures
        r@ == v@,
{
    let mut r: Vec<u8> = Vec::new();
    let mut i: usize = 0;
    while i < v.len()
        invariant
            i <= v.len(),
            r@ == v@.subrange(0, i as int),
        decreases v.len() - i,
    {
        r.push(v[i]);
        i = i + 1;
        proof {
            assert(r@ =~= v@.subrange(0, i as int));
        }
    }
    proof {
        assert(r@ =~= v@);
    }
    r
}

/// Append the contents of `src` to `dst`.
pub fn append_bytes(dst: &mut Vec<u8>, src: &Vec<u8>)
    ensures
        final(dst)@ == old(dst)@ + src@,
{
    let mut i: usize = 0;
    while i < src.len()
        invariant
            i <= src.len(),
            dst@ == old(dst)@ + src@.subrange(0, i as int),
        decreases src.len() - i,
    {
        dst.push(src[i]);
        i = i + 1;
        proof {
            assert(dst@ =~= old(dst)@ + src@.subrange(0, i as int));
        }
    }
    proof {
        assert(dst@ =~= old(dst)@ + src@);
    }
}

/// Append the UTF-8 bytes of a string literal to `dst`.
pub fn append_str(dst: &mut Vec<u8>, s: &str)
    ensures
        final(dst)@ == old(dst)@ + s.spec_bytes(),
{
    let v = bytes_of(s);
    append_bytes(dst, &v);
}

/// Decimal digits of a natural number, most significant first.
pub open spec fn spec_dec_nat(n: nat) -> Seq<u8>
    decreases n,
{
    if n < 10 {
        seq![(48 + n) as u8]
    } else {
        spec_dec_nat(n / 10).push((48 + n % 10) as u8)
    }
}

/// Decimal rendering of a signed number: a minus sign when negative,
/// then the digits of the magnitude.
pub open spec fn spec_dec_int(n: int) -> Seq<u8> {
    if n >= 0 {
        spec_dec_nat(n as nat)
    } else {
        "-".spec_bytes() + spec_dec_nat((-n) as nat)
    }
}

/// Append the decimal digits of `n` to `dst`.
pub fn push_dec_u64(dst: &mut Vec<u8>, n: u64)
    ensures
        final(dst)@ == old(dst)@ + spec_dec_nat(n as nat),
    decreases n,
{
    if n < 10 {
        dst.push(48 + (n as u8));
        proof {
            assert(dst@ =~= old(dst)@ + spec_dec_nat(n as nat));
        }
    } else {
        let q = n / 10;
        let r = n % 10;
        proof {
            assert(q < n);
        }
        push_dec_u64(dst, q);
        dst.push(48 + (r as u8));
        proof {
            assert(dst@ =~= old(dst)@ + spec_dec_nat(n as nat));
        }
    }
}

/// Append the decimal rendering of `n` to `dst`.
pub fn push_dec_i64(dst: &mut Vec<u8>, n: i64)
    ensures
        final(dst)@ == old(dst)@ + spec_dec_int(n as int),
{
    if n >= 0 {
        push_dec_u64(dst, n as u64);
    } else {
        append_str(dst, "-");
        let m: u64 = ((-(n + 1)) as u64) + 1;
        proof {
            assert(m as nat == (-(n as int)) as nat);
        }
        push_dec_u64(dst, m);
        proof {
            assert(dst@ =~= old(dst)@ + spec_dec_int(n as int));
        }
    }
}

/// The decimal rendering of `n` as an owned byte vector.
pub fn dec_i64(n: i64) -> (r: Vec<u8>)
    ensures
        r@ == spec_dec_int(n as int),
{
    let mut out: Vec<u8> = Vec::new();
    push_dec_i64(&mut out, n);
    proof {
        assert(out@ =~= spec_dec_int(n as int));
    }
    out
}

/// Copy the bytes of `v` between `from` (inclusive) and `to`
/// (exclusive).
pub fn slice_range(v: &Vec<u8>, from: usize, to: usize) -> (r: Vec<u8>)
    requires
        from <= to <= v@.len(),
    ensures
        r@ == v@.subrange(from as int, to as int),
{
    let mut r: Vec<u8> = Vec::new();
    let mut i: usize = from;
    while i < to
        invariant
            from <= i <= to,
            to <= v@.len(),
            r@ == v@.subrange(from as int, i as int),
        decreases to - i,
    {
        r.push(v[i]);
        i = i + 1;
        proof {
            assert(r@ =~= v@.subrange(from as int, i as int));
        }
    }
    r
}

/// Byte-for-byte equality of two byte vectors.
pub fn bytes_eq(a: &Vec<u8>, b: &Vec<u8>) -> (r: bool)
    ensures
        r <==> a@ == b@,
{
    if a.len() != b.len() {
        proof {
            assert(a@ != b@) by {
                assert(a@.len() != b@.len());
            }
        }
        return false;
    }
    let mut i: usize = 0;
    while i < a.len()
        invariant
            i <= a.len(),
            a@.len() == b@.len(),
            forall|j: int| 0 <= j < i ==> a@[j] == b@[j],
        decreases a.len() - i,
    {
        if a[i] != b[i] {
            return false;
        }
        i = i + 1;
    }
    proof {
        assert(a@ =~= b@);
    }
    true
}

} // verus!
