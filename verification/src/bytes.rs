//! Byte-string utilities: substring search, placeholder replacement and
//! decimal rendering of integers.
//!
//! All message text in this library is UTF-8 bytes; these are the verified
//! building blocks the message builder composes.

use vstd::prelude::*;

verus! {

/// The needle `n` occurs in `h` at position `i`.
pub open spec fn match_at(h: Seq<u8>, n: Seq<u8>, i: int) -> bool {
    0 <= i && i + n.len() <= h.len() && h.subrange(i, i + n.len()) == n
}

/// The needle `n` occurs somewhere in `h`.
pub open spec fn contains_seq(h: Seq<u8>, n: Seq<u8>) -> bool {
    exists|i: int| match_at(h, n, i)
}

/// `h` from position `i` on, with every non-overlapping occurrence of `n`
/// replaced by `r`, scanning left to right as `str::replace` does.
pub open spec fn replace_from(h: Seq<u8>, n: Seq<u8>, r: Seq<u8>, i: nat) -> Seq<u8>
    decreases h.len() - i,
{
    if i >= h.len() || n.len() == 0 {
        h.subrange(if i <= h.len() {
            i as int
        } else {
            h.len() as int
        }, h.len() as int)
    } else if i + n.len() <= h.len() && h.subrange(i as int, (i + n.len()) as int) == n {
        r + replace_from(h, n, r, i + n.len())
    } else {
        seq![h[i as int]] + replace_from(h, n, r, (i + 1) as nat)
    }
}

/// `h` with every non-overlapping occurrence of `n` replaced by `r`.
pub open spec fn replace_seq(h: Seq<u8>, n: Seq<u8>, r: Seq<u8>) -> Seq<u8> {
    replace_from(h, n, r, 0)
}

/// Decimal digits of a non-negative number, most significant first.
pub open spec fn dec_digits(n: nat) -> Seq<u8>
    decreases n,
{
    if n < 10 {
        seq![(48 + n) as u8]
    } else {
        dec_digits(n / 10) + seq![(48 + n % 10) as u8]
    }
}

/// Decimal rendering of a signed number: a leading minus sign when it is
/// negative, then the digits of its magnitude.
pub open spec fn dec_i32(v: int) -> Seq<u8> {
    if v >= 0 {
        dec_digits(v as nat)
    } else {
        seq![45u8] + dec_digits((-v) as nat)
    }
}

/// Whether `n` occurs in `h` at position `i`.
fn is_match_at(h: &[u8], n: &[u8], i: usize) -> (b: bool)
    requires
        i + n@.len() <= h@.len(),
    ensures
        b == match_at(h@, n@, i as int),
{
    let h_len = h.len();
    let n_len = n.len();
    let mut j: usize = 0;
    while j < n_len
        invariant
            0 <= j <= n_len,
            n_len == n@.len(),
            h_len == h@.len(),
            i + n@.len() <= h@.len(),
            forall|k: int| 0 <= k < j ==> h@[i + k] == n@[k],
        decreases n_len - j,
    {
        if h[i + j] != n[j] {
            proof {
                assert(h@.subrange(i as int, i + n@.len())[j as int] != n@[j as int]);
            }
            return false;
        }
        j = j + 1;
    }
    proof {
        assert(h@.subrange(i as int, i + n@.len()) =~= n@);
    }
    true
}

/// Whether the needle occurs anywhere in the haystack.
pub fn contains_bytes(h: &[u8], n: &[u8]) -> (b: bool)
    ensures
        b == contains_seq(h@, n@),
{
    let h_len = h.len();
    let n_len = n.len();
    if n_len == 0 {
        proof {
            assert(h@.subrange(0, 0) =~= n@);
            assert(match_at(h@, n@, 0));
        }
        return true;
    }
    if n_len > h_len {
        return false;
    }
    let mut i: usize = 0;
    while n_len <= h_len - i
        invariant
            0 <= i <= h_len,
            h_len == h@.len(),
            n_len == n@.len(),
            1 <= n_len <= h_len,
            forall|k: int| 0 <= k < i ==> !match_at(h@, n@, k),
        decreases h_len - i,
    {
        if is_match_at(h, n, i) {
            return true;
        }
        i = i + 1;
    }
    proof {
        assert forall|k: int| !match_at(h@, n@, k) by {
            if k >= i {
                assert(k + n@.len() > h@.len());
            }
        }
    }
    false
}

/// A copy of `h` with every non-overlapping occurrence of `n` replaced by
/// `r`, scanning left to right.
pub fn replace_bytes(h: &[u8], n: &[u8], r: &[u8]) -> (out: Vec<u8>)
    ensures
        out@ == replace_seq(h@, n@, r@),
{
    let h_len = h.len();
    let n_len = n.len();
    if n_len == 0 {
        let out = vstd::slice::slice_to_vec(h);
        proof {
            assert(out@ =~= replace_seq(h@, n@, r@));
        }
        return out;
    }
    let mut out: Vec<u8> = Vec::new();
    let mut i: usize = 0;
    proof {
        assert(out@ + replace_from(h@, n@, r@, 0) =~= replace_from(h@, n@, r@, 0));
    }
    while i < h_len
        invariant
            0 <= i <= h_len,
            h_len == h@.len(),
            n_len == n@.len(),
            n_len >= 1,
            replace_seq(h@, n@, r@) == out@ + replace_from(h@, n@, r@, i as nat),
        decreases h_len - i,
    {
        if n_len <= h_len - i && is_match_at(h, n, i) {
            let ghost prev = out@;
            out.extend_from_slice(r);
            proof {
                assert(prev + replace_from(h@, n@, r@, i as nat) =~= out@ + replace_from(
                    h@,
                    n@,
                    r@,
                    (i + n_len) as nat,
                ));
            }
            i = i + n_len;
        } else {
            let ghost prev = out@;
            out.push(h[i]);
            proof {
                assert(prev + replace_from(h@, n@, r@, i as nat) =~= out@ + replace_from(
                    h@,
                    n@,
                    r@,
                    (i + 1) as nat,
                ));
            }
            i = i + 1;
        }
    }
    proof {
        assert(replace_from(h@, n@, r@, i as nat) =~= Seq::<u8>::empty());
        assert(out@ + replace_from(h@, n@, r@, i as nat) =~= out@);
    }
    out
}

/// Appends the decimal digits of `n` to `out`.
pub fn push_dec_u64(out: &mut Vec<u8>, n: u64)
    ensures
        final(out)@ == old(out)@ + dec_digits(n as nat),
    decreases n,
{
    if n < 10 {
        out.push(48 + n as u8);
        proof {
            assert(final(out)@ =~= old(out)@ + dec_digits(n as nat));
        }
    } else {
        let ghost mid = old(out)@ + dec_digits((n / 10) as nat);
        push_dec_u64(out, n / 10);
        out.push(48 + (n % 10) as u8);
        proof {
            assert(final(out)@ =~= old(out)@ + dec_digits(n as nat));
        }
    }
}

/// Appends the decimal rendering of `v` to `out`.
pub fn push_dec_i32(out: &mut Vec<u8>, v: i32)
    ensures
        final(out)@ == old(out)@ + dec_i32(v as int),
{
    if v < 0 {
        out.push(45);
        let m: u64 = (-(v as i64)) as u64;
        let ghost mid = out@;
        push_dec_u64(out, m);
        proof {
            assert(m as nat == (-(v as int)) as nat);
            assert(final(out)@ =~= old(out)@ + dec_i32(v as int));
        }
    } else {
        push_dec_u64(out, v as u64);
    }
}

/// Whether two byte strings hold the same bytes.
pub fn bytes_eq(a: &[u8], b: &[u8]) -> (r: bool)
    ensures
        r == (a@ == b@),
{
    let n = a.len();
    if n != b.len() {
        return false;
    }
    let mut j: usize = 0;
    while j < n
        invariant
            0 <= j <= n,
            n == a@.len(),
            n == b@.len(),
            forall|k: int| 0 <= k < j ==> a@[k] == b@[k],
        decreases n - j,
    {
        if a[j] != b[j] {
            return false;
        }
        j = j + 1;
    }
    proof {
        assert(a@ =~= b@);
    }
    true
}

/// A fresh copy of a byte string.
pub fn copy_bytes(v: &Vec<u8>) -> (r: Vec<u8>)
    ensures
        r@ == v@,
{
    vstd::slice::slice_to_vec(v.as_slice())
}

/// A fresh copy of an optional byte string, empty when the field is absent.
pub fn copy_opt_bytes(o: &Option<Vec<u8>>) -> (r: Vec<u8>)
    ensures
        r@ == crate::model::opt_bytes(*o),
{
    match o {
        Some(v) => copy_bytes(v),
        None => Vec::new(),
    }
}

/// The decimal rendering of `v` as a fresh byte string.
pub fn dec_bytes_i32(v: i32) -> (out: Vec<u8>)
    ensures
        out@ == dec_i32(v as int),
{
    let mut out: Vec<u8> = Vec::new();
    push_dec_i32(&mut out, v);
    proof {
        assert(out@ =~= dec_i32(v as int));
    }
    out
}

} // verus!
