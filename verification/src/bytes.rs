//! Big-endian numbers and byte strings.

use vstd::arithmetic::power::{lemma_pow0, pow};
use vstd::prelude::*;
use vstd::slice::slice_subrange;

verus! {

/// The last `width` base-256 digits of `n`, most significant first.
pub open spec fn be_bytes(n: nat, width: nat) -> Seq<u8>
    decreases width,
{
    if width == 0 {
        Seq::empty()
    } else {
        be_bytes(n / 256, (width - 1) as nat).push((n % 256) as u8)
    }
}

/// The number whose base-256 digits, most significant first, are `s`.
pub open spec fn be_value(s: Seq<u8>) -> nat
    decreases s.len(),
{
    if s.len() == 0 {
        0
    } else {
        be_value(s.drop_last()) * 256 + s.last() as nat
    }
}

/// Pieces of a byte string, put together.
pub open spec fn joined(pieces: Seq<Seq<u8>>) -> Seq<u8>
    decreases pieces.len(),
{
    if pieces.len() == 0 {
        Seq::empty()
    } else {
        joined(pieces.drop_last()) + pieces.last()
    }
}

pub proof fn lemma_be_bytes_len(n: nat, width: nat)
    ensures
        be_bytes(n, width).len() == width,
    decreases width,
{
    if width > 0 {
        lemma_be_bytes_len(n / 256, (width - 1) as nat);
    }
}

pub proof fn lemma_be_value_bound(s: Seq<u8>)
    ensures
        be_value(s) < pow(256, s.len()),
    decreases s.len(),
{
    if s.len() == 0 {
        lemma_pow0(256);
    } else {
        lemma_be_value_bound(s.drop_last());
        reveal(pow);
        assert(pow(256, s.len()) == 256 * pow(256, (s.len() - 1) as nat));
    }
}

/// `256` to the powers of the field widths in use.
pub proof fn lemma_pow256()
    ensures
        pow(256, 2) == 0x1_0000,
        pow(256, 3) == 0x100_0000,
        pow(256, 4) == 0x1_0000_0000,
        pow(256, 8) == 0x1_0000_0000_0000_0000,
        pow(256, 16) == 0x1_0000_0000_0000_0000_0000_0000_0000_0000,
{
    lemma_pow0(256);
    reveal_with_fuel(pow, 17);
}

/// A number that fits its field is read back unchanged.
pub proof fn law_be_round_trip(n: nat, width: nat)
    ensures
        n < pow(256, width) ==> be_value(be_bytes(n, width)) == n,
    decreases width,
{
    if width == 0 {
        lemma_pow0(256);
    } else {
        let w = (width - 1) as nat;
        lemma_be_bytes_len(n / 256, w);
        reveal(pow);
        assert(pow(256, width) == 256 * pow(256, w));
        law_be_round_trip(n / 256, w);
        let s = be_bytes(n, width);
        assert(s.drop_last() =~= be_bytes(n / 256, w));
        if n < pow(256, width) {
            assert(n / 256 < pow(256, w));
        }
    }
}

/// Writing a number back out in as many bytes as it was read from gives those bytes.
pub proof fn law_be_unique(s: Seq<u8>)
    ensures
        be_bytes(be_value(s), s.len()) == s,
    decreases s.len(),
{
    if s.len() > 0 {
        law_be_unique(s.drop_last());
        let hi = be_value(s.drop_last());
        assert(be_value(s) / 256 == hi && be_value(s) % 256 == s.last());
        assert(s.drop_last().push(s.last()) =~= s);
    }
}

/// Appends the `width` big-endian bytes of `n`.
pub fn push_be(out: &mut Vec<u8>, n: u128, width: usize)
    ensures
        final(out)@ == old(out)@ + be_bytes(n as nat, width as nat),
    decreases width,
{
    if width > 0 {
        push_be(out, n / 256, width - 1);
        out.push((n % 256) as u8);
        proof {
            let d = be_bytes((n / 256) as nat, (width - 1) as nat);
            assert((old(out)@ + d).push((n % 256) as u8) =~= old(out)@ + d.push((n % 256) as u8));
        }
    } else {
        proof {
            assert(old(out)@ + Seq::<u8>::empty() =~= old(out)@);
        }
    }
}

/// Reads a big-endian number of at most sixteen bytes.
pub fn read_be(s: &[u8]) -> (n: u128)
    requires
        s@.len() <= 16,
    ensures
        n == be_value(s@),
        n < pow(256, s@.len()),
{
    let mut n: u128 = 0;
    let mut i: usize = 0;
    proof {
        assert(s@.take(0) =~= Seq::<u8>::empty());
    }
    while i < s.len()
        invariant
            i <= s@.len() <= 16,
            n == be_value(s@.take(i as int)),
        decreases s@.len() - i,
    {
        proof {
            let t = s@.take(i + 1);
            assert(t.drop_last() =~= s@.take(i as int));
            lemma_be_value_bound(t);
            lemma_pow256();
            vstd::arithmetic::power::lemma_pow_increases(256, (i + 1) as nat, 16);
            assert(be_value(t) == be_value(s@.take(i as int)) * 256 + s@[i as int]);
        }
        n = n * 256 + s[i] as u128;
        i += 1;
    }
    proof {
        assert(s@.take(s@.len() as int) =~= s@);
        lemma_be_value_bound(s@);
    }
    n
}

/// Appends a slice.
pub fn append(out: &mut Vec<u8>, s: &[u8])
    ensures
        final(out)@ == old(out)@ + s@,
{
    out.extend_from_slice(s);
    proof {
        assert(out@ =~= old(out)@ + s@);
    }
}

/// Copies `s[from..to]`.
pub fn copy_range(s: &[u8], from: usize, to: usize) -> (out: Vec<u8>)
    requires
        from <= to <= s@.len(),
    ensures
        out@ == s@.subrange(from as int, to as int),
{
    vstd::slice::slice_to_vec(slice_subrange(s, from, to))
}

/// Compares two byte strings.
pub fn same_bytes(a: &[u8], b: &[u8]) -> (same: bool)
    ensures
        same == (a@ == b@),
{
    if a.len() != b.len() {
        return false;
    }
    let mut i: usize = 0;
    while i < a.len()
        invariant
            a@.len() == b@.len(),
            i <= a@.len(),
            forall|j: int| 0 <= j < i ==> a@[j] == b@[j],
        decreases a@.len() - i,
    {
        if a[i] != b[i] {
            return false;
        }
        i += 1;
    }
    proof {
        assert(a@ =~= b@);
    }
    true
}

} // verus!
