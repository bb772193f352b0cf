//! Integers as the bytes that the host's memory holds for them.
//!
//! lldpd copies its integers to the socket as they stand in memory, so what a
//! run of bytes means depends on the byte order of the machine. The spec
//! functions here speak of [`vstd::endian::endianness`], the order of the
//! machine that runs the code.

use vstd::prelude::*;

verus! {

/// The number that `b` denotes, least significant byte first.
pub open spec fn le_nat(b: Seq<u8>) -> nat
    decreases b.len(),
{
    if b.len() == 0 {
        0
    } else {
        b[0] as nat + 256 * le_nat(b.drop_first())
    }
}

/// The `len` low bytes of `n`, least significant byte first.
pub open spec fn le_bytes(n: nat, len: nat) -> Seq<u8>
    decreases len,
{
    if len == 0 {
        Seq::empty()
    } else {
        seq![(n % 256) as u8] + le_bytes(n / 256, (len - 1) as nat)
    }
}

/// How many numbers fit in `len` bytes.
pub open spec fn byte_limit(len: nat) -> nat
    decreases len,
{
    if len == 0 {
        1
    } else {
        256 * byte_limit((len - 1) as nat)
    }
}

/// Whether this machine stores the least significant byte first.
pub open spec fn host_little() -> bool {
    vstd::endian::endianness() is Little
}

/// The number that `b` denotes in the host's byte order.
pub open spec fn ne_nat(b: Seq<u8>) -> nat {
    if host_little() {
        le_nat(b)
    } else {
        le_nat(b.reverse())
    }
}

/// The `len` low bytes of `n` in the host's byte order.
pub open spec fn ne_bytes(n: nat, len: nat) -> Seq<u8> {
    if host_little() {
        le_bytes(n, len)
    } else {
        le_bytes(n, len).reverse()
    }
}

pub(crate) proof fn lemma_le_bytes_len(n: nat, len: nat)
    ensures
        le_bytes(n, len).len() == len,
    decreases len,
{
    if len > 0 {
        lemma_le_bytes_len(n / 256, (len - 1) as nat);
    }
}

pub(crate) proof fn lemma_le_nat_bound(b: Seq<u8>)
    ensures
        le_nat(b) < byte_limit(b.len()),
    decreases b.len(),
{
    if b.len() > 0 {
        lemma_le_nat_bound(b.drop_first());
    }
}

pub(crate) proof fn lemma_le_round_trip(n: nat, len: nat)
    requires
        n < byte_limit(len),
    ensures
        le_nat(le_bytes(n, len)) == n,
    decreases len,
{
    lemma_le_bytes_len(n, len);
    if len > 0 {
        lemma_le_round_trip(n / 256, (len - 1) as nat);
        assert(le_bytes(n, len).drop_first() =~= le_bytes(n / 256, (len - 1) as nat));
    }
}

pub(crate) proof fn lemma_byte_limits()
    ensures
        byte_limit(1) == 0x100,
        byte_limit(2) == 0x1_0000,
        byte_limit(4) == 0x1_0000_0000,
        byte_limit(8) == 0x1_0000_0000_0000_0000,
{
    reveal_with_fuel(byte_limit, 9);
}

pub(crate) proof fn lemma_byte_limit_grows(a: nat, b: nat)
    requires
        a <= b,
    ensures
        byte_limit(a) <= byte_limit(b),
        byte_limit(a) >= 1,
    decreases b,
{
    if a < b {
        lemma_byte_limit_grows(a, (b - 1) as nat);
    } else if a > 0 {
        lemma_byte_limit_grows((a - 1) as nat, (b - 1) as nat);
    }
}

/// A number written in the host's byte order reads back as itself, whenever
/// the bytes given to it can hold it.
pub proof fn lemma_ne_round_trip(n: nat, len: nat)
    ensures
        ne_bytes(n, len).len() == len,
        n < byte_limit(len) ==> ne_nat(ne_bytes(n, len)) == n,
{
    lemma_le_bytes_len(n, len);
    if n < byte_limit(len) {
        lemma_le_round_trip(n, len);
    }
    assert(le_bytes(n, len).reverse().reverse() =~= le_bytes(n, len));
}

pub(crate) proof fn lemma_ne_nat_bound(b: Seq<u8>)
    ensures
        ne_nat(b) < byte_limit(b.len()),
{
    lemma_le_nat_bound(b);
    lemma_le_nat_bound(b.reverse());
}

/// `u16::to_ne_bytes`: the two bytes of `x` as this machine stores them, which
/// is what [`ne_bytes`] says of two bytes in the order of
/// [`vstd::endian::endianness`].
#[verifier::external_body]
fn u16_to_ne_bytes(x: u16) -> (b: [u8; 2])
    ensures
        b@ == ne_bytes(x as nat, 2),
{
    x.to_ne_bytes()
}

/// Tells whether this machine stores the least significant byte first.
pub fn host_is_little() -> (r: bool)
    ensures
        r == host_little(),
{
    let b = u16_to_ne_bytes(1);
    proof {
        reveal_with_fuel(le_bytes, 3);
        assert(le_bytes(1, 2) =~= seq![1u8, 0u8]);
    }
    b[0] == 1
}

/// Reads up to eight bytes as one number in the host's byte order.
pub fn ne_to_u64(b: &[u8]) -> (r: u64)
    requires
        b@.len() <= 8,
    ensures
        r == ne_nat(b@),
        r < byte_limit(b@.len()),
{
    let little = host_is_little();
    let n = b.len();
    let ghost s = if little { b@ } else { b@.reverse() };
    let mut acc: u64 = 0;
    let mut i: usize = 0;
    assert(s.skip(n as int) =~= Seq::empty());
    while i < n
        invariant
            n == b@.len() <= 8,
            i <= n,
            s == (if little { b@ } else { b@.reverse() }),
            acc == le_nat(s.skip(n - i)),
        decreases n - i,
    {
        let byte = if little { b[n - 1 - i] } else { b[i] };
        proof {
            let rest = s.skip(n - i);
            let next = s.skip(n - i - 1);
            assert(next.drop_first() =~= rest);
            assert(next[0] == byte);
            lemma_le_nat_bound(next);
            lemma_byte_limit_grows(next.len(), 8);
            lemma_byte_limits();
        }
        acc = acc * 256 + byte as u64;
        i += 1;
    }
    proof {
        assert(s.skip(0) =~= s);
        lemma_ne_nat_bound(b@);
    }
    acc
}

/// Writes the `len` low bytes of `n` in the host's byte order.
pub fn u64_to_ne(n: u64, len: usize) -> (v: Vec<u8>)
    ensures
        v@ == ne_bytes(n as nat, len as nat),
{
    let mut low: Vec<u8> = Vec::new();
    let mut rest: u64 = n;
    let mut i: usize = 0;
    assert(Seq::<u8>::empty() + le_bytes(n as nat, len as nat) =~= le_bytes(n as nat, len as nat));
    while i < len
        invariant
            i <= len,
            low@.len() == i,
            low@ + le_bytes(rest as nat, (len - i) as nat) == le_bytes(n as nat, len as nat),
        decreases len - i,
    {
        let ghost before = low@;
        let ghost tail = le_bytes(rest as nat / 256, (len - i - 1) as nat);
        let digit = (rest % 256) as u8;
        low.push(digit);
        assert(low@ + tail =~= before + (seq![digit] + tail));
        rest = rest / 256;
        i += 1;
    }
    assert(low@ =~= le_bytes(n as nat, len as nat));
    if host_is_little() {
        low
    } else {
        let mut high: Vec<u8> = Vec::new();
        let mut k: usize = low.len();
        while k > 0
            invariant
                k <= low@.len(),
                high@.len() == low@.len() - k,
                forall|j: int| 0 <= j < high@.len() ==> high@[j] == low@[low@.len() - 1 - j],
            decreases k,
        {
            k -= 1;
            high.push(low[k]);
        }
        assert(high@ =~= low@.reverse());
        high
    }
}

} // verus!
