//! How a C compiler lays out a structure.
//!
//! The fields stand in declaration order, each at the first offset past its
//! predecessor that its alignment divides; the structure is as aligned as its
//! most aligned field, and its size is rounded up to that alignment.

use vstd::prelude::*;
use vstd::slice::slice_subrange;

use super::pod::Pod;

verus! {

/// The least multiple of `align` that is not below `len`.
pub open spec fn align_up_to(len: nat, align: nat) -> nat {
    (len + (align - len % align) % (align as int)) as nat
}

/// `b` with zero bytes behind it, up to the next multiple of `align`.
pub open spec fn zero_pad(b: Seq<u8>, align: nat) -> Seq<u8> {
    b + Seq::new((align_up_to(b.len(), align) - b.len()) as nat, |i: int| 0u8)
}

/// The fields of a structure: a single field, or a pair of fields and the
/// fields behind them.
pub trait Fields: Sized {
    /// The offset just past these fields, where `start` is the offset just
    /// past the fields before them.
    spec fn end_at(start: nat) -> nat;

    /// The largest alignment among these fields.
    spec fn max_align() -> nat;

    /// A limit on the room that these fields take, on every machine.
    spec fn room() -> nat;

    /// The fields that the bytes `b` of the structure hold.
    spec fn decode_at(b: Seq<u8>, start: nat) -> Self;

    /// `out`, the bytes of the fields before, with these fields behind it:
    /// each at its offset, with zero bytes in the gaps.
    spec fn put(self, out: Seq<u8>) -> Seq<u8>;

    proof fn lemma_bounds(start: nat)
        ensures
            start <= Self::end_at(start) <= start + Self::room(),
            1 <= Self::max_align() <= 64,
    ;

    /// Fields that were put behind `out` read back as themselves, whatever
    /// follows them.
    proof fn lemma_put(self, out: Seq<u8>, b: Seq<u8>)
        ensures
            self.put(out).len() == Self::end_at(out.len()),
            out.is_prefix_of(self.put(out)),
            self.put(out).is_prefix_of(b) ==> Self::decode_at(b, out.len()) == self,
    ;

    fn measure(start: usize) -> (r: (usize, usize))
        requires
            start + Self::room() <= usize::MAX,
        ensures
            r.0 == Self::end_at(start as nat),
            r.1 == Self::max_align(),
    ;

    fn read_at(b: &[u8], start: usize) -> (r: (Self, usize))
        requires
            Self::end_at(start as nat) <= b@.len(),
        ensures
            r.0 == Self::decode_at(b@, start as nat),
            r.1 == Self::end_at(start as nat),
    ;

    fn write(&self, out: &mut Vec<u8>)
        ensures
            final(out)@ == self.put(old(out)@),
    ;
}

/// A single field stands at the next offset that its alignment divides.
impl<F: Pod> Fields for F {
    open spec fn end_at(start: nat) -> nat {
        align_up_to(start, F::align()) + F::size()
    }

    open spec fn max_align() -> nat {
        F::align()
    }

    open spec fn room() -> nat {
        F::size_limit() + 64
    }

    open spec fn decode_at(b: Seq<u8>, start: nat) -> Self {
        let at = align_up_to(start, F::align());
        F::decode(b.subrange(at as int, (at + F::size()) as int))
    }

    open spec fn put(self, out: Seq<u8>) -> Seq<u8> {
        zero_pad(out, F::align()) + self.encode()
    }

    proof fn lemma_bounds(start: nat) {
        F::lemma_layout();
        lemma_align_up_to(start, F::align());
    }

    proof fn lemma_put(self, out: Seq<u8>, b: Seq<u8>) {
        F::lemma_layout();
        self.lemma_round_trip();
        lemma_align_up_to(out.len(), F::align());
        let at = align_up_to(out.len(), F::align());
        let whole = self.put(out);
        assert(out =~= whole.subrange(0, out.len() as int));
        if whole.is_prefix_of(b) {
            let own = self.encode();
            assert forall|j: int| 0 <= j < own.len() implies b[at + j] == #[trigger] own[j] by {
                assert(b[at + j] == whole[at + j]);
            }
            assert(b.subrange(at as int, (at + F::size()) as int) =~= own);
        }
    }

    fn measure(start: usize) -> (usize, usize) {
        proof {
            F::lemma_layout();
            lemma_align_up_to(start as nat, F::align());
        }
        let align = F::align_of();
        (align_up(start, align) + F::size_of(), align)
    }

    fn read_at(b: &[u8], start: usize) -> (Self, usize) {
        proof {
            F::lemma_layout();
            lemma_align_up_to(start as nat, F::align());
            assert(b@.len() == b.len());
        }
        let at = align_up(start, F::align_of());
        let end = at + F::size_of();
        (F::from_bytes(slice_subrange(b, at, end)), end)
    }

    fn write(&self, out: &mut Vec<u8>) {
        proof {
            F::lemma_layout();
        }
        pad_to(out, F::align_of());
        append(out, &self.to_bytes());
    }
}

/// The fields of `B` stand behind those of `A`.
impl<A: Fields, B: Fields> Fields for (A, B) {
    open spec fn end_at(start: nat) -> nat {
        B::end_at(A::end_at(start))
    }

    open spec fn max_align() -> nat {
        if A::max_align() > B::max_align() {
            A::max_align()
        } else {
            B::max_align()
        }
    }

    open spec fn room() -> nat {
        A::room() + B::room()
    }

    open spec fn decode_at(b: Seq<u8>, start: nat) -> Self {
        (A::decode_at(b, start), B::decode_at(b, A::end_at(start)))
    }

    open spec fn put(self, out: Seq<u8>) -> Seq<u8> {
        self.1.put(self.0.put(out))
    }

    proof fn lemma_bounds(start: nat) {
        A::lemma_bounds(start);
        B::lemma_bounds(A::end_at(start));
    }

    proof fn lemma_put(self, out: Seq<u8>, b: Seq<u8>) {
        let head = self.0.put(out);
        let whole = self.put(out);
        self.0.lemma_put(out, b);
        self.1.lemma_put(head, b);
        assert(out =~= whole.subrange(0, out.len() as int)) by {
            assert forall|j: int| 0 <= j < out.len() implies whole[j] == #[trigger] out[j] by {
                assert(head[j] == out[j]);
            }
        }
        if whole.is_prefix_of(b) {
            assert(head =~= b.subrange(0, head.len() as int)) by {
                assert forall|j: int| 0 <= j < head.len() implies b[j] == #[trigger] head[j] by {
                    assert(whole[j] == head[j]);
                }
            }
        }
    }

    fn measure(start: usize) -> (usize, usize) {
        proof {
            A::lemma_bounds(start as nat);
        }
        let (mid, first) = A::measure(start);
        let (end, second) = B::measure(mid);
        (
            end,
            if first > second {
                first
            } else {
                second
            },
        )
    }

    fn read_at(b: &[u8], start: usize) -> (Self, usize) {
        proof {
            A::lemma_bounds(start as nat);
            B::lemma_bounds(A::end_at(start as nat));
            assert(b@.len() == b.len());
        }
        let (first, mid) = A::read_at(b, start);
        let (second, end) = B::read_at(b, mid);
        ((first, second), end)
    }

    fn write(&self, out: &mut Vec<u8>) {
        self.0.write(out);
        self.1.write(out);
    }
}

/// A structure, given by its fields in declaration order.
pub trait Record: Sized {
    type Fs: Fields;

    spec fn fields(self) -> Self::Fs;

    spec fn of_fields(f: Self::Fs) -> Self;

    proof fn lemma_fields(self)
        ensures
            Self::of_fields(self.fields()) == self,
            Self::Fs::room() <= 0x100_0000,
    ;

    fn to_fields(&self) -> (f: Self::Fs)
        ensures
            f == self.fields(),
    ;

    fn from_fields(f: Self::Fs) -> (v: Self)
        ensures
            v == Self::of_fields(f),
    ;
}

/// A structure's bytes are those of its fields, padded to its alignment.
impl<R: Record> Pod for R {
    open spec fn size() -> nat {
        align_up_to(R::Fs::end_at(0), R::Fs::max_align())
    }

    open spec fn align() -> nat {
        R::Fs::max_align()
    }

    open spec fn size_limit() -> nat {
        R::Fs::room() + 64
    }

    open spec fn decode(b: Seq<u8>) -> Self {
        R::of_fields(R::Fs::decode_at(b, 0))
    }

    open spec fn encode(&self) -> Seq<u8> {
        zero_pad(self.fields().put(Seq::empty()), R::Fs::max_align())
    }

    proof fn lemma_layout() {
        let v: R = arbitrary();
        v.lemma_fields();
        R::Fs::lemma_bounds(0);
        lemma_align_up_to(R::Fs::end_at(0), R::Fs::max_align());
    }

    proof fn lemma_round_trip(&self) {
        let v = *self;
        v.lemma_fields();
        R::Fs::lemma_bounds(0);
        lemma_align_up_to(R::Fs::end_at(0), R::Fs::max_align());
        let whole = v.fields().put(Seq::empty());
        v.fields().lemma_put(Seq::empty(), v.encode());
        assert(whole =~= v.encode().subrange(0, whole.len() as int));
    }

    fn size_of() -> usize {
        proof {
            let v: R = arbitrary();
            v.lemma_fields();
            R::Fs::lemma_bounds(0);
            lemma_align_up_to(R::Fs::end_at(0), R::Fs::max_align());
        }
        let (end, align) = R::Fs::measure(0);
        align_up(end, align)
    }

    fn align_of() -> usize {
        proof {
            let v: R = arbitrary();
            v.lemma_fields();
        }
        R::Fs::measure(0).1
    }

    fn from_bytes(b: &[u8]) -> Self {
        proof {
            R::Fs::lemma_bounds(0);
            lemma_align_up_to(R::Fs::end_at(0), R::Fs::max_align());
        }
        R::from_fields(R::Fs::read_at(b, 0).0)
    }

    fn to_bytes(&self) -> Vec<u8> {
        let mut out: Vec<u8> = Vec::new();
        let fields = self.to_fields();
        fields.write(&mut out);
        proof {
            R::Fs::lemma_bounds(0);
        }
        pad_to(&mut out, Self::align_of());
        out
    }
}

/// `align_up_to` gives a multiple of `align`, at most `align - 1` above `len`.
pub(crate) proof fn lemma_align_up_to(len: nat, align: nat)
    requires
        align > 0,
    ensures
        len <= align_up_to(len, align) < len + align,
        align_up_to(len, align) % align == 0,
{
    let a = align as int;
    let r = len as int % a;
    let q = len as int / a;
    assert(len == a * q + r && 0 <= r < a) by (nonlinear_arith)
        requires
            a > 0,
            r == len as int % a,
            q == len as int / a,
    ;
    if r == 0 {
        assert((a - r) % a == 0) by (nonlinear_arith)
            requires
                a > 0,
                r == 0,
        ;
    } else {
        assert((a - r) % a == a - r) by (nonlinear_arith)
            requires
                0 < r < a,
        ;
        assert((len + (a - r)) % a == 0) by (nonlinear_arith)
            requires
                a > 0,
                len == a * q + r,
        {
            assert(len + (a - r) == a * (q + 1));
            assert((a * (q + 1)) % a == 0) by (nonlinear_arith)
                requires
                    a > 0,
            ;
        }
    }
}

/// Rounds `len` up to the next multiple of `align`.
pub fn align_up(len: usize, align: usize) -> (r: usize)
    requires
        align > 0,
        align_up_to(len as nat, align as nat) <= usize::MAX,
    ensures
        r == align_up_to(len as nat, align as nat),
        r % align == 0,
        len <= r < len + align,
{
    proof {
        lemma_align_up_to(len as nat, align as nat);
    }
    len + (align - len % align) % align
}

/// Appends zero bytes up to the next multiple of `align`.
pub fn pad_to(out: &mut Vec<u8>, align: usize)
    requires
        align > 0,
    ensures
        final(out)@ == zero_pad(old(out)@, align as nat),
{
    let pad = (align - out.len() % align) % align;
    let ghost before = out@;
    proof {
        lemma_align_up_to(before.len(), align as nat);
    }
    let mut k: usize = 0;
    while k < pad
        invariant
            k <= pad,
            out@ == before + Seq::new(k as nat, |i: int| 0u8),
        decreases pad - k,
    {
        out.push(0);
        k += 1;
        assert(out@ =~= before + Seq::new(k as nat, |i: int| 0u8));
    }
    assert(out@ =~= zero_pad(before, align as nat));
}

/// Appends `tail` to `out`.
pub fn append(out: &mut Vec<u8>, tail: &[u8])
    ensures
        final(out)@ == old(out)@ + tail@,
{
    let ghost before = out@;
    out.extend_from_slice(tail);
    assert(out@ =~= before + tail@);
}

} // verus!
