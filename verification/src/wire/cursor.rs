//! Reading the chunks that a message is made of.
//!
//! A message is a sequence of chunks. Each chunk starts at a multiple of the
//! pointer width and opens with a header of two pointer-wide numbers: the
//! sender's reference number for the object and the chunk's declared size,
//! which covers the header, the content and all chunks nested behind it.
//!
//! The functions over [`Place`] and [`Step`] say what a reader finds; each
//! `Cursor` function says that it finds just that.

use vstd::prelude::*;
use vstd::slice::{slice_subrange, slice_to_vec};

use super::layout;
use super::pod;
use super::pod::Pod;
use crate::error::Malformed;
use crate::text;

verus! {

/// Where a reader stands in a message: at `pos`, and stuck there for good if
/// there is a `fault`.
pub struct Place {
    pub pos: nat,
    pub fault: Option<Malformed>,
}

/// What reading one thing gives: its value, and where the reader stands
/// afterwards. The value means nothing if the reader is stuck.
pub struct Step<T> {
    pub value: T,
    pub at: Place,
}

impl Place {
    /// The same place, with `fault`.
    pub open spec fn stuck(self, fault: Malformed) -> Place {
        Place { pos: self.pos, fault: Some(fault) }
    }
}

impl<T> Step<T> {
    /// The value, or why there is none.
    pub open spec fn outcome(self) -> Result<T, Malformed> {
        match self.at.fault {
            Some(fault) => Err(fault),
            None => Ok(self.value),
        }
    }
}

/// The length of a chunk header.
pub open spec fn header_width() -> nat {
    2 * pod::ptr_width()
}

/// Where the chunk at or after `pos` starts: at the next multiple of the
/// pointer width, if that is still a number that the machine can hold.
pub open spec fn chunk_start(pos: nat) -> nat {
    let start = layout::align_up_to(pos, pod::ptr_width());
    if pos <= usize::MAX < start {
        usize::MAX as nat
    } else {
        start
    }
}

/// The next `n` bytes of `b`.
pub open spec fn raw_step(b: Seq<u8>, s: Place, n: nat) -> Step<Seq<u8>> {
    if s.fault is Some {
        Step { value: Seq::empty(), at: s }
    } else if s.pos + n > b.len() {
        Step {
            value: Seq::empty(),
            at: s.stuck(
                Malformed::Truncated {
                    need: n as usize,
                    offset: s.pos as usize,
                    have: b.len() as usize,
                },
            ),
        }
    } else {
        Step {
            value: b.subrange(s.pos as int, (s.pos + n) as int),
            at: Place { pos: s.pos + n, fault: None },
        }
    }
}

/// The next chunk's header: its reference number and its declared size.
#[verifier::opaque]
pub open spec fn header_step(b: Seq<u8>, s: Place) -> Step<(usize, usize)> {
    let start = if s.fault is Some {
        s
    } else {
        Place { pos: chunk_start(s.pos), fault: None }
    };
    let raw = raw_step(b, start, header_width());
    let w = pod::ptr_width() as int;
    Step {
        value: (
            usize::decode(raw.value.subrange(0, w)),
            usize::decode(raw.value.subrange(w, 2 * w)),
        ),
        at: raw.at,
    }
}

/// A chunk without nested chunks: its reference number and its content.
#[verifier::opaque]
pub open spec fn leaf_step(b: Seq<u8>, s: Place) -> Step<(usize, Seq<u8>)> {
    let header = header_step(b, s);
    let (orig, declared) = header.value;
    if header.at.fault is None && declared < header_width() {
        Step {
            value: (orig, Seq::empty()),
            at: header.at.stuck(
                Malformed::ShortLeaf { declared, header: header_width() as usize },
            ),
        }
    } else {
        let raw = raw_step(b, header.at, (declared - header_width()) as nat);
        Step { value: (orig, raw.value), at: raw.at }
    }
}

/// A chunk that opens with a structure.
#[verifier::opaque]
pub open spec fn pod_step<T: Pod>(b: Seq<u8>, s: Place) -> Step<T> {
    let header = header_step(b, s);
    let declared = header.value.1;
    if header.at.fault is None && declared < header_width() + T::size() {
        Step {
            value: T::decode(Seq::empty()),
            at: header.at.stuck(
                Malformed::ShortChunk {
                    declared,
                    header: header_width() as usize,
                    content: T::size() as usize,
                },
            ),
        }
    } else {
        let raw = raw_step(b, header.at, T::size());
        Step { value: T::decode(raw.value), at: raw.at }
    }
}

/// A reader that is stuck stays where it is.
pub broadcast proof fn stuck_at_header(b: Seq<u8>, s: Place)
    requires
        s.fault is Some,
    ensures
        (#[trigger] header_step(b, s)).at == s,
{
    reveal(header_step);
}

/// A reader that is stuck stays where it is.
pub broadcast proof fn stuck_at_leaf(b: Seq<u8>, s: Place)
    requires
        s.fault is Some,
    ensures
        (#[trigger] leaf_step(b, s)).at == s,
{
    reveal(header_step);
    reveal(leaf_step);
}

/// A reader that is stuck stays where it is.
pub broadcast proof fn stuck_at_pod<T: Pod>(b: Seq<u8>, s: Place)
    requires
        s.fault is Some,
    ensures
        (#[trigger] pod_step::<T>(b, s)).at == s,
{
    reveal(header_step);
    reveal(pod_step);
}

pub broadcast group group_stuck {
    stuck_at_header,
    stuck_at_leaf,
    stuck_at_pod,
}

/// `b` without its last byte, if that is zero.
pub open spec fn without_nul(b: Seq<u8>) -> Seq<u8> {
    if b.len() > 0 && b.last() == 0 {
        b.drop_last()
    } else {
        b
    }
}

/// The text that a pointer refers to, unless it is null.
pub open spec fn text_step(b: Seq<u8>, s: Place, ptr: usize) -> Step<Option<Seq<char>>> {
    if ptr == 0 {
        Step { value: None, at: s }
    } else {
        let leaf = leaf_step(b, s);
        Step { value: Some(text::text_of(without_nul(leaf.value.1))), at: leaf.at }
    }
}

/// The bytes that a pointer refers to, unless it is null.
pub open spec fn bytes_step(b: Seq<u8>, s: Place, ptr: usize) -> Step<Option<Seq<u8>>> {
    if ptr == 0 {
        Step { value: None, at: s }
    } else {
        let leaf = leaf_step(b, s);
        Step { value: Some(leaf.value.1), at: leaf.at }
    }
}

/// No text is malformed for what it says: a text is read like bytes, and
/// ill-formed UTF-8 in it is no fault.
pub proof fn text_is_never_malformed(b: Seq<u8>, s: Place, ptr: usize)
    ensures
        text_step(b, s, ptr).at == bytes_step(b, s, ptr).at,
{
}

/// The header that stands for a structure embedded in another.
pub open spec fn marker_step(b: Seq<u8>, s: Place) -> Place {
    header_step(b, s).at
}

/// `r`, with the cursor at `pos`, is what `step` says.
pub open spec fn gives<T: DeepView>(
    r: Result<T, Malformed>,
    pos: usize,
    step: Step<T::V>,
) -> bool {
    &&& pos == step.at.pos
    &&& match r {
        Ok(v) => step.at.fault is None && v.deep_view() == step.value,
        Err(fault) => step.at.fault == Some(fault),
    }
}

/// `r`, with the cursor at `pos`, says whether the reader is stuck at `place`.
pub open spec fn reaches(r: Result<(), Malformed>, pos: usize, place: Place) -> bool {
    &&& pos == place.pos
    &&& match r {
        Ok(_) => place.fault is None,
        Err(fault) => place.fault == Some(fault),
    }
}

pub(crate) proof fn lemma_chunk_start(pos: nat)
    ensures
        pos <= chunk_start(pos),
{
    pod::lemma_ptr_width();
    layout::lemma_align_up_to(pos, pod::ptr_width());
}

/// A reader that has read a structure has moved on, and is still within the
/// message.
pub proof fn reading_moves_on<T: Pod>(b: Seq<u8>, s: Place)
    ensures
        pod_step::<T>(b, s).at.fault is None ==> s.fault is None && s.pos < pod_step::<T>(
            b,
            s,
        ).at.pos <= b.len(),
{
    reveal(header_step);
    reveal(pod_step);
    pod::lemma_ptr_width();
    lemma_chunk_start(s.pos);
}

/// A cursor over one received message.
pub struct Cursor<'a> {
    pub buf: &'a [u8],
    pub pos: usize,
}

impl<'a> Cursor<'a> {
    /// Where the reader stands.
    pub open spec fn place(self) -> Place {
        Place { pos: self.pos as nat, fault: None }
    }

    pub fn new(buf: &'a [u8]) -> (c: Self)
        ensures
            c.buf == buf,
            c.pos == 0,
    {
        Cursor { buf, pos: 0 }
    }

    /// Whether `n` more bytes follow.
    pub fn need(&self, n: usize) -> (r: Result<(), Malformed>)
        ensures
            r is Ok <==> self.pos + n <= self.buf@.len(),
            r matches Err(fault) ==> fault == (Malformed::Truncated {
                need: n,
                offset: self.pos,
                have: self.buf@.len() as usize,
            }),
    {
        let have = self.buf.len();
        if self.pos > have || n > have - self.pos {
            return Err(Malformed::Truncated { need: n, offset: self.pos, have });
        }
        Ok(())
    }

    /// Reads exactly `n` bytes and advances past them.
    pub fn read_raw(&mut self, n: usize) -> (r: Result<&'a [u8], Malformed>)
        ensures
            final(self).buf == old(self).buf,
            ({
                let step = raw_step(old(self).buf@, old(self).place(), n as nat);
                &&& final(self).pos == step.at.pos
                &&& match r {
                    Ok(v) => step.at.fault is None && v@ == step.value,
                    Err(fault) => step.at.fault == Some(fault),
                }
            }),
    {
        self.need(n)?;
        assert(self.buf@.len() == self.buf.len());
        let bytes = slice_subrange(self.buf, self.pos, self.pos + n);
        self.pos = self.pos + n;
        Ok(bytes)
    }

    /// Skips the padding before a chunk and reads its header: the reference
    /// number and the declared size.
    ///
    /// The declared size counts every nested chunk too, so it says how long
    /// the content is only where nothing is nested (see [`Cursor::leaf`]).
    pub fn chunk_header(&mut self) -> (r: Result<(usize, usize), Malformed>)
        ensures
            final(self).buf == old(self).buf,
            ({
                let step = header_step(old(self).buf@, old(self).place());
                &&& final(self).pos == step.at.pos
                &&& match r {
                    Ok(v) => step.at.fault is None && v == step.value,
                    Err(fault) => step.at.fault == Some(fault),
                }
            }),
    {
        reveal(header_step);
        let w = pod::ptr_size();
        let pad = (w - self.pos % w) % w;
        self.pos = self.pos.saturating_add(pad);
        let header = self.read_raw(2 * w)?;
        let orig = read_native_usize(slice_subrange(header, 0, w));
        let declared = read_native_usize(slice_subrange(header, w, 2 * w));
        Ok((orig, declared))
    }

    /// Reads one chunk without nested chunks: its reference number and its
    /// content.
    pub fn leaf(&mut self) -> (r: Result<(usize, &'a [u8]), Malformed>)
        ensures
            final(self).buf == old(self).buf,
            ({
                let step = leaf_step(old(self).buf@, old(self).place());
                &&& final(self).pos == step.at.pos
                &&& match r {
                    Ok(v) => step.at.fault is None && v.0 == step.value.0 && v.1@
                        == step.value.1,
                    Err(fault) => step.at.fault == Some(fault),
                }
            }),
    {
        reveal(leaf_step);
        let header_len = 2 * pod::ptr_size();
        let (orig, declared) = self.chunk_header()?;
        if declared < header_len {
            return Err(Malformed::ShortLeaf { declared, header: header_len });
        }
        let content = self.read_raw(declared - header_len)?;
        Ok((orig, content))
    }
}

/// The number that pointer-wide bytes hold.
pub fn read_native_usize(bytes: &[u8]) -> (n: usize)
    requires
        bytes@.len() == pod::ptr_width(),
    ensures
        n == usize::decode(bytes@),
{
    usize::from_bytes(bytes)
}

/// The structure that `bytes` open with.
pub fn read_pod<T: Pod>(bytes: &[u8]) -> (r: Result<T, Malformed>)
    ensures
        match r {
            Ok(v) => bytes@.len() >= T::size() && v == T::decode(bytes@.take(T::size() as int)),
            Err(fault) => bytes@.len() < T::size() && fault == (Malformed::ShortStruct {
                need: T::size() as usize,
                got: bytes@.len() as usize,
            }),
        },
{
    let need = T::size_of();
    if bytes.len() < need {
        return Err(Malformed::ShortStruct { need, got: bytes.len() });
    }
    Ok(T::from_bytes(slice_subrange(bytes, 0, need)))
}

/// The bytes of a structure, as [`read_pod`] reads them.
pub fn pod_bytes<T: Pod>(value: &T) -> (b: Vec<u8>)
    ensures
        b@ == value.encode(),
        b@.len() == T::size(),
        T::decode(b@) == *value,
{
    proof {
        value.lemma_round_trip();
    }
    value.to_bytes()
}

/// Reads the structure that the next chunk opens with. What the chunk
/// declares beyond that is nested chunks, which the caller reads next.
pub fn read_chunk_pod<T: Pod>(cursor: &mut Cursor) -> (r: Result<T, Malformed>)
    ensures
        final(cursor).buf == old(cursor).buf,
        ({
            let step = pod_step::<T>(old(cursor).buf@, old(cursor).place());
            &&& final(cursor).pos == step.at.pos
            &&& match r {
                Ok(v) => step.at.fault is None && v == step.value,
                Err(fault) => step.at.fault == Some(fault),
            }
        }),
{
    proof {
        reveal(pod_step);
        T::lemma_layout();
    }
    let header_len = 2 * pod::ptr_size();
    let n = T::size_of();
    let (_, declared) = cursor.chunk_header()?;
    if declared < header_len + n {
        return Err(Malformed::ShortChunk { declared, header: header_len, content: n });
    }
    let content = cursor.read_raw(n)?;
    assert(content@.take(n as int) =~= content@);
    read_pod(content)
}

/// Reads a text chunk, if `ptr_field` says that there is one. A trailing NUL
/// is not part of the text, and ill-formed UTF-8 is replaced: a garbled name
/// is of more use than no answer at all.
pub fn read_opt_cstring(cursor: &mut Cursor, ptr_field: usize) -> (r: Result<
    Option<String>,
    Malformed,
>)
    ensures
        final(cursor).buf == old(cursor).buf,
        gives(r, final(cursor).pos, text_step(old(cursor).buf@, old(cursor).place(), ptr_field)),
{
    if ptr_field == 0 {
        return Ok(None);
    }
    let (_, body) = cursor.leaf()?;
    let n = body.len();
    let bytes = if n > 0 && body[n - 1] == 0 {
        slice_subrange(body, 0, n - 1)
    } else {
        body
    };
    assert(bytes@ =~= without_nul(body@));
    Ok(Some(text::read_text(bytes)))
}

/// Reads a byte-string chunk, if `ptr_field` says that there is one.
pub fn read_opt_bytes(cursor: &mut Cursor, ptr_field: usize) -> (r: Result<
    Option<Vec<u8>>,
    Malformed,
>)
    ensures
        final(cursor).buf == old(cursor).buf,
        gives(r, final(cursor).pos, bytes_step(old(cursor).buf@, old(cursor).place(), ptr_field)),
{
    if ptr_field == 0 {
        return Ok(None);
    }
    let (_, body) = cursor.leaf()?;
    let bytes = slice_to_vec(body);
    assert(bytes.deep_view() =~= body@);
    Ok(Some(bytes))
}

/// Consumes the header that stands for an embedded structure: its own fields
/// are part of the enclosing structure, and only what they point to follows.
pub fn consume_substruct_marker(cursor: &mut Cursor) -> (r: Result<(), Malformed>)
    ensures
        final(cursor).buf == old(cursor).buf,
        reaches(r, final(cursor).pos, marker_step(old(cursor).buf@, old(cursor).place())),
{
    cursor.chunk_header()?;
    Ok(())
}

} // verus!
