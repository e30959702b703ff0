//! Resumable read and write state machines.
//!
//! An asynchronous source or sink may move fewer than the needed bytes per
//! operation. These machines keep a cursor over a fixed-width encoding so an
//! external driver can make progress one partial transfer at a time: the
//! driver performs the transfers, the machines hold every decision about
//! accumulation, completion, and end of input.

use crate::{order_bytes, BitEndian, Endian};
use core::marker::PhantomData;
use vstd::prelude::*;

verus! {

/// The outcome of one drive step of a [`ReadEndian`] machine.
pub enum ReadStep<T> {
    /// Every needed byte has arrived: the decoded value.
    Done(T),
    /// More bytes are needed; drive the machine again with further input.
    More,
    /// The source reported end of input while bytes were still needed.
    Eof,
}

/// A resumable decoder: accumulates the `N`-byte encoding of a value of `T`
/// across any number of partial transfers, then decodes it with a fixed mode.
///
/// The driver reads at most [`Self::wanted`] bytes from its source and hands
/// each chunk to [`Self::advance`]; an empty chunk means the source is
/// exhausted. The cursor survives between steps, so a transfer suspended
/// mid-way resumes without re-requesting bytes that already arrived.
pub struct ReadEndian<const N: usize, T: BitEndian<N>> {
    buffer: Vec<u8>,
    endian: Endian,
    _out: PhantomData<T>,
}

impl<const N: usize, T: BitEndian<N>> ReadEndian<N, T> {
    /// The bytes received so far.
    pub closed spec fn filled(self) -> Seq<u8> {
        self.buffer@
    }

    /// The byte-order mode the completed bytes will be decoded with.
    pub closed spec fn mode(self) -> Endian {
        self.endian
    }

    /// The machine never holds more bytes than the encoding has.
    pub closed spec fn wf(self) -> bool {
        self.buffer@.len() <= N as nat
    }

    /// A fresh machine with no bytes received.
    pub fn new(endian: Endian) -> (r: Self)
        ensures
            r.wf(),
            r.filled() == Seq::<u8>::empty(),
            r.mode() == endian,
    {
        ReadEndian { buffer: Vec::new(), endian, _out: PhantomData }
    }

    /// How many more bytes the machine needs.
    pub fn wanted(&self) -> (r: usize)
        requires
            self.wf(),
        ensures
            r == N - self.filled().len(),
    {
        N - self.buffer.len()
    }

    /// Drive the machine with the bytes one partial transfer produced.
    ///
    /// The chunk is appended to what already arrived. Once all `N` bytes are
    /// in, the machine decodes them with its mode and reports the value. An
    /// empty chunk while bytes are still needed means the source hit end of
    /// input: that is terminal, never retried, and no truncated or padded
    /// value is produced. Bytes received before the failure stay in place.
    pub fn advance(&mut self, chunk: &[u8]) -> (r: ReadStep<T>)
        requires
            old(self).wf(),
            chunk@.len() <= N - old(self).filled().len(),
        ensures
            final(self).wf(),
            final(self).mode() == old(self).mode(),
            final(self).filled() == old(self).filled() + chunk@,
            final(self).filled().len() == N ==> r == ReadStep::Done(
                T::of_le_spec(order_bytes(final(self).filled(), old(self).mode())),
            ),
            final(self).filled().len() < N && chunk@.len() == 0 ==> r is Eof,
            final(self).filled().len() < N && chunk@.len() > 0 ==> r is More,
    {
        self.buffer.extend_from_slice(chunk);
        if self.buffer.len() == N {
            ReadStep::Done(T::from_bytes_endian(self.buffer.as_slice(), self.endian))
        } else if chunk.len() == 0 {
            ReadStep::Eof
        } else {
            ReadStep::More
        }
    }
}

/// A resumable encoder-writer: holds the mode-ordered encoding of a value,
/// computed once at construction, and a cursor over how much of it has been
/// written. Re-driving after a partial write never re-encodes.
pub struct WriteArray {
    buffer: Vec<u8>,
    written: usize,
}

impl WriteArray {
    /// The bytes this writer was created to emit.
    pub closed spec fn payload(self) -> Seq<u8> {
        self.buffer@
    }

    /// How many of them reached the sink so far.
    pub closed spec fn progress(self) -> nat {
        self.written as nat
    }

    /// The cursor never passes the end of the payload.
    pub closed spec fn wf(self) -> bool {
        self.written <= self.buffer@.len()
    }

    /// Encode `it` with `endian`, eagerly; no bytes are written yet.
    pub fn new<const N: usize, T: BitEndian<N>>(it: T, endian: Endian) -> (r: Self)
        ensures
            r.wf(),
            r.payload() == order_bytes(it.le_spec(), endian),
            r.progress() == 0,
    {
        WriteArray { buffer: it.to_bytes_endian(endian), written: 0 }
    }

    /// The bytes still to be written: the unwritten suffix of the payload.
    pub fn pending(&self) -> (r: &[u8])
        requires
            self.wf(),
        ensures
            r@ == self.payload().skip(self.progress() as int),
    {
        let r = &self.buffer[self.written..self.buffer.len()];
        proof {
            assert(r@ =~= self.payload().skip(self.progress() as int));
        }
        r
    }

    /// Record that `n` more bytes of the payload reached the sink, and report
    /// whether the write is complete.
    ///
    /// Unlike the read side, a transfer of zero bytes is not an error here: a
    /// sink may legitimately report no progress transiently, and the driver
    /// simply tries again from the same cursor.
    pub fn advance(&mut self, n: usize) -> (r: bool)
        requires
            old(self).wf(),
            n <= old(self).payload().len() - old(self).progress(),
        ensures
            final(self).wf(),
            final(self).payload() == old(self).payload(),
            final(self).progress() == old(self).progress() + n,
            r == (final(self).progress() == final(self).payload().len()),
    {
        let len = self.buffer.len();
        self.written = self.written + n;
        self.written == len
    }

    /// Whether every byte of the payload has been written.
    pub fn is_done(&self) -> (r: bool)
        requires
            self.wf(),
        ensures
            r == (self.progress() == self.payload().len()),
    {
        self.written == self.buffer.len()
    }
}

/// The bytes a read machine holds after a sequence of transfers, starting
/// from `filled`: each chunk is appended in turn, as
/// [`ReadEndian::advance`] does.
pub open spec fn gathered(filled: Seq<u8>, chunks: Seq<Seq<u8>>) -> Seq<u8>
    decreases chunks.len(),
{
    if chunks.len() == 0 {
        filled
    } else {
        gathered(filled + chunks.first(), chunks.drop_first())
    }
}

/// Partial-transfer robustness: however a transfer is split into chunks, the
/// machine finishes with the concatenation of what arrived, so the value a
/// completed read decodes depends only on those bytes — a source that moves
/// one byte per operation produces the same result as one that moves all of
/// them at once.
pub proof fn lemma_transfer_chunking(filled: Seq<u8>, chunks: Seq<Seq<u8>>)
    ensures
        gathered(filled, chunks) == filled + chunks.flatten(),
    decreases chunks.len(),
{
    if chunks.len() == 0 {
        assert(filled + chunks.flatten() =~= filled);
    } else {
        lemma_transfer_chunking(filled + chunks.first(), chunks.drop_first());
        assert(filled + chunks.flatten() =~= (filled + chunks.first())
            + chunks.drop_first().flatten());
    }
}

/// Two chunkings of the same bytes finish with the same bytes.
pub proof fn lemma_transfer_chunking_equal(a: Seq<Seq<u8>>, b: Seq<Seq<u8>>)
    requires
        a.flatten() == b.flatten(),
    ensures
        gathered(Seq::<u8>::empty(), a) == gathered(Seq::<u8>::empty(), b),
{
    lemma_transfer_chunking(Seq::<u8>::empty(), a);
    lemma_transfer_chunking(Seq::<u8>::empty(), b);
}

} // verus!
