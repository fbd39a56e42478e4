use vstd::prelude::*;

verus! {

/// The largest chunk that one write-back hands to the host: 1 MiB.
pub const MAX_CHUNK_LENGTH: usize = 1048576;

/// One chunk of a file-data request: where it goes in the file and how long
/// it is.
#[derive(Debug, Clone, Copy, PartialEq, Eq, Structural)]
pub struct FileChunk {
    pub byte_offset: u64,
    pub length: usize,
}

/// The scratch buffer's size for a request of `length` bytes.
pub open spec fn buffer_length_spec(length: nat) -> nat {
    if length <= MAX_CHUNK_LENGTH {
        length
    } else {
        MAX_CHUNK_LENGTH as nat
    }
}

/// The chunks, in order, that deliver the bytes of `[start + written,
/// start + length)` with a buffer of `capacity` bytes.
pub open spec fn chunks_from(start: nat, length: nat, written: nat, capacity: nat) -> Seq<
    (nat, nat),
>
    decreases length - written,
{
    if written >= length || capacity == 0 {
        Seq::empty()
    } else {
        let n = if length - written < capacity {
            (length - written) as nat
        } else {
            capacity
        };
        seq![(start + written, n)] + chunks_from(start, length, written + n, capacity)
    }
}

/// The bytes of `content` that a sequence of chunks carries, in order.
pub open spec fn assembled(content: Seq<u8>, chunks: Seq<(nat, nat)>) -> Seq<u8>
    decreases chunks.len(),
{
    if chunks.len() == 0 {
        Seq::empty()
    } else {
        content.subrange(chunks[0].0 as int, (chunks[0].0 + chunks[0].1) as int) + assembled(
            content,
            chunks.drop_first(),
        )
    }
}

/// The progress of one file-data request: `length` bytes from
/// `byte_offset`, delivered in chunks no longer than the scratch buffer.
pub struct FileDataRequest {
    byte_offset: u64,
    length: usize,
    bytes_written: usize,
    buffer_length: usize,
}

impl FileDataRequest {
    pub closed spec fn start(&self) -> nat {
        self.byte_offset as nat
    }

    pub closed spec fn total(&self) -> nat {
        self.length as nat
    }

    /// The bytes delivered so far.
    pub closed spec fn written(&self) -> nat {
        self.bytes_written as nat
    }

    pub closed spec fn capacity(&self) -> nat {
        self.buffer_length as nat
    }

    pub closed spec fn wf(&self) -> bool {
        &&& self.bytes_written <= self.length
        &&& self.byte_offset + self.length <= u64::MAX
        &&& self.buffer_length == buffer_length_spec(self.length as nat)
    }

    /// The chunks that are still to be delivered.
    pub open spec fn pending(&self) -> Seq<(nat, nat)> {
        chunks_from(self.start(), self.total(), self.written(), self.capacity())
    }

    pub fn new(byte_offset: u64, length: usize) -> (r: Self)
        requires
            byte_offset + length <= u64::MAX,
        ensures
            r.wf(),
            r.start() == byte_offset,
            r.total() == length,
            r.written() == 0,
            r.capacity() == buffer_length_spec(length as nat),
    {
        let buffer_length = if length <= MAX_CHUNK_LENGTH {
            length
        } else {
            MAX_CHUNK_LENGTH
        };
        FileDataRequest { byte_offset, length, bytes_written: 0, buffer_length }
    }

    /// The size of the scratch buffer that the chunks are read into.
    pub fn buffer_length(&self) -> (r: usize)
        ensures
            r == self.capacity(),
    {
        self.buffer_length
    }

    /// The next chunk to deliver, or `None` once the whole range is written.
    pub fn next_chunk(&self) -> (r: Option<FileChunk>)
        requires
            self.wf(),
        ensures
            match r {
                Some(c) => self.pending().len() > 0 && self.pending()[0] == (
                    c.byte_offset as nat,
                    c.length as nat,
                ),
                None => self.pending().len() == 0,
            },
            r.is_none() <==> self.written() == self.total(),
    {
        if self.bytes_written >= self.length {
            None
        } else {
            let pending = self.length - self.bytes_written;
            let n = if pending < self.buffer_length {
                pending
            } else {
                self.buffer_length
            };
            Some(FileChunk { byte_offset: self.byte_offset + self.bytes_written as u64, length: n })
        }
    }

    /// Records that the chunk that `next_chunk` gave was delivered.
    pub fn chunk_delivered(&mut self)
        requires
            old(self).wf(),
            old(self).written() < old(self).total(),
        ensures
            final(self).wf(),
            final(self).pending() == old(self).pending().drop_first(),
            final(self).written() > old(self).written(),
            final(self).start() == old(self).start(),
            final(self).total() == old(self).total(),
            final(self).capacity() == old(self).capacity(),
    {
        let pending = self.length - self.bytes_written;
        let n = if pending < self.buffer_length {
            pending
        } else {
            self.buffer_length
        };
        self.bytes_written = self.bytes_written + n;
    }
}

/// The chunks of a request cover its range exactly: put together, the bytes
/// that they carry are the content from `start + written` to `start +
/// length`, with nothing lost, repeated or out of order at chunk
/// boundaries.
pub proof fn lemma_chunks_reassemble(
    content: Seq<u8>,
    start: nat,
    length: nat,
    written: nat,
    capacity: nat,
)
    requires
        written <= length,
        start + length <= content.len(),
        capacity > 0,
    ensures
        assembled(content, chunks_from(start, length, written, capacity)) == content.subrange(
            (start + written) as int,
            (start + length) as int,
        ),
    decreases length - written,
{
    if written < length {
        let n = if length - written < capacity {
            (length - written) as nat
        } else {
            capacity
        };
        lemma_chunks_reassemble(content, start, length, written + n, capacity);
        let chunks = chunks_from(start, length, written, capacity);
        assert(chunks.drop_first() == chunks_from(start, length, written + n, capacity));
        let a = (start + written) as int;
        let b = (start + written + n) as int;
        let e = (start + length) as int;
        assert(content.subrange(a, b) + content.subrange(b, e) =~= content.subrange(a, e));
    } else {
        assert(content.subrange((start + written) as int, (start + length) as int)
            =~= Seq::<u8>::empty());
    }
}

/// Each chunk is non-empty, no longer than the buffer, and starts where the
/// one before it ended.
pub proof fn lemma_chunks_contiguous(start: nat, length: nat, written: nat, capacity: nat)
    requires
        written <= length,
        capacity > 0,
    ensures
        ({
            let chunks = chunks_from(start, length, written, capacity);
            &&& forall|i: int|
                0 <= i < chunks.len() ==> 0 < (#[trigger] chunks[i]).1 <= capacity
            &&& forall|i: int|
                0 <= i < chunks.len() - 1 ==> (#[trigger] chunks[i + 1]).0 == chunks[i].0
                    + chunks[i].1
            &&& chunks.len() > 0 ==> chunks[0].0 == start + written
        }),
    decreases length - written,
{
    if written < length {
        let n = if length - written < capacity {
            (length - written) as nat
        } else {
            capacity
        };
        lemma_chunks_contiguous(start, length, written + n, capacity);
        let chunks = chunks_from(start, length, written, capacity);
        let rest = chunks_from(start, length, written + n, capacity);
        assert(chunks == seq![(start + written, n)] + rest);
        assert forall|i: int| 0 <= i < chunks.len() - 1 implies (#[trigger] chunks[i + 1]).0
            == chunks[i].0 + chunks[i].1 by {
            if i > 0 {
                assert(chunks[i] == rest[i - 1]);
                assert(chunks[i + 1] == rest[(i - 1) + 1]);
            }
        }
        assert forall|i: int| 0 <= i < chunks.len() implies 0 < (#[trigger] chunks[i]).1
            <= capacity by {
            if i > 0 {
                assert(chunks[i] == rest[i - 1]);
            }
        }
    }
}

} // verus!
