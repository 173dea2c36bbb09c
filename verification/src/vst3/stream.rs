//! A minimal in-memory stream, used to move state between a plugin's component and its edit
//! controller: bytes written at a position can be read back from there.

use vstd::prelude::*;

use super::{TResult, K_INVALID_ARGUMENT, K_RESULT_OK};

verus! {

/// Seek from the start of the stream (`kIBSeekSet`).
pub const IB_SEEK_SET: i32 = 0;

/// Seek from the current position (`kIBSeekCur`).
pub const IB_SEEK_CUR: i32 = 1;

/// Seek from the end of the stream (`kIBSeekEnd`).
pub const IB_SEEK_END: i32 = 2;

/// A stream of bytes held in memory, with a position reads and writes start at.
pub struct MemoryStream {
    data: Vec<u8>,
    position: usize,
}

/// How many bytes a read of `requested` bytes takes from a stream of `len` bytes at `position`:
/// as many as are asked for and are there, none for a negative request.
pub open spec fn read_count(len: nat, position: nat, requested: int) -> nat {
    let wanted: nat = if requested < 0 { 0 } else { requested as nat };
    let available: nat = if len > position { (len - position) as nat } else { 0 };
    if wanted < available { wanted } else { available }
}

/// The bytes of a stream after `bytes` are written at `position`: they replace what was there,
/// and a stream too short to hold them is first grown with zeros.
pub open spec fn bytes_after_write(data: Seq<u8>, position: nat, bytes: Seq<u8>) -> Seq<u8> {
    let end = position + bytes.len();
    let len = if end > data.len() { end } else { data.len() };
    Seq::new(
        len as nat,
        |i: int|
            if position <= i < end {
                bytes[i - position]
            } else if i < data.len() {
                data[i]
            } else {
                0u8
            },
    )
}

/// The position a seek moves to, `None` when the mode is unknown or the position would be
/// before the start of the stream.
pub open spec fn seek_target(len: nat, position: nat, offset: int, mode: i32) -> Option<int> {
    let target = if mode == IB_SEEK_SET {
        Some(offset)
    } else if mode == IB_SEEK_CUR {
        Some(position + offset)
    } else if mode == IB_SEEK_END {
        Some(len + offset)
    } else {
        None
    };
    match target {
        Some(t) => if t < 0 {
            None
        } else {
            Some(t)
        },
        None => None,
    }
}

impl MemoryStream {
    /// The bytes the stream holds.
    pub closed spec fn bytes(&self) -> Seq<u8> {
        self.data@
    }

    /// The position the next read or write starts at. It may lie past the end of the bytes.
    pub closed spec fn position(&self) -> nat {
        self.position as nat
    }

    /// The position and the length of the stream can be reported as a 64-bit offset.
    pub open spec fn well_formed(&self) -> bool {
        &&& self.position() <= i64::MAX
        &&& self.bytes().len() <= i64::MAX
    }

    /// An empty stream at position 0.
    pub fn new() -> (stream: Self)
        ensures
            stream.bytes() == Seq::<u8>::empty(),
            stream.position() == 0,
            stream.well_formed(),
    {
        MemoryStream { data: Vec::new(), position: 0 }
    }

    /// Reads up to `num_bytes` bytes from the position on and moves the position past them.
    /// Returns the result code and the bytes read, of which there may be fewer than asked for.
    pub fn read(&mut self, num_bytes: i32) -> (result: (TResult, Vec<u8>))
        requires
            old(self).well_formed(),
        ensures
            result.0 == K_RESULT_OK,
            result.1@.len() == read_count(old(self).bytes().len(), old(self).position(), num_bytes as int),
            forall|i: int| 0 <= i < result.1@.len() ==> #[trigger] result.1@[i] == old(self).bytes()[old(self).position() + i],
            final(self).bytes() == old(self).bytes(),
            final(self).position() == old(self).position() + read_count(
                old(self).bytes().len(),
                old(self).position(),
                num_bytes as int,
            ),
            final(self).well_formed(),
    {
        let len = self.data.len();
        let available: usize = if len > self.position { len - self.position } else { 0 };
        let wanted: usize = if num_bytes < 0 { 0 } else { num_bytes as usize };
        let to_read: usize = if wanted < available { wanted } else { available };
        let start = self.position;
        let mut bytes: Vec<u8> = Vec::new();
        let mut i: usize = 0;
        while i < to_read
            invariant
                i <= to_read,
                to_read > 0 ==> start + to_read <= self.data@.len(),
                self.data@.len() <= usize::MAX,
                bytes@.len() == i,
                forall|k: int| 0 <= k < i ==> #[trigger] bytes@[k] == self.data@[start + k],
            decreases to_read - i,
        {
            bytes.push(self.data[start + i]);
            i = i + 1;
        }
        self.position = start + to_read;
        (K_RESULT_OK, bytes)
    }

    /// Writes `bytes` at the position, growing the stream with zeros when it is too short, and
    /// moves the position past them. Returns the result code and the number of bytes written.
    pub fn write(&mut self, bytes: &[u8]) -> (result: (TResult, i32))
        requires
            old(self).well_formed(),
            bytes@.len() <= i32::MAX,
            old(self).position() + bytes@.len() <= i64::MAX,
            old(self).position() + bytes@.len() <= usize::MAX,
        ensures
            result.0 == K_RESULT_OK,
            result.1 == bytes@.len(),
            final(self).bytes() == bytes_after_write(old(self).bytes(), old(self).position(), bytes@),
            final(self).position() == old(self).position() + bytes@.len(),
            final(self).well_formed(),
    {
        let start = self.position;
        let count = bytes.len();
        let end = start + count;
        let ghost original = self.data@;
        while self.data.len() < end
            invariant
                end == start + count,
                original.len() <= self.data@.len(),
                self.data@.len() <= if end > original.len() { end as int } else { original.len() as int },
                forall|k: int| 0 <= k < original.len() ==> #[trigger] self.data@[k] == original[k],
                forall|k: int| original.len() <= k < self.data@.len() ==> #[trigger] self.data@[k] == 0u8,
            decreases end - self.data@.len(),
        {
            self.data.push(0u8);
        }
        let mut i: usize = 0;
        while i < count
            invariant
                count == bytes@.len(),
                end == start + count,
                i <= count,
                self.data@.len() == if end > original.len() { end as int } else { original.len() as int },
                forall|k: int| start <= k < start + i ==> #[trigger] self.data@[k] == bytes@[k - start],
                forall|k: int| 0 <= k < self.data@.len() && !(start <= k < start + i) ==> #[trigger] self.data@[k]
                    == if start + i <= k < end {
                        self.data@[k]
                    } else if k < original.len() {
                        original[k]
                    } else {
                        0u8
                    },
            decreases count - i,
        {
            self.data.set(start + i, bytes[i]);
            i = i + 1;
        }
        assert(self.data@ =~= bytes_after_write(original, start as nat, bytes@));
        self.position = end;
        (K_RESULT_OK, count as i32)
    }

    /// Moves the position to `offset` from the start, the current position or the end, as
    /// `mode` says. A mode that is not one of those, or a position before the start, is refused
    /// with `K_INVALID_ARGUMENT` and leaves the position where it was. Returns the result code and
    /// the new position.
    pub fn seek(&mut self, offset: i64, mode: i32) -> (result: (TResult, Option<i64>))
        requires
            old(self).well_formed(),
            mode == IB_SEEK_CUR ==> old(self).position() + offset <= i64::MAX,
            mode == IB_SEEK_END ==> old(self).bytes().len() + offset <= i64::MAX,
            seek_target(old(self).bytes().len(), old(self).position(), offset as int, mode) matches Some(t) ==> t
                <= usize::MAX,
        ensures
            final(self).bytes() == old(self).bytes(),
            match seek_target(old(self).bytes().len(), old(self).position(), offset as int, mode) {
                Some(t) => result.0 == K_RESULT_OK && result.1 == Some(t as i64) && final(self).position() == t,
                None => result.0 == K_INVALID_ARGUMENT && result.1 is None && final(self).position()
                    == old(self).position(),
            },
            final(self).well_formed(),
    {
        let length = self.data.len() as i64;
        let current = self.position as i64;
        let target: i64 = if mode == IB_SEEK_SET {
            offset
        } else if mode == IB_SEEK_CUR {
            current + offset
        } else if mode == IB_SEEK_END {
            length + offset
        } else {
            return (K_INVALID_ARGUMENT, None);
        };
        if target < 0 {
            return (K_INVALID_ARGUMENT, None);
        }
        self.position = target as usize;
        (K_RESULT_OK, Some(target))
    }

    /// The current position.
    pub fn tell(&self) -> (position: i64)
        requires
            self.well_formed(),
        ensures
            position == self.position(),
    {
        self.position as i64
    }
}

/// Creates a new, empty in-memory stream.
pub fn create_memory_stream() -> (stream: MemoryStream)
    ensures
        stream.bytes() == Seq::<u8>::empty(),
        stream.position() == 0,
        stream.well_formed(),
{
    MemoryStream::new()
}

/// What is written at a position reads back from there: after `bytes` are written at
/// `position`, reading as many bytes from `position` gives exactly `bytes`, and every byte outside
/// them is what it was before (or a zero where the stream grew).
pub proof fn lemma_write_reads_back(data: Seq<u8>, position: nat, bytes: Seq<u8>)
    ensures
        ({
            let after = bytes_after_write(data, position, bytes);
            &&& read_count(after.len(), position, bytes.len() as int) == bytes.len()
            &&& after.subrange(position as int, (position + bytes.len()) as int) == bytes
            &&& forall|i: int| 0 <= i < data.len() && !(position <= i < position + bytes.len()) ==> #[trigger] after[i] == data[i]
        }),
{
    let after = bytes_after_write(data, position, bytes);
    assert(after.subrange(position as int, (position + bytes.len()) as int) =~= bytes);
}

} // verus!
