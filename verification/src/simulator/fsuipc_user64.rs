//! The shared-memory request/response protocol of FSUIPC in its 64-bit form.
//!
//! A session writes read requests into an image of the shared block, the
//! simulator fills the bodies in place, and the response is read back from
//! the start of the same block. Each record starts with a 32-bit id:
//! 0 ends the stream, 1 is a read (offset, length, 64-bit destination, body),
//! 2 is a write echo (offset, length, body). All numbers are little-endian.

use crate::text::{decimal, decimal_text, hex, hex_text, signed_decimal, signed_decimal_text};
use crate::wire::{
    byte_span, le_bytes, le_read_u32, le_read_u64, le_value, le_write_u32, le_write_u64,
    lemma_le_bytes_len, lemma_le_round_trip, lemma_le_value_fits,
};
use vstd::prelude::*;
use vstd::slice::slice_subrange;

verus! {

/// The answer of the simulator's window to a batch that it accepted.
pub const FS6IPC_MESSAGE_SUCCESS: isize = 1;

/// The size of the shared block: 64 KiB.
pub const FILE_MAPPING_LEN: usize = 65536;

/// The calls that open the shared block, in order.
#[derive(Debug, Clone, Copy, PartialEq, Eq, Structural)]
pub enum OpenStep {
    /// Find the simulator's window of class `WINDOW_CLASS`.
    FindWindow,
    /// Register the window message `MESSAGE_NAME`.
    RegisterMessage,
    /// Add the global atom that names the block.
    AddAtom,
    /// Create the file mapping of `FILE_MAPPING_LEN` bytes under that name.
    CreateMapping,
    /// Map a view of the file mapping.
    MapView,
}

/// Why a connection or a session failed.
#[derive(Debug, Clone, Copy, PartialEq, Eq, Structural)]
pub enum IpcError {
    /// The connection could not be set up: this call failed.
    ConnectionRefused(OpenStep),
    /// The block ended inside a record.
    UnexpectedEof,
    /// The block has no room left for what was to be written.
    WriteZero,
    /// The simulator answered the batch with this code instead of success.
    Rejected(isize),
    /// The response holds a record with this unknown id.
    UnexpectedMessage(u32),
}

/// Bytes that a response asked to be copied to a destination.
#[derive(Debug, Clone, PartialEq, Eq)]
pub struct Delivery {
    /// The destination that the matching request named.
    pub target: u64,
    /// The bytes for that destination.
    pub data: Vec<u8>,
}

impl View for Delivery {
    type V = (u64, Seq<u8>);

    open spec fn view(&self) -> (u64, Seq<u8>) {
        (self.target, self.data@)
    }
}

/// The deliveries of a list, each as its destination and bytes.
pub open spec fn deliveries_view(list: Seq<Delivery>) -> Seq<(u64, Seq<u8>)> {
    list.map_values(|d: Delivery| d@)
}

/// `count` zero bytes.
pub open spec fn zeros(count: nat) -> Seq<u8> {
    Seq::new(count, |i: int| 0u8)
}

/// The record that asks for `len` bytes from `offset` to be copied to `dest`:
/// the id of a read, the offset, the length (its low 32 bits), the
/// destination, and a body of `len` zero bytes for the simulator to fill.
pub open spec fn read_request(offset: u16, dest: u64, len: nat) -> Seq<u8> {
    le_bytes(1, 4) + le_bytes(offset as nat, 4) + le_bytes(len % 0x1_0000_0000, 4) + le_bytes(
        dest as nat,
        8,
    ) + zeros(len)
}

/// A read request is a header of twenty bytes and a body of `len`.
pub proof fn lemma_read_request_len(offset: u16, dest: u64, len: nat)
    ensures
        read_request(offset, dest, len).len() == 20 + len,
{
    lemma_le_bytes_len(1, 4);
    lemma_le_bytes_len(offset as nat, 4);
    lemma_le_bytes_len(len % 0x1_0000_0000, 4);
    lemma_le_bytes_len(dest as nat, 8);
}

/// The four zero bytes that end a request.
pub open spec fn end_mark() -> Seq<u8> {
    le_bytes(0, 4)
}

/// What reading a response from the start of `block` yields: the deliveries
/// in the order of their records, or the first error.
pub open spec fn response_reading(block: Seq<u8>) -> Result<Seq<(u64, Seq<u8>)>, IpcError>
    decreases block.len(),
{
    if block.len() < 4 {
        Err(IpcError::UnexpectedEof)
    } else {
        let id = le_value(block.subrange(0, 4));
        if id == 0 {
            Ok(Seq::empty())
        } else if id == 1 {
            if block.len() < 20 {
                Err(IpcError::UnexpectedEof)
            } else {
                let len = le_value(block.subrange(8, 12)) as int;
                let target = le_value(block.subrange(12, 20)) as u64;
                if block.len() < 20 + len {
                    Err(IpcError::UnexpectedEof)
                } else {
                    match response_reading(block.skip(20 + len)) {
                        Ok(rest) => Ok(seq![(target, block.subrange(20, 20 + len))] + rest),
                        Err(e) => Err(e),
                    }
                }
            }
        } else if id == 2 {
            if block.len() < 12 {
                Err(IpcError::UnexpectedEof)
            } else {
                let len = le_value(block.subrange(8, 12)) as int;
                if block.len() < 12 + len {
                    Err(IpcError::UnexpectedEof)
                } else {
                    response_reading(block.skip(12 + len))
                }
            }
        } else {
            Err(IpcError::UnexpectedMessage(id as u32))
        }
    }
}

/// The outcome of a session: the simulator's refusal where its answer was
/// not success, else what the block reads as.
pub open spec fn session_outcome(send_result: isize, block: Seq<u8>) -> Result<
    Seq<(u64, Seq<u8>)>,
    IpcError,
> {
    if send_result != FS6IPC_MESSAGE_SUCCESS {
        Err(IpcError::Rejected(send_result))
    } else {
        response_reading(block)
    }
}

/// A reading position in a block, with the bytes that are left.
pub struct RawCursor<'a> {
    rest: &'a [u8],
}

impl<'a> View for RawCursor<'a> {
    type V = Seq<u8>;

    closed spec fn view(&self) -> Seq<u8> {
        self.rest@
    }
}

impl<'a> RawCursor<'a> {
    /// A cursor at the start of `data`.
    pub fn new(data: &'a [u8]) -> (cursor: Self)
        ensures
            cursor@ == data@,
    {
        RawCursor { rest: data }
    }

    /// The number of bytes left.
    pub fn remaining(&self) -> (count: usize)
        ensures
            count == self@.len(),
    {
        self.rest.len()
    }

    /// Moves past `n` bytes, or fails and stays where fewer are left.
    pub fn skip(&mut self, n: usize) -> (outcome: Result<(), IpcError>)
        ensures
            n <= old(self)@.len() ==> {
                &&& outcome == Ok::<(), IpcError>(())
                &&& final(self)@ == old(self)@.skip(n as int)
            },
            n > old(self)@.len() ==> {
                &&& outcome == Err::<(), IpcError>(IpcError::UnexpectedEof)
                &&& final(self)@ == old(self)@
            },
    {
        if n > self.rest.len() {
            return Err(IpcError::UnexpectedEof);
        }
        self.rest = slice_subrange(self.rest, n, self.rest.len());
        Ok(())
    }

    /// Takes up to `count` bytes: as many as are left, if fewer.
    pub fn read(&mut self, count: usize) -> (bytes: &'a [u8])
        ensures
            bytes@ == old(self)@.take(
                if count <= old(self)@.len() {
                    count as int
                } else {
                    old(self)@.len() as int
                },
            ),
            final(self)@ == old(self)@.skip(bytes@.len() as int),
    {
        let n: usize = if count <= self.rest.len() {
            count
        } else {
            self.rest.len()
        };
        let bytes = slice_subrange(self.rest, 0, n);
        self.rest = slice_subrange(self.rest, n, self.rest.len());
        bytes
    }

    /// Takes exactly `count` bytes, or fails where fewer are left; the cursor
    /// is then at the end of the block.
    pub fn read_exact(&mut self, count: usize) -> (outcome: Result<&'a [u8], IpcError>)
        ensures
            count <= old(self)@.len() ==> {
                &&& outcome matches Ok(bytes) && bytes@ == old(self)@.take(count as int)
                &&& final(self)@ == old(self)@.skip(count as int)
            },
            count > old(self)@.len() ==> {
                &&& outcome == Err::<&[u8], IpcError>(IpcError::UnexpectedEof)
                &&& final(self)@.len() == 0
            },
    {
        let bytes = self.read(count);
        if bytes.len() < count {
            Err(IpcError::UnexpectedEof)
        } else {
            Ok(bytes)
        }
    }

    /// Takes one byte.
    pub fn read_u8(&mut self) -> (outcome: Result<u8, IpcError>)
        ensures
            old(self)@.len() >= 1 ==> {
                &&& outcome == Ok::<u8, IpcError>(old(self)@[0])
                &&& final(self)@ == old(self)@.skip(1)
            },
            old(self)@.len() < 1 ==> {
                &&& outcome == Err::<u8, IpcError>(IpcError::UnexpectedEof)
                &&& final(self)@.len() == 0
            },
    {
        match self.read_exact(1) {
            Ok(bytes) => Ok(bytes[0]),
            Err(e) => Err(e),
        }
    }

    /// Takes a little-endian 32-bit number.
    pub fn read_u32(&mut self) -> (outcome: Result<u32, IpcError>)
        ensures
            old(self)@.len() >= 4 ==> {
                &&& outcome == Ok::<u32, IpcError>(le_value(old(self)@.subrange(0, 4)) as u32)
                &&& final(self)@ == old(self)@.skip(4)
            },
            old(self)@.len() < 4 ==> {
                &&& outcome == Err::<u32, IpcError>(IpcError::UnexpectedEof)
                &&& final(self)@.len() == 0
            },
    {
        match self.read_exact(4) {
            Ok(bytes) => {
                assert(bytes@.subrange(0, 4) =~= old(self)@.subrange(0, 4));
                Ok(le_read_u32(bytes))
            },
            Err(e) => Err(e),
        }
    }

    /// Takes a little-endian 64-bit number.
    pub fn read_u64(&mut self) -> (outcome: Result<u64, IpcError>)
        ensures
            old(self)@.len() >= 8 ==> {
                &&& outcome == Ok::<u64, IpcError>(le_value(old(self)@.subrange(0, 8)) as u64)
                &&& final(self)@ == old(self)@.skip(8)
            },
            old(self)@.len() < 8 ==> {
                &&& outcome == Err::<u64, IpcError>(IpcError::UnexpectedEof)
                &&& final(self)@.len() == 0
            },
    {
        match self.read_exact(8) {
            Ok(bytes) => {
                assert(bytes@.subrange(0, 8) =~= old(self)@.subrange(0, 8));
                Ok(le_read_u64(bytes))
            },
            Err(e) => Err(e),
        }
    }
}

/// A writing position in a block of fixed size: the bytes written so far and
/// the room that is left.
pub struct MutRawCursor {
    data: Vec<u8>,
    remaining: usize,
}

impl MutRawCursor {
    /// The bytes written so far.
    pub closed spec fn written(&self) -> Seq<u8> {
        self.data@
    }

    /// The number of bytes that still fit.
    pub closed spec fn room(&self) -> nat {
        self.remaining as nat
    }

    /// A cursor at the start of a block of `len` bytes.
    pub fn new(len: usize) -> (cursor: Self)
        ensures
            cursor.written() == Seq::<u8>::empty(),
            cursor.room() == len,
    {
        MutRawCursor { data: Vec::new(), remaining: len }
    }

    /// The number of bytes that still fit.
    pub fn remaining(&self) -> (count: usize)
        ensures
            count == self.room(),
    {
        self.remaining
    }

    /// Writes as much of `buf` as fits and says how many bytes that was.
    pub fn write(&mut self, buf: &[u8]) -> (count: usize)
        ensures
            count == if buf@.len() <= old(self).room() {
                buf@.len()
            } else {
                old(self).room()
            },
            final(self).written() == old(self).written() + buf@.take(count as int),
            final(self).room() == old(self).room() - count,
    {
        let count: usize = if buf.len() <= self.remaining {
            buf.len()
        } else {
            self.remaining
        };
        let mut i: usize = 0;
        while i < count
            invariant
                i <= count <= buf@.len(),
                self.data@ == old(self).data@ + buf@.take(i as int),
                self.remaining == old(self).remaining,
            decreases count - i,
        {
            self.data.push(buf[i]);
            i += 1;
            assert(self.data@ =~= old(self).data@ + buf@.take(i as int));
        }
        self.remaining = self.remaining - count;
        count
    }

    /// Writes all of `buf`, or as much as fits and then fails.
    pub fn write_all(&mut self, buf: &[u8]) -> (outcome: Result<(), IpcError>)
        ensures
            buf@.len() <= old(self).room() ==> {
                &&& outcome == Ok::<(), IpcError>(())
                &&& final(self).written() == old(self).written() + buf@
                &&& final(self).room() == old(self).room() - buf@.len()
            },
            buf@.len() > old(self).room() ==> {
                &&& outcome == Err::<(), IpcError>(IpcError::WriteZero)
                &&& final(self).written() == old(self).written() + buf@.take(
                    old(self).room() as int,
                )
                &&& final(self).room() == 0
            },
    {
        let count = self.write(buf);
        if count < buf.len() {
            Err(IpcError::WriteZero)
        } else {
            assert(buf@.take(count as int) =~= buf@);
            Ok(())
        }
    }

    /// Nothing is buffered, so there is nothing to do.
    pub fn flush(&mut self) -> (outcome: Result<(), IpcError>)
        ensures
            outcome == Ok::<(), IpcError>(()),
            final(self).written() == old(self).written(),
            final(self).room() == old(self).room(),
    {
        Ok(())
    }

    /// Writes one byte.
    pub fn write_u8(&mut self, byte: u8) -> (outcome: Result<(), IpcError>)
        ensures
            old(self).room() >= 1 ==> {
                &&& outcome == Ok::<(), IpcError>(())
                &&& final(self).written() == old(self).written().push(byte)
                &&& final(self).room() == old(self).room() - 1
            },
            old(self).room() < 1 ==> {
                &&& outcome == Err::<(), IpcError>(IpcError::WriteZero)
                &&& final(self).written() == old(self).written()
                &&& final(self).room() == 0
            },
    {
        let buf = [byte];
        let outcome = self.write_all(&buf);
        proof {
            assert(buf@ =~= seq![byte]);
            assert(old(self).written() + seq![byte] =~= old(self).written().push(byte));
            assert(old(self).written() + buf@.take(0) =~= old(self).written());
        }
        outcome
    }

    /// Writes a 32-bit number, least significant byte first.
    pub fn write_u32(&mut self, value: u32) -> (outcome: Result<(), IpcError>)
        ensures
            4 <= old(self).room() ==> {
                &&& outcome == Ok::<(), IpcError>(())
                &&& final(self).written() == old(self).written() + le_bytes(value as nat, 4)
                &&& final(self).room() == old(self).room() - 4
            },
            4 > old(self).room() ==> {
                &&& outcome == Err::<(), IpcError>(IpcError::WriteZero)
                &&& final(self).written() == old(self).written() + le_bytes(value as nat, 4).take(
                    old(self).room() as int,
                )
                &&& final(self).room() == 0
            },
    {
        let buf = le_write_u32(value);
        self.write_all(&buf)
    }

    /// Writes a 64-bit number, least significant byte first.
    pub fn write_u64(&mut self, value: u64) -> (outcome: Result<(), IpcError>)
        ensures
            8 <= old(self).room() ==> {
                &&& outcome == Ok::<(), IpcError>(())
                &&& final(self).written() == old(self).written() + le_bytes(value as nat, 8)
                &&& final(self).room() == old(self).room() - 8
            },
            8 > old(self).room() ==> {
                &&& outcome == Err::<(), IpcError>(IpcError::WriteZero)
                &&& final(self).written() == old(self).written() + le_bytes(value as nat, 8).take(
                    old(self).room() as int,
                )
                &&& final(self).room() == 0
            },
    {
        let buf = le_write_u64(value);
        self.write_all(&buf)
    }

    /// The bytes written, for the start of the block.
    pub fn into_bytes(self) -> (bytes: Vec<u8>)
        ensures
            bytes@ == self.written(),
    {
        self.data
    }
}

/// The writer for one destination of a response: the bytes that arrived for
/// it so far, and how many are still expected.
pub struct MutRawBytes {
    target: u64,
    sink: MutRawCursor,
}

impl MutRawBytes {
    /// The destination.
    pub closed spec fn target(&self) -> u64 {
        self.target
    }

    /// The bytes that arrived so far.
    pub closed spec fn written(&self) -> Seq<u8> {
        self.sink.written()
    }

    /// The number of bytes still expected.
    pub closed spec fn room(&self) -> nat {
        self.sink.room()
    }

    /// A writer for `len` bytes that go to `target`.
    pub fn new(target: u64, len: usize) -> (writer: Self)
        ensures
            writer.target() == target,
            writer.written() == Seq::<u8>::empty(),
            writer.room() == len,
    {
        MutRawBytes { target, sink: MutRawCursor::new(len) }
    }

    /// Takes as much of `buf` as is still expected and says how many bytes
    /// that was.
    pub fn write(&mut self, buf: &[u8]) -> (count: usize)
        ensures
            count == if buf@.len() <= old(self).room() {
                buf@.len()
            } else {
                old(self).room()
            },
            final(self).written() == old(self).written() + buf@.take(count as int),
            final(self).room() == old(self).room() - count,
            final(self).target() == old(self).target(),
    {
        self.sink.write(buf)
    }

    /// Nothing is buffered, so there is nothing to do.
    pub fn flush(&mut self) -> (outcome: Result<(), IpcError>)
        ensures
            outcome == Ok::<(), IpcError>(()),
            final(self).written() == old(self).written(),
            final(self).room() == old(self).room(),
            final(self).target() == old(self).target(),
    {
        Ok(())
    }

    /// Takes one byte, or fails where none is expected any more.
    pub fn write_u8(&mut self, byte: u8) -> (outcome: Result<(), IpcError>)
        ensures
            final(self).target() == old(self).target(),
            old(self).room() >= 1 ==> {
                &&& outcome == Ok::<(), IpcError>(())
                &&& final(self).written() == old(self).written().push(byte)
                &&& final(self).room() == old(self).room() - 1
            },
            old(self).room() < 1 ==> {
                &&& outcome == Err::<(), IpcError>(IpcError::WriteZero)
                &&& final(self).written() == old(self).written()
                &&& final(self).room() == 0
            },
    {
        self.sink.write_u8(byte)
    }

    /// The bytes that arrived, with their destination.
    pub fn into_delivery(self) -> (delivery: Delivery)
        ensures
            delivery@ == (self.target(), self.written()),
    {
        Delivery { target: self.target, data: self.sink.into_bytes() }
    }
}

/// Copies `len` bytes from a block to a destination, one at a time. Where the
/// block ends first the copy fails with `UnexpectedEof`; where the destination
/// is full first it fails with `WriteZero`, after the byte that found no room
/// was taken from the block. What was copied before a failure stays copied.
pub fn copy_body(r: &mut RawCursor<'_>, w: &mut MutRawBytes, len: usize) -> (outcome: Result<
    (),
    IpcError,
>)
    ensures
        final(w).target() == old(w).target(),
        len <= old(r)@.len() && len <= old(w).room() ==> {
            &&& outcome == Ok::<(), IpcError>(())
            &&& final(r)@ == old(r)@.skip(len as int)
            &&& final(w).written() == old(w).written() + old(r)@.take(len as int)
            &&& final(w).room() == old(w).room() - len
        },
        len > old(r)@.len() && old(r)@.len() <= old(w).room() ==> {
            &&& outcome == Err::<(), IpcError>(IpcError::UnexpectedEof)
            &&& final(r)@.len() == 0
            &&& final(w).written() == old(w).written() + old(r)@
            &&& final(w).room() == old(w).room() - old(r)@.len()
        },
        len > old(w).room() && old(r)@.len() > old(w).room() ==> {
            &&& outcome == Err::<(), IpcError>(IpcError::WriteZero)
            &&& final(r)@ == old(r)@.skip(old(w).room() as int + 1)
            &&& final(w).written() == old(w).written() + old(r)@.take(old(w).room() as int)
            &&& final(w).room() == 0
        },
{
    let mut i: usize = 0;
    assert(old(r)@.skip(0) =~= old(r)@);
    assert(old(w).written() + old(r)@.take(0) =~= old(w).written());
    while i < len
        invariant
            i <= len,
            i <= old(r)@.len(),
            i <= old(w).room(),
            r@ == old(r)@.skip(i as int),
            w.written() == old(w).written() + old(r)@.take(i as int),
            w.room() == old(w).room() - i,
            w.target() == old(w).target(),
        decreases len - i,
    {
        let byte = match r.read_u8() {
            Ok(byte) => byte,
            Err(e) => {
                assert(old(r)@.take(i as int) =~= old(r)@);
                return Err(e);
            },
        };
        assert(byte == old(r)@[i as int]);
        assert(r@ =~= old(r)@.skip(i + 1));
        match w.write_u8(byte) {
            Ok(()) => {},
            Err(e) => {
                return Err(e);
            },
        }
        assert(old(r)@.take(i as int).push(byte) =~= old(r)@.take(i + 1));
        assert(w.written() =~= old(w).written() + old(r)@.take(i + 1));
        i += 1;
    }
    Ok(())
}

/// Writes the request for `len` bytes from `offset`, to be copied to `dest`.
/// Where the block has no room for all of the record, as much of it as fits
/// is written and the call fails.
pub fn write_rsd64(w: &mut MutRawCursor, offset: u16, dest: u64, len: usize) -> (outcome: Result<
    (),
    IpcError,
>)
    ensures
        read_request(offset, dest, len as nat).len() == 20 + len,
        20 + len <= old(w).room() ==> {
            &&& outcome == Ok::<(), IpcError>(())
            &&& final(w).written() == old(w).written() + read_request(offset, dest, len as nat)
            &&& final(w).room() == old(w).room() - (20 + len)
        },
        20 + len > old(w).room() ==> {
            &&& outcome == Err::<(), IpcError>(IpcError::WriteZero)
            &&& final(w).written() == old(w).written() + read_request(
                offset,
                dest,
                len as nat,
            ).take(old(w).room() as int)
            &&& final(w).room() == 0
        },
{
    let low: u32 = ((len as u64) % 0x1_0000_0000u64) as u32;
    let id_bytes = le_write_u32(1);
    let offset_bytes = le_write_u32(offset as u32);
    let len_bytes = le_write_u32(low);
    let dest_bytes = le_write_u64(dest);
    let mut header: Vec<u8> = Vec::new();
    header.extend_from_slice(&id_bytes);
    header.extend_from_slice(&offset_bytes);
    header.extend_from_slice(&len_bytes);
    header.extend_from_slice(&dest_bytes);
    let ghost head = le_bytes(1, 4) + le_bytes(offset as nat, 4) + le_bytes(
        (len as nat) % 0x1_0000_0000,
        4,
    ) + le_bytes(dest as nat, 8);
    let ghost record = read_request(offset, dest, len as nat);
    proof {
        lemma_le_bytes_len(1, 4);
        lemma_le_bytes_len(offset as nat, 4);
        lemma_le_bytes_len((len as nat) % 0x1_0000_0000, 4);
        lemma_le_bytes_len(dest as nat, 8);
        assert(header@ =~= head);
        assert(record =~= head + zeros(len as nat));
        assert(record.len() == 20 + len);
    }
    match w.write_all(header.as_slice()) {
        Ok(()) => {},
        Err(e) => {
            assert(head.take(old(w).room() as int) =~= record.take(old(w).room() as int));
            return Err(e);
        },
    }
    let mut i: usize = 0;
    assert(head =~= record.take(20));
    while i < len
        invariant
            i <= len,
            record.len() == 20 + len,
            record == read_request(offset, dest, len as nat),
            record == head + zeros(len as nat),
            head.len() == 20,
            20 + i <= old(w).room(),
            w.written() == old(w).written() + record.take(20 + i),
            w.room() == old(w).room() - (20 + i),
        decreases len - i,
    {
        match w.write_u8(0) {
            Ok(()) => {},
            Err(e) => {
                return Err(e);
            },
        }
        assert(record[20 + i] == 0u8);
        assert(record.take(20 + i).push(0u8) =~= record.take(20 + i + 1));
        assert(w.written() =~= old(w).written() + record.take(20 + i + 1));
        i += 1;
    }
    assert(record.take(20 + len) =~= record);
    Ok(())
}

/// `prefix` put in front of what the rest of a block reads as.
pub open spec fn preceded(prefix: Seq<(u64, Seq<u8>)>, tail: Result<Seq<(u64, Seq<u8>)>, IpcError>)
    -> Result<Seq<(u64, Seq<u8>)>, IpcError> {
    match tail {
        Ok(rest) => Ok(prefix + rest),
        Err(e) => Err(e),
    }
}

proof fn lemma_preceded_push(
    prefix: Seq<(u64, Seq<u8>)>,
    item: (u64, Seq<u8>),
    tail: Result<Seq<(u64, Seq<u8>)>, IpcError>,
)
    ensures
        preceded(prefix, preceded(seq![item], tail)) == preceded(prefix.push(item), tail),
{
    match tail {
        Ok(rest) => {
            assert(prefix + (seq![item] + rest) =~= prefix.push(item) + rest);
        },
        Err(e) => {},
    }
}

/// One batch of read requests and its response.
pub struct UserSession64 {
    write_cursor: MutRawCursor,
}

impl UserSession64 {
    /// The request written so far.
    pub closed spec fn request(&self) -> Seq<u8> {
        self.write_cursor.written()
    }

    /// The room that the block has left.
    pub closed spec fn room(&self) -> nat {
        self.write_cursor.room()
    }

    /// A session with an empty request, at the start of the shared block.
    pub fn new() -> (session: Self)
        ensures
            session.request() == Seq::<u8>::empty(),
            session.room() == FILE_MAPPING_LEN,
    {
        UserSession64 { write_cursor: MutRawCursor::new(FILE_MAPPING_LEN) }
    }

    /// Asks for `len` bytes from `offset`, to be copied to `dest`. Where the
    /// block has no room for the whole record the call fails, and the session
    /// has no room left.
    pub fn read_bytes(&mut self, offset: u16, dest: u64, len: usize) -> (outcome: Result<
        (),
        IpcError,
    >)
        ensures
            20 + len <= old(self).room() ==> {
                &&& outcome == Ok::<(), IpcError>(())
                &&& final(self).request() == old(self).request() + read_request(
                    offset,
                    dest,
                    len as nat,
                )
                &&& final(self).room() == old(self).room() - (20 + len)
            },
            20 + len > old(self).room() ==> {
                &&& outcome == Err::<(), IpcError>(IpcError::WriteZero)
                &&& final(self).request() == old(self).request() + read_request(
                    offset,
                    dest,
                    len as nat,
                ).take(old(self).room() as int)
                &&& final(self).room() == 0
            },
    {
        write_rsd64(&mut self.write_cursor, offset, dest, len)
    }

    /// Ends the request with the termination mark and hands out the bytes to
    /// put at the start of the shared block; fails where the mark does not
    /// fit.
    pub fn seal(self) -> (outcome: Result<Vec<u8>, IpcError>)
        ensures
            4 <= self.room() ==> (outcome matches Ok(bytes) && bytes@ == self.request()
                + end_mark()),
            4 > self.room() ==> outcome == Err::<Vec<u8>, IpcError>(IpcError::WriteZero),
    {
        let mut cursor = self.write_cursor;
        match cursor.write_u32(0) {
            Ok(()) => Ok(cursor.into_bytes()),
            Err(e) => Err(e),
        }
    }

    /// Reads the response of a session: `send_result` is the simulator's
    /// answer to the window message, `block` the shared block after it.
    /// A refusal comes back as `Rejected`; else the deliveries of the
    /// response are returned in order, or the first error in it.
    pub fn process(send_result: isize, block: &[u8]) -> (outcome: Result<Vec<Delivery>, IpcError>)
        ensures
            match outcome {
                Ok(list) => session_outcome(send_result, block@) == Ok::<
                    Seq<(u64, Seq<u8>)>,
                    IpcError,
                >(deliveries_view(list@)),
                Err(e) => session_outcome(send_result, block@) == Err::<
                    Seq<(u64, Seq<u8>)>,
                    IpcError,
                >(e),
            },
    {
        if send_result != FS6IPC_MESSAGE_SUCCESS {
            return Err(IpcError::Rejected(send_result));
        }
        let mut reader = RawCursor::new(block);
        let mut done: Vec<Delivery> = Vec::new();
        assert(deliveries_view(done@) =~= Seq::empty());
        assert(preceded(Seq::empty(), response_reading(block@)) == response_reading(block@)) by {
            match response_reading(block@) {
                Ok(rest) => {
                    assert(Seq::<(u64, Seq<u8>)>::empty() + rest =~= rest);
                },
                Err(e) => {},
            }
        }
        loop
            invariant
                send_result == FS6IPC_MESSAGE_SUCCESS,
                response_reading(block@) == preceded(
                    deliveries_view(done@),
                    response_reading(reader@),
                ),
            decreases reader@.len(),
        {
            let ghost before = reader@;
            let msg_id: u32 = match reader.read_u32() {
                Ok(id) => id,
                Err(e) => {
                    return Err(e);
                },
            };
            proof {
                lemma_le_value_fits(before.subrange(0, 4));
                if before.len() >= 12 {
                    lemma_le_value_fits(before.subrange(8, 12));
                }
                if before.len() >= 20 {
                    lemma_le_value_fits(before.subrange(12, 20));
                }
            }
            if msg_id == 0 {
                assert(deliveries_view(done@) + Seq::empty() =~= deliveries_view(done@));
                return Ok(done);
            } else if msg_id == 1 {
                let _offset: u32 = match reader.read_u32() {
                    Ok(v) => v,
                    Err(e) => {
                        return Err(e);
                    },
                };
                let len: u32 = match reader.read_u32() {
                    Ok(v) => v,
                    Err(e) => {
                        return Err(e);
                    },
                };
                let target: u64 = match reader.read_u64() {
                    Ok(v) => v,
                    Err(e) => {
                        return Err(e);
                    },
                };
                proof {
                    assert(before.skip(4).skip(4).subrange(0, 4) =~= before.subrange(8, 12));
                    assert(before.skip(4).skip(4).skip(4).subrange(0, 8) =~= before.subrange(
                        12,
                        20,
                    ));
                    assert(reader@ =~= before.skip(20));
                }
                let mut out = MutRawBytes::new(target, len as usize);
                match copy_body(&mut reader, &mut out, len as usize) {
                    Ok(()) => {},
                    Err(e) => {
                        return Err(e);
                    },
                }
                let delivery = out.into_delivery();
                proof {
                    assert(before.skip(20).take(len as int) =~= before.subrange(20, 20 + len));
                    assert(reader@ =~= before.skip(20 + len));
                    assert(deliveries_view(done@.push(delivery)) =~= deliveries_view(done@).push(
                        delivery@,
                    ));
                    lemma_preceded_push(
                        deliveries_view(done@),
                        delivery@,
                        response_reading(reader@),
                    );
                }
                done.push(delivery);
            } else if msg_id == 2 {
                let _offset: u32 = match reader.read_u32() {
                    Ok(v) => v,
                    Err(e) => {
                        return Err(e);
                    },
                };
                let len: u32 = match reader.read_u32() {
                    Ok(v) => v,
                    Err(e) => {
                        return Err(e);
                    },
                };
                proof {
                    assert(before.skip(4).skip(4).subrange(0, 4) =~= before.subrange(8, 12));
                    assert(reader@ =~= before.skip(12));
                }
                match reader.skip(len as usize) {
                    Ok(()) => {},
                    Err(e) => {
                        return Err(e);
                    },
                }
                assert(reader@ =~= before.skip(12 + len));
            } else {
                return Err(IpcError::UnexpectedMessage(msg_id));
            }
        }
    }
}


/// The record with which the simulator answers a read: the request's header
/// with `data` in place of the zero body.
pub open spec fn read_answer(offset: u16, dest: u64, data: Seq<u8>) -> Seq<u8> {
    le_bytes(1, 4) + le_bytes(offset as nat, 4) + le_bytes(data.len(), 4) + le_bytes(
        dest as nat,
        8,
    ) + data
}

/// The record that echoes a write of `body` to `offset`.
pub open spec fn write_echo(offset: u16, body: Seq<u8>) -> Seq<u8> {
    le_bytes(2, 4) + le_bytes(offset as nat, 4) + le_bytes(body.len(), 4) + body
}

/// The response that answers each read of a list in turn, closed by the
/// termination mark. A read is its offset, its destination and its data.
pub open spec fn answered(reads: Seq<(u16, u64, Seq<u8>)>) -> Seq<u8>
    decreases reads.len(),
{
    if reads.len() == 0 {
        end_mark()
    } else {
        read_answer(reads[0].0, reads[0].1, reads[0].2) + answered(reads.drop_first())
    }
}

/// The deliveries that a list of reads asks for.
pub open spec fn expected_deliveries(reads: Seq<(u16, u64, Seq<u8>)>) -> Seq<(u64, Seq<u8>)> {
    reads.map_values(|r: (u16, u64, Seq<u8>)| (r.1, r.2))
}

/// A request that nobody has answered is the answer of zero bytes: the
/// simulator fills the bodies in place.
pub proof fn lemma_request_is_zero_answer(offset: u16, dest: u64, len: nat)
    requires
        len < 0x1_0000_0000,
    ensures
        read_request(offset, dest, len) == read_answer(offset, dest, zeros(len)),
{
}

/// A response stops at the termination mark, whatever follows it.
pub proof fn lemma_end_mark_ends(rest: Seq<u8>)
    ensures
        response_reading(end_mark() + rest) == Ok::<Seq<(u64, Seq<u8>)>, IpcError>(Seq::empty()),
{
    let block = end_mark() + rest;
    lemma_le_bytes_len(0, 4);
    assert(block.subrange(0, 4) =~= le_bytes(0, 4));
    reveal_with_fuel(byte_span, 5);
    lemma_le_round_trip(0, 4);
}

/// An answered read delivers exactly its data to its destination, and
/// reading goes on behind it.
pub proof fn lemma_read_answer_delivers(offset: u16, dest: u64, data: Seq<u8>, rest: Seq<u8>)
    requires
        data.len() < 0x1_0000_0000,
    ensures
        response_reading(read_answer(offset, dest, data) + rest) == preceded(
            seq![(dest, data)],
            response_reading(rest),
        ),
{
    let block = read_answer(offset, dest, data) + rest;
    lemma_le_bytes_len(1, 4);
    lemma_le_bytes_len(offset as nat, 4);
    lemma_le_bytes_len(data.len(), 4);
    lemma_le_bytes_len(dest as nat, 8);
    reveal_with_fuel(byte_span, 9);
    lemma_le_round_trip(1, 4);
    lemma_le_round_trip(data.len(), 4);
    lemma_le_round_trip(dest as nat, 8);
    assert(block.subrange(0, 4) =~= le_bytes(1, 4));
    assert(block.subrange(8, 12) =~= le_bytes(data.len(), 4));
    assert(block.subrange(12, 20) =~= le_bytes(dest as nat, 8));
    assert(block.subrange(20, 20 + data.len() as int) =~= data);
    assert(block.skip(20 + data.len() as int) =~= rest);
}

/// A write echo delivers nothing: its body is skipped.
pub proof fn lemma_write_echo_is_skipped(offset: u16, body: Seq<u8>, rest: Seq<u8>)
    requires
        body.len() < 0x1_0000_0000,
    ensures
        response_reading(write_echo(offset, body) + rest) == response_reading(rest),
{
    let block = write_echo(offset, body) + rest;
    lemma_le_bytes_len(2, 4);
    lemma_le_bytes_len(offset as nat, 4);
    lemma_le_bytes_len(body.len(), 4);
    reveal_with_fuel(byte_span, 5);
    lemma_le_round_trip(2, 4);
    lemma_le_round_trip(body.len(), 4);
    assert(block.subrange(0, 4) =~= le_bytes(2, 4));
    assert(block.subrange(8, 12) =~= le_bytes(body.len(), 4));
    assert(block.skip(12 + body.len() as int) =~= rest);
}

/// A record with an id other than those of the termination mark, a read and
/// a write echo is a protocol error that names the id.
pub proof fn lemma_unknown_id_fails(id: u32, rest: Seq<u8>)
    requires
        id > 2,
    ensures
        response_reading(le_bytes(id as nat, 4) + rest) == Err::<Seq<(u64, Seq<u8>)>, IpcError>(
            IpcError::UnexpectedMessage(id),
        ),
{
    let block = le_bytes(id as nat, 4) + rest;
    lemma_le_bytes_len(id as nat, 4);
    reveal_with_fuel(byte_span, 5);
    lemma_le_round_trip(id as nat, 4);
    assert(block.subrange(0, 4) =~= le_bytes(id as nat, 4));
}

/// Round trip of a session: where the simulator answers every read of a
/// batch in turn, reading the block yields exactly the data of each read for
/// its destination, in order, whatever the block holds behind the mark.
pub proof fn lemma_answered_round_trip(reads: Seq<(u16, u64, Seq<u8>)>, rest: Seq<u8>)
    requires
        forall|i: int| 0 <= i < reads.len() ==> (#[trigger] reads[i]).2.len() < 0x1_0000_0000,
    ensures
        response_reading(answered(reads) + rest) == Ok::<Seq<(u64, Seq<u8>)>, IpcError>(
            expected_deliveries(reads),
        ),
    decreases reads.len(),
{
    if reads.len() == 0 {
        lemma_end_mark_ends(rest);
        assert(expected_deliveries(reads) =~= Seq::empty());
    } else {
        let first = reads[0];
        let others = reads.drop_first();
        assert forall|i: int| 0 <= i < others.len() implies (#[trigger] others[i]).2.len()
            < 0x1_0000_0000 by {
            assert(others[i] == reads[i + 1]);
        }
        lemma_answered_round_trip(others, rest);
        lemma_read_answer_delivers(first.0, first.1, first.2, answered(others) + rest);
        assert(answered(reads) + rest =~= read_answer(first.0, first.1, first.2) + (answered(
            others,
        ) + rest));
        assert(seq![(first.1, first.2)] + expected_deliveries(others) =~= expected_deliveries(
            reads,
        ));
    }
}


/// The class of the simulator's message window.
pub const WINDOW_CLASS: &'static str = "UIPCMAIN";

/// The name of the window message that starts a session.
pub const MESSAGE_NAME: &'static str = "FsasmLib:IPC";

/// The name of the shared block of a process: the message name, the process
/// id and a running index, the two numbers in lower-case hexadecimal.
pub open spec fn mapping_name_text(process_id: u32, index: u32) -> Seq<char> {
    "FsasmLib:IPC:"@ + hex_text(process_id as nat) + ":"@ + hex_text(index as nat)
}

/// The name under which a process creates its `index`-th shared block.
pub fn file_mapping_name(process_id: u32, index: u32) -> (name: String)
    ensures
        name@ == mapping_name_text(process_id, index),
{
    let name = "FsasmLib:IPC:".to_owned();
    let name = name.concat(hex(process_id as u64).as_str());
    let name = name.concat(":");
    name.concat(hex(index as u64).as_str())
}

/// An open connection: the handles that the host's calls returned, each as
/// the number it is.
#[derive(Debug, Clone, Copy, PartialEq, Eq, Structural)]
pub struct UserHandle64 {
    /// The simulator's window.
    pub hwnd: usize,
    /// The atom that names the shared block.
    pub file_mapping_atom: u16,
    /// The file mapping.
    pub file_mapping: usize,
    /// The registered window message.
    pub msg_id: u32,
    /// The address of the mapped view.
    pub data: usize,
}

impl UserHandle64 {
    /// A session at the start of the shared block.
    pub fn session(&mut self) -> (session: UserSession64)
        ensures
            *final(self) == *old(self),
            session.request() == Seq::<u8>::empty(),
            session.room() == FILE_MAPPING_LEN,
    {
        UserSession64::new()
    }
}

/// A connection that is being opened: the call to make next and what the
/// calls before it returned.
#[derive(Debug, Clone, Copy, PartialEq, Eq, Structural)]
pub struct Opening {
    /// The call to make next.
    pub step: OpenStep,
    pub hwnd: usize,
    pub msg_id: u32,
    pub atom: u16,
    pub mapping: usize,
}

/// What follows a call of the opening.
#[derive(Debug, Clone, Copy, PartialEq, Eq, Structural)]
pub enum OpenProgress {
    /// Make the next call.
    Next(Opening),
    /// The connection is open.
    Opened(UserHandle64),
    /// The call failed. The host closes the file mapping and deletes the
    /// atom, as far as they are named here, in that order.
    Failed { error: IpcError, close_mapping: Option<usize>, delete_atom: Option<u16> },
}

/// The opening before its first call.
pub open spec fn opening_start() -> Opening {
    Opening { step: OpenStep::FindWindow, hwnd: 0, msg_id: 0, atom: 0, mapping: 0 }
}

/// A failure that leaves nothing to release.
pub open spec fn refused(step: OpenStep) -> OpenProgress {
    OpenProgress::Failed {
        error: IpcError::ConnectionRefused(step),
        close_mapping: None,
        delete_atom: None,
    }
}

/// What follows when the call `opening.step` returned `result`. Zero is
/// every call's failure; so is a number that the call cannot return. A
/// mapping that cannot be created costs the atom, a view that cannot be
/// mapped costs the mapping and the atom.
pub open spec fn opening_after(opening: Opening, result: usize) -> OpenProgress {
    match opening.step {
        OpenStep::FindWindow => if result == 0 {
            refused(OpenStep::FindWindow)
        } else {
            OpenProgress::Next(Opening { step: OpenStep::RegisterMessage, hwnd: result, ..opening })
        },
        OpenStep::RegisterMessage => if result == 0 || result > u32::MAX {
            refused(OpenStep::RegisterMessage)
        } else {
            OpenProgress::Next(
                Opening { step: OpenStep::AddAtom, msg_id: result as u32, ..opening },
            )
        },
        OpenStep::AddAtom => if result == 0 || result > u16::MAX {
            refused(OpenStep::AddAtom)
        } else {
            OpenProgress::Next(
                Opening { step: OpenStep::CreateMapping, atom: result as u16, ..opening },
            )
        },
        OpenStep::CreateMapping => if result == 0 {
            OpenProgress::Failed {
                error: IpcError::ConnectionRefused(OpenStep::CreateMapping),
                close_mapping: None,
                delete_atom: Some(opening.atom),
            }
        } else {
            OpenProgress::Next(Opening { step: OpenStep::MapView, mapping: result, ..opening })
        },
        OpenStep::MapView => if result == 0 {
            OpenProgress::Failed {
                error: IpcError::ConnectionRefused(OpenStep::MapView),
                close_mapping: Some(opening.mapping),
                delete_atom: Some(opening.atom),
            }
        } else {
            OpenProgress::Opened(
                UserHandle64 {
                    hwnd: opening.hwnd,
                    file_mapping_atom: opening.atom,
                    file_mapping: opening.mapping,
                    msg_id: opening.msg_id,
                    data: result,
                },
            )
        },
    }
}

impl Opening {
    /// The opening before its first call.
    pub fn start() -> (opening: Opening)
        ensures
            opening == opening_start(),
    {
        Opening { step: OpenStep::FindWindow, hwnd: 0, msg_id: 0, atom: 0, mapping: 0 }
    }

    /// Decides what follows when the call `self.step` returned `result`: a
    /// handle, an id, an atom or an address, as a number.
    pub fn advance(self, result: usize) -> (progress: OpenProgress)
        ensures
            progress == opening_after(self, result),
    {
        let failed = OpenProgress::Failed {
            error: IpcError::ConnectionRefused(self.step),
            close_mapping: None,
            delete_atom: None,
        };
        match self.step {
            OpenStep::FindWindow => {
                if result == 0 {
                    failed
                } else {
                    OpenProgress::Next(
                        Opening {
                            step: OpenStep::RegisterMessage,
                            hwnd: result,
                            msg_id: self.msg_id,
                            atom: self.atom,
                            mapping: self.mapping,
                        },
                    )
                }
            },
            OpenStep::RegisterMessage => {
                if result == 0 || result > 0xFFFF_FFFF {
                    failed
                } else {
                    OpenProgress::Next(
                        Opening {
                            step: OpenStep::AddAtom,
                            hwnd: self.hwnd,
                            msg_id: result as u32,
                            atom: self.atom,
                            mapping: self.mapping,
                        },
                    )
                }
            },
            OpenStep::AddAtom => {
                if result == 0 || result > 0xFFFF {
                    failed
                } else {
                    OpenProgress::Next(
                        Opening {
                            step: OpenStep::CreateMapping,
                            hwnd: self.hwnd,
                            msg_id: self.msg_id,
                            atom: result as u16,
                            mapping: self.mapping,
                        },
                    )
                }
            },
            OpenStep::CreateMapping => {
                if result == 0 {
                    OpenProgress::Failed {
                        error: IpcError::ConnectionRefused(OpenStep::CreateMapping),
                        close_mapping: None,
                        delete_atom: Some(self.atom),
                    }
                } else {
                    OpenProgress::Next(
                        Opening {
                            step: OpenStep::MapView,
                            hwnd: self.hwnd,
                            msg_id: self.msg_id,
                            atom: self.atom,
                            mapping: result,
                        },
                    )
                }
            },
            OpenStep::MapView => {
                if result == 0 {
                    OpenProgress::Failed {
                        error: IpcError::ConnectionRefused(OpenStep::MapView),
                        close_mapping: Some(self.mapping),
                        delete_atom: Some(self.atom),
                    }
                } else {
                    OpenProgress::Opened(
                        UserHandle64 {
                            hwnd: self.hwnd,
                            file_mapping_atom: self.atom,
                            file_mapping: self.mapping,
                            msg_id: self.msg_id,
                            data: result,
                        },
                    )
                }
            },
        }
    }
}

/// What five calls in a row lead to, each made only where the one before
/// led on.
pub open spec fn opening_of(window: usize, message: usize, atom: usize, mapping: usize, view: usize)
    -> OpenProgress {
    match opening_after(opening_start(), window) {
        OpenProgress::Next(a) => match opening_after(a, message) {
            OpenProgress::Next(b) => match opening_after(b, atom) {
                OpenProgress::Next(c) => match opening_after(c, mapping) {
                    OpenProgress::Next(d) => opening_after(d, view),
                    other => other,
                },
                other => other,
            },
            other => other,
        },
        other => other,
    }
}

/// A connection opens exactly where all five calls succeed, and the handle
/// then holds what they returned; else the opening fails at the first call
/// that failed.
pub proof fn lemma_opening_succeeds_iff_all_calls_do(
    window: usize,
    message: usize,
    atom: usize,
    mapping: usize,
    view: usize,
)
    ensures
        window != 0 && 0 < message <= u32::MAX && 0 < atom <= u16::MAX && mapping != 0 && view != 0
            ==> opening_of(window, message, atom, mapping, view) == OpenProgress::Opened(
            UserHandle64 {
                hwnd: window,
                file_mapping_atom: atom as u16,
                file_mapping: mapping,
                msg_id: message as u32,
                data: view,
            },
        ),
        !(window != 0 && 0 < message <= u32::MAX && 0 < atom <= u16::MAX && mapping != 0 && view
            != 0) ==> opening_of(window, message, atom, mapping, view) is Failed,
        window == 0 ==> opening_of(window, message, atom, mapping, view) == refused(
            OpenStep::FindWindow,
        ),
{
}


/// What is said of a call of the opening that failed.
pub open spec fn refusal_text(step: OpenStep) -> Seq<char> {
    "cannot connect to FSUIPC: "@ + (match step {
        OpenStep::FindWindow => "cannot find UIPCMAIN window (is FSUIPC running?)"@,
        OpenStep::RegisterMessage => "cannot register window message"@,
        OpenStep::AddAtom => "cannot add global atom"@,
        OpenStep::CreateMapping => "cannot create file mapping"@,
        OpenStep::MapView => "cannot map view of file"@,
    })
}

impl IpcError {
    /// The error in words.
    pub open spec fn message_text(self) -> Seq<char> {
        match self {
            IpcError::ConnectionRefused(step) => refusal_text(step),
            IpcError::UnexpectedEof => "IPC buffer underflow"@,
            IpcError::WriteZero => "failed to write whole buffer"@,
            IpcError::Rejected(code) => "FSUIPC rejected the requests with error "@
                + signed_decimal_text(code as int) + "; possible buffer corruption"@,
            IpcError::UnexpectedMessage(id) => "unexpected message id "@ + decimal_text(
                id as nat,
            ) + " while reading IPC response"@,
        }
    }

    /// The error in words.
    pub fn message(&self) -> (text: String)
        ensures
            text@ == self.message_text(),
    {
        match self {
            IpcError::ConnectionRefused(step) => {
                let call: &str = match step {
                    OpenStep::FindWindow => "cannot find UIPCMAIN window (is FSUIPC running?)",
                    OpenStep::RegisterMessage => "cannot register window message",
                    OpenStep::AddAtom => "cannot add global atom",
                    OpenStep::CreateMapping => "cannot create file mapping",
                    OpenStep::MapView => "cannot map view of file",
                };
                "cannot connect to FSUIPC: ".to_owned().concat(call)
            },
            IpcError::UnexpectedEof => "IPC buffer underflow".to_owned(),
            IpcError::WriteZero => "failed to write whole buffer".to_owned(),
            IpcError::Rejected(code) => {
                let text = "FSUIPC rejected the requests with error ".to_owned();
                let text = text.concat(signed_decimal(*code as i64).as_str());
                text.concat("; possible buffer corruption")
            },
            IpcError::UnexpectedMessage(id) => {
                let text = "unexpected message id ".to_owned();
                let text = text.concat(decimal(*id as u64).as_str());
                text.concat(" while reading IPC response")
            },
        }
    }
}


} // verus!
