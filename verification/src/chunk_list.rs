//! The list of chunk identifiers that HELLO, CHUNK_INFO and GET carry, and
//! the message made of a type field and such a list.

use vstd::prelude::*;
use vstd::slice::slice_subrange;
use crate::byte_utils::{be16, be16_bytes, push_u16, u16_from_u8_array};
use crate::error::ParseError;

verus! {

/// The encoding of a sequence of identifiers: two bytes each, big-endian.
pub open spec fn ids_wire(ids: Seq<u16>) -> Seq<u8> {
    Seq::new(
        2 * ids.len(),
        |i: int|
            if i % 2 == 0 {
                (ids[i / 2] / 256) as u8
            } else {
                (ids[i / 2] % 256) as u8
            },
    )
}

/// The `count` identifiers encoded at the start of `bytes`.
pub open spec fn ids_from_wire(bytes: Seq<u8>, count: nat) -> Seq<u16> {
    Seq::new(count, |i: int| be16(bytes[2 * i], bytes[2 * i + 1]))
}

/// The count that a list of `len` identifiers announces: `len` cut to 16 bits.
pub open spec fn announced_count(len: nat) -> u16 {
    (len % 0x1_0000) as u16
}

/// A count followed by that many chunk identifiers.
#[derive(Debug, PartialEq, Eq)]
pub struct ChunkList {
    pub amount_of_chunks: u16,
    pub chunks: Vec<u16>,
}

/// The mathematical value of a [`ChunkList`].
pub ghost struct ChunkListView {
    pub amount_of_chunks: u16,
    pub chunks: Seq<u16>,
}

impl ChunkListView {
    /// The announced count is the number of identifiers held.
    pub open spec fn well_formed(self) -> bool {
        self.chunks.len() == self.amount_of_chunks
    }

    /// The bytes that stand for this list in a datagram.
    pub open spec fn wire(self) -> Seq<u8> {
        be16_bytes(self.amount_of_chunks) + ids_wire(self.chunks)
    }
}

/// What decoding a chunk list from exactly the bytes `bytes` gives. Bytes
/// behind the last announced identifier are not part of the list.
pub open spec fn parse_chunk_list(bytes: Seq<u8>) -> Result<ChunkListView, ParseError> {
    if bytes.len() < 2 {
        Err(ParseError::ShortFrame)
    } else if bytes.len() < 2 + 2 * be16(bytes[0], bytes[1]) {
        Err(ParseError::ShortFrame)
    } else {
        Ok(
            ChunkListView {
                amount_of_chunks: be16(bytes[0], bytes[1]),
                chunks: ids_from_wire(bytes.skip(2), be16(bytes[0], bytes[1]) as nat),
            },
        )
    }
}

impl View for ChunkList {
    type V = ChunkListView;

    open spec fn view(&self) -> ChunkListView {
        ChunkListView { amount_of_chunks: self.amount_of_chunks, chunks: self.chunks@ }
    }
}

impl Clone for ChunkList {
    fn clone(&self) -> (copy: Self)
        ensures
            copy@ == self@,
    {
        let mut chunks: Vec<u16> = Vec::new();
        let mut i: usize = 0;
        while i < self.chunks.len()
            invariant
                i <= self.chunks.len(),
                chunks@ == self.chunks@.take(i as int),
            decreases self.chunks.len() - i,
        {
            chunks.push(self.chunks[i]);
            assert(chunks@ =~= self.chunks@.take(i + 1));
            i += 1;
        }
        assert(chunks@ =~= self.chunks@);
        ChunkList { amount_of_chunks: self.amount_of_chunks, chunks }
    }
}

impl ChunkList {
    /// Decodes a chunk list from the first `bytes_read` bytes of `message`.
    ///
    /// Fails with `ShortFrame` when fewer than two bytes are valid, or when
    /// the announced identifiers do not all lie within the valid bytes.
    pub fn new(message: &[u8], bytes_read: usize) -> (result: Result<ChunkList, ParseError>)
        requires
            bytes_read <= message@.len(),
        ensures
            match result {
                Ok(list) => parse_chunk_list(message@.take(bytes_read as int)) == Ok::<
                    ChunkListView,
                    ParseError,
                >(list@),
                Err(error) => parse_chunk_list(message@.take(bytes_read as int)) == Err::<
                    ChunkListView,
                    ParseError,
                >(error),
            },
    {
        if bytes_read < 2 {
            return Err(ParseError::ShortFrame);
        }
        let ghost valid = message@.take(bytes_read as int);
        let amount_of_chunks = u16_from_u8_array(slice_subrange(message, 0, 2));
        let count: usize = amount_of_chunks as usize;
        if (bytes_read - 2) / 2 < count {
            return Err(ParseError::ShortFrame);
        }
        let mut chunks: Vec<u16> = Vec::new();
        let mut i: usize = 0;
        while i < count
            invariant
                i <= count,
                count == amount_of_chunks,
                2 + 2 * count <= bytes_read <= message@.len(),
                valid == message@.take(bytes_read as int),
                chunks@ == ids_from_wire(valid.skip(2), i as nat),
            decreases count - i,
        {
            let id = u16_from_u8_array(slice_subrange(message, 2 + 2 * i, 4 + 2 * i));
            chunks.push(id);
            assert(chunks@ =~= ids_from_wire(valid.skip(2), (i + 1) as nat));
            i += 1;
        }
        Ok(ChunkList { amount_of_chunks, chunks })
    }

    /// Encodes the list: the count as it stands, then every identifier held.
    pub fn serialize(&self) -> (data: Vec<u8>)
        ensures
            data@ == self@.wire(),
            data@.len() == 2 + 2 * self.chunks@.len(),
            self@.well_formed() ==> data@.len() == 2 + 2 * self.amount_of_chunks,
    {
        let mut data: Vec<u8> = Vec::new();
        push_u16(&mut data, self.amount_of_chunks);
        let mut i: usize = 0;
        while i < self.chunks.len()
            invariant
                i <= self.chunks.len(),
                data@ == be16_bytes(self.amount_of_chunks) + ids_wire(self.chunks@.take(i as int)),
            decreases self.chunks.len() - i,
        {
            push_u16(&mut data, self.chunks[i]);
            assert(data@ =~= be16_bytes(self.amount_of_chunks) + ids_wire(
                self.chunks@.take(i + 1),
            ));
            i += 1;
        }
        assert(self.chunks@.take(self.chunks@.len() as int) =~= self.chunks@);
        data
    }
}

/// The encoding of a well-formed list is two bytes and two per announced
/// identifier, and decoding it gives the list back.
pub proof fn lemma_chunk_list_round_trip(list: ChunkListView)
    requires
        list.well_formed(),
    ensures
        list.wire().len() == 2 + 2 * list.amount_of_chunks,
        parse_chunk_list(list.wire()) == Ok::<ChunkListView, ParseError>(list),
{
    let bytes = list.wire();
    assert(bytes[0] == be16_bytes(list.amount_of_chunks)[0]);
    assert(bytes[1] == be16_bytes(list.amount_of_chunks)[1]);
    assert(be16(bytes[0], bytes[1]) == list.amount_of_chunks);
    assert(bytes.skip(2) =~= ids_wire(list.chunks));
    assert(ids_from_wire(ids_wire(list.chunks), list.chunks.len()) =~= list.chunks);
}

/// A two-byte message type followed by a chunk list: the shape of HELLO,
/// CHUNK_INFO and GET.
#[derive(Debug, PartialEq, Eq)]
pub struct ChunkListMessage {
    pub message_type: u16,
    pub chunk_list: ChunkList,
}

/// The mathematical value of a [`ChunkListMessage`].
pub ghost struct ChunkListMessageView {
    pub message_type: u16,
    pub chunk_list: ChunkListView,
}

impl ChunkListMessageView {
    /// The bytes of the datagram that carries this message.
    pub open spec fn wire(self) -> Seq<u8> {
        be16_bytes(self.message_type) + self.chunk_list.wire()
    }
}

/// What decoding a type field and a chunk list from exactly the bytes
/// `bytes` gives. Of the type field the second byte alone is read.
pub open spec fn parse_chunk_list_message(bytes: Seq<u8>) -> Result<
    ChunkListMessageView,
    ParseError,
> {
    if bytes.len() < 4 {
        Err(ParseError::ShortFrame)
    } else {
        match parse_chunk_list(bytes.skip(2)) {
            Ok(chunk_list) => Ok(
                ChunkListMessageView { message_type: bytes[1] as u16, chunk_list },
            ),
            Err(error) => Err(error),
        }
    }
}

impl View for ChunkListMessage {
    type V = ChunkListMessageView;

    open spec fn view(&self) -> ChunkListMessageView {
        ChunkListMessageView { message_type: self.message_type, chunk_list: self.chunk_list@ }
    }
}

impl ChunkListMessage {
    /// Decodes a message from the first `bytes_read` bytes of `message`.
    ///
    /// Fails with `ShortFrame` when fewer than four bytes are valid, or when
    /// the announced identifiers do not all lie within the valid bytes.
    pub fn new(message: &[u8], bytes_read: usize) -> (result: Result<ChunkListMessage, ParseError>)
        requires
            bytes_read <= message@.len(),
        ensures
            match result {
                Ok(decoded) => parse_chunk_list_message(message@.take(bytes_read as int)) == Ok::<
                    ChunkListMessageView,
                    ParseError,
                >(decoded@),
                Err(error) => parse_chunk_list_message(message@.take(bytes_read as int)) == Err::<
                    ChunkListMessageView,
                    ParseError,
                >(error),
            },
    {
        if bytes_read < 4 {
            return Err(ParseError::ShortFrame);
        }
        let message_type = message[1] as u16;
        let body = slice_subrange(message, 2, message.len());
        assert(body@.take(bytes_read - 2) =~= message@.take(bytes_read as int).skip(2));
        match ChunkList::new(body, bytes_read - 2) {
            Ok(chunk_list) => Ok(ChunkListMessage { message_type, chunk_list }),
            Err(error) => Err(error),
        }
    }

    /// Builds the message of type `message_type` that carries `chunks`. The
    /// announced count is the list's length cut to 16 bits.
    pub fn from_chunks(message_type: u16, chunks: Vec<u16>) -> (built: ChunkListMessage)
        ensures
            built@.message_type == message_type,
            built@.chunk_list.chunks == chunks@,
            built@.chunk_list.amount_of_chunks == announced_count(chunks@.len()),
            chunks@.len() <= 0xffff ==> built@.chunk_list.well_formed(),
    {
        let amount_of_chunks = (chunks.len() % 0x1_0000) as u16;
        ChunkListMessage { message_type, chunk_list: ChunkList { amount_of_chunks, chunks } }
    }

    /// Encodes the message: the type field, then the chunk list.
    pub fn serialize(&self) -> (data: Vec<u8>)
        ensures
            data@ == self@.wire(),
            data@.len() == 4 + 2 * self.chunk_list.chunks@.len(),
    {
        let mut data: Vec<u8> = Vec::new();
        push_u16(&mut data, self.message_type);
        let mut list = self.chunk_list.serialize();
        data.append(&mut list);
        data
    }
}

/// Decoding the encoding of a message with a well-formed list gives the
/// message back, but for the first byte of its type field, which comes back
/// as zero.
pub proof fn lemma_chunk_list_message_round_trip(message: ChunkListMessageView)
    requires
        message.chunk_list.well_formed(),
    ensures
        message.wire().len() == 4 + 2 * message.chunk_list.amount_of_chunks,
        parse_chunk_list_message(message.wire()) == Ok::<ChunkListMessageView, ParseError>(
            ChunkListMessageView { message_type: (message.message_type % 256) as u16, ..message },
        ),
{
    let bytes = message.wire();
    lemma_chunk_list_round_trip(message.chunk_list);
    assert(bytes.skip(2) =~= message.chunk_list.wire());
    assert(bytes[0] == be16_bytes(message.message_type)[0]);
    assert(bytes[1] == be16_bytes(message.message_type)[1]);
}

} // verus!
