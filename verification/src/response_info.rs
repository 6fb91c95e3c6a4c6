//! The RESPONSE message: one chunk's identifier, its announced size and its
//! payload.

use vstd::prelude::*;
use vstd::slice::{slice_subrange, slice_to_vec};
use crate::byte_utils::{be16, be16_bytes, push_u16, u16_from_u8_array};
use crate::chunk_list::announced_count;
use crate::error::ParseError;

verus! {

/// A chunk on its way from a peer to a client.
#[derive(Debug, PartialEq, Eq)]
pub struct ResponseInfo {
    pub message_type: u16,
    pub chunk_id: u16,
    pub chunk_size: u16,
    pub chunk: Vec<u8>,
}

/// The mathematical value of a [`ResponseInfo`].
pub ghost struct ResponseInfoView {
    pub message_type: u16,
    pub chunk_id: u16,
    pub chunk_size: u16,
    pub chunk: Seq<u8>,
}

impl ResponseInfoView {
    /// The announced size is the payload's length.
    pub open spec fn well_formed(self) -> bool {
        self.chunk.len() == self.chunk_size
    }

    /// The bytes of the datagram that carries this message.
    pub open spec fn wire(self) -> Seq<u8> {
        be16_bytes(self.message_type) + be16_bytes(self.chunk_id) + be16_bytes(self.chunk_size)
            + self.chunk
    }
}

/// What decoding a RESPONSE from exactly the bytes `bytes` gives. Of the
/// type field the second byte alone is read. The payload is whatever follows
/// the six header bytes; the announced size is handed on as read and decides
/// nothing.
pub open spec fn parse_response(bytes: Seq<u8>) -> Result<ResponseInfoView, ParseError> {
    if bytes.len() < 6 {
        Err(ParseError::ShortFrame)
    } else {
        Ok(
            ResponseInfoView {
                message_type: bytes[1] as u16,
                chunk_id: be16(bytes[2], bytes[3]),
                chunk_size: be16(bytes[4], bytes[5]),
                chunk: bytes.skip(6),
            },
        )
    }
}

impl View for ResponseInfo {
    type V = ResponseInfoView;

    open spec fn view(&self) -> ResponseInfoView {
        ResponseInfoView {
            message_type: self.message_type,
            chunk_id: self.chunk_id,
            chunk_size: self.chunk_size,
            chunk: self.chunk@,
        }
    }
}

impl ResponseInfo {
    /// Decodes a RESPONSE from the first `bytes_read` bytes of `message`.
    ///
    /// Fails with `ShortFrame` exactly when fewer than six bytes are valid.
    pub fn new(message: &[u8], bytes_read: usize) -> (result: Result<ResponseInfo, ParseError>)
        requires
            bytes_read <= message@.len(),
        ensures
            match result {
                Ok(decoded) => parse_response(message@.take(bytes_read as int)) == Ok::<
                    ResponseInfoView,
                    ParseError,
                >(decoded@),
                Err(error) => parse_response(message@.take(bytes_read as int)) == Err::<
                    ResponseInfoView,
                    ParseError,
                >(error),
            },
    {
        if bytes_read < 6 {
            return Err(ParseError::ShortFrame);
        }
        let message_type = message[1] as u16;
        let chunk_id = u16_from_u8_array(slice_subrange(message, 2, 4));
        let chunk_size = u16_from_u8_array(slice_subrange(message, 4, 6));
        let chunk = slice_to_vec(slice_subrange(message, 6, bytes_read));
        assert(chunk@ =~= message@.take(bytes_read as int).skip(6));
        Ok(ResponseInfo { message_type, chunk_id, chunk_size, chunk })
    }

    /// Builds the RESPONSE that carries `chunk` under `chunk_id`. The
    /// announced size is the payload's length cut to 16 bits.
    pub fn from_chunk(chunk_id: u16, chunk: Vec<u8>) -> (built: ResponseInfo)
        ensures
            built@ == (ResponseInfoView {
                message_type: 5,
                chunk_id,
                chunk_size: announced_count(chunk@.len()),
                chunk: chunk@,
            }),
            chunk@.len() <= 0xffff ==> built@.well_formed(),
    {
        let chunk_size = (chunk.len() % 0x1_0000) as u16;
        ResponseInfo { message_type: 5, chunk_id, chunk_size, chunk }
    }

    /// Encodes the message and moves its payload into the datagram: the
    /// message is left with an empty payload and its header as it was.
    pub fn serialize(&mut self) -> (data: Vec<u8>)
        ensures
            data@ == old(self)@.wire(),
            data@.len() == 6 + old(self).chunk@.len(),
            final(self)@ == (ResponseInfoView { chunk: Seq::<u8>::empty(), ..old(self)@ }),
    {
        let mut data: Vec<u8> = Vec::new();
        push_u16(&mut data, self.message_type);
        push_u16(&mut data, self.chunk_id);
        push_u16(&mut data, self.chunk_size);
        data.append(&mut self.chunk);
        assert(data@ =~= old(self)@.wire());
        data
    }

    /// Encodes the message and leaves it as it is.
    pub fn to_datagram(&self) -> (data: Vec<u8>)
        ensures
            data@ == self@.wire(),
            data@.len() == 6 + self.chunk@.len(),
    {
        let mut data: Vec<u8> = Vec::new();
        push_u16(&mut data, self.message_type);
        push_u16(&mut data, self.chunk_id);
        push_u16(&mut data, self.chunk_size);
        data.extend_from_slice(self.chunk.as_slice());
        assert(data@ =~= self@.wire());
        data
    }
}

/// Decoding the encoding of a RESPONSE gives the message back, whatever size
/// it announces, but for the first byte of its type field, which comes back
/// as zero.
pub proof fn lemma_response_round_trip(message: ResponseInfoView)
    ensures
        message.wire().len() == 6 + message.chunk.len(),
        parse_response(message.wire()) == Ok::<ResponseInfoView, ParseError>(
            ResponseInfoView { message_type: (message.message_type % 256) as u16, ..message },
        ),
{
    let bytes = message.wire();
    assert(bytes.skip(6) =~= message.chunk);
    assert(bytes[0] == be16_bytes(message.message_type)[0]);
    assert(bytes[1] == be16_bytes(message.message_type)[1]);
    assert(bytes[2] == be16_bytes(message.chunk_id)[0]);
    assert(bytes[3] == be16_bytes(message.chunk_id)[1]);
    assert(bytes[4] == be16_bytes(message.chunk_size)[0]);
    assert(bytes[5] == be16_bytes(message.chunk_size)[1]);
}

} // verus!
