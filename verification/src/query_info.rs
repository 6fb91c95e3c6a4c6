//! The QUERY message: who asks, how many more hops the question may travel,
//! and which chunks are asked for.

use vstd::prelude::*;
use vstd::slice::slice_subrange;
use crate::address::{be32, be32_bytes, PeerAddress};
use crate::byte_utils::{be16, be16_bytes, push_u16, u16_from_u8_array};
use crate::chunk_list::{
    lemma_chunk_list_round_trip,
    parse_chunk_list,
    ChunkList,
    ChunkListView,
};
use crate::error::ParseError;

verus! {

/// The type tag of a QUERY.
pub const QUERY_TYPE: u16 = 2;

/// The hop budget of the QUERY that a peer launches on a client's HELLO.
pub const INITIAL_TTL: u16 = 3;

/// A question flooded among peers on behalf of the client at `address`.
#[derive(Debug, PartialEq, Eq)]
pub struct QueryInfo {
    pub message_type: u16,
    pub address: PeerAddress,
    pub peer_ttl: u16,
    pub chunk_info: ChunkList,
}

/// The mathematical value of a [`QueryInfo`].
pub ghost struct QueryInfoView {
    pub message_type: u16,
    pub address: PeerAddress,
    pub peer_ttl: u16,
    pub chunk_info: ChunkListView,
}

/// The hop budget left after one more hop: one less, and none once it is
/// spent.
pub open spec fn decremented_ttl(ttl: u16) -> u16 {
    if ttl > 0 {
        (ttl - 1) as u16
    } else {
        0
    }
}

impl QueryInfoView {
    /// The bytes of the datagram that carries this message.
    pub open spec fn wire(self) -> Seq<u8> {
        be16_bytes(self.message_type) + be32_bytes(self.address.ip) + be16_bytes(self.address.port)
            + be16_bytes(self.peer_ttl) + self.chunk_info.wire()
    }

    /// The same question with one hop less to travel.
    pub open spec fn with_decremented_ttl(self) -> QueryInfoView {
        QueryInfoView { peer_ttl: decremented_ttl(self.peer_ttl), ..self }
    }
}

/// What decoding a QUERY from exactly the bytes `bytes` gives. Of the type
/// field the second byte alone is read.
pub open spec fn parse_query(bytes: Seq<u8>) -> Result<QueryInfoView, ParseError> {
    if bytes.len() < 12 {
        Err(ParseError::ShortFrame)
    } else {
        match parse_chunk_list(bytes.skip(10)) {
            Ok(chunk_info) => Ok(
                QueryInfoView {
                    message_type: bytes[1] as u16,
                    address: PeerAddress {
                        ip: be32(bytes[2], bytes[3], bytes[4], bytes[5]),
                        port: be16(bytes[6], bytes[7]),
                    },
                    peer_ttl: be16(bytes[8], bytes[9]),
                    chunk_info,
                },
            ),
            Err(error) => Err(error),
        }
    }
}

impl View for QueryInfo {
    type V = QueryInfoView;

    open spec fn view(&self) -> QueryInfoView {
        QueryInfoView {
            message_type: self.message_type,
            address: self.address,
            peer_ttl: self.peer_ttl,
            chunk_info: self.chunk_info@,
        }
    }
}

impl Clone for QueryInfo {
    fn clone(&self) -> (copy: Self)
        ensures
            copy@ == self@,
    {
        QueryInfo {
            message_type: self.message_type,
            address: self.address,
            peer_ttl: self.peer_ttl,
            chunk_info: self.chunk_info.clone(),
        }
    }
}

impl QueryInfo {
    /// Decodes a QUERY from the first `bytes_read` bytes of `message`.
    ///
    /// Fails with `ShortFrame` when fewer than twelve bytes are valid, or
    /// when the announced identifiers do not all lie within the valid bytes.
    pub fn new(message: &[u8], bytes_read: usize) -> (result: Result<QueryInfo, ParseError>)
        requires
            bytes_read <= message@.len(),
        ensures
            match result {
                Ok(decoded) => parse_query(message@.take(bytes_read as int)) == Ok::<
                    QueryInfoView,
                    ParseError,
                >(decoded@),
                Err(error) => parse_query(message@.take(bytes_read as int)) == Err::<
                    QueryInfoView,
                    ParseError,
                >(error),
            },
    {
        if bytes_read < 12 {
            return Err(ParseError::ShortFrame);
        }
        let message_type = message[1] as u16;
        let octets: [u8; 4] = [message[2], message[3], message[4], message[5]];
        let port = u16_from_u8_array(slice_subrange(message, 6, 8));
        let address = PeerAddress::from_octets(octets, port);
        let peer_ttl = u16_from_u8_array(slice_subrange(message, 8, 10));
        let body = slice_subrange(message, 10, message.len());
        assert(body@.take(bytes_read - 10) =~= message@.take(bytes_read as int).skip(10));
        match ChunkList::new(body, bytes_read - 10) {
            Ok(chunk_info) => Ok(QueryInfo { message_type, address, peer_ttl, chunk_info }),
            Err(error) => Err(error),
        }
    }

    /// The QUERY that a peer launches for the client at `address`: type 2,
    /// the initial hop budget of 3, and the client's list as it came.
    pub fn from_chunks(address: PeerAddress, chunk_info: ChunkList) -> (built: QueryInfo)
        ensures
            built@ == (QueryInfoView {
                message_type: QUERY_TYPE,
                address,
                peer_ttl: INITIAL_TTL,
                chunk_info: chunk_info@,
            }),
    {
        QueryInfo { message_type: QUERY_TYPE, address, peer_ttl: INITIAL_TTL, chunk_info }
    }

    /// A copy of the question with one hop less to travel. A budget that is
    /// already spent stays at zero.
    pub fn with_decremented_ttl(&self) -> (next: QueryInfo)
        ensures
            next@ == self@.with_decremented_ttl(),
    {
        let peer_ttl: u16 = if self.peer_ttl > 0 {
            self.peer_ttl - 1
        } else {
            0
        };
        QueryInfo {
            message_type: self.message_type,
            address: self.address,
            chunk_info: self.chunk_info.clone(),
            peer_ttl,
        }
    }

    /// Encodes the message: type, address, port, hop budget, chunk list.
    pub fn serialize(&self) -> (data: Vec<u8>)
        ensures
            data@ == self@.wire(),
            data@.len() == 12 + 2 * self.chunk_info.chunks@.len(),
            self@.chunk_info.well_formed() ==> data@.len() == 2 + 6 + 2 + 2 + 2
                * self.chunk_info.amount_of_chunks,
    {
        let mut data: Vec<u8> = Vec::new();
        push_u16(&mut data, self.message_type);
        let octets = self.address.octets();
        data.push(octets[0]);
        data.push(octets[1]);
        data.push(octets[2]);
        data.push(octets[3]);
        push_u16(&mut data, self.address.port);
        push_u16(&mut data, self.peer_ttl);
        let mut list = self.chunk_info.serialize();
        data.append(&mut list);
        assert(data@ =~= self@.wire());
        data
    }
}

/// The encoding of a QUERY with a well-formed list is twelve bytes and two
/// per announced identifier, and decoding it gives the message back, but for
/// the first byte of its type field, which comes back as zero.
pub proof fn lemma_query_round_trip(message: QueryInfoView)
    requires
        message.chunk_info.well_formed(),
    ensures
        message.wire().len() == 2 + 6 + 2 + 2 + 2 * message.chunk_info.amount_of_chunks,
        parse_query(message.wire()) == Ok::<QueryInfoView, ParseError>(
            QueryInfoView { message_type: (message.message_type % 256) as u16, ..message },
        ),
{
    let bytes = message.wire();
    lemma_chunk_list_round_trip(message.chunk_info);
    assert(bytes.skip(10) =~= message.chunk_info.wire());
    assert(bytes[0] == be16_bytes(message.message_type)[0]);
    assert(bytes[1] == be16_bytes(message.message_type)[1]);
    assert(bytes[2] == be32_bytes(message.address.ip)[0]);
    assert(bytes[3] == be32_bytes(message.address.ip)[1]);
    assert(bytes[4] == be32_bytes(message.address.ip)[2]);
    assert(bytes[5] == be32_bytes(message.address.ip)[3]);
    assert(bytes[6] == be16_bytes(message.address.port)[0]);
    assert(bytes[7] == be16_bytes(message.address.port)[1]);
    assert(bytes[8] == be16_bytes(message.peer_ttl)[0]);
    assert(bytes[9] == be16_bytes(message.peer_ttl)[1]);
}

} // verus!
