//! The five kinds of datagram and the codec that tells them apart.

use vstd::prelude::*;
use crate::chunk_list::{
    lemma_chunk_list_message_round_trip,
    parse_chunk_list_message,
    ChunkListMessage,
    ChunkListMessageView,
};
use crate::error::ParseError;
use crate::query_info::{
    lemma_query_round_trip,
    parse_query,
    QueryInfo,
    QueryInfoView,
    QUERY_TYPE,
};
use crate::response_info::{
    lemma_response_round_trip,
    parse_response,
    ResponseInfo,
    ResponseInfoView,
};

verus! {

/// The type tag of a HELLO.
pub const HELLO_TYPE: u16 = 1;

/// The type tag of a CHUNK_INFO.
pub const CHUNK_INFO_TYPE: u16 = 3;

/// The type tag of a GET.
pub const GET_TYPE: u16 = 4;

/// The type tag of a RESPONSE.
pub const RESPONSE_TYPE: u16 = 5;

/// The size of the buffer that a datagram is received into, and so the size
/// of the longest datagram that is read whole: 60 KiB.
pub const RECEIVE_BUFFER_SIZE: usize = 61440;

/// One datagram of the protocol.
#[derive(Debug, PartialEq, Eq)]
pub enum Message {
    Hello(ChunkListMessage),
    Get(ChunkListMessage),
    Query(QueryInfo),
    ChunkInfo(ChunkListMessage),
    Response(ResponseInfo),
}

/// The mathematical value of a [`Message`].
pub ghost enum MessageView {
    Hello(ChunkListMessageView),
    Get(ChunkListMessageView),
    Query(QueryInfoView),
    ChunkInfo(ChunkListMessageView),
    Response(ResponseInfoView),
}

impl MessageView {
    /// The bytes of the datagram that carries this message.
    pub open spec fn wire(self) -> Seq<u8> {
        match self {
            MessageView::Hello(list) => list.wire(),
            MessageView::Get(list) => list.wire(),
            MessageView::Query(query) => query.wire(),
            MessageView::ChunkInfo(list) => list.wire(),
            MessageView::Response(response) => response.wire(),
        }
    }

    /// The tag of the message's kind.
    pub open spec fn tag(self) -> u16 {
        match self {
            MessageView::Hello(_) => HELLO_TYPE,
            MessageView::Get(_) => GET_TYPE,
            MessageView::Query(_) => QUERY_TYPE,
            MessageView::ChunkInfo(_) => CHUNK_INFO_TYPE,
            MessageView::Response(_) => RESPONSE_TYPE,
        }
    }

    /// The message's type field.
    pub open spec fn type_field(self) -> u16 {
        match self {
            MessageView::Hello(list) => list.message_type,
            MessageView::Get(list) => list.message_type,
            MessageView::Query(query) => query.message_type,
            MessageView::ChunkInfo(list) => list.message_type,
            MessageView::Response(response) => response.message_type,
        }
    }

    /// The message is one that a sender may put on the wire: its type field
    /// is the tag of its kind, and each count or size it announces is the
    /// number of items that follow.
    pub open spec fn well_formed(self) -> bool {
        match self {
            MessageView::Hello(list) => list.message_type == HELLO_TYPE && list.chunk_list.well_formed(),
            MessageView::Get(list) => list.message_type == GET_TYPE && list.chunk_list.well_formed(),
            MessageView::Query(query) => query.message_type == QUERY_TYPE && query.chunk_info.well_formed(),
            MessageView::ChunkInfo(list) => list.message_type == CHUNK_INFO_TYPE
                && list.chunk_list.well_formed(),
            MessageView::Response(response) => response.message_type == RESPONSE_TYPE
                && response.well_formed(),
        }
    }
}

/// What decoding a datagram of exactly the bytes `bytes` gives. The kind is
/// chosen by the second byte; the first byte is not read.
pub open spec fn parse_message(bytes: Seq<u8>) -> Result<MessageView, ParseError> {
    if bytes.len() < 2 {
        Err(ParseError::ShortFrame)
    } else if bytes[1] == 1 {
        match parse_chunk_list_message(bytes) {
            Ok(list) => Ok(MessageView::Hello(list)),
            Err(error) => Err(error),
        }
    } else if bytes[1] == 2 {
        match parse_query(bytes) {
            Ok(query) => Ok(MessageView::Query(query)),
            Err(error) => Err(error),
        }
    } else if bytes[1] == 3 {
        match parse_chunk_list_message(bytes) {
            Ok(list) => Ok(MessageView::ChunkInfo(list)),
            Err(error) => Err(error),
        }
    } else if bytes[1] == 4 {
        match parse_chunk_list_message(bytes) {
            Ok(list) => Ok(MessageView::Get(list)),
            Err(error) => Err(error),
        }
    } else if bytes[1] == 5 {
        match parse_response(bytes) {
            Ok(response) => Ok(MessageView::Response(response)),
            Err(error) => Err(error),
        }
    } else {
        Err(ParseError::UnknownType)
    }
}

impl View for Message {
    type V = MessageView;

    open spec fn view(&self) -> MessageView {
        match self {
            Message::Hello(list) => MessageView::Hello(list@),
            Message::Get(list) => MessageView::Get(list@),
            Message::Query(query) => MessageView::Query(query@),
            Message::ChunkInfo(list) => MessageView::ChunkInfo(list@),
            Message::Response(response) => MessageView::Response(response@),
        }
    }
}

impl Message {
    /// Decodes the datagram held in the first `bytes_read` bytes of
    /// `message`.
    ///
    /// Fails with `ShortFrame` when the valid bytes end before the fields of
    /// the kind that the tag names (or before the tag itself), and with
    /// `UnknownType` when at least two bytes are valid and the tag is none of
    /// 1 to 5.
    pub fn new(message: &[u8], bytes_read: usize) -> (result: Result<Message, ParseError>)
        requires
            bytes_read <= message@.len(),
        ensures
            match result {
                Ok(decoded) => parse_message(message@.take(bytes_read as int)) == Ok::<
                    MessageView,
                    ParseError,
                >(decoded@),
                Err(error) => parse_message(message@.take(bytes_read as int)) == Err::<
                    MessageView,
                    ParseError,
                >(error),
            },
    {
        if bytes_read < 2 {
            return Err(ParseError::ShortFrame);
        }
        let message_type = message[1];
        match message_type {
            1 => match ChunkListMessage::new(message, bytes_read) {
                Ok(list) => Ok(Message::Hello(list)),
                Err(error) => Err(error),
            },
            2 => match QueryInfo::new(message, bytes_read) {
                Ok(query) => Ok(Message::Query(query)),
                Err(error) => Err(error),
            },
            3 => match ChunkListMessage::new(message, bytes_read) {
                Ok(list) => Ok(Message::ChunkInfo(list)),
                Err(error) => Err(error),
            },
            4 => match ChunkListMessage::new(message, bytes_read) {
                Ok(list) => Ok(Message::Get(list)),
                Err(error) => Err(error),
            },
            5 => match ResponseInfo::new(message, bytes_read) {
                Ok(response) => Ok(Message::Response(response)),
                Err(error) => Err(error),
            },
            _ => Err(ParseError::UnknownType),
        }
    }

    /// Encodes the message as the bytes of one datagram. A message whose
    /// type field is the tag of its kind begins with a zero byte and the
    /// tag.
    pub fn serialize(&self) -> (data: Vec<u8>)
        ensures
            data@ == self@.wire(),
            data@.len() >= 4,
            self@.type_field() == self@.tag() ==> data@[0] == 0 && data@[1] == self@.tag(),
    {
        match self {
            Message::Hello(list) => list.serialize(),
            Message::ChunkInfo(list) => list.serialize(),
            Message::Get(list) => list.serialize(),
            Message::Query(query) => query.serialize(),
            Message::Response(response) => response.to_datagram(),
        }
    }
}

/// The least length of a datagram of each kind: a datagram shorter than
/// two bytes, a HELLO, CHUNK_INFO or GET shorter than four, a QUERY shorter
/// than twelve and a RESPONSE shorter than six are short frames; two bytes
/// or more with a tag that is none of 1 to 5 are of unknown type; and a
/// RESPONSE of six bytes or more always decodes.
pub proof fn lemma_least_lengths(bytes: Seq<u8>)
    ensures
        bytes.len() < 2 ==> parse_message(bytes) == Err::<MessageView, ParseError>(
            ParseError::ShortFrame,
        ),
        bytes.len() >= 2 && !(1 <= bytes[1] <= 5) ==> parse_message(bytes) == Err::<
            MessageView,
            ParseError,
        >(ParseError::UnknownType),
        2 <= bytes.len() < 4 && (bytes[1] == 1 || bytes[1] == 3 || bytes[1] == 4)
            ==> parse_message(bytes) == Err::<MessageView, ParseError>(ParseError::ShortFrame),
        2 <= bytes.len() < 12 && bytes[1] == 2 ==> parse_message(bytes) == Err::<
            MessageView,
            ParseError,
        >(ParseError::ShortFrame),
        2 <= bytes.len() < 6 && bytes[1] == 5 ==> parse_message(bytes) == Err::<
            MessageView,
            ParseError,
        >(ParseError::ShortFrame),
        bytes.len() >= 6 && bytes[1] == 5 ==> parse_message(bytes) is Ok,
        parse_message(bytes) is Err ==> parse_message(bytes) == Err::<MessageView, ParseError>(
            ParseError::ShortFrame,
        ) || parse_message(bytes) == Err::<MessageView, ParseError>(ParseError::UnknownType),
{
}

/// The first byte of a datagram is ignored: whatever stands there, the
/// datagram decodes to the same message or fails in the same way.
pub proof fn lemma_first_byte_is_ignored(bytes: Seq<u8>, other: u8)
    requires
        bytes.len() >= 1,
    ensures
        parse_message(bytes.update(0, other)) == parse_message(bytes),
{
    let changed = bytes.update(0, other);
    if bytes.len() >= 2 {
        assert(changed.skip(2) =~= bytes.skip(2));
    }
    if bytes.len() >= 6 {
        assert(changed.skip(6) =~= bytes.skip(6));
    }
    if bytes.len() >= 10 {
        assert(changed.skip(10) =~= bytes.skip(10));
    }
}

/// What the decoder gives has the tag of its kind for its type field, and,
/// unless it is a RESPONSE, is well-formed. A RESPONSE comes with the size
/// that it announced, which need not be the size of its payload.
pub proof fn lemma_decoded_is_well_typed(bytes: Seq<u8>)
    ensures
        parse_message(bytes) matches Ok(message) ==> message.type_field() == message.tag() && (
        message is Response || message.well_formed()),
{
}

/// Round trip: decoding the encoding of a well-formed message gives the
/// message back.
pub proof fn lemma_message_round_trip(message: MessageView)
    requires
        message.well_formed(),
    ensures
        parse_message(message.wire()) == Ok::<MessageView, ParseError>(message),
{
    match message {
        MessageView::Hello(list) => {
            lemma_chunk_list_message_round_trip(list);
        },
        MessageView::Get(list) => {
            lemma_chunk_list_message_round_trip(list);
        },
        MessageView::Query(query) => {
            lemma_query_round_trip(query);
        },
        MessageView::ChunkInfo(list) => {
            lemma_chunk_list_message_round_trip(list);
        },
        MessageView::Response(response) => {
            lemma_response_round_trip(response);
        },
    }
}

} // verus!
