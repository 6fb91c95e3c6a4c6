//! What a client is started with.

use vstd::prelude::*;
use vstd::slice::slice_subrange;
use crate::address::PeerAddress;
use crate::error::ConfigError;
use vstd::utf8::encode_utf8;
use crate::text::{
    parse_address,
    parse_address_text,
    parse_u16,
    parse_u16_text,
    pieces_of,
    ranges_within,
    split,
    split_ranges,
};

verus! {

/// Whether every piece writes a decimal 16-bit number.
pub open spec fn all_numbers(pieces: Seq<Seq<u8>>) -> bool {
    forall|k: int| 0 <= k < pieces.len() ==> parse_u16_text(#[trigger] pieces[k]) is Some
}

/// The numbers that the pieces write, in order.
pub open spec fn numbers_of(pieces: Seq<Seq<u8>>) -> Seq<u16> {
    Seq::new(pieces.len(), |k: int| parse_u16_text(pieces[k]).unwrap())
}

/// The chunk identifiers that `text` lists: decimal 16-bit numbers with a
/// comma between each two and nothing else. A list always has at least one
/// item.
pub open spec fn parse_chunk_ids_text(text: Seq<u8>) -> Option<Seq<u16>> {
    if all_numbers(split(text, 44)) {
        Some(numbers_of(split(text, 44)))
    } else {
        None
    }
}

/// Reads a comma-separated list of chunk identifiers.
///
/// Fails with `InvalidChunkId` exactly when some item is not a decimal
/// 16-bit number; white space is no part of a number.
pub fn parse_chunk_ids(text: &[u8]) -> (result: Result<Vec<u16>, ConfigError>)
    ensures
        match result {
            Ok(ids) => parse_chunk_ids_text(text@) == Some(ids@),
            Err(error) => parse_chunk_ids_text(text@) is None && error
                == ConfigError::InvalidChunkId,
        },
{
    let ranges = split_ranges(text, 44);
    let ghost pieces = split(text@, 44);
    let mut ids: Vec<u16> = Vec::new();
    let mut k: usize = 0;
    while k < ranges.len()
        invariant
            k <= ranges.len(),
            ranges_within(ranges@, text@.len()),
            pieces == pieces_of(text@, ranges@),
            pieces == split(text@, 44),
            all_numbers(pieces.take(k as int)),
            ids@ == numbers_of(pieces.take(k as int)),
        decreases ranges.len() - k,
    {
        let range = ranges[k];
        let piece = slice_subrange(text, range.0, range.1);
        assert(piece@ == pieces[k as int]);
        match parse_u16(piece) {
            Some(id) => {
                ids.push(id);
                proof {
                    assert forall|j: int| 0 <= j < k + 1 implies parse_u16_text(
                        #[trigger] pieces.take(k + 1)[j],
                    ) is Some by {
                        if j < k {
                            assert(pieces.take(k as int)[j] == pieces[j]);
                        }
                    }
                    assert(ids@ =~= numbers_of(pieces.take(k + 1)));
                }
            },
            None => {
                assert(parse_u16_text(pieces[k as int]) is None);
                return Err(ConfigError::InvalidChunkId);
            },
        }
        k += 1;
    }
    assert(pieces.take(k as int) =~= pieces);
    Ok(ids)
}

/// A client's settings: the peer to greet and the chunks to collect.
#[derive(Debug)]
pub struct ClientConfig {
    pub address: PeerAddress,
    pub chunks: Vec<u16>,
}

/// What the command line of a client says. The first argument is the
/// program's name and says nothing; the second is the address of the peer to
/// greet, the third the list of chunks. The address is judged first.
pub open spec fn client_arguments(args: Seq<Seq<u8>>) -> Result<
    (PeerAddress, Seq<u16>),
    ConfigError,
> {
    if args.len() < 2 {
        Err(ConfigError::MissingPeerAddress)
    } else if parse_address_text(args[1]) is None {
        Err(ConfigError::InvalidPeerAddress)
    } else if args.len() < 3 {
        Err(ConfigError::MissingChunkList)
    } else if parse_chunk_ids_text(args[2]) is None {
        Err(ConfigError::InvalidChunkId)
    } else {
        Ok((parse_address_text(args[1]).unwrap(), parse_chunk_ids_text(args[2]).unwrap()))
    }
}

/// The arguments as the bytes of their text.
pub open spec fn argument_bytes(args: Seq<String>) -> Seq<Seq<u8>> {
    Seq::new(args.len(), |k: int| encode_utf8(args[k]@))
}

impl ClientConfig {
    /// Reads a client's settings from its command line, program name
    /// included.
    pub fn new(args: &Vec<String>) -> (result: Result<ClientConfig, ConfigError>)
        ensures
            match result {
                Ok(config) => client_arguments(argument_bytes(args@)) == Ok::<
                    (PeerAddress, Seq<u16>),
                    ConfigError,
                >((config.address, config.chunks@)),
                Err(error) => client_arguments(argument_bytes(args@)) == Err::<
                    (PeerAddress, Seq<u16>),
                    ConfigError,
                >(error),
            },
    {
        if args.len() < 2 {
            return Err(ConfigError::MissingPeerAddress);
        }
        let address = match parse_address(args[1].as_str().as_bytes()) {
            Some(address) => address,
            None => {
                return Err(ConfigError::InvalidPeerAddress);
            },
        };
        if args.len() < 3 {
            return Err(ConfigError::MissingChunkList);
        }
        match parse_chunk_ids(args[2].as_str().as_bytes()) {
            Ok(chunks) => Ok(ClientConfig { address, chunks }),
            Err(error) => Err(error),
        }
    }
}

} // verus!
