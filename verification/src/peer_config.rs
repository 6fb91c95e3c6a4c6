//! What a peer is started with.

use vstd::prelude::*;
use crate::address::PeerAddress;
use crate::client_config::argument_bytes;
use crate::error::ConfigError;
use crate::text::{
    parse_address,
    parse_address_text,
    parse_ipv4,
    parse_ipv4_text,
    parse_u16,
    parse_u16_text,
};

verus! {

/// Whether every text writes a socket address.
pub open spec fn all_addresses(texts: Seq<Seq<u8>>) -> bool {
    forall|k: int| 0 <= k < texts.len() ==> parse_address_text(#[trigger] texts[k]) is Some
}

/// The socket addresses that the texts write, in order.
pub open spec fn addresses_of(texts: Seq<Seq<u8>>) -> Seq<PeerAddress> {
    Seq::new(texts.len(), |k: int| parse_address_text(texts[k]).unwrap())
}

/// What is wrong with the command line of a peer, if anything. The first
/// argument is the program's name and says nothing; then come the address
/// and the port to bind to, the manifest's path, and any number of known
/// peers. The arguments are judged in that order.
pub open spec fn peer_arguments_error(args: Seq<Seq<u8>>) -> Option<ConfigError> {
    if args.len() < 2 {
        Some(ConfigError::MissingIp)
    } else if parse_ipv4_text(args[1]) is None {
        Some(ConfigError::InvalidIp)
    } else if args.len() < 3 {
        Some(ConfigError::MissingPort)
    } else if parse_u16_text(args[2]) is None {
        Some(ConfigError::InvalidPort)
    } else if args.len() < 4 {
        Some(ConfigError::MissingManifestPath)
    } else if !all_addresses(args.skip(4)) {
        Some(ConfigError::InvalidPeerAddress)
    } else {
        None
    }
}

/// A peer's settings: where it listens, where its manifest lies, and the
/// neighbours it floods questions to. The neighbours never change while the
/// peer runs.
#[derive(Debug)]
pub struct PeerConfig {
    pub ip: u32,
    pub port: u16,
    pub kv_file_path: String,
    pub known_peers: Vec<PeerAddress>,
}

impl PeerConfig {
    /// Reads a peer's settings from its command line, program name
    /// included.
    pub fn new(args: &Vec<String>) -> (result: Result<PeerConfig, ConfigError>)
        ensures
            match result {
                Ok(config) => {
                    &&& peer_arguments_error(argument_bytes(args@)) is None
                    &&& Some(config.ip) == parse_ipv4_text(argument_bytes(args@)[1])
                    &&& Some(config.port) == parse_u16_text(argument_bytes(args@)[2])
                    &&& config.kv_file_path == args@[3]
                    &&& config.known_peers@ == addresses_of(argument_bytes(args@).skip(4))
                },
                Err(error) => peer_arguments_error(argument_bytes(args@)) == Some(error),
            },
    {
        let ghost texts = argument_bytes(args@);
        if args.len() < 2 {
            return Err(ConfigError::MissingIp);
        }
        let ip = match parse_ipv4(args[1].as_str().as_bytes()) {
            Some(ip) => ip,
            None => {
                return Err(ConfigError::InvalidIp);
            },
        };
        if args.len() < 3 {
            return Err(ConfigError::MissingPort);
        }
        let port = match parse_u16(args[2].as_str().as_bytes()) {
            Some(port) => port,
            None => {
                return Err(ConfigError::InvalidPort);
            },
        };
        if args.len() < 4 {
            return Err(ConfigError::MissingManifestPath);
        }
        let kv_file_path = args[3].clone();
        let ghost peers = texts.skip(4);
        let mut known_peers: Vec<PeerAddress> = Vec::new();
        let mut i: usize = 4;
        while i < args.len()
            invariant
                4 <= i <= args.len(),
                texts == argument_bytes(args@),
                peers == texts.skip(4),
                parse_ipv4_text(texts[1]) is Some,
                parse_u16_text(texts[2]) is Some,
                all_addresses(peers.take(i - 4)),
                known_peers@ == addresses_of(peers.take(i - 4)),
            decreases args.len() - i,
        {
            assert(peers[i - 4] == texts[i as int]);
            match parse_address(args[i].as_str().as_bytes()) {
                Some(peer_address) => {
                    known_peers.push(peer_address);
                    proof {
                        assert forall|j: int| 0 <= j < i - 4 + 1 implies parse_address_text(
                            #[trigger] peers.take(i - 4 + 1)[j],
                        ) is Some by {
                            if j < i - 4 {
                                assert(peers.take(i - 4)[j] == peers[j]);
                            }
                        }
                        assert(known_peers@ =~= addresses_of(peers.take(i - 4 + 1)));
                    }
                },
                None => {
                    assert(parse_address_text(peers[i - 4]) is None);
                    return Err(ConfigError::InvalidPeerAddress);
                },
            }
            i += 1;
        }
        assert(peers.take(i - 4) =~= peers);
        Ok(PeerConfig { ip, port, kv_file_path, known_peers })
    }
}

} // verus!
