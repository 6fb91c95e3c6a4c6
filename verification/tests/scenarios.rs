use std::collections::{HashMap, VecDeque};

use p2p_chunks::client::{all_chunks_received, create_control_map, missing_chunks};
use p2p_chunks::logger::miss_line;
use p2p_chunks::peer::handle_get;
use p2p_chunks::{
    ChunkListMessage, ChunkManager, ClientAction, ClientConfig, Message, PeerAddress, PeerConfig,
};

struct Peer {
    address: PeerAddress,
    store: ChunkManager,
    config: PeerConfig,
}

struct Outcome {
    files: HashMap<u16, Vec<u8>>,
    log: Vec<String>,
    gets: Vec<(PeerAddress, Vec<u16>)>,
    queries_seen: Vec<(PeerAddress, u16)>,
}

fn addr(last: u8) -> PeerAddress {
    PeerAddress::from_octets([10, 0, 0, last], 5000)
}

fn payload(owner: u8, id: u16) -> Vec<u8> {
    vec![owner, (id >> 8) as u8, id as u8, 0x5a]
}

fn peer(last: u8, chunks: &[u16], known: &[u8]) -> Peer {
    Peer {
        address: addr(last),
        store: ChunkManager::new(chunks.iter().map(|id| (*id, payload(last, *id))).collect()),
        config: PeerConfig {
            ip: addr(last).ip,
            port: 5000,
            kv_file_path: String::new(),
            known_peers: known.iter().map(|k| addr(*k)).collect(),
        },
    }
}

/// Delivers every datagram in the order in which it was sent, each through
/// its encoding, until none is in flight.
fn run(peers: &[Peer], bootstrap: PeerAddress, requested: Vec<u16>) -> Outcome {
    let me = PeerAddress::from_octets([10, 0, 0, 200], 40000);
    let config = ClientConfig { address: bootstrap, chunks: requested };
    let mut control = create_control_map(&config);
    let mut outcome =
        Outcome { files: HashMap::new(), log: Vec::new(), gets: Vec::new(), queries_seen: Vec::new() };
    let mut wire: VecDeque<(PeerAddress, PeerAddress, Vec<u8>)> = VecDeque::new();
    let hello = ChunkListMessage::from_chunks(1, config.chunks.clone());
    wire.push_back((me, config.address, hello.serialize()));
    let mut delivered = 0;
    while let Some((from, to, bytes)) = wire.pop_front() {
        delivered += 1;
        assert!(delivered < 10_000, "the flood does not end");
        let mut buffer = vec![0u8; 60 * 1024];
        buffer[..bytes.len()].copy_from_slice(&bytes);
        let message = Message::new(&buffer, bytes.len()).expect("a peer sent what cannot be read");
        if to == me {
            match p2p_chunks::client::handle_message(message, &from, &mut control) {
                Ok(ClientAction::SendGet(get)) => {
                    outcome.gets.push((from, get.chunk_list.chunks.clone()));
                    wire.push_back((me, from, get.serialize()));
                }
                Ok(ClientAction::StoreChunk { chunk_id, chunk, log_line }) => {
                    outcome.log.push(String::from_utf8(log_line).unwrap());
                    outcome.files.insert(chunk_id, chunk);
                }
                Ok(ClientAction::Nothing) => {}
                Err(error) => panic!("refused: {:?}", error),
            }
            continue;
        }
        let Some(peer) = peers.iter().find(|p| p.address == to) else {
            continue;
        };
        if let Message::Query(data) = &message {
            outcome.queries_seen.push((to, data.peer_ttl));
        }
        let out = p2p_chunks::peer::handle_message(&peer.store, &message, &peer.config, &from);
        for datagram in out {
            // reverse-path avoidance
            if let Message::Query(_) = &message {
                assert!(!matches!(datagram.message, Message::Query(_)) || datagram.destination != from);
            }
            wire.push_back((to, datagram.destination, datagram.message.serialize()));
        }
    }
    let mut missing = missing_chunks(&control);
    missing.sort();
    for id in missing {
        outcome.log.push(String::from_utf8(miss_line(id)).unwrap());
    }
    assert_eq!(all_chunks_received(&control), !outcome.log.iter().any(|l| l.starts_with("0.0.0.0:0")));
    outcome
}

#[test]
fn direct_hit() {
    let peers = [peer(1, &[10, 11, 12], &[])];
    let outcome = run(&peers, addr(1), vec![10, 11, 12]);
    assert_eq!(outcome.files.len(), 3);
    for id in [10u16, 11, 12] {
        assert_eq!(outcome.files.get(&id), Some(&payload(1, id)));
    }
    assert_eq!(
        outcome.log,
        vec!["10.0.0.1:5000 - 10\n", "10.0.0.1:5000 - 11\n", "10.0.0.1:5000 - 12\n"]
    );
    assert_eq!(outcome.gets, vec![(addr(1), vec![10, 11, 12])]);
}

#[test]
fn two_hop() {
    let peers = [peer(1, &[], &[2]), peer(2, &[7], &[])];
    let outcome = run(&peers, addr(1), vec![7]);
    assert_eq!(outcome.queries_seen, vec![(addr(2), 3)]);
    assert_eq!(outcome.gets, vec![(addr(2), vec![7])]);
    assert_eq!(outcome.files.get(&7), Some(&payload(2, 7)));
    assert_eq!(outcome.log, vec!["10.0.0.2:5000 - 7\n"]);
}

#[test]
fn partial_miss() {
    let peers = [peer(1, &[1], &[])];
    let outcome = run(&peers, addr(1), vec![1, 2]);
    assert_eq!(outcome.files.len(), 1);
    assert_eq!(outcome.files.get(&1), Some(&payload(1, 1)));
    assert_eq!(outcome.log, vec!["10.0.0.1:5000 - 1\n", "0.0.0.0:0 - 2\n"]);
}

#[test]
fn duplicate_advertisement() {
    let peers = [peer(1, &[5], &[2]), peer(2, &[5], &[])];
    let outcome = run(&peers, addr(1), vec![5]);
    // both advertise, one is asked
    assert_eq!(outcome.gets, vec![(addr(1), vec![5])]);
    assert_eq!(outcome.files.get(&5), Some(&payload(1, 5)));
    assert_eq!(outcome.log, vec!["10.0.0.1:5000 - 5\n"]);
}

#[test]
fn ttl_cap() {
    let peers =
        [peer(1, &[], &[2]), peer(2, &[], &[3]), peer(3, &[], &[4]), peer(4, &[9], &[5]), peer(5, &[9], &[])];
    let outcome = run(&peers, addr(1), vec![9]);
    // the fourth peer is the last that the question reaches
    assert_eq!(outcome.queries_seen, vec![(addr(2), 3), (addr(3), 2), (addr(4), 1)]);
    assert_eq!(outcome.gets, vec![(addr(4), vec![9])]);
    assert_eq!(outcome.files.get(&9), Some(&payload(4, 9)));
    assert_eq!(outcome.log, vec!["10.0.0.4:5000 - 9\n"]);
}

#[test]
fn chunk_beyond_the_ttl_is_missed() {
    let peers =
        [peer(1, &[], &[2]), peer(2, &[], &[3]), peer(3, &[], &[4]), peer(4, &[], &[5]), peer(5, &[9], &[])];
    let outcome = run(&peers, addr(1), vec![9]);
    assert_eq!(outcome.queries_seen.len(), 3);
    assert!(outcome.files.is_empty());
    assert_eq!(outcome.log, vec!["0.0.0.0:0 - 9\n"]);
}

#[test]
fn flood_ends_on_a_cycle_and_spares_the_sender() {
    let peers = [peer(1, &[], &[2, 3]), peer(2, &[], &[1, 3]), peer(3, &[4], &[1, 2])];
    let outcome = run(&peers, addr(1), vec![4]);
    for (_, ttl) in &outcome.queries_seen {
        assert!(*ttl >= 1 && *ttl <= 3);
    }
    assert_eq!(outcome.gets, vec![(addr(3), vec![4])]);
    assert_eq!(outcome.files.get(&4), Some(&payload(3, 4)));
    // written files are requested chunks
    for id in outcome.files.keys() {
        assert_eq!(*id, 4);
    }
}

#[test]
fn malformed_datagram_is_refused_and_the_next_is_served() {
    let store = ChunkManager::new(vec![(1, vec![42])]);
    assert!(Message::new(&[1], 1).is_err());
    let get = ChunkListMessage::from_chunks(4, vec![1]).serialize();
    match Message::new(&get, get.len()) {
        Ok(Message::Get(data)) => assert_eq!(handle_get(&store, &data, &addr(9)).len(), 1),
        other => panic!("not a GET: {:?}", other),
    }
}
