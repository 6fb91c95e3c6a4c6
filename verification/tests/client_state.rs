use p2p_chunks::client::{
    all_chunks_received, create_control_map, handle_chunk_info, handle_message, handle_response,
    missing_chunks, select_needed, timed_out,
};
use p2p_chunks::logger::{chunk_file_name, log_line, miss_line};
use p2p_chunks::{
    ChunkControlData, ChunkList, ChunkListMessage, ClientAction, ClientConfig, ClientError, Logger,
    Message, PeerAddress, QueryInfo, ResponseInfo,
};

fn peer(last: u8) -> PeerAddress {
    PeerAddress::from_octets([10, 0, 0, last], 5000)
}

fn client(chunks: Vec<u16>) -> ClientConfig {
    ClientConfig { address: peer(1), chunks }
}

const FRESH: ChunkControlData = ChunkControlData { received: false, sent_get: false };

#[test]
fn control_map_starts_with_nothing_sent_or_received() {
    let map = create_control_map(&client(vec![5, 6, 5, 7]));
    assert_eq!(map.len(), 3);
    assert_eq!(map.get(&5), Some(&FRESH));
    assert_eq!(map.get(&6), Some(&FRESH));
    assert_eq!(map.get(&7), Some(&FRESH));
    assert_eq!(map.get(&8), None);
    assert!(create_control_map(&client(vec![])).is_empty());
}

#[test]
fn chunk_info_asks_for_what_is_still_wanted() {
    let mut map = create_control_map(&client(vec![1, 2, 3]));
    let get = handle_chunk_info(&ChunkListMessage::from_chunks(3, vec![3, 1]), &mut map);
    assert_eq!(get, Some(ChunkListMessage::from_chunks(4, vec![3, 1])));
    assert_eq!(map.get(&1), Some(&ChunkControlData { received: false, sent_get: true }));
    assert_eq!(map.get(&2), Some(&FRESH));
    assert_eq!(map.get(&3), Some(&ChunkControlData { received: false, sent_get: true }));
}

#[test]
fn chunk_is_asked_for_only_once() {
    let mut map = create_control_map(&client(vec![5, 6]));
    let first = handle_chunk_info(&ChunkListMessage::from_chunks(3, vec![5]), &mut map);
    assert_eq!(first, Some(ChunkListMessage::from_chunks(4, vec![5])));
    // another peer advertises the same chunk
    let second = handle_chunk_info(&ChunkListMessage::from_chunks(3, vec![5]), &mut map);
    assert_eq!(second, None);
    // and a third advertises it beside one that is new
    let third = handle_chunk_info(&ChunkListMessage::from_chunks(3, vec![5, 6]), &mut map);
    assert_eq!(third, Some(ChunkListMessage::from_chunks(4, vec![6])));
    let fourth = handle_chunk_info(&ChunkListMessage::from_chunks(3, vec![6, 5]), &mut map);
    assert_eq!(fourth, None);
}

#[test]
fn chunk_info_passes_over_ids_never_requested() {
    let mut map = create_control_map(&client(vec![5]));
    let get = handle_chunk_info(&ChunkListMessage::from_chunks(3, vec![9, 5, 10]), &mut map);
    assert_eq!(get, Some(ChunkListMessage::from_chunks(4, vec![5])));
    assert_eq!(map.len(), 1);
    let get = handle_chunk_info(&ChunkListMessage::from_chunks(3, vec![9, 10]), &mut map);
    assert_eq!(get, None);
    assert_eq!(map.len(), 1);
    assert_eq!(map.get(&9), None);
}

#[test]
fn empty_chunk_info_changes_nothing() {
    let mut map = create_control_map(&client(vec![5]));
    assert_eq!(handle_chunk_info(&ChunkListMessage::from_chunks(3, vec![]), &mut map), None);
    assert_eq!(map.get(&5), Some(&FRESH));
}

#[test]
fn select_needed_keeps_advertised_order() {
    let mut map = create_control_map(&client(vec![1, 2, 3, 4]));
    handle_chunk_info(&ChunkListMessage::from_chunks(3, vec![2]), &mut map);
    assert_eq!(select_needed(&map, &vec![4, 2, 9, 1, 4]), vec![4, 1, 4]);
}

#[test]
fn response_marks_chunk_received_and_gives_log_line() {
    let mut map = create_control_map(&client(vec![7, 8]));
    let from = PeerAddress::from_octets([192, 168, 0, 12], 5001);
    let line = handle_response(&ResponseInfo::from_chunk(7, vec![1, 2]), &from, &mut map);
    assert_eq!(line, Ok(b"192.168.0.12:5001 - 7\n".to_vec()));
    // no GET was ever sent for it, and it counts all the same
    assert_eq!(map.get(&7), Some(&ChunkControlData { received: true, sent_get: false }));
    assert_eq!(map.get(&8), Some(&FRESH));
}

#[test]
fn response_keeps_sent_flag() {
    let mut map = create_control_map(&client(vec![7]));
    handle_chunk_info(&ChunkListMessage::from_chunks(3, vec![7]), &mut map);
    assert!(handle_response(&ResponseInfo::from_chunk(7, vec![]), &peer(2), &mut map).is_ok());
    assert_eq!(map.get(&7), Some(&ChunkControlData { received: true, sent_get: true }));
}

#[test]
fn second_response_is_idempotent() {
    let mut map = create_control_map(&client(vec![5]));
    handle_chunk_info(&ChunkListMessage::from_chunks(3, vec![5]), &mut map);
    assert!(handle_response(&ResponseInfo::from_chunk(5, vec![1]), &peer(2), &mut map).is_ok());
    let after_first = map.clone();
    assert!(handle_response(&ResponseInfo::from_chunk(5, vec![1]), &peer(3), &mut map).is_ok());
    assert_eq!(map, after_first);
    // a received chunk is not asked for again either
    assert_eq!(handle_chunk_info(&ChunkListMessage::from_chunks(3, vec![5]), &mut map), None);
    assert_eq!(map, after_first);
}

#[test]
fn unexpected_chunk_is_refused() {
    let mut map = create_control_map(&client(vec![5]));
    let before = map.clone();
    let result = handle_response(&ResponseInfo::from_chunk(6, vec![1]), &peer(2), &mut map);
    assert_eq!(result, Err(ClientError::UnexpectedChunk));
    assert_eq!(map, before);
}

#[test]
fn completion_and_misses() {
    let mut map = create_control_map(&client(vec![1, 2, 3]));
    assert!(!all_chunks_received(&map));
    let mut missing = missing_chunks(&map);
    missing.sort();
    assert_eq!(missing, vec![1, 2, 3]);
    handle_response(&ResponseInfo::from_chunk(2, vec![]), &peer(2), &mut map).unwrap();
    assert!(!all_chunks_received(&map));
    let mut missing = missing_chunks(&map);
    missing.sort();
    assert_eq!(missing, vec![1, 3]);
    handle_response(&ResponseInfo::from_chunk(1, vec![]), &peer(2), &mut map).unwrap();
    handle_response(&ResponseInfo::from_chunk(3, vec![]), &peer(2), &mut map).unwrap();
    assert!(all_chunks_received(&map));
    assert_eq!(missing_chunks(&map), Vec::<u16>::new());
    assert!(all_chunks_received(&create_control_map(&client(vec![]))));
}

#[test]
fn log_lines_and_file_names() {
    assert_eq!(log_line(PeerAddress::from_octets([127, 0, 0, 1], 80), 0), b"127.0.0.1:80 - 0\n".to_vec());
    assert_eq!(
        log_line(PeerAddress::from_octets([255, 255, 255, 255], 65535), 65535),
        b"255.255.255.255:65535 - 65535\n".to_vec()
    );
    assert_eq!(log_line(PeerAddress::from_octets([10, 20, 30, 40], 1234), 105), b"10.20.30.40:1234 - 105\n".to_vec());
    assert_eq!(miss_line(2), b"0.0.0.0:0 - 2\n".to_vec());
    assert_eq!(chunk_file_name(10), b"chunk10.m4s".to_vec());
    assert_eq!(chunk_file_name(0), b"chunk0.m4s".to_vec());
    assert_eq!(chunk_file_name(65535), b"chunk65535.m4s".to_vec());
    let logger = Logger::new(0x7f00_0001);
    assert_eq!(logger.log_file_path(), &b"output-127.0.0.1.log".to_vec());
    assert_eq!(Logger::new(0).log_file_path(), &b"output-0.0.0.0.log".to_vec());
    assert_eq!(Logger::new(0xc0a8_0a64).log_file_path(), &b"output-192.168.10.100.log".to_vec());
}

#[test]
fn deadline_is_five_seconds() {
    assert!(!timed_out(0));
    assert!(!timed_out(4_999_999_999));
    assert!(!timed_out(5_000_000_000));
    assert!(timed_out(5_000_000_001));
    assert!(timed_out(u128::MAX));
}

#[test]
fn client_dispatches_by_kind() {
    let mut map = create_control_map(&client(vec![5, 6]));
    let start = map.clone();
    let from = PeerAddress::from_octets([10, 0, 0, 2], 5000);
    let list = || ChunkListMessage::from_chunks(1, vec![5]);
    let query = QueryInfo::from_chunks(from, ChunkList { amount_of_chunks: 1, chunks: vec![5] });
    assert_eq!(handle_message(Message::Hello(list()), &from, &mut map), Ok(ClientAction::Nothing));
    assert_eq!(handle_message(Message::Get(list()), &from, &mut map), Ok(ClientAction::Nothing));
    assert_eq!(handle_message(Message::Query(query), &from, &mut map), Ok(ClientAction::Nothing));
    assert_eq!(map, start);
    assert_eq!(
        handle_message(Message::ChunkInfo(ChunkListMessage::from_chunks(3, vec![6, 9])), &from, &mut map),
        Ok(ClientAction::SendGet(ChunkListMessage::from_chunks(4, vec![6])))
    );
    assert_eq!(
        handle_message(Message::ChunkInfo(ChunkListMessage::from_chunks(3, vec![6])), &from, &mut map),
        Ok(ClientAction::Nothing)
    );
    assert_eq!(
        handle_message(Message::Response(ResponseInfo::from_chunk(5, vec![1, 2])), &from, &mut map),
        Ok(ClientAction::StoreChunk {
            chunk_id: 5,
            chunk: vec![1, 2],
            log_line: b"10.0.0.2:5000 - 5\n".to_vec(),
        })
    );
    assert_eq!(
        handle_message(Message::Response(ResponseInfo::from_chunk(9, vec![1])), &from, &mut map),
        Err(ClientError::UnexpectedChunk)
    );
    assert_eq!(map.get(&5), Some(&ChunkControlData { received: true, sent_get: false }));
    assert_eq!(map.get(&6), Some(&ChunkControlData { received: false, sent_get: true }));
}
