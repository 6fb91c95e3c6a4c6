use p2p_chunks::client_config::parse_chunk_ids;
use p2p_chunks::manifest::{first_separator, parse_manifest, parse_manifest_line};
use p2p_chunks::text::{
    parse_address, parse_digits, parse_ipv4, parse_octet, parse_u16, push_address, push_decimal,
    push_dotted, split_ranges,
};
use p2p_chunks::{ClientConfig, ConfigError, ManifestEntry, PeerAddress, PeerConfig};

fn args(list: &[&str]) -> Vec<String> {
    list.iter().map(|s| s.to_string()).collect()
}

fn entry(id: u16, path: &str) -> ManifestEntry {
    ManifestEntry { id, path: path.as_bytes().to_vec() }
}

#[test]
fn address_octets_round_trip() {
    let address = PeerAddress::from_octets([1, 2, 3, 4], 5);
    assert_eq!(address.ip, 0x0102_0304);
    assert_eq!(address.port, 5);
    assert_eq!(address.octets(), [1, 2, 3, 4]);
    assert_eq!(PeerAddress { ip: 0xffff_ff00, port: 0 }.octets(), [255, 255, 255, 0]);
    assert_eq!(PeerAddress::from_octets([255, 0, 255, 0], 0).ip, 0xff00_ff00);
}

#[test]
fn decimal_formatting() {
    let mut out = b"x".to_vec();
    push_decimal(&mut out, 0);
    out.push(b' ');
    push_decimal(&mut out, 7);
    out.push(b' ');
    push_decimal(&mut out, 10);
    out.push(b' ');
    push_decimal(&mut out, 65535);
    out.push(b' ');
    push_decimal(&mut out, 4_294_967_295);
    out.push(b' ');
    push_decimal(&mut out, 1000);
    assert_eq!(out, b"x0 7 10 65535 4294967295 1000".to_vec());
    let mut out = Vec::new();
    push_dotted(&mut out, 0xc000_0201);
    out.push(b'|');
    push_address(&mut out, PeerAddress::from_octets([8, 8, 4, 4], 53));
    assert_eq!(out, b"192.0.2.1|8.8.4.4:53".to_vec());
}

#[test]
fn decimal_parsing() {
    assert_eq!(parse_u16(b"0"), Some(0));
    assert_eq!(parse_u16(b"7"), Some(7));
    assert_eq!(parse_u16(b"65535"), Some(65535));
    assert_eq!(parse_u16(b"65536"), None);
    assert_eq!(parse_u16(b"99999999999999999999999"), None);
    assert_eq!(parse_u16(b"007"), Some(7));
    assert_eq!(parse_u16(b"0000000000000000000012"), Some(12));
    assert_eq!(parse_u16(b"+12"), Some(12));
    assert_eq!(parse_u16(b"+"), None);
    assert_eq!(parse_u16(b"++1"), None);
    assert_eq!(parse_u16(b"-1"), None);
    assert_eq!(parse_u16(b""), None);
    assert_eq!(parse_u16(b" 1"), None);
    assert_eq!(parse_u16(b"1 "), None);
    assert_eq!(parse_u16(b"1a"), None);
    assert_eq!(parse_u16(b"70000x"), None);
    assert_eq!(parse_u16(b"12:"), None);
}

#[test]
fn decimal_parsing_agrees_with_formatting() {
    for value in [0u16, 1, 9, 10, 99, 100, 255, 256, 9999, 10000, 65534, 65535] {
        let mut text = Vec::new();
        push_decimal(&mut text, value as u32);
        assert_eq!(text, value.to_string().into_bytes());
        assert_eq!(parse_u16(&text), Some(value));
    }
}

#[test]
fn splitting() {
    assert_eq!(split_ranges(b"", b','), vec![(0, 0)]);
    assert_eq!(split_ranges(b"ab", b','), vec![(0, 2)]);
    assert_eq!(split_ranges(b"a,bc", b','), vec![(0, 1), (2, 4)]);
    assert_eq!(split_ranges(b",a,,", b','), vec![(0, 0), (1, 2), (3, 3), (4, 4)]);
}

#[test]
fn chunk_id_lists() {
    assert_eq!(parse_chunk_ids(b"10,11,12"), Ok(vec![10, 11, 12]));
    assert_eq!(parse_chunk_ids(b"7"), Ok(vec![7]));
    assert_eq!(parse_chunk_ids(b"7,7,0,65535"), Ok(vec![7, 7, 0, 65535]));
    assert_eq!(parse_chunk_ids(b""), Err(ConfigError::InvalidChunkId));
    assert_eq!(parse_chunk_ids(b"1,"), Err(ConfigError::InvalidChunkId));
    assert_eq!(parse_chunk_ids(b",1"), Err(ConfigError::InvalidChunkId));
    assert_eq!(parse_chunk_ids(b"1, 2"), Err(ConfigError::InvalidChunkId));
    assert_eq!(parse_chunk_ids(b"1,65536"), Err(ConfigError::InvalidChunkId));
    assert_eq!(parse_chunk_ids(b"1,x,3"), Err(ConfigError::InvalidChunkId));
}

#[test]
fn client_config_from_arguments() {
    let bootstrap = PeerAddress::from_octets([127, 0, 0, 1], 5000);
    let config = ClientConfig::new(&args(&["client", "127.0.0.1:5000", "3,1,2"])).unwrap();
    assert_eq!(config.address, bootstrap);
    assert_eq!(config.chunks, vec![3, 1, 2]);
    // what follows the chunk list is not looked at
    let config = ClientConfig::new(&args(&["client", "127.0.0.1:5000", "7", "x"])).unwrap();
    assert_eq!(config.chunks, vec![7]);
    let error = |list: &[&str]| ClientConfig::new(&args(list)).err();
    assert_eq!(error(&[]), Some(ConfigError::MissingPeerAddress));
    assert_eq!(error(&["client"]), Some(ConfigError::MissingPeerAddress));
    assert_eq!(error(&["client", "127.0.0.1"]), Some(ConfigError::InvalidPeerAddress));
    assert_eq!(error(&["client", "localhost:1", "1"]), Some(ConfigError::InvalidPeerAddress));
    assert_eq!(error(&["client", "nowhere"]), Some(ConfigError::InvalidPeerAddress));
    assert_eq!(error(&["client", "127.0.0.1:5000"]), Some(ConfigError::MissingChunkList));
    assert_eq!(error(&["client", "127.0.0.1:5000", "3;1"]), Some(ConfigError::InvalidChunkId));
    assert_eq!(error(&["client", "127.0.0.1:5000", ""]), Some(ConfigError::InvalidChunkId));
}

#[test]
fn peer_config_from_arguments() {
    let config = PeerConfig::new(&args(&["peer", "127.0.0.1", "5000", "kv.txt"])).unwrap();
    assert_eq!(config.ip, 0x7f00_0001);
    assert_eq!(config.port, 5000);
    assert_eq!(config.kv_file_path, "kv.txt");
    assert_eq!(config.known_peers, vec![]);
    let config = PeerConfig::new(&args(&[
        "peer", "0.0.0.0", "+80", "dir/kv file.txt", "10.0.0.2:5001", "10.0.0.3:65535",
    ]))
    .unwrap();
    assert_eq!(config.ip, 0);
    assert_eq!(config.port, 80);
    assert_eq!(config.kv_file_path, "dir/kv file.txt");
    assert_eq!(
        config.known_peers,
        vec![
            PeerAddress::from_octets([10, 0, 0, 2], 5001),
            PeerAddress::from_octets([10, 0, 0, 3], 65535)
        ]
    );
    let error = |list: &[&str]| PeerConfig::new(&args(list)).err();
    assert_eq!(error(&[]), Some(ConfigError::MissingIp));
    assert_eq!(error(&["peer"]), Some(ConfigError::MissingIp));
    assert_eq!(error(&["peer", "127.0.0"]), Some(ConfigError::InvalidIp));
    assert_eq!(error(&["peer", "127.0.0.1:80", "1", "kv"]), Some(ConfigError::InvalidIp));
    assert_eq!(error(&["peer", "127.0.0.1"]), Some(ConfigError::MissingPort));
    assert_eq!(error(&["peer", "127.0.0.1", "65536"]), Some(ConfigError::InvalidPort));
    assert_eq!(error(&["peer", "127.0.0.1", "http", "kv"]), Some(ConfigError::InvalidPort));
    assert_eq!(error(&["peer", "127.0.0.1", "80"]), Some(ConfigError::MissingManifestPath));
    assert_eq!(
        error(&["peer", "127.0.0.1", "80", "kv", "10.0.0.2:1", "10.0.0.3"]),
        Some(ConfigError::InvalidPeerAddress)
    );
    assert_eq!(
        error(&["peer", "127.0.0.1", "80", "kv", "[::1]:80"]),
        Some(ConfigError::InvalidPeerAddress)
    );
}

#[test]
fn ipv4_addresses() {
    assert_eq!(parse_ipv4(b"127.0.0.1"), Some(0x7f00_0001));
    assert_eq!(parse_ipv4(b"0.0.0.0"), Some(0));
    assert_eq!(parse_ipv4(b"255.255.255.255"), Some(0xffff_ffff));
    assert_eq!(parse_ipv4(b"1.2.3.4"), Some(0x0102_0304));
    assert_eq!(parse_ipv4(b"192.168.10.100"), Some(0xc0a8_0a64));
    for bad in [
        "", "1", "1.2.3", "1.2.3.4.5", "1.2.3.", ".1.2.3", "1..2.3", "256.0.0.1", "1.2.3.256",
        "01.2.3.4", "1.2.3.04", "1.2.3.00", "1.2.3.0004", "1.2.3.+4", "1.2.3.4 ", " 1.2.3.4",
        "a.b.c.d", "1,2,3,4", "1.2.3.-4", "::1",
    ] {
        assert_eq!(parse_ipv4(bad.as_bytes()), None, "{:?}", bad);
    }
    assert_eq!(parse_octet(b"0"), Some(0));
    assert_eq!(parse_octet(b"255"), Some(255));
    assert_eq!(parse_octet(b"99"), Some(99));
    assert_eq!(parse_octet(b"00"), None);
    assert_eq!(parse_octet(b"1000"), None);
    assert_eq!(parse_digits(b"0012", 12), Some(12));
    assert_eq!(parse_digits(b"13", 12), None);
    assert_eq!(parse_digits(b"+1", 12), None);
}

#[test]
fn socket_addresses() {
    assert_eq!(parse_address(b"127.0.0.1:80"), Some(PeerAddress::from_octets([127, 0, 0, 1], 80)));
    assert_eq!(parse_address(b"10.1.2.3:0"), Some(PeerAddress::from_octets([10, 1, 2, 3], 0)));
    assert_eq!(parse_address(b"10.1.2.3:65535"), Some(PeerAddress::from_octets([10, 1, 2, 3], 65535)));
    assert_eq!(parse_address(b"10.1.2.3:0080"), Some(PeerAddress::from_octets([10, 1, 2, 3], 80)));
    for bad in [
        "", "10.1.2.3", "10.1.2.3:", ":80", "10.1.2.3:65536", "10.1.2.3:+80", "10.1.2.3:80:90",
        "10.1.2:80", "10.1.2.3: 80", "[::1]:80", "host:80", "10.1.2.3:8o",
    ] {
        assert_eq!(parse_address(bad.as_bytes()), None, "{:?}", bad);
    }
}

#[test]
fn separators() {
    assert_eq!(first_separator(b"1: a"), Some(1));
    assert_eq!(first_separator(b": "), Some(0));
    assert_eq!(first_separator(b"a:b: c: d"), Some(3));
    assert_eq!(first_separator(b"a:b"), None);
    assert_eq!(first_separator(b"a:"), None);
    assert_eq!(first_separator(b""), None);
    assert_eq!(first_separator(b":"), None);
}

#[test]
fn manifest_lines() {
    assert_eq!(parse_manifest_line(b"12: chunks/a.m4s"), Ok(entry(12, "chunks/a.m4s")));
    assert_eq!(parse_manifest_line(b"0: "), Ok(entry(0, "")));
    assert_eq!(parse_manifest_line(b"5:  x"), Ok(entry(5, " x")));
    assert_eq!(parse_manifest_line(b"5: a:b"), Ok(entry(5, "a:b")));
    // the path ends where a second separator begins
    assert_eq!(parse_manifest_line(b"5: a: b"), Ok(entry(5, "a")));
    assert_eq!(parse_manifest_line(b"12"), Err(ConfigError::UnknownLineFormat));
    assert_eq!(parse_manifest_line(b"12:a"), Err(ConfigError::KeyNotANumber));
    assert_eq!(parse_manifest_line(b"abc"), Err(ConfigError::KeyNotANumber));
    assert_eq!(parse_manifest_line(b"abc: x"), Err(ConfigError::KeyNotANumber));
    assert_eq!(parse_manifest_line(b""), Err(ConfigError::KeyNotANumber));
    assert_eq!(parse_manifest_line(b": x"), Err(ConfigError::KeyNotANumber));
    assert_eq!(parse_manifest_line(b"70000: x"), Err(ConfigError::KeyNotANumber));
    assert_eq!(parse_manifest_line(b" 1: x"), Err(ConfigError::KeyNotANumber));
}

#[test]
fn manifests() {
    assert_eq!(
        parse_manifest(b"1: a.m4s\n2: dir/b.m4s\n"),
        Ok(vec![entry(1, "a.m4s"), entry(2, "dir/b.m4s")])
    );
    assert_eq!(parse_manifest(b"1: a\n2: b"), Ok(vec![entry(1, "a"), entry(2, "b")]));
    assert_eq!(parse_manifest(b"1: a\n\n\n\n"), Ok(vec![entry(1, "a")]));
    assert_eq!(parse_manifest(b""), Ok(vec![]));
    assert_eq!(parse_manifest(b"\n\n"), Ok(vec![]));
    assert_eq!(parse_manifest(b"3: x\n3: y\n"), Ok(vec![entry(3, "x"), entry(3, "y")]));
}

#[test]
fn malformed_manifests() {
    // an empty line between entries is a line like any other
    assert_eq!(parse_manifest(b"1: a\n\n2: b\n"), Err(ConfigError::KeyNotANumber));
    assert_eq!(parse_manifest(b"\n1: a\n"), Err(ConfigError::KeyNotANumber));
    assert_eq!(parse_manifest(b"1: a\n2 b\n"), Err(ConfigError::KeyNotANumber));
    assert_eq!(parse_manifest(b"1: a\n2\n"), Err(ConfigError::UnknownLineFormat));
    // the first bad line decides
    assert_eq!(parse_manifest(b"1\nx: a\n"), Err(ConfigError::UnknownLineFormat));
    assert_eq!(parse_manifest(b"x: a\n1\n"), Err(ConfigError::KeyNotANumber));
}
