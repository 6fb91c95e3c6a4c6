//! The names of the files that a client writes and the lines of its log.

use vstd::prelude::*;
use crate::address::PeerAddress;
use crate::text::{address_text, decimal, dotted, push_address, push_decimal, push_dotted};

verus! {

/// The name of the log of a client whose socket is bound to `local_ip`:
/// `output-<local_ip>.log`.
pub open spec fn log_file_name(local_ip: u32) -> Seq<u8> {
    seq![111u8, 117u8, 116u8, 112u8, 117u8, 116u8, 45u8] + dotted(local_ip) + seq![
        46u8,
        108u8,
        111u8,
        103u8,
    ]
}

/// The log line for chunk `id` received from `peer`:
/// `<ip>:<port> - <id>` and a line feed.
pub open spec fn log_line_text(peer: PeerAddress, id: u16) -> Seq<u8> {
    address_text(peer) + seq![32u8, 45u8, 32u8] + decimal(id as nat) + seq![10u8]
}

/// The name of the file that holds chunk `id`: `chunk<id>.m4s`.
pub open spec fn chunk_file_name_text(id: u16) -> Seq<u8> {
    seq![99u8, 104u8, 117u8, 110u8, 107u8] + decimal(id as nat) + seq![46u8, 109u8, 52u8, 115u8]
}

/// The address that stands for "no peer" in the log line of a chunk that
/// never arrived: `0.0.0.0:0`.
pub open spec fn nobody() -> PeerAddress {
    PeerAddress { ip: 0, port: 0 }
}

/// The log line for chunk `id` received from `peer`.
pub fn log_line(peer: PeerAddress, id: u16) -> (line: Vec<u8>)
    ensures
        line@ == log_line_text(peer, id),
{
    let mut line: Vec<u8> = Vec::new();
    push_address(&mut line, peer);
    line.push(32);
    line.push(45);
    line.push(32);
    push_decimal(&mut line, id as u32);
    line.push(10);
    assert(line@ =~= log_line_text(peer, id));
    line
}

/// The log line for chunk `id` that no peer delivered.
pub fn miss_line(id: u16) -> (line: Vec<u8>)
    ensures
        line@ == log_line_text(nobody(), id),
{
    log_line(PeerAddress { ip: 0, port: 0 }, id)
}

/// The name of the file that holds chunk `id`.
pub fn chunk_file_name(id: u16) -> (name: Vec<u8>)
    ensures
        name@ == chunk_file_name_text(id),
{
    let mut name: Vec<u8> = Vec::new();
    name.push(99);
    name.push(104);
    name.push(117);
    name.push(110);
    name.push(107);
    push_decimal(&mut name, id as u32);
    name.push(46);
    name.push(109);
    name.push(52);
    name.push(115);
    assert(name@ =~= chunk_file_name_text(id));
    name
}

/// Where a client's log goes.
#[derive(Debug)]
pub struct Logger {
    log_file_path: Vec<u8>,
}

impl Logger {
    /// The path of the log, as ASCII bytes.
    pub closed spec fn path(&self) -> Seq<u8> {
        self.log_file_path@
    }

    /// The logger of a client whose socket is bound to `local_ip`.
    pub fn new(local_ip: u32) -> (logger: Logger)
        ensures
            logger.path() == log_file_name(local_ip),
    {
        let mut log_file_path: Vec<u8> = Vec::new();
        log_file_path.push(111);
        log_file_path.push(117);
        log_file_path.push(116);
        log_file_path.push(112);
        log_file_path.push(117);
        log_file_path.push(116);
        log_file_path.push(45);
        push_dotted(&mut log_file_path, local_ip);
        log_file_path.push(46);
        log_file_path.push(108);
        log_file_path.push(111);
        log_file_path.push(103);
        assert(log_file_path@ =~= log_file_name(local_ip));
        Logger { log_file_path }
    }

    /// The path of the log.
    pub fn log_file_path(&self) -> (path: &Vec<u8>)
        ensures
            path@ == self.path(),
    {
        &self.log_file_path
    }
}

} // verus!
