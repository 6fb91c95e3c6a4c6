//! A small peer-to-peer chunk discovery and fetch protocol over datagrams:
//! the wire codec, the peer's chunk store and message handlers, and the
//! client's per-chunk bookkeeping, each with a machine-checked contract.
//!
//! A client greets one peer with a HELLO that lists the chunks it wants.
//! The peer advertises what it holds with a CHUNK_INFO and floods a QUERY,
//! with a budget of three hops, to the peers it knows; each of them
//! advertises straight to the client and passes the QUERY on. The client
//! asks for each chunk once with a GET and receives it in a RESPONSE.
//!
//! Nothing here touches a socket, a file or a clock. The codec works on
//! byte slices ([`message`], [`chunk_list`], [`query_info`],
//! [`response_info`]); the handlers ([`peer`], [`client`]) map a state and a
//! received message to the messages to send and the state to go on with;
//! the readers of text ([`manifest`], [`client_config`], [`peer_config`],
//! [`text`]) work on the bytes of a manifest or of a command line. The
//! program around the library receives, sends, reads and writes.

pub mod address;
pub mod byte_utils;
pub mod chunk_list;
pub mod chunk_manager;
pub mod client;
pub mod client_config;
pub mod error;
pub mod logger;
pub mod manifest;
pub mod message;
pub mod peer;
pub mod peer_config;
pub mod query_info;
pub mod response_info;
pub mod seq_lemmas;
pub mod text;

pub use address::PeerAddress;
pub use byte_utils::u16_from_u8_array;
pub use chunk_list::{ChunkList, ChunkListMessage};
pub use chunk_manager::{Chunk, ChunkId, ChunkManager};
pub use client::{ChunkControlData, ClientAction};
pub use client_config::ClientConfig;
pub use error::{ClientError, ConfigError, ParseError};
pub use logger::Logger;
pub use manifest::ManifestEntry;
pub use message::Message;
pub use peer::Datagram;
pub use peer_config::PeerConfig;
pub use query_info::QueryInfo;
pub use response_info::ResponseInfo;
