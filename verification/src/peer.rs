//! What a peer answers to each datagram it receives.
//!
//! Each handler is a function from the peer's store, its neighbours and one
//! received message to the datagrams to send, in the order in which they are
//! to be sent. Sending them is the caller's business.

use vstd::prelude::*;
use vstd::slice::slice_to_vec;
use crate::address::PeerAddress;
use crate::chunk_list::{announced_count, ChunkListMessage, ChunkListMessageView, ChunkListView};
use crate::chunk_manager::{ChunkId, ChunkManager};
use crate::message::{Message, MessageView, CHUNK_INFO_TYPE, RESPONSE_TYPE};
use crate::peer_config::PeerConfig;
use crate::query_info::{decremented_ttl, QueryInfo, QueryInfoView, INITIAL_TTL, QUERY_TYPE};
use crate::response_info::{ResponseInfo, ResponseInfoView};
use crate::seq_lemmas::{lemma_filter_members, lemma_filter_take_next};

verus! {

/// A message and the address to send it to.
#[derive(Debug, PartialEq, Eq)]
pub struct Datagram {
    pub destination: PeerAddress,
    pub message: Message,
}

/// The mathematical value of a [`Datagram`].
pub ghost struct DatagramView {
    pub destination: PeerAddress,
    pub message: MessageView,
}

impl View for Datagram {
    type V = DatagramView;

    open spec fn view(&self) -> DatagramView {
        DatagramView { destination: self.destination, message: self.message@ }
    }
}

/// The values of a sequence of datagrams, in order.
pub open spec fn datagram_views(datagrams: Seq<Datagram>) -> Seq<DatagramView> {
    datagrams.map_values(|datagram: Datagram| datagram@)
}

/// The requested identifiers that the store holds, in the order and as often
/// as they were requested.
pub open spec fn available_chunks(store: Map<ChunkId, Seq<u8>>, requested: Seq<ChunkId>) -> Seq<
    ChunkId,
> {
    requested.filter(|id: ChunkId| store.contains_key(id))
}

/// The CHUNK_INFO that announces `available`.
pub open spec fn chunk_info_for(available: Seq<ChunkId>) -> MessageView {
    MessageView::ChunkInfo(
        ChunkListMessageView {
            message_type: CHUNK_INFO_TYPE,
            chunk_list: ChunkListView {
                amount_of_chunks: announced_count(available.len()),
                chunks: available,
            },
        },
    )
}

/// The advertisement owed to `to` for `requested`: one CHUNK_INFO that lists
/// what the store holds of it, and nothing when the store holds none of it.
pub open spec fn advertisement(
    store: Map<ChunkId, Seq<u8>>,
    requested: Seq<ChunkId>,
    to: PeerAddress,
) -> Seq<DatagramView> {
    let available = available_chunks(store, requested);
    if available.len() > 0 {
        seq![DatagramView { destination: to, message: chunk_info_for(available) }]
    } else {
        Seq::empty()
    }
}

/// `query` sent once to each of `peers`, in order.
pub open spec fn flood(query: QueryInfoView, peers: Seq<PeerAddress>) -> Seq<DatagramView> {
    peers.map_values(
        |peer: PeerAddress| DatagramView { destination: peer, message: MessageView::Query(query) },
    )
}

/// The QUERY that a peer launches for a HELLO received from `sender`.
pub open spec fn launched_query(hello: ChunkListMessageView, sender: PeerAddress) -> QueryInfoView {
    QueryInfoView {
        message_type: QUERY_TYPE,
        address: sender,
        peer_ttl: INITIAL_TTL,
        chunk_info: hello.chunk_list,
    }
}

/// What a peer sends on a HELLO from `sender`: its advertisement to the
/// sender, if it has any of the chunks, then the launched QUERY to every
/// known peer, whether or not it has them all.
pub open spec fn hello_datagrams(
    store: Map<ChunkId, Seq<u8>>,
    hello: ChunkListMessageView,
    sender: PeerAddress,
    known_peers: Seq<PeerAddress>,
) -> Seq<DatagramView> {
    advertisement(store, hello.chunk_list.chunks, sender) + flood(
        launched_query(hello, sender),
        known_peers,
    )
}

/// The RESPONSE that carries the stored payload of `id`.
pub open spec fn response_for(store: Map<ChunkId, Seq<u8>>, id: ChunkId) -> MessageView {
    MessageView::Response(
        ResponseInfoView {
            message_type: RESPONSE_TYPE,
            chunk_id: id,
            chunk_size: announced_count(store[id].len()),
            chunk: store[id],
        },
    )
}

/// What a peer sends on a GET from `sender`: one RESPONSE for each requested
/// identifier that the store holds, in the order of the request.
pub open spec fn get_datagrams(
    store: Map<ChunkId, Seq<u8>>,
    requested: Seq<ChunkId>,
    sender: PeerAddress,
) -> Seq<DatagramView> {
    available_chunks(store, requested).map_values(
        |id: ChunkId| DatagramView { destination: sender, message: response_for(store, id) },
    )
}

/// The QUERY that a peer passes on when it has received `query`: the same
/// question with one hop less to travel, and none when that leaves no hop.
pub open spec fn next_hop(query: QueryInfoView) -> Option<QueryInfoView> {
    if decremented_ttl(query.peer_ttl) > 0 {
        Some(query.with_decremented_ttl())
    } else {
        None
    }
}

/// The test that every address but `sender` passes.
pub open spec fn other_than(sender: PeerAddress) -> spec_fn(PeerAddress) -> bool {
    |peer: PeerAddress| peer != sender
}

/// The known peers that a QUERY received from `sender` is passed on to: all
/// but `sender`, in order.
pub open spec fn forward_targets(known_peers: Seq<PeerAddress>, sender: PeerAddress) -> Seq<
    PeerAddress,
> {
    known_peers.filter(other_than(sender))
}

/// The datagrams by which a peer passes on `query`, received from `sender`.
pub open spec fn forwards(
    query: QueryInfoView,
    sender: PeerAddress,
    known_peers: Seq<PeerAddress>,
) -> Seq<DatagramView> {
    match next_hop(query) {
        Some(next) => flood(next, forward_targets(known_peers, sender)),
        None => Seq::empty(),
    }
}

/// What a peer sends on a QUERY received from `sender`: its advertisement
/// straight to the client that the QUERY names, if it has any of the chunks,
/// then the forwards.
pub open spec fn query_datagrams(
    store: Map<ChunkId, Seq<u8>>,
    query: QueryInfoView,
    sender: PeerAddress,
    known_peers: Seq<PeerAddress>,
) -> Seq<DatagramView> {
    advertisement(store, query.chunk_info.chunks, query.address) + forwards(
        query,
        sender,
        known_peers,
    )
}

/// What a peer sends on `message` received from `sender`. A CHUNK_INFO or a
/// RESPONSE is not for a peer and gets no answer.
pub open spec fn peer_reaction(
    store: Map<ChunkId, Seq<u8>>,
    message: MessageView,
    sender: PeerAddress,
    known_peers: Seq<PeerAddress>,
) -> Seq<DatagramView> {
    match message {
        MessageView::Hello(hello) => hello_datagrams(store, hello, sender, known_peers),
        MessageView::Get(get) => get_datagrams(store, get.chunk_list.chunks, sender),
        MessageView::Query(query) => query_datagrams(store, query, sender, known_peers),
        MessageView::ChunkInfo(_) => Seq::empty(),
        MessageView::Response(_) => Seq::empty(),
    }
}

/// The identifiers among `requested` that `store` holds, in order.
pub fn select_available(store: &ChunkManager, requested: &Vec<ChunkId>) -> (available: Vec<
    ChunkId,
>)
    ensures
        available@ == available_chunks(store@, requested@),
{
    let mut available: Vec<ChunkId> = Vec::new();
    let ghost held = |id: ChunkId| store@.contains_key(id);
    let mut i: usize = 0;
    while i < requested.len()
        invariant
            i <= requested.len(),
            held == |id: ChunkId| store@.contains_key(id),
            available@ == requested@.take(i as int).filter(held),
        decreases requested.len() - i,
    {
        proof {
            lemma_filter_take_next(requested@, held, i as int);
        }
        if store.contains(&requested[i]) {
            available.push(requested[i]);
        }
        i += 1;
    }
    assert(requested@.take(requested@.len() as int) =~= requested@);
    available
}

/// Appends the advertisement owed to `to` for `requested`, if any.
fn push_advertisement(
    out: &mut Vec<Datagram>,
    store: &ChunkManager,
    requested: &Vec<ChunkId>,
    to: PeerAddress,
)
    ensures
        datagram_views(final(out)@) == datagram_views(old(out)@) + advertisement(
            store@,
            requested@,
            to,
        ),
{
    let available = select_available(store, requested);
    if !available.is_empty() {
        let message = ChunkListMessage::from_chunks(CHUNK_INFO_TYPE, available);
        out.push(Datagram { destination: to, message: Message::ChunkInfo(message) });
    }
    assert(datagram_views(out@) =~= datagram_views(old(out)@) + advertisement(
        store@,
        requested@,
        to,
    ));
}

/// Handles a HELLO that `remote_address` sent.
///
/// The result lists, in sending order, the CHUNK_INFO for the sender (only
/// when the store holds at least one requested chunk) and then one QUERY per
/// known peer, with the sender as its origin and the initial hop budget.
pub fn handle_hello(
    chunk_manager: &ChunkManager,
    data: &ChunkListMessage,
    remote_address: &PeerAddress,
    config: &PeerConfig,
) -> (out: Vec<Datagram>)
    ensures
        datagram_views(out@) == hello_datagrams(
            chunk_manager@,
            data@,
            *remote_address,
            config.known_peers@,
        ),
{
    let mut out: Vec<Datagram> = Vec::new();
    push_advertisement(&mut out, chunk_manager, &data.chunk_list.chunks, *remote_address);
    let ghost advert = datagram_views(out@);
    let ghost query = launched_query(data@, *remote_address);
    let message = QueryInfo::from_chunks(*remote_address, data.chunk_list.clone());
    let mut i: usize = 0;
    while i < config.known_peers.len()
        invariant
            i <= config.known_peers.len(),
            message@ == query,
            datagram_views(out@) == advert + flood(query, config.known_peers@.take(i as int)),
        decreases config.known_peers.len() - i,
    {
        let ghost before = out@;
        out.push(
            Datagram { destination: config.known_peers[i], message: Message::Query(message.clone()) },
        );
        proof {
            let sent = DatagramView {
                destination: config.known_peers@[i as int],
                message: MessageView::Query(query),
            };
            assert(datagram_views(out@) =~= datagram_views(before).push(sent));
            assert(config.known_peers@.take(i + 1) =~= config.known_peers@.take(i as int).push(
                config.known_peers@[i as int],
            ));
            assert(flood(query, config.known_peers@.take(i + 1)) =~= flood(
                query,
                config.known_peers@.take(i as int),
            ).push(sent));
        }
        i += 1;
    }
    assert(config.known_peers@.take(config.known_peers@.len() as int) =~= config.known_peers@);
    out
}

/// Handles a GET that `remote_address` sent.
///
/// The result lists one RESPONSE per requested chunk that the store holds,
/// each for the sender and with the stored payload, in the order of the
/// request. Requested chunks that the store lacks are passed over.
pub fn handle_get(
    chunk_manager: &ChunkManager,
    data: &ChunkListMessage,
    remote_address: &PeerAddress,
) -> (out: Vec<Datagram>)
    ensures
        datagram_views(out@) == get_datagrams(
            chunk_manager@,
            data@.chunk_list.chunks,
            *remote_address,
        ),
{
    let mut out: Vec<Datagram> = Vec::new();
    let requested = &data.chunk_list.chunks;
    let ghost held = |id: ChunkId| chunk_manager@.contains_key(id);
    let mut i: usize = 0;
    while i < requested.len()
        invariant
            i <= requested.len(),
            held == |id: ChunkId| chunk_manager@.contains_key(id),
            datagram_views(out@) == get_datagrams(
                chunk_manager@,
                requested@.take(i as int),
                *remote_address,
            ),
        decreases requested.len() - i,
    {
        proof {
            lemma_filter_take_next(requested@, held, i as int);
        }
        let chunk_id = requested[i];
        let ghost before = out@;
        if let Some(chunk_data) = chunk_manager.get(&chunk_id) {
            let response = ResponseInfo::from_chunk(chunk_id, slice_to_vec(chunk_data.as_slice()));
            out.push(Datagram { destination: *remote_address, message: Message::Response(response) });
            proof {
                let sent = DatagramView {
                    destination: *remote_address,
                    message: response_for(chunk_manager@, chunk_id),
                };
                assert(datagram_views(out@) =~= datagram_views(before).push(sent));
                assert(get_datagrams(chunk_manager@, requested@.take(i + 1), *remote_address)
                    =~= get_datagrams(
                    chunk_manager@,
                    requested@.take(i as int),
                    *remote_address,
                ).push(sent));
            }
        }
        i += 1;
    }
    assert(requested@.take(requested@.len() as int) =~= requested@);
    out
}

/// Handles a QUERY that `remote_address` passed on.
///
/// The result lists, in sending order, the CHUNK_INFO for the client that
/// the QUERY names (only when the store holds at least one requested chunk)
/// and then, when a hop is left after this one, the QUERY with its budget
/// reduced by one for every known peer but the one it came from. No QUERY
/// in the result goes back to the sender, and each has a smaller budget
/// than the QUERY received.
pub fn handle_query(
    chunk_manager: &ChunkManager,
    data: &QueryInfo,
    config: &PeerConfig,
    remote_address: &PeerAddress,
) -> (out: Vec<Datagram>)
    ensures
        datagram_views(out@) == query_datagrams(
            chunk_manager@,
            data@,
            *remote_address,
            config.known_peers@,
        ),
        forall|i: int|
            0 <= i < out@.len() && (#[trigger] out@[i]).message is Query ==> {
                &&& out@[i].destination != *remote_address
                &&& out@[i].message->Query_0.peer_ttl < data.peer_ttl
            },
{
    let mut out: Vec<Datagram> = Vec::new();
    push_advertisement(&mut out, chunk_manager, &data.chunk_info.chunks, data.address);
    let message = data.with_decremented_ttl();
    if message.peer_ttl > 0 {
        let ghost advert = datagram_views(out@);
        let ghost others = other_than(*remote_address);
        let mut i: usize = 0;
        while i < config.known_peers.len()
            invariant
                i <= config.known_peers.len(),
                others == other_than(*remote_address),
                message@ == data@.with_decremented_ttl(),
                datagram_views(out@) == advert + flood(
                    message@,
                    config.known_peers@.take(i as int).filter(others),
                ),
            decreases config.known_peers.len() - i,
        {
            proof {
                lemma_filter_take_next(config.known_peers@, others, i as int);
            }
            let peer = config.known_peers[i];
            let ghost before = out@;
            if peer != *remote_address {
                out.push(Datagram { destination: peer, message: Message::Query(message.clone()) });
                proof {
                    let sent = DatagramView {
                        destination: peer,
                        message: MessageView::Query(message@),
                    };
                    assert(datagram_views(out@) =~= datagram_views(before).push(sent));
                    assert(flood(message@, config.known_peers@.take(i + 1).filter(others))
                        =~= flood(message@, config.known_peers@.take(i as int).filter(others)).push(
                        sent,
                    ));
                }
            }
            i += 1;
        }
        assert(config.known_peers@.take(config.known_peers@.len() as int) =~= config.known_peers@);
        assert(next_hop(data@) == Some(message@));
    } else {
        assert(next_hop(data@) is None);
        assert(datagram_views(out@) =~= query_datagrams(
            chunk_manager@,
            data@,
            *remote_address,
            config.known_peers@,
        ));
    }
    proof {
        let sent = query_datagrams(
            chunk_manager@,
            data@,
            *remote_address,
            config.known_peers@,
        );
        let advert = advertisement(chunk_manager@, data@.chunk_info.chunks, data@.address);
        assert forall|i: int| 0 <= i < out@.len() && (#[trigger] out@[i]).message is Query implies {
            &&& out@[i].destination != *remote_address
            &&& out@[i].message->Query_0.peer_ttl < data.peer_ttl
        } by {
            assert(sent[i] == out@[i]@);
            lemma_never_forwards_to_sender(
                chunk_manager@,
                data@,
                *remote_address,
                config.known_peers@,
                i,
            );
            lemma_forward_lowers_ttl(
                data@,
                *remote_address,
                config.known_peers@,
                i - advert.len(),
            );
        }
    }
    out
}

/// Handles one decoded datagram that `remote_address` sent: the datagrams to
/// send in answer, in sending order.
pub fn handle_message(
    chunk_manager: &ChunkManager,
    message: &Message,
    config: &PeerConfig,
    remote_address: &PeerAddress,
) -> (out: Vec<Datagram>)
    ensures
        datagram_views(out@) == peer_reaction(
            chunk_manager@,
            message@,
            *remote_address,
            config.known_peers@,
        ),
{
    match message {
        Message::Hello(data) => handle_hello(chunk_manager, data, remote_address, config),
        Message::Get(data) => handle_get(chunk_manager, data, remote_address),
        Message::Query(data) => handle_query(chunk_manager, data, config, remote_address),
        _ => {
            let out: Vec<Datagram> = Vec::new();
            assert(datagram_views(out@) =~= Seq::<DatagramView>::empty());
            out
        },
    }
}

/// A peer advertises only what was asked of it and what it holds: an
/// identifier is advertised exactly when it is requested and in the store.
pub proof fn lemma_advertised_is_requested_and_held(
    store: Map<ChunkId, Seq<u8>>,
    requested: Seq<ChunkId>,
    id: ChunkId,
)
    ensures
        available_chunks(store, requested).contains(id) <==> requested.contains(id)
            && store.contains_key(id),
{
    lemma_filter_members(requested, |id: ChunkId| store.contains_key(id), id);
}

/// Every RESPONSE that answers a GET goes to the sender of the GET, names a
/// chunk that the GET names and the store holds, and carries the payload
/// that the store holds for it.
pub proof fn lemma_response_carries_stored_chunk(
    store: Map<ChunkId, Seq<u8>>,
    requested: Seq<ChunkId>,
    sender: PeerAddress,
    i: int,
)
    requires
        0 <= i < get_datagrams(store, requested, sender).len(),
    ensures
        get_datagrams(store, requested, sender)[i].destination == sender,
        get_datagrams(store, requested, sender)[i].message is Response,
        requested.contains(get_datagrams(store, requested, sender)[i].message->Response_0.chunk_id),
        store.contains_key(get_datagrams(store, requested, sender)[i].message->Response_0.chunk_id),
        get_datagrams(store, requested, sender)[i].message->Response_0.chunk
            == store[get_datagrams(store, requested, sender)[i].message->Response_0.chunk_id],
{
    let available = available_chunks(store, requested);
    let id = available[i];
    assert(available.contains(id));
    lemma_advertised_is_requested_and_held(store, requested, id);
}

/// Reverse-path avoidance: no QUERY that a peer sends on receiving a QUERY
/// goes back to the peer it received that QUERY from.
pub proof fn lemma_never_forwards_to_sender(
    store: Map<ChunkId, Seq<u8>>,
    query: QueryInfoView,
    sender: PeerAddress,
    known_peers: Seq<PeerAddress>,
    i: int,
)
    requires
        0 <= i < query_datagrams(store, query, sender, known_peers).len(),
        query_datagrams(store, query, sender, known_peers)[i].message is Query,
    ensures
        query_datagrams(store, query, sender, known_peers)[i].destination != sender,
{
    let advert = advertisement(store, query.chunk_info.chunks, query.address);
    let passed_on = forwards(query, sender, known_peers);
    assert(i >= advert.len());
    let targets = forward_targets(known_peers, sender);
    let target = targets[i - advert.len()];
    assert(passed_on[i - advert.len()].destination == target);
    assert(targets.contains(target));
    lemma_filter_members(known_peers, other_than(sender), target);
}

/// Every QUERY that a peer passes on is the next hop of the QUERY it
/// received: the same question, with a hop budget that is positive and
/// strictly below the one received.
pub proof fn lemma_forward_lowers_ttl(
    query: QueryInfoView,
    sender: PeerAddress,
    known_peers: Seq<PeerAddress>,
    i: int,
)
    requires
        0 <= i < forwards(query, sender, known_peers).len(),
    ensures
        next_hop(query) == Some(QueryInfoView { peer_ttl: (query.peer_ttl - 1) as u16, ..query }),
        forwards(query, sender, known_peers)[i].message == MessageView::Query(
            next_hop(query).unwrap(),
        ),
        0 < query.peer_ttl - 1 < query.peer_ttl,
{
}

/// What a peer sends can be read: when no stored payload is longer than
/// 65535 bytes, every datagram sent in answer to a well-formed message is
/// well-formed.
pub proof fn lemma_answers_are_well_formed(
    store: Map<ChunkId, Seq<u8>>,
    message: MessageView,
    sender: PeerAddress,
    known_peers: Seq<PeerAddress>,
    i: int,
)
    requires
        message.well_formed(),
        forall|id: ChunkId| store.contains_key(id) ==> (#[trigger] store[id]).len() <= 0xffff,
        0 <= i < peer_reaction(store, message, sender, known_peers).len(),
    ensures
        peer_reaction(store, message, sender, known_peers)[i].message.well_formed(),
{
    match message {
        MessageView::Hello(hello) => {
            hello.chunk_list.chunks.lemma_filter_len(|id: ChunkId| store.contains_key(id));
        },
        MessageView::Get(get) => {
            lemma_response_carries_stored_chunk(store, get.chunk_list.chunks, sender, i);
        },
        MessageView::Query(query) => {
            query.chunk_info.chunks.lemma_filter_len(|id: ChunkId| store.contains_key(id));
        },
        _ => {},
    }
}

/// The neighbours that each peer of a network was started with.
pub type Neighbours = Map<PeerAddress, Seq<PeerAddress>>;

/// One QUERY on its way: from whom, to whom, and what it says on arrival.
pub ghost struct Delivery {
    pub sender: PeerAddress,
    pub receiver: PeerAddress,
    pub query: QueryInfoView,
}

impl Delivery {
    /// The delivery as a datagram.
    pub open spec fn datagram(self) -> DatagramView {
        DatagramView { destination: self.receiver, message: MessageView::Query(self.query) }
    }

    /// The delivery goes from a peer to one of its neighbours.
    pub open spec fn is_along_edge(self, known: Neighbours) -> bool {
        known.contains_key(self.sender) && known[self.sender].contains(self.receiver)
    }
}

/// The receiver of `earlier` passes the QUERY on as `next`.
pub open spec fn is_forward_of(known: Neighbours, earlier: Delivery, next: Delivery) -> bool {
    &&& known.contains_key(earlier.receiver)
    &&& next.sender == earlier.receiver
    &&& forwards(earlier.query, earlier.sender, known[earlier.receiver]).contains(next.datagram())
}

/// `route` is one way that a flood takes through the network: `origin`
/// sends `launched` to each of its neighbours, one of them receives it as
/// the first delivery, and each further delivery is a forward of the one
/// before.
pub open spec fn is_flood_route(
    known: Neighbours,
    origin: PeerAddress,
    launched: QueryInfoView,
    route: Seq<Delivery>,
) -> bool {
    &&& route.len() > 0
    &&& known.contains_key(origin)
    &&& route[0].sender == origin
    &&& flood(launched, known[origin]).contains(route[0].datagram())
    &&& forall|i: int|
        0 <= i < route.len() - 1 ==> is_forward_of(known, #[trigger] route[i], route[i + 1])
}

/// One hop of a flood: the QUERY goes on to a neighbour of the peer that
/// received it, not to the peer it came from, and arrives with one hop less
/// to travel than it came with, which before was at least two.
pub proof fn lemma_forward_is_one_hop(known: Neighbours, earlier: Delivery, next: Delivery)
    requires
        is_forward_of(known, earlier, next),
    ensures
        next.is_along_edge(known),
        next.receiver != earlier.sender,
        earlier.query.peer_ttl >= 2,
        next.query == (QueryInfoView {
            peer_ttl: (earlier.query.peer_ttl - 1) as u16,
            ..earlier.query
        }),
{
    let neighbours = known[earlier.receiver];
    let sent = forwards(earlier.query, earlier.sender, neighbours);
    let k = choose|k: int| 0 <= k < sent.len() && sent[k] == next.datagram();
    lemma_forward_lowers_ttl(earlier.query, earlier.sender, neighbours, k);
    let targets = forward_targets(neighbours, earlier.sender);
    assert(targets[k] == next.receiver);
    assert(targets.contains(next.receiver));
    lemma_filter_members(neighbours, other_than(earlier.sender), next.receiver);
}

/// Along a route, each delivery goes from a peer to one of its neighbours,
/// and each hop takes one from the budget that the QUERY was launched with.
pub proof fn lemma_ttl_along_route(
    known: Neighbours,
    origin: PeerAddress,
    launched: QueryInfoView,
    route: Seq<Delivery>,
    i: int,
)
    requires
        is_flood_route(known, origin, launched, route),
        0 <= i < route.len(),
    ensures
        route[i].is_along_edge(known),
        route[i].query.peer_ttl == launched.peer_ttl - i,
        i > 0 ==> route[i].query.peer_ttl >= 1,
    decreases i,
{
    if i == 0 {
        let sent = flood(launched, known[origin]);
        let k = choose|k: int| 0 <= k < sent.len() && sent[k] == route[0].datagram();
        assert(known[origin][k] == route[0].receiver);
    } else {
        lemma_ttl_along_route(known, origin, launched, route, i - 1);
        assert(is_forward_of(known, route[i - 1], route[i - 1 + 1]));
        lemma_forward_is_one_hop(known, route[i - 1], route[i]);
    }
}

/// The reach of a flood: a QUERY launched with a hop budget of at least one
/// travels no more hops than its budget. As each hop goes from a peer to one
/// of its neighbours, a peer that the QUERY reaches is no more hops from the
/// peer that launched it than the budget it was launched with.
pub proof fn lemma_flood_route_is_bounded(
    known: Neighbours,
    origin: PeerAddress,
    launched: QueryInfoView,
    route: Seq<Delivery>,
)
    requires
        is_flood_route(known, origin, launched, route),
        launched.peer_ttl >= 1,
    ensures
        route.len() <= launched.peer_ttl,
{
    lemma_ttl_along_route(known, origin, launched, route, route.len() - 1);
}

/// The flood that a HELLO sets off ends after three hops: the QUERY that a
/// peer launches for a client reaches no peer that is more than three hops
/// away from that peer.
pub proof fn lemma_hello_flood_reaches_three_hops(
    known: Neighbours,
    bootstrap: PeerAddress,
    hello: ChunkListMessageView,
    client: PeerAddress,
    route: Seq<Delivery>,
)
    requires
        is_flood_route(known, bootstrap, launched_query(hello, client), route),
    ensures
        route.len() <= 3,
{
    lemma_flood_route_is_bounded(known, bootstrap, launched_query(hello, client), route);
}

} // verus!
