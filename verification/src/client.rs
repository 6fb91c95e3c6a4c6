//! The client's bookkeeping: which chunks it has asked for and which have
//! arrived, and what it does on each datagram it receives.

use vstd::prelude::*;
use std::collections::HashMap;
use vstd::std_specs::iter::IteratorSpec;
use crate::address::PeerAddress;
use crate::chunk_list::{announced_count, ChunkListMessage, ChunkListMessageView, ChunkListView};
use crate::chunk_manager::ChunkId;
use crate::client_config::ClientConfig;
use crate::error::ClientError;
use crate::logger::{log_line, log_line_text};
use crate::message::{Message, MessageView, GET_TYPE};
use crate::response_info::ResponseInfo;
use crate::seq_lemmas::{lemma_filter_members, lemma_filter_take_next, lemma_take_next_members};

verus! {

broadcast use vstd::std_specs::hash::group_hash_axioms;

/// What the client knows of one requested chunk.
#[derive(Clone, Copy, Debug, PartialEq, Eq, Structural)]
pub struct ChunkControlData {
    /// A RESPONSE that carries the chunk has been processed.
    pub received: bool,
    /// A GET that names the chunk has been sent.
    pub sent_get: bool,
}

/// The client's state as a mathematical map.
pub type Control = Map<ChunkId, ChunkControlData>;

/// The state of a client that has just started: every requested chunk, with
/// nothing sent and nothing received.
pub open spec fn initial_control(requested: Seq<ChunkId>) -> Control {
    Map::new(
        |id: ChunkId| requested.contains(id),
        |id: ChunkId| ChunkControlData { received: false, sent_get: false },
    )
}

/// The test that a requested chunk passes as long as no GET has named it.
pub open spec fn wanted(control: Control) -> spec_fn(ChunkId) -> bool {
    |id: ChunkId| control.contains_key(id) && !control[id].sent_get
}

/// The advertised identifiers to ask for: those that were requested and that
/// no GET has named yet, in the order and as often as they were advertised.
pub open spec fn needed_chunks(control: Control, advertised: Seq<ChunkId>) -> Seq<ChunkId> {
    advertised.filter(wanted(control))
}

/// The state after a GET that names `ids` has been sent.
pub open spec fn mark_sent(control: Control, ids: Seq<ChunkId>) -> Control {
    Map::new(
        |id: ChunkId| control.contains_key(id),
        |id: ChunkId|
            if ids.contains(id) {
                ChunkControlData { received: control[id].received, sent_get: true }
            } else {
                control[id]
            },
    )
}

/// The state after the requested chunk `id` has arrived.
pub open spec fn mark_received(control: Control, id: ChunkId) -> Control {
    control.insert(id, ChunkControlData { received: true, sent_get: control[id].sent_get })
}

/// The GET that asks for `needed`.
pub open spec fn get_for(needed: Seq<ChunkId>) -> ChunkListMessageView {
    ChunkListMessageView {
        message_type: GET_TYPE,
        chunk_list: ChunkListView {
            amount_of_chunks: announced_count(needed.len()),
            chunks: needed,
        },
    }
}

/// Every requested chunk has arrived.
pub open spec fn all_received(control: Control) -> bool {
    forall|id: ChunkId| control.contains_key(id) ==> (#[trigger] control[id]).received
}

/// The state of a client that starts with the chunk list of `config`.
pub fn create_control_map(config: &ClientConfig) -> (control_map: HashMap<
    ChunkId,
    ChunkControlData,
>)
    ensures
        control_map@ == initial_control(config.chunks@),
{
    let mut control_map: HashMap<ChunkId, ChunkControlData> = HashMap::new();
    let mut i: usize = 0;
    while i < config.chunks.len()
        invariant
            i <= config.chunks.len(),
            control_map@ == initial_control(config.chunks@.take(i as int)),
        decreases config.chunks.len() - i,
    {
        control_map.insert(config.chunks[i], ChunkControlData { received: false, sent_get: false });
        proof {
            assert forall|id: ChunkId|
                config.chunks@.take(i + 1).contains(id) <==> config.chunks@.take(
                    i as int,
                ).contains(id) || config.chunks@[i as int] == id by {
                lemma_take_next_members(config.chunks@, i as int, id);
            }
            assert(control_map@ =~= initial_control(config.chunks@.take(i + 1)));
        }
        i += 1;
    }
    assert(config.chunks@.take(config.chunks@.len() as int) =~= config.chunks@);
    control_map
}

/// The advertised identifiers among `advertised` that `control_map` still
/// wants, in order.
pub fn select_needed(
    control_map: &HashMap<ChunkId, ChunkControlData>,
    advertised: &Vec<ChunkId>,
) -> (needed: Vec<ChunkId>)
    ensures
        needed@ == needed_chunks(control_map@, advertised@),
{
    let mut needed: Vec<ChunkId> = Vec::new();
    let ghost test = wanted(control_map@);
    let mut i: usize = 0;
    while i < advertised.len()
        invariant
            i <= advertised.len(),
            test == wanted(control_map@),
            needed@ == advertised@.take(i as int).filter(test),
        decreases advertised.len() - i,
    {
        proof {
            lemma_filter_take_next(advertised@, test, i as int);
        }
        let still_wanted = match control_map.get(&advertised[i]) {
            Some(chunk_control_data) => !chunk_control_data.sent_get,
            None => false,
        };
        if still_wanted {
            needed.push(advertised[i]);
        }
        i += 1;
    }
    assert(advertised@.take(advertised@.len() as int) =~= advertised@);
    needed
}

/// Handles a CHUNK_INFO.
///
/// Returns the GET to send to the peer that advertised, or `None` when the
/// advertisement names no requested chunk that is still to be asked for.
/// Every chunk that the GET names is marked as asked for; nothing else
/// changes. Advertised identifiers that were never requested are passed
/// over.
pub fn handle_chunk_info(
    data: &ChunkListMessage,
    control_map: &mut HashMap<ChunkId, ChunkControlData>,
) -> (get: Option<ChunkListMessage>)
    ensures
        final(control_map)@ == mark_sent(
            old(control_map)@,
            needed_chunks(old(control_map)@, data@.chunk_list.chunks),
        ),
        match get {
            Some(message) => message@ == get_for(
                needed_chunks(old(control_map)@, data@.chunk_list.chunks),
            ) && needed_chunks(old(control_map)@, data@.chunk_list.chunks).len() > 0,
            None => needed_chunks(old(control_map)@, data@.chunk_list.chunks).len() == 0,
        },
{
    let needed_chunks = select_needed(control_map, &data.chunk_list.chunks);
    let ghost before = control_map@;
    let mut i: usize = 0;
    while i < needed_chunks.len()
        invariant
            i <= needed_chunks.len(),
            control_map@ == mark_sent(before, needed_chunks@.take(i as int)),
        decreases needed_chunks.len() - i,
    {
        let chunk = needed_chunks[i];
        let known = match control_map.get(&chunk) {
            Some(chunk_control_data) => Some(chunk_control_data.received),
            None => None,
        };
        if let Some(received) = known {
            control_map.insert(chunk, ChunkControlData { received, sent_get: true });
        }
        proof {
            assert forall|id: ChunkId|
                needed_chunks@.take(i + 1).contains(id) <==> needed_chunks@.take(
                    i as int,
                ).contains(id) || needed_chunks@[i as int] == id by {
                lemma_take_next_members(needed_chunks@, i as int, id);
            }
            assert(control_map@ =~= mark_sent(before, needed_chunks@.take(i + 1)));
        }
        i += 1;
    }
    proof {
        assert(needed_chunks@.take(needed_chunks@.len() as int) =~= needed_chunks@);
        assert(mark_sent(before, Seq::<ChunkId>::empty()) =~= before);
    }
    if needed_chunks.is_empty() {
        None
    } else {
        Some(ChunkListMessage::from_chunks(GET_TYPE, needed_chunks))
    }
}

/// Handles a RESPONSE that `remote_addr` sent.
///
/// When the chunk was requested it is marked as received, whether or not it
/// had been asked for or had arrived before, and the line for the log is
/// returned. When it was not, nothing changes and `UnexpectedChunk` is
/// returned.
pub fn handle_response(
    data: &ResponseInfo,
    remote_addr: &PeerAddress,
    control_map: &mut HashMap<ChunkId, ChunkControlData>,
) -> (result: Result<Vec<u8>, ClientError>)
    ensures
        match result {
            Ok(line) => old(control_map)@.contains_key(data.chunk_id) && final(control_map)@
                == mark_received(old(control_map)@, data.chunk_id) && line@ == log_line_text(
                *remote_addr,
                data.chunk_id,
            ),
            Err(error) => !old(control_map)@.contains_key(data.chunk_id) && final(control_map)@
                == old(control_map)@ && error == ClientError::UnexpectedChunk,
        },
{
    let known = match control_map.get(&data.chunk_id) {
        Some(chunk_control_data) => Some(chunk_control_data.sent_get),
        None => None,
    };
    match known {
        Some(sent_get) => {
            control_map.insert(data.chunk_id, ChunkControlData { received: true, sent_get });
            Ok(log_line(*remote_addr, data.chunk_id))
        },
        None => Err(ClientError::UnexpectedChunk),
    }
}

/// Whether every requested chunk has arrived: the client's reason to stop
/// before its deadline.
pub fn all_chunks_received(control_map: &HashMap<ChunkId, ChunkControlData>) -> (done: bool)
    ensures
        done == all_received(control_map@),
{
    let mut done = true;
    let ghost mut order: Seq<ChunkId> = Seq::empty();
    let ghost mut visited: int = 0;
    let keys = control_map.keys();
    proof {
        order = vstd::std_specs::hash::into_iter_keys(keys);
    }
    for key in iter: keys
        invariant
            iter.seq().unref() == order,
            order.to_set() == control_map@.dom(),
            visited == iter.index(),
            done == (forall|j: int|
                0 <= j < visited ==> (#[trigger] control_map@[order[j]]).received),
    {
        assert(order[visited] == *key);
        assert(order.to_set().contains(*key));
        if let Some(chunk_control_data) = control_map.get(key) {
            if !chunk_control_data.received {
                done = false;
            }
        }
        proof {
            visited = visited + 1;
        }
    }
    proof {
        assert(visited == order.len());
        if done {
            assert forall|id: ChunkId| control_map@.contains_key(id) implies (
            #[trigger] control_map@[id]).received by {
                assert(order.to_set().contains(id));
                let j = choose|j: int| 0 <= j < order.len() && order[j] == id;
                assert(control_map@[order[j]].received);
            }
        } else {
            let j = choose|j: int| 0 <= j < visited && !(#[trigger] control_map@[order[j]]).received;
            assert(order.to_set().contains(order[j]));
        }
    }
    done
}

/// The test that a requested chunk passes as long as it has not arrived.
pub open spec fn is_missing(control: Control, id: ChunkId) -> bool {
    control.contains_key(id) && !control[id].received
}

/// The requested chunks that have not arrived, each once. Their order is
/// that in which the map hands out its keys, which is not fixed.
pub fn missing_chunks(control_map: &HashMap<ChunkId, ChunkControlData>) -> (missing: Vec<ChunkId>)
    ensures
        missing@.no_duplicates(),
        forall|id: ChunkId| missing@.contains(id) <==> is_missing(control_map@, id),
{
    let mut missing: Vec<ChunkId> = Vec::new();
    let ghost mut order: Seq<ChunkId> = Seq::empty();
    let ghost mut visited: int = 0;
    let keys = control_map.keys();
    proof {
        order = vstd::std_specs::hash::into_iter_keys(keys);
        assert(keys.remaining().no_duplicates());
        assert forall|i: int, j: int| 0 <= i < order.len() && 0 <= j < order.len() && i != j implies order[i] != order[j] by {
            assert(keys.remaining()[i] != keys.remaining()[j]);
        }
    }
    for key in iter: keys
        invariant
            iter.seq().unref() == order,
            order.to_set() == control_map@.dom(),
            order.no_duplicates(),
            visited == iter.index(),
            missing@.no_duplicates(),
            forall|id: ChunkId|
                missing@.contains(id) <==> order.take(visited).contains(id) && is_missing(
                    control_map@,
                    id,
                ),
    {
        let ghost before = missing@;
        assert(order[visited] == *key);
        assert(order.to_set().contains(*key));
        let arrived = match control_map.get(key) {
            Some(chunk_control_data) => chunk_control_data.received,
            None => true,
        };
        if !arrived {
            missing.push(*key);
        }
        proof {
            assert forall|id: ChunkId|
                order.take(visited + 1).contains(id) <==> order.take(visited).contains(id)
                    || order[visited] == id by {
                lemma_take_next_members(order, visited, id);
            }
            if order.take(visited).contains(*key) {
                let k = choose|k: int| 0 <= k < visited && order.take(visited)[k] == *key;
                assert(order[k] == order[visited]);
            }
            if !arrived {
                assert(!before.contains(*key));
                assert forall|id: ChunkId| missing@.contains(id) <==> before.contains(id) || id
                    == *key by {
                    if before.contains(id) {
                        let k = choose|k: int| 0 <= k < before.len() && before[k] == id;
                        assert(missing@[k] == id);
                    }
                    if id == *key {
                        assert(missing@[before.len() as int] == id);
                    }
                }
                assert forall|i: int, j: int|
                    0 <= i < missing@.len() && 0 <= j < missing@.len() && i != j implies missing@[i]
                    != missing@[j] by {
                    if i < before.len() {
                        assert(before.contains(before[i]));
                    }
                    if j < before.len() {
                        assert(before.contains(before[j]));
                    }
                }
            }
            assert(arrived == !is_missing(control_map@, *key));
            assert forall|id: ChunkId|
                missing@.contains(id) <==> order.take(visited + 1).contains(id) && is_missing(
                    control_map@,
                    id,
                ) by {
                lemma_take_next_members(order, visited, id);
                assert(before.contains(id) <==> order.take(visited).contains(id) && is_missing(
                    control_map@,
                    id,
                ));
                if arrived {
                    assert(missing@ == before);
                } else {
                    assert(missing@.contains(id) <==> before.contains(id) || id == *key);
                }
            }
            visited = visited + 1;
        }
    }
    proof {
        assert(order.take(visited) =~= order);
        assert forall|id: ChunkId| missing@.contains(id) <==> is_missing(control_map@, id) by {
            if is_missing(control_map@, id) {
                assert(order.to_set().contains(id));
            }
        }
    }
    missing
}

/// What a client does in answer to one datagram.
#[derive(Debug, PartialEq, Eq)]
pub enum ClientAction {
    /// Nothing is to be done.
    Nothing,
    /// The GET is to be sent to the peer that advertised.
    SendGet(ChunkListMessage),
    /// The chunk is to be written to its file and the line to the log.
    StoreChunk { chunk_id: ChunkId, chunk: Vec<u8>, log_line: Vec<u8> },
}

/// The mathematical value of a [`ClientAction`].
pub ghost enum ClientActionView {
    Nothing,
    SendGet(ChunkListMessageView),
    StoreChunk { chunk_id: ChunkId, chunk: Seq<u8>, log_line: Seq<u8> },
}

impl View for ClientAction {
    type V = ClientActionView;

    open spec fn view(&self) -> ClientActionView {
        match self {
            ClientAction::Nothing => ClientActionView::Nothing,
            ClientAction::SendGet(get) => ClientActionView::SendGet(get@),
            ClientAction::StoreChunk { chunk_id, chunk, log_line } => ClientActionView::StoreChunk {
                chunk_id: *chunk_id,
                chunk: chunk@,
                log_line: log_line@,
            },
        }
    }
}

/// The state after one datagram, as `handle_message` leaves it. Only a
/// CHUNK_INFO and a RESPONSE for a requested chunk change anything.
pub open spec fn client_step(control: Control, message: MessageView) -> Control {
    match message {
        MessageView::ChunkInfo(list) => mark_sent(
            control,
            needed_chunks(control, list.chunk_list.chunks),
        ),
        MessageView::Response(response) => if control.contains_key(response.chunk_id) {
            mark_received(control, response.chunk_id)
        } else {
            control
        },
        _ => control,
    }
}

/// What a client in state `control` does in answer to `message` from
/// `sender`.
pub open spec fn client_reaction(control: Control, message: MessageView, sender: PeerAddress)
    -> Result<ClientActionView, ClientError> {
    match message {
        MessageView::ChunkInfo(list) => if needed_chunks(control, list.chunk_list.chunks).len()
            > 0 {
            Ok(ClientActionView::SendGet(get_for(needed_chunks(control, list.chunk_list.chunks))))
        } else {
            Ok(ClientActionView::Nothing)
        },
        MessageView::Response(response) => if control.contains_key(response.chunk_id) {
            Ok(
                ClientActionView::StoreChunk {
                    chunk_id: response.chunk_id,
                    chunk: response.chunk,
                    log_line: log_line_text(sender, response.chunk_id),
                },
            )
        } else {
            Err(ClientError::UnexpectedChunk)
        },
        _ => Ok(ClientActionView::Nothing),
    }
}

/// The state after a sequence of datagrams, in order of arrival.
pub open spec fn client_run(control: Control, messages: Seq<MessageView>) -> Control
    decreases messages.len(),
{
    if messages.len() == 0 {
        control
    } else {
        client_step(client_run(control, messages.drop_last()), messages.last())
    }
}

/// Handles one decoded datagram that `remote_addr` sent: what is to be done
/// in answer, and the state moved on by one step. A RESPONSE for a chunk
/// that was never requested is refused and changes nothing.
pub fn handle_message(
    message: Message,
    remote_addr: &PeerAddress,
    control_map: &mut HashMap<ChunkId, ChunkControlData>,
) -> (result: Result<ClientAction, ClientError>)
    ensures
        final(control_map)@ == client_step(old(control_map)@, message@),
        match result {
            Ok(action) => client_reaction(old(control_map)@, message@, *remote_addr) == Ok::<
                ClientActionView,
                ClientError,
            >(action@),
            Err(error) => client_reaction(old(control_map)@, message@, *remote_addr) == Err::<
                ClientActionView,
                ClientError,
            >(error),
        },
{
    match message {
        Message::ChunkInfo(data) => match handle_chunk_info(&data, control_map) {
            Some(get) => Ok(ClientAction::SendGet(get)),
            None => Ok(ClientAction::Nothing),
        },
        Message::Response(data) => match handle_response(&data, remote_addr, control_map) {
            Ok(log_line) => Ok(
                ClientAction::StoreChunk { chunk_id: data.chunk_id, chunk: data.chunk, log_line },
            ),
            Err(error) => Err(error),
        },
        _ => Ok(ClientAction::Nothing),
    }
}

/// The deadline of a client, in nanoseconds from the start of its loop.
pub const DEADLINE_NANOS: u128 = 5_000_000_000;

/// Whether a client that has run its loop for `elapsed_nanos` nanoseconds has
/// passed its deadline of five seconds.
pub fn timed_out(elapsed_nanos: u128) -> (out: bool)
    ensures
        out == (elapsed_nanos > DEADLINE_NANOS),
{
    elapsed_nanos > DEADLINE_NANOS
}

/// Whatever arrives, the client keeps track of the chunks it was started
/// with and of no others, and a flag that is set stays set: a chunk that
/// has arrived never counts as missing again, and a chunk that was asked
/// for never counts as not asked for.
pub proof fn lemma_flags_never_fall(control: Control, messages: Seq<MessageView>, id: ChunkId)
    ensures
        client_run(control, messages).contains_key(id) == control.contains_key(id),
        control.contains_key(id) && control[id].received ==> client_run(
            control,
            messages,
        )[id].received,
        control.contains_key(id) && control[id].sent_get ==> client_run(
            control,
            messages,
        )[id].sent_get,
    decreases messages.len(),
{
    if messages.len() > 0 {
        lemma_flags_never_fall(control, messages.drop_last(), id);
    }
}

/// A chunk is asked for at most once: when a GET has named a chunk, no GET
/// that the client builds later names it, whatever arrives in between.
pub proof fn lemma_get_names_chunk_once(
    control: Control,
    advertisement: ChunkListMessageView,
    between: Seq<MessageView>,
    later: ChunkListMessageView,
    id: ChunkId,
)
    requires
        needed_chunks(control, advertisement.chunk_list.chunks).contains(id),
    ensures
        !needed_chunks(
            client_run(client_step(control, MessageView::ChunkInfo(advertisement)), between),
            later.chunk_list.chunks,
        ).contains(id),
{
    let asked = client_step(control, MessageView::ChunkInfo(advertisement));
    lemma_filter_members(advertisement.chunk_list.chunks, wanted(control), id);
    assert(asked[id].sent_get);
    lemma_flags_never_fall(asked, between, id);
    lemma_filter_members(later.chunk_list.chunks, wanted(client_run(asked, between)), id);
}

/// What a client sends can be read: the GET built on a well-formed
/// CHUNK_INFO is a well-formed message.
pub proof fn lemma_get_is_well_formed(control: Control, advertisement: ChunkListMessageView)
    requires
        advertisement.chunk_list.well_formed(),
    ensures
        MessageView::Get(
            get_for(needed_chunks(control, advertisement.chunk_list.chunks)),
        ).well_formed(),
{
    advertisement.chunk_list.chunks.lemma_filter_len(wanted(control));
}

/// A client stores only chunks that it was started to collect, and stores
/// the payload as the RESPONSE carried it: whatever has arrived since the
/// start, a datagram leads to a chunk being stored only if it is a RESPONSE
/// for a requested chunk, and what is stored is that RESPONSE's payload
/// under its identifier.
pub proof fn lemma_stored_chunk_was_requested(
    requested: Seq<ChunkId>,
    earlier: Seq<MessageView>,
    message: MessageView,
    sender: PeerAddress,
)
    requires
        client_reaction(client_run(initial_control(requested), earlier), message, sender) matches Ok(
            action,
        ) && action is StoreChunk,
    ensures
        message is Response,
        requested.contains(message->Response_0.chunk_id),
        client_reaction(client_run(initial_control(requested), earlier), message, sender)
            == Ok::<ClientActionView, ClientError>(
            ClientActionView::StoreChunk {
                chunk_id: message->Response_0.chunk_id,
                chunk: message->Response_0.chunk,
                log_line: log_line_text(sender, message->Response_0.chunk_id),
            },
        ),
{
    match message {
        MessageView::Response(response) => {
            lemma_flags_never_fall(initial_control(requested), earlier, response.chunk_id);
        },
        _ => {},
    }
}

/// A chunk that arrives again changes nothing.
pub proof fn lemma_second_response_changes_nothing(control: Control, id: ChunkId)
    requires
        control.contains_key(id),
    ensures
        mark_received(mark_received(control, id), id) == mark_received(control, id),
{
    assert(mark_received(mark_received(control, id), id) =~= mark_received(control, id));
}

} // verus!
