//! The client side of the SpacetimeDB websocket protocol: the address to
//! connect to, the queries that make up a room, the numbering of requests,
//! and the framing of the messages sent and received.
use spacetimedb_client_api_messages::websocket::common::QuerySetId;
use spacetimedb_client_api_messages::websocket::v2::{
    CallReducer, CallReducerFlags, ClientMessage, ServerMessage, Subscribe,
};
use spacetimedb_lib::bsatn;
use vstd::bytes::*;
use vstd::prelude::*;
use vstd::string::*;
use vstd::utf8::*;

use crate::compression::{decompress_server_message, spec_decompressed};
use crate::text::{decimal, lemma_decimal_u64, push_decimal};

verus! {

#[verifier::external_type_specification]
#[verifier::external_body]
pub struct ExServerMessage(ServerMessage);

/// The websocket address of a database's subscription endpoint.
pub open spec fn spec_subscribe_uri(host: Seq<char>, db_name: Seq<char>) -> Seq<char> {
    host + "/database/subscribe/"@ + db_name + "?client_address=0000000000000000"@
}

/// The websocket address of a database's subscription endpoint.
pub fn subscribe_uri(host: &str, db_name: &str) -> (s: String)
    ensures
        s@ == spec_subscribe_uri(host@, db_name@),
{
    let mut s = String::from_str(host);
    s.append("/database/subscribe/");
    s.append(db_name);
    s.append("?client_address=0000000000000000");
    s
}

/// The queries subscribing to a room: its elements, its cursors and its undo
/// entries.
pub open spec fn spec_room_queries(room_id: u64) -> Seq<Seq<char>> {
    seq![
        "SELECT * FROM element WHERE room_id = "@ + decimal(room_id as nat),
        "SELECT * FROM cursor WHERE room_id = "@ + decimal(room_id as nat),
        "SELECT * FROM undo_entry WHERE room_id = "@ + decimal(room_id as nat),
    ]
}

fn query_with_id(prefix: &str, id: u64) -> (s: String)
    requires
        is_ascii_chars(prefix@),
        prefix@.len() <= 64,
    ensures
        s@ == prefix@ + decimal(id as nat),
        encode_utf8(s@).len() <= 84,
{
    let mut s = String::from_str(prefix);
    push_decimal(&mut s, id);
    proof {
        lemma_decimal_u64(id);
        let d = decimal(id as nat);
        assert forall|i: int| 0 <= i < s@.len() implies '\0' <= #[trigger] s@[i] <= '\u{7f}' by {
            if i < prefix@.len() {
                assert(s@[i] == prefix@[i]);
            } else {
                assert(s@[i] == d[i - prefix@.len()]);
            }
        }
        is_ascii_chars_encode_utf8(s@);
    }
    s
}

/// The queries subscribing to a room.
pub fn room_queries(room_id: u64) -> (q: Vec<String>)
    ensures
        q@.map_values(|s: String| s@) == spec_room_queries(room_id),
        q@.len() == 3,
        forall|i: int| 0 <= i < q@.len() ==> encode_utf8(#[trigger] q@[i]@).len() <= u32::MAX,
{
    proof {
        reveal_strlit("SELECT * FROM element WHERE room_id = ");
        reveal_strlit("SELECT * FROM cursor WHERE room_id = ");
        reveal_strlit("SELECT * FROM undo_entry WHERE room_id = ");
    }
    let mut q: Vec<String> = Vec::new();
    q.push(query_with_id("SELECT * FROM element WHERE room_id = ", room_id));
    q.push(query_with_id("SELECT * FROM cursor WHERE room_id = ", room_id));
    q.push(query_with_id("SELECT * FROM undo_entry WHERE room_id = ", room_id));
    assert(q@.map_values(|s: String| s@) =~= spec_room_queries(room_id));
    q
}

/// A byte string as BSATN writes it: its length as a little-endian `u32`,
/// then the bytes.
pub open spec fn length_prefixed(b: Seq<u8>) -> Seq<u8> {
    spec_u32_to_le_bytes(b.len() as u32) + b
}

/// The strings of a list, each written as its length-prefixed UTF-8 bytes.
pub open spec fn prefixed_strings(qs: Seq<Seq<char>>) -> Seq<u8>
    decreases qs.len(),
{
    if qs.len() == 0 {
        Seq::empty()
    } else {
        prefixed_strings(qs.drop_last()) + length_prefixed(encode_utf8(qs.last()))
    }
}

/// The bytes `bsatn::to_vec` makes of a `ClientMessage::Subscribe` (variant
/// tag 0) with this request id, query-set id and these queries: the tag, the
/// two ids as little-endian `u32`s, the number of queries as one, then each
/// query length-prefixed.
pub open spec fn subscribe_message(request_id: u32, query_set_id: u32, queries: Seq<Seq<char>>) -> Seq<u8> {
    seq![0u8] + spec_u32_to_le_bytes(request_id) + spec_u32_to_le_bytes(query_set_id)
        + spec_u32_to_le_bytes(queries.len() as u32) + prefixed_strings(queries)
}

/// The bytes `bsatn::to_vec` makes of a `ClientMessage::CallReducer`
/// (variant tag 3) with this request id, the default flags (byte 0), this
/// reducer name and these argument bytes, the last two length-prefixed.
pub open spec fn call_reducer_message(request_id: u32, reducer: Seq<char>, args: Seq<u8>) -> Seq<u8> {
    seq![3u8] + spec_u32_to_le_bytes(request_id) + seq![0u8] + length_prefixed(encode_utf8(reducer))
        + length_prefixed(args)
}

/// What `bsatn::from_slice` makes of these bytes as a `ServerMessage`: the
/// message, or the text of its decoding error.
pub uninterp spec fn decoded_server_message(bytes: Seq<u8>) -> Result<ServerMessage, Seq<char>>;

/// `bsatn::to_vec` of a `ClientMessage::Subscribe`. BSATN encoding fails
/// only on a length that does not fit in a `u32`, which `requires` rules
/// out.
#[verifier::external_body]
fn encode_subscribe(request_id: u32, query_set_id: u32, queries: Vec<String>) -> (b: Vec<u8>)
    requires
        queries@.len() <= u32::MAX,
        forall|i: int| 0 <= i < queries@.len() ==> encode_utf8(#[trigger] queries@[i]@).len() <= u32::MAX,
    ensures
        b@ == subscribe_message(request_id, query_set_id, queries@.map_values(|s: String| s@)),
{
    let query_strings: Box<[Box<str>]> = queries.into_iter().map(String::into_boxed_str).collect();
    let msg = ClientMessage::Subscribe(
        Subscribe { request_id, query_set_id: QuerySetId::new(query_set_id), query_strings },
    );
    bsatn::to_vec(&msg).expect("BSATN encode ClientMessage")
}

/// `bsatn::to_vec` of a `ClientMessage::CallReducer` with the default flags.
/// BSATN encoding fails only on a length that does not fit in a `u32`,
/// which `requires` rules out.
#[verifier::external_body]
fn encode_call_reducer(request_id: u32, reducer: &str, args: Vec<u8>) -> (b: Vec<u8>)
    requires
        encode_utf8(reducer@).len() <= u32::MAX,
        args@.len() <= u32::MAX,
    ensures
        b@ == call_reducer_message(request_id, reducer@, args@),
{
    let msg = ClientMessage::CallReducer(
        CallReducer {
            request_id,
            flags: CallReducerFlags::Default,
            reducer: reducer.into(),
            args: args.into(),
        },
    );
    bsatn::to_vec(&msg).expect("BSATN encode ClientMessage")
}

/// `bsatn::from_slice` of a `ServerMessage`, its error shown as text: the
/// outcome is named.
#[verifier::external_body]
fn decode_server_message(bytes: &[u8]) -> (r: Result<ServerMessage, String>)
    ensures
        r is Ok <==> decoded_server_message(bytes@) is Ok,
        r matches Ok(m) ==> (decoded_server_message(bytes@) matches Ok(x) && x == m),
        r matches Err(t) ==> (decoded_server_message(bytes@) matches Err(x) && x == t@),
{
    match bsatn::from_slice(bytes) {
        Ok(m) => Ok(m),
        Err(e) => Err(e.to_string()),
    }
}

/// Turns a raw websocket frame into a server message: the compression is
/// undone, then the message decoded from exactly the bytes that gives. A
/// frame whose compression cannot be undone gives the decompression error.
pub fn parse_server_message(raw: &[u8]) -> (r: Result<ServerMessage, String>)
    ensures
        match spec_decompressed(raw@) {
            Ok(bytes) => match decoded_server_message(bytes) {
                Ok(m) => r matches Ok(n) && n == m,
                Err(t) => r matches Err(e) && e@ == "BSATN decode error: "@ + t,
            },
            Err(m) => r matches Err(e) && e@ == m,
        },
{
    let bytes = match decompress_server_message(raw) {
        Ok(b) => b,
        Err(e) => return Err(e),
    };
    match decode_server_message(bytes.as_slice()) {
        Ok(m) => Ok(m),
        Err(e) => {
            let mut s = String::from_str("BSATN decode error: ");
            s.append(e.as_str());
            Err(s)
        },
    }
}

/// The next request id and query-set id a connection hands out; both start
/// at 1 and wrap around.
pub struct RequestIds {
    pub next_request_id: u32,
    pub next_query_set_id: u32,
}

/// The id after `id`, wrapping around.
pub open spec fn following(id: u32) -> u32 {
    if id == u32::MAX {
        0
    } else {
        (id + 1) as u32
    }
}

/// `id` after `n` steps of [`following`]: the counter after `n` requests.
pub open spec fn advanced(id: u32, n: nat) -> u32
    decreases n,
{
    if n == 0 {
        id
    } else {
        following(advanced(id, (n - 1) as nat))
    }
}

/// On fresh counters, the request after `n` earlier ones (each a
/// `subscribe_room` or a `call_reducer`) gets the id `n + 1`, and so does
/// the subscription after `n` earlier subscriptions: ids count up 1, 2, 3, …
/// and no two of the first `u32::MAX` are equal.
pub proof fn law_request_ids_count_up(n: nat)
    requires
        n < u32::MAX,
    ensures
        advanced(1, n) == n + 1,
        forall|m: nat| m < n ==> advanced(1, m) < #[trigger] advanced(1, n),
    decreases n,
{
    if n > 0 {
        law_request_ids_count_up((n - 1) as nat);
    }
}

impl RequestIds {
    /// Fresh counters.
    pub fn new() -> (r: Self)
        ensures
            r.next_request_id == 1,
            r.next_query_set_id == 1,
    {
        RequestIds { next_request_id: 1, next_query_set_id: 1 }
    }

    /// Subscribes to a room: takes the next query-set id and request id, and
    /// frames a subscription to the room's queries. Returns the query-set id
    /// and the message.
    pub fn subscribe_room(&mut self, room_id: u64) -> (r: (u32, Vec<u8>))
        ensures
            r.0 == old(self).next_query_set_id,
            r.1@ == subscribe_message(old(self).next_request_id, old(self).next_query_set_id, spec_room_queries(room_id)),
            final(self).next_query_set_id == following(old(self).next_query_set_id),
            final(self).next_request_id == following(old(self).next_request_id),
    {
        let query_set_id = self.next_query_set_id;
        self.next_query_set_id = self.next_query_set_id.wrapping_add(1);
        let request_id = self.next_request_id;
        self.next_request_id = self.next_request_id.wrapping_add(1);
        let queries = room_queries(room_id);
        let msg = encode_subscribe(request_id, query_set_id, queries);
        (query_set_id, msg)
    }

    /// Calls a reducer: takes the next request id and frames the call.
    /// Returns the request id and the message.
    pub fn call_reducer(&mut self, name: &str, args: Vec<u8>) -> (r: (u32, Vec<u8>))
        requires
            encode_utf8(name@).len() <= u32::MAX,
            args@.len() <= u32::MAX,
        ensures
            r.0 == old(self).next_request_id,
            r.1@ == call_reducer_message(old(self).next_request_id, name@, args@),
            final(self).next_request_id == following(old(self).next_request_id),
            final(self).next_query_set_id == old(self).next_query_set_id,
    {
        let request_id = self.next_request_id;
        self.next_request_id = self.next_request_id.wrapping_add(1);
        let msg = encode_call_reducer(request_id, name, args);
        (request_id, msg)
    }
}

} // verus!
