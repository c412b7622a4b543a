//! What the gatekeeper reads from and writes to the shared store.

use vstd::arithmetic::div_mod::{lemma_fundamental_div_mod, lemma_mod_multiples_vanish};
use vstd::prelude::*;

use crate::command::{commands, CommandView, RedisCommand};
use crate::constants::DEFAULT_CAPACITY;
use crate::fields::{
    entry, field, fields_of, lemma_server_field_names, number_field, text_field, Fields,
};
use crate::redis_keys::{
    law_session_keys_distinct, server_key, server_key_text, session_key, session_key_text,
};
use crate::scripts::{
    after_reservation, can_reserve, counted_players, has_countable_players, reservation_reply,
    reserve_slot_text, stored_number,
};
use crate::store::{law_after_two, Store};
use crate::text::{
    decimal, i64_text, law_decimal_roundtrip, law_signed_decimal_roundtrip, pairs, parse_i64,
    signed_decimal, str_eq, u32_text, u64_text,
};

verus! {

// ---------------------------------------------------------------------------
// Server discovery
// ---------------------------------------------------------------------------
/// A server that a player can be sent to.
#[derive(Debug, Clone, PartialEq, Eq)]
pub struct ServerInfo {
    pub id: String,
    pub address: String,
    pub quic_port: u16,
    pub capacity: u32,
}

/// A server that a player can be sent to, with its texts as sequences of
/// characters.
pub struct ServerInfoView {
    pub id: Seq<char>,
    pub address: Seq<char>,
    pub quic_port: int,
    pub capacity: int,
}

impl View for ServerInfo {
    type V = ServerInfoView;

    open spec fn view(&self) -> ServerInfoView {
        ServerInfoView {
            id: self.id@,
            address: self.address@,
            quic_port: self.quic_port as int,
            capacity: self.capacity as int,
        }
    }
}

/// The players that a server's hash counts.
pub open spec fn player_count(hash: Map<Seq<char>, Seq<char>>) -> int {
    number_field(hash, "player_count"@, u32::MAX as int, 0)
}

/// The capacity that a server's hash gives.
pub open spec fn capacity(hash: Map<Seq<char>, Seq<char>>) -> int {
    number_field(hash, "capacity"@, u32::MAX as int, DEFAULT_CAPACITY as int)
}

/// What a player needs to know about the server with some id and hash.
pub open spec fn join_target(id: Seq<char>, hash: Map<Seq<char>, Seq<char>>) -> ServerInfoView {
    ServerInfoView {
        id,
        address: text_field(hash, "address"@),
        quic_port: number_field(hash, "quic_port"@, u16::MAX as int, 0),
        capacity: capacity(hash),
    }
}

/// Whether a player can join a server: it is ready and has room.
pub open spec fn is_joinable(hash: Map<Seq<char>, Seq<char>>) -> bool {
    text_field(hash, "status"@) == "ready"@ && player_count(hash) < capacity(hash)
}

/// Whether a reply describes the server to join: joinable, no other has more
/// players, and none before it has as many.
pub open spec fn is_best(replies: Seq<(String, Fields)>, i: int) -> bool {
    &&& 0 <= i < replies.len()
    &&& is_joinable(replies[i].1@)
    &&& forall|j: int|
        #![trigger replies[j]]
        0 <= j < replies.len() && is_joinable(replies[j].1@) ==> player_count(replies[j].1@)
            <= player_count(replies[i].1@)
    &&& forall|j: int|
        #![trigger replies[j]]
        0 <= j < i && is_joinable(replies[j].1@) ==> player_count(replies[j].1@) < player_count(
            replies[i].1@,
        )
}

fn joinable(fields: &Fields) -> (res: bool)
    ensures
        res == is_joinable(fields@),
{
    str_eq(fields.text("status").as_str(), "ready") && fields.number_u32("player_count", 0)
        < fields.number_u32("capacity", DEFAULT_CAPACITY)
}

/// Return the most-filled ready server that still has room, or `None` if all
/// servers are full / unavailable. Of equally filled ones it is the first, in
/// the order in which the store gave the ids.
///
/// Packing players onto the fullest server keeps a free standby shard open.
pub fn find_server_for_join(replies: &Vec<(String, Fields)>) -> (res: Option<ServerInfo>)
    ensures
        (match res {
            Some(server) => exists|i: int|
                #[trigger]
                is_best(replies@, i) && server@ == join_target(replies@[i].0@, replies@[i].1@),
            None => forall|i: int|
                0 <= i < replies@.len() ==> !is_joinable((#[trigger] replies@[i]).1@),
        }),
{
    let mut best: Option<usize> = None;
    let mut i: usize = 0;
    while i < replies.len()
        invariant
            i <= replies@.len(),
            (match best {
                Some(b) => is_best(replies@.take(i as int), b as int),
                None => forall|j: int|
                    0 <= j < i ==> !is_joinable((#[trigger] replies@[j]).1@),
            }),
        decreases replies@.len() - i,
    {
        let ghost before = replies@.take(i as int);
        let ghost now = replies@.take(i + 1);
        assert(forall|j: int| 0 <= j < i ==> before[j] == now[j]);
        if joinable(&replies[i].1) {
            best = match best {
                Some(b) => if replies[i].1.number_u32("player_count", 0) > replies[b].1.number_u32(
                    "player_count",
                    0,
                ) {
                    Some(i)
                } else {
                    Some(b)
                },
                None => Some(i),
            };
        }
        i = i + 1;
    }
    assert(replies@.take(replies@.len() as int) =~= replies@);
    match best {
        Some(b) => {
            let fields = &replies[b].1;
            let server = ServerInfo {
                id: replies[b].0.clone(),
                address: fields.text("address"),
                quic_port: fields.number_u16("quic_port", 0),
                capacity: fields.number_u32("capacity", DEFAULT_CAPACITY),
            };
            assert(is_best(replies@, b as int));
            Some(server)
        },
        None => None,
    }
}

/// There is never a choice: at most one reply describes the server to join.
pub proof fn law_best_is_unique(replies: Seq<(String, Fields)>, i: int, j: int)
    requires
        is_best(replies, i),
        is_best(replies, j),
    ensures
        i == j,
{
    if i < j {
        assert(player_count(replies[i].1@) < player_count(replies[j].1@));
    }
    if j < i {
        assert(player_count(replies[j].1@) < player_count(replies[i].1@));
    }
}

/// Packing players keeps a free shard open: an empty server is found only if no
/// server with players has room.
pub proof fn law_empty_server_is_last_resort(replies: Seq<(String, Fields)>, i: int, j: int)
    requires
        is_best(replies, i),
        player_count(replies[i].1@) == 0,
        0 <= j < replies.len(),
        player_count(replies[j].1@) > 0,
    ensures
        !is_joinable(replies[j].1@),
{
}

// ---------------------------------------------------------------------------
// Slot reservation
// ---------------------------------------------------------------------------
/// Atomic increment guarded by a capacity check.
pub const RESERVE_SLOT_SCRIPT: &'static str = r#"
local status = redis.call('HGET', KEYS[1], 'status')
if status ~= 'ready' then return 0 end
local count = tonumber(redis.call('HGET', KEYS[1], 'player_count') or '0')
if count >= tonumber(ARGV[1]) then return 0 end
redis.call('HINCRBY', KEYS[1], 'player_count', 1)
return 1
"#;

/// The command that reserves a slot on a server.
pub open spec fn reservation(server_id: Seq<char>, capacity: nat) -> CommandView {
    CommandView::Eval {
        script: reserve_slot_text(),
        key: server_key_text(server_id),
        arg: decimal(capacity),
    }
}

/// The store after a reservation was tried: on a ready server below capacity
/// one player more is counted, otherwise nothing changes.
pub open spec fn reserved(store: Store, server_id: Seq<char>, capacity: int) -> Store {
    let key = server_key_text(server_id);
    if can_reserve(store.hash(key), capacity) {
        Store {
            hashes: store.hashes.insert(key, after_reservation(store.hash(key), capacity)),
            ..store
        }
    } else {
        store
    }
}

/// Atomically increment `player_count` on the server if it is still ready and
/// below capacity. The store answers 1 where it did, and otherwise 0.
pub fn reserve_slot(server_id: &str, capacity: u32) -> (res: RedisCommand)
    ensures
        res@ == reservation(server_id@, capacity as nat),
        forall|store: Store|
            #![trigger store.after(res@)]
            #![trigger store.number_reply(res@)]
            store.after(res@) == reserved(store, server_id@, capacity as int)
                && store.number_reply(res@) == reservation_reply(
                store.hash(server_key_text(server_id@)),
                capacity as int,
            ),
{
    let res = RedisCommand::Eval {
        script: RESERVE_SLOT_SCRIPT.to_owned(),
        key: server_key(server_id),
        arg: u32_text(capacity),
    };
    proof {
        law_decimal_roundtrip(capacity as nat, u32::MAX as int);
    }
    res
}

/// Whether a slot was successfully reserved, from the reply to the script.
pub fn slot_reserved(reply: i64) -> (res: bool)
    ensures
        res == (reply == 1),
{
    reply == 1
}

/// The rule of the script, on the fields of one server: takes a slot if there
/// is one, and says whether it did.
pub fn take_slot(fields: &mut Fields, limit: u32) -> (res: bool)
    requires
        has_countable_players(old(fields)@),
    ensures
        res == can_reserve(old(fields)@, limit as int),
        final(fields)@ == after_reservation(old(fields)@, limit as int),
{
    if !str_eq(fields.text("status").as_str(), "ready") {
        return false;
    }
    let count: i64 = match fields.get("player_count") {
        Some(text) => match parse_i64(text.as_str()) {
            Some(n) => n,
            None => 0,
        },
        None => 0,
    };
    if count >= limit as i64 {
        return false;
    }
    fields.set("player_count".to_owned(), i64_text(count + 1));
    true
}

/// A reservation succeeds only on a ready server; one that succeeds counts
/// exactly one player more and does not lift the count over the capacity; one
/// that fails changes nothing.
pub proof fn law_reservations_keep_capacity(hash: Map<Seq<char>, Seq<char>>, limit: int)
    requires
        has_countable_players(hash),
        0 <= limit <= u32::MAX,
    ensures
        ({
            let after = after_reservation(hash, limit);
            &&& has_countable_players(after)
            &&& can_reserve(hash, limit) ==> text_field(hash, "status"@) == "ready"@
                && counted_players(after) == counted_players(hash) + 1 && counted_players(after)
                <= limit
            &&& !can_reserve(hash, limit) ==> after == hash
            &&& counted_players(hash) <= limit ==> counted_players(after) <= limit
        }),
{
    if can_reserve(hash, limit) {
        law_signed_decimal_roundtrip(counted_players(hash) + 1);
    }
}

/// The store after a number of reservations were tried on a server, and how
/// many of them were answered with 1.
pub open spec fn after_tries(
    store: Store,
    server_id: Seq<char>,
    capacity: nat,
    tries: nat,
) -> (Store, nat)
    decreases tries,
{
    if tries == 0 {
        (store, 0)
    } else {
        let (before, successes) = after_tries(store, server_id, capacity, (tries - 1) as nat);
        let command = reservation(server_id, capacity);
        (
            before.after(command),
            if before.number_reply(command) == Some(1int) {
                successes + 1
            } else {
                successes
            },
        )
    }
}

/// Of any number of reservations tried on a ready server, exactly as many
/// succeed as there was room for. The players counted afterwards are those from
/// before and one for each success, and nothing else in the store changed.
pub proof fn law_reservations_fill_up(
    store: Store,
    server_id: Seq<char>,
    capacity: nat,
    tries: nat,
)
    requires
        has_countable_players(store.hash(server_key_text(server_id))),
        text_field(store.hash(server_key_text(server_id)), "status"@) == "ready"@,
        counted_players(store.hash(server_key_text(server_id))) <= capacity <= u32::MAX,
    ensures
        ({
            let key = server_key_text(server_id);
            let before = counted_players(store.hash(key));
            let (after, successes) = after_tries(store, server_id, capacity, tries);
            &&& successes == if tries <= capacity - before {
                tries as int
            } else {
                capacity - before
            }
            &&& counted_players(after.hash(key)) == before + successes <= capacity
            &&& after == if successes == 0 {
                store
            } else {
                Store {
                    hashes: store.hashes.insert(
                        key,
                        store.hash(key).insert("player_count"@, signed_decimal(before + successes)),
                    ),
                    ..store
                }
            }
        }),
    decreases tries,
{
    let key = server_key_text(server_id);
    let hash = store.hash(key);
    let before = counted_players(hash);
    law_decimal_roundtrip(capacity, u32::MAX as int);
    lemma_server_field_names();
    if tries > 0 {
        let (mid, successes) = after_tries(store, server_id, capacity, (tries - 1) as nat);
        law_reservations_fill_up(store, server_id, capacity, (tries - 1) as nat);
        law_signed_decimal_roundtrip(before + successes);
        law_signed_decimal_roundtrip(before + successes + 1);
        let after = after_tries(store, server_id, capacity, tries).0;
        if before + successes < capacity {
            assert(can_reserve(mid.hash(key), capacity as int));
            assert(after.hash(key) =~= hash.insert(
                "player_count"@,
                signed_decimal(before + successes + 1),
            ));
            assert(after.hashes =~= store.hashes.insert(
                key,
                hash.insert("player_count"@, signed_decimal(before + successes + 1)),
            ));
        }
    }
}

/// A server whose status was set to anything but `ready` gets no players: it is
/// not found, and no slot on it can be reserved, even by a player who found it
/// before.
pub proof fn law_unready_server_gets_no_players(
    store: Store,
    server_id: Seq<char>,
    status: Seq<char>,
    limit: int,
)
    requires
        status != "ready"@,
    ensures
        ({
            let key = server_key_text(server_id);
            let hash = store.after(
                CommandView::HSet { key, fields: seq![("status"@, status)] },
            ).hash(key);
            !is_joinable(hash) && !can_reserve(hash, limit)
        }),
{
    let w = seq![("status"@, status)];
    assert(w.drop_last() =~= Seq::empty());
    assert(fields_of(w.drop_last()) =~= Map::empty());
    assert(fields_of(w) =~= Map::empty().insert("status"@, status));
}

// ---------------------------------------------------------------------------
// Session management
// ---------------------------------------------------------------------------
/// The command that draws the next value of the counter of player IDs.
pub open spec fn id_draw() -> CommandView {
    CommandView::Incr { key: "player:id_counter"@, by: 1 }
}

/// Allocate a monotonically-increasing player ID.
pub fn next_player_id() -> (res: RedisCommand)
    ensures
        res@ == id_draw(),
{
    RedisCommand::Incr { key: "player:id_counter".to_owned(), by: 1 }
}

/// The player ID that a value of the counter stands for: its lower 32 bits.
pub open spec fn counter_player_id(counter: int) -> int {
    counter % 0x1_0000_0000
}

/// The player ID from the reply of the counter.
pub fn player_id_from_counter(counter: i64) -> (res: u32)
    ensures
        res == counter_player_id(counter as int),
{
    let low: u32 = #[verifier::truncate]
    (counter as u32);
    proof {
        let wide: u64 = #[verifier::truncate]
        (counter as u64);
        assert(low == wide % 0x1_0000_0000) by (bit_vector)
            requires
                low == counter as u32,
                wide == counter as u64,
        ;
        assert(counter >= 0 ==> wide == counter) by (bit_vector)
            requires
                wide == counter as u64,
        ;
        assert(counter < 0 ==> wide == counter + 0x1_0000_0000_0000_0000) by (bit_vector)
            requires
                wide == counter as u64,
        ;
        if counter < 0 {
            lemma_mod_multiples_vanish(0x1_0000_0000, counter as int, 0x1_0000_0000);
        }
    }
    low
}

/// Players whose counter values lie less than 2^32 apart have different IDs.
pub proof fn law_player_ids_distinct(a: int, b: int)
    requires
        a < b < a + 0x1_0000_0000,
    ensures
        counter_player_id(a) != counter_player_id(b),
{
    let m: int = 0x1_0000_0000;
    lemma_fundamental_div_mod(a, m);
    lemma_fundamental_div_mod(b, m);
    assert(a % m == b % m ==> m * (b / m - a / m) == b - a) by (nonlinear_arith)
        requires
            a == m * (a / m) + a % m,
            b == m * (b / m) + b % m,
    ;
    let q = b / m - a / m;
    assert(m * q < m && m * q > 0 ==> false) by (nonlinear_arith)
        requires
            m == 0x1_0000_0000,
    ;
}

/// Player IDs increase with the counter, as long as it fits into 32 bits.
pub proof fn law_player_ids_increase(a: int, b: int)
    requires
        0 <= a < b <= u32::MAX,
    ensures
        counter_player_id(a) < counter_player_id(b),
{
}

/// Of two players the one who came later has the greater ID: a draw after which
/// nobody lowered the counter is followed only by greater ones. The values drawn
/// always increase, and so do the IDs made from them as long as the counter fits
/// into 32 bits.
pub proof fn law_next_player_id_increases(store: Store, later: Store)
    requires
        store.number_reply(id_draw()) is Some,
        later.number_reply(id_draw()) is Some,
        stored_number(store.after(id_draw()).text("player:id_counter"@)) <= stored_number(
            later.text("player:id_counter"@),
        ),
    ensures
        ({
            let first = store.number_reply(id_draw())->Some_0;
            let second = later.number_reply(id_draw())->Some_0;
            &&& first < second
            &&& 0 <= first && second <= u32::MAX ==> counter_player_id(first)
                < counter_player_id(second)
        }),
{
    let counter = "player:id_counter"@;
    let first = stored_number(store.text(counter)) + 1;
    let second = stored_number(later.text(counter)) + 1;
    law_signed_decimal_roundtrip(first);
    law_signed_decimal_roundtrip(second);
}

/// How long a session lasts, in seconds.
pub const SESSION_TTL_SECS: u64 = 3600;

/// The fields of a session.
pub open spec fn session_fields(
    server_id: Seq<char>,
    player_id: nat,
    expires_at: nat,
) -> Seq<(Seq<char>, Seq<char>)> {
    seq![
        ("server_id"@, server_id),
        ("player_id"@, decimal(player_id)),
        ("expires_at"@, decimal(expires_at)),
    ]
}

/// The commands that store a session.
pub open spec fn session_commands(
    token: Seq<char>,
    server_id: Seq<char>,
    player_id: nat,
    expires_at: nat,
) -> Seq<CommandView> {
    seq![
        CommandView::HSet {
            key: session_key_text(token),
            fields: session_fields(server_id, player_id, expires_at),
        },
        CommandView::Expire { key: session_key_text(token), seconds: SESSION_TTL_SECS as int },
    ]
}

/// Store `session:{token}` with a 1-hour TTL. The time is in seconds since the
/// epoch.
pub fn store_session(token: &str, server_id: &str, player_id: u32, now_secs: u64) -> (res: Vec<
    RedisCommand,
>)
    requires
        now_secs + SESSION_TTL_SECS <= u64::MAX,
    ensures
        commands(res@) == session_commands(
            token@,
            server_id@,
            player_id as nat,
            (now_secs + SESSION_TTL_SECS) as nat,
        ),
{
    let expires_at: u64 = now_secs + SESSION_TTL_SECS;
    let mut fields: Vec<(String, String)> = Vec::new();
    fields.push(entry("server_id", server_id));
    fields.push(entry("player_id", u32_text(player_id).as_str()));
    fields.push(entry("expires_at", u64_text(expires_at).as_str()));
    assert(pairs(fields@) =~= session_fields(server_id@, player_id as nat, expires_at as nat));
    let mut res: Vec<RedisCommand> = Vec::new();
    res.push(RedisCommand::HSet { key: session_key(token), fields });
    res.push(RedisCommand::Expire { key: session_key(token), seconds: 3600 });
    assert(commands(res@) =~= session_commands(
        token@,
        server_id@,
        player_id as nat,
        expires_at as nat,
    ));
    res
}

/// What a session's hash says: the server and the player, if there is a
/// session.
pub open spec fn session(hash: Map<Seq<char>, Seq<char>>) -> Option<(Seq<char>, int)> {
    match field(hash, "server_id"@) {
        Some(server_id) => Some(
            (server_id, number_field(hash, "player_id"@, u32::MAX as int, 0)),
        ),
        None => None,
    }
}

/// Asks for the session of a token.
pub fn session_query(token: &str) -> (res: RedisCommand)
    ensures
        res@ == (CommandView::HGetAll { key: session_key_text(token@) }),
{
    RedisCommand::HGetAll { key: session_key(token) }
}

/// Look up a session token and return `(server_id, player_id)` if it exists,
/// from the fields of its hash.
pub fn validate_token(fields: &Fields) -> (res: Option<(String, u32)>)
    ensures
        (match res {
            Some(found) => session(fields@) == Some((found.0@, found.1 as int)),
            None => session(fields@) is None,
        }),
{
    match fields.get("server_id") {
        Some(server_id) => Some((server_id, fields.number_u32("player_id", 0))),
        None => None,
    }
}

/// What is read from a server's hash when a player is to be sent somewhere:
/// numbers as they were written, 0 players and room for 128 where nothing was,
/// and the address and port as they stand.
pub proof fn law_join_fields(
    id: Seq<char>,
    hash: Map<Seq<char>, Seq<char>>,
    players: nat,
    room: nat,
    port: nat,
)
    requires
        players <= u32::MAX,
        room <= u32::MAX,
        port <= u16::MAX,
    ensures
        !hash.contains_key("player_count"@) ==> player_count(hash) == 0,
        !hash.contains_key("capacity"@) ==> capacity(hash) == 128,
        hash.contains_key("player_count"@) && hash["player_count"@] == decimal(players)
            ==> player_count(hash) == players,
        hash.contains_key("capacity"@) && hash["capacity"@] == decimal(room) ==> capacity(hash)
            == room,
        join_target(id, hash).id == id,
        join_target(id, hash).capacity == capacity(hash),
        hash.contains_key("address"@) ==> join_target(id, hash).address == hash["address"@],
        !hash.contains_key("address"@) ==> join_target(id, hash).address.len() == 0,
        hash.contains_key("quic_port"@) && hash["quic_port"@] == decimal(port) ==> join_target(
            id,
            hash,
        ).quic_port == port,
        !hash.contains_key("quic_port"@) ==> join_target(id, hash).quic_port == 0,
{
    law_decimal_roundtrip(players, u32::MAX as int);
    law_decimal_roundtrip(room, u32::MAX as int);
    law_decimal_roundtrip(port, u16::MAX as int);
}

/// Players can join exactly the servers whose status is `ready` and that count
/// fewer players than their capacity, be it one fewer.
pub proof fn law_joinable(hash: Map<Seq<char>, Seq<char>>)
    ensures
        is_joinable(hash) <==> hash.contains_key("status"@) && hash["status"@] == "ready"@
            && player_count(hash) < capacity(hash),
{
    reveal_strlit("ready");
    assert("ready"@.len() == 5);
}

/// As long as one server is ready and has room, a server is found, and it is one
/// of those with the most players among them.
pub proof fn law_server_is_found(replies: Seq<(String, Fields)>, j: int)
    requires
        0 <= j < replies.len(),
        replies[j].1@.contains_key("status"@),
        replies[j].1@["status"@] == "ready"@,
        player_count(replies[j].1@) < capacity(replies[j].1@),
    ensures
        exists|i: int| is_best(replies, i),
        forall|i: int| #[trigger]
            is_best(replies, i) ==> 0 <= i < replies.len() && player_count(replies[j].1@)
                <= player_count(replies[i].1@) < capacity(replies[i].1@)
                && replies[i].1@.contains_key("status"@) && replies[i].1@["status"@] == "ready"@,
{
    law_joinable(replies[j].1@);
    lemma_best_exists(replies, j, replies.len() as int);
    assert(replies.take(replies.len() as int) =~= replies);
    assert forall|i: int| #[trigger] is_best(replies, i) implies 0 <= i < replies.len()
        && player_count(replies[j].1@) <= player_count(replies[i].1@) < capacity(replies[i].1@)
        && replies[i].1@.contains_key("status"@) && replies[i].1@["status"@] == "ready"@ by {
        law_joinable(replies[i].1@);
    }
}

proof fn lemma_best_exists(replies: Seq<(String, Fields)>, j: int, n: int)
    requires
        0 <= j < n <= replies.len(),
        is_joinable(replies[j].1@),
    ensures
        exists|i: int| is_best(replies.take(n), i),
    decreases n,
{
    let now = replies.take(n);
    let before = replies.take(n - 1);
    let last = replies[n - 1];
    assert(forall|k: int| 0 <= k < n - 1 ==> now[k] == before[k]);
    assert(now[n - 1] == last);
    if exists|m: int| 0 <= m < n - 1 && is_joinable((#[trigger] replies[m]).1@) {
        let m = choose|m: int| 0 <= m < n - 1 && is_joinable((#[trigger] replies[m]).1@);
        lemma_best_exists(replies, m, n - 1);
        let b = choose|b: int| is_best(before, b);
        if is_joinable(last.1@) && player_count(last.1@) > player_count(before[b].1@) {
            assert(is_best(now, n - 1));
        } else {
            assert(is_best(now, b));
        }
    } else {
        assert(j == n - 1);
        assert forall|k: int| 0 <= k < n - 1 implies !is_joinable((#[trigger] now[k]).1@) by {
            assert(now[k] == replies[k]);
        }
        assert(is_best(now, n - 1));
    }
}

/// Of servers that are equally full the first is found.
pub proof fn law_first_of_equals(replies: Seq<(String, Fields)>, i: int, j: int)
    requires
        is_best(replies, i),
        0 <= j < replies.len(),
        j != i,
        is_joinable(replies[j].1@),
        player_count(replies[j].1@) == player_count(replies[i].1@),
    ensures
        i < j,
{
}

/// The rule of a reservation on a server's fields: it succeeds on a ready server
/// that counts fewer players than the limit, and then only the count changes, by
/// one.
pub proof fn law_slot(hash: Map<Seq<char>, Seq<char>>, limit: int, players: nat)
    requires
        0 <= limit <= u32::MAX,
        players <= u32::MAX,
    ensures
        ({
            let ready = hash.contains_key("status"@) && hash["status"@] == "ready"@;
            let counts = (hash.contains_key("player_count"@) && hash["player_count"@] == decimal(
                players,
            )) || (!hash.contains_key("player_count"@) && players == 0);
            &&& counts ==> has_countable_players(hash)
            &&& counts ==> reservation_reply(hash, limit) == Some(
                if ready && players < limit {
                    1int
                } else {
                    0
                },
            )
            &&& !ready ==> !can_reserve(hash, limit)
            &&& ready && counts ==> (can_reserve(hash, limit) <==> players < limit)
            &&& !can_reserve(hash, limit) ==> after_reservation(hash, limit) == hash
            &&& can_reserve(hash, limit) && counts ==> after_reservation(hash, limit)
                == hash.insert("player_count"@, decimal(players + 1))
        }),
{
    reveal_strlit("ready");
    assert("ready"@.len() == 5);
    law_signed_decimal_roundtrip(players as int);
}

/// A reservation on a ready server that counts some players succeeds exactly if
/// that is below the capacity, and then one more is counted. On a server that is
/// not ready, or is not known, it does not succeed. Without success the store is
/// as it was.
pub proof fn law_reservation(store: Store, server_id: Seq<char>, capacity: nat, players: nat)
    requires
        capacity <= u32::MAX,
        players <= u32::MAX,
    ensures
        ({
            let key = "server:"@ + server_id;
            let hash = store.hash(key);
            let command = reservation(server_id, capacity);
            let after = store.after(command);
            let ready = hash.contains_key("status"@) && hash["status"@] == "ready"@;
            let counts = (hash.contains_key("player_count"@) && hash["player_count"@] == decimal(
                players,
            )) || (!hash.contains_key("player_count"@) && players == 0);
            &&& !ready ==> store.number_reply(command) == Some(0int) && after == store
            &&& ready && counts && players >= capacity ==> store.number_reply(command) == Some(0int)
                && after == store
            &&& ready && counts && players < capacity ==> store.number_reply(command) == Some(1int)
                && after == Store {
                hashes: store.hashes.insert(
                    key,
                    hash.insert("player_count"@, decimal(players + 1)),
                ),
                ..store
            }
        }),
{
    reveal_strlit("ready");
    law_decimal_roundtrip(capacity, u32::MAX as int);
    law_signed_decimal_roundtrip(players as int);
}

/// A session is written for one hour: its server, its player and when it ends.
pub proof fn law_session_commands(
    token: Seq<char>,
    server_id: Seq<char>,
    player_id: nat,
    expires_at: nat,
)
    ensures
        session_commands(token, server_id, player_id, expires_at) == seq![
            CommandView::HSet {
                key: "session:"@ + token,
                fields: seq![
                    ("server_id"@, server_id),
                    ("player_id"@, decimal(player_id)),
                    ("expires_at"@, decimal(expires_at)),
                ],
            },
            CommandView::Expire { key: "session:"@ + token, seconds: 3600 },
        ],
{
}

/// A session is there exactly if its hash names a server; the player is the one
/// that was written, and 0 where none was.
pub proof fn law_session(hash: Map<Seq<char>, Seq<char>>, player_id: nat)
    requires
        player_id <= u32::MAX,
    ensures
        session(hash) is Some <==> hash.contains_key("server_id"@),
        session(hash) matches Some(found) ==> found.0 == hash["server_id"@],
        session(hash) matches Some(found) ==> (hash.contains_key("player_id"@) && hash["player_id"@]
            == decimal(player_id) ==> found.1 == player_id) && (!hash.contains_key("player_id"@)
            ==> found.1 == 0),
{
    law_decimal_roundtrip(player_id, u32::MAX as int);
}

/// The ID of a player is the value drawn from the counter, as long as that fits
/// into 32 bits; from then on IDs come again in the same order.
pub proof fn law_player_id_is_counter(counter: int)
    ensures
        0 <= counter <= u32::MAX ==> counter_player_id(counter) == counter,
        counter_player_id(counter + 0x1_0000_0000) == counter_player_id(counter),
        0 <= counter_player_id(counter) <= u32::MAX,
        id_draw() == (CommandView::Incr { key: "player:id_counter"@, by: 1 }),
{
}

/// Storing a session writes its hash, from which it reads back, and its expiry,
/// and nothing else.
pub proof fn law_session_stored(
    store: Store,
    token: Seq<char>,
    server_id: Seq<char>,
    player_id: nat,
    expires_at: nat,
)
    requires
        player_id <= u32::MAX,
    ensures
        ({
            let key = session_key_text(token);
            let after = store.after_all(session_commands(token, server_id, player_id, expires_at));
            &&& session(after.hash(key)) == Some((server_id, player_id as int))
            &&& after.hashes == store.hashes.insert(key, after.hash(key))
            &&& after.ttls == store.ttls.insert(key, SESSION_TTL_SECS as int)
            &&& after.sets == store.sets
            &&& after.texts == store.texts
        }),
{
    let writes = session_fields(server_id, player_id, expires_at);
    let list = session_commands(token, server_id, player_id, expires_at);
    law_after_two(store, list[0], list[1]);
    assert(list =~= seq![list[0], list[1]]);
    reveal_strlit("server_id");
    reveal_strlit("player_id");
    reveal_strlit("expires_at");
    assert("server_id"@[0] == 's');
    assert("player_id"@[0] == 'p');
    assert("expires_at"@.len() == 10);
    let w2 = writes.drop_last();
    let w1 = w2.drop_last();
    assert(w1.drop_last() =~= Seq::empty());
    assert(fields_of(w1.drop_last()) =~= Map::empty());
    assert(fields_of(w1) =~= Map::empty().insert("server_id"@, server_id));
    assert(fields_of(w2) =~= fields_of(w1).insert("player_id"@, decimal(player_id)));
    assert(fields_of(writes) =~= fields_of(w2).insert("expires_at"@, decimal(expires_at)));
    law_decimal_roundtrip(player_id, u32::MAX as int);
    let written = store.after(list[0]);
    assert(written.hash(session_key_text(token)).contains_key("server_id"@));
    assert(written.holds(session_key_text(token)));
}

/// A stored session reads back: its token is valid for the server and the
/// player it was stored for.
pub proof fn law_session_roundtrip(
    store: Store,
    token: Seq<char>,
    server_id: Seq<char>,
    player_id: nat,
    expires_at: nat,
)
    requires
        player_id <= u32::MAX,
    ensures
        session(
            store.after_all(session_commands(token, server_id, player_id, expires_at)).hash(
                session_key_text(token),
            ),
        ) == Some((server_id, player_id as int)),
{
    law_session_stored(store, token, server_id, player_id, expires_at);
}

/// A session lasts for an hour: a stored token is valid until then, and from
/// then on it is not.
pub proof fn law_session_expires(
    store: Store,
    token: Seq<char>,
    server_id: Seq<char>,
    player_id: nat,
    expires_at: nat,
    seconds: int,
)
    requires
        player_id <= u32::MAX,
        0 <= seconds,
    ensures
        ({
            let after = store.after_all(session_commands(token, server_id, player_id, expires_at));
            session(after.later(seconds).hash(session_key_text(token))) == if seconds
                < SESSION_TTL_SECS {
                Some((server_id, player_id as int))
            } else {
                None
            }
        }),
{
    law_session_stored(store, token, server_id, player_id, expires_at);
    let key = session_key_text(token);
    let after = store.after_all(session_commands(token, server_id, player_id, expires_at));
    assert(after.hashes.contains_key(key));
    assert(after.ttls[key] == SESSION_TTL_SECS);
}

/// Storing a session leaves every other one as it was, how long it lasts
/// included, and changes nothing else in the store.
pub proof fn law_session_leaves_others(
    store: Store,
    token: Seq<char>,
    server_id: Seq<char>,
    player_id: nat,
    expires_at: nat,
    other: Seq<char>,
    seconds: int,
)
    requires
        player_id <= u32::MAX,
        other != token,
    ensures
        ({
            let after = store.after_all(session_commands(token, server_id, player_id, expires_at));
            let key = session_key_text(other);
            &&& session(after.hash(key)) == session(store.hash(key))
            &&& session(after.later(seconds).hash(key)) == session(store.later(seconds).hash(key))
            &&& forall|k: Seq<char>|
                k != session_key_text(token) ==> after.hash(k) == #[trigger] store.hash(k)
            &&& after.sets == store.sets
            &&& after.texts == store.texts
        }),
{
    law_session_stored(store, token, server_id, player_id, expires_at);
    law_session_keys_distinct(token, other);
    let after = store.after_all(session_commands(token, server_id, player_id, expires_at));
    let key = session_key_text(other);
    assert(after.expires_within(key, seconds) == store.expires_within(key, seconds));
    assert(after.later(seconds).hash(key) == store.later(seconds).hash(key));
}

} // verus!
