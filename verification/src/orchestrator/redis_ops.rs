//! What the orchestrator reads from and writes to the shared store.

use vstd::prelude::*;

use crate::command::{commands, single, CommandView, RedisCommand};
use crate::constants::DEFAULT_CAPACITY;
use crate::fields::{
    entry, field, fields_of, lemma_server_field_names, number_field, text_field, Fields,
};
use crate::redis_keys::{
    active_servers_key, active_servers_key_text, law_key_kinds_disjoint, law_server_keys_distinct,
    server_key, server_key_text, standby_server_key, standby_server_key_text,
};
use crate::scripts::{clear_if_text, lemma_scripts_differ};
use crate::store::{law_after_one, law_after_three, Store};
use crate::text::{
    decimal, law_decimal_roundtrip, opt_text, pairs, str_eq, u16_text, u32_text,
};

verus! {

// ---------------------------------------------------------------------------
// Server info
// ---------------------------------------------------------------------------
/// What the store says about one game server.
#[derive(Debug, Clone, PartialEq, Eq)]
pub struct ServerInfo {
    pub id: String,
    pub container_id: String,
    pub address: String,
    /// Internal hostname used by the orchestrator for health checks.
    pub internal_addr: String,
    pub quic_port: u16,
    pub player_count: u32,
    pub capacity: u32,
    pub status: String,
}

/// A server's info, with its texts as sequences of characters.
pub struct ServerInfoView {
    pub id: Seq<char>,
    pub container_id: Seq<char>,
    pub address: Seq<char>,
    pub internal_addr: Seq<char>,
    pub quic_port: int,
    pub player_count: int,
    pub capacity: int,
    pub status: Seq<char>,
}

impl View for ServerInfo {
    type V = ServerInfoView;

    open spec fn view(&self) -> ServerInfoView {
        ServerInfoView {
            id: self.id@,
            container_id: self.container_id@,
            address: self.address@,
            internal_addr: self.internal_addr@,
            quic_port: self.quic_port as int,
            player_count: self.player_count as int,
            capacity: self.capacity as int,
            status: self.status@,
        }
    }
}

/// A list of servers.
pub open spec fn infos(v: Seq<ServerInfo>) -> Seq<ServerInfoView> {
    v.map_values(|s: ServerInfo| s@)
}

/// What the fields of a server hash say about the server.
pub open spec fn server_info(id: Seq<char>, hash: Map<Seq<char>, Seq<char>>) -> ServerInfoView {
    ServerInfoView {
        id,
        container_id: text_field(hash, "container_id"@),
        address: text_field(hash, "address"@),
        internal_addr: match field(hash, "internal_addr"@) {
            Some(addr) => addr,
            None => text_field(hash, "address"@),
        },
        quic_port: number_field(hash, "quic_port"@, u16::MAX as int, 0),
        player_count: number_field(hash, "player_count"@, u32::MAX as int, 0),
        capacity: number_field(hash, "capacity"@, u32::MAX as int, DEFAULT_CAPACITY as int),
        status: text_field(hash, "status"@),
    }
}

/// Replies to the queries for the servers' hashes.
pub open spec fn replies_view(v: Seq<(String, Fields)>) -> Seq<
    (Seq<char>, Map<Seq<char>, Seq<char>>),
> {
    v.map_values(|r: (String, Fields)| (r.0@, r.1@))
}

/// The servers that the replies describe, in order; an id whose hash has no
/// field is left out.
pub open spec fn listed(
    replies: Seq<(Seq<char>, Map<Seq<char>, Seq<char>>)>,
) -> Seq<ServerInfoView>
    decreases replies.len(),
{
    if replies.len() == 0 {
        Seq::empty()
    } else {
        let rest = listed(replies.drop_last());
        let (id, hash) = replies.last();
        if hash == Map::<Seq<char>, Seq<char>>::empty() {
            rest
        } else {
            rest.push(server_info(id, hash))
        }
    }
}

/// Reads the fields of one server.
pub fn parse_server(id: String, fields: &Fields) -> (res: ServerInfo)
    ensures
        res@ == server_info(id@, fields@),
{
    ServerInfo {
        id,
        container_id: fields.text("container_id"),
        address: fields.text("address"),
        internal_addr: match fields.get("internal_addr") {
            Some(addr) => addr,
            None => fields.text("address"),
        },
        quic_port: fields.number_u16("quic_port", 0),
        player_count: fields.number_u32("player_count", 0),
        capacity: fields.number_u32("capacity", DEFAULT_CAPACITY),
        status: fields.text("status"),
    }
}

/// Return all servers in the active set with their full info: the ids in the
/// order in which the store gave them, each with the fields of its hash.
pub fn list_active_servers(replies: &Vec<(String, Fields)>) -> (res: Vec<ServerInfo>)
    ensures
        infos(res@) == listed(replies_view(replies@)),
{
    let mut out: Vec<ServerInfo> = Vec::new();
    let ghost all = replies_view(replies@);
    let mut i: usize = 0;
    assert(infos(out@) =~= listed(all.take(0)));
    while i < replies.len()
        invariant
            i <= replies@.len(),
            all == replies_view(replies@),
            infos(out@) == listed(all.take(i as int)),
        decreases replies@.len() - i,
    {
        let ghost before = out@;
        proof {
            assert(all.take(i + 1).drop_last() =~= all.take(i as int));
            assert(all.take(i + 1).last() == (replies@[i as int].0@, replies@[i as int].1@));
        }
        if !replies[i].1.is_empty() {
            out.push(parse_server(replies[i].0.clone(), &replies[i].1));
            assert(infos(out@) =~= infos(before).push(out@.last()@));
        }
        i = i + 1;
    }
    assert(all.take(replies@.len() as int) =~= all);
    out
}

// ---------------------------------------------------------------------------
// Standby management
// ---------------------------------------------------------------------------
/// The designated standby server, from the text under its key.
pub open spec fn standby(value: Option<Seq<char>>) -> Option<Seq<char>> {
    match value {
        Some(id) => if id.len() == 0 {
            None
        } else {
            Some(id)
        },
        None => None,
    }
}

/// Asks for the designated standby server.
pub fn standby_query() -> (res: RedisCommand)
    ensures
        res@ == (CommandView::GetValue { key: standby_server_key_text() }),
{
    RedisCommand::GetValue { key: standby_server_key().to_owned() }
}

/// Return the ID of the designated standby server, or `None`.
pub fn get_standby(value: Option<String>) -> (res: Option<String>)
    ensures
        opt_text(res) == standby(opt_text(value)),
{
    match value {
        Some(id) => if id.as_str().is_empty() {
            None
        } else {
            Some(id)
        },
        None => None,
    }
}

/// Tag a server as the active standby.
pub fn set_standby(server_id: &str) -> (res: RedisCommand)
    ensures
        res@ == (CommandView::SetValue { key: standby_server_key_text(), value: server_id@ }),
{
    RedisCommand::SetValue { key: standby_server_key().to_owned(), value: server_id.to_owned() }
}

// ---------------------------------------------------------------------------
// Server registration
// ---------------------------------------------------------------------------
/// The fields that a new server starts with.
pub open spec fn registration_fields(
    container_id: Seq<char>,
    address: Seq<char>,
    internal_addr: Seq<char>,
    quic_port: nat,
    capacity: nat,
) -> Seq<(Seq<char>, Seq<char>)> {
    seq![
        ("container_id"@, container_id),
        ("address"@, address),
        ("internal_addr"@, internal_addr),
        ("quic_port"@, decimal(quic_port)),
        ("capacity"@, decimal(capacity)),
        ("player_count"@, "0"@),
        ("status"@, "starting"@),
    ]
}

/// The commands that register a new server.
pub open spec fn registration(
    server_id: Seq<char>,
    container_id: Seq<char>,
    address: Seq<char>,
    internal_addr: Seq<char>,
    quic_port: nat,
    capacity: nat,
) -> Seq<CommandView> {
    seq![
        CommandView::HSet {
            key: server_key_text(server_id),
            fields: registration_fields(container_id, address, internal_addr, quic_port, capacity),
        },
    ]
}

/// Registers a server that is about to start. It joins the active set by
/// itself, when it is ready.
pub fn register_server(
    server_id: &str,
    container_id: &str,
    address: &str,
    internal_addr: &str,
    quic_port: u16,
    capacity: u32,
) -> (res: Vec<RedisCommand>)
    ensures
        commands(res@) == registration(
            server_id@,
            container_id@,
            address@,
            internal_addr@,
            quic_port as nat,
            capacity as nat,
        ),
{
    let mut fields: Vec<(String, String)> = Vec::new();
    fields.push(entry("container_id", container_id));
    fields.push(entry("address", address));
    fields.push(entry("internal_addr", internal_addr));
    fields.push(entry("quic_port", u16_text(quic_port).as_str()));
    fields.push(entry("capacity", u32_text(capacity).as_str()));
    fields.push(entry("player_count", "0"));
    fields.push(entry("status", "starting"));
    assert(pairs(fields@) =~= registration_fields(
        container_id@,
        address@,
        internal_addr@,
        quic_port as nat,
        capacity as nat,
    ));
    single(RedisCommand::HSet { key: server_key(server_id), fields })
}

/// The command that writes one field of a server hash.
pub open spec fn field_update(
    server_id: Seq<char>,
    name: Seq<char>,
    value: Seq<char>,
) -> CommandView {
    CommandView::HSet { key: server_key_text(server_id), fields: seq![(name, value)] }
}

/// Writes one field of a server hash.
pub fn set_field(server_id: &str, name: &str, value: &str) -> (res: RedisCommand)
    ensures
        res@ == field_update(server_id@, name@, value@),
{
    let mut fields: Vec<(String, String)> = Vec::new();
    fields.push(entry(name, value));
    assert(pairs(fields@) =~= seq![(name@, value@)]);
    RedisCommand::HSet { key: server_key(server_id), fields }
}

/// Update the status field of a server hash.
pub fn set_status(server_id: &str, status: &str) -> (res: RedisCommand)
    ensures
        res@ == field_update(server_id@, "status"@, status@),
{
    set_field(server_id, "status", status)
}

/// Removes a text if it is the given one.
pub const CLEAR_IF_SCRIPT: &'static str = r#"
if redis.call('GET', KEYS[1]) == ARGV[1] then return redis.call('DEL', KEYS[1]) end
return 0
"#;

/// The commands that remove a server.
pub open spec fn removal(server_id: Seq<char>) -> Seq<CommandView> {
    seq![
        CommandView::Del { key: server_key_text(server_id) },
        CommandView::SRem { key: active_servers_key_text(), member: server_id },
        CommandView::Eval {
            script: clear_if_text(),
            key: standby_server_key_text(),
            arg: server_id,
        },
    ]
}

/// Remove a server from the store entirely after it has stopped: its hash, its
/// membership of the active set, and the standby tag if that names it.
pub fn remove_server(server_id: &str) -> (res: Vec<RedisCommand>)
    ensures
        commands(res@) == removal(server_id@),
{
    let mut res: Vec<RedisCommand> = Vec::new();
    res.push(RedisCommand::Del { key: server_key(server_id) });
    res.push(
        RedisCommand::SRem {
            key: active_servers_key().to_owned(),
            member: server_id.to_owned(),
        },
    );
    res.push(
        RedisCommand::Eval {
            script: CLEAR_IF_SCRIPT.to_owned(),
            key: standby_server_key().to_owned(),
            arg: server_id.to_owned(),
        },
    );
    assert(commands(res@) =~= removal(server_id@));
    res
}

// ---------------------------------------------------------------------------
// Waiting for a server to become ready
// ---------------------------------------------------------------------------
/// Seconds between two looks at the status of a starting server.
pub const READY_POLL_SECS: u64 = 2;

/// What to do next while a server starts.
#[derive(Debug, Clone, PartialEq, Eq)]
pub enum ReadyStep {
    /// The time is up: give up with this message.
    TimedOut(String),
    /// Sleep for so many seconds, then run the command and look at the reply.
    SleepThenRead(u64, RedisCommand),
}

/// The message of a server that did not become ready in time.
pub open spec fn ready_timeout_message(server_id: Seq<char>) -> Seq<char> {
    "Timed out waiting for server "@ + server_id + " to become ready"@
}

/// A wait until the server reports `status=ready`, with a deadline in
/// milliseconds on a clock that the caller reads.
#[derive(Debug, Clone, PartialEq, Eq)]
pub struct ReadyWait {
    pub server_id: String,
    pub deadline_ms: u64,
}

/// Poll until the server reports `status=ready`, with a timeout.
pub fn wait_for_ready(server_id: String, now_ms: u64, timeout_ms: u64) -> (res: ReadyWait)
    requires
        now_ms + timeout_ms <= u64::MAX,
    ensures
        res.server_id@ == server_id@,
        res.deadline_ms == now_ms + timeout_ms,
{
    ReadyWait { server_id, deadline_ms: now_ms + timeout_ms }
}

impl ReadyWait {
    /// The next step at a given time: give up from the deadline on, before it
    /// sleep and read the status.
    pub fn next(&self, now_ms: u64) -> (res: ReadyStep)
        ensures
            (match res {
                ReadyStep::TimedOut(message) => now_ms >= self.deadline_ms && message@
                    == ready_timeout_message(self.server_id@),
                ReadyStep::SleepThenRead(secs, command) => now_ms < self.deadline_ms && secs
                    == READY_POLL_SECS && command@ == (CommandView::HGet {
                    key: server_key_text(self.server_id@),
                    field: "status"@,
                }),
            }),
    {
        if now_ms >= self.deadline_ms {
            ReadyStep::TimedOut(
                "Timed out waiting for server ".to_owned().concat(self.server_id.as_str()).concat(
                    " to become ready",
                ),
            )
        } else {
            ReadyStep::SleepThenRead(
                READY_POLL_SECS,
                RedisCommand::HGet {
                    key: server_key(self.server_id.as_str()),
                    field: "status".to_owned(),
                },
            )
        }
    }

    /// Whether the status that was read ends the wait.
    pub fn is_ready(&self, status: &Option<String>) -> (res: bool)
        ensures
            res == (opt_text(*status) == Some("ready"@)),
    {
        match status {
            Some(s) => str_eq(s.as_str(), "ready"),
            None => false,
        }
    }
}

// ---------------------------------------------------------------------------
// Laws
// ---------------------------------------------------------------------------
/// Reading the hash of a registered server gives back what was registered: no
/// players, and status `starting`. What the hash held before does not matter.
/// The set of active servers stays as it was.
pub proof fn law_register_then_list(
    store: Store,
    server_id: Seq<char>,
    container_id: Seq<char>,
    address: Seq<char>,
    internal_addr: Seq<char>,
    quic_port: nat,
    capacity: nat,
)
    requires
        quic_port <= u16::MAX,
        capacity <= u32::MAX,
    ensures
        ({
            let after = store.after_all(
                registration(server_id, container_id, address, internal_addr, quic_port, capacity),
            );
            &&& after.sets == store.sets
            &&& field(after.hash(server_key_text(server_id)), "container_id"@) == Some(container_id)
            &&& field(after.hash(server_key_text(server_id)), "internal_addr"@) == Some(
                internal_addr,
            )
            &&& field(after.hash(server_key_text(server_id)), "quic_port"@) == Some(
                decimal(quic_port),
            )
            &&& listed(seq![(server_id, after.hash(server_key_text(server_id)))]) == seq![
                ServerInfoView {
                    id: server_id,
                    container_id,
                    address,
                    internal_addr,
                    quic_port: quic_port as int,
                    player_count: 0,
                    capacity: capacity as int,
                    status: "starting"@,
                },
            ]
        }),
{
    let fields = registration_fields(container_id, address, internal_addr, quic_port, capacity);
    let write = CommandView::HSet { key: server_key_text(server_id), fields };
    law_after_one(store, write);
    let after = store.after(write);
    let hash = after.hash(server_key_text(server_id));
    lemma_registration_fields(container_id, address, internal_addr, quic_port, capacity);
    assert(fields_of(fields).contains_key("status"@));
    assert(hash.contains_key("status"@));
    let info = server_info(server_id, hash);
    law_decimal_roundtrip(quic_port, u16::MAX as int);
    law_decimal_roundtrip(capacity, u32::MAX as int);
    law_decimal_roundtrip(0, u32::MAX as int);
    reveal_strlit("0");
    assert("0"@ =~= decimal(0));
    let replies = seq![(server_id, hash)];
    assert(replies.drop_last() =~= Seq::empty());
    assert(listed(replies.drop_last()) =~= Seq::empty());
    assert(listed(replies) =~= seq![info]);
}

proof fn lemma_registration_fields(
    container_id: Seq<char>,
    address: Seq<char>,
    internal_addr: Seq<char>,
    quic_port: nat,
    capacity: nat,
)
    ensures
        ({
            let hash = fields_of(
                registration_fields(container_id, address, internal_addr, quic_port, capacity),
            );
            &&& field(hash, "container_id"@) == Some(container_id)
            &&& field(hash, "address"@) == Some(address)
            &&& field(hash, "internal_addr"@) == Some(internal_addr)
            &&& field(hash, "quic_port"@) == Some(decimal(quic_port))
            &&& field(hash, "capacity"@) == Some(decimal(capacity))
            &&& field(hash, "player_count"@) == Some("0"@)
            &&& field(hash, "status"@) == Some("starting"@)
        }),
{
    let w = registration_fields(container_id, address, internal_addr, quic_port, capacity);
    lemma_server_field_names();
    lemma_distinct_writes(w, 0);
    lemma_distinct_writes(w, 1);
    lemma_distinct_writes(w, 2);
    lemma_distinct_writes(w, 3);
    lemma_distinct_writes(w, 4);
    lemma_distinct_writes(w, 5);
    lemma_distinct_writes(w, 6);
}

/// A write to a name that no later write repeats is what the hash holds.
pub(crate) proof fn lemma_distinct_writes(w: Seq<(Seq<char>, Seq<char>)>, k: int)
    requires
        0 <= k < w.len(),
        forall|i: int| k < i < w.len() ==> (#[trigger] w[i]).0 != w[k].0,
    ensures
        field(fields_of(w), w[k].0) == Some(w[k].1),
    decreases w.len(),
{
    if k < w.len() - 1 {
        lemma_distinct_writes(w.drop_last(), k);
    }
}

/// The commands about a server, letter for letter.
pub proof fn law_server_commands(
    server_id: Seq<char>,
    container_id: Seq<char>,
    address: Seq<char>,
    internal_addr: Seq<char>,
    quic_port: nat,
    capacity: nat,
    name: Seq<char>,
    value: Seq<char>,
)
    ensures
        registration(server_id, container_id, address, internal_addr, quic_port, capacity) == seq![
            CommandView::HSet {
                key: "server:"@ + server_id,
                fields: seq![
                    ("container_id"@, container_id),
                    ("address"@, address),
                    ("internal_addr"@, internal_addr),
                    ("quic_port"@, decimal(quic_port)),
                    ("capacity"@, decimal(capacity)),
                    ("player_count"@, "0"@),
                    ("status"@, "starting"@),
                ],
            },
        ],
        field_update(server_id, name, value) == (CommandView::HSet {
            key: "server:"@ + server_id,
            fields: seq![(name, value)],
        }),
        removal(server_id) == seq![
            CommandView::Del { key: "server:"@ + server_id },
            CommandView::SRem { key: "servers:active"@, member: server_id },
            CommandView::Eval {
                script: clear_if_text(),
                key: "servers:standby"@,
                arg: server_id,
            },
        ],
{
}

/// Every active server with a hash is listed, in order and whatever its state,
/// with what its hash says; a server without one is left out.
pub proof fn law_every_server_is_listed(replies: Seq<(Seq<char>, Map<Seq<char>, Seq<char>>)>)
    ensures
        listed(replies) == replies.filter(
            |r: (Seq<char>, Map<Seq<char>, Seq<char>>)|
                exists|name: Seq<char>| #[trigger] r.1.contains_key(name),
        ).map_values(
            |r: (Seq<char>, Map<Seq<char>, Seq<char>>)| server_info(r.0, r.1),
        ),
    decreases replies.len(),
{
    reveal(Seq::filter);
    let keep = |r: (Seq<char>, Map<Seq<char>, Seq<char>>)|
        exists|name: Seq<char>| #[trigger] r.1.contains_key(name);
    let make = |r: (Seq<char>, Map<Seq<char>, Seq<char>>)| server_info(r.0, r.1);
    if replies.len() > 0 {
        let rest = replies.drop_last().filter(keep);
        let hash = replies.last().1;
        law_every_server_is_listed(replies.drop_last());
        assert((hash == Map::<Seq<char>, Seq<char>>::empty()) == !keep(replies.last())) by {
            if !keep(replies.last()) {
                assert(hash =~= Map::<Seq<char>, Seq<char>>::empty());
            }
        }
        if keep(replies.last()) {
            assert(replies.filter(keep) == rest.push(replies.last()));
            assert(rest.push(replies.last()).map_values(make) =~= rest.map_values(make).push(
                make(replies.last()),
            ));
        }
    } else {
        assert(replies.filter(keep).map_values(make) =~= Seq::empty());
    }
}

/// What is read from a server's hash. Texts are read as they stand, numbers as
/// they were written; what is missing has its default, and a server without an
/// internal address is reached at its address.
pub proof fn law_server_info(
    id: Seq<char>,
    hash: Map<Seq<char>, Seq<char>>,
    quic_port: nat,
    player_count: nat,
    capacity: nat,
)
    requires
        quic_port <= u16::MAX,
        player_count <= u32::MAX,
        capacity <= u32::MAX,
    ensures
        ({
            let info = server_info(id, hash);
            &&& info.id == id
            &&& hash.contains_key("container_id"@) ==> info.container_id == hash["container_id"@]
            &&& hash.contains_key("address"@) ==> info.address == hash["address"@]
            &&& hash.contains_key("internal_addr"@) ==> info.internal_addr
                == hash["internal_addr"@]
            &&& hash.contains_key("status"@) ==> info.status == hash["status"@]
            &&& !hash.contains_key("container_id"@) ==> info.container_id.len() == 0
            &&& !hash.contains_key("address"@) ==> info.address.len() == 0
            &&& !hash.contains_key("internal_addr"@) ==> info.internal_addr == info.address
            &&& !hash.contains_key("status"@) ==> info.status.len() == 0
            &&& hash.contains_key("quic_port"@) && hash["quic_port"@] == decimal(quic_port)
                ==> info.quic_port == quic_port
            &&& hash.contains_key("player_count"@) && hash["player_count"@] == decimal(player_count)
                ==> info.player_count == player_count
            &&& hash.contains_key("capacity"@) && hash["capacity"@] == decimal(capacity)
                ==> info.capacity == capacity
            &&& !hash.contains_key("quic_port"@) ==> info.quic_port == 0
            &&& !hash.contains_key("player_count"@) ==> info.player_count == 0
            &&& !hash.contains_key("capacity"@) ==> info.capacity == 128
        }),
{
    law_decimal_roundtrip(quic_port, u16::MAX as int);
    law_decimal_roundtrip(player_count, u32::MAX as int);
    law_decimal_roundtrip(capacity, u32::MAX as int);
}

/// A wait that is up says for which server; and what is known of a server is
/// read as it stands.
pub proof fn law_server_texts(server_id: Seq<char>, server: ServerInfo)
    ensures
        ready_timeout_message(server_id) == "Timed out waiting for server "@ + server_id
            + " to become ready"@,
        server@.id == server.id@,
        server@.container_id == server.container_id@,
        server@.address == server.address@,
        server@.internal_addr == server.internal_addr@,
        server@.quic_port == server.quic_port,
        server@.player_count == server.player_count,
        server@.capacity == server.capacity,
        server@.status == server.status@,
{
}

/// The standby is the server that the text names; the empty text and a missing
/// one name none.
pub proof fn law_standby(id: Seq<char>)
    ensures
        standby(None) is None,
        standby(Some(id)) == if id == Seq::<char>::empty() {
            None
        } else {
            Some(id)
        },
{
    if id.len() == 0 {
        assert(id =~= Seq::empty());
    }
}

/// A removed server is gone from the store: it has no hash, is in no list of
/// active servers, and is not the standby. No other server is touched, and
/// another server that is the standby stays it.
pub proof fn law_remove_server(store: Store, server_id: Seq<char>, other: Seq<char>)
    ensures
        ({
            let after = store.after_all(removal(server_id));
            &&& !after.members(active_servers_key_text()).contains(server_id)
            &&& after.hash(server_key_text(server_id)) == Map::<Seq<char>, Seq<char>>::empty()
            &&& listed(seq![(server_id, after.hash(server_key_text(server_id)))]) == Seq::<
                ServerInfoView,
            >::empty()
            &&& after.text(standby_server_key_text()) == if store.text(standby_server_key_text())
                == Some(server_id) {
                None
            } else {
                store.text(standby_server_key_text())
            }
            &&& other != server_id ==> {
                &&& after.members(active_servers_key_text()).contains(other) == store.members(
                    active_servers_key_text(),
                ).contains(other)
                &&& after.hash(server_key_text(other)) == store.hash(server_key_text(other))
            }
        }),
{
    let list = removal(server_id);
    law_after_three(store, list[0], list[1], list[2]);
    assert(list =~= seq![list[0], list[1], list[2]]);
    lemma_scripts_differ();
    law_key_kinds_disjoint(server_id, server_id);
    law_key_kinds_disjoint(other, server_id);
    law_server_keys_distinct(server_id, other);
    let after = store.after_all(removal(server_id));
    let replies = seq![(server_id, after.hash(server_key_text(server_id)))];
    assert(replies.drop_last() =~= Seq::empty());
    assert(listed(replies.drop_last()) =~= Seq::empty());
}

/// A server's status reads back as it was set, and everything else that the
/// store says about the server stays as it was.
pub proof fn law_set_status(store: Store, server_id: Seq<char>, status: Seq<char>)
    ensures
        ({
            let key = server_key_text(server_id);
            let after = store.after_all(seq![field_update(server_id, "status"@, status)]);
            server_info(server_id, after.hash(key)) == (ServerInfoView {
                status,
                ..server_info(server_id, store.hash(key))
            })
        }),
{
    let w = seq![("status"@, status)];
    law_after_one(store, field_update(server_id, "status"@, status));
    lemma_server_field_names();
    assert(w.drop_last() =~= Seq::empty());
    assert(fields_of(w.drop_last()) =~= Map::empty());
    assert(fields_of(w) =~= Map::empty().insert("status"@, status));
}

/// The standby server reads back as it was set, for every id but the empty
/// text, which stands for no standby.
pub proof fn law_standby_roundtrip(store: Store, server_id: Seq<char>)
    ensures
        ({
            let after = store.after_all(
                seq![
                    CommandView::SetValue { key: standby_server_key_text(), value: server_id },
                ],
            );
            standby(after.text(standby_server_key_text())) == if server_id.len() == 0 {
                None
            } else {
                Some(server_id)
            }
        }),
{
    law_after_one(
        store,
        CommandView::SetValue { key: standby_server_key_text(), value: server_id },
    );
}

} // verus!
