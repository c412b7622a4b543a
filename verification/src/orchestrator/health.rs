//! Health checks: which servers are pinged, and what missed pings lead to.

use vstd::prelude::*;

use crate::command::RedisCommand;
use crate::orchestrator::redis_ops::{
    field_update, infos, set_status, ServerInfo, ServerInfoView,
};
use crate::text::{decimal, str_eq, u16_text};

verus! {

/// How many consecutive missed pings before a server is marked draining.
pub const MAX_MISSED_PINGS: u8 = 2;

/// Seconds after which a ping without an answer counts as missed.
pub const PING_TIMEOUT_SECS: u64 = 5;

// ---------------------------------------------------------------------------
// Which servers are pinged
// ---------------------------------------------------------------------------
/// A ping to send.
#[derive(Debug, Clone, PartialEq, Eq)]
pub struct Ping {
    pub server_id: String,
    /// Host and port of the server's endpoint.
    pub addr: String,
}

/// A ping, with its texts as sequences of characters.
pub struct PingView {
    pub server_id: Seq<char>,
    pub addr: Seq<char>,
}

impl View for Ping {
    type V = PingView;

    open spec fn view(&self) -> PingView {
        PingView { server_id: self.server_id@, addr: self.addr@ }
    }
}

/// A list of pings.
pub open spec fn pings(v: Seq<Ping>) -> Seq<PingView> {
    v.map_values(|p: Ping| p@)
}

/// Whether a server is pinged: not while it drains, nor while it starts.
pub open spec fn is_checked(server: ServerInfoView) -> bool {
    server.status != "draining"@ && server.status != "starting"@
}

/// The ping for a server, to the address inside the cluster.
pub open spec fn ping_for(server: ServerInfoView) -> PingView {
    PingView {
        server_id: server.id,
        addr: server.internal_addr + ":"@ + decimal(server.quic_port as nat),
    }
}

/// The pings of one round.
pub open spec fn ping_round(servers: Seq<ServerInfoView>) -> Seq<PingView>
    decreases servers.len(),
{
    if servers.len() == 0 {
        Seq::empty()
    } else {
        let rest = ping_round(servers.drop_last());
        if is_checked(servers.last()) {
            rest.push(ping_for(servers.last()))
        } else {
            rest
        }
    }
}

/// Ping every active server's QUIC endpoint; what a missed ping leads to, see
/// `MissedPings::record`.
pub fn run_health_checks(servers: &Vec<ServerInfo>) -> (res: Vec<Ping>)
    ensures
        pings(res@) == ping_round(infos(servers@)),
{
    let ghost all = infos(servers@);
    let mut out: Vec<Ping> = Vec::new();
    let mut i: usize = 0;
    assert(pings(out@) =~= ping_round(all.take(0)));
    while i < servers.len()
        invariant
            i <= servers@.len(),
            all == infos(servers@),
            pings(out@) == ping_round(all.take(i as int)),
        decreases servers@.len() - i,
    {
        let server = &servers[i];
        let ghost before = out@;
        proof {
            assert(all.take(i + 1).drop_last() =~= all.take(i as int));
            assert(all.take(i + 1).last() == server@);
        }
        if !str_eq(server.status.as_str(), "draining") && !str_eq(
            server.status.as_str(),
            "starting",
        ) {
            let addr = server.internal_addr.clone().concat(":").concat(
                u16_text(server.quic_port).as_str(),
            );
            out.push(Ping { server_id: server.id.clone(), addr });
            assert(pings(out@) =~= pings(before).push(out@.last()@));
        }
        i = i + 1;
    }
    assert(all.take(servers@.len() as int) =~= all);
    out
}

/// Whether a position is the first that holds `true`.
pub open spec fn is_first_true(v: Seq<bool>, i: int) -> bool {
    0 <= i < v.len() && v[i] && forall|j: int| 0 <= j < i ==> !#[trigger] v[j]
}

/// The first position that holds `true`.
pub fn find_first(v: &Vec<bool>) -> (res: Option<usize>)
    ensures
        (match res {
            Some(i) => is_first_true(v@, i as int),
            None => forall|j: int| 0 <= j < v@.len() ==> !#[trigger] v@[j],
        }),
{
    let mut i: usize = 0;
    while i < v.len()
        invariant
            i <= v@.len(),
            forall|j: int| 0 <= j < i ==> !#[trigger] v@[j],
        decreases v@.len() - i,
    {
        if v[i] {
            return Some(i);
        }
        i = i + 1;
    }
    None
}

/// Picks one of the resolved addresses, given for each whether it is IPv4: the
/// first IPv4 address, to match an endpoint bound to an IPv4 address, else the
/// first address, if there is any.
pub fn pick_address(is_ipv4: &Vec<bool>) -> (res: Option<usize>)
    ensures
        (match res {
            Some(i) => is_first_true(is_ipv4@, i as int) || (i == 0 && is_ipv4@.len() > 0
                && forall|j: int| 0 <= j < is_ipv4@.len() ==> !#[trigger] is_ipv4@[j]),
            None => is_ipv4@.len() == 0,
        }),
{
    match find_first(is_ipv4) {
        Some(i) => Some(i),
        None => if is_ipv4.len() == 0 {
            None
        } else {
            Some(0)
        },
    }
}

// ---------------------------------------------------------------------------
// Missed pings
// ---------------------------------------------------------------------------
/// Consecutive missed pings by server id; a server that answered has no entry.
pub open spec fn counts_of(entries: Seq<(String, u8)>) -> Map<Seq<char>, int>
    decreases entries.len(),
{
    if entries.len() == 0 {
        Map::empty()
    } else {
        counts_of(entries.drop_last()).insert(entries.last().0@, entries.last().1 as int)
    }
}

/// How often in a row a server has missed its ping.
pub open spec fn missed_count(counts: Map<Seq<char>, int>, id: Seq<char>) -> int {
    if counts.contains_key(id) {
        counts[id]
    } else {
        0
    }
}

/// The counters after the outcome of one ping.
pub open spec fn after_ping(
    counts: Map<Seq<char>, int>,
    id: Seq<char>,
    alive: bool,
) -> Map<Seq<char>, int> {
    if alive {
        counts.remove(id)
    } else {
        counts.insert(id, missed_count(counts, id) + 1)
    }
}

/// Per-server missed-ping counters.
#[derive(Debug, Clone, PartialEq, Eq)]
pub struct MissedPings {
    entries: Vec<(String, u8)>,
}

impl View for MissedPings {
    type V = Map<Seq<char>, int>;

    closed spec fn view(&self) -> Map<Seq<char>, int> {
        counts_of(self.entries@)
    }
}

impl MissedPings {
    /// No missed pings yet.
    pub fn new() -> (res: MissedPings)
        ensures
            res@ == Map::<Seq<char>, int>::empty(),
    {
        MissedPings { entries: Vec::new() }
    }

    /// How often in a row a server has missed its ping.
    pub fn missed(&self, id: &str) -> (res: u8)
        ensures
            res == missed_count(self@, id@),
    {
        let ghost all = self.entries@;
        let mut i: usize = self.entries.len();
        assert(all.take(all.len() as int) =~= all);
        while i > 0
            invariant
                i <= all.len(),
                all == self.entries@,
                missed_count(counts_of(all), id@) == missed_count(
                    counts_of(all.take(i as int)),
                    id@,
                ),
            decreases i,
        {
            i = i - 1;
            assert(all.take(i + 1).drop_last() =~= all.take(i as int));
            if str_eq(self.entries[i].0.as_str(), id) {
                return self.entries[i].1;
            }
        }
        0
    }

    /// Drops the entry of a server.
    fn forget(&mut self, id: &str)
        ensures
            final(self)@ == old(self)@.remove(id@),
    {
        let ghost all = self.entries@;
        let mut kept: Vec<(String, u8)> = Vec::new();
        let mut i: usize = 0;
        assert(counts_of(kept@) =~= counts_of(all.take(0)).remove(id@));
        while i < self.entries.len()
            invariant
                i <= all.len(),
                all == self.entries@,
                counts_of(kept@) == counts_of(all.take(i as int)).remove(id@),
            decreases all.len() - i,
        {
            let ghost before = kept@;
            assert(all.take(i + 1).drop_last() =~= all.take(i as int));
            if !str_eq(self.entries[i].0.as_str(), id) {
                kept.push((self.entries[i].0.clone(), self.entries[i].1));
                assert(kept@.drop_last() =~= before);
            }
            assert(counts_of(kept@) =~= counts_of(all.take(i + 1)).remove(id@));
            i = i + 1;
        }
        assert(all.take(all.len() as int) =~= all);
        self.entries = kept;
    }

    /// Takes in the outcome of a ping. A server that has now missed
    /// `MAX_MISSED_PINGS` in a row is to be marked draining: the command that
    /// does so is returned.
    pub fn record(&mut self, id: &str, alive: bool) -> (res: Option<RedisCommand>)
        requires
            !alive ==> missed_count(old(self)@, id@) < u8::MAX,
        ensures
            final(self)@ == after_ping(old(self)@, id@, alive),
            (match res {
                Some(command) => !alive && missed_count(final(self)@, id@) >= MAX_MISSED_PINGS
                    && command@ == field_update(id@, "status"@, "draining"@),
                None => alive || missed_count(final(self)@, id@) < MAX_MISSED_PINGS,
            }),
    {
        let count: u8 = self.missed(id);
        self.forget(id);
        if alive {
            None
        } else {
            let ghost before = self.entries@;
            self.entries.push((id.to_owned(), count + 1));
            proof {
                assert(self.entries@.drop_last() =~= before);
                assert(self@ =~= after_ping(old(self)@, id@, alive));
            }
            if count + 1 >= MAX_MISSED_PINGS {
                Some(set_status(id, "draining"))
            } else {
                None
            }
        }
    }
}

// ---------------------------------------------------------------------------
// Laws
// ---------------------------------------------------------------------------
/// A round holds, in order, one ping for each server that is neither draining
/// nor starting, whatever else is known of it, to its internal address and port;
/// and no other ping.
pub proof fn law_ping_round(servers: Seq<ServerInfoView>)
    ensures
        ping_round(servers) == servers.filter(
            |s: ServerInfoView| s.status != "draining"@ && s.status != "starting"@,
        ).map_values(
            |s: ServerInfoView|
                PingView {
                    server_id: s.id,
                    addr: s.internal_addr + ":"@ + decimal(s.quic_port as nat),
                },
        ),
    decreases servers.len(),
{
    reveal(Seq::filter);
    let keep = |s: ServerInfoView| s.status != "draining"@ && s.status != "starting"@;
    let make = |s: ServerInfoView|
        PingView {
            server_id: s.id,
            addr: s.internal_addr + ":"@ + decimal(s.quic_port as nat),
        };
    if servers.len() > 0 {
        law_ping_round(servers.drop_last());
        let rest = servers.drop_last().filter(keep);
        if keep(servers.last()) {
            assert(servers.filter(keep) == rest.push(servers.last()));
            assert(rest.push(servers.last()).map_values(make) =~= rest.map_values(make).push(
                make(servers.last()),
            ));
        }
    } else {
        assert(servers.filter(keep).map_values(make) =~= Seq::empty());
    }
}

/// A ping means what it says.
pub proof fn law_pings(list: Seq<Ping>, i: int)
    ensures
        pings(list).len() == list.len(),
        0 <= i < list.len() ==> pings(list)[i] == (PingView {
            server_id: list[i].server_id@,
            addr: list[i].addr@,
        }),
{
}

/// How many pings of a list go to a server.
pub open spec fn pings_to(list: Seq<PingView>, id: Seq<char>) -> int
    decreases list.len(),
{
    if list.len() == 0 {
        0
    } else {
        pings_to(list.drop_last(), id) + if list.last().server_id == id {
            1int
        } else {
            0
        }
    }
}

/// Each server is pinged exactly once in a round, unless it is draining or
/// starting, in which case it is not; how many players it has does not matter.
pub proof fn law_each_server_is_pinged_once(servers: Seq<ServerInfoView>, k: int)
    requires
        0 <= k < servers.len(),
        forall|i: int|
            0 <= i < servers.len() && i != k ==> (#[trigger] servers[i]).id != servers[k].id,
    ensures
        pings_to(ping_round(servers), servers[k].id) == if servers[k].status == "draining"@
            || servers[k].status == "starting"@ {
            0int
        } else {
            1
        },
{
    lemma_pings_to(servers, servers[k].id, servers.len() as int, k);
    assert(servers.take(servers.len() as int) =~= servers);
}

proof fn lemma_pings_to(servers: Seq<ServerInfoView>, id: Seq<char>, n: int, k: int)
    requires
        0 <= k < servers.len(),
        0 <= n <= servers.len(),
        servers[k].id == id,
        forall|i: int| 0 <= i < servers.len() && i != k ==> (#[trigger] servers[i]).id != id,
    ensures
        pings_to(ping_round(servers.take(n)), id) == if n <= k || servers[k].status
            == "draining"@ || servers[k].status == "starting"@ {
            0int
        } else {
            1
        },
    decreases n,
{
    if n > 0 {
        let rest = ping_round(servers.take(n - 1));
        let ping = ping_for(servers[n - 1]);
        lemma_pings_to(servers, id, n - 1, k);
        assert(servers.take(n).drop_last() =~= servers.take(n - 1));
        assert(servers.take(n).last() == servers[n - 1]);
        assert(rest.push(ping).drop_last() =~= rest);
        assert(rest.push(ping).last() == ping);
    } else {
        assert(servers.take(0) =~= Seq::empty());
    }
}

/// Of the resolved addresses an IPv4 one is preferred: where there is any, the
/// one that counts as the first is IPv4 and none before it is.
pub proof fn law_first_true(v: Seq<bool>, i: int, j: int)
    requires
        0 <= j < v.len(),
        v[j],
    ensures
        is_first_true(v, i) ==> 0 <= i <= j && v[i],
        exists|k: int| is_first_true(v, k),
    decreases j,
{
    if is_first_true(v, i) && j < i {
        assert(!v[j]);
    }
    if exists|m: int| 0 <= m < j && v[m] {
        let m = choose|m: int| 0 <= m < j && v[m];
        law_first_true(v, i, m);
    } else {
        assert(is_first_true(v, j));
    }
}

/// One outcome of a ping counts for its server alone: a miss adds one to the
/// count, an answer sets it to zero, and no other count changes.
pub proof fn law_one_ping(counts: Map<Seq<char>, int>, id: Seq<char>, other: Seq<char>)
    ensures
        missed_count(after_ping(counts, id, false), id) == missed_count(counts, id) + 1,
        missed_count(after_ping(counts, id, true), id) == 0,
        other != id ==> missed_count(after_ping(counts, id, false), other) == missed_count(
            counts,
            other,
        ) && missed_count(after_ping(counts, id, true), other) == missed_count(counts, other),
{
}

/// The counters after a history of ping outcomes, each of some server.
pub open spec fn after_pings(history: Seq<(Seq<char>, bool)>) -> Map<Seq<char>, int>
    decreases history.len(),
{
    if history.len() == 0 {
        Map::empty()
    } else {
        let (id, alive) = history.last();
        after_ping(after_pings(history.drop_last()), id, alive)
    }
}

/// How many pings of a server at the end of the history went unanswered, with
/// no answered one between them.
pub open spec fn last_misses(history: Seq<(Seq<char>, bool)>, id: Seq<char>) -> int
    decreases history.len(),
{
    if history.len() == 0 {
        0
    } else if history.last().0 != id {
        last_misses(history.drop_last(), id)
    } else if history.last().1 {
        0
    } else {
        last_misses(history.drop_last(), id) + 1
    }
}

/// Whatever happened so far, and however the pings of other servers went in
/// between, the counter of a server is the length of its last run of missed
/// pings. So a server is marked draining exactly when it misses its
/// `MAX_MISSED_PINGS`-th ping in a row, and one answer starts the count anew.
pub proof fn law_missed_pings_are_consecutive(history: Seq<(Seq<char>, bool)>, id: Seq<char>)
    ensures
        missed_count(after_pings(history), id) == last_misses(history, id),
    decreases history.len(),
{
    if history.len() > 0 {
        law_missed_pings_are_consecutive(history.drop_last(), id);
    }
}

} // verus!
