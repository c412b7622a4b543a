//! The poll cycle: keeps one idle server, scales up on load, drains the rest.

use vstd::prelude::*;

use crate::command::{CommandView, RedisCommand};
use crate::constants::SPAWN_THRESHOLD_PERCENT;
use crate::orchestrator::docker_ops::{instance_name, instance_name_of};
use crate::orchestrator::redis_ops::{
    field_update, infos, law_remove_server, law_set_status, removal, remove_server, server_info,
    set_standby, set_status, ServerInfo, ServerInfoView,
};
use crate::orchestrator::spawn::{commands_run, spawn_actions, SpawnAction, SpawnActionView};
use crate::redis_keys::{
    active_servers_key_text, law_key_kinds_disjoint, law_server_keys_distinct, server_key_text,
    standby_server_key_text,
};
use crate::store::{law_after_one, Store};
use crate::text::{opt_text, str_eq};

verus! {

/// Seconds between two poll cycles.
pub const POLL_INTERVAL_SECS: u64 = 5;

/// Seconds between two rounds of health checks.
pub const HEALTH_INTERVAL_SECS: u64 = 10;

/// Seconds between the mark that a server is drained and its stop.
pub const DRAIN_DELAY_SECS: u64 = 30;

/// One thing that a poll cycle does. A cycle carries its actions out in order
/// and stops at the first that fails.
#[derive(Debug, Clone, PartialEq, Eq)]
pub enum PollAction {
    /// Starts a new game server.
    Spawn { standby: bool },
    /// Runs a command now.
    Run(RedisCommand),
    /// Carries actions out after a delay, without the cycle waiting for them.
    /// They run in order, and one that fails does not stop those after it.
    RunLater { after_secs: u64, actions: Vec<SpawnAction> },
}

/// An action of a poll cycle, with its commands by their views.
pub enum PollActionView {
    Spawn { standby: bool },
    Run(CommandView),
    RunLater { after_secs: int, actions: Seq<SpawnActionView> },
}

impl View for PollAction {
    type V = PollActionView;

    open spec fn view(&self) -> PollActionView {
        match self {
            PollAction::Spawn { standby } => PollActionView::Spawn { standby: *standby },
            PollAction::Run(command) => PollActionView::Run(command@),
            PollAction::RunLater { after_secs, actions: list } => PollActionView::RunLater {
                after_secs: *after_secs as int,
                actions: spawn_actions(list@),
            },
        }
    }
}

/// A list of actions.
pub open spec fn actions(v: Seq<PollAction>) -> Seq<PollActionView> {
    v.map_values(|a: PollAction| a@)
}

// ---------------------------------------------------------------------------
// What a cycle does
// ---------------------------------------------------------------------------
/// Whether a server is idle: empty and not being drained.
pub open spec fn is_idle(server: ServerInfoView) -> bool {
    server.player_count == 0 && server.status != "draining"@
}

/// Whether a server is filled to the threshold. One without capacity is, as
/// soon as it has a player.
pub open spec fn at_threshold(server: ServerInfoView) -> bool {
    server.player_count > 0 && server.player_count * 100 >= server.capacity
        * SPAWN_THRESHOLD_PERCENT
}

/// The idle servers, in order.
pub open spec fn idle_servers(servers: Seq<ServerInfoView>) -> Seq<ServerInfoView>
    decreases servers.len(),
{
    if servers.len() == 0 {
        Seq::empty()
    } else {
        let rest = idle_servers(servers.drop_last());
        if is_idle(servers.last()) {
            rest.push(servers.last())
        } else {
            rest
        }
    }
}

/// Whether some server is filled to the threshold.
pub open spec fn needs_scale(servers: Seq<ServerInfoView>) -> bool {
    exists|i: int| 0 <= i < servers.len() && at_threshold(#[trigger] servers[i])
}

/// The command that tags a server as the standby.
pub open spec fn standby_update(server_id: Seq<char>) -> CommandView {
    CommandView::SetValue { key: standby_server_key_text(), value: server_id }
}

/// The name of a server's pod and service: what the store says, or for a server
/// without such a note the name that spawning gives.
pub open spec fn pod_name(server: ServerInfoView) -> Seq<char> {
    if server.container_id.len() == 0 {
        instance_name(server.id)
    } else {
        server.container_id
    }
}

/// Stops a server: its pod and its service are deleted, and it is removed from
/// the store.
pub open spec fn stop_plan(server: ServerInfoView) -> Seq<SpawnActionView> {
    let name = pod_name(server);
    seq![
        SpawnActionView::DeletePod { name, namespace: None },
        SpawnActionView::DeleteService { name, namespace: None },
        SpawnActionView::Run(removal(server.id)),
    ]
}

/// Drains servers: each is marked now and stopped later.
pub open spec fn drain_plan(servers: Seq<ServerInfoView>) -> Seq<PollActionView>
    decreases servers.len(),
{
    if servers.len() == 0 {
        Seq::empty()
    } else {
        drain_plan(servers.drop_last()) + seq![
            PollActionView::Run(field_update(servers.last().id, "status"@, "draining"@)),
            PollActionView::RunLater {
                after_secs: DRAIN_DELAY_SECS as int,
                actions: stop_plan(servers.last()),
            },
        ]
    }
}

/// What a poll cycle does about the servers it finds: without an idle server
/// it spawns one, as a standby unless the load asks for one anyway; otherwise
/// the first idle server becomes the standby and all others are drained.
pub open spec fn poll_plan(servers: Seq<ServerInfoView>) -> Seq<PollActionView> {
    let idle = idle_servers(servers);
    if idle.len() == 0 {
        seq![PollActionView::Spawn { standby: !needs_scale(servers) }]
    } else {
        seq![PollActionView::Run(standby_update(idle[0].id))] + drain_plan(idle.skip(1))
    }
}

/// Whether a server is idle.
fn server_is_idle(server: &ServerInfo) -> (res: bool)
    ensures
        res == is_idle(server@),
{
    server.player_count == 0 && !str_eq(server.status.as_str(), "draining")
}

/// Whether a server is filled to the threshold.
fn server_at_threshold(server: &ServerInfo) -> (res: bool)
    ensures
        res == at_threshold(server@),
{
    let capacity: u64 = server.capacity as u64;
    let percent: u64 = SPAWN_THRESHOLD_PERCENT as u64;
    assert(capacity * percent <= u64::MAX) by (nonlinear_arith)
        requires
            capacity <= u32::MAX,
            percent <= u32::MAX,
    ;
    server.player_count > 0 && server.player_count as u64 * 100 >= capacity * percent
}

/// The actions that stop a server.
fn stop_server(server: &ServerInfo) -> (res: Vec<SpawnAction>)
    ensures
        spawn_actions(res@) == stop_plan(server@),
{
    let name: String = if server.container_id.as_str().is_empty() {
        instance_name_of(server.id.as_str())
    } else {
        server.container_id.clone()
    };
    let mut res: Vec<SpawnAction> = Vec::new();
    res.push(SpawnAction::DeletePod { name: name.clone(), namespace: None });
    res.push(SpawnAction::DeleteService { name, namespace: None });
    res.push(SpawnAction::Run(remove_server(server.id.as_str())));
    assert(spawn_actions(res@) =~= stop_plan(server@));
    res
}

/// Main 5-second poll: manage standby, scale up on high load, drain empties.
pub fn run_poll_cycle(servers: &Vec<ServerInfo>) -> (res: Vec<PollAction>)
    ensures
        actions(res@) == poll_plan(infos(servers@)),
{
    let ghost all = infos(servers@);
    let mut plan: Vec<PollAction> = Vec::new();
    let mut idle: usize = 0;
    let mut scale = false;
    let mut i: usize = 0;
    while i < servers.len()
        invariant
            i <= servers@.len(),
            idle <= i,
            all == infos(servers@),
            idle == idle_servers(all.take(i as int)).len(),
            scale == needs_scale(all.take(i as int)),
            idle == 0 ==> actions(plan@) == Seq::<PollActionView>::empty(),
            idle > 0 ==> actions(plan@) == poll_plan(all.take(i as int)),
        decreases servers@.len() - i,
    {
        let server = &servers[i];
        let ghost before = all.take(i as int);
        let ghost now = all.take(i + 1);
        let ghost done = plan@;
        proof {
            assert(now.drop_last() =~= before);
            assert(now.last() == server@);
        }
        if server_at_threshold(server) {
            scale = true;
            assert(at_threshold(now[i as int]));
        }
        proof {
            assert forall|k: int| 0 <= k < i implies now[k] == before[k] by {}
            if needs_scale(before) {
                let k = choose|k: int| 0 <= k < before.len() && at_threshold(#[trigger] before[k]);
                assert(at_threshold(now[k]));
            }
            if needs_scale(now) {
                let k = choose|k: int| 0 <= k < now.len() && at_threshold(#[trigger] now[k]);
                if k < i {
                    assert(at_threshold(before[k]));
                }
            }
        }
        if server_is_idle(server) {
            if idle == 0 {
                plan.push(PollAction::Run(set_standby(server.id.as_str())));
                proof {
                    assert(idle_servers(now).skip(1) =~= Seq::empty());
                    assert(actions(plan@) =~= poll_plan(now));
                }
            } else {
                plan.push(PollAction::Run(set_status(server.id.as_str(), "draining")));
                plan.push(
                    PollAction::RunLater {
                        after_secs: DRAIN_DELAY_SECS,
                        actions: stop_server(server),
                    },
                );
                proof {
                    assert(idle_servers(now).skip(1).drop_last() =~= idle_servers(before).skip(1));
                    assert(actions(plan@) =~= actions(done) + seq![
                        plan@[plan@.len() - 2]@,
                        plan@[plan@.len() - 1]@,
                    ]);
                    assert(actions(plan@) =~= poll_plan(now));
                }
            }
            idle = idle + 1;
        }
        i = i + 1;
    }
    assert(all.take(servers@.len() as int) =~= all);
    if idle == 0 {
        plan.push(PollAction::Spawn { standby: !scale });
        assert(actions(plan@) =~= poll_plan(all));
    }
    plan
}

/// What the orchestrator does when it starts: without a standby server it
/// spawns one.
pub fn run_startup(standby_id: &Option<String>) -> (res: Option<PollAction>)
    ensures
        (match res {
            Some(action) => opt_text(*standby_id) is None && action@ == (PollActionView::Spawn {
                standby: true,
            }),
            None => opt_text(*standby_id) is Some,
        }),
{
    match standby_id {
        Some(_) => None,
        None => Some(PollAction::Spawn { standby: true }),
    }
}

// ---------------------------------------------------------------------------
// Laws
// ---------------------------------------------------------------------------
/// The commands that a list of actions runs now.
pub open spec fn immediate(plan: Seq<PollActionView>) -> Seq<CommandView>
    decreases plan.len(),
{
    if plan.len() == 0 {
        Seq::empty()
    } else {
        let rest = immediate(plan.drop_last());
        match plan.last() {
            PollActionView::Run(command) => rest.push(command),
            _ => rest,
        }
    }
}

/// The commands that mark servers as draining.
pub open spec fn drain_commands(servers: Seq<ServerInfoView>) -> Seq<CommandView> {
    servers.map_values(|s: ServerInfoView| field_update(s.id, "status"@, "draining"@))
}

/// Whether no two servers have the same id, as in a list made from a set of
/// ids.
pub open spec fn distinct_ids(servers: Seq<ServerInfoView>) -> bool {
    forall|i: int, j: int|
        0 <= i < j < servers.len() ==> (#[trigger] servers[i]).id != (#[trigger] servers[j]).id
}

/// What the store says about the servers of a list.
pub open spec fn refreshed(servers: Seq<ServerInfoView>, store: Store) -> Seq<ServerInfoView> {
    servers.map_values(
        |s: ServerInfoView| server_info(s.id, store.hash(server_key_text(s.id))),
    )
}

/// A cycle spawns at most one server, and none while an idle one exists; it
/// marks no server as draining unless the server is empty.
pub proof fn law_poll_spawns_and_drains(servers: Seq<ServerInfoView>)
    ensures
        idle_servers(servers).len() > 0 ==> forall|i: int|
            0 <= i < poll_plan(servers).len() ==> !((#[trigger] poll_plan(servers)[i]) is Spawn),
        idle_servers(servers).len() == 0 ==> poll_plan(servers).len() == 1,
        forall|i: int|
            0 <= i < poll_plan(servers).len() && (#[trigger] poll_plan(servers)[i]) is RunLater
                ==> exists|k: int|
                0 <= k < servers.len() && is_idle(#[trigger] servers[k]) && poll_plan(servers)[i]
                    == (PollActionView::RunLater {
                    after_secs: DRAIN_DELAY_SECS as int,
                    actions: stop_plan(servers[k]),
                }),
{
    let idle = idle_servers(servers);
    if idle.len() > 0 {
        let surplus = idle.skip(1);
        lemma_drain_plan(surplus);
        assert forall|i: int|
            0 <= i < poll_plan(servers).len() && (#[trigger] poll_plan(
                servers,
            )[i]) is RunLater implies exists|k: int|
            0 <= k < servers.len() && is_idle(#[trigger] servers[k]) && poll_plan(servers)[i] == (
            PollActionView::RunLater {
                after_secs: DRAIN_DELAY_SECS as int,
                actions: stop_plan(servers[k]),
            }) by {
            assert(poll_plan(servers)[i] == drain_plan(surplus)[i - 1]);
            let j = (i - 1) / 2;
            assert(surplus[j] == idle[j + 1]);
            lemma_idle_is_listed(servers, j + 1);
            let k = choose|k: int|
                0 <= k < servers.len() && is_idle(#[trigger] servers[k]) && servers[k] == idle[j
                    + 1];
            assert(is_idle(servers[k]));
        }
        assert forall|i: int| 0 <= i < poll_plan(servers).len() implies !((#[trigger] poll_plan(
            servers,
        )[i]) is Spawn) by {
            if i > 0 {
                assert(poll_plan(servers)[i] == drain_plan(surplus)[i - 1]);
            }
        }
    }
}

proof fn lemma_idle_is_filter(servers: Seq<ServerInfoView>)
    ensures
        idle_servers(servers) == servers.filter(
            |s: ServerInfoView| s.player_count == 0 && s.status != "draining"@,
        ),
    decreases servers.len(),
{
    reveal(Seq::filter);
    if servers.len() > 0 {
        lemma_idle_is_filter(servers.drop_last());
    } else {
        assert(servers =~= Seq::empty());
    }
}

/// What a cycle does, step by step. Without an empty server that is not being
/// drained it spawns one, as a standby unless some server with players is filled
/// to 85 percent. Otherwise the first such server is tagged as the standby; each
/// further one is marked as draining, and 30 seconds later its pod and service
/// are deleted and the store forgets it.
pub proof fn law_poll_plan(servers: Seq<ServerInfoView>)
    ensures
        ({
            let plan = poll_plan(servers);
            let empty = servers.filter(
                |s: ServerInfoView| s.player_count == 0 && s.status != "draining"@,
            );
            if empty.len() == 0 {
                plan == seq![
                    PollActionView::Spawn {
                        standby: forall|i: int|
                            0 <= i < servers.len() ==> (#[trigger] servers[i]).player_count <= 0
                                || servers[i].player_count * 100 < servers[i].capacity * 85,
                    },
                ]
            } else {
                &&& plan.len() == 2 * empty.len() - 1
                &&& plan[0] == PollActionView::Run(
                    CommandView::SetValue { key: "servers:standby"@, value: empty[0].id },
                )
                &&& forall|k: int|
                    #![trigger empty[k]]
                    1 <= k < empty.len() ==> {
                        let id = empty[k].id;
                        let name = if empty[k].container_id.len() == 0 {
                            "game-"@ + id
                        } else {
                            empty[k].container_id
                        };
                        &&& plan[2 * k - 1] == PollActionView::Run(
                            CommandView::HSet {
                                key: "server:"@ + id,
                                fields: seq![("status"@, "draining"@)],
                            },
                        )
                        &&& plan[2 * k] == (PollActionView::RunLater {
                            after_secs: 30,
                            actions: seq![
                                SpawnActionView::DeletePod { name, namespace: None },
                                SpawnActionView::DeleteService { name, namespace: None },
                                SpawnActionView::Run(removal(id)),
                            ],
                        })
                    }
            }
        }),
{
    lemma_idle_is_filter(servers);
    let idle = idle_servers(servers);
    if idle.len() > 0 {
        let surplus = idle.skip(1);
        let plan = poll_plan(servers);
        lemma_drain_plan(surplus);
        assert forall|k: int| 1 <= k < idle.len() implies plan[2 * k - 1] == PollActionView::Run(
            field_update((#[trigger] idle[k]).id, "status"@, "draining"@),
        ) && plan[2 * k] == (PollActionView::RunLater {
            after_secs: 30,
            actions: stop_plan(idle[k]),
        }) by {
            assert(surplus[k - 1] == idle[k]);
            assert(plan[2 * k - 1] == drain_plan(surplus)[2 * k - 2]);
            assert(plan[2 * k] == drain_plan(surplus)[2 * k - 1]);
            assert((2 * k - 2) / 2 == k - 1 && (2 * k - 2) % 2 == 0);
            assert((2 * k - 1) / 2 == k - 1 && (2 * k - 1) % 2 == 1);
        }
    } else {
        assert forall|i: int| 0 <= i < servers.len() implies at_threshold(#[trigger] servers[i])
            == !(servers[i].player_count <= 0 || servers[i].player_count * 100
            < servers[i].capacity * 85) by {}
    }
}

/// An action of a plan means what it says.
pub proof fn law_poll_actions(
    standby: bool,
    command: RedisCommand,
    after_secs: u64,
    list: Vec<SpawnAction>,
    i: int,
)
    ensures
        (PollAction::Spawn { standby })@ == (PollActionView::Spawn { standby }),
        PollAction::Run(command)@ == PollActionView::Run(command@),
        (PollAction::RunLater { after_secs, actions: list }@ matches PollActionView::RunLater {
            after_secs: secs,
            actions: a,
        } && secs == after_secs && a.len() == list@.len() && (0 <= i < a.len() ==> a[i]
            == list@[i]@)),
{
}

/// Whether an action of a plan is about a server: it tags it, writes to its
/// hash, or stops it later.
pub open spec fn concerns(action: PollActionView, id: Seq<char>) -> bool {
    match action {
        PollActionView::Spawn { standby: _ } => false,
        PollActionView::Run(command) => match command {
            CommandView::SetValue { key: _, value } => value == id,
            CommandView::HSet { key, fields: _ } => key == "server:"@ + id,
            _ => true,
        },
        PollActionView::RunLater { after_secs: _, actions: list } => list.contains(
            SpawnActionView::Run(removal(id)),
        ),
    }
}

/// A cycle leaves servers with players alone: it neither tags them as the
/// standby, nor marks them as draining, nor stops them, however few players they
/// have. The same holds of servers that are draining already.
pub proof fn law_poll_leaves_players_alone(servers: Seq<ServerInfoView>, k: int, i: int)
    requires
        distinct_ids(servers),
        0 <= k < servers.len(),
        servers[k].player_count > 0 || servers[k].status == "draining"@,
        0 <= i < poll_plan(servers).len(),
    ensures
        !concerns(poll_plan(servers)[i], servers[k].id),
{
    law_poll_plan(servers);
    lemma_idle_is_filter(servers);
    let id = servers[k].id;
    let idle = idle_servers(servers);
    if idle.len() > 0 {
        let j = (i + 1) / 2;
        lemma_idle_is_listed(servers, j);
        let m = choose|m: int|
            0 <= m < servers.len() && is_idle(#[trigger] servers[m]) && servers[m] == idle[j];
        assert(servers[m].player_count == 0 && servers[m].status != "draining"@);
        if m < k {
            assert(servers[m].id != servers[k].id);
        } else {
            assert(servers[k].id != servers[m].id);
        }
        assert(idle[j].id != id);
        law_server_keys_distinct(idle[j].id, id);
        if i > 0 && i % 2 == 0 {
            assert(i == 2 * j);
            let list = poll_plan(servers)[i]->actions;
            lemma_removals_distinct(idle[j].id, id);
            assert(!list.contains(SpawnActionView::Run(removal(id))));
        } else if i > 0 {
            assert(i == 2 * j - 1);
        }
    }
}

proof fn lemma_removals_distinct(a: Seq<char>, b: Seq<char>)
    requires
        a != b,
    ensures
        removal(a) != removal(b),
{
    law_server_keys_distinct(a, b);
    assert(removal(a)[0] == CommandView::Del { key: server_key_text(a) });
    assert(removal(b)[0] == CommandView::Del { key: server_key_text(b) });
}

/// A further player changes nothing for a server that has players already: the
/// plan depends on how full such servers are only through whether one of them
/// is filled to 85 percent.
pub proof fn law_poll_ignores_small_changes(
    servers: Seq<ServerInfoView>,
    k: int,
    player_count: int,
)
    requires
        0 <= k < servers.len(),
        servers[k].player_count > 0,
        player_count > 0,
        idle_servers(servers).len() > 0,
    ensures
        poll_plan(servers.update(k, ServerInfoView { player_count, ..servers[k] })) == poll_plan(
            servers,
        ),
{
    let other = servers.update(k, ServerInfoView { player_count, ..servers[k] });
    lemma_same_idle(servers, other, servers.len() as int, k);
    assert(servers.take(servers.len() as int) =~= servers);
    assert(other.take(other.len() as int) =~= other);
}

proof fn lemma_same_idle(a: Seq<ServerInfoView>, b: Seq<ServerInfoView>, n: int, k: int)
    requires
        a.len() == b.len(),
        0 <= n <= a.len(),
        forall|i: int| 0 <= i < a.len() && i != k ==> #[trigger] a[i] == b[i],
        0 <= k < a.len(),
        a[k].player_count > 0,
        b[k].player_count > 0,
    ensures
        idle_servers(a.take(n)) == idle_servers(b.take(n)),
    decreases n,
{
    if n > 0 {
        lemma_same_idle(a, b, n - 1, k);
        assert(a.take(n).drop_last() =~= a.take(n - 1));
        assert(b.take(n).drop_last() =~= b.take(n - 1));
        assert(a.take(n).last() == a[n - 1] && b.take(n).last() == b[n - 1]);
    } else {
        assert(a.take(0) =~= b.take(0));
    }
}

/// A server that was stopped after its drain is gone: what was carried out
/// deletes its pod and its service, and leaves nothing about it in the store.
/// No other server is touched.
pub proof fn law_stopped_server_is_gone(store: Store, server: ServerInfoView, other: Seq<char>)
    ensures
        ({
            let after = store.after_all(commands_run(stop_plan(server)));
            let name = pod_name(server);
            &&& stop_plan(server).contains(SpawnActionView::DeletePod { name, namespace: None })
            &&& stop_plan(server).contains(SpawnActionView::DeleteService { name, namespace: None })
            &&& after.hash(server_key_text(server.id)) == Map::<Seq<char>, Seq<char>>::empty()
            &&& !after.members(active_servers_key_text()).contains(server.id)
            &&& after.text(standby_server_key_text()) != Some(server.id)
            &&& other != server.id ==> {
                &&& after.members(active_servers_key_text()).contains(other) == store.members(
                    active_servers_key_text(),
                ).contains(other)
                &&& after.hash(server_key_text(other)) == store.hash(server_key_text(other))
            }
        }),
{
    let plan = stop_plan(server);
    assert(plan[0] is DeletePod && plan[1] is DeleteService);
    let p2 = plan.drop_last();
    let p1 = p2.drop_last();
    assert(p1.drop_last() =~= Seq::empty());
    assert(commands_run(p1.drop_last()) =~= Seq::empty());
    assert(commands_run(p1) =~= Seq::empty());
    assert(commands_run(p2) =~= Seq::empty());
    assert(commands_run(plan) =~= removal(server.id));
    law_remove_server(store, server.id, other);
}

/// One cycle settles the idle servers: once its commands have run, the standby
/// key names the first idle server, the surplus ones are draining, nothing
/// else changed about any listed server, and the next cycle finds exactly that
/// one idle server and drains nothing more.
pub proof fn law_poll_settles(store: Store, servers: Seq<ServerInfoView>)
    requires
        distinct_ids(servers),
        servers == refreshed(servers, store),
        idle_servers(servers).len() > 0,
    ensures
        ({
            let first = idle_servers(servers)[0];
            let after = store.after_all(immediate(poll_plan(servers)));
            let next = refreshed(servers, after);
            &&& after.text(standby_server_key_text()) == Some(first.id)
            &&& idle_servers(next) == seq![first]
            &&& immediate(poll_plan(next)) == seq![standby_update(first.id)]
            &&& forall|i: int|
                0 <= i < servers.len() ==> (#[trigger] next[i]) == if is_idle(servers[i])
                    && servers[i] != first {
                    ServerInfoView { status: "draining"@, ..servers[i] }
                } else {
                    servers[i]
                }
        }),
{
    let idle = idle_servers(servers);
    let first = idle[0];
    let surplus = idle.skip(1);
    let tag = standby_update(first.id);
    let prefix = seq![PollActionView::Run(tag)];
    lemma_immediate_drain(prefix, surplus);
    assert(prefix.drop_last() =~= Seq::empty());
    assert(immediate(prefix.drop_last()) =~= Seq::empty());
    assert(immediate(prefix) =~= seq![tag]);
    let tagged = store.after(tag);
    let after = store.after_all(immediate(poll_plan(servers)));
    lemma_after_drain(store, tag, surplus);
    let next = refreshed(servers, after);
    lemma_idle_ids_distinct(servers);
    assert forall|i: int| 0 <= i < servers.len() implies (#[trigger] next[i]) == settled(
        servers[i],
        surplus,
    ) by {
        let id = servers[i].id;
        law_key_kinds_disjoint(id, id);
        assert(tagged.hash(server_key_text(id)) == store.hash(server_key_text(id)));
        assert(refreshed(servers, store)[i] == servers[i]);
        lemma_drained_info(store, tag, surplus, id);
    }
    assert(next =~= servers.map_values(|s: ServerInfoView| settled(s, surplus)));
    lemma_settled_idle(servers, servers.len() as int);
    assert(servers.take(servers.len() as int) =~= servers);
    assert(idle_servers(next) =~= seq![first]);
    assert(idle_servers(next).skip(1) =~= Seq::empty());
    assert(poll_plan(next) =~= prefix);
    assert forall|i: int| 0 <= i < servers.len() implies in_surplus(surplus, servers[i].id) == (
    is_idle(#[trigger] servers[i]) && servers[i] != first) by {
        lemma_surplus(servers, i);
    }
}

/// Whether a list names a server.
spec fn in_surplus(surplus: Seq<ServerInfoView>, id: Seq<char>) -> bool {
    exists|k: int| 0 <= k < surplus.len() && (#[trigger] surplus[k]).id == id
}

/// A server once the surplus ones are marked.
spec fn settled(server: ServerInfoView, surplus: Seq<ServerInfoView>) -> ServerInfoView {
    if in_surplus(surplus, server.id) {
        ServerInfoView { status: "draining"@, ..server }
    } else {
        server
    }
}

proof fn lemma_drain_plan(v: Seq<ServerInfoView>)
    ensures
        drain_plan(v).len() == 2 * v.len(),
        forall|i: int|
            0 <= i < drain_plan(v).len() ==> (#[trigger] drain_plan(v)[i]) == if i % 2 == 0 {
                PollActionView::Run(field_update(v[i / 2].id, "status"@, "draining"@))
            } else {
                PollActionView::RunLater {
                    after_secs: DRAIN_DELAY_SECS as int,
                    actions: stop_plan(v[i / 2]),
                }
            },
    decreases v.len(),
{
    if v.len() > 0 {
        lemma_drain_plan(v.drop_last());
        let rest = drain_plan(v.drop_last());
        assert forall|i: int| 0 <= i < drain_plan(v).len() implies (#[trigger] drain_plan(v)[i])
            == if i % 2 == 0 {
            PollActionView::Run(field_update(v[i / 2].id, "status"@, "draining"@))
        } else {
            PollActionView::RunLater {
                after_secs: DRAIN_DELAY_SECS as int,
                actions: stop_plan(v[i / 2]),
            }
        } by {
            if i < rest.len() {
                assert(drain_plan(v)[i] == rest[i]);
                assert(v.drop_last()[i / 2] == v[i / 2]);
            }
        }
    }
}

proof fn lemma_idle_is_listed(servers: Seq<ServerInfoView>, j: int)
    requires
        0 <= j < idle_servers(servers).len(),
    ensures
        exists|k: int|
            0 <= k < servers.len() && is_idle(#[trigger] servers[k]) && servers[k] == idle_servers(
                servers,
            )[j],
    decreases servers.len(),
{
    let rest = idle_servers(servers.drop_last());
    if j < rest.len() {
        lemma_idle_is_listed(servers.drop_last(), j);
        let k = choose|k: int|
            0 <= k < servers.drop_last().len() && is_idle(#[trigger] servers.drop_last()[k])
                && servers.drop_last()[k] == rest[j];
        assert(is_idle(servers[k]));
    } else {
        assert(is_idle(servers[servers.len() - 1]));
    }
}

proof fn lemma_listed_idle_is_kept(servers: Seq<ServerInfoView>, k: int)
    requires
        0 <= k < servers.len(),
        is_idle(servers[k]),
    ensures
        exists|j: int|
            0 <= j < idle_servers(servers).len() && #[trigger] idle_servers(servers)[j]
                == servers[k],
    decreases servers.len(),
{
    let rest = idle_servers(servers.drop_last());
    if k < servers.len() - 1 {
        lemma_listed_idle_is_kept(servers.drop_last(), k);
        let j = choose|j: int| 0 <= j < rest.len() && #[trigger] rest[j] == servers[k];
        assert(idle_servers(servers)[j] == servers[k]);
    } else {
        assert(idle_servers(servers)[rest.len() as int] == servers[k]);
    }
}

proof fn lemma_idle_ids_distinct(servers: Seq<ServerInfoView>)
    requires
        distinct_ids(servers),
    ensures
        distinct_ids(idle_servers(servers)),
    decreases servers.len(),
{
    if servers.len() > 0 {
        let rest = idle_servers(servers.drop_last());
        let idle = idle_servers(servers);
        lemma_idle_ids_distinct(servers.drop_last());
        assert forall|i: int, j: int| 0 <= i < j < idle.len() implies (#[trigger] idle[i]).id != (
        #[trigger] idle[j]).id by {
            assert(idle[i] == rest[i]);
            if j == rest.len() {
                lemma_idle_is_listed(servers.drop_last(), i);
                let k = choose|k: int|
                    0 <= k < servers.drop_last().len() && is_idle(
                        #[trigger] servers.drop_last()[k],
                    ) && servers.drop_last()[k] == rest[i];
                assert(servers[k].id != servers[servers.len() - 1].id);
            }
        }
    }
}

/// A listed server is in the surplus exactly if it is idle and not the first.
proof fn lemma_surplus(servers: Seq<ServerInfoView>, i: int)
    requires
        distinct_ids(servers),
        idle_servers(servers).len() > 0,
        0 <= i < servers.len(),
    ensures
        in_surplus(idle_servers(servers).skip(1), servers[i].id) == (is_idle(servers[i])
            && servers[i] != idle_servers(servers)[0]),
{
    let idle = idle_servers(servers);
    let surplus = idle.skip(1);
    lemma_idle_ids_distinct(servers);
    if is_idle(servers[i]) && servers[i] != idle[0] {
        lemma_listed_idle_is_kept(servers, i);
        let j = choose|j: int| 0 <= j < idle.len() && #[trigger] idle[j] == servers[i];
        assert(surplus[j - 1] == idle[j]);
    }
    if in_surplus(surplus, servers[i].id) {
        let k = choose|k: int|
            0 <= k < surplus.len() && (#[trigger] surplus[k]).id == servers[i].id;
        assert(surplus[k] == idle[k + 1]);
        lemma_idle_is_listed(servers, k + 1);
        let m = choose|m: int|
            0 <= m < servers.len() && is_idle(#[trigger] servers[m]) && servers[m] == idle[k + 1];
        if m != i {
            if m < i {
                assert(servers[m].id != servers[i].id);
            } else {
                assert(servers[i].id != servers[m].id);
            }
        }
        assert(idle[0].id != idle[k + 1].id);
    }
}

proof fn lemma_idle_prefix(servers: Seq<ServerInfoView>, n: int)
    requires
        0 <= n <= servers.len(),
    ensures
        idle_servers(servers.take(n)).len() <= idle_servers(servers).len(),
        forall|j: int|
            0 <= j < idle_servers(servers.take(n)).len() ==> #[trigger] idle_servers(
                servers.take(n),
            )[j] == idle_servers(servers)[j],
    decreases servers.len() - n,
{
    if n < servers.len() {
        lemma_idle_prefix(servers, n + 1);
        assert(servers.take(n + 1).drop_last() =~= servers.take(n));
        assert forall|j: int| 0 <= j < idle_servers(servers.take(n)).len() implies #[trigger]
        idle_servers(servers.take(n))[j] == idle_servers(servers)[j] by {
            assert(idle_servers(servers.take(n + 1))[j] == idle_servers(servers)[j]);
        }
    } else {
        assert(servers.take(n) =~= servers);
    }
}

proof fn lemma_settled_idle(servers: Seq<ServerInfoView>, n: int)
    requires
        distinct_ids(servers),
        idle_servers(servers).len() > 0,
        0 <= n <= servers.len(),
    ensures
        ({
            let surplus = idle_servers(servers).skip(1);
            let before = idle_servers(servers.take(n));
            idle_servers(servers.take(n).map_values(|s: ServerInfoView| settled(s, surplus)))
                == if before.len() == 0 {
                Seq::empty()
            } else {
                seq![idle_servers(servers)[0]]
            }
        }),
    decreases n,
{
    let surplus = idle_servers(servers).skip(1);
    let now = servers.take(n).map_values(|s: ServerInfoView| settled(s, surplus));
    lemma_idle_prefix(servers, n);
    if n == 0 {
        assert(now =~= Seq::empty());
    } else {
        let before = servers.take(n - 1).map_values(|s: ServerInfoView| settled(s, surplus));
        lemma_settled_idle(servers, n - 1);
        lemma_idle_prefix(servers, n - 1);
        assert(now.drop_last() =~= before);
        assert(servers.take(n).drop_last() =~= servers.take(n - 1));
        let last = servers[n - 1];
        assert(servers.take(n).last() == last);
        assert(now.last() == settled(last, surplus));
        lemma_surplus(servers, n - 1);
        if is_idle(last) {
            let kept = idle_servers(servers.take(n - 1)).len() as int;
            assert(idle_servers(servers.take(n))[kept] == last);
            assert(idle_servers(servers)[kept] == last);
            if kept == 0 {
                assert(idle_servers(now) =~= seq![idle_servers(servers)[0]]);
            } else {
                lemma_idle_ids_distinct(servers);
                assert(idle_servers(servers)[0].id != idle_servers(servers)[kept].id);
            }
        }
    }
}

proof fn lemma_immediate_drain(prefix: Seq<PollActionView>, v: Seq<ServerInfoView>)
    ensures
        immediate(prefix + drain_plan(v)) == immediate(prefix) + drain_commands(v),
    decreases v.len(),
{
    if v.len() == 0 {
        assert(prefix + drain_plan(v) =~= prefix);
        assert(immediate(prefix) + drain_commands(v) =~= immediate(prefix));
    } else {
        let rest = v.drop_last();
        lemma_immediate_drain(prefix, rest);
        let full = prefix + drain_plan(v);
        let marked = full.drop_last();
        assert(marked.drop_last() =~= prefix + drain_plan(rest));
        assert(immediate(full) == immediate(marked));
        assert(immediate(full) =~= immediate(prefix) + drain_commands(v));
    }
}

/// Marking servers leaves the texts of the store alone.
proof fn lemma_after_drain(store: Store, tag: CommandView, v: Seq<ServerInfoView>)
    ensures
        store.after_all(seq![tag] + drain_commands(v)).texts == store.after(tag).texts,
    decreases v.len(),
{
    lemma_drain_step(store, tag, v);
    if v.len() > 0 {
        lemma_after_drain(store, tag, v.drop_last());
    }
}

proof fn lemma_drain_step(store: Store, tag: CommandView, v: Seq<ServerInfoView>)
    ensures
        store.after_all(seq![tag] + drain_commands(v)) == if v.len() == 0 {
            store.after(tag)
        } else {
            store.after_all(seq![tag] + drain_commands(v.drop_last())).after(
                field_update(v.last().id, "status"@, "draining"@),
            )
        },
{
    let list = seq![tag] + drain_commands(v);
    if v.len() == 0 {
        assert(list =~= seq![tag]);
        law_after_one(store, tag);
    } else {
        assert(list.drop_last() =~= seq![tag] + drain_commands(v.drop_last()));
    }
}

/// What marking servers does to what the store says about one of them.
proof fn lemma_drained_info(
    store: Store,
    tag: CommandView,
    v: Seq<ServerInfoView>,
    id: Seq<char>,
)
    ensures
        ({
            let key = server_key_text(id);
            let was = server_info(id, store.after(tag).hash(key));
            server_info(id, store.after_all(seq![tag] + drain_commands(v)).hash(key))
                == if in_surplus(v, id) {
                ServerInfoView { status: "draining"@, ..was }
            } else {
                was
            }
        }),
    decreases v.len(),
{
    lemma_drain_step(store, tag, v);
    if v.len() > 0 {
        let rest = v.drop_last();
        let before = store.after_all(seq![tag] + drain_commands(rest));
        lemma_drained_info(store, tag, rest, id);
        if v.last().id == id {
            assert(v[v.len() - 1].id == id);
            lemma_mark(before, id);
        } else {
            law_server_keys_distinct(v.last().id, id);
        }
        if in_surplus(rest, id) {
            let k = choose|k: int| 0 <= k < rest.len() && (#[trigger] rest[k]).id == id;
            assert(v[k].id == id);
        }
        if in_surplus(v, id) && v.last().id != id {
            let k = choose|k: int| 0 <= k < v.len() && (#[trigger] v[k]).id == id;
            assert(rest[k].id == id);
        }
    }
}

proof fn lemma_mark(store: Store, id: Seq<char>)
    ensures
        ({
            let key = server_key_text(id);
            let after = store.after(field_update(id, "status"@, "draining"@));
            server_info(id, after.hash(key)) == (ServerInfoView {
                status: "draining"@,
                ..server_info(id, store.hash(key))
            })
        }),
{
    let update = field_update(id, "status"@, "draining"@);
    law_set_status(store, id, "draining"@);
    law_after_one(store, update);
}

} // verus!
