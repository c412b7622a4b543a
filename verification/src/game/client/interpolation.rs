//! Remote players, as the position batches tell of them.

use vstd::prelude::*;

use crate::packets::{Point, PositionBatch, PositionSnapshot};

verus! {

/// Tracks a remote (server-side) entity on the client.
#[derive(Debug, Clone, Copy, PartialEq, Eq, Structural)]
pub struct RemotePlayer {
    pub entity_id: u32,
    pub target: Point,
    pub prev: Point,
}

/// A remote player that is to appear.
#[derive(Debug, Clone, Copy, PartialEq, Eq, Structural)]
pub struct NewPlayer {
    pub remote: RemotePlayer,
    /// Whether it is the client's own player, which is rendered green; other
    /// players are blue.
    pub is_me: bool,
}

/// Where a snapshot puts its entity.
pub open spec fn position(snap: PositionSnapshot) -> Point {
    Point { x: snap.x, y: snap.y }
}

/// The remote player that a snapshot of a new entity lets appear.
pub open spec fn new_player(snap: PositionSnapshot, my_id: Option<u32>) -> NewPlayer {
    NewPlayer {
        remote: RemotePlayer {
            entity_id: snap.entity_id,
            target: position(snap),
            prev: position(snap),
        },
        is_me: my_id == Some(snap.entity_id),
    }
}

/// Whether an entity appeared already.
pub open spec fn appeared(players: Seq<NewPlayer>, entity_id: u32) -> bool {
    exists|i: int| 0 <= i < players.len() && (#[trigger] players[i]).remote.entity_id == entity_id
}

/// The players that snapshots let appear: one for each entity that is neither
/// shown yet nor seen in an earlier snapshot.
pub open spec fn new_players(
    snaps: Seq<PositionSnapshot>,
    existing: Seq<u32>,
    my_id: Option<u32>,
) -> Seq<NewPlayer>
    decreases snaps.len(),
{
    if snaps.len() == 0 {
        Seq::empty()
    } else {
        let rest = new_players(snaps.drop_last(), existing, my_id);
        let snap = snaps.last();
        if existing.contains(snap.entity_id) || appeared(rest, snap.entity_id) {
            rest
        } else {
            rest.push(new_player(snap, my_id))
        }
    }
}

/// All snapshots of a list of batches, in order.
pub open spec fn all_snapshots(batches: Seq<PositionBatch>) -> Seq<PositionSnapshot>
    decreases batches.len(),
{
    if batches.len() == 0 {
        Seq::empty()
    } else {
        all_snapshots(batches.drop_last()) + batches.last().snapshots@
    }
}

fn contains_id(existing: &Vec<u32>, entity_id: u32) -> (res: bool)
    ensures
        res == existing@.contains(entity_id),
{
    let mut i: usize = 0;
    while i < existing.len()
        invariant
            i <= existing@.len(),
            forall|k: int| 0 <= k < i ==> #[trigger] existing@[k] != entity_id,
        decreases existing@.len() - i,
    {
        if existing[i] == entity_id {
            return true;
        }
        i = i + 1;
    }
    false
}

fn has_appeared(players: &Vec<NewPlayer>, entity_id: u32) -> (res: bool)
    ensures
        res == appeared(players@, entity_id),
{
    let mut i: usize = 0;
    while i < players.len()
        invariant
            i <= players@.len(),
            forall|k: int| 0 <= k < i ==> (#[trigger] players@[k]).remote.entity_id != entity_id,
        decreases players@.len() - i,
    {
        if players[i].remote.entity_id == entity_id {
            return true;
        }
        i = i + 1;
    }
    false
}

/// Spawn a circle for each new entity_id seen in position batches.
pub fn spawn_remote_players(
    batches: &Vec<PositionBatch>,
    existing: &Vec<u32>,
    my_id: Option<u32>,
) -> (res: Vec<NewPlayer>)
    ensures
        res@ == new_players(all_snapshots(batches@), existing@, my_id),
{
    let mut out: Vec<NewPlayer> = Vec::new();
    let mut i: usize = 0;
    assert(out@ =~= new_players(all_snapshots(batches@.take(0)), existing@, my_id));
    while i < batches.len()
        invariant
            i <= batches@.len(),
            out@ == new_players(all_snapshots(batches@.take(i as int)), existing@, my_id),
        decreases batches@.len() - i,
    {
        let ghost before = all_snapshots(batches@.take(i as int));
        let snapshots = &batches[i].snapshots;
        proof {
            assert(batches@.take(i + 1).drop_last() =~= batches@.take(i as int));
            assert(before + snapshots@.take(0) =~= before);
        }
        let mut k: usize = 0;
        while k < snapshots.len()
            invariant
                k <= snapshots@.len(),
                out@ == new_players(before + snapshots@.take(k as int), existing@, my_id),
            decreases snapshots@.len() - k,
        {
            let snap = snapshots[k];
            let ghost now = before + snapshots@.take(k + 1);
            proof {
                assert(now.drop_last() =~= before + snapshots@.take(k as int));
                assert(now.last() == snap);
            }
            if !contains_id(existing, snap.entity_id) && !has_appeared(&out, snap.entity_id) {
                let pos = Point { x: snap.x, y: snap.y };
                let is_me = match my_id {
                    Some(id) => id == snap.entity_id,
                    None => false,
                };
                out.push(
                    NewPlayer {
                        remote: RemotePlayer { entity_id: snap.entity_id, target: pos, prev: pos },
                        is_me,
                    },
                );
            }
            k = k + 1;
        }
        assert(snapshots@.take(snapshots@.len() as int) =~= snapshots@);
        i = i + 1;
    }
    assert(batches@.take(batches@.len() as int) =~= batches@);
    out
}

/// Every entity that the batches tell of is shown in the end, none twice, and
/// none anew that was shown already.
pub proof fn law_one_circle_per_entity(
    snaps: Seq<PositionSnapshot>,
    existing: Seq<u32>,
    my_id: Option<u32>,
)
    ensures
        ({
            let new = new_players(snaps, existing, my_id);
            &&& forall|i: int, j: int|
                0 <= i < j < new.len() ==> (#[trigger] new[i]).remote.entity_id != (
                #[trigger] new[j]).remote.entity_id
            &&& forall|i: int|
                0 <= i < new.len() ==> !existing.contains((#[trigger] new[i]).remote.entity_id)
            &&& forall|k: int|
                0 <= k < snaps.len() ==> existing.contains((#[trigger] snaps[k]).entity_id)
                    || appeared(new, snaps[k].entity_id)
        }),
    decreases snaps.len(),
{
    if snaps.len() > 0 {
        let before = snaps.drop_last();
        let rest = new_players(before, existing, my_id);
        let new = new_players(snaps, existing, my_id);
        law_one_circle_per_entity(before, existing, my_id);
        assert forall|k: int| 0 <= k < snaps.len() implies existing.contains(
            (#[trigger] snaps[k]).entity_id,
        ) || appeared(new, snaps[k].entity_id) by {
            if k < before.len() {
                assert(before[k] == snaps[k]);
                if appeared(rest, snaps[k].entity_id) {
                    let i = choose|i: int|
                        0 <= i < rest.len() && (#[trigger] rest[i]).remote.entity_id
                            == snaps[k].entity_id;
                    assert(new[i] == rest[i]);
                }
            } else if new.len() > rest.len() {
                assert(new[rest.len() as int].remote.entity_id == snaps[k].entity_id);
            }
        }
    }
}

/// What one more snapshot lets appear: nothing if its entity is shown already or
/// was seen before, and otherwise one player, at the position of the snapshot,
/// who is the client's own exactly if the ids are the same.
pub proof fn law_one_more_snapshot(
    snaps: Seq<PositionSnapshot>,
    snap: PositionSnapshot,
    existing: Seq<u32>,
    my_id: Option<u32>,
)
    ensures
        ({
            let before = new_players(snaps, existing, my_id);
            let seen = existing.contains(snap.entity_id) || exists|k: int|
                0 <= k < snaps.len() && (#[trigger] snaps[k]).entity_id == snap.entity_id;
            let at = Point { x: snap.x, y: snap.y };
            new_players(snaps.push(snap), existing, my_id) == if seen {
                before
            } else {
                before.push(
                    NewPlayer {
                        remote: RemotePlayer { entity_id: snap.entity_id, target: at, prev: at },
                        is_me: my_id == Some(snap.entity_id),
                    },
                )
            }
        }),
        new_players(Seq::empty(), existing, my_id).len() == 0,
{
    let id = snap.entity_id;
    let before = new_players(snaps, existing, my_id);
    assert(snaps.push(snap).drop_last() =~= snaps);
    law_one_circle_per_entity(snaps, existing, my_id);
    if exists|k: int| 0 <= k < snaps.len() && (#[trigger] snaps[k]).entity_id == id {
        let k = choose|k: int| 0 <= k < snaps.len() && (#[trigger] snaps[k]).entity_id == id;
        assert(existing.contains(snaps[k].entity_id) || appeared(before, snaps[k].entity_id));
    }
    if appeared(before, id) {
        lemma_appeared_was_seen(snaps, existing, my_id, id);
    }
}

proof fn lemma_appeared_was_seen(
    snaps: Seq<PositionSnapshot>,
    existing: Seq<u32>,
    my_id: Option<u32>,
    id: u32,
)
    requires
        appeared(new_players(snaps, existing, my_id), id),
    ensures
        exists|k: int| 0 <= k < snaps.len() && (#[trigger] snaps[k]).entity_id == id,
    decreases snaps.len(),
{
    let now = new_players(snaps, existing, my_id);
    if snaps.len() > 0 {
        let rest = snaps.drop_last();
        let before = new_players(rest, existing, my_id);
        let i = choose|i: int| 0 <= i < now.len() && (#[trigger] now[i]).remote.entity_id == id;
        if i < before.len() {
            assert(before[i] == now[i]);
            lemma_appeared_was_seen(rest, existing, my_id, id);
            let k = choose|k: int| 0 <= k < rest.len() && (#[trigger] rest[k]).entity_id == id;
            assert(snaps[k].entity_id == id);
        } else {
            assert(snaps[snaps.len() - 1].entity_id == id);
        }
    }
}

/// The snapshots of batches are those of one batch after the other; and a
/// snapshot puts its entity where it says.
pub proof fn law_all_snapshots(batches: Seq<PositionBatch>, batch: PositionBatch, k: int)
    ensures
        all_snapshots(Seq::empty()).len() == 0,
        all_snapshots(batches.push(batch)) == all_snapshots(batches) + batch.snapshots@,
        0 <= k < batch.snapshots@.len() ==> position(batch.snapshots@[k]).x
            == batch.snapshots@[k].x && position(batch.snapshots@[k]).y == batch.snapshots@[k].y,
{
    assert(batches.push(batch).drop_last() =~= batches);
}

impl RemotePlayer {
    /// Takes in a snapshot of some entity. `moved` says whether its position is
    /// farther from the target than the threshold below which updates are
    /// skipped; then it becomes the target.
    pub fn retarget(&mut self, snap: &PositionSnapshot, moved: bool)
        ensures
            *final(self) == (if old(self).entity_id == snap.entity_id && moved {
                RemotePlayer {
                    target: position(*snap),
                    prev: old(self).target,
                    ..*old(self)
                }
            } else {
                *old(self)
            }),
    {
        if self.entity_id == snap.entity_id && moved {
            self.prev = self.target;
            self.target = Point { x: snap.x, y: snap.y };
        }
    }
}

} // verus!
