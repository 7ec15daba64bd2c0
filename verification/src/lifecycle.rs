//! Connection lifecycle: spawning a player at connect or respawn, and
//! removing one at disconnect, with the join/leave notices each implies.
use vstd::prelude::*;

use crate::geom::Vec3Fx;
use crate::messages::{outbound_view, MessageV, Outbound, OutboundV, ServerMessage};
use crate::player::{default_player_attributes, spec_default_record};
use crate::registry::{assoc_remove, assoc_set, has_id, GraceTracker, Registry};

verus! {

/// A transport connection event, in arrival order.
#[derive(Clone, Copy, PartialEq, Eq, Structural, Debug)]
pub enum ConnectionEvent {
    Connected { client_id: u64 },
    Disconnected { client_id: u64 },
}

/// Relies on `rand::random_range`: returns a value drawn uniformly from
/// `0..len`; it panics only on an empty range, which the precondition
/// excludes.
#[verifier::external_body]
fn random_index(len: usize) -> (r: usize)
    requires
        len > 0,
    ensures
        r < len,
{
    rand::random_range(0..len)
}

/// What spawning `id` at `spawn` does: the registry gains the default
/// record at `spawn`, the grace window opens at `now`, and every other
/// client is told about the join.
pub open spec fn spec_spawned_at(
    pre_reg: Seq<(u64, crate::player::RecordV)>,
    pre_grace: Seq<(u64, u64)>,
    pre_out: Seq<OutboundV>,
    post_reg: Seq<(u64, crate::player::RecordV)>,
    post_grace: Seq<(u64, u64)>,
    post_out: Seq<OutboundV>,
    id: u64,
    spawn: Vec3Fx,
    now: u64,
) -> bool {
    &&& post_reg == assoc_set(pre_reg, id, spec_default_record(spawn))
    &&& post_grace == assoc_set(pre_grace, id, now)
    &&& post_out == pre_out.push(OutboundV::BroadcastExcept(id, MessageV::PlayerJoin(id)))
}

/// Spawns `id` at the given point: inserts the connect-time default
/// record, tells every other client, and opens the respawn grace window.
pub fn spawn_player_at(
    reg: &mut Registry,
    grace: &mut GraceTracker,
    id: u64,
    spawn: Vec3Fx,
    now: u64,
    out: &mut Vec<Outbound>,
)
    requires
        old(reg).inv(),
        old(grace).inv(),
        spawn.wf(),
    ensures
        final(reg).inv(),
        final(grace).inv(),
        spec_spawned_at(
            old(reg)@,
            old(grace)@,
            outbound_view(old(out)@),
            final(reg)@,
            final(grace)@,
            outbound_view(final(out)@),
            id,
            spawn,
            now,
        ),
{
    let rec = default_player_attributes(spawn);
    reg.insert(id, rec);
    out.push(Outbound::BroadcastExcept(id, ServerMessage::PlayerJoin(id)));
    grace.set(id, now);
    proof {
        assert(outbound_view(final(out)@) =~= outbound_view(old(out)@).push(
            OutboundV::BroadcastExcept(id, MessageV::PlayerJoin(id)),
        ));
    }
}

/// Spawns `id` at a spawn point drawn uniformly at random from the table.
/// With an empty table nothing happens: the connect attempt yields no
/// registry entry.
pub fn spawn_player(
    reg: &mut Registry,
    grace: &mut GraceTracker,
    spots: &Vec<Vec3Fx>,
    id: u64,
    now: u64,
    out: &mut Vec<Outbound>,
) -> (spawn: Ghost<Vec3Fx>)
    requires
        old(reg).inv(),
        old(grace).inv(),
        forall|i: int| 0 <= i < spots@.len() ==> (#[trigger] spots@[i]).wf(),
    ensures
        final(reg).inv(),
        final(grace).inv(),
        spots@.len() == 0 ==> final(reg)@ == old(reg)@ && final(grace)@ == old(grace)@
            && final(out)@ == old(out)@,
        spots@.len() > 0 ==> spots@.contains(spawn@) && spec_spawned_at(
            old(reg)@,
            old(grace)@,
            outbound_view(old(out)@),
            final(reg)@,
            final(grace)@,
            outbound_view(final(out)@),
            id,
            spawn@,
            now,
        ),
{
    if spots.len() == 0 {
        Ghost(Vec3Fx { x: 0, y: 0, z: 0 })
    } else {
        let idx = random_index(spots.len());
        let spawn = spots[idx];
        spawn_player_at(reg, grace, id, spawn, now, out);
        Ghost(spawn)
    }
}

/// Disconnects `id`: the record is removed unconditionally (absence is
/// not an error) and every client is told about the leave.
pub fn despawn_player(reg: &mut Registry, id: u64, out: &mut Vec<Outbound>)
    requires
        old(reg).inv(),
    ensures
        final(reg).inv(),
        final(reg)@ == assoc_remove(old(reg)@, id),
        !has_id(final(reg)@, id),
        outbound_view(final(out)@) == outbound_view(old(out)@).push(
            OutboundV::Broadcast(MessageV::PlayerLeave(id)),
        ),
{
    reg.remove(id);
    out.push(Outbound::Broadcast(ServerMessage::PlayerLeave(id)));
    proof {
        assert(outbound_view(final(out)@) =~= outbound_view(old(out)@).push(
            OutboundV::Broadcast(MessageV::PlayerLeave(id)),
        ));
    }
}

/// What one connection event does to registry, grace tracker and send
/// queue; `spawn` is the spawn point used if the event is a connect and
/// the table is not empty.
pub open spec fn spec_apply_event(
    reg: Seq<(u64, crate::player::RecordV)>,
    grace: Seq<(u64, u64)>,
    out: Seq<OutboundV>,
    spots: Seq<Vec3Fx>,
    ev: ConnectionEvent,
    spawn: Vec3Fx,
    now: u64,
) -> (Seq<(u64, crate::player::RecordV)>, Seq<(u64, u64)>, Seq<OutboundV>) {
    match ev {
        ConnectionEvent::Connected { client_id } => {
            if spots.len() == 0 {
                (reg, grace, out)
            } else {
                (
                    assoc_set(reg, client_id, spec_default_record(spawn)),
                    assoc_set(grace, client_id, now),
                    out.push(OutboundV::BroadcastExcept(client_id, MessageV::PlayerJoin(client_id))),
                )
            }
        },
        ConnectionEvent::Disconnected { client_id } => {
            (
                assoc_remove(reg, client_id),
                grace,
                out.push(OutboundV::Broadcast(MessageV::PlayerLeave(client_id))),
            )
        },
    }
}

/// The fold of `spec_apply_event` over a queue of events, one spawn-point
/// choice per event (ignored where the event is not a connect).
pub open spec fn spec_handle_events(
    reg: Seq<(u64, crate::player::RecordV)>,
    grace: Seq<(u64, u64)>,
    out: Seq<OutboundV>,
    spots: Seq<Vec3Fx>,
    events: Seq<ConnectionEvent>,
    spawns: Seq<Vec3Fx>,
    now: u64,
) -> (Seq<(u64, crate::player::RecordV)>, Seq<(u64, u64)>, Seq<OutboundV>)
    decreases events.len(),
{
    if events.len() == 0 {
        (reg, grace, out)
    } else {
        let step = spec_apply_event(reg, grace, out, spots, events[0], spawns[0], now);
        spec_handle_events(
            step.0,
            step.1,
            step.2,
            spots,
            events.drop_first(),
            spawns.drop_first(),
            now,
        )
    }
}

/// Processing one more event folds one more step.
proof fn lemma_handle_events_snoc(
    reg: Seq<(u64, crate::player::RecordV)>,
    grace: Seq<(u64, u64)>,
    out: Seq<OutboundV>,
    spots: Seq<Vec3Fx>,
    events: Seq<ConnectionEvent>,
    spawns: Seq<Vec3Fx>,
    ev: ConnectionEvent,
    sp: Vec3Fx,
    now: u64,
)
    requires
        spawns.len() == events.len(),
    ensures
        spec_handle_events(reg, grace, out, spots, events.push(ev), spawns.push(sp), now) == ({
            let mid = spec_handle_events(reg, grace, out, spots, events, spawns, now);
            spec_apply_event(mid.0, mid.1, mid.2, spots, ev, sp, now)
        }),
    decreases events.len(),
{
    reveal_with_fuel(spec_handle_events, 2);
    if events.len() == 0 {
        assert(events.push(ev)[0] == ev);
        assert(spawns.push(sp)[0] == sp);
        assert(events.push(ev).drop_first() =~= Seq::<ConnectionEvent>::empty());
        assert(spawns.push(sp).drop_first() =~= Seq::<Vec3Fx>::empty());
    } else {
        assert(events.push(ev)[0] == events[0]);
        assert(spawns.push(sp)[0] == spawns[0]);
        assert(events.push(ev).drop_first() =~= events.drop_first().push(ev));
        assert(spawns.push(sp).drop_first() =~= spawns.drop_first().push(sp));
        let step = spec_apply_event(reg, grace, out, spots, events[0], spawns[0], now);
        lemma_handle_events_snoc(
            step.0,
            step.1,
            step.2,
            spots,
            events.drop_first(),
            spawns.drop_first(),
            ev,
            sp,
            now,
        );
    }
}

/// Reacts to the tick's connection events in order: a connect spawns the
/// client at a table point drawn at random, a disconnect removes it; the
/// matching join/leave notices are queued in the same order.
pub fn handle_events_system(
    reg: &mut Registry,
    grace: &mut GraceTracker,
    spots: &Vec<Vec3Fx>,
    events: &Vec<ConnectionEvent>,
    now: u64,
    out: &mut Vec<Outbound>,
) -> (spawns: Ghost<Seq<Vec3Fx>>)
    requires
        old(reg).inv(),
        old(grace).inv(),
        forall|i: int| 0 <= i < spots@.len() ==> (#[trigger] spots@[i]).wf(),
    ensures
        final(reg).inv(),
        final(grace).inv(),
        spawns@.len() == events@.len(),
        spots@.len() > 0 ==> forall|i: int|
            0 <= i < spawns@.len() ==> spots@.contains(#[trigger] spawns@[i]),
        (final(reg)@, final(grace)@, outbound_view(final(out)@)) == spec_handle_events(
            old(reg)@,
            old(grace)@,
            outbound_view(old(out)@),
            spots@,
            events@,
            spawns@,
            now,
        ),
{
    let ghost reg0 = reg@;
    let ghost grace0 = grace@;
    let ghost out0 = outbound_view(out@);
    let mut spawns_w: Ghost<Seq<Vec3Fx>> = Ghost(Seq::empty());
    let n = events.len();
    let mut k: usize = 0;
    while k < n
        invariant
            reg.inv(),
            grace.inv(),
            n == events@.len(),
            k <= n,
            forall|i: int| 0 <= i < spots@.len() ==> (#[trigger] spots@[i]).wf(),
            spawns_w@.len() == k,
            spots@.len() > 0 ==> forall|i: int|
                0 <= i < spawns_w@.len() ==> spots@.contains(#[trigger] spawns_w@[i]),
            (reg@, grace@, outbound_view(out@)) == spec_handle_events(
                reg0,
                grace0,
                out0,
                spots@,
                events@.take(k as int),
                spawns_w@,
                now,
            ),
        decreases n - k,
    {
        let ghost pre_reg = reg@;
        let ghost pre_grace = grace@;
        let ghost pre_out = outbound_view(out@);
        let ev = events[k];
        let ghost used_spawn = Vec3Fx { x: 0, y: 0, z: 0 };
        match ev {
            ConnectionEvent::Connected { client_id } => {
                let sp = spawn_player(reg, grace, spots, client_id, now, out);
                proof {
                    if spots@.len() > 0 {
                        used_spawn = sp@;
                    }
                }
            },
            ConnectionEvent::Disconnected { client_id } => {
                despawn_player(reg, client_id, out);
                proof {
                    if spots@.len() > 0 {
                        used_spawn = spots@[0];
                    }
                }
            },
        }
        proof {
            if spots@.len() > 0 {
                assert(spots@.contains(used_spawn)) by {
                    if ev is Disconnected {
                        assert(spots@[0] == used_spawn);
                    }
                }
            }
            assert((reg@, grace@, outbound_view(out@)) == spec_apply_event(
                pre_reg,
                pre_grace,
                pre_out,
                spots@,
                ev,
                used_spawn,
                now,
            ));
            lemma_handle_events_snoc(
                reg0,
                grace0,
                out0,
                spots@,
                events@.take(k as int),
                spawns_w@,
                ev,
                used_spawn,
                now,
            );
            assert(events@.take(k as int).push(ev) =~= events@.take(k as int + 1));
            spawns_w@ = spawns_w@.push(used_spawn);
        }
        k = k + 1;
    }
    proof {
        assert(events@.take(n as int) =~= events@);
    }
    spawns_w
}

} // verus!
