//! One whole server tick, in the mandated phase order: connection
//! lifecycle, then state ingestion, then combat resolution, then the
//! full-state broadcast.
use vstd::prelude::*;

use crate::broadcast::send_message_system;
use crate::codec::spec_enc_message;
use crate::combat::{receive_shoot_system, spec_apply_hits, spec_shoot_hits_of};
use crate::geom::Vec3Fx;
use crate::ingestion::{msgs_view, receive_message_system, spec_ingest_all};
use crate::lifecycle::{handle_events_system, spec_handle_events, ConnectionEvent};
use crate::messages::{outbound_view, MessageV, Outbound, OutboundV};
use crate::player::RecordV;
use crate::registry::{GraceTracker, Registry, GRACE_MS};

verus! {

/// What one tick does, given the spawn points its randomized steps drew:
/// the connection events are applied first, then every state update is
/// merged and the closed grace windows purged, then the shots are
/// resolved against the post-ingestion registry.
pub open spec fn spec_run_tick(
    reg: Seq<(u64, RecordV)>,
    grace: Seq<(u64, u64)>,
    out: Seq<OutboundV>,
    spots: Seq<Vec3Fx>,
    events: Seq<ConnectionEvent>,
    state_msgs: Seq<(u64, Seq<u8>)>,
    shot_msgs: Seq<(u64, Seq<u8>)>,
    event_spawns: Seq<Vec3Fx>,
    hit_spawns: Seq<Vec3Fx>,
    now: u64,
) -> (Seq<(u64, RecordV)>, Seq<(u64, u64)>, Seq<OutboundV>, bool) {
    let s1 = spec_handle_events(reg, grace, out, spots, events, event_spawns, now);
    let reg2 = spec_ingest_all(s1.0, s1.1, state_msgs, now, state_msgs.len() as int);
    let grace2 = s1.1.filter(|e: (u64, u64)| now < e.1 + GRACE_MS);
    spec_apply_hits(
        reg2,
        grace2,
        spots,
        s1.2,
        false,
        spec_shoot_hits_of(reg2, shot_msgs),
        hit_spawns,
        now,
    )
}

/// Runs one server tick: reacts to the connection events, merges the
/// drained state updates, resolves the drained shots, and serializes the
/// resulting registry for the periodic broadcast. Returns whether a kill
/// demands an immediate broadcast, the lobby blob (absent only when the
/// registry outgrows the wire's entry count), and the spawn points the
/// two randomized steps drew.
pub fn run_tick(
    reg: &mut Registry,
    grace: &mut GraceTracker,
    spots: &Vec<Vec3Fx>,
    events: &Vec<ConnectionEvent>,
    state_msgs: &Vec<(u64, Vec<u8>)>,
    shot_msgs: &Vec<(u64, Vec<u8>)>,
    now: u64,
    out: &mut Vec<Outbound>,
) -> (r: (bool, Option<Vec<u8>>, Ghost<Seq<Vec3Fx>>, Ghost<Seq<Vec3Fx>>))
    requires
        old(reg).inv(),
        old(grace).inv(),
        forall|i: int| 0 <= i < spots@.len() ==> (#[trigger] spots@[i]).wf(),
    ensures
        final(reg).inv(),
        final(grace).inv(),
        (final(reg)@, final(grace)@, outbound_view(final(out)@), r.0) == spec_run_tick(
            old(reg)@,
            old(grace)@,
            outbound_view(old(out)@),
            spots@,
            events@,
            msgs_view(state_msgs@),
            msgs_view(shot_msgs@),
            r.2@,
            r.3@,
            now,
        ),
        r.2@.len() == events@.len(),
        spots@.len() > 0 ==> forall|i: int|
            0 <= i < r.2@.len() ==> spots@.contains(#[trigger] r.2@[i]),
        spots@.len() > 0 ==> forall|i: int|
            0 <= i < r.3@.len() ==> spots@.contains(#[trigger] r.3@[i]),
        match r.1 {
            Some(blob) => blob@ == spec_enc_message(MessageV::LobbySync(final(reg)@))
                && final(reg)@.len() <= u32::MAX,
            None => final(reg)@.len() > u32::MAX,
        },
{
    let event_spawns = handle_events_system(reg, grace, spots, events, now, out);
    receive_message_system(reg, grace, state_msgs, now);
    let shoot = receive_shoot_system(reg, grace, spots, shot_msgs, now, out);
    let blob = if reg.len() <= u32::MAX as usize {
        Some(send_message_system(reg))
    } else {
        None
    };
    (shoot.0, blob, event_spawns, shoot.1)
}

} // verus!
