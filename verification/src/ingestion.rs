//! State ingestion: merging client-reported state into the registry,
//! honouring the respawn grace window, and purging closed windows.
use vstd::prelude::*;

use crate::codec::{decode_client_update, spec_decode_client_update};
use crate::messages::{ClientStateUpdate, UpdateV};
use crate::player::{PlayerRecord, RecordV};
use crate::registry::{
    assoc_set, has_id, idx_of, spec_in_grace, val_of, GraceTracker, Registry, GRACE_MS,
};

verus! {

/// What a client update writes into an existing record: every
/// client-owned field, the position only outside the grace window.
/// Health, armor and velocity are server-owned and untouched.
pub open spec fn spec_merge_update(rec: RecordV, u: UpdateV, in_grace: bool) -> RecordV {
    RecordV {
        username: u.username,
        position: if in_grace {
            rec.position
        } else {
            u.position
        },
        rotation: u.rotation,
        owned_weapon: u.owned_weapon,
        actual_weapon: u.actual_weapon,
        ammo: u.ammo,
        health: rec.health,
        armor: rec.armor,
        velocity: rec.velocity,
    }
}

/// Merges one decoded update for `id` into the registry. An unknown
/// identity is discarded: the connect race makes that expected.
pub fn ingest_update(
    reg: &mut Registry,
    grace: &GraceTracker,
    id: u64,
    update: &ClientStateUpdate,
    now: u64,
)
    requires
        old(reg).inv(),
        grace.inv(),
        update@.wf(),
    ensures
        final(reg).inv(),
        final(reg)@ == if has_id(old(reg)@, id) {
            assoc_set(
                old(reg)@,
                id,
                spec_merge_update(val_of(old(reg)@, id), update@, spec_in_grace(grace@, id, now)),
            )
        } else {
            old(reg)@
        },
{
    let skip_position = grace.in_grace(id, now);
    let merged: PlayerRecord;
    match reg.get(id) {
        None => {
            return ;
        },
        Some(existing) => {
            let username = update.username.clone();
            proof {
                assert(username@ =~= update.username@);
            }
            merged = PlayerRecord {
                username,
                position: if skip_position {
                    existing.position
                } else {
                    update.position
                },
                rotation: update.rotation,
                health: existing.health,
                armor: existing.armor,
                velocity: existing.velocity,
                owned_weapon: update.owned_weapon,
                actual_weapon: update.actual_weapon,
                ammo: update.ammo,
            };
        },
    }
    proof {
        let i = idx_of(old(reg)@, id);
        assert(0 <= i < old(reg)@.len() && old(reg)@[i].0 == id);
        assert(old(reg)@[i].1.wf());
        assert(merged@.wf());
    }
    reg.insert(id, merged);
}

/// The view of a batch of raw per-client messages.
pub open spec fn msgs_view(s: Seq<(u64, Vec<u8>)>) -> Seq<(u64, Seq<u8>)> {
    s.map_values(|e: (u64, Vec<u8>)| (e.0, e.1@))
}

/// What one raw unreliable-channel message does to the registry: a
/// malformed blob or an unknown identity leaves it unchanged.
pub open spec fn spec_ingest_msg(
    reg: Seq<(u64, RecordV)>,
    grace: Seq<(u64, u64)>,
    id: u64,
    bytes: Seq<u8>,
    now: u64,
) -> Seq<(u64, RecordV)> {
    match spec_decode_client_update(bytes) {
        Some(u) => if has_id(reg, id) {
            assoc_set(reg, id, spec_merge_update(val_of(reg, id), u, spec_in_grace(grace, id, now)))
        } else {
            reg
        },
        None => reg,
    }
}

/// The fold of `spec_ingest_msg` over the first `n` messages of a batch.
pub open spec fn spec_ingest_all(
    reg: Seq<(u64, RecordV)>,
    grace: Seq<(u64, u64)>,
    msgs: Seq<(u64, Seq<u8>)>,
    now: u64,
    n: int,
) -> Seq<(u64, RecordV)>
    decreases n,
{
    if n <= 0 {
        reg
    } else {
        spec_ingest_msg(
            spec_ingest_all(reg, grace, msgs, now, n - 1),
            grace,
            msgs[n - 1].0,
            msgs[n - 1].1,
            now,
        )
    }
}

/// Drains the tick's unreliable-channel messages in arrival order:
/// each one that deserializes and names a connected client is merged
/// (position suppressed inside the grace window), the rest are
/// discarded; afterwards the closed grace windows are purged.
pub fn receive_message_system(
    reg: &mut Registry,
    grace: &mut GraceTracker,
    messages: &Vec<(u64, Vec<u8>)>,
    now: u64,
)
    requires
        old(reg).inv(),
        old(grace).inv(),
    ensures
        final(reg).inv(),
        final(grace).inv(),
        final(reg)@ == spec_ingest_all(
            old(reg)@,
            old(grace)@,
            msgs_view(messages@),
            now,
            messages@.len() as int,
        ),
        final(grace)@ == old(grace)@.filter(|e: (u64, u64)| now < e.1 + GRACE_MS),
{
    let ghost reg0 = reg@;
    let ghost grace0 = grace@;
    let n = messages.len();
    let mut k: usize = 0;
    while k < n
        invariant
            reg.inv(),
            grace.inv(),
            grace@ == grace0,
            n == messages@.len(),
            k <= n,
            reg@ == spec_ingest_all(reg0, grace0, msgs_view(messages@), now, k as int),
        decreases n - k,
    {
        let ghost pre = reg@;
        let id = messages[k].0;
        match decode_client_update(&messages[k].1) {
            Some(update) => {
                ingest_update(reg, grace, id, &update, now);
            },
            None => {},
        }
        proof {
            assert(msgs_view(messages@)[k as int] == (id, messages@[k as int].1@));
            assert(reg@ == spec_ingest_msg(pre, grace0, id, messages@[k as int].1@, now));
        }
        k = k + 1;
    }
    grace.purge(now);
}

} // verus!
