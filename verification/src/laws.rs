//! The behavioural laws of the server core, stated over the phase
//! functions' specifications and proved once and for all. The codec's
//! round-trip laws live beside the codec, and broadcast idempotence
//! beside the broadcast.
use vstd::prelude::*;

use crate::combat::{lemma_collect_hits_sane, spec_apply_hit, spec_decode_shots, spec_shoot_hits_of};
use crate::geom::Vec3Fx;
use crate::ingestion::spec_merge_update;
use crate::lifecycle::{spec_apply_event, ConnectionEvent};
use crate::messages::{MessageV, OutboundV, UpdateV};
use crate::player::{spec_default_record, RecordV, Weapon};
use crate::registry::{
    assoc_set, has_id, lemma_assoc_remove_absent, lemma_assoc_set_val, unique_ids, val_of,
};

verus! {

/// A connect with a non-empty spawn table creates a record with full
/// health, no armor, the basic gun owned and equipped, standing at the
/// drawn table point; afterwards the identity maps to exactly that
/// record.
pub proof fn lemma_connect_creates_default(reg: Seq<(u64, RecordV)>, id: u64, spawn: Vec3Fx)
    requires
        unique_ids(reg),
    ensures
        has_id(assoc_set(reg, id, spec_default_record(spawn)), id),
        val_of(assoc_set(reg, id, spec_default_record(spawn)), id) == spec_default_record(spawn),
        spec_default_record(spawn).health == 100,
        spec_default_record(spawn).armor == 0,
        spec_default_record(spawn).owned_weapon.spec_owns(Weapon::Gun),
        spec_default_record(spawn).actual_weapon == Weapon::Gun,
        spec_default_record(spawn).position == spawn,
{
    lemma_assoc_set_val(reg, id, spec_default_record(spawn));
}

/// A disconnect removes the identity from the registry at once, and the
/// remaining clients are sent exactly one leave notice for it.
pub proof fn lemma_disconnect_removes(
    reg: Seq<(u64, RecordV)>,
    grace: Seq<(u64, u64)>,
    out: Seq<OutboundV>,
    spots: Seq<Vec3Fx>,
    id: u64,
    spawn: Vec3Fx,
    now: u64,
)
    requires
        unique_ids(reg),
    ensures
        ({
            let post = spec_apply_event(
                reg,
                grace,
                out,
                spots,
                ConnectionEvent::Disconnected { client_id: id },
                spawn,
                now,
            );
            &&& !has_id(post.0, id)
            &&& post.1 == grace
            &&& post.2 == out.push(OutboundV::Broadcast(MessageV::PlayerLeave(id)))
        }),
{
    lemma_assoc_remove_absent(reg, id);
}

/// Inside the respawn grace window a state update leaves the position
/// exactly as it was while the other client-owned fields still apply;
/// outside it the reported position is taken. Health, armor and velocity
/// are server-owned and untouched either way.
pub proof fn lemma_grace_window(rec: RecordV, u: UpdateV, in_grace: bool)
    ensures
        spec_merge_update(rec, u, true).position == rec.position,
        spec_merge_update(rec, u, false).position == u.position,
        spec_merge_update(rec, u, in_grace).username == u.username,
        spec_merge_update(rec, u, in_grace).rotation == u.rotation,
        spec_merge_update(rec, u, in_grace).owned_weapon == u.owned_weapon,
        spec_merge_update(rec, u, in_grace).actual_weapon == u.actual_weapon,
        spec_merge_update(rec, u, in_grace).ammo == u.ammo,
        spec_merge_update(rec, u, in_grace).health == rec.health,
        spec_merge_update(rec, u, in_grace).armor == rec.armor,
        spec_merge_update(rec, u, in_grace).velocity == rec.velocity,
{
}

/// Self-hits never register: every hit a tick's shot messages score
/// pairs a shooter with a victim other than itself.
pub proof fn lemma_no_self_hits(reg: Seq<(u64, RecordV)>, msgs: Seq<(u64, Seq<u8>)>)
    ensures
        forall|i: int|
            0 <= i < spec_shoot_hits_of(reg, msgs).len() ==> (#[trigger] spec_shoot_hits_of(
                reg,
                msgs,
            )[i]).0 != spec_shoot_hits_of(reg, msgs)[i].1,
{
    let shots = spec_decode_shots(msgs, msgs.len() as int);
    lemma_collect_hits_sane(reg, shots, shots.len() as int);
}

/// A hit on a registered victim costs exactly the weapon's damage: the
/// victim, and only the victim, is sent a hit notice carrying the
/// post-damage health, and a surviving victim's stored record differs
/// from before in the health alone.
pub proof fn lemma_hit_exact_damage(
    reg: Seq<(u64, RecordV)>,
    grace: Seq<(u64, u64)>,
    spots: Seq<Vec3Fx>,
    out: Seq<OutboundV>,
    flag: bool,
    hit: (u64, u64, u32),
    spawn: Vec3Fx,
    now: u64,
)
    requires
        unique_ids(reg),
        has_id(reg, hit.1),
        hit.2 <= 800,
        1 <= val_of(reg, hit.1).health <= 100,
    ensures
        ({
            let post = spec_apply_hit(reg, grace, spots, out, flag, hit, spawn, now);
            let h2 = (val_of(reg, hit.1).health - hit.2) as i32;
            &&& post.2.len() > out.len()
            &&& post.2[out.len() as int] == OutboundV::To(
                hit.1,
                MessageV::PlayerHit { client_id: hit.1, new_health: h2 },
            )
            &&& h2 > 0 ==> has_id(post.0, hit.1) && val_of(post.0, hit.1) == RecordV {
                health: h2,
                ..val_of(reg, hit.1)
            }
        }),
{
    let victim = hit.1;
    let vrec = val_of(reg, victim);
    let h2 = (vrec.health - hit.2) as i32;
    let e = OutboundV::To(victim, MessageV::PlayerHit { client_id: victim, new_health: h2 });
    let out1 = out.push(e);
    assert(out1[out.len() as int] == e);
    if h2 > 0 {
        lemma_assoc_set_val(reg, victim, RecordV { health: h2, ..vrec });
    } else {
        let post = spec_apply_hit(reg, grace, spots, out, flag, hit, spawn, now);
        let out2 = out1.push(OutboundV::Broadcast(MessageV::PlayerLeave(victim)));
        assert(out2[out.len() as int] == e);
        if spots.len() > 0 {
            let out3 = out2.push(OutboundV::BroadcastExcept(victim, MessageV::PlayerJoin(victim)));
            let out4 = out3.push(
                OutboundV::To(
                    victim,
                    MessageV::PlayerDeath { dead: victim, attr: spec_default_record(spawn) },
                ),
            );
            assert(out3[out.len() as int] == e);
            assert(out4[out.len() as int] == e);
        }
    }
}

/// A killing hit, with a non-empty spawn table, replaces the victim's
/// record with a fresh default one at the drawn spawn point, reopens the
/// victim's grace window, sends the victim a death notice carrying
/// exactly the fresh record as its last message, and demands an
/// immediate full lobby broadcast.
pub proof fn lemma_kill_respawns(
    reg: Seq<(u64, RecordV)>,
    grace: Seq<(u64, u64)>,
    spots: Seq<Vec3Fx>,
    out: Seq<OutboundV>,
    flag: bool,
    hit: (u64, u64, u32),
    spawn: Vec3Fx,
    now: u64,
)
    requires
        unique_ids(reg),
        unique_ids(grace),
        has_id(reg, hit.1),
        hit.2 <= 800,
        1 <= val_of(reg, hit.1).health <= 100,
        val_of(reg, hit.1).health <= hit.2,
        spots.len() > 0,
    ensures
        ({
            let post = spec_apply_hit(reg, grace, spots, out, flag, hit, spawn, now);
            &&& post.3
            &&& has_id(post.0, hit.1)
            &&& val_of(post.0, hit.1) == spec_default_record(spawn)
            &&& post.2.last() == OutboundV::To(
                hit.1,
                MessageV::PlayerDeath { dead: hit.1, attr: spec_default_record(spawn) },
            )
            &&& has_id(post.1, hit.1)
            &&& val_of(post.1, hit.1) == now
        }),
{
    let shooter = hit.0;
    let victim = hit.1;
    let vrec = val_of(reg, victim);
    let h2 = (vrec.health - hit.2) as i32;
    assert(h2 <= 0);
    let reg1 = if has_id(reg, shooter) {
        let srec = val_of(reg, shooter);
        assoc_set(
            reg,
            shooter,
            RecordV {
                ammo: crate::combat::spec_reward_ammo(srec.ammo, srec.actual_weapon),
                ..srec
            },
        )
    } else {
        reg
    };
    if has_id(reg, shooter) {
        let srec = val_of(reg, shooter);
        lemma_assoc_set_val(
            reg,
            shooter,
            RecordV {
                ammo: crate::combat::spec_reward_ammo(srec.ammo, srec.actual_weapon),
                ..srec
            },
        );
    }
    assert(unique_ids(reg1));
    lemma_assoc_remove_absent(reg1, victim);
    let reg2 = crate::registry::assoc_remove(reg1, victim);
    lemma_assoc_set_val(reg2, victim, spec_default_record(spawn));
    lemma_assoc_set_val(grace, victim, now);
}

} // verus!
