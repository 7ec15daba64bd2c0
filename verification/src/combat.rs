//! Combat resolution: collecting the tick's shots, testing each against
//! every other player, applying damage, and respawning the dead.
use vstd::prelude::*;

use crate::codec::{decode_player_shoot, spec_decode_player_shoot};
use crate::geom::{ray_hits_player, spec_ray_hits, Vec3Fx};
use crate::ingestion::msgs_view;
use crate::lifecycle::{despawn_player, spawn_player};
use crate::messages::{outbound_view, MessageV, Outbound, OutboundV, PlayerShoot, ServerMessage};
use crate::player::{
    ammo_reward_of, damage_of, spec_ammo_reward, spec_damage, spec_default_record, AmmoTable,
    PlayerRecord, RecordV, Weapon,
};
use crate::registry::{
    assoc_remove, assoc_set, has_id, idx_of, lemma_assoc_set_has, val_of, GraceTracker, Registry,
};

verus! {

/// The ammunition table after the post-kill reward for the equipped
/// weapon, stopping at the counter's ceiling.
pub open spec fn spec_reward_ammo(t: AmmoTable, w: Weapon) -> AmmoTable {
    t.spec_with(
        w,
        if t.spec_count(w) + spec_ammo_reward(w) <= u32::MAX {
            (t.spec_count(w) + spec_ammo_reward(w)) as u32
        } else {
            u32::MAX
        },
    )
}

/// The hits one shot scores against the first `n` registry entries, in
/// registry order: every other player whose position the ray passes
/// within the collision radius, each with the weapon's fixed damage.
pub open spec fn spec_shot_hits(
    reg: Seq<(u64, RecordV)>,
    shooter: u64,
    shot: PlayerShoot,
    n: int,
) -> Seq<(u64, u64, u32)>
    decreases n,
{
    if n <= 0 {
        Seq::empty()
    } else {
        let prev = spec_shot_hits(reg, shooter, shot, n - 1);
        if reg[n - 1].0 != shooter && spec_ray_hits(reg[n - 1].1.position, shot.from, shot.to) {
            prev.push((shooter, reg[n - 1].0, spec_damage(shot.weapon) as u32))
        } else {
            prev
        }
    }
}

/// The hits of the first `n` shots of the tick, in arrival order,
/// all tested against the registry as it stood before any damage.
pub open spec fn spec_collect_hits(
    reg: Seq<(u64, RecordV)>,
    shots: Seq<(u64, PlayerShoot)>,
    n: int,
) -> Seq<(u64, u64, u32)>
    decreases n,
{
    if n <= 0 {
        Seq::empty()
    } else {
        spec_collect_hits(reg, shots, n - 1) + spec_shot_hits(
            reg,
            shots[n - 1].0,
            shots[n - 1].1,
            reg.len() as int,
        )
    }
}

/// Every hit of one shot names this shooter, a victim other than the
/// shooter, and a damage amount within the weapon table's range.
proof fn lemma_shot_hits_sane(reg: Seq<(u64, RecordV)>, shooter: u64, shot: PlayerShoot, n: int)
    ensures
        forall|i: int|
            0 <= i < spec_shot_hits(reg, shooter, shot, n).len() ==> (#[trigger] spec_shot_hits(
                reg,
                shooter,
                shot,
                n,
            )[i]).0 == shooter && spec_shot_hits(reg, shooter, shot, n)[i].1 != shooter
                && spec_shot_hits(reg, shooter, shot, n)[i].2 <= 800,
    decreases n,
{
    if n > 0 {
        lemma_shot_hits_sane(reg, shooter, shot, n - 1);
        let prev = spec_shot_hits(reg, shooter, shot, n - 1);
        let cur = spec_shot_hits(reg, shooter, shot, n);
        assert forall|i: int|
            0 <= i < cur.len() implies (#[trigger] cur[i]).0 == shooter && cur[i].1 != shooter
            && cur[i].2 <= 800 by {
            if i < prev.len() {
                assert(cur[i] == prev[i]);
            }
        }
    }
}

/// Every collected hit pairs a shooter with someone else and carries a
/// damage amount within the weapon table's range.
pub proof fn lemma_collect_hits_sane(
    reg: Seq<(u64, RecordV)>,
    shots: Seq<(u64, PlayerShoot)>,
    n: int,
)
    ensures
        forall|i: int|
            0 <= i < spec_collect_hits(reg, shots, n).len() ==> (#[trigger] spec_collect_hits(
                reg,
                shots,
                n,
            )[i]).0 != spec_collect_hits(reg, shots, n)[i].1 && spec_collect_hits(
                reg,
                shots,
                n,
            )[i].2 <= 800,
    decreases n,
{
    if n > 0 {
        lemma_collect_hits_sane(reg, shots, n - 1);
        lemma_shot_hits_sane(reg, shots[n - 1].0, shots[n - 1].1, reg.len() as int);
        let prev = spec_collect_hits(reg, shots, n - 1);
        let tail = spec_shot_hits(reg, shots[n - 1].0, shots[n - 1].1, reg.len() as int);
        let cur = spec_collect_hits(reg, shots, n);
        assert forall|i: int|
            0 <= i < cur.len() implies (#[trigger] cur[i]).0 != cur[i].1 && cur[i].2 <= 800 by {
            if i < prev.len() {
                assert(cur[i] == prev[i]);
            } else {
                assert(cur[i] == tail[i - prev.len()]);
            }
        }
    }
}

/// The shots of the tick that deserialize, in arrival order, among the
/// first `n` reliable-channel messages.
pub open spec fn spec_decode_shots(msgs: Seq<(u64, Seq<u8>)>, n: int) -> Seq<(u64, PlayerShoot)>
    decreases n,
{
    if n <= 0 {
        Seq::empty()
    } else {
        let prev = spec_decode_shots(msgs, n - 1);
        match spec_decode_player_shoot(msgs[n - 1].1) {
            Some(sh) => prev.push((msgs[n - 1].0, sh)),
            None => prev,
        }
    }
}

/// Deserializes the tick's shot messages, discarding malformed ones.
fn decode_shots(messages: &Vec<(u64, Vec<u8>)>) -> (r: Vec<(u64, PlayerShoot)>)
    ensures
        r@ == spec_decode_shots(msgs_view(messages@), messages@.len() as int),
        forall|i: int| 0 <= i < r@.len() ==> (#[trigger] r@[i].1).wf(),
{
    let n = messages.len();
    let mut out: Vec<(u64, PlayerShoot)> = Vec::new();
    let mut k: usize = 0;
    while k < n
        invariant
            n == messages@.len(),
            k <= n,
            out@ == spec_decode_shots(msgs_view(messages@), k as int),
            forall|i: int| 0 <= i < out@.len() ==> (#[trigger] out@[i].1).wf(),
        decreases n - k,
    {
        let id = messages[k].0;
        match decode_player_shoot(&messages[k].1) {
            Some(sh) => {
                out.push((id, sh));
            },
            None => {},
        }
        proof {
            assert(msgs_view(messages@)[k as int] == (id, messages@[k as int].1@));
        }
        k = k + 1;
    }
    out
}

/// Tests every decoded shot against every other registered player, on
/// the registry as it stands, and lists the hits in processing order.
pub fn collect_hits(reg: &Registry, shots: &Vec<(u64, PlayerShoot)>) -> (r: Vec<(u64, u64, u32)>)
    requires
        reg.inv(),
        forall|i: int| 0 <= i < shots@.len() ==> (#[trigger] shots@[i].1).wf(),
    ensures
        r@ == spec_collect_hits(reg@, shots@, shots@.len() as int),
{
    let n = shots.len();
    let m = reg.len();
    let mut out: Vec<(u64, u64, u32)> = Vec::new();
    let mut k: usize = 0;
    while k < n
        invariant
            reg.inv(),
            n == shots@.len(),
            m == reg@.len(),
            k <= n,
            forall|i: int| 0 <= i < shots@.len() ==> (#[trigger] shots@[i].1).wf(),
            out@ == spec_collect_hits(reg@, shots@, k as int),
        decreases n - k,
    {
        let shooter = shots[k].0;
        let shot = shots[k].1;
        let mut j: usize = 0;
        while j < m
            invariant
                reg.inv(),
                m == reg@.len(),
                j <= m,
                shooter == shots@[k as int].0,
                shot == shots@[k as int].1,
                shot.wf(),
                out@ == spec_collect_hits(reg@, shots@, k as int) + spec_shot_hits(
                    reg@,
                    shooter,
                    shot,
                    j as int,
                ),
            decreases m - j,
        {
            let victim_id = reg.id_at(j);
            let rec = reg.record_at(j);
            proof {
                assert(reg@[j as int].1.wf());
            }
            let pos = rec.position;
            if victim_id != shooter {
                let hit = ray_hits_player(pos, shot.from, shot.to);
                if hit {
                    let dmg = damage_of(shot.weapon);
                    out.push((shooter, victim_id, dmg));
                }
            }
            j = j + 1;
        }
        k = k + 1;
    }
    proof {
        assert(out@ =~= spec_collect_hits(reg@, shots@, n as int));
    }
    out
}

/// What one hit does. The victim, if still registered, loses exactly the
/// damage amount and alone receives the new health. A kill additionally:
/// rewards the shooter's equipped weapon with ammunition, removes the
/// victim (leave notice to all), respawns it at `spawn` with the
/// connect-time defaults when the table is not empty (join notice to the
/// others, grace window opened, death notice with the fresh record to
/// the victim), and forces a full lobby broadcast this tick.
pub open spec fn spec_apply_hit(
    reg: Seq<(u64, RecordV)>,
    grace: Seq<(u64, u64)>,
    spots: Seq<Vec3Fx>,
    out: Seq<OutboundV>,
    flag: bool,
    hit: (u64, u64, u32),
    spawn: Vec3Fx,
    now: u64,
) -> (Seq<(u64, RecordV)>, Seq<(u64, u64)>, Seq<OutboundV>, bool) {
    let shooter = hit.0;
    let victim = hit.1;
    let dmg = hit.2;
    if !has_id(reg, victim) {
        (reg, grace, out, flag)
    } else {
        let vrec = val_of(reg, victim);
        let h2 = (vrec.health - dmg) as i32;
        let out1 = out.push(
            OutboundV::To(victim, MessageV::PlayerHit { client_id: victim, new_health: h2 }),
        );
        if h2 > 0 {
            (assoc_set(reg, victim, RecordV { health: h2, ..vrec }), grace, out1, flag)
        } else {
            let reg1 = if has_id(reg, shooter) {
                let srec = val_of(reg, shooter);
                assoc_set(
                    reg,
                    shooter,
                    RecordV { ammo: spec_reward_ammo(srec.ammo, srec.actual_weapon), ..srec },
                )
            } else {
                reg
            };
            let reg2 = assoc_remove(reg1, victim);
            let out2 = out1.push(OutboundV::Broadcast(MessageV::PlayerLeave(victim)));
            if spots.len() == 0 {
                (reg2, grace, out2, true)
            } else {
                let reg3 = assoc_set(reg2, victim, spec_default_record(spawn));
                let grace1 = assoc_set(grace, victim, now);
                let out3 = out2.push(
                    OutboundV::BroadcastExcept(victim, MessageV::PlayerJoin(victim)),
                );
                let out4 = out3.push(
                    OutboundV::To(
                        victim,
                        MessageV::PlayerDeath { dead: victim, attr: spec_default_record(spawn) },
                    ),
                );
                (reg3, grace1, out4, true)
            }
        }
    }
}

/// Applies one hit to the live state; `spawn` reports the spawn point
/// used if the hit killed and the table was not empty.
pub fn apply_hit(
    reg: &mut Registry,
    grace: &mut GraceTracker,
    spots: &Vec<Vec3Fx>,
    hit: (u64, u64, u32),
    now: u64,
    out: &mut Vec<Outbound>,
    flag: &mut bool,
) -> (spawn: Ghost<Vec3Fx>)
    requires
        old(reg).inv(),
        old(grace).inv(),
        forall|i: int| 0 <= i < spots@.len() ==> (#[trigger] spots@[i]).wf(),
        hit.2 <= 800,
    ensures
        final(reg).inv(),
        final(grace).inv(),
        spots@.len() > 0 ==> spots@.contains(spawn@),
        (final(reg)@, final(grace)@, outbound_view(final(out)@), *final(flag))
            == spec_apply_hit(
            old(reg)@,
            old(grace)@,
            spots@,
            outbound_view(old(out)@),
            *old(flag),
            hit,
            spawn@,
            now,
        ),
{
    let shooter = hit.0;
    let victim = hit.1;
    let dmg = hit.2;
    let ghost fallback = if spots@.len() > 0 {
        spots@[0]
    } else {
        Vec3Fx { x: 0, y: 0, z: 0 }
    };
    let ghost pre_reg = reg@;
    let ghost pre_grace = grace@;
    let ghost pre_out = outbound_view(old(out)@);
    let ghost pre_flag = *old(flag);
    let h2: i32;
    let mut updated: PlayerRecord;
    match reg.get(victim) {
        None => {
            proof {
                if spots@.len() > 0 {
                    assert(spots@.contains(fallback)) by {
                        assert(spots@[0] == fallback);
                    }
                }
            }
            return Ghost(fallback);
        },
        Some(v) => {
            proof {
                let i = idx_of(pre_reg, victim);
                assert(0 <= i < pre_reg.len() && pre_reg[i].0 == victim);
                assert(pre_reg[i].1.wf());
            }
            h2 = v.health - (dmg as i32);
            updated = v.duplicate();
        },
    }
    updated.health = h2;
    proof {
        assert(1 <= val_of(pre_reg, victim).health <= 100);
        assert(h2 == (val_of(pre_reg, victim).health - hit.2) as i32);
    }
    out.push(Outbound::To(victim, ServerMessage::PlayerHit { client_id: victim, new_health: h2 }));
    let ghost out1 = outbound_view(out@);
    proof {
        assert(out1 =~= outbound_view(old(out)@).push(
            OutboundV::To(victim, MessageV::PlayerHit { client_id: victim, new_health: h2 }),
        ));
        assert(updated@ == RecordV { health: h2, ..val_of(pre_reg, victim) });
    }
    if h2 > 0 {
        reg.insert(victim, updated);
        proof {
            if spots@.len() > 0 {
                assert(spots@.contains(fallback)) by {
                    assert(spots@[0] == fallback);
                }
            }
            assert(outbound_view(out@) == spec_apply_hit(
                pre_reg,
                pre_grace,
                spots@,
                pre_out,
                pre_flag,
                hit,
                fallback,
                now,
            ).2);
        }
        Ghost(fallback)
    } else {
        *flag = true;
        let ghost reg_before_reward = reg@;
        match reg.get(shooter) {
            None => {},
            Some(srec) => {
                let w = srec.actual_weapon;
                let mut updated_s = srec.duplicate();
                let reward = ammo_reward_of(w);
                updated_s.ammo.add_saturating(w, reward);
                proof {
                    let i = idx_of(reg_before_reward, shooter);
                    assert(0 <= i < reg_before_reward.len() && reg_before_reward[i].0 == shooter);
                    assert(reg_before_reward[i].1.wf());
                    assert(updated_s@ == RecordV {
                        ammo: spec_reward_ammo(
                            val_of(reg_before_reward, shooter).ammo,
                            val_of(reg_before_reward, shooter).actual_weapon,
                        ),
                        ..val_of(reg_before_reward, shooter)
                    });
                }
                reg.insert(shooter, updated_s);
            },
        }
        despawn_player(reg, victim, out);
        let ghost reg_after_despawn = reg@;
        let sp = spawn_player(reg, grace, spots, victim, now, out);
        let ghost chosen = if spots@.len() > 0 {
            sp@
        } else {
            fallback
        };
        let ghost out_after_spawn = outbound_view(out@);
        match reg.get(victim) {
            None => {
                proof {
                    if spots@.len() > 0 {
                        lemma_assoc_set_has(
                            reg_after_despawn,
                            victim,
                            spec_default_record(chosen),
                        );
                    }
                }
            },
            Some(v) => {
                let attr = v.duplicate();
                proof {
                    assert(attr@ == spec_default_record(chosen));
                }
                out.push(Outbound::To(victim, ServerMessage::PlayerDeath { dead: victim, attr }));
                proof {
                    assert(outbound_view(out@) =~= out_after_spawn.push(
                        OutboundV::To(
                            victim,
                            MessageV::PlayerDeath {
                                dead: victim,
                                attr: spec_default_record(chosen),
                            },
                        ),
                    ));
                }
            },
        }
        proof {
            let vrec = val_of(pre_reg, victim);
            let s_h2 = (vrec.health - hit.2) as i32;
            assert(s_h2 == h2);
            assert(!(s_h2 > 0));
            let out1s = pre_out.push(
                OutboundV::To(victim, MessageV::PlayerHit { client_id: victim, new_health: s_h2 }),
            );
            assert(out1 == out1s);
            let out2s = out1s.push(OutboundV::Broadcast(MessageV::PlayerLeave(victim)));
            if spots@.len() == 0 {
                assert(outbound_view(out@) == out2s);
            } else {
                let out3s = out2s.push(
                    OutboundV::BroadcastExcept(victim, MessageV::PlayerJoin(victim)),
                );
                let out4s = out3s.push(
                    OutboundV::To(
                        victim,
                        MessageV::PlayerDeath { dead: victim, attr: spec_default_record(chosen) },
                    ),
                );
                assert(out_after_spawn == out3s);
                assert(outbound_view(out@) == out4s);
            }
            assert(outbound_view(out@) == spec_apply_hit(
                pre_reg,
                pre_grace,
                spots@,
                pre_out,
                pre_flag,
                hit,
                chosen,
                now,
            ).2);
        }
        Ghost(chosen)
    }
}


/// The fold of `spec_apply_hit` over the tick's hits, in order, one
/// spawn-point choice per hit (ignored where the hit does not kill or
/// the table is empty).
pub open spec fn spec_apply_hits(
    reg: Seq<(u64, RecordV)>,
    grace: Seq<(u64, u64)>,
    spots: Seq<Vec3Fx>,
    out: Seq<OutboundV>,
    flag: bool,
    hits: Seq<(u64, u64, u32)>,
    spawns: Seq<Vec3Fx>,
    now: u64,
) -> (Seq<(u64, RecordV)>, Seq<(u64, u64)>, Seq<OutboundV>, bool)
    decreases hits.len(),
{
    if hits.len() == 0 {
        (reg, grace, out, flag)
    } else {
        let step = spec_apply_hit(reg, grace, spots, out, flag, hits[0], spawns[0], now);
        spec_apply_hits(
            step.0,
            step.1,
            spots,
            step.2,
            step.3,
            hits.drop_first(),
            spawns.drop_first(),
            now,
        )
    }
}

/// Applying one more hit folds one more step.
proof fn lemma_apply_hits_snoc(
    reg: Seq<(u64, RecordV)>,
    grace: Seq<(u64, u64)>,
    spots: Seq<Vec3Fx>,
    out: Seq<OutboundV>,
    flag: bool,
    hits: Seq<(u64, u64, u32)>,
    spawns: Seq<Vec3Fx>,
    hit: (u64, u64, u32),
    sp: Vec3Fx,
    now: u64,
)
    requires
        spawns.len() == hits.len(),
    ensures
        spec_apply_hits(reg, grace, spots, out, flag, hits.push(hit), spawns.push(sp), now) == ({
            let mid = spec_apply_hits(reg, grace, spots, out, flag, hits, spawns, now);
            spec_apply_hit(mid.0, mid.1, spots, mid.2, mid.3, hit, sp, now)
        }),
    decreases hits.len(),
{
    reveal_with_fuel(spec_apply_hits, 2);
    if hits.len() == 0 {
        assert(hits.push(hit)[0] == hit);
        assert(spawns.push(sp)[0] == sp);
        assert(hits.push(hit).drop_first() =~= Seq::<(u64, u64, u32)>::empty());
        assert(spawns.push(sp).drop_first() =~= Seq::<Vec3Fx>::empty());
    } else {
        assert(hits.push(hit)[0] == hits[0]);
        assert(spawns.push(sp)[0] == spawns[0]);
        assert(hits.push(hit).drop_first() =~= hits.drop_first().push(hit));
        assert(spawns.push(sp).drop_first() =~= spawns.drop_first().push(sp));
        let step = spec_apply_hit(reg, grace, spots, out, flag, hits[0], spawns[0], now);
        lemma_apply_hits_snoc(
            step.0,
            step.1,
            spots,
            step.2,
            step.3,
            hits.drop_first(),
            spawns.drop_first(),
            hit,
            sp,
            now,
        );
    }
}

/// The hits the tick's raw shot messages score against the registry:
/// the messages that deserialize, in order, each tested against every
/// other registered player.
pub open spec fn spec_shoot_hits_of(
    reg: Seq<(u64, RecordV)>,
    msgs: Seq<(u64, Seq<u8>)>,
) -> Seq<(u64, u64, u32)> {
    let shots = spec_decode_shots(msgs, msgs.len() as int);
    spec_collect_hits(reg, shots, shots.len() as int)
}

/// Drains the tick's reliable-channel shot messages: every shot that
/// deserializes is tested against every other player on the pre-damage
/// registry, then the hits are applied in order — exact damage, a hit
/// notice to each victim, and for each kill the ammunition reward,
/// leave/join notices, a respawn at a random table point with a fresh
/// grace window, and a death notice. Returns whether a kill demands an
/// immediate full lobby broadcast.
pub fn receive_shoot_system(
    reg: &mut Registry,
    grace: &mut GraceTracker,
    spots: &Vec<Vec3Fx>,
    messages: &Vec<(u64, Vec<u8>)>,
    now: u64,
    out: &mut Vec<Outbound>,
) -> (r: (bool, Ghost<Seq<Vec3Fx>>))
    requires
        old(reg).inv(),
        old(grace).inv(),
        forall|i: int| 0 <= i < spots@.len() ==> (#[trigger] spots@[i]).wf(),
    ensures
        final(reg).inv(),
        final(grace).inv(),
        r.1@.len() == spec_shoot_hits_of(old(reg)@, msgs_view(messages@)).len(),
        spots@.len() > 0 ==> forall|i: int|
            0 <= i < r.1@.len() ==> spots@.contains(#[trigger] r.1@[i]),
        (final(reg)@, final(grace)@, outbound_view(final(out)@), r.0) == spec_apply_hits(
            old(reg)@,
            old(grace)@,
            spots@,
            outbound_view(old(out)@),
            false,
            spec_shoot_hits_of(old(reg)@, msgs_view(messages@)),
            r.1@,
            now,
        ),
{
    let ghost reg0 = reg@;
    let ghost grace0 = grace@;
    let ghost out0 = outbound_view(out@);
    let shots = decode_shots(messages);
    let hits = collect_hits(reg, &shots);
    proof {
        lemma_collect_hits_sane(reg0, shots@, shots@.len() as int);
    }
    let mut flag = false;
    let mut spawns_w: Ghost<Seq<Vec3Fx>> = Ghost(Seq::empty());
    let n = hits.len();
    let mut k: usize = 0;
    while k < n
        invariant
            reg.inv(),
            grace.inv(),
            n == hits@.len(),
            k <= n,
            forall|i: int| 0 <= i < spots@.len() ==> (#[trigger] spots@[i]).wf(),
            forall|i: int| 0 <= i < hits@.len() ==> (#[trigger] hits@[i]).2 <= 800,
            spawns_w@.len() == k,
            spots@.len() > 0 ==> forall|i: int|
                0 <= i < spawns_w@.len() ==> spots@.contains(#[trigger] spawns_w@[i]),
            (reg@, grace@, outbound_view(out@), flag) == spec_apply_hits(
                reg0,
                grace0,
                spots@,
                out0,
                false,
                hits@.take(k as int),
                spawns_w@,
                now,
            ),
        decreases n - k,
    {
        let hit = hits[k];
        let sp = apply_hit(reg, grace, spots, hit, now, out, &mut flag);
        proof {
            lemma_apply_hits_snoc(
                reg0,
                grace0,
                spots@,
                out0,
                false,
                hits@.take(k as int),
                spawns_w@,
                hit,
                sp@,
                now,
            );
            assert(hits@.take(k as int).push(hit) =~= hits@.take(k as int + 1));
            if spots@.len() > 0 {
                assert(spots@.contains(sp@));
            }
            spawns_w@ = spawns_w@.push(sp@);
        }
        k = k + 1;
    }
    proof {
        assert(hits@.take(n as int) =~= hits@);
        assert(hits@ == spec_shoot_hits_of(reg0, msgs_view(messages@)));
    }
    (flag, spawns_w)
}

} // verus!
