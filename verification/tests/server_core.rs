use fps_server_core::codec::{decode_server_message, encode_client_update, encode_player_shoot};
use fps_server_core::geom::Vec3Fx;
use fps_server_core::lifecycle::{handle_events_system, ConnectionEvent};
use fps_server_core::messages::{ClientStateUpdate, Outbound, PlayerShoot, ServerMessage};
use fps_server_core::player::{AmmoTable, Weapon, WeaponSet};
use fps_server_core::registry::{GraceTracker, Registry};

fn one_spot_table(x: i32, y: i32, z: i32) -> Vec<Vec3Fx> {
    vec![Vec3Fx { x, y, z }]
}

fn connect(reg: &mut Registry, grace: &mut GraceTracker, spots: &Vec<Vec3Fx>, id: u64, now: u64) -> Vec<Outbound> {
    let mut out: Vec<Outbound> = Vec::new();
    let events = vec![ConnectionEvent::Connected { client_id: id }];
    handle_events_system(reg, grace, spots, &events, now, &mut out);
    out
}

fn full_update(username: &str, pos: Vec3Fx) -> ClientStateUpdate {
    ClientStateUpdate {
        username: username.as_bytes().to_vec(),
        position: pos,
        rotation: fps_server_core::geom::QuatFx { x: 0, y: 0, z: 0, w: 1 },
        owned_weapon: WeaponSet {
            gun: true,
            shotgun: false,
            gatling: false,
            rocket_launcher: false,
            bfg: false,
        },
        actual_weapon: Weapon::Gun,
        ammo: AmmoTable { gun: 999, shotgun: 15, gatling: 50, rocket_launcher: 5, bfg: 1 },
    }
}

#[test]
fn connect_creates_default_record_at_table_spot() {
    let mut reg = Registry::new();
    let mut grace = GraceTracker::new();
    let spots = one_spot_table(0, 200, 0);
    let out = connect(&mut reg, &mut grace, &spots, 1, 0);
    assert_eq!(reg.len(), 1);
    let rec = reg.get(1).expect("record must exist");
    assert_eq!(rec.position, Vec3Fx { x: 0, y: 200, z: 0 });
    assert_eq!(rec.health, 100);
    assert_eq!(rec.armor, 0);
    assert_eq!(rec.actual_weapon, Weapon::Gun);
    assert!(rec.owned_weapon.gun);
    assert!(!rec.owned_weapon.shotgun);
    assert!(!rec.owned_weapon.bfg);
    assert_eq!(rec.ammo.gun, 999);
    assert_eq!(rec.ammo.bfg, 1);
    assert!(rec.username.is_empty());
    assert_eq!(rec.velocity, Vec3Fx { x: 0, y: 0, z: 0 });
    assert_eq!(out.len(), 1);
    assert_eq!(out[0], Outbound::BroadcastExcept(1, ServerMessage::PlayerJoin(1)));
    assert!(grace.in_grace(1, 499));
    assert!(!grace.in_grace(1, 500));
}

#[test]
fn connect_with_empty_table_creates_no_record() {
    let mut reg = Registry::new();
    let mut grace = GraceTracker::new();
    let spots: Vec<Vec3Fx> = Vec::new();
    let out = connect(&mut reg, &mut grace, &spots, 1, 0);
    assert_eq!(reg.len(), 0);
    assert!(!reg.contains(1));
    assert!(out.is_empty());
    assert!(!grace.in_grace(1, 0));
}

#[test]
fn disconnect_removes_and_notifies_once() {
    let mut reg = Registry::new();
    let mut grace = GraceTracker::new();
    let spots = one_spot_table(0, 200, 0);
    connect(&mut reg, &mut grace, &spots, 1, 0);
    connect(&mut reg, &mut grace, &spots, 2, 0);
    let mut out: Vec<Outbound> = Vec::new();
    let events = vec![ConnectionEvent::Disconnected { client_id: 1 }];
    handle_events_system(&mut reg, &mut grace, &spots, &events, 0, &mut out);
    assert!(!reg.contains(1));
    assert!(reg.contains(2));
    assert_eq!(out, vec![Outbound::Broadcast(ServerMessage::PlayerLeave(1))]);
}

#[test]
fn disconnect_of_unknown_identity_is_silent() {
    let mut reg = Registry::new();
    let mut grace = GraceTracker::new();
    let spots = one_spot_table(0, 200, 0);
    let mut out: Vec<Outbound> = Vec::new();
    let events = vec![ConnectionEvent::Disconnected { client_id: 77 }];
    handle_events_system(&mut reg, &mut grace, &spots, &events, 0, &mut out);
    assert_eq!(reg.len(), 0);
    assert_eq!(out, vec![Outbound::Broadcast(ServerMessage::PlayerLeave(77))]);
}

#[test]
fn grace_window_suppresses_position_but_merges_the_rest() {
    let mut reg = Registry::new();
    let mut grace = GraceTracker::new();
    let spots = one_spot_table(0, 200, 0);
    connect(&mut reg, &mut grace, &spots, 1, 0);
    let update = full_update("alice", Vec3Fx { x: 500, y: 0, z: 0 });
    let bytes = encode_client_update(&update);
    let inbox = vec![(1u64, bytes)];
    fps_server_core::ingestion::receive_message_system(&mut reg, &mut grace, &inbox, 100);
    let rec = reg.get(1).expect("record must exist");
    assert_eq!(rec.position, Vec3Fx { x: 0, y: 200, z: 0 });
    assert_eq!(rec.username, b"alice".to_vec());
    assert_eq!(rec.health, 100);
}

#[test]
fn position_applies_after_grace_window_closes() {
    let mut reg = Registry::new();
    let mut grace = GraceTracker::new();
    let spots = one_spot_table(0, 200, 0);
    connect(&mut reg, &mut grace, &spots, 1, 0);
    let update = full_update("bob", Vec3Fx { x: 500, y: 0, z: 0 });
    let bytes = encode_client_update(&update);
    let inbox = vec![(1u64, bytes)];
    fps_server_core::ingestion::receive_message_system(&mut reg, &mut grace, &inbox, 600);
    let rec = reg.get(1).expect("record must exist");
    assert_eq!(rec.position, Vec3Fx { x: 500, y: 0, z: 0 });
    assert_eq!(rec.username, b"bob".to_vec());
}

#[test]
fn unknown_client_update_is_discarded() {
    let mut reg = Registry::new();
    let mut grace = GraceTracker::new();
    let update = full_update("ghost", Vec3Fx { x: 1, y: 2, z: 3 });
    let bytes = encode_client_update(&update);
    let inbox = vec![(9u64, bytes)];
    fps_server_core::ingestion::receive_message_system(&mut reg, &mut grace, &inbox, 0);
    assert_eq!(reg.len(), 0);
}

#[test]
fn malformed_update_is_discarded() {
    let mut reg = Registry::new();
    let mut grace = GraceTracker::new();
    let spots = one_spot_table(0, 200, 0);
    connect(&mut reg, &mut grace, &spots, 1, 0);
    let inbox = vec![(1u64, vec![1u8, 2, 3])];
    fps_server_core::ingestion::receive_message_system(&mut reg, &mut grace, &inbox, 600);
    let rec = reg.get(1).expect("record must exist");
    assert_eq!(rec.position, Vec3Fx { x: 0, y: 200, z: 0 });
    assert!(rec.username.is_empty());
}

#[test]
fn grace_purge_drops_closed_windows() {
    let mut grace = GraceTracker::new();
    grace.set(1, 0);
    grace.set(2, 400);
    grace.purge(600);
    assert!(!grace.in_grace(1, 10));
    assert!(grace.in_grace(2, 601));
}

#[test]
fn gun_shot_deals_seventeen_damage_and_notifies_victim() {
    let mut reg = Registry::new();
    let mut grace = GraceTracker::new();
    let spots = one_spot_table(0, 0, 0);
    connect(&mut reg, &mut grace, &spots, 2, 0);
    // Move the shooter's record away from the line of fire.
    reg.insert(1, fps_server_core::player::default_player_attributes(Vec3Fx { x: 4000, y: 0, z: 0 }));
    let shot = PlayerShoot {
        weapon: Weapon::Gun,
        from: Vec3Fx { x: 0, y: 0, z: -500 },
        to: Vec3Fx { x: 0, y: 0, z: 0 },
    };
    let msg = encode_player_shoot(&shot);
    let inbox = vec![(1u64, msg)];
    let mut out: Vec<Outbound> = Vec::new();
    let (flag, _) = fps_server_core::combat::receive_shoot_system(
        &mut reg, &mut grace, &spots, &inbox, 1000, &mut out,
    );
    assert!(!flag);
    let rec = reg.get(2).expect("victim still registered");
    assert_eq!(rec.health, 83);
    assert_eq!(
        out,
        vec![Outbound::To(2, ServerMessage::PlayerHit { client_id: 2, new_health: 83 })]
    );
}

#[test]
fn self_shots_never_register() {
    let mut reg = Registry::new();
    let mut grace = GraceTracker::new();
    let spots = one_spot_table(0, 0, 0);
    connect(&mut reg, &mut grace, &spots, 1, 0);
    let shot = PlayerShoot {
        weapon: Weapon::Bfg,
        from: Vec3Fx { x: 0, y: 0, z: -500 },
        to: Vec3Fx { x: 0, y: 0, z: 0 },
    };
    let msg = encode_player_shoot(&shot);
    let inbox = vec![(1u64, msg)];
    let mut out: Vec<Outbound> = Vec::new();
    let (flag, _) = fps_server_core::combat::receive_shoot_system(
        &mut reg, &mut grace, &spots, &inbox, 1000, &mut out,
    );
    assert!(!flag);
    assert!(out.is_empty());
    assert_eq!(reg.get(1).unwrap().health, 100);
}

#[test]
fn each_weapon_deals_its_fixed_damage() {
    for (weapon, expected) in [
        (Weapon::Gun, 83),
        (Weapon::Shotgun, 72),
        (Weapon::Gatling, 92),
    ] {
        let mut reg = Registry::new();
        let mut grace = GraceTracker::new();
        let spots = one_spot_table(0, 0, 0);
        connect(&mut reg, &mut grace, &spots, 2, 0);
        reg.insert(
            1,
            fps_server_core::player::default_player_attributes(Vec3Fx { x: 4000, y: 0, z: 0 }),
        );
        let shot = PlayerShoot {
            weapon,
            from: Vec3Fx { x: 0, y: 0, z: -500 },
            to: Vec3Fx { x: 0, y: 0, z: 0 },
        };
        let inbox = vec![(1u64, encode_player_shoot(&shot))];
        let mut out: Vec<Outbound> = Vec::new();
        fps_server_core::combat::receive_shoot_system(
            &mut reg, &mut grace, &spots, &inbox, 1000, &mut out,
        );
        assert_eq!(reg.get(2).unwrap().health, expected);
    }
}

#[test]
fn repeated_hits_kill_respawn_and_flag_broadcast() {
    let mut reg = Registry::new();
    let mut grace = GraceTracker::new();
    let spots = one_spot_table(0, 0, 0);
    connect(&mut reg, &mut grace, &spots, 2, 0);
    reg.insert(
        1,
        fps_server_core::player::default_player_attributes(Vec3Fx { x: 4000, y: 0, z: 0 }),
    );
    let shot = PlayerShoot {
        weapon: Weapon::Gun,
        from: Vec3Fx { x: 0, y: 0, z: -500 },
        to: Vec3Fx { x: 0, y: 0, z: 0 },
    };
    // Six gun hits take health to 100 - 6*17 = -2: the sixth one kills.
    let inbox: Vec<(u64, Vec<u8>)> =
        (0..6).map(|_| (1u64, encode_player_shoot(&shot))).collect();
    let mut out: Vec<Outbound> = Vec::new();
    let (flag, _) = fps_server_core::combat::receive_shoot_system(
        &mut reg, &mut grace, &spots, &inbox, 7777, &mut out,
    );
    assert!(flag);
    let rec = reg.get(2).expect("victim respawned");
    assert_eq!(rec.health, 100);
    assert_eq!(rec.position, Vec3Fx { x: 0, y: 0, z: 0 });
    assert!(rec.username.is_empty());
    // The victim got one hit notice per hit, the last with health -2.
    let hits: Vec<&Outbound> = out
        .iter()
        .filter(|o| matches!(o, Outbound::To(2, ServerMessage::PlayerHit { .. })))
        .collect();
    assert_eq!(hits.len(), 6);
    assert_eq!(
        hits[5],
        &Outbound::To(2, ServerMessage::PlayerHit { client_id: 2, new_health: -2 })
    );
    // Leave and join notices surround the respawn, then the death notice.
    assert!(out.contains(&Outbound::Broadcast(ServerMessage::PlayerLeave(2))));
    assert!(out.contains(&Outbound::BroadcastExcept(2, ServerMessage::PlayerJoin(2))));
    let death = out
        .iter()
        .find(|o| matches!(o, Outbound::To(2, ServerMessage::PlayerDeath { .. })))
        .expect("death notice sent");
    if let Outbound::To(2, ServerMessage::PlayerDeath { dead, attr }) = death {
        assert_eq!(*dead, 2);
        assert_eq!(attr.health, 100);
        assert_eq!(attr.position, Vec3Fx { x: 0, y: 0, z: 0 });
    } else {
        unreachable!();
    }
    // The kill rewards the shooter's equipped weapon with ammunition.
    assert_eq!(reg.get(1).unwrap().ammo.gun, 999 + 15);
    // The respawn reopened the grace window at the tick's time.
    assert!(grace.in_grace(2, 7777 + 499));
    assert!(!grace.in_grace(2, 7777 + 500));
}

#[test]
fn ammo_reward_saturates_at_the_counter_ceiling() {
    let mut reg = Registry::new();
    let mut grace = GraceTracker::new();
    let spots = one_spot_table(0, 0, 0);
    connect(&mut reg, &mut grace, &spots, 2, 0);
    let mut shooter = fps_server_core::player::default_player_attributes(Vec3Fx {
        x: 4000,
        y: 0,
        z: 0,
    });
    shooter.ammo.gun = u32::MAX;
    reg.insert(1, shooter);
    let shot = PlayerShoot {
        weapon: Weapon::Bfg,
        from: Vec3Fx { x: 0, y: 0, z: -500 },
        to: Vec3Fx { x: 0, y: 0, z: 0 },
    };
    let inbox = vec![(1u64, encode_player_shoot(&shot))];
    let mut out: Vec<Outbound> = Vec::new();
    fps_server_core::combat::receive_shoot_system(
        &mut reg, &mut grace, &spots, &inbox, 0, &mut out,
    );
    assert_eq!(reg.get(1).unwrap().ammo.gun, u32::MAX);
}

#[test]
fn broadcast_is_byte_identical_without_mutation() {
    let mut reg = Registry::new();
    let mut grace = GraceTracker::new();
    let spots = one_spot_table(0, 200, 0);
    connect(&mut reg, &mut grace, &spots, 1, 0);
    connect(&mut reg, &mut grace, &spots, 2, 0);
    let a = fps_server_core::broadcast::send_message_system(&reg);
    let b = fps_server_core::broadcast::send_message_system(&reg);
    assert_eq!(a, b);
    // The payload reflects the exact registry contents at send time.
    match decode_server_message(&a) {
        Some(ServerMessage::LobbySync(entries)) => {
            assert_eq!(entries.len(), 2);
            assert_eq!(entries[0].0, 1);
            assert_eq!(entries[1].0, 2);
            assert_eq!(entries[0].1.health, 100);
            assert_eq!(entries[0].1.position, Vec3Fx { x: 0, y: 200, z: 0 });
        },
        other => panic!("expected a lobby synchronization, got {:?}", other),
    }
    // After a mutation the payload changes.
    let mut out: Vec<Outbound> = Vec::new();
    let events = vec![ConnectionEvent::Disconnected { client_id: 2 }];
    handle_events_system(&mut reg, &mut grace, &spots, &events, 0, &mut out);
    let c = fps_server_core::broadcast::send_message_system(&reg);
    assert_ne!(a, c);
}

#[test]
fn spawn_table_lists_every_marked_cell() {
    let table = fps_server_core::resources::SpawnSpots::new();
    assert_eq!(table.0.len(), 33);
    assert_eq!(table.0[0], Vec3Fx { x: -5800, y: 200, z: -5800 });
    assert_eq!(table.0[32], Vec3Fx { x: 5400, y: 200, z: 5400 });
}

#[test]
fn spawned_position_always_comes_from_the_table() {
    let table = fps_server_core::resources::SpawnSpots::new();
    let mut reg = Registry::new();
    let mut grace = GraceTracker::new();
    let out = connect(&mut reg, &mut grace, &table.0, 5, 0);
    assert_eq!(out.len(), 1);
    let rec = reg.get(5).expect("record must exist");
    assert!(table.0.iter().any(|s| *s == rec.position));
}

#[test]
fn player_record_helpers_follow_the_weapon_tables() {
    let mut rec = fps_server_core::player::default_player_attributes(Vec3Fx { x: 0, y: 0, z: 0 });
    assert!(rec.has_weapon(&Weapon::Gun));
    assert!(!rec.has_weapon(&Weapon::Bfg));
    rec.add_weapon(Weapon::Bfg);
    assert!(rec.has_weapon(&Weapon::Bfg));
    assert_eq!(fps_server_core::player::damage_of(Weapon::Gun), 17);
    assert_eq!(fps_server_core::player::damage_of(Weapon::Shotgun), 28);
    assert_eq!(fps_server_core::player::damage_of(Weapon::Gatling), 8);
    assert_eq!(fps_server_core::player::damage_of(Weapon::RocketLauncher), 400);
    assert_eq!(fps_server_core::player::damage_of(Weapon::Bfg), 800);
    assert_eq!(fps_server_core::player::ammo_reward_of(Weapon::Gun), 15);
    assert_eq!(fps_server_core::player::ammo_reward_of(Weapon::Shotgun), 6);
    assert_eq!(fps_server_core::player::ammo_reward_of(Weapon::Gatling), 30);
    assert_eq!(fps_server_core::player::ammo_reward_of(Weapon::RocketLauncher), 1);
    assert_eq!(fps_server_core::player::ammo_reward_of(Weapon::Bfg), 1);
    assert_eq!(Weapon::RocketLauncher.display_name(), "RocketLauncher");
}

#[test]
fn username_resource_wraps_the_chosen_name() {
    let u = fps_server_core::MyUsername::new(String::from("carol"));
    assert_eq!(u.0, "carol");
    let synced = fps_server_core::IsSynced(false);
    assert!(!synced.0);
}

#[test]
fn whole_tick_runs_phases_in_order() {
    let mut reg = Registry::new();
    let mut grace = GraceTracker::new();
    // The table spot sits away from this tick's line of fire.
    let spots = one_spot_table(4000, 0, 4000);
    // A victim connected long ago, outside its grace window by now.
    connect(&mut reg, &mut grace, &spots, 2, 0);
    reg.insert(
        1,
        fps_server_core::player::default_player_attributes(Vec3Fx { x: 4000, y: 0, z: 0 }),
    );
    // This tick: client 3 connects, client 2 reports a new name, and
    // client 1 fires one gun shot through client 2's position.
    let events = vec![ConnectionEvent::Connected { client_id: 3 }];
    let update = full_update("victim", Vec3Fx { x: 0, y: 0, z: 0 });
    let state_msgs = vec![(2u64, encode_client_update(&update))];
    let shot = PlayerShoot {
        weapon: Weapon::Gun,
        from: Vec3Fx { x: 0, y: 0, z: -500 },
        to: Vec3Fx { x: 0, y: 0, z: 0 },
    };
    let shot_msgs = vec![(1u64, encode_player_shoot(&shot))];
    let mut out: Vec<Outbound> = Vec::new();
    let (flag, blob, _, _) = fps_server_core::tick::run_tick(
        &mut reg, &mut grace, &spots, &events, &state_msgs, &shot_msgs, 1000, &mut out,
    );
    assert!(!flag);
    // The join notice precedes the hit notice: events come first.
    assert_eq!(out.len(), 2);
    assert_eq!(out[0], Outbound::BroadcastExcept(3, ServerMessage::PlayerJoin(3)));
    assert_eq!(out[1], Outbound::To(2, ServerMessage::PlayerHit { client_id: 2, new_health: 83 }));
    // The update merged before the shot resolved, and the blob holds the
    // post-combat registry.
    let rec = reg.get(2).expect("victim still registered");
    assert_eq!(rec.username, b"victim".to_vec());
    assert_eq!(rec.health, 83);
    let blob = blob.expect("three records fit any lobby blob");
    match decode_server_message(&blob) {
        Some(ServerMessage::LobbySync(entries)) => {
            assert_eq!(entries.len(), 3);
            let victim = entries.iter().find(|e| e.0 == 2).unwrap();
            assert_eq!(victim.1.health, 83);
        },
        other => panic!("expected a lobby synchronization, got {:?}", other),
    }
}
