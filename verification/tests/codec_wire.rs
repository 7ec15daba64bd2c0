use fps_server_core::codec::{
    decode_client_update, decode_player_shoot, decode_server_message, encode_client_update,
    encode_player_shoot, encode_server_message,
};
use fps_server_core::geom::{QuatFx, Vec3Fx};
use fps_server_core::messages::{Channel, ClientStateUpdate, PlayerShoot, ServerMessage};
use fps_server_core::player::{default_player_attributes, AmmoTable, PlayerRecord, Weapon, WeaponSet};

fn sample_record() -> PlayerRecord {
    PlayerRecord {
        username: b"dana".to_vec(),
        position: Vec3Fx { x: -5800, y: 200, z: 5400 },
        rotation: QuatFx { x: 1, y: -2, z: 3, w: -4 },
        health: 42,
        armor: 7,
        velocity: Vec3Fx { x: -1, y: 0, z: 9 },
        owned_weapon: WeaponSet {
            gun: true,
            shotgun: true,
            gatling: false,
            rocket_launcher: false,
            bfg: true,
        },
        actual_weapon: Weapon::Shotgun,
        ammo: AmmoTable { gun: 10, shotgun: 2, gatling: 0, rocket_launcher: 1, bfg: 0 },
    }
}

#[test]
fn player_join_round_trip_and_exact_bytes() {
    let m = ServerMessage::PlayerJoin(0x0807060504030201);
    let bytes = encode_server_message(&m);
    assert_eq!(bytes, vec![0u8, 1, 2, 3, 4, 5, 6, 7, 8]);
    assert_eq!(decode_server_message(&bytes), Some(m));
}

#[test]
fn player_leave_round_trip() {
    let m = ServerMessage::PlayerLeave(u64::MAX);
    let bytes = encode_server_message(&m);
    assert_eq!(decode_server_message(&bytes), Some(m));
}

#[test]
fn player_hit_round_trip_and_signed_health_bytes() {
    let m = ServerMessage::PlayerHit { client_id: 2, new_health: 83 };
    let bytes = encode_server_message(&m);
    // Tag 3, the identity, then health 83 stored excess-2^31.
    assert_eq!(bytes, vec![3u8, 2, 0, 0, 0, 0, 0, 0, 0, 0x53, 0, 0, 0x80]);
    assert_eq!(decode_server_message(&bytes), Some(m));

    let neg = ServerMessage::PlayerHit { client_id: 2, new_health: -5 };
    let neg_bytes = encode_server_message(&neg);
    assert_eq!(neg_bytes[9..13], [0xFB, 0xFF, 0xFF, 0x7F]);
    assert_eq!(decode_server_message(&neg_bytes), Some(neg));
}

#[test]
fn player_death_round_trip() {
    let m = ServerMessage::PlayerDeath { dead: 9, attr: sample_record() };
    let bytes = encode_server_message(&m);
    assert_eq!(decode_server_message(&bytes), Some(m));
}

#[test]
fn lobby_sync_round_trip() {
    let entries = vec![
        (1u64, default_player_attributes(Vec3Fx { x: 0, y: 200, z: 0 })),
        (2u64, sample_record()),
    ];
    let m = ServerMessage::LobbySync(entries);
    let bytes = encode_server_message(&m);
    assert_eq!(decode_server_message(&bytes), Some(m));
}

#[test]
fn empty_lobby_sync_round_trip() {
    let m = ServerMessage::LobbySync(Vec::new());
    let bytes = encode_server_message(&m);
    assert_eq!(bytes, vec![2u8, 0, 0, 0, 0]);
    assert_eq!(decode_server_message(&bytes), Some(m));
}

#[test]
fn client_update_round_trip() {
    let u = ClientStateUpdate {
        username: "eve".as_bytes().to_vec(),
        position: Vec3Fx { x: 123, y: -456, z: 789 },
        rotation: QuatFx { x: 10, y: 20, z: 30, w: 40 },
        owned_weapon: WeaponSet {
            gun: true,
            shotgun: false,
            gatling: true,
            rocket_launcher: false,
            bfg: false,
        },
        actual_weapon: Weapon::Gatling,
        ammo: AmmoTable { gun: 1, shotgun: 2, gatling: 3, rocket_launcher: 4, bfg: 5 },
    };
    let bytes = encode_client_update(&u);
    assert_eq!(decode_client_update(&bytes), Some(u));
}

#[test]
fn player_shoot_round_trip() {
    let s = PlayerShoot {
        weapon: Weapon::RocketLauncher,
        from: Vec3Fx { x: 0, y: 0, z: -500 },
        to: Vec3Fx { x: 0, y: 0, z: 0 },
    };
    let bytes = encode_player_shoot(&s);
    assert_eq!(bytes.len(), 25);
    assert_eq!(decode_player_shoot(&bytes), Some(s));
}

#[test]
fn malformed_blobs_are_rejected() {
    // Empty blob, unknown tag, truncated payload, trailing byte.
    assert_eq!(decode_server_message(&Vec::new()), None);
    assert_eq!(decode_server_message(&vec![9u8, 0, 0]), None);
    assert_eq!(decode_server_message(&vec![0u8, 1, 2]), None);
    let mut ok = encode_server_message(&ServerMessage::PlayerJoin(1));
    ok.push(0);
    assert_eq!(decode_server_message(&ok), None);
}

#[test]
fn out_of_bound_positions_are_rejected() {
    let s = PlayerShoot {
        weapon: Weapon::Gun,
        from: Vec3Fx { x: 600_000, y: 0, z: 0 },
        to: Vec3Fx { x: 0, y: 0, z: 0 },
    };
    let bytes = encode_player_shoot(&s);
    assert_eq!(decode_player_shoot(&bytes), None);

    let mut u = ClientStateUpdate {
        username: Vec::new(),
        position: Vec3Fx { x: 0, y: -500_001, z: 0 },
        rotation: QuatFx { x: 0, y: 0, z: 0, w: 1 },
        owned_weapon: WeaponSet {
            gun: true,
            shotgun: false,
            gatling: false,
            rocket_launcher: false,
            bfg: false,
        },
        actual_weapon: Weapon::Gun,
        ammo: AmmoTable { gun: 0, shotgun: 0, gatling: 0, rocket_launcher: 0, bfg: 0 },
    };
    let bytes = encode_client_update(&u);
    assert_eq!(decode_client_update(&bytes), None);
    u.position = Vec3Fx { x: 0, y: -500_000, z: 0 };
    let ok = encode_client_update(&u);
    assert_eq!(decode_client_update(&ok), Some(u));
}

#[test]
fn bad_flag_and_weapon_tags_are_rejected() {
    let u = ClientStateUpdate {
        username: Vec::new(),
        position: Vec3Fx { x: 0, y: 0, z: 0 },
        rotation: QuatFx { x: 0, y: 0, z: 0, w: 1 },
        owned_weapon: WeaponSet {
            gun: true,
            shotgun: false,
            gatling: false,
            rocket_launcher: false,
            bfg: false,
        },
        actual_weapon: Weapon::Bfg,
        ammo: AmmoTable { gun: 0, shotgun: 0, gatling: 0, rocket_launcher: 0, bfg: 0 },
    };
    let good = encode_client_update(&u);
    // The owned-weapon flags start after the name (4), position (12) and
    // rotation (16); a flag byte other than 0 or 1 is malformed.
    let mut bad_flag = good.clone();
    bad_flag[32] = 2;
    assert_eq!(decode_client_update(&bad_flag), None);
    // The equipped-weapon tag follows the five flags; only 0..=4 name a
    // weapon kind.
    let mut bad_weapon = good.clone();
    assert_eq!(bad_weapon[37], 4);
    bad_weapon[37] = 5;
    assert_eq!(decode_client_update(&bad_weapon), None);
}

#[test]
fn oversized_names_are_rejected() {
    // A blob whose name-length prefix claims 5000 bytes: over the limit.
    let mut blob: Vec<u8> = vec![0x88, 0x13, 0, 0];
    blob.extend(std::iter::repeat(0u8).take(5000));
    assert_eq!(decode_client_update(&blob), None);
}

#[test]
fn channels_follow_the_message_kind() {
    assert_eq!(
        fps_server_core::messages::channel_for(&ServerMessage::LobbySync(Vec::new())),
        Channel::Unreliable
    );
    assert_eq!(
        fps_server_core::messages::channel_for(&ServerMessage::PlayerJoin(1)),
        Channel::ReliableOrdered
    );
    assert_eq!(
        fps_server_core::messages::channel_for(&ServerMessage::PlayerHit {
            client_id: 1,
            new_health: 1
        }),
        Channel::ReliableOrdered
    );
}
