//! Weapons, per-weapon tables, and the per-client player record.
use vstd::prelude::*;

use crate::geom::{QuatFx, Vec3Fx};

verus! {

/// Longest display name (in bytes) a record or wire message may carry.
pub const NAME_LIMIT: usize = 4096;

/// The weapon kinds a player can hold.
#[derive(Clone, Copy, PartialEq, Eq, Structural, Debug, Hash)]
pub enum Weapon {
    Gun,
    Shotgun,
    Gatling,
    RocketLauncher,
    Bfg,
}

/// Fixed damage dealt by one hit of each weapon.
pub open spec fn spec_damage(w: Weapon) -> int {
    match w {
        Weapon::Gun => 17,
        Weapon::Shotgun => 28,
        Weapon::Gatling => 8,
        Weapon::RocketLauncher => 400,
        Weapon::Bfg => 800,
    }
}

/// Damage dealt by one hit of `w`.
pub fn damage_of(w: Weapon) -> (r: u32)
    ensures
        r == spec_damage(w),
{
    match w {
        Weapon::Gun => 17,
        Weapon::Shotgun => 28,
        Weapon::Gatling => 8,
        Weapon::RocketLauncher => 400,
        Weapon::Bfg => 800,
    }
}

/// Ammunition granted to the shooter's equipped weapon after a kill.
pub open spec fn spec_ammo_reward(w: Weapon) -> int {
    match w {
        Weapon::Gun => 15,
        Weapon::Shotgun => 6,
        Weapon::Gatling => 30,
        Weapon::RocketLauncher => 1,
        Weapon::Bfg => 1,
    }
}

/// Ammunition granted to the shooter's equipped weapon after a kill.
pub fn ammo_reward_of(w: Weapon) -> (r: u32)
    ensures
        r == spec_ammo_reward(w),
{
    match w {
        Weapon::Gun => 15,
        Weapon::Shotgun => 6,
        Weapon::Gatling => 30,
        Weapon::RocketLauncher => 1,
        Weapon::Bfg => 1,
    }
}

impl Weapon {
    /// The display name of the weapon kind.
    pub fn display_name(&self) -> (r: String)
        ensures
            r@ == match *self {
                Weapon::Gun => "Gun"@,
                Weapon::Shotgun => "Shotgun"@,
                Weapon::Gatling => "Gatling"@,
                Weapon::RocketLauncher => "RocketLauncher"@,
                Weapon::Bfg => "Bfg"@,
            },
    {
        match self {
            Weapon::Gun => String::from_str("Gun"),
            Weapon::Shotgun => String::from_str("Shotgun"),
            Weapon::Gatling => String::from_str("Gatling"),
            Weapon::RocketLauncher => String::from_str("RocketLauncher"),
            Weapon::Bfg => String::from_str("Bfg"),
        }
    }
}

/// Which weapon kinds a player owns.
#[derive(Clone, Copy, PartialEq, Eq, Structural, Debug)]
pub struct WeaponSet {
    pub gun: bool,
    pub shotgun: bool,
    pub gatling: bool,
    pub rocket_launcher: bool,
    pub bfg: bool,
}

impl WeaponSet {
    /// Whether `w` is owned in this set.
    pub open spec fn spec_owns(self, w: Weapon) -> bool {
        match w {
            Weapon::Gun => self.gun,
            Weapon::Shotgun => self.shotgun,
            Weapon::Gatling => self.gatling,
            Weapon::RocketLauncher => self.rocket_launcher,
            Weapon::Bfg => self.bfg,
        }
    }

    /// The set with `w` marked as owned.
    pub open spec fn spec_with(self, w: Weapon) -> WeaponSet {
        match w {
            Weapon::Gun => WeaponSet { gun: true, ..self },
            Weapon::Shotgun => WeaponSet { shotgun: true, ..self },
            Weapon::Gatling => WeaponSet { gatling: true, ..self },
            Weapon::RocketLauncher => WeaponSet { rocket_launcher: true, ..self },
            Weapon::Bfg => WeaponSet { bfg: true, ..self },
        }
    }

    /// The starting loadout: only the basic gun.
    pub fn only_gun() -> (r: Self)
        ensures
            r == (WeaponSet {
                gun: true,
                shotgun: false,
                gatling: false,
                rocket_launcher: false,
                bfg: false,
            }),
    {
        WeaponSet { gun: true, shotgun: false, gatling: false, rocket_launcher: false, bfg: false }
    }

    /// Whether `w` is owned in this set.
    pub fn owns(&self, w: Weapon) -> (r: bool)
        ensures
            r == self.spec_owns(w),
    {
        match w {
            Weapon::Gun => self.gun,
            Weapon::Shotgun => self.shotgun,
            Weapon::Gatling => self.gatling,
            Weapon::RocketLauncher => self.rocket_launcher,
            Weapon::Bfg => self.bfg,
        }
    }

    /// Marks `w` as owned.
    pub fn insert(&mut self, w: Weapon)
        ensures
            *final(self) == old(self).spec_with(w),
    {
        match w {
            Weapon::Gun => self.gun = true,
            Weapon::Shotgun => self.shotgun = true,
            Weapon::Gatling => self.gatling = true,
            Weapon::RocketLauncher => self.rocket_launcher = true,
            Weapon::Bfg => self.bfg = true,
        }
    }
}

/// Remaining shots for each weapon kind.
#[derive(Clone, Copy, PartialEq, Eq, Structural, Debug)]
pub struct AmmoTable {
    pub gun: u32,
    pub shotgun: u32,
    pub gatling: u32,
    pub rocket_launcher: u32,
    pub bfg: u32,
}

impl AmmoTable {
    /// The count stored for `w`.
    pub open spec fn spec_count(self, w: Weapon) -> u32 {
        match w {
            Weapon::Gun => self.gun,
            Weapon::Shotgun => self.shotgun,
            Weapon::Gatling => self.gatling,
            Weapon::RocketLauncher => self.rocket_launcher,
            Weapon::Bfg => self.bfg,
        }
    }

    /// The table with the count for `w` replaced by `n`.
    pub open spec fn spec_with(self, w: Weapon, n: u32) -> AmmoTable {
        match w {
            Weapon::Gun => AmmoTable { gun: n, ..self },
            Weapon::Shotgun => AmmoTable { shotgun: n, ..self },
            Weapon::Gatling => AmmoTable { gatling: n, ..self },
            Weapon::RocketLauncher => AmmoTable { rocket_launcher: n, ..self },
            Weapon::Bfg => AmmoTable { bfg: n, ..self },
        }
    }

    /// The connect-time ammunition loadout.
    pub fn initial() -> (r: Self)
        ensures
            r == (AmmoTable { gun: 999, shotgun: 15, gatling: 50, rocket_launcher: 5, bfg: 1 }),
    {
        AmmoTable { gun: 999, shotgun: 15, gatling: 50, rocket_launcher: 5, bfg: 1 }
    }

    /// The count stored for `w`.
    pub fn count(&self, w: Weapon) -> (r: u32)
        ensures
            r == self.spec_count(w),
    {
        match w {
            Weapon::Gun => self.gun,
            Weapon::Shotgun => self.shotgun,
            Weapon::Gatling => self.gatling,
            Weapon::RocketLauncher => self.rocket_launcher,
            Weapon::Bfg => self.bfg,
        }
    }

    /// Adds `n` shots for `w`, stopping at the counter's ceiling.
    pub fn add_saturating(&mut self, w: Weapon, n: u32)
        ensures
            *final(self) == old(self).spec_with(
                w,
                if old(self).spec_count(w) + n <= u32::MAX {
                    (old(self).spec_count(w) + n) as u32
                } else {
                    u32::MAX
                },
            ),
    {
        let cur = self.count(w);
        let next: u32 = if cur > u32::MAX - n {
            u32::MAX
        } else {
            cur + n
        };
        match w {
            Weapon::Gun => self.gun = next,
            Weapon::Shotgun => self.shotgun = next,
            Weapon::Gatling => self.gatling = next,
            Weapon::RocketLauncher => self.rocket_launcher = next,
            Weapon::Bfg => self.bfg = next,
        }
    }
}

/// The authoritative state of one connected player.
///
/// Health and armor are server-owned: client updates never write them.
/// Armor is carried for the clients' display but never consulted by the
/// damage math.
#[derive(Debug, PartialEq)]
pub struct PlayerRecord {
    pub username: Vec<u8>,
    pub position: Vec3Fx,
    pub rotation: QuatFx,
    pub health: i32,
    pub armor: i32,
    pub velocity: Vec3Fx,
    pub owned_weapon: WeaponSet,
    pub actual_weapon: Weapon,
    pub ammo: AmmoTable,
}

/// The mathematical value of a `PlayerRecord`.
pub ghost struct RecordV {
    pub username: Seq<u8>,
    pub position: Vec3Fx,
    pub rotation: QuatFx,
    pub health: i32,
    pub armor: i32,
    pub velocity: Vec3Fx,
    pub owned_weapon: WeaponSet,
    pub actual_weapon: Weapon,
    pub ammo: AmmoTable,
}

impl View for PlayerRecord {
    type V = RecordV;

    open spec fn view(&self) -> RecordV {
        RecordV {
            username: self.username@,
            position: self.position,
            rotation: self.rotation,
            health: self.health,
            armor: self.armor,
            velocity: self.velocity,
            owned_weapon: self.owned_weapon,
            actual_weapon: self.actual_weapon,
            ammo: self.ammo,
        }
    }
}

impl RecordV {
    /// A record the registry may hold: position inside the world bound,
    /// name within the wire limit, health positive and at most full.
    pub open spec fn wf(self) -> bool {
        &&& self.position.wf()
        &&& self.username.len() <= NAME_LIMIT
        &&& 1 <= self.health <= 100
    }
}

/// The record a player (re)spawns with: empty name, full health, no armor,
/// the basic gun owned and equipped, the preset ammunition, no velocity,
/// standing at `spawn` with the identity orientation.
pub open spec fn spec_default_record(spawn: Vec3Fx) -> RecordV {
    RecordV {
        username: Seq::empty(),
        position: spawn,
        rotation: QuatFx { x: 0, y: 0, z: 0, w: 1 },
        health: 100,
        armor: 0,
        velocity: Vec3Fx { x: 0, y: 0, z: 0 },
        owned_weapon: WeaponSet {
            gun: true,
            shotgun: false,
            gatling: false,
            rocket_launcher: false,
            bfg: false,
        },
        actual_weapon: Weapon::Gun,
        ammo: AmmoTable { gun: 999, shotgun: 15, gatling: 50, rocket_launcher: 5, bfg: 1 },
    }
}

/// Builds the connect-time default record at `spawn`.
pub fn default_player_attributes(spawn: Vec3Fx) -> (r: PlayerRecord)
    ensures
        r@ == spec_default_record(spawn),
{
    let r = PlayerRecord {
        username: Vec::new(),
        position: spawn,
        rotation: QuatFx::identity(),
        health: 100,
        armor: 0,
        velocity: Vec3Fx::zero(),
        owned_weapon: WeaponSet::only_gun(),
        actual_weapon: Weapon::Gun,
        ammo: AmmoTable::initial(),
    };
    proof {
        assert(r@.username =~= spec_default_record(spawn).username);
    }
    r
}

impl PlayerRecord {
    /// Adds `weapon` to the owned set.
    pub fn add_weapon(&mut self, weapon: Weapon)
        ensures
            *final(self) == (PlayerRecord { owned_weapon: old(self).owned_weapon.spec_with(weapon), ..*old(self) }),
    {
        self.owned_weapon.insert(weapon);
    }

    /// Whether the player owns `weapon`.
    pub fn has_weapon(&self, weapon: &Weapon) -> (r: bool)
        ensures
            r == self.owned_weapon.spec_owns(*weapon),
    {
        self.owned_weapon.owns(*weapon)
    }

    /// An exact copy of this record.
    pub fn duplicate(&self) -> (r: Self)
        ensures
            r@ == self@,
    {
        let username = self.username.clone();
        proof {
            assert(username@ =~= self.username@);
        }
        PlayerRecord {
            username,
            position: self.position,
            rotation: self.rotation,
            health: self.health,
            armor: self.armor,
            velocity: self.velocity,
            owned_weapon: self.owned_weapon,
            actual_weapon: self.actual_weapon,
            ammo: self.ammo,
        }
    }
}

} // verus!
