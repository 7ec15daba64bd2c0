//! The wire messages exchanged with clients, their mathematical views,
//! and the outbound send instructions the server phases produce.
use vstd::prelude::*;

use crate::geom::{QuatFx, Vec3Fx};
use crate::player::{AmmoTable, PlayerRecord, RecordV, Weapon, WeaponSet, NAME_LIMIT};
use crate::registry::pairs_view;

verus! {

/// A shot reported by a client: the weapon fired, the ray origin, and an
/// aim sample defining the ray direction.
#[derive(Clone, Copy, PartialEq, Eq, Structural, Debug)]
pub struct PlayerShoot {
    pub weapon: Weapon,
    pub from: Vec3Fx,
    pub to: Vec3Fx,
}

impl PlayerShoot {
    /// Both ray points inside the world bound.
    pub open spec fn wf(self) -> bool {
        self.from.wf() && self.to.wf()
    }
}

/// A client's full self-reported state. Health and armor are deliberately
/// absent: they are server-authoritative.
#[derive(Debug, PartialEq)]
pub struct ClientStateUpdate {
    pub username: Vec<u8>,
    pub position: Vec3Fx,
    pub rotation: QuatFx,
    pub owned_weapon: WeaponSet,
    pub actual_weapon: Weapon,
    pub ammo: AmmoTable,
}

/// The mathematical value of a `ClientStateUpdate`.
pub ghost struct UpdateV {
    pub username: Seq<u8>,
    pub position: Vec3Fx,
    pub rotation: QuatFx,
    pub owned_weapon: WeaponSet,
    pub actual_weapon: Weapon,
    pub ammo: AmmoTable,
}

impl View for ClientStateUpdate {
    type V = UpdateV;

    open spec fn view(&self) -> UpdateV {
        UpdateV {
            username: self.username@,
            position: self.position,
            rotation: self.rotation,
            owned_weapon: self.owned_weapon,
            actual_weapon: self.actual_weapon,
            ammo: self.ammo,
        }
    }
}

impl UpdateV {
    /// What a decoded update always satisfies: position inside the world
    /// bound and the name within the wire limit.
    pub open spec fn wf(self) -> bool {
        self.position.wf() && self.username.len() <= NAME_LIMIT
    }
}

/// A message from the server to clients.
#[derive(Debug, PartialEq)]
pub enum ServerMessage {
    /// A new player joined; sent to every other client.
    PlayerJoin(u64),
    /// A player left; sent to all clients.
    PlayerLeave(u64),
    /// The full registry in broadcast order.
    LobbySync(Vec<(u64, PlayerRecord)>),
    /// A player was hit; sent to the victim with the post-damage health.
    PlayerHit { client_id: u64, new_health: i32 },
    /// A player died; sent to the victim with its fresh respawned record.
    PlayerDeath { dead: u64, attr: PlayerRecord },
}

/// The mathematical value of a `ServerMessage`.
pub ghost enum MessageV {
    PlayerJoin(u64),
    PlayerLeave(u64),
    LobbySync(Seq<(u64, RecordV)>),
    PlayerHit { client_id: u64, new_health: i32 },
    PlayerDeath { dead: u64, attr: RecordV },
}

impl View for ServerMessage {
    type V = MessageV;

    open spec fn view(&self) -> MessageV {
        match self {
            ServerMessage::PlayerJoin(id) => MessageV::PlayerJoin(*id),
            ServerMessage::PlayerLeave(id) => MessageV::PlayerLeave(*id),
            ServerMessage::LobbySync(entries) => MessageV::LobbySync(pairs_view(entries@)),
            ServerMessage::PlayerHit { client_id, new_health } => MessageV::PlayerHit {
                client_id: *client_id,
                new_health: *new_health,
            },
            ServerMessage::PlayerDeath { dead, attr } => MessageV::PlayerDeath {
                dead: *dead,
                attr: attr@,
            },
        }
    }
}

impl MessageV {
    /// Every record carried by the message is well formed.
    pub open spec fn wf(self) -> bool {
        match self {
            MessageV::LobbySync(entries) => entries.len() <= u32::MAX && forall|i: int|
                0 <= i < entries.len() ==> (#[trigger] entries[i].1).wf(),
            MessageV::PlayerDeath { dead, attr } => attr.wf(),
            _ => true,
        }
    }
}

/// The transport channel a message travels on.
#[derive(Clone, Copy, PartialEq, Eq, Structural, Debug)]
pub enum Channel {
    /// Guaranteed, ordered delivery: join/leave/hit/death events.
    ReliableOrdered,
    /// Best-effort delivery: high-frequency full-state synchronization.
    Unreliable,
}

/// The channel each server message travels on: lobby synchronization is
/// unreliable (staleness is self-correcting), every event is reliable.
pub open spec fn spec_channel_for(m: MessageV) -> Channel {
    match m {
        MessageV::LobbySync(_) => Channel::Unreliable,
        _ => Channel::ReliableOrdered,
    }
}

/// The channel `m` must be sent on.
pub fn channel_for(m: &ServerMessage) -> (r: Channel)
    ensures
        r == spec_channel_for(m@),
{
    match m {
        ServerMessage::LobbySync(_) => Channel::Unreliable,
        _ => Channel::ReliableOrdered,
    }
}

/// One send instruction produced by a server phase; the transport layer
/// performs it on the channel `channel_for` gives.
#[derive(Debug, PartialEq)]
pub enum Outbound {
    /// Send to every connected client.
    Broadcast(ServerMessage),
    /// Send to every connected client but the named one.
    BroadcastExcept(u64, ServerMessage),
    /// Send to the named client only.
    To(u64, ServerMessage),
}

/// The mathematical value of an `Outbound`.
pub ghost enum OutboundV {
    Broadcast(MessageV),
    BroadcastExcept(u64, MessageV),
    To(u64, MessageV),
}

impl View for Outbound {
    type V = OutboundV;

    open spec fn view(&self) -> OutboundV {
        match self {
            Outbound::Broadcast(m) => OutboundV::Broadcast(m@),
            Outbound::BroadcastExcept(id, m) => OutboundV::BroadcastExcept(*id, m@),
            Outbound::To(id, m) => OutboundV::To(*id, m@),
        }
    }
}

/// The view of a queue of send instructions.
pub open spec fn outbound_view(s: Seq<Outbound>) -> Seq<OutboundV> {
    s.map_values(|o: Outbound| o@)
}

} // verus!
