//! State broadcast: serializing the whole registry into one lobby
//! synchronization blob for the unreliable channel.
use vstd::prelude::*;

use crate::codec::{encode_server_message, spec_enc_message};
use crate::messages::{MessageV, ServerMessage};
use crate::player::RecordV;
use crate::registry::Registry;

verus! {

/// Serializes the full registry, in broadcast order, into the lobby
/// synchronization blob the unreliable channel carries to every client.
pub fn send_message_system(reg: &Registry) -> (r: Vec<u8>)
    requires
        reg.inv(),
        reg@.len() <= u32::MAX,
    ensures
        r@ == spec_enc_message(MessageV::LobbySync(reg@)),
{
    let snap = reg.snapshot();
    let msg = ServerMessage::LobbySync(snap);
    proof {
        assert(msg@ == MessageV::LobbySync(reg@));
        assert(msg@.wf());
    }
    encode_server_message(&msg)
}

/// Broadcast idempotence: the lobby synchronization payload is a
/// function of the registry contents alone, so serializing twice with no
/// mutation in between yields byte-identical blobs.
pub proof fn lemma_broadcast_idempotent(a: Seq<(u64, RecordV)>, b: Seq<(u64, RecordV)>)
    requires
        a == b,
    ensures
        spec_enc_message(MessageV::LobbySync(a)) == spec_enc_message(MessageV::LobbySync(b)),
{
}

} // verus!
