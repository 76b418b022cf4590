//! Player-side data the server tracks per logged-in session. World and
//! entity simulation stay outside the core; what lives here is the plain
//! state the dispatcher and login path read and hand around. Position is
//! not modeled: it is floating-point world state owned by the simulation.

use vstd::prelude::*;
use crate::packet::{Packet, PacketView};

verus! {

/// A player's health bar state.
pub struct Health {
    pub health: i32,
    pub hunger: i32,
    pub saturation: i32,
}

/// The game mode a player is in.
#[derive(Clone, Copy, Debug, PartialEq, Eq, Structural)]
pub enum GameMode {
    Survival,
    Creative,
    Adventure,
    Spectator,
}

/// How many slots a player inventory has: crafting output (0), crafting
/// input (1..5), armor (5..9), main inventory (9..36), hotbar (36..45),
/// offhand (45).
pub const INVENTORY_SLOTS: usize = 46;

/// A player's inventory: one optional item id per slot.
pub struct PlayerInventory {
    pub items: Vec<Option<u32>>,
}

impl PlayerInventory {
    /// The inventory has exactly its fixed number of slots.
    pub open spec fn wf(&self) -> bool {
        self.items@.len() == INVENTORY_SLOTS
    }

    /// An inventory over the given slots.
    pub fn new(items: Vec<Option<u32>>) -> (r: PlayerInventory)
        requires
            items@.len() == INVENTORY_SLOTS,
        ensures
            r.wf(),
            r.items == items,
    {
        PlayerInventory { items }
    }

    /// An inventory with every slot empty.
    pub fn new_empty() -> (r: PlayerInventory)
        ensures
            r.wf(),
            forall|i: int| 0 <= i < INVENTORY_SLOTS ==> r.items@[i] is None,
    {
        let mut items: Vec<Option<u32>> = Vec::new();
        let mut i: usize = 0;
        while i < INVENTORY_SLOTS
            invariant
                i <= INVENTORY_SLOTS,
                items@.len() == i,
                forall|k: int| 0 <= k < i ==> items@[k] is None,
            decreases INVENTORY_SLOTS - i,
        {
            items.push(None);
            i = i + 1;
        }
        PlayerInventory { items }
    }

    /// The armor slots.
    pub fn get_armor(&self) -> (r: Vec<Option<u32>>)
        requires
            self.wf(),
        ensures
            r@ == self.items@.subrange(5, 9),
    {
        crate::wire::copy_options(&self.items, 5, 9)
    }

    /// The main inventory slots.
    pub fn get_inventory(&self) -> (r: Vec<Option<u32>>)
        requires
            self.wf(),
        ensures
            r@ == self.items@.subrange(9, 36),
    {
        crate::wire::copy_options(&self.items, 9, 36)
    }

    /// The hotbar slots.
    pub fn get_hotbar(&self) -> (r: Vec<Option<u32>>)
        requires
            self.wf(),
        ensures
            r@ == self.items@.subrange(36, 45),
    {
        crate::wire::copy_options(&self.items, 36, 45)
    }

    /// The offhand slot.
    pub fn get_offhand(&self) -> (r: Option<u32>)
        requires
            self.wf(),
        ensures
            r == self.items@[45],
    {
        self.items[45]
    }

    /// The crafting grid's input slots.
    pub fn get_crafting_input(&self) -> (r: Vec<Option<u32>>)
        requires
            self.wf(),
        ensures
            r@ == self.items@.subrange(1, 5),
    {
        crate::wire::copy_options(&self.items, 1, 5)
    }

    /// The crafting grid's output slot.
    pub fn get_crafting_output(&self) -> (r: Option<u32>)
        requires
            self.wf(),
        ensures
            r == self.items@[0],
    {
        self.items[0]
    }
}

/// One player: the identity assigned at login and the per-player state the
/// core tracks.
pub struct Player {
    pub name: Vec<u8>,
    pub uuid: u128,
    pub entity_id: i32,
    pub health: Health,
    pub inventory: PlayerInventory,
    pub gamemode: GameMode,
}

impl Player {
    /// A fresh player: full health bar, empty inventory, spectator mode.
    pub fn new(name: Vec<u8>, uuid: u128, entity_id: i32) -> (r: Player)
        ensures
            r.name == name,
            r.uuid == uuid,
            r.entity_id == entity_id,
            r.health.health == 20 && r.health.hunger == 20 && r.health.saturation == 20,
            r.inventory.wf(),
            r.gamemode == GameMode::Spectator,
    {
        Player {
            name,
            uuid,
            entity_id,
            health: Health { health: 20, hunger: 20, saturation: 20 },
            inventory: PlayerInventory::new_empty(),
            gamemode: GameMode::Spectator,
        }
    }
}

/// The server-side bundle for one logged-in client. Its connection handle
/// and write guard live with the caller that owns the socket.
pub struct ServerClient {
    pub name: Vec<u8>,
    pub uuid: u128,
    pub entity_id: i32,
    pub view_distance: i32,
    pub player: Player,
}

impl ServerClient {
    /// The chat packet that delivers `message` to this client; an absent
    /// sender becomes the zero UUID.
    pub fn send_message(&self, message: Vec<u8>, position: u8, sender: Option<u128>) -> (r: Packet)
        ensures
            r@ == (PacketView::PlayServerChatMessage {
                message: message@,
                position,
                sender: match sender {
                    Some(u) => u,
                    None => 0,
                },
            }),
    {
        let s = match sender {
            Some(u) => u,
            None => 0,
        };
        Packet::PlayServerChatMessage { message, position, sender: s }
    }

    /// The disconnect packet that kicks this client with `reason`.
    pub fn kick(&self, reason: Vec<u8>) -> (r: Packet)
        ensures
            r@ == (PacketView::PlayDisconnect { reason: reason@ }),
    {
        Packet::PlayDisconnect { reason }
    }
}

/// The ready-to-serialize status payload a collaborator supplies.
pub struct ServerStatus {
    pub json: Vec<u8>,
}

impl ServerStatus {
    /// The reply to a status request: the payload in a status response
    /// packet, for the caller to put on the session's write path.
    pub fn send_status(&self) -> (r: Packet)
        ensures
            r@ == (PacketView::StatusResponse { json: self.json@ }),
    {
        let json = crate::wire::copy_range(&self.json, 0, self.json.len());
        proof {
            assert(json@ =~= self.json@);
        }
        Packet::StatusResponse { json }
    }
}

} // verus!
