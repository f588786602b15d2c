//! The message envelope: the closed set of application-level exchanges
//! carried as binary frames over the transport.

use vstd::prelude::*;
use crate::components::{Action, Dir, Player, SendAction, Terrain};
use crate::math::V2;

verus! {

/// Every application-level exchange between client and server.
#[derive(Clone, PartialEq, Eq, Debug)]
pub enum Message {
    /// Ask the server to log the local player in with a class.
    LoginRequest { class: u64 },
    /// The server's answer: the assigned identity and spawn position.
    LoginResponse { player: Player, spawn: V2 },
    /// Ask the server for the terrain of the world.
    TerrainRequest,
    /// The server's batch of terrain blocks.
    TerrainResponse { blocks: Vec<Terrain> },
    /// The per-tick broadcast of the local player's post-input state.
    PlayerState { state: SendAction },
}

/// The mathematical shape of a [`Message`]: the terrain batch as a
/// sequence instead of a vector.
pub enum MessageModel {
    LoginRequest { class: u64 },
    LoginResponse { player: Player, spawn: V2 },
    TerrainRequest,
    TerrainResponse { blocks: Seq<Terrain> },
    PlayerState { state: SendAction },
}

impl Message {
    /// The model of this message.
    pub open spec fn model(self) -> MessageModel {
        match self {
            Message::LoginRequest { class } => MessageModel::LoginRequest { class },
            Message::LoginResponse { player, spawn } => MessageModel::LoginResponse {
                player,
                spawn,
            },
            Message::TerrainRequest => MessageModel::TerrainRequest,
            Message::TerrainResponse { blocks } => MessageModel::TerrainResponse {
                blocks: blocks@,
            },
            Message::PlayerState { state } => MessageModel::PlayerState { state },
        }
    }
}

/// A frame whose payload does not parse as a message.
#[derive(Clone, Copy, PartialEq, Eq, Structural, Debug)]
pub struct DecodeError;

} // verus!
