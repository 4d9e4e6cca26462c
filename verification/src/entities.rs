//! The entity rows held by the store, and the error taxonomy shared by
//! every operation.

use vstd::prelude::*;

verus! {

/// Lifecycle phase of a game.  A game only ever moves forward:
/// `Setup` to `Active` to `Ended`, never backward.
#[derive(Clone, Copy, PartialEq, Eq, Structural, Debug)]
pub enum GameStatus {
    Setup,
    Active,
    Ended,
}

/// Why an operation was refused.  Every public operation returns a
/// `Result` whose error case is one of these; none panics.
#[derive(Clone, Copy, PartialEq, Eq, Structural, Debug)]
pub enum Error {
    /// A referenced game, checkpoint, player or progress row is absent.
    NotFound,
    /// A row with the same unique key already exists, such as a
    /// checkpoint whose tag code or order index is already taken in
    /// its game.
    Conflict,
    /// The game is not in the phase the operation needs, or a counter
    /// cannot advance any further.
    InvalidState,
    /// An argument is outside its allowed range, such as an order
    /// index of zero.
    InvalidArgument,
    /// Claims are only accepted while the game is `Active`.
    GameNotActive,
    /// The claimed checkpoint exists but is switched off.
    CheckpointInactive,
    /// The claiming player never joined the game.
    NotMember,
    /// Some checkpoint with a smaller order index is still unclaimed.
    OutOfOrder,
}

/// One game.  `game_id` is the generated primary key; `code` is the
/// human-readable join code, derived from the monotonic counter value
/// kept in `code_num`.
pub struct Game {
    pub game_id: u64,
    pub code: String,
    pub code_num: u64,
    pub name: String,
    pub status: GameStatus,
    pub created_at: i64,
    pub started_at: Option<i64>,
    pub ended_at: Option<i64>,
}

/// One checkpoint (tag).  `(game_id, tag_code)` and
/// `(game_id, order_index)` are both unique within a game, and
/// `order_index >= 1`.  Geographic coordinates are kept in microdegrees
/// so that they are exact integers.
pub struct Checkpoint {
    pub checkpoint_id: u64,
    pub game_id: u64,
    pub tag_code: String,
    pub location_name: String,
    pub clue: Option<String>,
    pub order_index: u32,
    pub is_active: bool,
    pub lat_microdeg: Option<i64>,
    pub lon_microdeg: Option<i64>,
    pub accuracy_m: Option<i32>,
    pub activated_by: Option<String>,
    pub activated_at: Option<i64>,
    pub created_at: i64,
}

/// One registered player, independent of any game membership.
pub struct Player {
    pub player_id: u64,
    pub display_name: String,
    pub team: Option<String>,
    pub created_at: i64,
}

/// A player's membership in one game, with the progress cursor.
/// `(player_id, game_id)` is unique; `next_required` always equals
/// `checkpoints_scanned + 1` and both only ever grow.
#[derive(Clone, Copy)]
pub struct PlayerGame {
    pub player_id: u64,
    pub game_id: u64,
    pub joined_at: i64,
    pub checkpoints_scanned: u32,
    pub last_scan_at: Option<i64>,
    pub next_required: u32,
}

/// One recorded claim.  `(game_id, player_id, checkpoint_id)` is
/// unique: a player claims a given checkpoint at most once.
/// `order_index` is copied from the checkpoint at claim time.
pub struct Progress {
    pub game_id: u64,
    pub player_id: u64,
    pub checkpoint_id: u64,
    pub order_index: u32,
    pub timestamp: i64,
    pub client_token: String,
}

impl Game {
    /// Whether the game is currently running, derived from its
    /// status.
    pub fn is_active(&self) -> (r: bool)
        ensures
            r == (self.status == GameStatus::Active),
    {
        matches!(self.status, GameStatus::Active)
    }
}

/// A copy of an optional text field.
pub fn clone_opt_string(o: &Option<String>) -> (r: Option<String>)
    ensures
        r == *o,
{
    match o {
        None => None,
        Some(s) => Some(s.clone()),
    }
}

impl Clone for Game {
    /// An exact copy of the row.
    fn clone(&self) -> (res: Self)
        ensures
            res == *self,
    {
        Game {
            game_id: self.game_id,
            code: self.code.clone(),
            code_num: self.code_num,
            name: self.name.clone(),
            status: self.status,
            created_at: self.created_at,
            started_at: self.started_at,
            ended_at: self.ended_at,
        }
    }
}

impl Clone for Checkpoint {
    /// An exact copy of the row.
    fn clone(&self) -> (res: Self)
        ensures
            res == *self,
    {
        Checkpoint {
            checkpoint_id: self.checkpoint_id,
            game_id: self.game_id,
            tag_code: self.tag_code.clone(),
            location_name: self.location_name.clone(),
            clue: clone_opt_string(&self.clue),
            order_index: self.order_index,
            is_active: self.is_active,
            lat_microdeg: self.lat_microdeg,
            lon_microdeg: self.lon_microdeg,
            accuracy_m: self.accuracy_m,
            activated_by: clone_opt_string(&self.activated_by),
            activated_at: self.activated_at,
            created_at: self.created_at,
        }
    }
}

impl Clone for Player {
    /// An exact copy of the row.
    fn clone(&self) -> (res: Self)
        ensures
            res == *self,
    {
        Player {
            player_id: self.player_id,
            display_name: self.display_name.clone(),
            team: clone_opt_string(&self.team),
            created_at: self.created_at,
        }
    }
}

impl Clone for Progress {
    /// An exact copy of the row.
    fn clone(&self) -> (res: Self)
        ensures
            res == *self,
    {
        Progress {
            game_id: self.game_id,
            player_id: self.player_id,
            checkpoint_id: self.checkpoint_id,
            order_index: self.order_index,
            timestamp: self.timestamp,
            client_token: self.client_token.clone(),
        }
    }
}

} // verus!
