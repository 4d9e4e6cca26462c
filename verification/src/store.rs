//! The entity store: the shared tables, their well-formedness
//! invariant, and the keyed lookup primitives.

use vstd::prelude::*;

use crate::codes::code_seq;
use crate::codes::lemma_code_seq_injective;
use crate::entities::Checkpoint;
use crate::entities::Game;
use crate::entities::Player;
use crate::entities::PlayerGame;
use crate::entities::Progress;

verus! {

/// All shared state: one table per entity kind, plus the monotonic
/// counters that generate primary keys and game codes.  The counters
/// only ever grow, so generated keys are never reused, even after
/// deletions.
pub struct Store {
    pub games: Vec<Game>,
    pub checkpoints: Vec<Checkpoint>,
    pub players: Vec<Player>,
    pub memberships: Vec<PlayerGame>,
    pub progress: Vec<Progress>,
    pub next_game_id: u64,
    pub next_checkpoint_id: u64,
    pub next_player_id: u64,
    pub next_code: u64,
}

/// Some game row carries this id.
pub open spec fn has_game_id(games: Seq<Game>, id: u64) -> bool {
    exists|i: int| 0 <= i < games.len() && games[i].game_id == id
}

/// Some game row carries this code.
pub open spec fn has_game_code(games: Seq<Game>, code: Seq<char>) -> bool {
    exists|i: int| 0 <= i < games.len() && games[i].code@ == code
}

/// Some checkpoint row carries this id.
pub open spec fn has_checkpoint_id(cps: Seq<Checkpoint>, id: u64) -> bool {
    exists|i: int| 0 <= i < cps.len() && cps[i].checkpoint_id == id
}

/// This game has a checkpoint with this tag code.
pub open spec fn has_checkpoint_tag(cps: Seq<Checkpoint>, game_id: u64, tag: Seq<char>) -> bool {
    exists|i: int| 0 <= i < cps.len() && cps[i].game_id == game_id && cps[i].tag_code@ == tag
}

/// This game has a checkpoint with this order index.
pub open spec fn has_checkpoint_order(cps: Seq<Checkpoint>, game_id: u64, order_index: u32) -> bool {
    exists|i: int| 0 <= i < cps.len() && cps[i].game_id == game_id && cps[i].order_index == order_index
}

/// Some player row carries this id.
pub open spec fn has_player_id(players: Seq<Player>, id: u64) -> bool {
    exists|i: int| 0 <= i < players.len() && players[i].player_id == id
}

/// This player has a membership row in this game.
pub open spec fn has_membership(ms: Seq<PlayerGame>, player_id: u64, game_id: u64) -> bool {
    exists|i: int| 0 <= i < ms.len() && ms[i].player_id == player_id && ms[i].game_id == game_id
}

/// This player has claimed this checkpoint in this game.
pub open spec fn has_progress(ps: Seq<Progress>, game_id: u64, player_id: u64, checkpoint_id: u64) -> bool {
    exists|i: int|
        0 <= i < ps.len() && ps[i].game_id == game_id && ps[i].player_id == player_id
            && ps[i].checkpoint_id == checkpoint_id
}

/// Some progress row references this player.
pub open spec fn player_referenced(ps: Seq<Progress>, player_id: u64) -> bool {
    exists|i: int| 0 <= i < ps.len() && ps[i].player_id == player_id
}

/// `game_id` is in scope: either no game filter was given, or it is
/// the selected game.
pub open spec fn in_game_scope(scope: Option<u64>, game_id: u64) -> bool {
    match scope {
        None => true,
        Some(g) => game_id == g,
    }
}

/// Keeps the games other than `game_id`.
pub open spec fn keep_games_not(game_id: u64) -> spec_fn(Game) -> bool {
    |g: Game| g.game_id != game_id
}

/// Keeps the checkpoints of games other than `game_id`.
pub open spec fn keep_cps_not_game(game_id: u64) -> spec_fn(Checkpoint) -> bool {
    |c: Checkpoint| c.game_id != game_id
}

/// Keeps the checkpoints other than `checkpoint_id`.
pub open spec fn keep_cps_not_id(checkpoint_id: u64) -> spec_fn(Checkpoint) -> bool {
    |c: Checkpoint| c.checkpoint_id != checkpoint_id
}

/// Keeps the checkpoints whose tag code differs from `tag`.
pub open spec fn keep_cps_not_tag(tag: Seq<char>) -> spec_fn(Checkpoint) -> bool {
    |c: Checkpoint| c.tag_code@ != tag
}

/// Keeps the memberships of games other than `game_id`.
pub open spec fn keep_ms_not_game(game_id: u64) -> spec_fn(PlayerGame) -> bool {
    |m: PlayerGame| m.game_id != game_id
}

/// Keeps the memberships not belonging to this player in the given
/// scope.
pub open spec fn keep_ms_not_player(player_id: u64, scope: Option<u64>) -> spec_fn(
    PlayerGame,
) -> bool {
    |m: PlayerGame| !(m.player_id == player_id && in_game_scope(scope, m.game_id))
}

/// Keeps the progress rows of games other than `game_id`.
pub open spec fn keep_prs_not_game(game_id: u64) -> spec_fn(Progress) -> bool {
    |p: Progress| p.game_id != game_id
}

/// Keeps the progress rows not referencing `checkpoint_id`.
pub open spec fn keep_prs_not_cp(checkpoint_id: u64) -> spec_fn(Progress) -> bool {
    |p: Progress| p.checkpoint_id != checkpoint_id
}

/// Keeps the progress rows not belonging to this player in the given
/// scope.
pub open spec fn keep_prs_not_player(player_id: u64, scope: Option<u64>) -> spec_fn(
    Progress,
) -> bool {
    |p: Progress| !(p.player_id == player_id && in_game_scope(scope, p.game_id))
}

/// Keeps the progress rows other than the one claim identified by
/// this triple.
pub open spec fn keep_prs_not_claim(game_id: u64, player_id: u64, checkpoint_id: u64) -> spec_fn(
    Progress,
) -> bool {
    |p: Progress|
        !(p.game_id == game_id && p.player_id == player_id && p.checkpoint_id == checkpoint_id)
}

/// Keeps the players still referenced by some progress row in `ps`.
pub open spec fn keep_players_referenced(ps: Seq<Progress>) -> spec_fn(Player) -> bool {
    |p: Player| player_referenced(ps, p.player_id)
}

/// Keeps every player.
pub open spec fn keep_all_players() -> spec_fn(Player) -> bool {
    |p: Player| true
}

/// Keeps every game.
pub open spec fn keep_games_all() -> spec_fn(Game) -> bool {
    |g: Game| true
}

/// Keeps every checkpoint.
pub open spec fn keep_cps_all() -> spec_fn(Checkpoint) -> bool {
    |c: Checkpoint| true
}

/// Keeps every membership.
pub open spec fn keep_ms_all() -> spec_fn(PlayerGame) -> bool {
    |m: PlayerGame| true
}

/// The row index of the game with this id.  Meaningful only when
/// `has_game_id` holds; unique in a well-formed store.
pub open spec fn game_index(games: Seq<Game>, id: u64) -> int {
    choose|i: int| 0 <= i < games.len() && games[i].game_id == id
}

/// The row index of the game with this code.  Meaningful only when
/// `has_game_code` holds; unique in a well-formed store.
pub open spec fn game_index_by_code(games: Seq<Game>, code: Seq<char>) -> int {
    choose|i: int| 0 <= i < games.len() && games[i].code@ == code
}

/// The row index of the checkpoint with this id.
pub open spec fn checkpoint_index(cps: Seq<Checkpoint>, id: u64) -> int {
    choose|i: int| 0 <= i < cps.len() && cps[i].checkpoint_id == id
}

/// The row index of this game's checkpoint with this tag code.
pub open spec fn checkpoint_index_by_tag(cps: Seq<Checkpoint>, game_id: u64, tag: Seq<char>) -> int {
    choose|i: int| 0 <= i < cps.len() && cps[i].game_id == game_id && cps[i].tag_code@ == tag
}

/// The row index of the player with this id.
pub open spec fn player_index(players: Seq<Player>, id: u64) -> int {
    choose|i: int| 0 <= i < players.len() && players[i].player_id == id
}

/// The row index of this player's membership in this game.
pub open spec fn membership_index(ms: Seq<PlayerGame>, player_id: u64, game_id: u64) -> int {
    choose|i: int| 0 <= i < ms.len() && ms[i].player_id == player_id && ms[i].game_id == game_id
}

/// The progress row is backed by a checkpoint row of the same game,
/// from which its order index was copied.
pub open spec fn progress_backed(cps: Seq<Checkpoint>, pr: Progress) -> bool {
    exists|k: int|
        0 <= k < cps.len() && cps[k].checkpoint_id == pr.checkpoint_id && cps[k].game_id
            == pr.game_id && cps[k].order_index == pr.order_index
}

impl Store {
    /// Games have unique ids and unique code-counter values, every id
    /// is below the id counter, and every code spells out its
    /// code-counter value.
    pub open spec fn games_wf(self) -> bool {
        &&& forall|i: int, j: int|
            0 <= i < j < self.games@.len() ==> self.games@[i].game_id != self.games@[j].game_id
                && self.games@[i].code_num != self.games@[j].code_num
        &&& forall|i: int|
            0 <= i < self.games@.len() ==> (#[trigger] self.games@[i]).game_id < self.next_game_id
                && self.games@[i].code_num < self.next_code && self.games@[i].code@ == code_seq(
                self.games@[i].code_num as nat,
            )
    }

    /// Checkpoints have unique ids; within one game no two share a tag
    /// code or an order index; order indices start at 1; and every
    /// checkpoint belongs to an existing game.
    pub open spec fn checkpoints_wf(self) -> bool {
        &&& forall|i: int, j: int|
            0 <= i < j < self.checkpoints@.len() ==> self.checkpoints@[i].checkpoint_id
                != self.checkpoints@[j].checkpoint_id && !(self.checkpoints@[i].game_id
                == self.checkpoints@[j].game_id && self.checkpoints@[i].tag_code@
                == self.checkpoints@[j].tag_code@) && !(self.checkpoints@[i].game_id
                == self.checkpoints@[j].game_id && self.checkpoints@[i].order_index
                == self.checkpoints@[j].order_index)
        &&& forall|i: int|
            0 <= i < self.checkpoints@.len() ==> (#[trigger] self.checkpoints@[i]).order_index >= 1
                && self.checkpoints@[i].checkpoint_id < self.next_checkpoint_id && has_game_id(
                self.games@,
                self.checkpoints@[i].game_id,
            )
    }

    /// Players have unique ids, all below the id counter.
    pub open spec fn players_wf(self) -> bool {
        &&& forall|i: int, j: int|
            0 <= i < j < self.players@.len() ==> self.players@[i].player_id
                != self.players@[j].player_id
        &&& forall|i: int|
            0 <= i < self.players@.len() ==> (#[trigger] self.players@[i]).player_id
                < self.next_player_id
    }

    /// One membership row per player and game; the cursor always sits
    /// one past the scan counter; every membership belongs to an
    /// existing game and references a player id the counter has
    /// already passed.
    pub open spec fn memberships_wf(self) -> bool {
        &&& forall|i: int, j: int|
            0 <= i < j < self.memberships@.len() ==> !(self.memberships@[i].player_id
                == self.memberships@[j].player_id && self.memberships@[i].game_id
                == self.memberships@[j].game_id)
        &&& forall|i: int|
            0 <= i < self.memberships@.len() ==> (#[trigger] self.memberships@[i]).next_required
                as int == self.memberships@[i].checkpoints_scanned as int + 1
                && self.memberships@[i].player_id < self.next_player_id && has_game_id(
                self.games@,
                self.memberships@[i].game_id,
            )
    }

    /// A player claims a checkpoint at most once, and every claim is
    /// backed by a checkpoint of its game.
    pub open spec fn progress_wf(self) -> bool {
        &&& forall|i: int, j: int|
            0 <= i < j < self.progress@.len() ==> !(self.progress@[i].game_id
                == self.progress@[j].game_id && self.progress@[i].player_id
                == self.progress@[j].player_id && self.progress@[i].checkpoint_id
                == self.progress@[j].checkpoint_id)
        &&& forall|i: int|
            0 <= i < self.progress@.len() ==> progress_backed(
                self.checkpoints@,
                #[trigger] self.progress@[i],
            )
    }

    /// The store's full invariant.  Every operation requires it and
    /// preserves it.
    pub open spec fn wf(self) -> bool {
        &&& self.games_wf()
        &&& self.checkpoints_wf()
        &&& self.players_wf()
        &&& self.memberships_wf()
        &&& self.progress_wf()
    }

    /// Both stores hold exactly the same rows and counters.
    pub open spec fn same_state(self, other: Store) -> bool {
        &&& other.games@ == self.games@
        &&& other.checkpoints@ == self.checkpoints@
        &&& other.players@ == self.players@
        &&& other.memberships@ == self.memberships@
        &&& other.progress@ == self.progress@
        &&& other.next_game_id == self.next_game_id
        &&& other.next_checkpoint_id == self.next_checkpoint_id
        &&& other.next_player_id == self.next_player_id
        &&& other.next_code == self.next_code
    }

    /// Every table and counter except the game table is unchanged.
    pub open spec fn only_games_changed(self, post: Store) -> bool {
        &&& post.checkpoints@ == self.checkpoints@
        &&& post.players@ == self.players@
        &&& post.memberships@ == self.memberships@
        &&& post.progress@ == self.progress@
        &&& post.next_game_id == self.next_game_id
        &&& post.next_checkpoint_id == self.next_checkpoint_id
        &&& post.next_player_id == self.next_player_id
        &&& post.next_code == self.next_code
    }

    /// Every table and counter except the checkpoint table and its id
    /// counter is unchanged.
    pub open spec fn only_checkpoints_changed(self, post: Store) -> bool {
        &&& post.games@ == self.games@
        &&& post.players@ == self.players@
        &&& post.memberships@ == self.memberships@
        &&& post.progress@ == self.progress@
        &&& post.next_game_id == self.next_game_id
        &&& post.next_player_id == self.next_player_id
        &&& post.next_code == self.next_code
    }

    /// Every table and counter except the player table and its id
    /// counter is unchanged.
    pub open spec fn only_players_changed(self, post: Store) -> bool {
        &&& post.games@ == self.games@
        &&& post.checkpoints@ == self.checkpoints@
        &&& post.memberships@ == self.memberships@
        &&& post.progress@ == self.progress@
        &&& post.next_game_id == self.next_game_id
        &&& post.next_checkpoint_id == self.next_checkpoint_id
        &&& post.next_code == self.next_code
    }

    /// An empty store, with all counters at 1.
    pub fn new() -> (s: Store)
        ensures
            s.wf(),
            s.games@.len() == 0,
            s.checkpoints@.len() == 0,
            s.players@.len() == 0,
            s.memberships@.len() == 0,
            s.progress@.len() == 0,
            s.next_game_id == 1,
            s.next_checkpoint_id == 1,
            s.next_player_id == 1,
            s.next_code == 1,
    {
        Store {
            games: Vec::new(),
            checkpoints: Vec::new(),
            players: Vec::new(),
            memberships: Vec::new(),
            progress: Vec::new(),
            next_game_id: 1,
            next_checkpoint_id: 1,
            next_player_id: 1,
            next_code: 1,
        }
    }

    /// Index of the game with this id, if any.
    pub fn find_game(&self, game_id: u64) -> (r: Option<usize>)
        ensures
            match r {
                Some(i) => i < self.games@.len() && self.games@[i as int].game_id == game_id,
                None => forall|j: int|
                    0 <= j < self.games@.len() ==> self.games@[j].game_id != game_id,
            },
    {
        let mut i: usize = 0;
        while i < self.games.len()
            invariant
                i <= self.games@.len(),
                forall|j: int| 0 <= j < i ==> self.games@[j].game_id != game_id,
            decreases self.games@.len() - i,
        {
            if self.games[i].game_id == game_id {
                return Some(i);
            }
            i = i + 1;
        }
        None
    }

    /// Index of the first game with this code, if any.
    pub fn find_game_by_code(&self, code: &String) -> (r: Option<usize>)
        ensures
            match r {
                Some(i) => i < self.games@.len() && self.games@[i as int].code@ == code@,
                None => forall|j: int| 0 <= j < self.games@.len() ==> self.games@[j].code@ != code@,
            },
    {
        let mut i: usize = 0;
        while i < self.games.len()
            invariant
                i <= self.games@.len(),
                forall|j: int| 0 <= j < i ==> self.games@[j].code@ != code@,
            decreases self.games@.len() - i,
        {
            if self.games[i].code == *code {
                return Some(i);
            }
            i = i + 1;
        }
        None
    }

    /// Index of the checkpoint with this id, if any.
    pub fn find_checkpoint(&self, checkpoint_id: u64) -> (r: Option<usize>)
        ensures
            match r {
                Some(i) => i < self.checkpoints@.len() && self.checkpoints@[i as int].checkpoint_id
                    == checkpoint_id,
                None => forall|j: int|
                    0 <= j < self.checkpoints@.len() ==> self.checkpoints@[j].checkpoint_id
                        != checkpoint_id,
            },
    {
        let mut i: usize = 0;
        while i < self.checkpoints.len()
            invariant
                i <= self.checkpoints@.len(),
                forall|j: int| 0 <= j < i ==> self.checkpoints@[j].checkpoint_id != checkpoint_id,
            decreases self.checkpoints@.len() - i,
        {
            if self.checkpoints[i].checkpoint_id == checkpoint_id {
                return Some(i);
            }
            i = i + 1;
        }
        None
    }

    /// Index of the first checkpoint of this game with this tag code,
    /// if any.
    pub fn find_checkpoint_by_tag(&self, game_id: u64, tag_code: &String) -> (r: Option<usize>)
        ensures
            match r {
                Some(i) => i < self.checkpoints@.len() && self.checkpoints@[i as int].game_id
                    == game_id && self.checkpoints@[i as int].tag_code@ == tag_code@,
                None => forall|j: int|
                    0 <= j < self.checkpoints@.len() ==> !(self.checkpoints@[j].game_id == game_id
                        && self.checkpoints@[j].tag_code@ == tag_code@),
            },
    {
        let mut i: usize = 0;
        while i < self.checkpoints.len()
            invariant
                i <= self.checkpoints@.len(),
                forall|j: int|
                    0 <= j < i ==> !(self.checkpoints@[j].game_id == game_id
                        && self.checkpoints@[j].tag_code@ == tag_code@),
            decreases self.checkpoints@.len() - i,
        {
            if self.checkpoints[i].game_id == game_id && self.checkpoints[i].tag_code == *tag_code {
                return Some(i);
            }
            i = i + 1;
        }
        None
    }

    /// Index of the player with this id, if any.
    pub fn find_player(&self, player_id: u64) -> (r: Option<usize>)
        ensures
            match r {
                Some(i) => i < self.players@.len() && self.players@[i as int].player_id
                    == player_id,
                None => forall|j: int|
                    0 <= j < self.players@.len() ==> self.players@[j].player_id != player_id,
            },
    {
        let mut i: usize = 0;
        while i < self.players.len()
            invariant
                i <= self.players@.len(),
                forall|j: int| 0 <= j < i ==> self.players@[j].player_id != player_id,
            decreases self.players@.len() - i,
        {
            if self.players[i].player_id == player_id {
                return Some(i);
            }
            i = i + 1;
        }
        None
    }

    /// Index of this player's membership row in this game, if any.
    pub fn find_membership(&self, player_id: u64, game_id: u64) -> (r: Option<usize>)
        ensures
            match r {
                Some(i) => i < self.memberships@.len() && self.memberships@[i as int].player_id
                    == player_id && self.memberships@[i as int].game_id == game_id,
                None => forall|j: int|
                    0 <= j < self.memberships@.len() ==> !(self.memberships@[j].player_id
                        == player_id && self.memberships@[j].game_id == game_id),
            },
    {
        let mut i: usize = 0;
        while i < self.memberships.len()
            invariant
                i <= self.memberships@.len(),
                forall|j: int|
                    0 <= j < i ==> !(self.memberships@[j].player_id == player_id
                        && self.memberships@[j].game_id == game_id),
            decreases self.memberships@.len() - i,
        {
            if self.memberships[i].player_id == player_id && self.memberships[i].game_id == game_id
            {
                return Some(i);
            }
            i = i + 1;
        }
        None
    }

    /// Whether this game already has a checkpoint with this tag code
    /// or this order index.
    pub fn has_conflicting_checkpoint(
        &self,
        game_id: u64,
        tag_code: &String,
        order_index: u32,
    ) -> (r: bool)
        ensures
            r == (has_checkpoint_tag(self.checkpoints@, game_id, tag_code@)
                || has_checkpoint_order(self.checkpoints@, game_id, order_index)),
    {
        let mut i: usize = 0;
        while i < self.checkpoints.len()
            invariant
                i <= self.checkpoints@.len(),
                forall|j: int|
                    0 <= j < i ==> !((#[trigger] self.checkpoints@[j]).game_id == game_id && (
                    self.checkpoints@[j].tag_code@ == tag_code@ || self.checkpoints@[j].order_index
                        == order_index)),
            decreases self.checkpoints@.len() - i,
        {
            if self.checkpoints[i].game_id == game_id && (self.checkpoints[i].tag_code == *tag_code
                || self.checkpoints[i].order_index == order_index) {
                return true;
            }
            i = i + 1;
        }
        false
    }

    /// Whether any progress row references this player.
    pub fn any_progress_for(&self, player_id: u64) -> (r: bool)
        ensures
            r == player_referenced(self.progress@, player_id),
    {
        let mut i: usize = 0;
        while i < self.progress.len()
            invariant
                i <= self.progress@.len(),
                forall|j: int| 0 <= j < i ==> self.progress@[j].player_id != player_id,
            decreases self.progress@.len() - i,
        {
            if self.progress[i].player_id == player_id {
                return true;
            }
            i = i + 1;
        }
        false
    }

    /// Index of the claim of this checkpoint by this player in this
    /// game, if any.
    pub fn find_progress(&self, game_id: u64, player_id: u64, checkpoint_id: u64) -> (r: Option<
        usize,
    >)
        ensures
            match r {
                Some(i) => i < self.progress@.len() && self.progress@[i as int].game_id == game_id
                    && self.progress@[i as int].player_id == player_id
                    && self.progress@[i as int].checkpoint_id == checkpoint_id,
                None => forall|j: int|
                    0 <= j < self.progress@.len() ==> !(self.progress@[j].game_id == game_id
                        && self.progress@[j].player_id == player_id
                        && self.progress@[j].checkpoint_id == checkpoint_id),
            },
    {
        let mut i: usize = 0;
        while i < self.progress.len()
            invariant
                i <= self.progress@.len(),
                forall|j: int|
                    0 <= j < i ==> !(self.progress@[j].game_id == game_id
                        && self.progress@[j].player_id == player_id
                        && self.progress@[j].checkpoint_id == checkpoint_id),
            decreases self.progress@.len() - i,
        {
            if self.progress[i].game_id == game_id && self.progress[i].player_id == player_id
                && self.progress[i].checkpoint_id == checkpoint_id {
                return Some(i);
            }
            i = i + 1;
        }
        None
    }
}

/// Dropping rows table by table preserves the store invariant,
/// provided no kept row references a dropped row: a kept checkpoint's
/// or membership's game is kept, and a kept claim's checkpoint is
/// kept.
pub proof fn lemma_filter_store_wf(
    pre: Store,
    post: Store,
    kg: spec_fn(Game) -> bool,
    kc: spec_fn(Checkpoint) -> bool,
    kp: spec_fn(Player) -> bool,
    km: spec_fn(PlayerGame) -> bool,
    kr: spec_fn(Progress) -> bool,
)
    requires
        pre.wf(),
        post.games@ == pre.games@.filter(kg),
        post.checkpoints@ == pre.checkpoints@.filter(kc),
        post.players@ == pre.players@.filter(kp),
        post.memberships@ == pre.memberships@.filter(km),
        post.progress@ == pre.progress@.filter(kr),
        post.next_game_id == pre.next_game_id,
        post.next_checkpoint_id == pre.next_checkpoint_id,
        post.next_player_id == pre.next_player_id,
        post.next_code == pre.next_code,
        forall|i: int, j: int|
            0 <= i < pre.checkpoints@.len() && 0 <= j < pre.games@.len() && kc(
                pre.checkpoints@[i],
            ) && pre.games@[j].game_id == pre.checkpoints@[i].game_id ==> kg(pre.games@[j]),
        forall|i: int, j: int|
            0 <= i < pre.memberships@.len() && 0 <= j < pre.games@.len() && km(
                pre.memberships@[i],
            ) && pre.games@[j].game_id == pre.memberships@[i].game_id ==> kg(pre.games@[j]),
        forall|i: int, j: int|
            0 <= i < pre.progress@.len() && 0 <= j < pre.checkpoints@.len() && kr(
                pre.progress@[i],
            ) && pre.checkpoints@[j].checkpoint_id == pre.progress@[i].checkpoint_id
                && pre.checkpoints@[j].game_id == pre.progress@[i].game_id
                && pre.checkpoints@[j].order_index == pre.progress@[i].order_index ==> kc(
                pre.checkpoints@[j],
            ),
    ensures
        post.wf(),
{
    let gs = pre.games@;
    let cs = pre.checkpoints@;
    let pls = pre.players@;
    let ms = pre.memberships@;
    let prs = pre.progress@;
    crate::seq_util::lemma_filter_in_orig(gs, kg);
    crate::seq_util::lemma_filter_in_orig(cs, kc);
    crate::seq_util::lemma_filter_in_orig(pls, kp);
    crate::seq_util::lemma_filter_in_orig(ms, km);
    crate::seq_util::lemma_filter_in_orig(prs, kr);
    crate::seq_util::lemma_filter_distinct_by(gs, kg, |x: Game| x.game_id);
    crate::seq_util::lemma_filter_distinct_by(gs, kg, |x: Game| x.code_num);
    crate::seq_util::lemma_filter_distinct_by(cs, kc, |x: Checkpoint| x.checkpoint_id);
    crate::seq_util::lemma_filter_distinct_by(cs, kc, |x: Checkpoint| (x.game_id, x.tag_code@));
    crate::seq_util::lemma_filter_distinct_by(cs, kc, |x: Checkpoint| (x.game_id, x.order_index));
    crate::seq_util::lemma_filter_distinct_by(pls, kp, |x: Player| x.player_id);
    crate::seq_util::lemma_filter_distinct_by(ms, km, |x: PlayerGame| (x.player_id, x.game_id));
    crate::seq_util::lemma_filter_distinct_by(
        prs,
        kr,
        |x: Progress| (x.game_id, x.player_id, x.checkpoint_id),
    );
    assert forall|i: int, j: int| 0 <= i < j < post.games@.len() implies post.games@[i].game_id
        != post.games@[j].game_id && post.games@[i].code_num != post.games@[j].code_num by {
        assert(post.games@[i] == gs.filter(kg)[i]);
        assert(post.games@[j] == gs.filter(kg)[j]);
    }
    assert forall|i: int|
        0 <= i < post.games@.len() implies (#[trigger] post.games@[i]).game_id < post.next_game_id
        && post.games@[i].code_num < post.next_code && post.games@[i].code@ == code_seq(
        post.games@[i].code_num as nat,
    ) by {
        let x = post.games@[i];
        assert(x == gs.filter(kg)[i]);
        assert(gs.contains(x));
        let w = choose|w: int| 0 <= w < gs.len() && gs[w] == x;
        assert(gs[w].game_id < pre.next_game_id);
    }
    assert forall|i: int, j: int| 0 <= i < j < post.checkpoints@.len() implies
        post.checkpoints@[i].checkpoint_id != post.checkpoints@[j].checkpoint_id && !(
        post.checkpoints@[i].game_id == post.checkpoints@[j].game_id
            && post.checkpoints@[i].tag_code@ == post.checkpoints@[j].tag_code@) && !(
        post.checkpoints@[i].game_id == post.checkpoints@[j].game_id
            && post.checkpoints@[i].order_index == post.checkpoints@[j].order_index) by {
        assert(post.checkpoints@[i] == cs.filter(kc)[i]);
        assert(post.checkpoints@[j] == cs.filter(kc)[j]);
    }
    assert forall|i: int|
        0 <= i < post.checkpoints@.len() implies (#[trigger] post.checkpoints@[i]).order_index >= 1
        && post.checkpoints@[i].checkpoint_id < post.next_checkpoint_id && has_game_id(
        post.games@,
        post.checkpoints@[i].game_id,
    ) by {
        let x = post.checkpoints@[i];
        assert(x == cs.filter(kc)[i]);
        cs.lemma_filter_pred(kc, i);
        assert(cs.contains(x));
        let w = choose|w: int| 0 <= w < cs.len() && cs[w] == x;
        assert(cs[w].order_index >= 1);
        let j = choose|j: int| 0 <= j < gs.len() && gs[j].game_id == x.game_id;
        assert(kg(gs[j]));
        gs.lemma_filter_contains(kg, j);
        assert(post.games@.contains(gs[j]));
        let m = choose|m: int| 0 <= m < post.games@.len() && post.games@[m] == gs[j];
        assert(post.games@[m].game_id == x.game_id);
    }
    assert forall|i: int, j: int| 0 <= i < j < post.players@.len() implies
        post.players@[i].player_id != post.players@[j].player_id by {
        assert(post.players@[i] == pls.filter(kp)[i]);
        assert(post.players@[j] == pls.filter(kp)[j]);
    }
    assert forall|i: int|
        0 <= i < post.players@.len() implies (#[trigger] post.players@[i]).player_id
        < post.next_player_id by {
        let x = post.players@[i];
        assert(x == pls.filter(kp)[i]);
        assert(pls.contains(x));
        let w = choose|w: int| 0 <= w < pls.len() && pls[w] == x;
        assert(pls[w].player_id < pre.next_player_id);
    }
    assert forall|i: int, j: int| 0 <= i < j < post.memberships@.len() implies !(
        post.memberships@[i].player_id == post.memberships@[j].player_id
            && post.memberships@[i].game_id == post.memberships@[j].game_id) by {
        assert(post.memberships@[i] == ms.filter(km)[i]);
        assert(post.memberships@[j] == ms.filter(km)[j]);
    }
    assert forall|i: int|
        0 <= i < post.memberships@.len() implies (#[trigger] post.memberships@[i]).next_required
        as int == post.memberships@[i].checkpoints_scanned as int + 1
        && post.memberships@[i].player_id < post.next_player_id && has_game_id(
        post.games@,
        post.memberships@[i].game_id,
    ) by {
        let x = post.memberships@[i];
        assert(x == ms.filter(km)[i]);
        ms.lemma_filter_pred(km, i);
        assert(ms.contains(x));
        let w = choose|w: int| 0 <= w < ms.len() && ms[w] == x;
        assert(ms[w].next_required as int == ms[w].checkpoints_scanned as int + 1);
        assert(ms[w].player_id < pre.next_player_id);
        let j = choose|j: int| 0 <= j < gs.len() && gs[j].game_id == x.game_id;
        assert(kg(gs[j]));
        gs.lemma_filter_contains(kg, j);
        assert(post.games@.contains(gs[j]));
        let m = choose|m: int| 0 <= m < post.games@.len() && post.games@[m] == gs[j];
        assert(post.games@[m].game_id == x.game_id);
    }
    assert forall|i: int, j: int| 0 <= i < j < post.progress@.len() implies !(
        post.progress@[i].game_id == post.progress@[j].game_id && post.progress@[i].player_id
            == post.progress@[j].player_id && post.progress@[i].checkpoint_id
            == post.progress@[j].checkpoint_id) by {
        assert(post.progress@[i] == prs.filter(kr)[i]);
        assert(post.progress@[j] == prs.filter(kr)[j]);
    }
    assert forall|i: int|
        0 <= i < post.progress@.len() implies progress_backed(
        post.checkpoints@,
        #[trigger] post.progress@[i],
    ) by {
        let x = post.progress@[i];
        assert(x == prs.filter(kr)[i]);
        prs.lemma_filter_pred(kr, i);
        assert(prs.contains(x));
        let w = choose|w: int| 0 <= w < prs.len() && prs[w] == x;
        assert(progress_backed(cs, prs[w]));
        let k = choose|k: int|
            0 <= k < cs.len() && cs[k].checkpoint_id == x.checkpoint_id && cs[k].game_id
                == x.game_id && cs[k].order_index == x.order_index;
        assert(kc(cs[k]));
        cs.lemma_filter_contains(kc, k);
        assert(post.checkpoints@.contains(cs[k]));
        let m = choose|m: int| 0 <= m < post.checkpoints@.len() && post.checkpoints@[m] == cs[k];
        assert(post.checkpoints@[m].checkpoint_id == x.checkpoint_id);
    }
}

/// In a well-formed store no two games share a code: the code spells
/// out the code-counter value, and those values are unique.
pub proof fn lemma_game_codes_unique(s: Store)
    requires
        s.games_wf(),
    ensures
        forall|i: int, j: int|
            0 <= i < s.games@.len() && 0 <= j < s.games@.len() && i != j ==> s.games@[i].code@
                != s.games@[j].code@,
{
    assert forall|i: int, j: int|
        0 <= i < s.games@.len() && 0 <= j < s.games@.len() && i != j implies s.games@[i].code@
        != s.games@[j].code@ by {
        if s.games@[i].code@ == s.games@[j].code@ {
            lemma_code_seq_injective(
                s.games@[i].code_num as nat,
                s.games@[j].code_num as nat,
            );
        }
    }
}

} // verus!
