//! Game lifecycle: creation, the forward-only status transitions, and
//! the reset-style creation that wipes all prior data.

use vstd::prelude::*;
use vstd::pervasive::VecAdditionalExecFns;

use crate::codes::code_seq;
use crate::codes::game_code;
use crate::entities::Error;
use crate::entities::Game;
use crate::entities::GameStatus;
use crate::entities::Checkpoint;
use crate::entities::Player;
use crate::entities::PlayerGame;
use crate::entities::Progress;
use crate::store::Store;
use crate::store::game_index;
use crate::store::has_game_id;
use crate::store::keep_all_players;
use crate::store::keep_cps_not_game;
use crate::store::keep_games_not;
use crate::store::keep_ms_not_game;
use crate::store::keep_players_referenced;
use crate::store::keep_prs_not_game;

verus! {

/// What starting a game does: a missing game is reported, a game
/// that is not in `Setup` is refused, and a `Setup` game becomes
/// `Active` with `started_at` stamped; nothing else moves.
pub open spec fn start_post(
    pre: Store,
    post: Store,
    r: Result<(), Error>,
    game_id: u64,
    now: i64,
) -> bool {
    if !has_game_id(pre.games@, game_id) {
        r == Err::<(), Error>(Error::NotFound) && pre.same_state(post)
    } else {
        let gi = game_index(pre.games@, game_id);
        let updated = (Game {
            status: GameStatus::Active,
            started_at: Some(now),
            ..pre.games@[gi]
        });
        if pre.games@[gi].status != GameStatus::Setup {
            r == Err::<(), Error>(Error::InvalidState) && pre.same_state(post)
        } else {
            r == Ok::<(), Error>(()) && post.games@ == pre.games@.update(gi, updated)
                && pre.only_games_changed(post)
        }
    }
}

/// What ending a game does: a missing game is reported, a game that
/// is not `Active` is refused, and an `Active` game becomes `Ended`
/// with `ended_at` stamped; nothing else moves.
pub open spec fn end_post(
    pre: Store,
    post: Store,
    r: Result<(), Error>,
    game_id: u64,
    now: i64,
) -> bool {
    if !has_game_id(pre.games@, game_id) {
        r == Err::<(), Error>(Error::NotFound) && pre.same_state(post)
    } else {
        let gi = game_index(pre.games@, game_id);
        let updated = (Game { status: GameStatus::Ended, ended_at: Some(now), ..pre.games@[gi] });
        if pre.games@[gi].status != GameStatus::Active {
            r == Err::<(), Error>(Error::InvalidState) && pre.same_state(post)
        } else {
            r == Ok::<(), Error>(()) && post.games@ == pre.games@.update(gi, updated)
                && pre.only_games_changed(post)
        }
    }
}

impl Store {
    /// Creates a game in the `Setup` phase with a fresh id and a fresh
    /// human-readable code, and returns the new id.  Fails with
    /// `InvalidState` only when an id counter is exhausted.
    pub fn create_game(&mut self, name: String, now: i64) -> (r: Result<u64, Error>)
        requires
            old(self).wf(),
        ensures
            final(self).wf(),
            old(self).next_game_id < u64::MAX && old(self).next_code < u64::MAX ==> {
                &&& r == Ok::<u64, Error>(old(self).next_game_id)
                &&& final(self).games@.len() == old(self).games@.len() + 1
                &&& final(self).games@.subrange(0, old(self).games@.len() as int)
                    == old(self).games@
                &&& final(self).games@.last().game_id == old(self).next_game_id
                &&& final(self).games@.last().code@ == code_seq(old(self).next_code as nat)
                &&& final(self).games@.last().code_num == old(self).next_code
                &&& final(self).games@.last().name == name
                &&& final(self).games@.last().status == GameStatus::Setup
                &&& final(self).games@.last().created_at == now
                &&& final(self).games@.last().started_at.is_none()
                &&& final(self).games@.last().ended_at.is_none()
                &&& final(self).next_game_id == old(self).next_game_id + 1
                &&& final(self).next_code == old(self).next_code + 1
            },
            !(old(self).next_game_id < u64::MAX && old(self).next_code < u64::MAX) ==> r == Err::<
                u64,
                Error,
            >(Error::InvalidState) && old(self).same_state(*final(self)),
            final(self).checkpoints@ == old(self).checkpoints@,
            final(self).players@ == old(self).players@,
            final(self).memberships@ == old(self).memberships@,
            final(self).progress@ == old(self).progress@,
            final(self).next_checkpoint_id == old(self).next_checkpoint_id,
            final(self).next_player_id == old(self).next_player_id,
    {
        if self.next_game_id == u64::MAX || self.next_code == u64::MAX {
            return Err(Error::InvalidState);
        }
        let game_id = self.next_game_id;
        let code = game_code(self.next_code);
        let g = Game {
            game_id,
            code,
            code_num: self.next_code,
            name,
            status: GameStatus::Setup,
            created_at: now,
            started_at: None,
            ended_at: None,
        };
        self.games.push(g);
        self.next_game_id = self.next_game_id + 1;
        self.next_code = self.next_code + 1;
        proof {
            assert forall|i: int|
                0 <= i < self.checkpoints@.len() implies has_game_id(
                self.games@,
                (#[trigger] self.checkpoints@[i]).game_id,
            ) by {
                let w = choose|w: int|
                    0 <= w < old(self).games@.len() && old(self).games@[w].game_id
                        == self.checkpoints@[i].game_id;
                assert(self.games@[w].game_id == self.checkpoints@[i].game_id);
            }
            assert forall|i: int|
                0 <= i < self.memberships@.len() implies has_game_id(
                self.games@,
                (#[trigger] self.memberships@[i]).game_id,
            ) by {
                let w = choose|w: int|
                    0 <= w < old(self).games@.len() && old(self).games@[w].game_id
                        == self.memberships@[i].game_id;
                assert(self.games@[w].game_id == self.memberships@[i].game_id);
            }
        }
        Ok(game_id)
    }

    /// Moves a `Setup` game to `Active` and stamps `started_at`.
    /// Fails with `NotFound` when no game has this id and with
    /// `InvalidState` when the game is already active or ended: the
    /// lifecycle only ever moves forward.
    pub fn start_game(&mut self, game_id: u64, now: i64) -> (r: Result<(), Error>)
        requires
            old(self).wf(),
        ensures
            final(self).wf(),
            start_post(*old(self), *final(self), r, game_id, now),
    {
        let found = self.find_game(game_id);
        match found {
            None => Err(Error::NotFound),
            Some(i) => {
                proof {
                    assert(game_index(self.games@, game_id) == i as int);
                }
                if !matches!(self.games[i].status, GameStatus::Setup) {
                    return Err(Error::InvalidState);
                }
                let g = &self.games[i];
                let updated = Game {
                    game_id: g.game_id,
                    code: g.code.clone(),
                    code_num: g.code_num,
                    name: g.name.clone(),
                    status: GameStatus::Active,
                    created_at: g.created_at,
                    started_at: Some(now),
                    ended_at: g.ended_at,
                };
                self.games.set(i, updated);
                proof {
                    lemma_game_row_update_wf(*old(self), *self, i as int);
                }
                Ok(())
            },
        }
    }

    /// Moves an `Active` game to `Ended` and stamps `ended_at`.
    /// Fails with `NotFound` when no game has this id and with
    /// `InvalidState` when the game is still in setup or already
    /// ended.
    pub fn end_game(&mut self, game_id: u64, now: i64) -> (r: Result<(), Error>)
        requires
            old(self).wf(),
        ensures
            final(self).wf(),
            end_post(*old(self), *final(self), r, game_id, now),
    {
        let found = self.find_game(game_id);
        match found {
            None => Err(Error::NotFound),
            Some(i) => {
                proof {
                    assert(game_index(self.games@, game_id) == i as int);
                }
                if !matches!(self.games[i].status, GameStatus::Active) {
                    return Err(Error::InvalidState);
                }
                let g = &self.games[i];
                let updated = Game {
                    game_id: g.game_id,
                    code: g.code.clone(),
                    code_num: g.code_num,
                    name: g.name.clone(),
                    status: GameStatus::Ended,
                    created_at: g.created_at,
                    started_at: g.started_at,
                    ended_at: Some(now),
                };
                self.games.set(i, updated);
                proof {
                    lemma_game_row_update_wf(*old(self), *self, i as int);
                }
                Ok(())
            },
        }
    }

    /// Deletes a game together with all its checkpoints, memberships
    /// and progress rows, in one operation.  With `cascade_orphans`,
    /// player rows that no remaining progress row references anywhere
    /// are deleted as well.  Fails with `NotFound` when no game has
    /// this id.
    pub fn delete_game(&mut self, game_id: u64, cascade_orphans: bool) -> (r: Result<(), Error>)
        requires
            old(self).wf(),
        ensures
            final(self).wf(),
            !has_game_id(old(self).games@, game_id) ==> r == Err::<(), Error>(Error::NotFound)
                && old(self).same_state(*final(self)),
            has_game_id(old(self).games@, game_id) ==> ({
                let kept_progress = old(self).progress@.filter(keep_prs_not_game(game_id));
                &&& r == Ok::<(), Error>(())
                &&& final(self).games@ == old(self).games@.filter(keep_games_not(game_id))
                &&& final(self).checkpoints@ == old(self).checkpoints@.filter(
                    keep_cps_not_game(game_id),
                )
                &&& final(self).memberships@ == old(self).memberships@.filter(
                    keep_ms_not_game(game_id),
                )
                &&& final(self).progress@ == kept_progress
                &&& !cascade_orphans ==> final(self).players@ == old(self).players@
                &&& cascade_orphans ==> final(self).players@ == old(self).players@.filter(
                    keep_players_referenced(kept_progress),
                )
                &&& final(self).next_game_id == old(self).next_game_id
                &&& final(self).next_checkpoint_id == old(self).next_checkpoint_id
                &&& final(self).next_player_id == old(self).next_player_id
                &&& final(self).next_code == old(self).next_code
            }),
    {
        let found = self.find_game(game_id);
        if found.is_none() {
            return Err(Error::NotFound);
        }
        let mut kept_games: Vec<Game> = Vec::new();
        let mut i: usize = 0;
        while i < self.games.len()
            invariant
                i <= self.games@.len(),
                kept_games@ == self.games@.subrange(0, i as int).filter(keep_games_not(game_id)),
            decreases self.games@.len() - i,
        {
            proof {
                crate::seq_util::lemma_filter_step(self.games@, keep_games_not(game_id), i as int);
            }
            if self.games[i].game_id != game_id {
                kept_games.push(self.games[i].clone());
            }
            i = i + 1;
        }
        proof {
            assert(self.games@.subrange(0, self.games@.len() as int) =~= self.games@);
        }
        self.games = kept_games;

        let mut kept_cps: Vec<Checkpoint> = Vec::new();
        let mut i: usize = 0;
        while i < self.checkpoints.len()
            invariant
                i <= self.checkpoints@.len(),
                kept_cps@ == self.checkpoints@.subrange(0, i as int).filter(
                    keep_cps_not_game(game_id),
                ),
            decreases self.checkpoints@.len() - i,
        {
            proof {
                crate::seq_util::lemma_filter_step(
                    self.checkpoints@,
                    keep_cps_not_game(game_id),
                    i as int,
                );
            }
            if self.checkpoints[i].game_id != game_id {
                kept_cps.push(self.checkpoints[i].clone());
            }
            i = i + 1;
        }
        proof {
            assert(self.checkpoints@.subrange(0, self.checkpoints@.len() as int)
                =~= self.checkpoints@);
        }
        self.checkpoints = kept_cps;

        let mut kept_ms: Vec<PlayerGame> = Vec::new();
        let mut i: usize = 0;
        while i < self.memberships.len()
            invariant
                i <= self.memberships@.len(),
                kept_ms@ == self.memberships@.subrange(0, i as int).filter(
                    keep_ms_not_game(game_id),
                ),
            decreases self.memberships@.len() - i,
        {
            proof {
                crate::seq_util::lemma_filter_step(
                    self.memberships@,
                    keep_ms_not_game(game_id),
                    i as int,
                );
            }
            if self.memberships[i].game_id != game_id {
                kept_ms.push(self.memberships[i]);
            }
            i = i + 1;
        }
        proof {
            assert(self.memberships@.subrange(0, self.memberships@.len() as int)
                =~= self.memberships@);
        }
        self.memberships = kept_ms;

        let mut kept_prs: Vec<Progress> = Vec::new();
        let mut i: usize = 0;
        while i < self.progress.len()
            invariant
                i <= self.progress@.len(),
                kept_prs@ == self.progress@.subrange(0, i as int).filter(
                    keep_prs_not_game(game_id),
                ),
            decreases self.progress@.len() - i,
        {
            proof {
                crate::seq_util::lemma_filter_step(
                    self.progress@,
                    keep_prs_not_game(game_id),
                    i as int,
                );
            }
            if self.progress[i].game_id != game_id {
                kept_prs.push(self.progress[i].clone());
            }
            i = i + 1;
        }
        proof {
            assert(self.progress@.subrange(0, self.progress@.len() as int) =~= self.progress@);
        }
        self.progress = kept_prs;

        if cascade_orphans {
            let mut kept_players: Vec<Player> = Vec::new();
            let mut i: usize = 0;
            while i < self.players.len()
                invariant
                    i <= self.players@.len(),
                    kept_players@ == self.players@.subrange(0, i as int).filter(
                        keep_players_referenced(self.progress@),
                    ),
                decreases self.players@.len() - i,
            {
                proof {
                    crate::seq_util::lemma_filter_step(
                        self.players@,
                        keep_players_referenced(self.progress@),
                        i as int,
                    );
                }
                if self.any_progress_for(self.players[i].player_id) {
                    kept_players.push(self.players[i].clone());
                }
                i = i + 1;
            }
            proof {
                assert(self.players@.subrange(0, self.players@.len() as int) =~= self.players@);
            }
            self.players = kept_players;
            proof {
                crate::store::lemma_filter_store_wf(
                    *old(self),
                    *self,
                    keep_games_not(game_id),
                    keep_cps_not_game(game_id),
                    keep_players_referenced(self.progress@),
                    keep_ms_not_game(game_id),
                    keep_prs_not_game(game_id),
                );
            }
        } else {
            proof {
                crate::seq_util::lemma_filter_all(old(self).players@, keep_all_players());
                crate::store::lemma_filter_store_wf(
                    *old(self),
                    *self,
                    keep_games_not(game_id),
                    keep_cps_not_game(game_id),
                    keep_all_players(),
                    keep_ms_not_game(game_id),
                    keep_prs_not_game(game_id),
                );
            }
        }
        Ok(())
    }

    /// Creates a game after wiping every existing game, checkpoint,
    /// player, membership and progress row, for single-game
    /// deployments.  The wipe and the insert happen in one operation,
    /// so no caller ever observes a partially reset store.  The
    /// counters are not reset: generated ids and codes stay unique
    /// across resets.
    pub fn reset_game(&mut self, name: String, now: i64) -> (r: Result<u64, Error>)
        requires
            old(self).wf(),
        ensures
            final(self).wf(),
            old(self).next_game_id < u64::MAX && old(self).next_code < u64::MAX ==> {
                &&& r == Ok::<u64, Error>(old(self).next_game_id)
                &&& final(self).games@.len() == 1
                &&& final(self).games@[0].game_id == old(self).next_game_id
                &&& final(self).games@[0].code@ == code_seq(old(self).next_code as nat)
                &&& final(self).games@[0].name == name
                &&& final(self).games@[0].status == GameStatus::Setup
                &&& final(self).games@[0].created_at == now
                &&& final(self).games@[0].started_at.is_none()
                &&& final(self).games@[0].ended_at.is_none()
                &&& final(self).checkpoints@.len() == 0
                &&& final(self).players@.len() == 0
                &&& final(self).memberships@.len() == 0
                &&& final(self).progress@.len() == 0
                &&& final(self).next_game_id == old(self).next_game_id + 1
                &&& final(self).next_code == old(self).next_code + 1
            },
            !(old(self).next_game_id < u64::MAX && old(self).next_code < u64::MAX) ==> r == Err::<
                u64,
                Error,
            >(Error::InvalidState) && old(self).same_state(*final(self)),
    {
        if self.next_game_id == u64::MAX || self.next_code == u64::MAX {
            return Err(Error::InvalidState);
        }
        self.games.clear();
        self.checkpoints.clear();
        self.players.clear();
        self.memberships.clear();
        self.progress.clear();
        self.create_game(name, now)
    }
}

/// Replacing one game row with a row that keeps its id, code and
/// code-counter value preserves the store invariant.
proof fn lemma_game_row_update_wf(pre: Store, post: Store, gi: int)
    requires
        pre.wf(),
        0 <= gi < pre.games@.len(),
        post.games@.len() == pre.games@.len(),
        post.games@[gi].game_id == pre.games@[gi].game_id,
        post.games@[gi].code_num == pre.games@[gi].code_num,
        post.games@[gi].code@ == pre.games@[gi].code@,
        forall|j: int| 0 <= j < pre.games@.len() && j != gi ==> post.games@[j] == pre.games@[j],
        post.checkpoints@ == pre.checkpoints@,
        post.players@ == pre.players@,
        post.memberships@ == pre.memberships@,
        post.progress@ == pre.progress@,
        post.next_game_id == pre.next_game_id,
        post.next_checkpoint_id == pre.next_checkpoint_id,
        post.next_player_id == pre.next_player_id,
        post.next_code == pre.next_code,
    ensures
        post.wf(),
{
    assert forall|i: int|
        0 <= i < post.checkpoints@.len() implies has_game_id(
        post.games@,
        (#[trigger] post.checkpoints@[i]).game_id,
    ) by {
        let w = choose|w: int|
            0 <= w < pre.games@.len() && pre.games@[w].game_id == post.checkpoints@[i].game_id;
        assert(post.games@[w].game_id == post.checkpoints@[i].game_id);
    }
    assert forall|i: int|
        0 <= i < post.memberships@.len() implies has_game_id(
        post.games@,
        (#[trigger] post.memberships@[i]).game_id,
    ) by {
        let w = choose|w: int|
            0 <= w < pre.games@.len() && pre.games@[w].game_id == post.memberships@[i].game_id;
        assert(post.games@[w].game_id == post.memberships@[i].game_id);
    }
}

} // verus!
