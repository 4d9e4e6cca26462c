//! Player registration, joining a game, and scoped deletion of a
//! player's progress.

use vstd::prelude::*;
use vstd::pervasive::VecAdditionalExecFns;

use crate::entities::Error;
use crate::entities::GameStatus;
use crate::entities::Player;
use crate::entities::PlayerGame;
use crate::store::Store;
use crate::store::game_index_by_code;
use crate::store::has_game_code;
use crate::store::has_player_id;
use crate::store::keep_cps_all;
use crate::store::keep_games_all;
use crate::store::keep_ms_not_player;
use crate::store::keep_prs_not_player;
use crate::store::lemma_filter_store_wf;
use crate::store::lemma_game_codes_unique;
use crate::store::player_index;

verus! {

impl Store {
    /// Registers a player under a caller-supplied id, or updates the
    /// name and team of an already registered player: re-registering
    /// never errors.  Fails with `InvalidArgument` only for the one
    /// id the counter cannot pass.
    pub fn upsert_player(&mut self, player_id: u64, name: String, team: Option<String>, now: i64) -> (r:
        Result<(), Error>)
        requires
            old(self).wf(),
        ensures
            final(self).wf(),
            player_id == u64::MAX ==> r == Err::<(), Error>(Error::InvalidArgument) && old(
                self,
            ).same_state(*final(self)),
            player_id < u64::MAX && has_player_id(old(self).players@, player_id) ==> ({
                let pi = player_index(old(self).players@, player_id);
                let updated = (Player { display_name: name, team: team, ..old(self).players@[pi] });
                &&& r == Ok::<(), Error>(())
                &&& final(self).players@ == old(self).players@.update(pi, updated)
                &&& final(self).next_player_id == old(self).next_player_id
                &&& old(self).only_players_changed(*final(self))
            }),
            player_id < u64::MAX && !has_player_id(old(self).players@, player_id) ==> ({
                let fresh = (Player {
                    player_id: player_id,
                    display_name: name,
                    team: team,
                    created_at: now,
                });
                &&& r == Ok::<(), Error>(())
                &&& final(self).players@ == old(self).players@.push(fresh)
                &&& final(self).next_player_id as int == (if player_id
                    >= old(self).next_player_id {
                    player_id + 1
                } else {
                    old(self).next_player_id as int
                })
                &&& old(self).only_players_changed(*final(self))
            }),
    {
        if player_id == u64::MAX {
            return Err(Error::InvalidArgument);
        }
        let found = self.find_player(player_id);
        match found {
            Some(i) => {
                proof {
                    assert(player_index(self.players@, player_id) == i as int);
                }
                let p = &self.players[i];
                let updated = Player {
                    player_id: p.player_id,
                    display_name: name,
                    team,
                    created_at: p.created_at,
                };
                self.players.set(i, updated);
                proof {
                    assert forall|a: int, b: int|
                        0 <= a < b < self.players@.len() implies self.players@[a].player_id
                        != self.players@[b].player_id by {
                        assert(self.players@[a].player_id == old(self).players@[a].player_id);
                        assert(self.players@[b].player_id == old(self).players@[b].player_id);
                    }
                }
                Ok(())
            },
            None => {
                let fresh = Player { player_id, display_name: name, team, created_at: now };
                self.players.push(fresh);
                if player_id >= self.next_player_id {
                    self.next_player_id = player_id + 1;
                }
                proof {
                    assert forall|a: int|
                        0 <= a < self.players@.len() implies (
                        #[trigger] self.players@[a]).player_id < self.next_player_id by {
                        if a < old(self).players@.len() {
                            assert(self.players@[a] == old(self).players@[a]);
                        }
                    }
                    assert forall|a: int|
                        0 <= a < self.memberships@.len() implies (
                        #[trigger] self.memberships@[a]).player_id < self.next_player_id by {
                        assert(self.memberships@[a].player_id < old(self).next_player_id);
                    }
                }
                Ok(())
            },
        }
    }

    /// Registers a brand-new player with a generated id and joins
    /// them to the game with this code, with the progress cursor at
    /// its start.  Returns the new player id.  Fails with `NotFound`
    /// when no game has this code, `GameNotActive` when the game is
    /// not running, and `InvalidState` only when the id counter is
    /// exhausted.
    pub fn join_game(&mut self, game_code: String, display_name: String, now: i64) -> (r: Result<
        u64,
        Error,
    >)
        requires
            old(self).wf(),
        ensures
            final(self).wf(),
            !has_game_code(old(self).games@, game_code@) ==> r == Err::<u64, Error>(Error::NotFound)
                && old(self).same_state(*final(self)),
            has_game_code(old(self).games@, game_code@) ==> ({
                let g = old(self).games@[game_index_by_code(old(self).games@, game_code@)];
                let fresh_player = (Player {
                    player_id: old(self).next_player_id,
                    display_name: display_name,
                    team: None,
                    created_at: now,
                });
                let fresh_membership = (PlayerGame {
                    player_id: old(self).next_player_id,
                    game_id: g.game_id,
                    joined_at: now,
                    checkpoints_scanned: 0,
                    last_scan_at: None,
                    next_required: 1,
                });
                if g.status != GameStatus::Active {
                    r == Err::<u64, Error>(Error::GameNotActive) && old(self).same_state(
                        *final(self),
                    )
                } else if old(self).next_player_id == u64::MAX {
                    r == Err::<u64, Error>(Error::InvalidState) && old(self).same_state(
                        *final(self),
                    )
                } else {
                    &&& r == Ok::<u64, Error>(old(self).next_player_id)
                    &&& final(self).players@ == old(self).players@.push(fresh_player)
                    &&& final(self).memberships@ == old(self).memberships@.push(fresh_membership)
                    &&& final(self).next_player_id == old(self).next_player_id + 1
                    &&& final(self).games@ == old(self).games@
                    &&& final(self).checkpoints@ == old(self).checkpoints@
                    &&& final(self).progress@ == old(self).progress@
                    &&& final(self).next_game_id == old(self).next_game_id
                    &&& final(self).next_checkpoint_id == old(self).next_checkpoint_id
                    &&& final(self).next_code == old(self).next_code
                }
            }),
    {
        let found = self.find_game_by_code(&game_code);
        let gi = match found {
            None => {
                return Err(Error::NotFound);
            },
            Some(gi) => gi,
        };
        proof {
            lemma_game_codes_unique(*self);
            assert(game_index_by_code(self.games@, game_code@) == gi as int);
        }
        if !matches!(self.games[gi].status, GameStatus::Active) {
            return Err(Error::GameNotActive);
        }
        if self.next_player_id == u64::MAX {
            return Err(Error::InvalidState);
        }
        let player_id = self.next_player_id;
        let game_id = self.games[gi].game_id;
        let fresh_player = Player { player_id, display_name, team: None, created_at: now };
        let fresh_membership = PlayerGame {
            player_id,
            game_id,
            joined_at: now,
            checkpoints_scanned: 0,
            last_scan_at: None,
            next_required: 1,
        };
        self.players.push(fresh_player);
        self.memberships.push(fresh_membership);
        self.next_player_id = self.next_player_id + 1;
        proof {
            assert forall|a: int|
                0 <= a < self.memberships@.len() implies (
                #[trigger] self.memberships@[a]).next_required as int
                == self.memberships@[a].checkpoints_scanned as int + 1
                && self.memberships@[a].player_id < self.next_player_id
                && crate::store::has_game_id(self.games@, self.memberships@[a].game_id) by {
                if a < old(self).memberships@.len() {
                    assert(self.memberships@[a] == old(self).memberships@[a]);
                } else {
                    assert(self.memberships@[a] == fresh_membership);
                    assert(self.games@[gi as int].game_id == game_id);
                }
            }
            assert forall|a: int, b: int| 0 <= a < b < self.memberships@.len() implies !(
            self.memberships@[a].player_id == self.memberships@[b].player_id
                && self.memberships@[a].game_id == self.memberships@[b].game_id) by {
                if b < old(self).memberships@.len() {
                    assert(self.memberships@[a] == old(self).memberships@[a]);
                    assert(self.memberships@[b] == old(self).memberships@[b]);
                } else {
                    assert(self.memberships@[a] == old(self).memberships@[a]);
                    assert(self.memberships@[a].player_id < player_id);
                }
            }
        }
        Ok(player_id)
    }

    /// Deletes this player's progress rows and membership rows, in
    /// one game or, with no game given, in all games.  The player row
    /// itself stays registered.  Fails with `NotFound` when no player
    /// has this id.
    pub fn delete_player(&mut self, player_id: u64, game_id: Option<u64>) -> (r: Result<(), Error>)
        requires
            old(self).wf(),
        ensures
            final(self).wf(),
            !has_player_id(old(self).players@, player_id) ==> r == Err::<(), Error>(Error::NotFound)
                && old(self).same_state(*final(self)),
            has_player_id(old(self).players@, player_id) ==> ({
                &&& r == Ok::<(), Error>(())
                &&& final(self).progress@ == old(self).progress@.filter(
                    keep_prs_not_player(player_id, game_id),
                )
                &&& final(self).memberships@ == old(self).memberships@.filter(
                    keep_ms_not_player(player_id, game_id),
                )
                &&& final(self).games@ == old(self).games@
                &&& final(self).checkpoints@ == old(self).checkpoints@
                &&& final(self).players@ == old(self).players@
                &&& final(self).next_game_id == old(self).next_game_id
                &&& final(self).next_checkpoint_id == old(self).next_checkpoint_id
                &&& final(self).next_player_id == old(self).next_player_id
                &&& final(self).next_code == old(self).next_code
            }),
    {
        let found = self.find_player(player_id);
        if found.is_none() {
            return Err(Error::NotFound);
        }
        let mut kept_prs: Vec<crate::entities::Progress> = Vec::new();
        let mut i: usize = 0;
        while i < self.progress.len()
            invariant
                i <= self.progress@.len(),
                kept_prs@ == self.progress@.subrange(0, i as int).filter(
                    keep_prs_not_player(player_id, game_id),
                ),
            decreases self.progress@.len() - i,
        {
            proof {
                crate::seq_util::lemma_filter_step(
                    self.progress@,
                    keep_prs_not_player(player_id, game_id),
                    i as int,
                );
            }
            let in_scope = match game_id {
                None => true,
                Some(g) => self.progress[i].game_id == g,
            };
            if !(self.progress[i].player_id == player_id && in_scope) {
                kept_prs.push(self.progress[i].clone());
            }
            i = i + 1;
        }
        proof {
            assert(self.progress@.subrange(0, self.progress@.len() as int) =~= self.progress@);
        }
        self.progress = kept_prs;

        let mut kept_ms: Vec<PlayerGame> = Vec::new();
        let mut i: usize = 0;
        while i < self.memberships.len()
            invariant
                i <= self.memberships@.len(),
                kept_ms@ == self.memberships@.subrange(0, i as int).filter(
                    keep_ms_not_player(player_id, game_id),
                ),
            decreases self.memberships@.len() - i,
        {
            proof {
                crate::seq_util::lemma_filter_step(
                    self.memberships@,
                    keep_ms_not_player(player_id, game_id),
                    i as int,
                );
            }
            let in_scope = match game_id {
                None => true,
                Some(g) => self.memberships[i].game_id == g,
            };
            if !(self.memberships[i].player_id == player_id && in_scope) {
                kept_ms.push(self.memberships[i]);
            }
            i = i + 1;
        }
        proof {
            assert(self.memberships@.subrange(0, self.memberships@.len() as int)
                =~= self.memberships@);
        }
        self.memberships = kept_ms;
        proof {
            crate::seq_util::lemma_filter_all(old(self).games@, keep_games_all());
            crate::seq_util::lemma_filter_all(old(self).checkpoints@, keep_cps_all());
            crate::seq_util::lemma_filter_all(
                old(self).players@,
                crate::store::keep_all_players(),
            );
            lemma_filter_store_wf(
                *old(self),
                *self,
                keep_games_all(),
                keep_cps_all(),
                crate::store::keep_all_players(),
                keep_ms_not_player(player_id, game_id),
                keep_prs_not_player(player_id, game_id),
            );
        }
        Ok(())
    }
}

} // verus!
