//! The claim engine: sequential-order enforcement, idempotent
//! re-claims, and cursor maintenance, plus single-claim deletion.

use vstd::prelude::*;
use vstd::pervasive::VecAdditionalExecFns;

use crate::entities::Checkpoint;
use crate::entities::Error;
use crate::entities::GameStatus;
use crate::entities::PlayerGame;
use crate::entities::Progress;
use crate::store::Store;
use crate::store::checkpoint_index_by_tag;
use crate::store::game_index_by_code;
use crate::store::has_checkpoint_tag;
use crate::store::has_game_code;
use crate::store::has_membership;
use crate::store::has_progress;
use crate::store::keep_all_players;
use crate::store::keep_cps_all;
use crate::store::keep_games_all;
use crate::store::keep_ms_all;
use crate::store::keep_prs_not_claim;
use crate::store::lemma_filter_store_wf;
use crate::store::lemma_game_codes_unique;
use crate::store::membership_index;

verus! {

/// The player has already claimed every checkpoint of this game whose
/// order index is below `order_index`: the condition a fresh claim
/// must meet.
pub open spec fn prereqs_met(
    cps: Seq<Checkpoint>,
    prs: Seq<Progress>,
    game_id: u64,
    player_id: u64,
    order_index: u32,
) -> bool {
    forall|k: int|
        0 <= k < cps.len() && (#[trigger] cps[k]).game_id == game_id && cps[k].order_index
            < order_index ==> has_progress(prs, game_id, player_id, cps[k].checkpoint_id)
}

/// What one claim attempt does, case by case, in the order the checks
/// are made.  A re-claim of an already claimed checkpoint is a
/// success that changes nothing; a fresh claim appends one progress
/// row and advances the player's cursor by exactly one, both in the
/// same operation.
pub open spec fn scan_post(
    pre: Store,
    post: Store,
    r: Result<(), Error>,
    player_id: u64,
    game_code: Seq<char>,
    tag_code: Seq<char>,
    client_token: String,
    now: i64,
) -> bool {
    if !has_game_code(pre.games@, game_code) {
        r == Err::<(), Error>(Error::NotFound) && pre.same_state(post)
    } else {
        let g = pre.games@[game_index_by_code(pre.games@, game_code)];
        if g.status != GameStatus::Active {
            r == Err::<(), Error>(Error::GameNotActive) && pre.same_state(post)
        } else if !has_checkpoint_tag(pre.checkpoints@, g.game_id, tag_code) {
            r == Err::<(), Error>(Error::NotFound) && pre.same_state(post)
        } else {
            let cp = pre.checkpoints@[checkpoint_index_by_tag(
                pre.checkpoints@,
                g.game_id,
                tag_code,
            )];
            if !cp.is_active {
                r == Err::<(), Error>(Error::CheckpointInactive) && pre.same_state(post)
            } else if !has_membership(pre.memberships@, player_id, g.game_id) {
                r == Err::<(), Error>(Error::NotMember) && pre.same_state(post)
            } else {
                let mi = membership_index(pre.memberships@, player_id, g.game_id);
                let m = pre.memberships@[mi];
                if has_progress(pre.progress@, g.game_id, player_id, cp.checkpoint_id) {
                    r == Ok::<(), Error>(()) && pre.same_state(post)
                } else if !prereqs_met(
                    pre.checkpoints@,
                    pre.progress@,
                    g.game_id,
                    player_id,
                    cp.order_index,
                ) {
                    r == Err::<(), Error>(Error::OutOfOrder) && pre.same_state(post)
                } else if m.next_required == u32::MAX {
                    r == Err::<(), Error>(Error::InvalidState) && pre.same_state(post)
                } else {
                    let row = (Progress {
                        game_id: g.game_id,
                        player_id: player_id,
                        checkpoint_id: cp.checkpoint_id,
                        order_index: cp.order_index,
                        timestamp: now,
                        client_token: client_token,
                    });
                    let moved = (PlayerGame {
                        checkpoints_scanned: (m.checkpoints_scanned + 1) as u32,
                        last_scan_at: Some(now),
                        next_required: (m.next_required + 1) as u32,
                        ..m
                    });
                    &&& r == Ok::<(), Error>(())
                    &&& post.progress@ == pre.progress@.push(row)
                    &&& post.memberships@ == pre.memberships@.update(mi, moved)
                    &&& post.games@ == pre.games@
                    &&& post.checkpoints@ == pre.checkpoints@
                    &&& post.players@ == pre.players@
                    &&& post.next_game_id == pre.next_game_id
                    &&& post.next_checkpoint_id == pre.next_checkpoint_id
                    &&& post.next_player_id == pre.next_player_id
                    &&& post.next_code == pre.next_code
                }
            }
        }
    }
}

impl Store {
    /// Whether this player has claimed every checkpoint of this game
    /// with an order index below `order_index`.
    fn prereqs_satisfied(&self, game_id: u64, player_id: u64, order_index: u32) -> (r: bool)
        ensures
            r == prereqs_met(self.checkpoints@, self.progress@, game_id, player_id, order_index),
    {
        let mut i: usize = 0;
        while i < self.checkpoints.len()
            invariant
                i <= self.checkpoints@.len(),
                forall|k: int|
                    0 <= k < i && (#[trigger] self.checkpoints@[k]).game_id == game_id
                        && self.checkpoints@[k].order_index < order_index ==> has_progress(
                        self.progress@,
                        game_id,
                        player_id,
                        self.checkpoints@[k].checkpoint_id,
                    ),
            decreases self.checkpoints@.len() - i,
        {
            if self.checkpoints[i].game_id == game_id && self.checkpoints[i].order_index
                < order_index {
                let claimed = self.find_progress(
                    game_id,
                    player_id,
                    self.checkpoints[i].checkpoint_id,
                );
                if claimed.is_none() {
                    return false;
                }
            }
            i = i + 1;
        }
        true
    }

    /// A player claims the checkpoint of this game carrying this tag
    /// code.  The checks run in order: the game must exist
    /// (`NotFound`) and be running (`GameNotActive`); the checkpoint
    /// must exist in that game (`NotFound`) and be switched on
    /// (`CheckpointInactive`); the player must have joined the game
    /// (`NotMember`).  A re-claim of an already claimed checkpoint
    /// returns success and changes nothing, so physical re-scans stay
    /// harmless.  Otherwise every checkpoint of the game with a
    /// smaller order index must already be claimed (`OutOfOrder`).  A
    /// fresh claim records one progress row and, in the same
    /// operation, raises `checkpoints_scanned` and `next_required` by
    /// one and stamps `last_scan_at`.
    pub fn scan_checkpoint(
        &mut self,
        player_id: u64,
        game_code: String,
        tag_code: String,
        client_token: String,
        now: i64,
    ) -> (r: Result<(), Error>)
        requires
            old(self).wf(),
        ensures
            final(self).wf(),
            scan_post(
                *old(self),
                *final(self),
                r,
                player_id,
                game_code@,
                tag_code@,
                client_token,
                now,
            ),
    {
        let found = self.find_game_by_code(&game_code);
        let gi = match found {
            None => {
                return Err(Error::NotFound);
            },
            Some(gi) => gi,
        };
        proof {
            lemma_game_codes_unique(*self);
            assert(game_index_by_code(self.games@, game_code@) == gi as int);
        }
        let game_id = self.games[gi].game_id;
        if !matches!(self.games[gi].status, GameStatus::Active) {
            return Err(Error::GameNotActive);
        }
        let found_cp = self.find_checkpoint_by_tag(game_id, &tag_code);
        let ci = match found_cp {
            None => {
                return Err(Error::NotFound);
            },
            Some(ci) => ci,
        };
        proof {
            assert(checkpoint_index_by_tag(self.checkpoints@, game_id, tag_code@) == ci as int);
        }
        let checkpoint_id = self.checkpoints[ci].checkpoint_id;
        let order_index = self.checkpoints[ci].order_index;
        if !self.checkpoints[ci].is_active {
            return Err(Error::CheckpointInactive);
        }
        let found_m = self.find_membership(player_id, game_id);
        let mi = match found_m {
            None => {
                return Err(Error::NotMember);
            },
            Some(mi) => mi,
        };
        proof {
            assert(membership_index(self.memberships@, player_id, game_id) == mi as int);
        }
        if self.find_progress(game_id, player_id, checkpoint_id).is_some() {
            return Ok(());
        }
        if !self.prereqs_satisfied(game_id, player_id, order_index) {
            return Err(Error::OutOfOrder);
        }
        let m = self.memberships[mi];
        if m.next_required == u32::MAX {
            return Err(Error::InvalidState);
        }
        let row = Progress {
            game_id,
            player_id,
            checkpoint_id,
            order_index,
            timestamp: now,
            client_token,
        };
        self.progress.push(row);
        let moved = PlayerGame {
            player_id: m.player_id,
            game_id: m.game_id,
            joined_at: m.joined_at,
            checkpoints_scanned: m.checkpoints_scanned + 1,
            last_scan_at: Some(now),
            next_required: m.next_required + 1,
        };
        self.memberships.set(mi, moved);
        proof {
            assert forall|a: int, b: int| 0 <= a < b < self.progress@.len() implies !(
            self.progress@[a].game_id == self.progress@[b].game_id && self.progress@[a].player_id
                == self.progress@[b].player_id && self.progress@[a].checkpoint_id
                == self.progress@[b].checkpoint_id) by {
                assert(self.progress@[a] == old(self).progress@[a]);
                if b < old(self).progress@.len() {
                    assert(self.progress@[b] == old(self).progress@[b]);
                } else {
                    assert(self.progress@[b] == row);
                }
            }
            assert forall|a: int|
                0 <= a < self.progress@.len() implies crate::store::progress_backed(
                self.checkpoints@,
                #[trigger] self.progress@[a],
            ) by {
                if a < old(self).progress@.len() {
                    assert(self.progress@[a] == old(self).progress@[a]);
                    assert(crate::store::progress_backed(
                        old(self).checkpoints@,
                        old(self).progress@[a],
                    ));
                } else {
                    assert(self.progress@[a] == row);
                    assert(self.checkpoints@[ci as int].checkpoint_id == row.checkpoint_id);
                }
            }
            assert forall|a: int, b: int| 0 <= a < b < self.memberships@.len() implies !(
            self.memberships@[a].player_id == self.memberships@[b].player_id
                && self.memberships@[a].game_id == self.memberships@[b].game_id) by {
                if a != mi as int {
                    assert(self.memberships@[a] == old(self).memberships@[a]);
                }
                if b != mi as int {
                    assert(self.memberships@[b] == old(self).memberships@[b]);
                }
            }
            assert forall|a: int|
                0 <= a < self.memberships@.len() implies (
                #[trigger] self.memberships@[a]).next_required as int
                == self.memberships@[a].checkpoints_scanned as int + 1
                && self.memberships@[a].player_id < self.next_player_id
                && crate::store::has_game_id(self.games@, self.memberships@[a].game_id) by {
                if a != mi as int {
                    assert(self.memberships@[a] == old(self).memberships@[a]);
                } else {
                    assert(self.memberships@[a] == moved);
                    assert(crate::store::has_game_id(
                        old(self).games@,
                        old(self).memberships@[a].game_id,
                    ));
                }
            }
        }
        Ok(())
    }

    /// `scan_checkpoint` with the game named by id instead of by
    /// code: the same checks in the same order, starting with
    /// `NotFound` when no game has this id.
    pub fn claim_tag(
        &mut self,
        game_id: u64,
        player_id: u64,
        tag_code: String,
        client_token: String,
        now: i64,
    ) -> (r: Result<(), Error>)
        requires
            old(self).wf(),
        ensures
            final(self).wf(),
            !crate::store::has_game_id(old(self).games@, game_id) ==> r == Err::<(), Error>(
                Error::NotFound,
            ) && old(self).same_state(*final(self)),
            crate::store::has_game_id(old(self).games@, game_id) ==> scan_post(
                *old(self),
                *final(self),
                r,
                player_id,
                old(self).games@[crate::store::game_index(old(self).games@, game_id)].code@,
                tag_code@,
                client_token,
                now,
            ),
    {
        let found = self.find_game(game_id);
        let gi = match found {
            None => {
                return Err(Error::NotFound);
            },
            Some(gi) => gi,
        };
        proof {
            assert(crate::store::game_index(self.games@, game_id) == gi as int);
        }
        let game_code = self.games[gi].code.clone();
        self.scan_checkpoint(player_id, game_code, tag_code, client_token, now)
    }

    /// Deletes the one progress row recording this player's claim of
    /// this checkpoint in this game.  Fails with `NotFound` when no
    /// such claim exists.
    pub fn delete_progress(&mut self, game_id: u64, player_id: u64, checkpoint_id: u64) -> (r:
        Result<(), Error>)
        requires
            old(self).wf(),
        ensures
            final(self).wf(),
            !has_progress(old(self).progress@, game_id, player_id, checkpoint_id) ==> r == Err::<
                (),
                Error,
            >(Error::NotFound) && old(self).same_state(*final(self)),
            has_progress(old(self).progress@, game_id, player_id, checkpoint_id) ==> ({
                &&& r == Ok::<(), Error>(())
                &&& final(self).progress@ == old(self).progress@.filter(
                    keep_prs_not_claim(game_id, player_id, checkpoint_id),
                )
                &&& final(self).progress@.len() == old(self).progress@.len() - 1
                &&& final(self).games@ == old(self).games@
                &&& final(self).checkpoints@ == old(self).checkpoints@
                &&& final(self).players@ == old(self).players@
                &&& final(self).memberships@ == old(self).memberships@
                &&& final(self).next_game_id == old(self).next_game_id
                &&& final(self).next_checkpoint_id == old(self).next_checkpoint_id
                &&& final(self).next_player_id == old(self).next_player_id
                &&& final(self).next_code == old(self).next_code
            }),
    {
        let found = self.find_progress(game_id, player_id, checkpoint_id);
        let pi = match found {
            None => {
                return Err(Error::NotFound);
            },
            Some(pi) => pi,
        };
        let mut kept_prs: Vec<Progress> = Vec::new();
        let mut i: usize = 0;
        while i < self.progress.len()
            invariant
                i <= self.progress@.len(),
                kept_prs@ == self.progress@.subrange(0, i as int).filter(
                    keep_prs_not_claim(game_id, player_id, checkpoint_id),
                ),
                kept_prs@.len() == if i <= pi {
                    i as int
                } else {
                    i - 1
                },
                self.wf(),
                pi < self.progress@.len(),
                self.progress@[pi as int].game_id == game_id,
                self.progress@[pi as int].player_id == player_id,
                self.progress@[pi as int].checkpoint_id == checkpoint_id,
            decreases self.progress@.len() - i,
        {
            proof {
                crate::seq_util::lemma_filter_step(
                    self.progress@,
                    keep_prs_not_claim(game_id, player_id, checkpoint_id),
                    i as int,
                );
                if i != pi {
                    assert(!(self.progress@[i as int].game_id == game_id
                        && self.progress@[i as int].player_id == player_id
                        && self.progress@[i as int].checkpoint_id == checkpoint_id));
                }
            }
            if !(self.progress[i].game_id == game_id && self.progress[i].player_id == player_id
                && self.progress[i].checkpoint_id == checkpoint_id) {
                kept_prs.push(self.progress[i].clone());
            }
            i = i + 1;
        }
        proof {
            assert(self.progress@.subrange(0, self.progress@.len() as int) =~= self.progress@);
        }
        self.progress = kept_prs;
        proof {
            crate::seq_util::lemma_filter_all(old(self).games@, keep_games_all());
            crate::seq_util::lemma_filter_all(old(self).checkpoints@, keep_cps_all());
            crate::seq_util::lemma_filter_all(old(self).players@, keep_all_players());
            crate::seq_util::lemma_filter_all(old(self).memberships@, keep_ms_all());
            lemma_filter_store_wf(
                *old(self),
                *self,
                keep_games_all(),
                keep_cps_all(),
                keep_all_players(),
                keep_ms_all(),
                keep_prs_not_claim(game_id, player_id, checkpoint_id),
            );
        }
        Ok(())
    }
}

} // verus!
