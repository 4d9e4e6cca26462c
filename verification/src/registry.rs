//! The checkpoint registry: creation, activation by full replacement,
//! the active flag, and checkpoint deletion with its cascade.

use vstd::prelude::*;
use vstd::pervasive::VecAdditionalExecFns;

use crate::entities::Checkpoint;
use crate::entities::Error;
use crate::entities::Progress;
use crate::store::Store;
use crate::store::checkpoint_index;
use crate::store::game_index_by_code;
use crate::store::has_checkpoint_id;
use crate::store::has_checkpoint_order;
use crate::store::has_checkpoint_tag;
use crate::store::has_game_code;
use crate::store::has_game_id;
use crate::store::keep_all_players;
use crate::store::keep_cps_not_id;
use crate::store::keep_cps_not_tag;
use crate::store::keep_prs_not_cp;
use crate::store::lemma_filter_store_wf;
use crate::store::lemma_game_codes_unique;

verus! {

/// Some checkpoint of this game carries this order index under a
/// different tag code.
pub open spec fn has_order_under_other_tag(
    cps: Seq<Checkpoint>,
    game_id: u64,
    order_index: u32,
    tag: Seq<char>,
) -> bool {
    exists|k: int|
        0 <= k < cps.len() && cps[k].game_id == game_id && cps[k].order_index == order_index
            && cps[k].tag_code@ != tag
}

/// Keeps the progress rows whose checkpoint does not carry this tag
/// code in `cps`.
pub open spec fn keep_prs_not_tagged(cps: Seq<Checkpoint>, tag: Seq<char>) -> spec_fn(
    Progress,
) -> bool {
    |p: Progress|
        !(exists|k: int|
            0 <= k < cps.len() && cps[k].tag_code@ == tag && cps[k].checkpoint_id
                == p.checkpoint_id)
}

/// Appending a fresh checkpoint row preserves the store invariant:
/// its id comes from the counter, its game exists, and neither its
/// tag code nor its order index is already taken in that game.
proof fn lemma_checkpoint_push_wf(pre: Store, post: Store, c: Checkpoint)
    requires
        pre.wf(),
        post.games@ == pre.games@,
        post.players@ == pre.players@,
        post.memberships@ == pre.memberships@,
        post.progress@ == pre.progress@,
        post.checkpoints@ == pre.checkpoints@.push(c),
        c.checkpoint_id == pre.next_checkpoint_id,
        post.next_checkpoint_id == pre.next_checkpoint_id + 1,
        post.next_game_id == pre.next_game_id,
        post.next_player_id == pre.next_player_id,
        post.next_code == pre.next_code,
        c.order_index >= 1,
        has_game_id(pre.games@, c.game_id),
        !has_checkpoint_tag(pre.checkpoints@, c.game_id, c.tag_code@),
        !has_checkpoint_order(pre.checkpoints@, c.game_id, c.order_index),
    ensures
        post.wf(),
{
    let cs = pre.checkpoints@;
    assert forall|i: int|
        0 <= i < post.checkpoints@.len() implies (#[trigger] post.checkpoints@[i]).order_index >= 1
        && post.checkpoints@[i].checkpoint_id < post.next_checkpoint_id && has_game_id(
        post.games@,
        post.checkpoints@[i].game_id,
    ) by {
        if i < cs.len() {
            assert(post.checkpoints@[i] == cs[i]);
        } else {
            assert(post.checkpoints@[i] == c);
        }
    }
    assert forall|i: int, j: int| 0 <= i < j < post.checkpoints@.len() implies
        post.checkpoints@[i].checkpoint_id != post.checkpoints@[j].checkpoint_id && !(
        post.checkpoints@[i].game_id == post.checkpoints@[j].game_id
            && post.checkpoints@[i].tag_code@ == post.checkpoints@[j].tag_code@) && !(
        post.checkpoints@[i].game_id == post.checkpoints@[j].game_id
            && post.checkpoints@[i].order_index == post.checkpoints@[j].order_index) by {
        if j == cs.len() {
            assert(post.checkpoints@[i] == cs[i]);
            assert(post.checkpoints@[j] == c);
            assert(cs[i].checkpoint_id < pre.next_checkpoint_id);
        } else {
            assert(post.checkpoints@[i] == cs[i]);
            assert(post.checkpoints@[j] == cs[j]);
        }
    }
    assert forall|i: int|
        0 <= i < post.progress@.len() implies crate::store::progress_backed(
        post.checkpoints@,
        #[trigger] post.progress@[i],
    ) by {
        assert(crate::store::progress_backed(cs, pre.progress@[i]));
        let k = choose|k: int|
            0 <= k < cs.len() && cs[k].checkpoint_id == pre.progress@[i].checkpoint_id
                && cs[k].game_id == pre.progress@[i].game_id && cs[k].order_index
                == pre.progress@[i].order_index;
        assert(post.checkpoints@[k] == cs[k]);
    }
}

/// Replacing one checkpoint row with a row that keeps its id, game,
/// tag code and order index preserves the store invariant.
proof fn lemma_checkpoint_row_update_wf(pre: Store, post: Store, ci: int)
    requires
        pre.wf(),
        0 <= ci < pre.checkpoints@.len(),
        post.checkpoints@.len() == pre.checkpoints@.len(),
        post.checkpoints@[ci].checkpoint_id == pre.checkpoints@[ci].checkpoint_id,
        post.checkpoints@[ci].game_id == pre.checkpoints@[ci].game_id,
        post.checkpoints@[ci].tag_code@ == pre.checkpoints@[ci].tag_code@,
        post.checkpoints@[ci].order_index == pre.checkpoints@[ci].order_index,
        forall|j: int|
            0 <= j < pre.checkpoints@.len() && j != ci ==> post.checkpoints@[j]
                == pre.checkpoints@[j],
        post.games@ == pre.games@,
        post.players@ == pre.players@,
        post.memberships@ == pre.memberships@,
        post.progress@ == pre.progress@,
        post.next_game_id == pre.next_game_id,
        post.next_checkpoint_id == pre.next_checkpoint_id,
        post.next_player_id == pre.next_player_id,
        post.next_code == pre.next_code,
    ensures
        post.wf(),
{
    assert forall|i: int|
        0 <= i < post.progress@.len() implies crate::store::progress_backed(
        post.checkpoints@,
        #[trigger] post.progress@[i],
    ) by {
        assert(crate::store::progress_backed(pre.checkpoints@, pre.progress@[i]));
        let k = choose|k: int|
            0 <= k < pre.checkpoints@.len() && pre.checkpoints@[k].checkpoint_id
                == pre.progress@[i].checkpoint_id && pre.checkpoints@[k].game_id
                == pre.progress@[i].game_id && pre.checkpoints@[k].order_index
                == pre.progress@[i].order_index;
        assert(post.checkpoints@[k].checkpoint_id == pre.checkpoints@[k].checkpoint_id);
        assert(post.checkpoints@[k].game_id == pre.checkpoints@[k].game_id);
        assert(post.checkpoints@[k].order_index == pre.checkpoints@[k].order_index);
    }
    assert forall|i: int|
        0 <= i < post.checkpoints@.len() implies (#[trigger] post.checkpoints@[i]).order_index >= 1
        && post.checkpoints@[i].checkpoint_id < post.next_checkpoint_id && has_game_id(
        post.games@,
        post.checkpoints@[i].game_id,
    ) by {
        assert(post.checkpoints@[i].game_id == pre.checkpoints@[i].game_id);
        assert(has_game_id(pre.games@, pre.checkpoints@[i].game_id));
    }
}

/// What activation by full replacement does.  If the arguments pass
/// validation, every checkpoint carrying this tag code — in any game —
/// is deleted together with the progress rows referencing it, and one
/// fresh active checkpoint with exactly the given attributes is
/// inserted; fields not supplied are not merged from the replaced
/// row.  The conflict check and the replacement happen in one
/// operation.
pub open spec fn activate_post(
    pre: Store,
    post: Store,
    r: Result<u64, Error>,
    game_id: u64,
    tag_code: String,
    order_index: u32,
    clue: Option<String>,
    lat_microdeg: Option<i64>,
    lon_microdeg: Option<i64>,
    accuracy_m: Option<i32>,
    activated_by: Option<String>,
    now: i64,
) -> bool {
    if order_index == 0 {
        r == Err::<u64, Error>(Error::InvalidArgument) && pre.same_state(post)
    } else if !has_game_id(pre.games@, game_id) {
        r == Err::<u64, Error>(Error::NotFound) && pre.same_state(post)
    } else if has_order_under_other_tag(pre.checkpoints@, game_id, order_index, tag_code@) {
        r == Err::<u64, Error>(Error::Conflict) && pre.same_state(post)
    } else if pre.next_checkpoint_id == u64::MAX {
        r == Err::<u64, Error>(Error::InvalidState) && pre.same_state(post)
    } else {
        let fresh = post.checkpoints@.last();
        &&& r == Ok::<u64, Error>(pre.next_checkpoint_id)
        &&& post.checkpoints@.len() == pre.checkpoints@.filter(keep_cps_not_tag(tag_code@)).len()
            + 1
        &&& post.checkpoints@.drop_last() == pre.checkpoints@.filter(keep_cps_not_tag(tag_code@))
        &&& fresh.checkpoint_id == pre.next_checkpoint_id
        &&& fresh.game_id == game_id
        &&& fresh.tag_code == tag_code
        &&& fresh.location_name@ == Seq::<char>::empty()
        &&& fresh.clue == clue
        &&& fresh.order_index == order_index
        &&& fresh.is_active
        &&& fresh.lat_microdeg == lat_microdeg
        &&& fresh.lon_microdeg == lon_microdeg
        &&& fresh.accuracy_m == accuracy_m
        &&& fresh.activated_by == activated_by
        &&& fresh.activated_at == Some(now)
        &&& fresh.created_at == now
        &&& post.progress@ == pre.progress@.filter(keep_prs_not_tagged(pre.checkpoints@, tag_code@))
        &&& post.games@ == pre.games@
        &&& post.players@ == pre.players@
        &&& post.memberships@ == pre.memberships@
        &&& post.next_checkpoint_id == pre.next_checkpoint_id + 1
        &&& post.next_game_id == pre.next_game_id
        &&& post.next_player_id == pre.next_player_id
        &&& post.next_code == pre.next_code
    }
}

impl Store {
    /// Whether some checkpoint of this game carries this order index
    /// under a different tag code.
    fn order_conflicts_with_other_tag(
        &self,
        game_id: u64,
        order_index: u32,
        tag_code: &String,
    ) -> (r: bool)
        ensures
            r == has_order_under_other_tag(self.checkpoints@, game_id, order_index, tag_code@),
    {
        let mut i: usize = 0;
        while i < self.checkpoints.len()
            invariant
                i <= self.checkpoints@.len(),
                forall|j: int|
                    0 <= j < i ==> !((#[trigger] self.checkpoints@[j]).game_id == game_id
                        && self.checkpoints@[j].order_index == order_index
                        && self.checkpoints@[j].tag_code@ != tag_code@),
            decreases self.checkpoints@.len() - i,
        {
            if self.checkpoints[i].game_id == game_id && self.checkpoints[i].order_index
                == order_index && !(self.checkpoints[i].tag_code == *tag_code) {
                return true;
            }
            i = i + 1;
        }
        false
    }

    /// Whether some checkpoint carrying this tag code has this id.
    fn tag_owns_checkpoint(&self, tag_code: &String, checkpoint_id: u64) -> (r: bool)
        ensures
            r == exists|k: int|
                0 <= k < self.checkpoints@.len() && self.checkpoints@[k].tag_code@ == tag_code@
                    && self.checkpoints@[k].checkpoint_id == checkpoint_id,
    {
        let mut i: usize = 0;
        while i < self.checkpoints.len()
            invariant
                i <= self.checkpoints@.len(),
                forall|j: int|
                    0 <= j < i ==> !((#[trigger] self.checkpoints@[j]).tag_code@ == tag_code@
                        && self.checkpoints@[j].checkpoint_id == checkpoint_id),
            decreases self.checkpoints@.len() - i,
        {
            if self.checkpoints[i].tag_code == *tag_code && self.checkpoints[i].checkpoint_id
                == checkpoint_id {
                return true;
            }
            i = i + 1;
        }
        false
    }

    /// The shared body of the two activation operations.
    fn activate_core(
        &mut self,
        game_id: u64,
        tag_code: String,
        order_index: u32,
        clue: Option<String>,
        lat_microdeg: Option<i64>,
        lon_microdeg: Option<i64>,
        accuracy_m: Option<i32>,
        activated_by: Option<String>,
        now: i64,
    ) -> (r: Result<u64, Error>)
        requires
            old(self).wf(),
        ensures
            final(self).wf(),
            activate_post(
                *old(self),
                *final(self),
                r,
                game_id,
                tag_code,
                order_index,
                clue,
                lat_microdeg,
                lon_microdeg,
                accuracy_m,
                activated_by,
                now,
            ),
    {
        if order_index == 0 {
            return Err(Error::InvalidArgument);
        }
        let found = self.find_game(game_id);
        if found.is_none() {
            return Err(Error::NotFound);
        }
        if self.order_conflicts_with_other_tag(game_id, order_index, &tag_code) {
            return Err(Error::Conflict);
        }
        if self.next_checkpoint_id == u64::MAX {
            return Err(Error::InvalidState);
        }
        let mut kept_prs: Vec<Progress> = Vec::new();
        let mut i: usize = 0;
        while i < self.progress.len()
            invariant
                i <= self.progress@.len(),
                kept_prs@ == self.progress@.subrange(0, i as int).filter(
                    keep_prs_not_tagged(self.checkpoints@, tag_code@),
                ),
            decreases self.progress@.len() - i,
        {
            proof {
                crate::seq_util::lemma_filter_step(
                    self.progress@,
                    keep_prs_not_tagged(self.checkpoints@, tag_code@),
                    i as int,
                );
            }
            if !self.tag_owns_checkpoint(&tag_code, self.progress[i].checkpoint_id) {
                kept_prs.push(self.progress[i].clone());
            }
            i = i + 1;
        }
        proof {
            assert(self.progress@.subrange(0, self.progress@.len() as int) =~= self.progress@);
        }
        self.progress = kept_prs;

        let mut kept_cps: Vec<Checkpoint> = Vec::new();
        let mut i: usize = 0;
        while i < self.checkpoints.len()
            invariant
                i <= self.checkpoints@.len(),
                kept_cps@ == self.checkpoints@.subrange(0, i as int).filter(
                    keep_cps_not_tag(tag_code@),
                ),
            decreases self.checkpoints@.len() - i,
        {
            proof {
                crate::seq_util::lemma_filter_step(
                    self.checkpoints@,
                    keep_cps_not_tag(tag_code@),
                    i as int,
                );
            }
            if !(self.checkpoints[i].tag_code == tag_code) {
                kept_cps.push(self.checkpoints[i].clone());
            }
            i = i + 1;
        }
        proof {
            assert(self.checkpoints@.subrange(0, self.checkpoints@.len() as int)
                =~= self.checkpoints@);
        }
        self.checkpoints = kept_cps;
        proof {
            crate::seq_util::lemma_filter_all(old(self).games@, crate::store::keep_games_all());
            crate::seq_util::lemma_filter_all(old(self).players@, keep_all_players());
            crate::seq_util::lemma_filter_all(old(self).memberships@, crate::store::keep_ms_all());
            lemma_filter_store_wf(
                *old(self),
                *self,
                crate::store::keep_games_all(),
                keep_cps_not_tag(tag_code@),
                keep_all_players(),
                crate::store::keep_ms_all(),
                keep_prs_not_tagged(old(self).checkpoints@, tag_code@),
            );
        }
        let ghost mid = *self;
        let checkpoint_id = self.next_checkpoint_id;
        let c = Checkpoint {
            checkpoint_id,
            game_id,
            tag_code,
            location_name: String::new(),
            clue,
            order_index,
            is_active: true,
            lat_microdeg,
            lon_microdeg,
            accuracy_m,
            activated_by,
            activated_at: Some(now),
            created_at: now,
        };
        self.checkpoints.push(c);
        self.next_checkpoint_id = self.next_checkpoint_id + 1;
        proof {
            crate::seq_util::lemma_filter_in_orig(
                old(self).checkpoints@,
                keep_cps_not_tag(c.tag_code@),
            );
            assert(!has_checkpoint_tag(mid.checkpoints@, game_id, c.tag_code@)) by {
                if has_checkpoint_tag(mid.checkpoints@, game_id, c.tag_code@) {
                    let k = choose|k: int|
                        0 <= k < mid.checkpoints@.len() && mid.checkpoints@[k].game_id == game_id
                            && mid.checkpoints@[k].tag_code@ == c.tag_code@;
                    old(self).checkpoints@.lemma_filter_pred(keep_cps_not_tag(c.tag_code@), k);
                }
            }
            assert(!has_checkpoint_order(mid.checkpoints@, game_id, order_index)) by {
                if has_checkpoint_order(mid.checkpoints@, game_id, order_index) {
                    let k = choose|k: int|
                        0 <= k < mid.checkpoints@.len() && mid.checkpoints@[k].game_id == game_id
                            && mid.checkpoints@[k].order_index == order_index;
                    old(self).checkpoints@.lemma_filter_pred(keep_cps_not_tag(c.tag_code@), k);
                    assert(old(self).checkpoints@.contains(mid.checkpoints@[k]));
                    let w = choose|w: int|
                        0 <= w < old(self).checkpoints@.len() && old(self).checkpoints@[w]
                            == mid.checkpoints@[k];
                    assert(has_order_under_other_tag(
                        old(self).checkpoints@,
                        game_id,
                        order_index,
                        c.tag_code@,
                    ));
                }
            }
            lemma_checkpoint_push_wf(mid, *self, c);
            assert(self.checkpoints@.drop_last() =~= mid.checkpoints@);
        }
        Ok(checkpoint_id)
    }

    /// Activates a checkpoint by full replacement: any checkpoint with
    /// this tag code, in any game, is deleted together with the
    /// progress rows referencing it, and a fresh active checkpoint is
    /// inserted with exactly the given attributes.  Reactivation
    /// therefore discards fields that are not resupplied.  Fails with
    /// `InvalidArgument` when `order_index` is zero, `NotFound` when
    /// no game has this id, `Conflict` when another tag of this game
    /// already holds this order index, and `InvalidState` only when
    /// the id counter is exhausted.
    pub fn activate_tag(
        &mut self,
        game_id: u64,
        tag_code: String,
        order_index: u32,
        clue: Option<String>,
        now: i64,
    ) -> (r: Result<u64, Error>)
        requires
            old(self).wf(),
        ensures
            final(self).wf(),
            activate_post(
                *old(self),
                *final(self),
                r,
                game_id,
                tag_code,
                order_index,
                clue,
                None,
                None,
                None,
                None,
                now,
            ),
    {
        self.activate_core(game_id, tag_code, order_index, clue, None, None, None, None, now)
    }

    /// `activate_tag` with a geographic position, an accuracy radius
    /// in metres, and the actor who activated the tag.  Coordinates
    /// are taken in microdegrees.
    pub fn activate_tag_with_location(
        &mut self,
        game_id: u64,
        tag_code: String,
        lat_microdeg: i64,
        lon_microdeg: i64,
        accuracy_m: i32,
        activated_by: String,
        order_index: u32,
        clue: Option<String>,
        now: i64,
    ) -> (r: Result<u64, Error>)
        requires
            old(self).wf(),
        ensures
            final(self).wf(),
            activate_post(
                *old(self),
                *final(self),
                r,
                game_id,
                tag_code,
                order_index,
                clue,
                Some(lat_microdeg),
                Some(lon_microdeg),
                Some(accuracy_m),
                Some(activated_by),
                now,
            ),
    {
        self.activate_core(
            game_id,
            tag_code,
            order_index,
            clue,
            Some(lat_microdeg),
            Some(lon_microdeg),
            Some(accuracy_m),
            Some(activated_by),
            now,
        )
    }

    /// Registers an active checkpoint in the game with this code and
    /// returns the new checkpoint id.  Fails with `InvalidArgument`
    /// when `order_index` is zero, `NotFound` when no game has this
    /// code, `Conflict` when the game already has a checkpoint with
    /// this tag code or this order index, and `InvalidState` only
    /// when the id counter is exhausted.
    pub fn register_checkpoint(
        &mut self,
        game_code: String,
        tag_code: String,
        location_name: String,
        order_index: u32,
        now: i64,
    ) -> (r: Result<u64, Error>)
        requires
            old(self).wf(),
        ensures
            final(self).wf(),
            order_index == 0 ==> r == Err::<u64, Error>(Error::InvalidArgument) && old(
                self,
            ).same_state(*final(self)),
            order_index >= 1 && !has_game_code(old(self).games@, game_code@) ==> r == Err::<
                u64,
                Error,
            >(Error::NotFound) && old(self).same_state(*final(self)),
            order_index >= 1 && has_game_code(old(self).games@, game_code@) ==> ({
                let g = old(self).games@[game_index_by_code(old(self).games@, game_code@)];
                let fresh = (Checkpoint {
                    checkpoint_id: old(self).next_checkpoint_id,
                    game_id: g.game_id,
                    tag_code: tag_code,
                    location_name: location_name,
                    clue: None,
                    order_index: order_index,
                    is_active: true,
                    lat_microdeg: None,
                    lon_microdeg: None,
                    accuracy_m: None,
                    activated_by: None,
                    activated_at: None,
                    created_at: now,
                });
                if has_checkpoint_tag(old(self).checkpoints@, g.game_id, tag_code@)
                    || has_checkpoint_order(old(self).checkpoints@, g.game_id, order_index) {
                    r == Err::<u64, Error>(Error::Conflict) && old(self).same_state(*final(self))
                } else if old(self).next_checkpoint_id == u64::MAX {
                    r == Err::<u64, Error>(Error::InvalidState) && old(self).same_state(
                        *final(self),
                    )
                } else {
                    r == Ok::<u64, Error>(old(self).next_checkpoint_id) && final(self).checkpoints@
                        == old(self).checkpoints@.push(fresh) && final(self).next_checkpoint_id
                        == old(self).next_checkpoint_id + 1 && old(self).only_checkpoints_changed(
                        *final(self),
                    )
                }
            }),
    {
        if order_index == 0 {
            return Err(Error::InvalidArgument);
        }
        let found = self.find_game_by_code(&game_code);
        let gi = match found {
            None => {
                return Err(Error::NotFound);
            },
            Some(gi) => gi,
        };
        proof {
            lemma_game_codes_unique(*self);
            assert(game_index_by_code(self.games@, game_code@) == gi as int);
        }
        let game_id = self.games[gi].game_id;
        if self.has_conflicting_checkpoint(game_id, &tag_code, order_index) {
            return Err(Error::Conflict);
        }
        if self.next_checkpoint_id == u64::MAX {
            return Err(Error::InvalidState);
        }
        let checkpoint_id = self.next_checkpoint_id;
        let c = Checkpoint {
            checkpoint_id,
            game_id,
            tag_code,
            location_name,
            clue: None,
            order_index,
            is_active: true,
            lat_microdeg: None,
            lon_microdeg: None,
            accuracy_m: None,
            activated_by: None,
            activated_at: None,
            created_at: now,
        };
        self.checkpoints.push(c);
        self.next_checkpoint_id = self.next_checkpoint_id + 1;
        proof {
            lemma_checkpoint_push_wf(*old(self), *self, c);
        }
        Ok(checkpoint_id)
    }

    /// Registers an inactive checkpoint, to be activated later, and
    /// returns the new checkpoint id.  The game is named by id; the
    /// failure cases are those of `register_checkpoint`.
    pub fn create_tag(
        &mut self,
        game_id: u64,
        tag_code: String,
        order_index: u32,
        clue: Option<String>,
        now: i64,
    ) -> (r: Result<u64, Error>)
        requires
            old(self).wf(),
        ensures
            final(self).wf(),
            order_index == 0 ==> r == Err::<u64, Error>(Error::InvalidArgument) && old(
                self,
            ).same_state(*final(self)),
            order_index >= 1 && !has_game_id(old(self).games@, game_id) ==> r == Err::<u64, Error>(
                Error::NotFound,
            ) && old(self).same_state(*final(self)),
            order_index >= 1 && has_game_id(old(self).games@, game_id) ==> ({
                if has_checkpoint_tag(old(self).checkpoints@, game_id, tag_code@)
                    || has_checkpoint_order(old(self).checkpoints@, game_id, order_index) {
                    r == Err::<u64, Error>(Error::Conflict) && old(self).same_state(*final(self))
                } else if old(self).next_checkpoint_id == u64::MAX {
                    r == Err::<u64, Error>(Error::InvalidState) && old(self).same_state(
                        *final(self),
                    )
                } else {
                    let fresh = final(self).checkpoints@.last();
                    &&& r == Ok::<u64, Error>(old(self).next_checkpoint_id)
                    &&& final(self).checkpoints@.len() == old(self).checkpoints@.len() + 1
                    &&& final(self).checkpoints@.subrange(0, old(self).checkpoints@.len() as int)
                        == old(self).checkpoints@
                    &&& fresh.checkpoint_id == old(self).next_checkpoint_id
                    &&& fresh.game_id == game_id
                    &&& fresh.tag_code == tag_code
                    &&& fresh.location_name@ == Seq::<char>::empty()
                    &&& fresh.clue == clue
                    &&& fresh.order_index == order_index
                    &&& !fresh.is_active
                    &&& fresh.lat_microdeg.is_none()
                    &&& fresh.lon_microdeg.is_none()
                    &&& fresh.accuracy_m.is_none()
                    &&& fresh.activated_by.is_none()
                    &&& fresh.activated_at.is_none()
                    &&& fresh.created_at == now
                    &&& final(self).next_checkpoint_id == old(self).next_checkpoint_id + 1
                    &&& old(self).only_checkpoints_changed(*final(self))
                }
            }),
    {
        if order_index == 0 {
            return Err(Error::InvalidArgument);
        }
        let found = self.find_game(game_id);
        if found.is_none() {
            return Err(Error::NotFound);
        }
        if self.has_conflicting_checkpoint(game_id, &tag_code, order_index) {
            return Err(Error::Conflict);
        }
        if self.next_checkpoint_id == u64::MAX {
            return Err(Error::InvalidState);
        }
        let checkpoint_id = self.next_checkpoint_id;
        let c = Checkpoint {
            checkpoint_id,
            game_id,
            tag_code,
            location_name: String::new(),
            clue,
            order_index,
            is_active: false,
            lat_microdeg: None,
            lon_microdeg: None,
            accuracy_m: None,
            activated_by: None,
            activated_at: None,
            created_at: now,
        };
        self.checkpoints.push(c);
        self.next_checkpoint_id = self.next_checkpoint_id + 1;
        proof {
            lemma_checkpoint_push_wf(*old(self), *self, c);
            assert(self.checkpoints@.subrange(0, old(self).checkpoints@.len() as int)
                =~= old(self).checkpoints@);
        }
        Ok(checkpoint_id)
    }

    /// Switches a checkpoint's active flag.  Fails with `NotFound`
    /// when no checkpoint has this id.
    pub fn set_tag_active(&mut self, checkpoint_id: u64, active: bool) -> (r: Result<(), Error>)
        requires
            old(self).wf(),
        ensures
            final(self).wf(),
            !has_checkpoint_id(old(self).checkpoints@, checkpoint_id) ==> r == Err::<(), Error>(
                Error::NotFound,
            ) && old(self).same_state(*final(self)),
            has_checkpoint_id(old(self).checkpoints@, checkpoint_id) ==> ({
                let ci = checkpoint_index(old(self).checkpoints@, checkpoint_id);
                let updated = (Checkpoint { is_active: active, ..old(self).checkpoints@[ci] });
                r == Ok::<(), Error>(()) && final(self).checkpoints@ == old(
                    self,
                ).checkpoints@.update(ci, updated) && final(self).next_checkpoint_id == old(
                    self,
                ).next_checkpoint_id && old(self).only_checkpoints_changed(*final(self))
            }),
    {
        let found = self.find_checkpoint(checkpoint_id);
        match found {
            None => Err(Error::NotFound),
            Some(i) => {
                proof {
                    assert(checkpoint_index(self.checkpoints@, checkpoint_id) == i as int);
                }
                let c = &self.checkpoints[i];
                let updated = Checkpoint {
                    checkpoint_id: c.checkpoint_id,
                    game_id: c.game_id,
                    tag_code: c.tag_code.clone(),
                    location_name: c.location_name.clone(),
                    clue: crate::entities::clone_opt_string(&c.clue),
                    order_index: c.order_index,
                    is_active: active,
                    lat_microdeg: c.lat_microdeg,
                    lon_microdeg: c.lon_microdeg,
                    accuracy_m: c.accuracy_m,
                    activated_by: crate::entities::clone_opt_string(&c.activated_by),
                    activated_at: c.activated_at,
                    created_at: c.created_at,
                };
                self.checkpoints.set(i, updated);
                proof {
                    lemma_checkpoint_row_update_wf(*old(self), *self, i as int);
                }
                Ok(())
            },
        }
    }

    /// Deletes a checkpoint together with exactly the progress rows
    /// that reference it; claims of other checkpoints are untouched.
    /// Fails with `NotFound` when no checkpoint has this id.
    pub fn delete_tag(&mut self, checkpoint_id: u64) -> (r: Result<(), Error>)
        requires
            old(self).wf(),
        ensures
            final(self).wf(),
            !has_checkpoint_id(old(self).checkpoints@, checkpoint_id) ==> r == Err::<(), Error>(
                Error::NotFound,
            ) && old(self).same_state(*final(self)),
            has_checkpoint_id(old(self).checkpoints@, checkpoint_id) ==> ({
                &&& r == Ok::<(), Error>(())
                &&& final(self).checkpoints@ == old(self).checkpoints@.filter(
                    keep_cps_not_id(checkpoint_id),
                )
                &&& final(self).progress@ == old(self).progress@.filter(
                    keep_prs_not_cp(checkpoint_id),
                )
                &&& final(self).games@ == old(self).games@
                &&& final(self).players@ == old(self).players@
                &&& final(self).memberships@ == old(self).memberships@
                &&& final(self).next_game_id == old(self).next_game_id
                &&& final(self).next_checkpoint_id == old(self).next_checkpoint_id
                &&& final(self).next_player_id == old(self).next_player_id
                &&& final(self).next_code == old(self).next_code
            }),
    {
        let found = self.find_checkpoint(checkpoint_id);
        if found.is_none() {
            return Err(Error::NotFound);
        }
        let mut kept_prs: Vec<Progress> = Vec::new();
        let mut i: usize = 0;
        while i < self.progress.len()
            invariant
                i <= self.progress@.len(),
                kept_prs@ == self.progress@.subrange(0, i as int).filter(
                    keep_prs_not_cp(checkpoint_id),
                ),
            decreases self.progress@.len() - i,
        {
            proof {
                crate::seq_util::lemma_filter_step(
                    self.progress@,
                    keep_prs_not_cp(checkpoint_id),
                    i as int,
                );
            }
            if self.progress[i].checkpoint_id != checkpoint_id {
                kept_prs.push(self.progress[i].clone());
            }
            i = i + 1;
        }
        proof {
            assert(self.progress@.subrange(0, self.progress@.len() as int) =~= self.progress@);
        }
        self.progress = kept_prs;

        let mut kept_cps: Vec<Checkpoint> = Vec::new();
        let mut i: usize = 0;
        while i < self.checkpoints.len()
            invariant
                i <= self.checkpoints@.len(),
                kept_cps@ == self.checkpoints@.subrange(0, i as int).filter(
                    keep_cps_not_id(checkpoint_id),
                ),
            decreases self.checkpoints@.len() - i,
        {
            proof {
                crate::seq_util::lemma_filter_step(
                    self.checkpoints@,
                    keep_cps_not_id(checkpoint_id),
                    i as int,
                );
            }
            if self.checkpoints[i].checkpoint_id != checkpoint_id {
                kept_cps.push(self.checkpoints[i].clone());
            }
            i = i + 1;
        }
        proof {
            assert(self.checkpoints@.subrange(0, self.checkpoints@.len() as int)
                =~= self.checkpoints@);
        }
        self.checkpoints = kept_cps;
        proof {
            crate::seq_util::lemma_filter_all(old(self).games@, crate::store::keep_games_all());
            crate::seq_util::lemma_filter_all(old(self).players@, keep_all_players());
            crate::seq_util::lemma_filter_all(
                old(self).memberships@,
                crate::store::keep_ms_all(),
            );
            lemma_filter_store_wf(
                *old(self),
                *self,
                crate::store::keep_games_all(),
                keep_cps_not_id(checkpoint_id),
                keep_all_players(),
                crate::store::keep_ms_all(),
                keep_prs_not_cp(checkpoint_id),
            );
        }
        Ok(())
    }
}

} // verus!
