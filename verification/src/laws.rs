//! The library's laws: properties that relate several operations,
//! stated over the same spec functions the operations' contracts use.

use vstd::prelude::*;

use crate::claims::prereqs_met;
use crate::claims::scan_post;
use crate::entities::Error;
use crate::entities::GameStatus;
use crate::store::Store;
use crate::store::checkpoint_index_by_tag;
use crate::store::game_index_by_code;
use crate::store::has_checkpoint_id;
use crate::store::has_checkpoint_tag;
use crate::store::has_game_code;
use crate::store::has_game_id;
use crate::store::has_membership;
use crate::store::has_progress;
use crate::store::keep_cps_not_game;
use crate::store::keep_cps_not_id;
use crate::store::keep_games_not;
use crate::store::keep_ms_not_game;
use crate::store::keep_prs_not_cp;
use crate::store::keep_prs_not_game;
use crate::store::membership_index;

verus! {

/// In a well-formed store, no two checkpoints of one game share a tag
/// code or an order index.
pub proof fn lemma_checkpoint_keys_unique(s: Store)
    requires
        s.wf(),
    ensures
        forall|i: int, j: int|
            0 <= i < s.checkpoints@.len() && 0 <= j < s.checkpoints@.len() && i != j
                && s.checkpoints@[i].game_id == s.checkpoints@[j].game_id ==> s.checkpoints@[i].tag_code@
                != s.checkpoints@[j].tag_code@ && s.checkpoints@[i].order_index
                != s.checkpoints@[j].order_index,
{
}

/// How far along its lifecycle a game is.
pub open spec fn status_rank(status: GameStatus) -> int {
    match status {
        GameStatus::Setup => 0,
        GameStatus::Active => 1,
        GameStatus::Ended => 2,
    }
}

/// The lifecycle only ever moves forward: whatever a start or end
/// attempt returns, no game's status moves backward, and every game
/// keeps its identity and its place.
pub proof fn lemma_status_moves_forward(
    pre: Store,
    post: Store,
    r: Result<(), Error>,
    game_id: u64,
    now: i64,
)
    requires
        pre.wf(),
        crate::lifecycle::start_post(pre, post, r, game_id, now) || crate::lifecycle::end_post(
            pre,
            post,
            r,
            game_id,
            now,
        ),
    ensures
        post.games@.len() == pre.games@.len(),
        forall|i: int|
            0 <= i < pre.games@.len() ==> (#[trigger] post.games@[i]).game_id
                == pre.games@[i].game_id && status_rank(post.games@[i].status) >= status_rank(
                pre.games@[i].status,
            ),
{
}

/// A claim of a checkpoint whose predecessors are not all claimed is
/// refused with `OutOfOrder` and changes nothing: claims can only
/// happen in increasing order of `order_index`.
pub proof fn lemma_claim_out_of_order(
    pre: Store,
    post: Store,
    r: Result<(), Error>,
    player_id: u64,
    game_code: Seq<char>,
    tag_code: Seq<char>,
    client_token: String,
    now: i64,
    blocked: int,
)
    requires
        pre.wf(),
        scan_post(pre, post, r, player_id, game_code, tag_code, client_token, now),
        has_game_code(pre.games@, game_code),
        pre.games@[game_index_by_code(pre.games@, game_code)].status == GameStatus::Active,
        has_checkpoint_tag(
            pre.checkpoints@,
            pre.games@[game_index_by_code(pre.games@, game_code)].game_id,
            tag_code,
        ),
        ({
            let g = pre.games@[game_index_by_code(pre.games@, game_code)];
            let cp = pre.checkpoints@[checkpoint_index_by_tag(
                pre.checkpoints@,
                g.game_id,
                tag_code,
            )];
            &&& cp.is_active
            &&& has_membership(pre.memberships@, player_id, g.game_id)
            &&& !has_progress(pre.progress@, g.game_id, player_id, cp.checkpoint_id)
            &&& 0 <= blocked < pre.checkpoints@.len()
            &&& pre.checkpoints@[blocked].game_id == g.game_id
            &&& pre.checkpoints@[blocked].order_index < cp.order_index
            &&& !has_progress(
                pre.progress@,
                g.game_id,
                player_id,
                pre.checkpoints@[blocked].checkpoint_id,
            )
        }),
    ensures
        r == Err::<(), Error>(Error::OutOfOrder),
        pre.same_state(post),
{
    let g = pre.games@[game_index_by_code(pre.games@, game_code)];
    let cp = pre.checkpoints@[checkpoint_index_by_tag(pre.checkpoints@, g.game_id, tag_code)];
    assert(!prereqs_met(pre.checkpoints@, pre.progress@, g.game_id, player_id, cp.order_index));
}

/// The other direction of the ordering rule: when a claim attempt
/// succeeds on a checkpoint the player had not claimed before, every
/// checkpoint of that game with a smaller order index had already
/// been claimed by that player.
pub proof fn lemma_successful_claim_respects_order(
    pre: Store,
    post: Store,
    r: Result<(), Error>,
    player_id: u64,
    game_code: Seq<char>,
    tag_code: Seq<char>,
    client_token: String,
    now: i64,
)
    requires
        pre.wf(),
        scan_post(pre, post, r, player_id, game_code, tag_code, client_token, now),
        r == Ok::<(), Error>(()),
        has_game_code(pre.games@, game_code),
        ({
            let g = pre.games@[game_index_by_code(pre.games@, game_code)];
            let cp = pre.checkpoints@[checkpoint_index_by_tag(
                pre.checkpoints@,
                g.game_id,
                tag_code,
            )];
            !has_progress(pre.progress@, g.game_id, player_id, cp.checkpoint_id)
        }),
    ensures
        ({
            let g = pre.games@[game_index_by_code(pre.games@, game_code)];
            let cp = pre.checkpoints@[checkpoint_index_by_tag(
                pre.checkpoints@,
                g.game_id,
                tag_code,
            )];
            prereqs_met(pre.checkpoints@, pre.progress@, g.game_id, player_id, cp.order_index)
        }),
{
}

/// Re-claiming is idempotent: once a claim attempt has returned
/// success, a second attempt with the same player, game code and tag
/// code returns success again and changes nothing — in particular the
/// progress count and the cursor stay as they were.
pub proof fn lemma_reclaim_idempotent(
    s0: Store,
    s1: Store,
    s2: Store,
    r1: Result<(), Error>,
    r2: Result<(), Error>,
    player_id: u64,
    game_code: Seq<char>,
    tag_code: Seq<char>,
    token1: String,
    now1: i64,
    token2: String,
    now2: i64,
)
    requires
        s0.wf(),
        s1.wf(),
        scan_post(s0, s1, r1, player_id, game_code, tag_code, token1, now1),
        r1 == Ok::<(), Error>(()),
        scan_post(s1, s2, r2, player_id, game_code, tag_code, token2, now2),
    ensures
        r2 == Ok::<(), Error>(()),
        s1.same_state(s2),
{
    assert(has_game_code(s0.games@, game_code));
    let gi0 = game_index_by_code(s0.games@, game_code);
    let g = s0.games@[gi0];
    assert(s1.games@ == s0.games@);
    let gi1 = game_index_by_code(s1.games@, game_code);
    assert(g == s1.games@[gi1]);
    let ci0 = checkpoint_index_by_tag(s0.checkpoints@, g.game_id, tag_code);
    let cp = s0.checkpoints@[ci0];
    assert(s1.checkpoints@ == s0.checkpoints@);
    let ci1 = checkpoint_index_by_tag(s1.checkpoints@, g.game_id, tag_code);
    assert(cp == s1.checkpoints@[ci1]);
    let mi0 = membership_index(s0.memberships@, player_id, g.game_id);
    assert(has_membership(s1.memberships@, player_id, g.game_id)) by {
        if !has_progress(s0.progress@, g.game_id, player_id, cp.checkpoint_id) {
            assert(s1.memberships@[mi0].player_id == player_id);
            assert(s1.memberships@[mi0].game_id == g.game_id);
        }
    }
    assert(has_progress(s1.progress@, g.game_id, player_id, cp.checkpoint_id)) by {
        if has_progress(s0.progress@, g.game_id, player_id, cp.checkpoint_id) {
            assert(s1.progress@ == s0.progress@);
        } else {
            let n = s0.progress@.len() as int;
            assert(s1.progress@[n].game_id == g.game_id);
            assert(s1.progress@[n].player_id == player_id);
            assert(s1.progress@[n].checkpoint_id == cp.checkpoint_id);
        }
    }
}

/// Deleting a game removes the game and every checkpoint, membership
/// and progress row of that game; a lookup of the game or of any of
/// its checkpoints in the remaining tables finds nothing.
pub proof fn lemma_delete_game_cascade(s: Store, game_id: u64)
    requires
        s.wf(),
    ensures
        !has_game_id(s.games@.filter(keep_games_not(game_id)), game_id),
        forall|i: int|
            0 <= i < s.checkpoints@.filter(keep_cps_not_game(game_id)).len()
                ==> (#[trigger] s.checkpoints@.filter(keep_cps_not_game(game_id))[i]).game_id
                != game_id,
        forall|i: int|
            0 <= i < s.progress@.filter(keep_prs_not_game(game_id)).len()
                ==> (#[trigger] s.progress@.filter(keep_prs_not_game(game_id))[i]).game_id
                != game_id,
        forall|i: int|
            0 <= i < s.memberships@.filter(keep_ms_not_game(game_id)).len()
                ==> (#[trigger] s.memberships@.filter(keep_ms_not_game(game_id))[i]).game_id
                != game_id,
        forall|cid: u64|
            (exists|j: int|
                0 <= j < s.checkpoints@.len() && s.checkpoints@[j].game_id == game_id
                    && s.checkpoints@[j].checkpoint_id == cid) ==> !#[trigger] has_checkpoint_id(
                s.checkpoints@.filter(keep_cps_not_game(game_id)),
                cid,
            ),
{
    crate::seq_util::lemma_filter_in_orig(s.games@, keep_games_not(game_id));
    crate::seq_util::lemma_filter_in_orig(s.checkpoints@, keep_cps_not_game(game_id));
    assert forall|i: int|
        0 <= i < s.games@.filter(keep_games_not(game_id)).len() implies (#[trigger] s.games@.filter(
        keep_games_not(game_id),
    )[i]).game_id != game_id by {
        s.games@.lemma_filter_pred(keep_games_not(game_id), i);
    }
    assert forall|i: int|
        0 <= i < s.checkpoints@.filter(keep_cps_not_game(game_id)).len() implies (
    #[trigger] s.checkpoints@.filter(keep_cps_not_game(game_id))[i]).game_id != game_id by {
        s.checkpoints@.lemma_filter_pred(keep_cps_not_game(game_id), i);
    }
    assert forall|i: int|
        0 <= i < s.progress@.filter(keep_prs_not_game(game_id)).len() implies (
    #[trigger] s.progress@.filter(keep_prs_not_game(game_id))[i]).game_id != game_id by {
        s.progress@.lemma_filter_pred(keep_prs_not_game(game_id), i);
    }
    assert forall|i: int|
        0 <= i < s.memberships@.filter(keep_ms_not_game(game_id)).len() implies (
    #[trigger] s.memberships@.filter(keep_ms_not_game(game_id))[i]).game_id != game_id by {
        s.memberships@.lemma_filter_pred(keep_ms_not_game(game_id), i);
    }
    assert forall|cid: u64|
        (exists|j: int|
            0 <= j < s.checkpoints@.len() && s.checkpoints@[j].game_id == game_id
                && s.checkpoints@[j].checkpoint_id == cid) implies !#[trigger] has_checkpoint_id(
        s.checkpoints@.filter(keep_cps_not_game(game_id)),
        cid,
    ) by {
        let kept = s.checkpoints@.filter(keep_cps_not_game(game_id));
        if has_checkpoint_id(kept, cid) {
            let i = choose|i: int| 0 <= i < kept.len() && kept[i].checkpoint_id == cid;
            s.checkpoints@.lemma_filter_pred(keep_cps_not_game(game_id), i);
            assert(s.checkpoints@.contains(kept[i]));
            let w = choose|w: int| 0 <= w < s.checkpoints@.len() && s.checkpoints@[w] == kept[i];
            let j = choose|j: int|
                0 <= j < s.checkpoints@.len() && s.checkpoints@[j].game_id == game_id
                    && s.checkpoints@[j].checkpoint_id == cid;
            assert(w == j);
        }
    }
}

/// Deleting a checkpoint removes exactly the progress rows that
/// reference it: every remaining row references another checkpoint,
/// and every row of another checkpoint remains.
pub proof fn lemma_delete_tag_exact(s: Store, checkpoint_id: u64)
    ensures
        forall|i: int|
            0 <= i < s.progress@.filter(keep_prs_not_cp(checkpoint_id)).len()
                ==> (#[trigger] s.progress@.filter(keep_prs_not_cp(checkpoint_id))[i]).checkpoint_id
                != checkpoint_id,
        forall|j: int|
            0 <= j < s.progress@.len() && (#[trigger] s.progress@[j]).checkpoint_id
                != checkpoint_id ==> s.progress@.filter(keep_prs_not_cp(checkpoint_id)).contains(
                s.progress@[j],
            ),
        !has_checkpoint_id(s.checkpoints@.filter(keep_cps_not_id(checkpoint_id)), checkpoint_id),
{
    assert forall|i: int|
        0 <= i < s.progress@.filter(keep_prs_not_cp(checkpoint_id)).len() implies (
    #[trigger] s.progress@.filter(keep_prs_not_cp(checkpoint_id))[i]).checkpoint_id
        != checkpoint_id by {
        s.progress@.lemma_filter_pred(keep_prs_not_cp(checkpoint_id), i);
    }
    assert forall|j: int|
        0 <= j < s.progress@.len() && (#[trigger] s.progress@[j]).checkpoint_id
        != checkpoint_id implies s.progress@.filter(keep_prs_not_cp(checkpoint_id)).contains(
        s.progress@[j],
    ) by {
        s.progress@.lemma_filter_contains(keep_prs_not_cp(checkpoint_id), j);
    }
    assert forall|i: int|
        0 <= i < s.checkpoints@.filter(keep_cps_not_id(checkpoint_id)).len() implies (
    #[trigger] s.checkpoints@.filter(keep_cps_not_id(checkpoint_id))[i]).checkpoint_id
        != checkpoint_id by {
        s.checkpoints@.lemma_filter_pred(keep_cps_not_id(checkpoint_id), i);
    }
}

} // verus!
