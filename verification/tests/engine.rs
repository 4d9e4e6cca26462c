//! End-to-end scenarios for the game-state engine.

use tag_hunt::entities::Error;
use tag_hunt::entities::GameStatus;
use tag_hunt::store::Store;

fn s(text: &str) -> String {
    text.to_string()
}

/// A ready-to-play game: created, three checkpoints in order 1..3,
/// started, one player joined.  Returns (store, game_id, player_id).
fn playable_game() -> (Store, u64, u64) {
    let mut store = Store::new();
    let game_id = store.create_game(s("Downtown Hunt"), 10).unwrap();
    store
        .register_checkpoint(s("GAME0001"), s("tag-a"), s("Fountain"), 1, 11)
        .unwrap();
    store
        .register_checkpoint(s("GAME0001"), s("tag-b"), s("Library"), 2, 12)
        .unwrap();
    store
        .register_checkpoint(s("GAME0001"), s("tag-c"), s("Bridge"), 3, 13)
        .unwrap();
    store.start_game(game_id, 20).unwrap();
    let player_id = store.join_game(s("GAME0001"), s("Ada"), 21).unwrap();
    (store, game_id, player_id)
}

#[test]
fn create_game_assigns_first_code() {
    let mut store = Store::new();
    let game_id = store.create_game(s("Hunt"), 5).unwrap();
    assert_eq!(game_id, 1);
    assert_eq!(store.games.len(), 1);
    assert_eq!(store.games[0].code, "GAME0001");
    assert_eq!(store.games[0].name, "Hunt");
    assert!(matches!(store.games[0].status, GameStatus::Setup));
    assert_eq!(store.games[0].created_at, 5);
    assert!(store.games[0].started_at.is_none());
}

#[test]
fn game_codes_count_up() {
    let mut store = Store::new();
    store.create_game(s("One"), 1).unwrap();
    store.create_game(s("Two"), 2).unwrap();
    store.create_game(s("Three"), 3).unwrap();
    assert_eq!(store.games[0].code, "GAME0001");
    assert_eq!(store.games[1].code, "GAME0002");
    assert_eq!(store.games[2].code, "GAME0003");
}

#[test]
fn lifecycle_moves_only_forward() {
    let mut store = Store::new();
    let game_id = store.create_game(s("Hunt"), 1).unwrap();
    // A game in setup cannot end.
    assert_eq!(store.end_game(game_id, 2), Err(Error::InvalidState));
    assert!(!store.games[0].is_active());
    assert_eq!(store.start_game(game_id, 3), Ok(()));
    assert!(matches!(store.games[0].status, GameStatus::Active));
    assert!(store.games[0].is_active());
    assert_eq!(store.games[0].started_at, Some(3));
    // An active game cannot start again.
    assert_eq!(store.start_game(game_id, 4), Err(Error::InvalidState));
    assert_eq!(store.end_game(game_id, 5), Ok(()));
    assert!(matches!(store.games[0].status, GameStatus::Ended));
    assert_eq!(store.games[0].ended_at, Some(5));
    // An ended game can neither start nor end.
    assert_eq!(store.start_game(game_id, 6), Err(Error::InvalidState));
    assert_eq!(store.end_game(game_id, 7), Err(Error::InvalidState));
    // Unknown ids are reported as absent.
    assert_eq!(store.start_game(99, 8), Err(Error::NotFound));
    assert_eq!(store.end_game(99, 9), Err(Error::NotFound));
}

#[test]
fn checkpoint_keys_are_unique_per_game() {
    let mut store = Store::new();
    let game_id = store.create_game(s("Hunt"), 1).unwrap();
    store
        .register_checkpoint(s("GAME0001"), s("tag-a"), s("Fountain"), 1, 2)
        .unwrap();
    // Same tag code, new order index.
    assert_eq!(
        store.register_checkpoint(s("GAME0001"), s("tag-a"), s("Elsewhere"), 2, 3),
        Err(Error::Conflict)
    );
    // New tag code, same order index.
    assert_eq!(
        store.register_checkpoint(s("GAME0001"), s("tag-b"), s("Library"), 1, 4),
        Err(Error::Conflict)
    );
    // A zero order index is rejected outright.
    assert_eq!(
        store.register_checkpoint(s("GAME0001"), s("tag-c"), s("Bridge"), 0, 5),
        Err(Error::InvalidArgument)
    );
    // An unknown game code is reported as absent.
    assert_eq!(
        store.register_checkpoint(s("GAME9999"), s("tag-c"), s("Bridge"), 2, 6),
        Err(Error::NotFound)
    );
    assert_eq!(store.checkpoints.len(), 1);
    // A second game may reuse both keys.
    store.create_game(s("Other"), 7).unwrap();
    store
        .register_checkpoint(s("GAME0002"), s("tag-a"), s("Fountain"), 1, 8)
        .unwrap();
    assert_eq!(store.checkpoints.len(), 2);
    assert_eq!(game_id, 1);
}

#[test]
fn sequential_claim_scenario() {
    let (mut store, _game_id, player_id) = playable_game();
    assert_eq!(store.memberships[0].next_required, 1);
    // Claiming order 2 before order 1 is refused.
    assert_eq!(
        store.scan_checkpoint(player_id, s("GAME0001"), s("tag-b"), s("t1"), 30),
        Err(Error::OutOfOrder)
    );
    assert_eq!(store.progress.len(), 0);
    // Claiming order 1 succeeds and advances the cursor.
    assert_eq!(
        store.scan_checkpoint(player_id, s("GAME0001"), s("tag-a"), s("t2"), 31),
        Ok(())
    );
    assert_eq!(store.memberships[0].next_required, 2);
    assert_eq!(store.memberships[0].checkpoints_scanned, 1);
    assert_eq!(store.memberships[0].last_scan_at, Some(31));
    assert_eq!(store.progress.len(), 1);
    assert_eq!(store.progress[0].order_index, 1);
    // Re-claiming order 1 is a success that changes nothing.
    assert_eq!(
        store.scan_checkpoint(player_id, s("GAME0001"), s("tag-a"), s("t3"), 32),
        Ok(())
    );
    assert_eq!(store.memberships[0].checkpoints_scanned, 1);
    assert_eq!(store.progress.len(), 1);
    // Claiming order 2 now succeeds.
    assert_eq!(
        store.scan_checkpoint(player_id, s("GAME0001"), s("tag-b"), s("t4"), 33),
        Ok(())
    );
    assert_eq!(store.memberships[0].next_required, 3);
    // Order 3 cannot be skipped past either: only tag-c remains.
    assert_eq!(
        store.scan_checkpoint(player_id, s("GAME0001"), s("tag-c"), s("t5"), 34),
        Ok(())
    );
    assert_eq!(store.memberships[0].next_required, 4);
    assert_eq!(store.progress.len(), 3);
}

#[test]
fn claim_tag_resolves_the_game_by_id() {
    let (mut store, game_id, player_id) = playable_game();
    assert_eq!(store.claim_tag(99, player_id, s("tag-a"), s("t"), 30), Err(Error::NotFound));
    assert_eq!(
        store.claim_tag(game_id, player_id, s("tag-b"), s("t"), 31),
        Err(Error::OutOfOrder)
    );
    assert_eq!(store.claim_tag(game_id, player_id, s("tag-a"), s("t"), 32), Ok(()));
    assert_eq!(store.progress.len(), 1);
    assert_eq!(store.memberships[0].next_required, 2);
}

#[test]
fn claim_error_paths() {
    let (mut store, game_id, player_id) = playable_game();
    // Unknown game code.
    assert_eq!(
        store.scan_checkpoint(player_id, s("GAME9999"), s("tag-a"), s("t"), 30),
        Err(Error::NotFound)
    );
    // Unknown tag in a known game.
    assert_eq!(
        store.scan_checkpoint(player_id, s("GAME0001"), s("tag-x"), s("t"), 31),
        Err(Error::NotFound)
    );
    // A registered player who never joined is not a member.
    store.upsert_player(500, s("Eve"), None, 32).unwrap();
    assert_eq!(
        store.scan_checkpoint(500, s("GAME0001"), s("tag-a"), s("t"), 33),
        Err(Error::NotMember)
    );
    // An inactive checkpoint cannot be claimed.
    let tag_d = store
        .create_tag(game_id, s("tag-d"), 4, Some(s("under the arch")), 34)
        .unwrap();
    assert_eq!(
        store.scan_checkpoint(player_id, s("GAME0001"), s("tag-d"), s("t"), 35),
        Err(Error::CheckpointInactive)
    );
    store.set_tag_active(tag_d, true).unwrap();
    // Once every earlier checkpoint is claimed, tag-d works.
    store
        .scan_checkpoint(player_id, s("GAME0001"), s("tag-a"), s("t"), 36)
        .unwrap();
    store
        .scan_checkpoint(player_id, s("GAME0001"), s("tag-b"), s("t"), 37)
        .unwrap();
    store
        .scan_checkpoint(player_id, s("GAME0001"), s("tag-c"), s("t"), 38)
        .unwrap();
    assert_eq!(
        store.scan_checkpoint(player_id, s("GAME0001"), s("tag-d"), s("t"), 39),
        Ok(())
    );
    // Claims stop once the game has ended.
    store.end_game(game_id, 40).unwrap();
    assert_eq!(
        store.scan_checkpoint(player_id, s("GAME0001"), s("tag-a"), s("t"), 41),
        Err(Error::GameNotActive)
    );
}

#[test]
fn joining_needs_an_active_game() {
    let mut store = Store::new();
    store.create_game(s("Hunt"), 1).unwrap();
    assert_eq!(
        store.join_game(s("GAME0001"), s("Ada"), 2),
        Err(Error::GameNotActive)
    );
    assert_eq!(store.join_game(s("GAME9999"), s("Ada"), 3), Err(Error::NotFound));
    store.start_game(1, 4).unwrap();
    let player_id = store.join_game(s("GAME0001"), s("Ada"), 5).unwrap();
    assert_eq!(store.players.len(), 1);
    assert_eq!(store.memberships.len(), 1);
    assert_eq!(store.memberships[0].player_id, player_id);
    assert_eq!(store.memberships[0].joined_at, 5);
    assert_eq!(store.memberships[0].checkpoints_scanned, 0);
}

#[test]
fn upsert_player_updates_in_place() {
    let mut store = Store::new();
    store.upsert_player(7, s("Ada"), None, 1).unwrap();
    assert_eq!(store.players.len(), 1);
    assert_eq!(store.players[0].display_name, "Ada");
    assert_eq!(store.players[0].created_at, 1);
    // Re-registering updates the name and team, not the row count.
    store.upsert_player(7, s("Ada L."), Some(s("Blue")), 2).unwrap();
    assert_eq!(store.players.len(), 1);
    assert_eq!(store.players[0].display_name, "Ada L.");
    assert_eq!(store.players[0].team, Some(s("Blue")));
    assert_eq!(store.players[0].created_at, 1);
    // Generated ids skip past caller-supplied ones.
    store.create_game(s("Hunt"), 3).unwrap();
    store.start_game(1, 4).unwrap();
    let joined = store.join_game(s("GAME0001"), s("Eve"), 5).unwrap();
    assert!(joined > 7);
}

#[test]
fn delete_game_cascades() {
    let (mut store, game_id, player_id) = playable_game();
    store
        .scan_checkpoint(player_id, s("GAME0001"), s("tag-a"), s("t"), 30)
        .unwrap();
    // A second game with its own checkpoint survives the deletion.
    let other = store.create_game(s("Other"), 31).unwrap();
    store
        .register_checkpoint(s("GAME0002"), s("tag-z"), s("Plaza"), 1, 32)
        .unwrap();
    assert_eq!(store.delete_game(99, false), Err(Error::NotFound));
    assert_eq!(store.delete_game(game_id, false), Ok(()));
    assert!(store.find_game(game_id).is_none());
    assert_eq!(store.games.len(), 1);
    assert_eq!(store.games[0].game_id, other);
    assert_eq!(store.checkpoints.len(), 1);
    assert_eq!(store.checkpoints[0].tag_code, "tag-z");
    assert_eq!(store.progress.len(), 0);
    assert_eq!(store.memberships.len(), 0);
    // Without the orphan cascade the player row stays.
    assert_eq!(store.players.len(), 1);
}

#[test]
fn delete_game_cascade_orphans_drops_unreferenced_players() {
    let (mut store, game_id, player_id) = playable_game();
    store
        .scan_checkpoint(player_id, s("GAME0001"), s("tag-a"), s("t"), 30)
        .unwrap();
    assert_eq!(store.delete_game(game_id, true), Ok(()));
    // The player's only progress was in the deleted game.
    assert_eq!(store.players.len(), 0);
}

#[test]
fn delete_tag_removes_exactly_its_claims() {
    let (mut store, _game_id, player_id) = playable_game();
    store
        .scan_checkpoint(player_id, s("GAME0001"), s("tag-a"), s("t"), 30)
        .unwrap();
    store
        .scan_checkpoint(player_id, s("GAME0001"), s("tag-b"), s("t"), 31)
        .unwrap();
    let tag_b_id = store.checkpoints[1].checkpoint_id;
    assert_eq!(store.delete_tag(999), Err(Error::NotFound));
    assert_eq!(store.delete_tag(tag_b_id), Ok(()));
    assert!(store.find_checkpoint(tag_b_id).is_none());
    assert_eq!(store.checkpoints.len(), 2);
    // Only the claim of tag-b is gone.
    assert_eq!(store.progress.len(), 1);
    assert_eq!(store.progress[0].checkpoint_id, store.checkpoints[0].checkpoint_id);
}

#[test]
fn delete_progress_removes_one_row() {
    let (mut store, game_id, player_id) = playable_game();
    store
        .scan_checkpoint(player_id, s("GAME0001"), s("tag-a"), s("t"), 30)
        .unwrap();
    store
        .scan_checkpoint(player_id, s("GAME0001"), s("tag-b"), s("t"), 31)
        .unwrap();
    let cp_a = store.checkpoints[0].checkpoint_id;
    assert_eq!(store.delete_progress(game_id, player_id, cp_a), Ok(()));
    assert_eq!(store.progress.len(), 1);
    assert_eq!(
        store.delete_progress(game_id, player_id, cp_a),
        Err(Error::NotFound)
    );
}

#[test]
fn delete_player_clears_their_rows_only() {
    let (mut store, game_id, player_id) = playable_game();
    let second = store.join_game(s("GAME0001"), s("Eve"), 22).unwrap();
    store
        .scan_checkpoint(player_id, s("GAME0001"), s("tag-a"), s("t"), 30)
        .unwrap();
    store
        .scan_checkpoint(second, s("GAME0001"), s("tag-a"), s("t"), 31)
        .unwrap();
    assert_eq!(store.delete_player(999, None), Err(Error::NotFound));
    assert_eq!(store.delete_player(player_id, Some(game_id)), Ok(()));
    // The other player's claim and the player rows themselves remain.
    assert_eq!(store.progress.len(), 1);
    assert_eq!(store.progress[0].player_id, second);
    assert_eq!(store.memberships.len(), 1);
    assert_eq!(store.players.len(), 2);
}

#[test]
fn activate_tag_replaces_globally() {
    let (mut store, game_id, player_id) = playable_game();
    store
        .scan_checkpoint(player_id, s("GAME0001"), s("tag-a"), s("t"), 30)
        .unwrap();
    let old_id = store.checkpoints[0].checkpoint_id;
    // Reactivating tag-a replaces the row and drops its claims.
    let new_id = store
        .activate_tag(game_id, s("tag-a"), 1, Some(s("behind the statue")), 31)
        .unwrap();
    assert_ne!(old_id, new_id);
    assert!(store.find_checkpoint(old_id).is_none());
    assert_eq!(store.checkpoints.len(), 3);
    assert_eq!(store.progress.len(), 0);
    let fresh = store.find_checkpoint(new_id).unwrap();
    assert!(store.checkpoints[fresh].is_active);
    assert_eq!(store.checkpoints[fresh].clue, Some(s("behind the statue")));
    assert_eq!(store.checkpoints[fresh].activated_at, Some(31));
    // The order index must not collide with another tag of the game.
    assert_eq!(
        store.activate_tag(game_id, s("tag-new"), 2, None, 32),
        Err(Error::Conflict)
    );
    assert_eq!(store.activate_tag(game_id, s("tag-new"), 0, None, 33), Err(Error::InvalidArgument));
    assert_eq!(store.activate_tag(99, s("tag-new"), 9, None, 34), Err(Error::NotFound));
}

#[test]
fn activate_tag_with_location_stores_coordinates() {
    let mut store = Store::new();
    let game_id = store.create_game(s("Hunt"), 1).unwrap();
    let id = store
        .activate_tag_with_location(
            game_id,
            s("tag-geo"),
            52_520_008,
            13_404_954,
            25,
            s("organizer"),
            1,
            None,
            2,
        )
        .unwrap();
    let i = store.find_checkpoint(id).unwrap();
    assert_eq!(store.checkpoints[i].lat_microdeg, Some(52_520_008));
    assert_eq!(store.checkpoints[i].lon_microdeg, Some(13_404_954));
    assert_eq!(store.checkpoints[i].accuracy_m, Some(25));
    assert_eq!(store.checkpoints[i].activated_by, Some(s("organizer")));
    assert!(store.checkpoints[i].is_active);
}

#[test]
fn create_tag_starts_inactive() {
    let mut store = Store::new();
    let game_id = store.create_game(s("Hunt"), 1).unwrap();
    let id = store.create_tag(game_id, s("tag-a"), 1, Some(s("clue")), 2).unwrap();
    let i = store.find_checkpoint(id).unwrap();
    assert!(!store.checkpoints[i].is_active);
    assert_eq!(store.checkpoints[i].clue, Some(s("clue")));
    assert_eq!(store.create_tag(game_id, s("tag-a"), 2, None, 3), Err(Error::Conflict));
    assert_eq!(store.create_tag(99, s("tag-b"), 2, None, 4), Err(Error::NotFound));
    assert_eq!(store.set_tag_active(999, true), Err(Error::NotFound));
}

#[test]
fn reset_game_wipes_everything() {
    let (mut store, _game_id, player_id) = playable_game();
    store
        .scan_checkpoint(player_id, s("GAME0001"), s("tag-a"), s("t"), 30)
        .unwrap();
    let first = store.reset_game(s("X"), 40).unwrap();
    assert_eq!(store.games.len(), 1);
    assert_eq!(store.games[0].game_id, first);
    assert_eq!(store.games[0].name, "X");
    assert_eq!(store.checkpoints.len(), 0);
    assert_eq!(store.players.len(), 0);
    assert_eq!(store.memberships.len(), 0);
    assert_eq!(store.progress.len(), 0);
    // A second reset leaves exactly one fresh game and nothing else.
    let second = store.reset_game(s("X"), 41).unwrap();
    assert_eq!(store.games.len(), 1);
    assert_eq!(store.games[0].game_id, second);
    assert!(second > first);
    assert_eq!(store.checkpoints.len(), 0);
    assert_eq!(store.players.len(), 0);
    assert_eq!(store.memberships.len(), 0);
    assert_eq!(store.progress.len(), 0);
    // The code counter was never reset.
    assert_eq!(store.games[0].code, "GAME0003");
}

#[test]
fn empty_store_finds_nothing() {
    let mut store = Store::new();
    assert!(store.find_game(1).is_none());
    assert!(store.find_player(1).is_none());
    assert!(store.find_checkpoint(1).is_none());
    assert_eq!(store.start_game(1, 0), Err(Error::NotFound));
    assert_eq!(store.delete_game(1, true), Err(Error::NotFound));
    assert_eq!(store.delete_tag(1), Err(Error::NotFound));
    assert_eq!(store.delete_player(1, None), Err(Error::NotFound));
    assert_eq!(store.delete_progress(1, 1, 1), Err(Error::NotFound));
    assert_eq!(
        store.scan_checkpoint(1, s("GAME0001"), s("tag"), s("t"), 0),
        Err(Error::NotFound)
    );
}

#[test]
fn upsert_player_rejects_the_last_id() {
    let mut store = Store::new();
    assert_eq!(
        store.upsert_player(u64::MAX, s("Ada"), None, 1),
        Err(Error::InvalidArgument)
    );
    assert_eq!(store.players.len(), 0);
}

#[test]
fn code_padding_grows_past_four_digits() {
    // The code is the counter in decimal, zero-padded to four digits.
    assert_eq!(tag_hunt::codes::game_code(1), "GAME0001");
    assert_eq!(tag_hunt::codes::game_code(42), "GAME0042");
    assert_eq!(tag_hunt::codes::game_code(999), "GAME0999");
    assert_eq!(tag_hunt::codes::game_code(12345), "GAME12345");
}
