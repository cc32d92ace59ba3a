//! The session state machine run against the storage model: registration
//! exclusivity, the guess-append flow, and the documented double-append race.

use wordle::game::{Correctness, CreateGameRequest, Game, Guess};
use wordle::ident::Id;
use wordle::session::{play_conclude, play_prepare, ApiError, UpdateOutcome};
use wordle::store::Store;
use wordle::user::User;

fn uid(n: u32) -> Id {
    Id { hi: 0x1000 + n as u64, lo: n }
}

fn store_with_game(creator: Id, answer: &str, game_id: Id) -> Store {
    let mut store = Store::new();
    store.insert_user(User { id: creator, name: "creator".to_string() });
    let game = Game {
        id: game_id,
        start_time: 1,
        creator,
        players: Vec::new(),
        answer: answer.to_string(),
    };
    assert!(store.insert_game(game).is_ok());
    store
}

#[test]
fn register_appends_a_player() {
    let creator = uid(1);
    let player = uid(2);
    let gid = uid(50);
    let mut store = store_with_game(creator, "crate", gid);
    store.insert_user(User { id: player, name: "ada".to_string() });

    assert!(matches!(store.register(gid, player), Ok(())));
    let game = store.find_game_by_player(gid, player).expect("registered");
    assert_eq!(game.players.len(), 1);
    assert_eq!(game.players[0].id, player);
    assert_eq!(game.players[0].name, "ada");
    assert!(game.players[0].guesses.is_empty());
}

#[test]
fn register_by_creator_is_not_found() {
    let creator = uid(1);
    let gid = uid(50);
    let mut store = store_with_game(creator, "crate", gid);
    assert!(matches!(store.register(gid, creator), Err(ApiError::NotFound)));
}

#[test]
fn second_register_is_not_found() {
    let creator = uid(1);
    let player = uid(2);
    let gid = uid(50);
    let mut store = store_with_game(creator, "crate", gid);
    store.insert_user(User { id: player, name: "ada".to_string() });

    assert!(matches!(store.register(gid, player), Ok(())));
    assert!(matches!(store.register(gid, player), Err(ApiError::NotFound)));
    let game = store.find_game_by_player(gid, player).expect("registered");
    assert_eq!(game.players.len(), 1);
}

#[test]
fn register_unknown_user_is_unauthorized() {
    let creator = uid(1);
    let gid = uid(50);
    let mut store = store_with_game(creator, "crate", gid);
    assert!(matches!(store.register(gid, uid(9)), Err(ApiError::Unauthorized)));
}

#[test]
fn register_missing_game_is_not_found() {
    let creator = uid(1);
    let player = uid(2);
    let mut store = store_with_game(creator, "crate", uid(50));
    store.insert_user(User { id: player, name: "ada".to_string() });
    assert!(matches!(store.register(uid(51), player), Err(ApiError::NotFound)));
}

fn registered_store() -> (Store, Id, Id) {
    let creator = uid(1);
    let player = uid(2);
    let gid = uid(50);
    let mut store = store_with_game(creator, "crate", gid);
    store.insert_user(User { id: player, name: "ada".to_string() });
    assert!(matches!(store.register(gid, player), Ok(())));
    (store, gid, player)
}

#[test]
fn play_scores_and_appends() {
    let (mut store, gid, player) = registered_store();
    let resp = store.play(gid, player, "trace".chars().collect()).expect("accepted");
    assert!(!resp.game_over);
    assert_eq!(resp.guess[0], ('t', Correctness::IncorrectPosition));
    assert_eq!(resp.guess[1], ('r', Correctness::Correct));

    let state = store.get_state(gid, player).expect("registered");
    assert!(!state.game_over);
    assert_eq!(state.guesses.len(), 1);
    assert_eq!(state.guesses[0], resp.guess);
}

#[test]
fn play_unregistered_is_not_found() {
    let (mut store, gid, _player) = registered_store();
    let r = store.play(gid, uid(9), "trace".chars().collect());
    assert!(matches!(r, Err(ApiError::NotFound)));
}

#[test]
fn winning_play_reports_game_over() {
    let (mut store, gid, player) = registered_store();
    let resp = store.play(gid, player, "crate".chars().collect()).expect("accepted");
    assert!(resp.game_over);
    let state = store.get_state(gid, player).expect("registered");
    assert!(state.game_over);
}

#[test]
fn concurrent_plays_both_append() {
    let (mut store, gid, player) = registered_store();

    // Both submissions pass the read step before either appends.
    let snapshot1 = store.find_game_by_player(gid, player).expect("registered").clone();
    let snapshot2 = store.find_game_by_player(gid, player).expect("registered").clone();
    let (resp1, record1) = play_prepare(&snapshot1, "trace".chars().collect());
    let (resp2, record2) = play_prepare(&snapshot2, "cares".chars().collect());

    let outcome1 = store.append_guess_if_player_present(gid, player, record1);
    let outcome2 = store.append_guess_if_player_present(gid, player, record2);
    assert_eq!(outcome1, UpdateOutcome { matched: 1, modified: 1 });
    assert_eq!(outcome2, UpdateOutcome { matched: 1, modified: 1 });

    // Each call independently reports success to its caller.
    assert!(matches!(play_conclude(Ok(outcome1), resp1), Ok(_)));
    assert!(matches!(play_conclude(Ok(outcome2), resp2), Ok(_)));

    // The store ends with two accepted guesses from one logical turn.
    let state = store.get_state(gid, player).expect("registered");
    assert_eq!(state.guesses.len(), 2);
}

#[test]
fn sixth_guess_ends_the_game() {
    let (mut store, gid, player) = registered_store();
    for _ in 0..5 {
        store.play(gid, player, "xxxxx".chars().collect()).expect("accepted");
        let state = store.get_state(gid, player).expect("registered");
        assert!(!state.game_over);
    }
    store.play(gid, player, "xxxxx".chars().collect()).expect("accepted");
    let state = store.get_state(gid, player).expect("registered");
    assert!(state.game_over);
    assert_eq!(state.guesses.len(), 6);
}

#[test]
fn manage_game_shows_players_and_answer() {
    let (mut store, gid, player) = registered_store();
    store.play(gid, player, "trace".chars().collect()).expect("accepted");

    let creator = uid(1);
    let view = store.manage_game(gid, creator).expect("creator");
    assert_eq!(view.answer, "crate");
    assert_eq!(view.start_time, 1);
    assert_eq!(view.players.len(), 1);
    assert_eq!(view.players[0].name, "ada");
    assert_eq!(view.players[0].guesses.len(), 1);

    assert!(matches!(store.manage_game(gid, player), Err(ApiError::NotFound)));
    assert!(matches!(store.manage_game(gid, uid(9)), Err(ApiError::Unauthorized)));
}

#[test]
fn create_game_inserts_and_encodes_its_id() {
    let creator = uid(1);
    let mut store = Store::new();
    store.insert_user(User { id: creator, name: "creator".to_string() });
    let req = CreateGameRequest { answer: "crate".to_string() };
    let resp = store.create_game(creator, req).expect("created");
    assert_eq!(resp.game_id.len(), 24);

    let gid = Id::from_hex(&resp.game_id).expect("canonical id");
    let game = store.find_game_by_creator(gid, creator).expect("created game");
    assert_eq!(game.answer, "crate");
    assert!(game.players.is_empty());
}

#[test]
fn guess_record_keeps_the_scored_row() {
    let row = vec![('a', Correctness::Correct)];
    let g = Guess { guess: row.clone(), submit_time: 3 };
    let copy = g.clone();
    assert_eq!(copy.guess, row);
    assert_eq!(copy.submit_time, 3);
}
