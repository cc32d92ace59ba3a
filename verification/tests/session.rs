//! The decision steps of the session state machine.

use wordle::game::{Correctness, CreateGameRequest, Game, PlayerResponse, Player};
use wordle::ident::Id;
use wordle::session::{
    create_conclude, create_prepare, new_player, play_conclude, play_prepare, register_conclude,
    require_game, require_user, user_id_prepare, ApiError, Fetched, StoreFailed, UpdateOutcome,
};
use wordle::user::User;

fn uid(n: u32) -> Id {
    Id { hi: n as u64, lo: n }
}

#[test]
fn require_user_maps_outcomes() {
    let u = User { id: uid(1), name: "ada".to_string() };
    assert!(matches!(require_user(Fetched::Found(u)), Ok(found) if found.id == uid(1)));
    assert!(matches!(require_user(Fetched::<User>::Missing), Err(ApiError::Unauthorized)));
    assert!(matches!(require_user(Fetched::<User>::Failed), Err(ApiError::Internal)));
}

#[test]
fn require_game_maps_outcomes() {
    assert!(matches!(require_game(Fetched::<Game>::Missing), Err(ApiError::NotFound)));
    assert!(matches!(require_game(Fetched::<Game>::Failed), Err(ApiError::Internal)));
}

#[test]
fn new_player_carries_identity_and_empty_history() {
    let u = User { id: uid(7), name: "grace".to_string() };
    let p = new_player(&u);
    assert_eq!(p.id, uid(7));
    assert_eq!(p.name, "grace");
    assert!(p.guesses.is_empty());
}

#[test]
fn register_conclude_maps_counts() {
    let ok = UpdateOutcome { matched: 1, modified: 1 };
    let unmatched = UpdateOutcome { matched: 0, modified: 0 };
    let unapplied = UpdateOutcome { matched: 1, modified: 0 };
    assert!(matches!(register_conclude(Ok(ok)), Ok(())));
    assert!(matches!(register_conclude(Ok(unmatched)), Err(ApiError::NotFound)));
    assert!(matches!(register_conclude(Ok(unapplied)), Err(ApiError::Internal)));
    assert!(matches!(register_conclude(Err(StoreFailed)), Err(ApiError::Internal)));
}

fn game_with_answer(answer: &str) -> Game {
    Game {
        id: uid(40),
        start_time: 5,
        creator: uid(41),
        players: Vec::new(),
        answer: answer.to_string(),
    }
}

#[test]
fn play_prepare_scores_against_the_answer() {
    let game = game_with_answer("crate");
    let (resp, record) = play_prepare(&game, "trace".chars().collect());
    assert!(!resp.game_over);
    assert_eq!(resp.guess[0], ('t', Correctness::IncorrectPosition));
    assert_eq!(resp.guess[1], ('r', Correctness::Correct));
    assert_eq!(record.guess, resp.guess);
}

#[test]
fn play_conclude_maps_counts() {
    let resp = || wordle::game::PlayResponse { game_over: false, guess: Vec::new() };
    let applied = UpdateOutcome { matched: 1, modified: 1 };
    let raced = UpdateOutcome { matched: 1, modified: 0 };
    let unmatched = UpdateOutcome { matched: 0, modified: 0 };
    assert!(matches!(play_conclude(Ok(applied), resp()), Ok(_)));
    assert!(matches!(play_conclude(Ok(raced), resp()), Err(ApiError::Conflict)));
    assert!(matches!(play_conclude(Ok(unmatched), resp()), Err(ApiError::Internal)));
    assert!(matches!(play_conclude(Err(StoreFailed), resp()), Err(ApiError::Internal)));
}

#[test]
fn create_prepare_builds_an_empty_game() {
    let req = CreateGameRequest { answer: "crate".to_string() };
    let g = create_prepare(req, uid(3));
    assert_eq!(g.creator, uid(3));
    assert_eq!(g.answer, "crate");
    assert!(g.players.is_empty());
}

#[test]
fn create_conclude_encodes_the_game_id() {
    let g = game_with_answer("crate");
    let resp = create_conclude(Ok(()), &g).unwrap();
    assert_eq!(resp.game_id, g.id.to_hex());
    assert_eq!(resp.game_id.len(), 24);
    assert!(matches!(create_conclude(Err(StoreFailed), &g), Err(ApiError::Internal)));
}

#[test]
fn user_id_prepare_keeps_existing_accounts() {
    let u = User { id: uid(9), name: "ada".to_string() };
    assert!(matches!(user_id_prepare(Fetched::Found(u), "x".to_string()), Ok(None)));
    match user_id_prepare(Fetched::Missing, "lin".to_string()) {
        Ok(Some(created)) => assert_eq!(created.name, "lin"),
        _ => panic!("a missing account should be created"),
    }
    assert!(matches!(
        user_id_prepare(Fetched::Failed, "x".to_string()),
        Err(ApiError::Internal)
    ));
}

#[test]
fn player_response_drops_the_identity() {
    let p = Player {
        id: uid(12),
        name: "ada".to_string(),
        start_time: 99,
        guesses: Vec::new(),
    };
    let r = PlayerResponse::from(&p);
    assert_eq!(r.name, "ada");
    assert_eq!(r.start_time, 99);
    assert!(r.guesses.is_empty());
}

#[test]
fn index_greets() {
    assert_eq!(wordle::index(), "Hello, world!");
}
