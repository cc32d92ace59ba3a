//! The session state machine: registration and guess submission expressed as
//! decision steps around a storage collaborator.
//!
//! The storage collaborator performs conditional single-document reads and
//! appends; the core only decides. Each step here is a pure function from a
//! storage outcome (a fetch result or the matched/modified counts of a
//! conditional append) to the next domain value or error, so the unverified
//! shell around storage stays free of logic.

use vstd::prelude::*;

use crate::evaluate::{complete, eval, scored};
use crate::ident::{hex_seq_val, is_lower_hex_digit, str_chars, Id};
use crate::game::{
    copy_marks, game_wf, response_of, Correctness, CreateGameRequest, CreateGameResponse, Game,
    GetStateResponse, Guess, GuessView, ManageGameResponse, PlayResponse, Player, PlayerResponse,
    PlayerView,
};
use crate::user::User;

verus! {

/// The outcomes a core operation can end in, besides success.
#[derive(Clone, Copy, PartialEq, Eq, Structural, Debug)]
pub enum ApiError {
    /// The game or a precondition on it (eligibility, registration) was not
    /// met; the storage filter matched nothing.
    NotFound,
    /// No account exists for the caller's identity.
    Unauthorized,
    /// A conditional append matched its document but did not change it:
    /// a race between the read and the append.
    Conflict,
    /// A storage anomaly or an unexpected state.
    Internal,
}

/// What a storage fetch came back with.
pub enum Fetched<T> {
    /// The document was found.
    Found(T),
    /// The filter matched nothing.
    Missing,
    /// The storage collaborator itself failed.
    Failed,
}

/// Marker for a failed storage write.
#[derive(Clone, Copy, PartialEq, Eq, Structural, Debug)]
pub struct StoreFailed;

/// The counts a conditional single-document append reports: how many
/// documents the filter matched, and how many the append changed.
#[derive(Clone, Copy, PartialEq, Eq, Structural, Debug)]
pub struct UpdateOutcome {
    pub matched: u64,
    pub modified: u64,
}

/// Milliseconds since the epoch, for join and submission timestamps.
///
/// Relies on `chrono::Utc::now` and `DateTime::timestamp_millis`: the value
/// is read from the system clock, so nothing is promised of it.
#[verifier::external_body]
pub(crate) fn now_millis() -> u64 {
    chrono::Utc::now().timestamp_millis() as u64
}

/// Interprets the account lookup that starts every authenticated operation:
/// no record means the caller is unknown, a storage failure is opaque.
pub fn require_user(user: Fetched<User>) -> (r: Result<User, ApiError>)
    ensures
        match user {
            Fetched::Found(u) => r == Ok::<User, ApiError>(u),
            Fetched::Missing => r == Err::<User, ApiError>(ApiError::Unauthorized),
            Fetched::Failed => r == Err::<User, ApiError>(ApiError::Internal),
        },
{
    match user {
        Fetched::Found(u) => Ok(u),
        Fetched::Missing => Err(ApiError::Unauthorized),
        Fetched::Failed => Err(ApiError::Internal),
    }
}

/// Interprets the game fetch that starts `Play` and the creator's view:
/// an unmatched filter collapses every unmet precondition into `NotFound`.
pub fn require_game(game: Fetched<Game>) -> (r: Result<Game, ApiError>)
    ensures
        match game {
            Fetched::Found(g) => r matches Ok(rg) && rg@ == g@,
            Fetched::Missing => r matches Err(e) && e == ApiError::NotFound,
            Fetched::Failed => r matches Err(e) && e == ApiError::Internal,
        },
{
    match game {
        Fetched::Found(g) => Ok(g),
        Fetched::Missing => Err(ApiError::NotFound),
        Fetched::Failed => Err(ApiError::Internal),
    }
}

/// Builds the player entry that `Register` appends: the caller's account
/// identity and name, the join time, and an empty guess history.
pub fn new_player(user: &User) -> (p: Player)
    ensures
        p@.id == user@.id,
        p@.name == user@.name,
        p@.guesses =~= Seq::<GuessView>::empty(),
{
    Player { id: user.id, name: user.name.clone(), start_time: now_millis(), guesses: Vec::new() }
}

/// Interprets the conditional append of `Register`: an unmatched filter is
/// `NotFound` (no such game, the caller is its creator, or the caller is
/// already registered — indistinguishable by design), a matched but
/// unapplied append is a storage anomaly.
pub fn register_conclude(update: Result<UpdateOutcome, StoreFailed>) -> (r: Result<(), ApiError>)
    ensures
        match update {
            Err(_) => r == Err::<(), ApiError>(ApiError::Internal),
            Ok(o) => r == if o.matched != 1 {
                Err::<(), ApiError>(ApiError::NotFound)
            } else if o.modified != 1 {
                Err::<(), ApiError>(ApiError::Internal)
            } else {
                Ok::<(), ApiError>(())
            },
        },
{
    match update {
        Err(_) => Err(ApiError::Internal),
        Ok(o) => {
            if o.matched != 1 {
                Err(ApiError::NotFound)
            } else if o.modified != 1 {
                Err(ApiError::Internal)
            } else {
                Ok(())
            }
        },
    }
}

/// The compute step of `Play`: scores the submitted guess against the
/// fetched game's answer and builds the guess record to append. The guess
/// must be as long as the answer; that is the caller's obligation.
pub fn play_prepare(game: &Game, guess: Vec<char>) -> (r: (PlayResponse, Guess))
    requires
        guess@.len() == game@.answer.len(),
    ensures
        r.0.game_over == complete(game@.answer, guess@),
        r.0.guess@ == scored(game@.answer, guess@),
        r.1@.guess == scored(game@.answer, guess@),
{
    let answer = str_chars(game.answer.as_str());
    let resp = eval(answer, guess);
    let record = Guess { guess: copy_marks(&resp.guess), submit_time: now_millis() };
    (resp, record)
}

/// Interprets the conditional append of `Play`: an applied append returns
/// the evaluation, a matched but unapplied one is a race (`Conflict`), an
/// unmatched one is anomalous, since the read step had just found the game.
pub fn play_conclude(
    update: Result<UpdateOutcome, StoreFailed>,
    resp: PlayResponse,
) -> (r: Result<PlayResponse, ApiError>)
    ensures
        match update {
            Err(_) => r matches Err(e) && e == ApiError::Internal,
            Ok(o) => {
                if o.modified == 1 {
                    r matches Ok(pr) && pr == resp
                } else if o.matched == 1 {
                    r matches Err(e) && e == ApiError::Conflict
                } else {
                    r matches Err(e) && e == ApiError::Internal
                }
            },
        },
{
    match update {
        Err(_) => Err(ApiError::Internal),
        Ok(o) => {
            if o.modified == 1 {
                Ok(resp)
            } else if o.matched == 1 {
                Err(ApiError::Conflict)
            } else {
                Err(ApiError::Internal)
            }
        },
    }
}

/// True when every position of a scored row is `Correct`.
pub open spec fn all_correct(marks: Seq<(char, Correctness)>) -> bool {
    forall|i: int| 0 <= i < marks.len() ==> marks[i].1 == Correctness::Correct
}

/// The terminal-state rule: a player's game is over once they have made
/// exactly six guesses, or once their latest guess is fully correct.
pub open spec fn game_over_spec(guesses: Seq<GuessView>) -> bool {
    guesses.len() == 6 || (guesses.len() > 0 && all_correct(guesses.last().guess))
}

/// Returns whether a row is fully `Correct`.
fn row_all_correct(marks: &Vec<(char, Correctness)>) -> (b: bool)
    ensures
        b == all_correct(marks@),
{
    let n = marks.len();
    let mut i: usize = 0;
    while i < n
        invariant
            i <= n,
            n == marks@.len(),
            forall|j: int| 0 <= j < i ==> marks@[j].1 == Correctness::Correct,
        decreases n - i,
    {
        let m = marks[i];
        match m.1 {
            Correctness::Correct => {},
            _ => {
                return false;
            },
        }
        i = i + 1;
    }
    true
}

/// Derives the terminal state from a guess history. This is a read-side
/// derivation only; it does not block further submissions.
pub fn game_over(guesses: &Vec<Guess>) -> (b: bool)
    ensures
        b == game_over_spec(guesses@.map_values(|g: Guess| g@)),
{
    let n = guesses.len();
    if n == 6 {
        return true;
    }
    if n == 0 {
        return false;
    }
    let last = &guesses[n - 1];
    proof {
        assert(guesses@.map_values(|g: Guess| g@).last() == last@);
    }
    row_all_correct(&last.guess)
}

/// Builds a player's read-side state: every scored row in submission order,
/// and the terminal-state flag.
pub fn state_view(player: &Player) -> (r: GetStateResponse)
    ensures
        r.game_over == game_over_spec(player@.guesses),
        r.guesses@.map_values(|row: Vec<(char, Correctness)>| row@) == player@.guesses.map_values(
            |g: GuessView| g.guess,
        ),
{
    let n = player.guesses.len();
    let mut rows: Vec<Vec<(char, Correctness)>> = Vec::new();
    let mut i: usize = 0;
    while i < n
        invariant
            i <= n,
            n == player.guesses@.len(),
            rows@.len() == i,
            forall|j: int| 0 <= j < i ==> rows@[j]@ == player.guesses@[j]@.guess,
        decreases n - i,
    {
        rows.push(copy_marks(&player.guesses[i].guess));
        i = i + 1;
    }
    let over = game_over(&player.guesses);
    proof {
        assert(rows@.map_values(|row: Vec<(char, Correctness)>| row@) =~= player@.guesses
            .map_values(|g: GuessView| g.guess));
    }
    GetStateResponse { game_over: over, guesses: rows }
}

/// Builds the creator's management view of a game: creation time, every
/// player without their identity, and the secret answer.
pub fn manage_view(game: &Game) -> (r: ManageGameResponse)
    ensures
        r.start_time == game@.start_time,
        r.answer@ == game@.answer,
        r.players@.map_values(|p: PlayerResponse| p@) == game@.players.map_values(
            |p: crate::game::PlayerView| response_of(p),
        ),
{
    let n = game.players.len();
    let mut players: Vec<PlayerResponse> = Vec::new();
    let mut i: usize = 0;
    while i < n
        invariant
            i <= n,
            n == game.players@.len(),
            players@.len() == i,
            forall|j: int| 0 <= j < i ==> players@[j]@ == response_of(game.players@[j]@),
        decreases n - i,
    {
        players.push(PlayerResponse::from(&game.players[i]));
        i = i + 1;
    }
    proof {
        assert(players@.map_values(|p: PlayerResponse| p@) =~= game@.players.map_values(
            |p: crate::game::PlayerView| response_of(p),
        ));
    }
    ManageGameResponse { start_time: game.start_time, players, answer: game.answer.clone() }
}

/// The compute step of game creation: a new game under a fresh identity,
/// created now by the caller, with the chosen answer and no players yet.
pub fn create_prepare(req: CreateGameRequest, creator: Id) -> (g: Game)
    ensures
        g@.creator == creator,
        g@.answer == req.answer@,
        g@.players =~= Seq::<PlayerView>::empty(),
        game_wf(g@),
{
    let g = Game {
        id: Id::fresh(),
        start_time: now_millis(),
        creator,
        players: Vec::new(),
        answer: req.answer,
    };
    proof {
        assert(g@.players =~= Seq::<PlayerView>::empty());
    }
    g
}

/// Interprets the insert that ends game creation: on success the reply
/// carries the new game's canonical identity string.
pub fn create_conclude(insert: Result<(), StoreFailed>, game: &Game) -> (r: Result<
    CreateGameResponse,
    ApiError,
>)
    ensures
        match insert {
            Err(_) => r == Err::<CreateGameResponse, ApiError>(ApiError::Internal),
            Ok(_) => r matches Ok(resp) && resp.game_id@.len() == 24 && (forall|j: int|
                0 <= j < 24 ==> is_lower_hex_digit(resp.game_id@[j])) && hex_seq_val(
                resp.game_id@.take(16),
            ) == game@.id.hi as int && hex_seq_val(resp.game_id@.skip(16)) == game@.id.lo as int,
        },
{
    match insert {
        Err(_) => Err(ApiError::Internal),
        Ok(_) => Ok(CreateGameResponse { game_id: game.id.to_hex() }),
    }
}

/// The decision step of account creation: an existing account is kept as it
/// is; an unknown identity gets a new account, under a fresh identity, with
/// the requested name, for the caller to insert and adopt.
pub fn user_id_prepare(existing: Fetched<User>, name: String) -> (r: Result<Option<User>, ApiError>)
    ensures
        match existing {
            Fetched::Failed => r == Err::<Option<User>, ApiError>(ApiError::Internal),
            Fetched::Found(_) => r matches Ok(o) && o is None,
            Fetched::Missing => r matches Ok(o) && o matches Some(u) && u@.name == name@,
        },
{
    match existing {
        Fetched::Failed => Err(ApiError::Internal),
        Fetched::Found(_) => Ok(None),
        Fetched::Missing => Ok(Some(User { id: Id::fresh(), name })),
    }
}

} // verus!
