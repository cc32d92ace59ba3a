//! The game data model: games, players, guesses, per-letter verdicts, and
//! the request/response shapes the transport layer exchanges with the core.
//!
//! Each type with interesting content has a mathematical view (`…View`) whose
//! fields are sequences, so contracts can speak of the data independently of
//! `Vec`/`String` representation.

use vstd::prelude::*;

use crate::ident::Id;

verus! {

/// Per-letter verdict for one position of a guess.
#[derive(Clone, Copy, PartialEq, Eq, Structural, Debug)]
pub enum Correctness {
    Correct,
    IncorrectPosition,
    Incorrect,
}

/// One scored guess: the guessed letters with their verdicts, and the time
/// the guess was submitted (milliseconds since the epoch).
pub struct Guess {
    pub guess: Vec<(char, Correctness)>,
    pub submit_time: u64,
}

#[verifier::ext_equal]
pub struct GuessView {
    pub guess: Seq<(char, Correctness)>,
    pub submit_time: u64,
}

impl View for Guess {
    type V = GuessView;

    open spec fn view(&self) -> GuessView {
        GuessView { guess: self.guess@, submit_time: self.submit_time }
    }
}

/// Copies a scored-letter row. Written out as a loop so the copy carries a
/// full contract (a derived clone would say nothing about the elements).
pub(crate) fn copy_marks(v: &Vec<(char, Correctness)>) -> (r: Vec<(char, Correctness)>)
    ensures
        r@ == v@,
{
    let mut r: Vec<(char, Correctness)> = Vec::new();
    let n = v.len();
    let mut i: usize = 0;
    while i < n
        invariant
            i <= n,
            n == v@.len(),
            r@ == v@.take(i as int),
        decreases n - i,
    {
        r.push(v[i]);
        proof {
            assert(r@ =~= v@.take(i + 1 as int));
        }
        i = i + 1;
    }
    proof {
        assert(r@ =~= v@);
    }
    r
}

impl Clone for Guess {
    fn clone(&self) -> (r: Self)
        ensures
            r@ == self@,
    {
        Guess { guess: copy_marks(&self.guess), submit_time: self.submit_time }
    }
}

/// A registered player of a game: their account identity, display name,
/// join time, and ordered guess history.
pub struct Player {
    pub id: Id,
    pub name: String,
    pub start_time: u64,
    pub guesses: Vec<Guess>,
}

#[verifier::ext_equal]
pub struct PlayerView {
    pub id: Id,
    pub name: Seq<char>,
    pub start_time: u64,
    pub guesses: Seq<GuessView>,
}

impl View for Player {
    type V = PlayerView;

    open spec fn view(&self) -> PlayerView {
        PlayerView {
            id: self.id,
            name: self.name@,
            start_time: self.start_time,
            guesses: self.guesses@.map_values(|g: Guess| g@),
        }
    }
}

/// Copies a guess history element by element, keeping the view.
pub(crate) fn copy_guesses(v: &Vec<Guess>) -> (r: Vec<Guess>)
    ensures
        r@.map_values(|g: Guess| g@) == v@.map_values(|g: Guess| g@),
{
    let mut r: Vec<Guess> = Vec::new();
    let n = v.len();
    let mut i: usize = 0;
    while i < n
        invariant
            i <= n,
            n == v@.len(),
            r@.len() == i,
            forall|j: int| 0 <= j < i ==> r@[j]@ == v@[j]@,
        decreases n - i,
    {
        r.push(v[i].clone());
        i = i + 1;
    }
    proof {
        assert(r@.map_values(|g: Guess| g@) =~= v@.map_values(|g: Guess| g@));
    }
    r
}

impl Clone for Player {
    fn clone(&self) -> (r: Self)
        ensures
            r@ == self@,
    {
        Player {
            id: self.id,
            name: self.name.clone(),
            start_time: self.start_time,
            guesses: copy_guesses(&self.guesses),
        }
    }
}

/// A game: its identity, creation time, the creator's identity, the ordered
/// list of registered players, and the secret answer.
pub struct Game {
    pub id: Id,
    pub start_time: u64,
    pub creator: Id,
    pub players: Vec<Player>,
    pub answer: String,
}

#[verifier::ext_equal]
pub struct GameView {
    pub id: Id,
    pub start_time: u64,
    pub creator: Id,
    pub players: Seq<PlayerView>,
    pub answer: Seq<char>,
}

impl View for Game {
    type V = GameView;

    open spec fn view(&self) -> GameView {
        GameView {
            id: self.id,
            start_time: self.start_time,
            creator: self.creator,
            players: self.players@.map_values(|p: Player| p@),
            answer: self.answer@,
        }
    }
}

/// True when `pid` identifies some player of the game.
pub open spec fn has_player(g: GameView, pid: Id) -> bool {
    exists|i: int| 0 <= i < g.players.len() && g.players[i].id == pid
}

/// A game's own invariant: the creator is never also a player, and an
/// identity appears at most once in the player list.
pub open spec fn game_wf(g: GameView) -> bool {
    &&& forall|i: int| 0 <= i < g.players.len() ==> (#[trigger] g.players[i].id) != g.creator
    &&& forall|i: int, j: int|
        0 <= i < j < g.players.len() ==> g.players[i].id != g.players[j].id
}

/// Copies a player list element by element, keeping the view.
pub(crate) fn copy_players(v: &Vec<Player>) -> (r: Vec<Player>)
    ensures
        r@.map_values(|p: Player| p@) == v@.map_values(|p: Player| p@),
{
    let mut r: Vec<Player> = Vec::new();
    let n = v.len();
    let mut i: usize = 0;
    while i < n
        invariant
            i <= n,
            n == v@.len(),
            r@.len() == i,
            forall|j: int| 0 <= j < i ==> r@[j]@ == v@[j]@,
        decreases n - i,
    {
        r.push(v[i].clone());
        i = i + 1;
    }
    proof {
        assert(r@.map_values(|p: Player| p@) =~= v@.map_values(|p: Player| p@));
    }
    r
}

impl Clone for Game {
    fn clone(&self) -> (r: Self)
        ensures
            r@ == self@,
    {
        Game {
            id: self.id,
            start_time: self.start_time,
            creator: self.creator,
            players: copy_players(&self.players),
            answer: self.answer.clone(),
        }
    }
}

/// Returns the first player of the game with the given identity.
pub fn find_player<'a>(game: &'a Game, pid: Id) -> (r: Option<&'a Player>)
    ensures
        match r {
            Some(p) => exists|i: int|
                0 <= i < game@.players.len() && game@.players[i] == p@ && p@.id == pid,
            None => !has_player(game@, pid),
        },
{
    let n = game.players.len();
    let mut i: usize = 0;
    while i < n
        invariant
            i <= n,
            n == game@.players.len(),
            forall|j: int| 0 <= j < i ==> game@.players[j].id != pid,
        decreases n - i,
    {
        if game.players[i].id == pid {
            let p = &game.players[i];
            proof {
                assert(0 <= i < game@.players.len() && game@.players[i as int] == p@
                    && p@.id == pid);
            }
            return Some(p);
        }
        i = i + 1;
    }
    None
}

/// Returns the index of the first player of the game with the given
/// identity.
pub(crate) fn find_player_index(game: &Game, pid: Id) -> (r: Option<usize>)
    ensures
        match r {
            Some(j) => 0 <= j < game@.players.len() && game@.players[j as int].id == pid,
            None => !has_player(game@, pid),
        },
{
    let n = game.players.len();
    let mut i: usize = 0;
    while i < n
        invariant
            i <= n,
            n == game@.players.len(),
            forall|j: int| 0 <= j < i ==> game@.players[j].id != pid,
        decreases n - i,
    {
        if game.players[i].id == pid {
            proof {
                assert(game@.players[i as int].id == pid);
            }
            return Some(i);
        }
        i = i + 1;
    }
    None
}

/// What a creator makes a game from: the secret answer.
pub struct CreateGameRequest {
    pub answer: String,
}

/// Reply to a successful game creation: the new game's canonical id string.
pub struct CreateGameResponse {
    pub game_id: String,
}

/// A player as shown to the game's creator: everything but the identity.
pub struct PlayerResponse {
    pub name: String,
    pub start_time: u64,
    pub guesses: Vec<Guess>,
}

#[verifier::ext_equal]
pub struct PlayerResponseView {
    pub name: Seq<char>,
    pub start_time: u64,
    pub guesses: Seq<GuessView>,
}

impl View for PlayerResponse {
    type V = PlayerResponseView;

    open spec fn view(&self) -> PlayerResponseView {
        PlayerResponseView {
            name: self.name@,
            start_time: self.start_time,
            guesses: self.guesses@.map_values(|g: Guess| g@),
        }
    }
}

/// What `PlayerResponse::from` keeps of a player.
pub open spec fn response_of(p: PlayerView) -> PlayerResponseView {
    PlayerResponseView { name: p.name, start_time: p.start_time, guesses: p.guesses }
}

impl From<&Player> for PlayerResponse {
    fn from(player: &Player) -> (r: Self)
        ensures
            r@ == response_of(player@),
    {
        PlayerResponse {
            name: player.name.clone(),
            start_time: player.start_time,
            guesses: copy_guesses(&player.guesses),
        }
    }
}

impl vstd::std_specs::convert::FromSpecImpl<&Player> for PlayerResponse {
    open spec fn obeys_from_spec() -> bool {
        false
    }

    open spec fn from_spec(player: &Player) -> Self {
        vstd::pervasive::arbitrary()
    }
}

/// The creator's management view of a game.
pub struct ManageGameResponse {
    pub start_time: u64,
    pub players: Vec<PlayerResponse>,
    pub answer: String,
}

/// One guess submission: the guessed letters, in order.
pub struct PlayRequest {
    pub guess: Vec<char>,
}

/// Reply to a guess submission: the scored guess and whether it won the game.
pub struct PlayResponse {
    pub game_over: bool,
    pub guess: Vec<(char, Correctness)>,
}

/// A player's read-side view of their game: all scored guesses so far and
/// whether the game has ended for them.
pub struct GetStateResponse {
    pub game_over: bool,
    pub guesses: Vec<Vec<(char, Correctness)>>,
}

} // verus!
