//! An executable model of the storage collaborator.
//!
//! Storage holds all shared state; its only atomicity guarantee is the
//! conditional single-document update, whose filter encodes every
//! precondition of a mutation. This module gives those operations exact
//! semantics over a plain in-memory store, proves they preserve the store's
//! invariants, and composes them with the session state machine, so the
//! registration-exclusivity and double-append-race properties can be stated
//! and proved. The unverified shell runs the same decision steps against the
//! real storage service.

use vstd::prelude::*;

use crate::evaluate::{complete, scored};
use crate::game::{game_wf, has_player, Game, GameView, GetStateResponse, Guess, GuessView,
    ManageGameResponse, PlayResponse, Player, PlayerView};
use crate::game::{find_player, find_player_index};
use crate::ident::Id;
use crate::game::{CreateGameRequest, CreateGameResponse};
use crate::ident::hex_seq_val;
use crate::session::{create_conclude, create_prepare, game_over_spec, manage_view, new_player,
    play_conclude, play_prepare, register_conclude, state_view, ApiError, UpdateOutcome};
use crate::user::{User, UserView};

verus! {

/// The shared state: every game and every user account.
pub struct Store {
    pub games: Vec<Game>,
    pub users: Vec<User>,
}

#[verifier::ext_equal]
pub struct StoreView {
    pub games: Seq<GameView>,
    pub users: Seq<UserView>,
}

impl View for Store {
    type V = StoreView;

    open spec fn view(&self) -> StoreView {
        StoreView {
            games: self.games@.map_values(|g: Game| g@),
            users: self.users@.map_values(|u: User| u@),
        }
    }
}

/// The store's invariant: game and user identities are unique, and every
/// game is well formed.
pub open spec fn store_wf(s: StoreView) -> bool {
    &&& forall|i: int, j: int| 0 <= i < j < s.games.len() ==> s.games[i].id != s.games[j].id
    &&& forall|i: int| 0 <= i < s.games.len() ==> game_wf(#[trigger] s.games[i])
    &&& forall|i: int, j: int| 0 <= i < j < s.users.len() ==> s.users[i].id != s.users[j].id
}

/// The filter of `Register`'s conditional append: the game exists, the
/// caller is not its creator, and the caller is not yet a player.
pub open spec fn register_filter(g: GameView, gid: Id, caller: Id) -> bool {
    g.id == gid && g.creator != caller && !has_player(g, caller)
}

/// The filter of `Play`'s fetch and conditional append: the game exists and
/// the caller is one of its players.
pub open spec fn play_filter(g: GameView, gid: Id, pid: Id) -> bool {
    g.id == gid && has_player(g, pid)
}

/// The filter of the creator's management fetch.
pub open spec fn creator_filter(g: GameView, gid: Id, cid: Id) -> bool {
    g.id == gid && g.creator == cid
}

/// True when `Register`'s filter matches some game of the store.
pub open spec fn can_register(s: StoreView, gid: Id, caller: Id) -> bool {
    exists|i: int| 0 <= i < s.games.len() && register_filter(s.games[i], gid, caller)
}

/// True when `Play`'s filter matches some game of the store.
pub open spec fn can_play(s: StoreView, gid: Id, pid: Id) -> bool {
    exists|i: int| 0 <= i < s.games.len() && play_filter(s.games[i], gid, pid)
}

/// The index of the game `Register`'s filter matches.
pub open spec fn register_idx(s: StoreView, gid: Id, caller: Id) -> int {
    choose|i: int| 0 <= i < s.games.len() && register_filter(s.games[i], gid, caller)
}

/// The index of the game `Play`'s filter matches.
pub open spec fn play_idx(s: StoreView, gid: Id, pid: Id) -> int {
    choose|i: int| 0 <= i < s.games.len() && play_filter(s.games[i], gid, pid)
}

/// A game with one more player.
pub open spec fn push_player(g: GameView, p: PlayerView) -> GameView {
    GameView { players: g.players.push(p), ..g }
}

/// The index of the player of `g` with identity `pid`.
pub open spec fn player_idx(g: GameView, pid: Id) -> int {
    choose|j: int| 0 <= j < g.players.len() && g.players[j].id == pid
}

/// A game with one more guess appended to the history of the player with
/// identity `pid`.
pub open spec fn push_guess(g: GameView, pid: Id, gv: GuessView) -> GameView {
    let j = player_idx(g, pid);
    let p = g.players[j];
    GameView {
        players: g.players.update(j, PlayerView { guesses: p.guesses.push(gv), ..p }),
        ..g
    }
}

/// The store after `Register`'s append applied: the matched game gains the
/// player.
pub open spec fn register_applied(s: StoreView, gid: Id, caller: Id, p: PlayerView) -> StoreView {
    let i = register_idx(s, gid, caller);
    StoreView { games: s.games.update(i, push_player(s.games[i], p)), ..s }
}

/// The store after `Play`'s append applied: the caller's player entry in the
/// matched game gains the guess.
pub open spec fn play_applied(s: StoreView, gid: Id, pid: Id, gv: GuessView) -> StoreView {
    let i = play_idx(s, gid, pid);
    StoreView { games: s.games.update(i, push_guess(s.games[i], pid, gv)), ..s }
}

/// The answer of the game `Play`'s filter matches.
pub open spec fn play_answer(s: StoreView, gid: Id, pid: Id) -> Seq<char> {
    s.games[play_idx(s, gid, pid)].answer
}

/// The guess history of the player `Play`'s filter matches.
pub open spec fn play_guesses(s: StoreView, gid: Id, pid: Id) -> Seq<GuessView> {
    let g = s.games[play_idx(s, gid, pid)];
    g.players[player_idx(g, pid)].guesses
}

/// True when some account has the identity.
pub open spec fn user_exists(s: StoreView, uid: Id) -> bool {
    exists|i: int| 0 <= i < s.users.len() && s.users[i].id == uid
}

/// The name of the account with the identity.
pub open spec fn user_named(s: StoreView, uid: Id) -> Seq<char> {
    s.users[choose|i: int| 0 <= i < s.users.len() && s.users[i].id == uid].name
}

/// True when some game has the identity.
pub open spec fn game_exists(s: StoreView, gid: Id) -> bool {
    exists|i: int| 0 <= i < s.games.len() && s.games[i].id == gid
}

/// In a well-formed store, at most one game carries a given identity.
proof fn lemma_unique_game(s: StoreView, i: int, j: int)
    requires
        store_wf(s),
        0 <= i < s.games.len(),
        0 <= j < s.games.len(),
        s.games[i].id == s.games[j].id,
    ensures
        i == j,
{
}

/// In a well-formed store, at most one account carries a given identity.
proof fn lemma_unique_user(s: StoreView, i: int, j: int)
    requires
        store_wf(s),
        0 <= i < s.users.len(),
        0 <= j < s.users.len(),
        s.users[i].id == s.users[j].id,
    ensures
        i == j,
{
}

/// In a well-formed game, at most one player carries a given identity.
proof fn lemma_unique_player(g: GameView, i: int, j: int)
    requires
        game_wf(g),
        0 <= i < g.players.len(),
        0 <= j < g.players.len(),
        g.players[i].id == g.players[j].id,
    ensures
        i == j,
{
}

impl Store {
    /// An empty store.
    pub fn new() -> (s: Store)
        ensures
            s@.games =~= Seq::<GameView>::empty(),
            s@.users =~= Seq::<UserView>::empty(),
            store_wf(s@),
    {
        let s = Store { games: Vec::new(), users: Vec::new() };
        proof {
            assert(s@.games =~= Seq::<GameView>::empty());
            assert(s@.users =~= Seq::<UserView>::empty());
        }
        s
    }

    /// `FindUserById`: the account with the identity, if any.
    pub fn find_user(&self, uid: Id) -> (r: Option<&User>)
        ensures
            match r {
                Some(u) => u@.id == uid && exists|i: int|
                    0 <= i < self@.users.len() && self@.users[i] == u@,
                None => !user_exists(self@, uid),
            },
    {
        let n = self.users.len();
        let mut i: usize = 0;
        while i < n
            invariant
                i <= n,
                n == self@.users.len(),
                forall|j: int| 0 <= j < i ==> self@.users[j].id != uid,
            decreases n - i,
        {
            if self.users[i].id == uid {
                let u = &self.users[i];
                proof {
                    assert(0 <= i < self@.users.len() && self@.users[i as int] == u@);
                }
                return Some(u);
            }
            i = i + 1;
        }
        None
    }

    /// `FindGameByPlayerMatch`: the game with the identity in which the
    /// caller is registered, if any.
    pub fn find_game_by_player(&self, gid: Id, pid: Id) -> (r: Option<&Game>)
        ensures
            match r {
                Some(g) => play_filter(g@, gid, pid) && exists|i: int|
                    0 <= i < self@.games.len() && self@.games[i] == g@,
                None => !can_play(self@, gid, pid),
            },
    {
        let n = self.games.len();
        let mut i: usize = 0;
        while i < n
            invariant
                i <= n,
                n == self@.games.len(),
                forall|j: int| 0 <= j < i ==> !play_filter(self@.games[j], gid, pid),
            decreases n - i,
        {
            let candidate = &self.games[i];
            proof {
                assert(self@.games[i as int] == candidate@);
            }
            if candidate.id == gid {
                if find_player(candidate, pid).is_some() {
                    return Some(candidate);
                }
            }
            i = i + 1;
        }
        None
    }

    /// `FindGameByCreatorMatch`: the game with the identity that the caller
    /// created, if any.
    pub fn find_game_by_creator(&self, gid: Id, cid: Id) -> (r: Option<&Game>)
        ensures
            match r {
                Some(g) => creator_filter(g@, gid, cid) && exists|i: int|
                    0 <= i < self@.games.len() && self@.games[i] == g@,
                None => !exists|i: int|
                    0 <= i < self@.games.len() && creator_filter(self@.games[i], gid, cid),
            },
    {
        let n = self.games.len();
        let mut i: usize = 0;
        while i < n
            invariant
                i <= n,
                n == self@.games.len(),
                forall|j: int| 0 <= j < i ==> !creator_filter(self@.games[j], gid, cid),
            decreases n - i,
        {
            let candidate = &self.games[i];
            proof {
                assert(self@.games[i as int] == candidate@);
            }
            if candidate.id == gid {
                if candidate.creator == cid {
                    return Some(candidate);
                }
            }
            i = i + 1;
        }
        None
    }

    /// `InsertGame`: appends a new game. Fails, changing nothing, when the
    /// identity is already taken.
    pub fn insert_game(&mut self, game: Game) -> (r: Result<(), crate::session::StoreFailed>)
        requires
            store_wf(old(self)@),
            game_wf(game@),
        ensures
            store_wf(final(self)@),
            final(self)@.users == old(self)@.users,
            if game_exists(old(self)@, game@.id) {
                r is Err && final(self)@.games == old(self)@.games
            } else {
                r is Ok && final(self)@.games == old(self)@.games.push(game@)
            },
    {
        let n = self.games.len();
        let mut i: usize = 0;
        while i < n
            invariant
                i <= n,
                n == self@.games.len(),
                self == old(self),
                store_wf(self@),
                forall|j: int| 0 <= j < i ==> self@.games[j].id != game@.id,
            decreases n - i,
        {
            if self.games[i].id == game.id {
                proof {
                    assert(self@.games[i as int].id == game@.id);
                }
                return Err(crate::session::StoreFailed);
            }
            i = i + 1;
        }
        let ghost prev = self@;
        self.games.push(game);
        proof {
            assert(self@.games =~= prev.games.push(game@));
            assert(self@.users =~= prev.users);
        }
        Ok(())
    }

    /// `InsertUser`: appends a new account. The identity must be fresh.
    pub fn insert_user(&mut self, user: User)
        requires
            store_wf(old(self)@),
            !user_exists(old(self)@, user@.id),
        ensures
            store_wf(final(self)@),
            final(self)@.games == old(self)@.games,
            final(self)@.users == old(self)@.users.push(user@),
    {
        let ghost prev = self@;
        self.users.push(user);
        proof {
            assert(self@.users =~= prev.users.push(user@));
            assert(self@.games =~= prev.games);
        }
    }

    /// `AppendPlayerIfEligible`: the conditional append behind `Register`.
    /// The filter re-checks eligibility atomically with the append, which is
    /// what makes registration race-safe.
    pub fn append_player_if_eligible(&mut self, gid: Id, caller: Id, player: Player) -> (r:
        UpdateOutcome)
        requires
            store_wf(old(self)@),
            player@.id == caller,
        ensures
            store_wf(final(self)@),
            final(self)@.users == old(self)@.users,
            if can_register(old(self)@, gid, caller) {
                r == (UpdateOutcome { matched: 1, modified: 1 }) && final(self)@.games
                    =~= register_applied(old(self)@, gid, caller, player@).games
            } else {
                r == (UpdateOutcome { matched: 0, modified: 0 }) && final(self)@.games == old(
                    self,
                )@.games
            },
    {
        let n = self.games.len();
        let mut i: usize = 0;
        while i < n
            invariant
                i <= n,
                n == self@.games.len(),
                self == old(self),
                store_wf(self@),
                player@.id == caller,
                forall|j: int| 0 <= j < i ==> !register_filter(self@.games[j], gid, caller),
            decreases n - i,
        {
            let eligible = {
                let candidate = &self.games[i];
                proof {
                    assert(self@.games[i as int] == candidate@);
                }
                candidate.id == gid && !(candidate.creator == caller) && find_player(
                    candidate,
                    caller,
                ).is_none()
            };
            if eligible {
                let ghost prev = self@;
                proof {
                    assert(register_filter(prev.games[i as int], gid, caller));
                    assert(can_register(prev, gid, caller));
                    lemma_unique_game(prev, i as int, register_idx(prev, gid, caller));
                }
                let g = &mut self.games[i];
                let ghost g_before = *g;
                g.players.push(player);
                proof {
                    assert(g.players@ =~= g_before.players@.push(player));
                    assert(g@ =~= push_player(g_before@, player@));
                    assert(g_before@ == prev.games[i as int]);
                    assert(self@.games =~= prev.games.update(
                        i as int,
                        push_player(prev.games[i as int], player@),
                    ));
                    assert(self@.users =~= prev.users);
                    assert(game_wf(self@.games[i as int])) by {
                        let ng = self@.games[i as int];
                        let og = prev.games[i as int];
                        assert(forall|k: int|
                            0 <= k < og.players.len() ==> ng.players[k] == og.players[k]);
                        assert(ng.players[og.players.len() as int].id == caller);
                    }
                    assert(store_wf(self@));
                }
                return UpdateOutcome { matched: 1, modified: 1 };
            }
            i = i + 1;
        }
        UpdateOutcome { matched: 0, modified: 0 }
    }

    /// `AppendGuessIfPlayerPresent`: the conditional append behind `Play`.
    /// The filter only re-checks that the player is still registered; it does
    /// not compare against the state the guess was evaluated on.
    pub fn append_guess_if_player_present(&mut self, gid: Id, pid: Id, guess: Guess) -> (r:
        UpdateOutcome)
        requires
            store_wf(old(self)@),
        ensures
            store_wf(final(self)@),
            final(self)@.users == old(self)@.users,
            if can_play(old(self)@, gid, pid) {
                r == (UpdateOutcome { matched: 1, modified: 1 }) && final(self)@.games
                    =~= play_applied(old(self)@, gid, pid, guess@).games
            } else {
                r == (UpdateOutcome { matched: 0, modified: 0 }) && final(self)@.games == old(
                    self,
                )@.games
            },
    {
        let n = self.games.len();
        let mut i: usize = 0;
        while i < n
            invariant
                i <= n,
                n == self@.games.len(),
                self == old(self),
                store_wf(self@),
                forall|j: int| 0 <= j < i ==> !play_filter(self@.games[j], gid, pid),
            decreases n - i,
        {
            let matched = {
                let candidate = &self.games[i];
                proof {
                    assert(self@.games[i as int] == candidate@);
                }
                candidate.id == gid && find_player(candidate, pid).is_some()
            };
            if matched {
                let ghost prev = self@;
                proof {
                    assert(play_filter(prev.games[i as int], gid, pid));
                    assert(can_play(prev, gid, pid));
                    lemma_unique_game(prev, i as int, play_idx(prev, gid, pid));
                }
                let found = match find_player_index(&self.games[i], pid) {
                    Some(j) => j,
                    None => {
                        proof {
                            assert(has_player(prev.games[i as int], pid));
                            assert(false);
                        }
                        0
                    },
                };
                proof {
                    assert(prev.games[i as int].players[found as int].id == pid);
                    lemma_unique_player(
                        prev.games[i as int],
                        found as int,
                        player_idx(prev.games[i as int], pid),
                    );
                }
                let g = &mut self.games[i];
                let ghost g_before = *g;
                let p = &mut g.players[found];
                let ghost p_before = *p;
                p.guesses.push(guess);
                proof {
                    assert(p.guesses@ =~= p_before.guesses@.push(guess));
                    assert(p@ =~= (PlayerView {
                        guesses: p_before@.guesses.push(guess@),
                        ..p_before@
                    }));
                    assert(g_before@ == prev.games[i as int]);
                    assert(g@ =~= push_guess(prev.games[i as int], pid, guess@));
                    assert(self@.games =~= prev.games.update(
                        i as int,
                        push_guess(prev.games[i as int], pid, guess@),
                    ));
                    assert(self@.users =~= prev.users);
                    assert(game_wf(self@.games[i as int])) by {
                        let ng = self@.games[i as int];
                        let og = prev.games[i as int];
                        assert(ng.players.len() == og.players.len());
                        assert(forall|k: int|
                            0 <= k < og.players.len() ==> ng.players[k].id == og.players[k].id);
                    }
                    assert(store_wf(self@));
                }
                return UpdateOutcome { matched: 1, modified: 1 };
            }
            i = i + 1;
        }
        UpdateOutcome { matched: 0, modified: 0 }
    }

    /// `Register` run against the model store: look the caller's account up,
    /// build their player entry, and append it under the eligibility filter.
    pub fn register(&mut self, game_id: Id, caller: Id) -> (r: Result<(), ApiError>)
        requires
            store_wf(old(self)@),
        ensures
            store_wf(final(self)@),
            final(self)@.users == old(self)@.users,
            !user_exists(old(self)@, caller) ==> r == Err::<(), ApiError>(ApiError::Unauthorized)
                && final(self)@.games == old(self)@.games,
            user_exists(old(self)@, caller) && !can_register(old(self)@, game_id, caller) ==> r
                == Err::<(), ApiError>(ApiError::NotFound) && final(self)@.games == old(
                self,
            )@.games,
            user_exists(old(self)@, caller) && can_register(old(self)@, game_id, caller) ==> r
                == Ok::<(), ApiError>(()) && exists|t: u64|
                final(self)@.games =~= register_applied(
                    old(self)@,
                    game_id,
                    caller,
                    PlayerView {
                        id: caller,
                        name: user_named(old(self)@, caller),
                        start_time: t,
                        guesses: Seq::empty(),
                    },
                ).games,
    {
        let user = match self.find_user(caller) {
            None => {
                return Err(ApiError::Unauthorized);
            },
            Some(u) => u.clone(),
        };
        proof {
            let i = choose|i: int|
                0 <= i < self@.users.len() && self@.users[i] == user@;
            let k = choose|k: int|
                0 <= k < self@.users.len() && self@.users[k].id == caller;
            lemma_unique_user(self@, i, k);
            assert(user@.name == user_named(self@, caller));
        }
        let player = new_player(&user);
        let ghost t = player@.start_time;
        proof {
            assert(player@ =~= (PlayerView {
                id: caller,
                name: user_named(self@, caller),
                start_time: t,
                guesses: Seq::empty(),
            }));
        }
        let outcome = self.append_player_if_eligible(game_id, caller, player);
        register_conclude(Ok(outcome))
    }

    /// `Play` run against the model store: fetch the game the caller is
    /// registered in, score the guess against its answer, and append the
    /// scored record under the registration filter. The guess must be as
    /// long as that game's answer; that is the caller's obligation.
    pub fn play(&mut self, game_id: Id, caller: Id, guess: Vec<char>) -> (r: Result<
        PlayResponse,
        ApiError,
    >)
        requires
            store_wf(old(self)@),
            can_play(old(self)@, game_id, caller) ==> guess@.len() == play_answer(
                old(self)@,
                game_id,
                caller,
            ).len(),
        ensures
            store_wf(final(self)@),
            final(self)@.users == old(self)@.users,
            !can_play(old(self)@, game_id, caller) ==> r == Err::<PlayResponse, ApiError>(
                ApiError::NotFound,
            ) && final(self)@.games == old(self)@.games,
            can_play(old(self)@, game_id, caller) ==> {
                let answer = play_answer(old(self)@, game_id, caller);
                r matches Ok(resp) && resp.game_over == complete(answer, guess@) && resp.guess@
                    == scored(answer, guess@) && exists|t: u64|
                    final(self)@.games =~= play_applied(
                        old(self)@,
                        game_id,
                        caller,
                        GuessView { guess: scored(answer, guess@), submit_time: t },
                    ).games
            },
    {
        let game = match self.find_game_by_player(game_id, caller) {
            None => {
                return Err(ApiError::NotFound);
            },
            Some(g) => g.clone(),
        };
        proof {
            let i = choose|i: int|
                0 <= i < self@.games.len() && self@.games[i] == game@;
            lemma_unique_game(self@, i, play_idx(self@, game_id, caller));
            assert(game@.answer == play_answer(self@, game_id, caller));
        }
        let (resp, record) = play_prepare(&game, guess);
        let outcome = self.append_guess_if_player_present(game_id, caller, record);
        play_conclude(Ok(outcome), resp)
    }

    /// A player's read-side state, fetched under `Play`'s filter.
    pub fn get_state(&self, game_id: Id, caller: Id) -> (r: Result<GetStateResponse, ApiError>)
        requires
            store_wf(self@),
        ensures
            !can_play(self@, game_id, caller) ==> r == Err::<GetStateResponse, ApiError>(
                ApiError::NotFound,
            ),
            can_play(self@, game_id, caller) ==> {
                let guesses = play_guesses(self@, game_id, caller);
                r matches Ok(state) && state.game_over == game_over_spec(guesses)
                    && state.guesses@.map_values(|row: Vec<(char, crate::game::Correctness)>| row@)
                    == guesses.map_values(|g: GuessView| g.guess)
            },
    {
        let game = match self.find_game_by_player(game_id, caller) {
            None => {
                return Err(ApiError::NotFound);
            },
            Some(g) => g,
        };
        proof {
            let i = choose|i: int|
                0 <= i < self@.games.len() && self@.games[i] == game@;
            lemma_unique_game(self@, i, play_idx(self@, game_id, caller));
        }
        match find_player(game, caller) {
            // The fetch filter guarantees the player is present, so this arm
            // is provably unreachable.
            None => {
                proof {
                    assert(false);
                }
                Err(ApiError::Internal)
            },
            Some(player) => {
                proof {
                    let j = choose|j: int|
                        0 <= j < game@.players.len() && game@.players[j] == player@
                            && player@.id == caller;
                    lemma_unique_player(game@, j, player_idx(game@, caller));
                    assert(player@.guesses == play_guesses(self@, game_id, caller));
                }
                Ok(state_view(player))
            },
        }
    }

    /// The creator's management view, fetched under the creator filter.
    pub fn manage_game(&self, game_id: Id, caller: Id) -> (r: Result<
        ManageGameResponse,
        ApiError,
    >)
        requires
            store_wf(self@),
        ensures
            !user_exists(self@, caller) ==> r == Err::<ManageGameResponse, ApiError>(
                ApiError::Unauthorized,
            ),
            user_exists(self@, caller) && !(exists|i: int|
                0 <= i < self@.games.len() && creator_filter(self@.games[i], game_id, caller))
                ==> r == Err::<ManageGameResponse, ApiError>(ApiError::NotFound),
            user_exists(self@, caller) && (exists|i: int|
                0 <= i < self@.games.len() && creator_filter(self@.games[i], game_id, caller))
                ==> {
                let g = self@.games[choose|i: int|
                    0 <= i < self@.games.len() && creator_filter(self@.games[i], game_id, caller)];
                r matches Ok(view) && view.start_time == g.start_time && view.answer@ == g.answer
                    && view.players@.map_values(|p: crate::game::PlayerResponse| p@)
                    == g.players.map_values(|p: PlayerView| crate::game::response_of(p))
            },
    {
        if self.find_user(caller).is_none() {
            return Err(ApiError::Unauthorized);
        }
        match self.find_game_by_creator(game_id, caller) {
            None => Err(ApiError::NotFound),
            Some(game) => {
                proof {
                    let i = choose|i: int|
                        0 <= i < self@.games.len() && self@.games[i] == game@;
                    let k = choose|k: int|
                        0 <= k < self@.games.len() && creator_filter(
                            self@.games[k],
                            game_id,
                            caller,
                        );
                    lemma_unique_game(self@, i, k);
                }
                Ok(manage_view(game))
            },
        }
    }

    /// Game creation run against the model store: build the game and insert
    /// it. The insert fails only when the freshly drawn identity collides
    /// with an existing one, so on a store without games it always succeeds.
    pub fn create_game(&mut self, caller: Id, req: CreateGameRequest) -> (r: Result<
        CreateGameResponse,
        ApiError,
    >)
        requires
            store_wf(old(self)@),
        ensures
            store_wf(final(self)@),
            final(self)@.users == old(self)@.users,
            r is Err ==> old(self)@.games.len() > 0,
            match r {
                Ok(resp) => exists|id: Id, t: u64|
                    final(self)@.games =~= old(self)@.games.push(
                        GameView {
                            id,
                            start_time: t,
                            creator: caller,
                            players: Seq::empty(),
                            answer: req.answer@,
                        },
                    ) && resp.game_id@.len() == 24 && #[trigger] hex_seq_val(
                        resp.game_id@.take(16),
                    ) == id.hi as int && hex_seq_val(resp.game_id@.skip(16)) == id.lo as int,
                Err(e) => e == ApiError::Internal && final(self)@.games == old(self)@.games,
            },
    {
        let ghost answer = req.answer@;
        let game = create_prepare(req, caller);
        let keep = game.clone();
        let outcome = self.insert_game(game);
        let r = create_conclude(outcome, &keep);
        proof {
            if outcome is Ok {
                assert(self@.games =~= old(self)@.games.push(
                    GameView {
                        id: keep@.id,
                        start_time: keep@.start_time,
                        creator: caller,
                        players: Seq::empty(),
                        answer,
                    },
                ));
            }
        }
        r
    }
}

/// Registration by the game's own creator never passes the eligibility
/// filter: it always ends in `NotFound`.
pub proof fn lemma_register_by_creator_excluded(s: StoreView, gid: Id, caller: Id, i: int)
    requires
        store_wf(s),
        0 <= i < s.games.len(),
        s.games[i].id == gid,
        s.games[i].creator == caller,
    ensures
        !can_register(s, gid, caller),
{
    assert forall|j: int| 0 <= j < s.games.len() implies !register_filter(
        s.games[j],
        gid,
        caller,
    ) by {
        if s.games[j].id == gid {
            lemma_unique_game(s, i, j);
        }
    }
}

/// Registration is exclusive, not additive: once an identity's player entry
/// is appended, the eligibility filter can never match for that identity
/// again, so a second registration ends in `NotFound`.
pub proof fn lemma_register_exclusive(s: StoreView, gid: Id, caller: Id, p: PlayerView)
    requires
        store_wf(s),
        can_register(s, gid, caller),
        p.id == caller,
    ensures
        !can_register(register_applied(s, gid, caller, p), gid, caller),
{
    let i = register_idx(s, gid, caller);
    let s2 = register_applied(s, gid, caller, p);
    assert(register_filter(s.games[i], gid, caller));
    assert(s2.games[i] == push_player(s.games[i], p));
    assert(s2.games[i].players.last().id == caller);
    assert(has_player(s2.games[i], caller));
    assert forall|j: int| 0 <= j < s2.games.len() implies !register_filter(
        s2.games[j],
        gid,
        caller,
    ) by {
        if j != i {
            assert(s2.games[j] == s.games[j]);
            if s.games[j].id == gid {
                lemma_unique_game(s, i, j);
            }
        }
    }
}

/// The documented race of `Play`: its append re-checks only that the player
/// is still registered, never what was read. So when two submissions for the
/// same player both pass the read step, both appends are accepted, and the
/// player's history gains both guesses from one logical turn.
pub proof fn lemma_double_play_race(s: StoreView, gid: Id, pid: Id, g1: GuessView, g2: GuessView)
    requires
        store_wf(s),
        can_play(s, gid, pid),
    ensures
        can_play(play_applied(s, gid, pid, g1), gid, pid),
        play_guesses(play_applied(play_applied(s, gid, pid, g1), gid, pid, g2), gid, pid)
            =~= play_guesses(s, gid, pid).push(g1).push(g2),
{
    let i = play_idx(s, gid, pid);
    let g = s.games[i];
    let j = player_idx(g, pid);
    assert(play_filter(g, gid, pid));
    assert(g.players[j].id == pid);

    let s1 = play_applied(s, gid, pid, g1);
    let ng = push_guess(g, pid, g1);
    assert(s1.games[i] == ng);
    assert(ng.players[j].id == pid);
    assert(has_player(ng, pid));
    assert(play_filter(ng, gid, pid));
    assert(can_play(s1, gid, pid));

    assert(store_wf(s1)) by {
        assert(forall|k: int| 0 <= k < s1.games.len() && k != i ==> s1.games[k] == s.games[k]);
        assert(ng.players.len() == g.players.len());
        assert(forall|k: int|
            0 <= k < g.players.len() ==> ng.players[k].id == g.players[k].id);
        assert(game_wf(ng));
    }

    let i1 = play_idx(s1, gid, pid);
    assert(play_filter(s1.games[i1], gid, pid));
    if i1 != i {
        assert(s1.games[i1] == s.games[i1]);
        lemma_unique_game(s, i, i1);
    }
    assert(i1 == i);

    let j1 = player_idx(ng, pid);
    lemma_unique_player(ng, j, j1);
    assert(j1 == j);

    let s2 = play_applied(s1, gid, pid, g2);
    let ng2 = push_guess(ng, pid, g2);
    assert(s2.games[i] == ng2);
    assert(ng2.players[j].guesses =~= g.players[j].guesses.push(g1).push(g2));

    let i2 = play_idx(s2, gid, pid);
    assert(play_filter(s2.games[i2], gid, pid));
    assert(ng2.players[j].id == pid);
    assert(play_filter(ng2, gid, pid));
    if i2 != i {
        assert(s2.games[i2] == s1.games[i2] && s1.games[i2] == s.games[i2]);
        lemma_unique_game(s, i, i2);
    }
    let j2 = player_idx(ng2, pid);
    assert(game_wf(ng2)) by {
        assert(ng2.players.len() == g.players.len());
        assert(forall|k: int|
            0 <= k < g.players.len() ==> ng2.players[k].id == g.players[k].id);
    }
    lemma_unique_player(ng2, j, j2);
    assert(play_guesses(s2, gid, pid) == ng2.players[j].guesses);
}

} // verus!
