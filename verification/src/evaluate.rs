//! The guess evaluator and its letter-index model.
//!
//! A word is modelled by its letter index: the map from each letter to the
//! set of positions it occupies. A guess is scored position by position
//! against the answer's index: a position whose letter matches the answer's
//! letter there is `Correct`; otherwise, if the letter occurs anywhere in the
//! answer, the position is `IncorrectPosition` (deliberately without a
//! per-letter budget for duplicates); otherwise it is `Incorrect`. The
//! completion flag is exactly letter-placement equality of guess and answer.

use vstd::prelude::*;

use crate::game::{Correctness, PlayResponse};

verus! {

/// The set of positions of `s` that hold the letter `ch`.
pub open spec fn positions_of(s: Seq<char>, ch: char) -> Set<int> {
    Set::new(|i: int| 0 <= i < s.len() && s[i] == ch)
}

/// The letter index of `s`: each letter mapped to the set of positions it
/// occupies (the empty set for letters absent from `s`).
pub open spec fn letter_index(s: Seq<char>) -> Map<char, Set<int>> {
    Map::total(|ch: char| positions_of(s, ch))
}

/// True when `ch` occurs somewhere in `s`.
pub open spec fn occurs(s: Seq<char>, ch: char) -> bool {
    exists|i: int| 0 <= i < s.len() && s[i] == ch
}

/// The verdict for position `p` of `guess` scored against `answer`.
pub open spec fn verdict(answer: Seq<char>, guess: Seq<char>, p: int) -> Correctness {
    if answer[p] == guess[p] {
        Correctness::Correct
    } else if occurs(answer, guess[p]) {
        Correctness::IncorrectPosition
    } else {
        Correctness::Incorrect
    }
}

/// The full scored row for `guess` against `answer`: each guessed letter
/// paired with its verdict.
pub open spec fn scored(answer: Seq<char>, guess: Seq<char>) -> Seq<(char, Correctness)> {
    Seq::new(guess.len(), |p: int| (guess[p], verdict(answer, guess, p)))
}

/// The completion flag: the guess names the answer exactly.
pub open spec fn complete(answer: Seq<char>, guess: Seq<char>) -> bool {
    guess == answer
}

/// Returns whether `ch` occurs in `s`.
fn contains_char(s: &Vec<char>, ch: char) -> (b: bool)
    ensures
        b == occurs(s@, ch),
{
    let n = s.len();
    let mut i: usize = 0;
    while i < n
        invariant
            i <= n,
            n == s@.len(),
            forall|j: int| 0 <= j < i ==> s@[j] != ch,
        decreases n - i,
    {
        if s[i] == ch {
            return true;
        }
        i = i + 1;
    }
    false
}

/// Scores `guess` against `answer`, letter by letter and case-sensitively.
/// The lengths must agree; that is the caller's obligation.
pub fn eval(answer: Vec<char>, guess: Vec<char>) -> (resp: PlayResponse)
    requires
        answer@.len() == guess@.len(),
    ensures
        resp.game_over == complete(answer@, guess@),
        resp.guess@ == scored(answer@, guess@),
{
    let n = guess.len();
    let mut marks: Vec<(char, Correctness)> = Vec::new();
    let mut all_eq = true;
    let mut p: usize = 0;
    while p < n
        invariant
            p <= n,
            n == guess@.len(),
            answer@.len() == guess@.len(),
            marks@.len() == p,
            forall|j: int| 0 <= j < p ==> marks@[j] == (guess@[j], verdict(answer@, guess@, j)),
            all_eq == (forall|j: int| 0 <= j < p ==> answer@[j] == guess@[j]),
        decreases n - p,
    {
        let gch = guess[p];
        let ach = answer[p];
        let c = if ach == gch {
            Correctness::Correct
        } else if contains_char(&answer, gch) {
            Correctness::IncorrectPosition
        } else {
            Correctness::Incorrect
        };
        if ach != gch {
            all_eq = false;
        }
        marks.push((gch, c));
        p = p + 1;
    }
    proof {
        assert(marks@ =~= scored(answer@, guess@));
        if all_eq {
            assert(guess@ =~= answer@);
        }
    }
    PlayResponse { game_over: all_eq, guess: marks }
}

/// A guess that names the answer position for position is scored all
/// `Correct` and is complete.
pub proof fn lemma_equal_guess_all_correct(answer: Seq<char>, guess: Seq<char>)
    requires
        guess =~= answer,
    ensures
        complete(answer, guess),
        forall|p: int| 0 <= p < guess.len() ==> verdict(answer, guess, p) == Correctness::Correct,
{
}

/// A guess that differs from the answer anywhere is not complete.
pub proof fn lemma_differing_guess_incomplete(answer: Seq<char>, guess: Seq<char>)
    requires
        !(guess =~= answer),
    ensures
        !complete(answer, guess),
{
}

/// A letter standing at the same position in guess and answer makes that
/// position `Correct`, whatever its other occurrences are.
pub proof fn lemma_matching_position_correct(
    answer: Seq<char>,
    guess: Seq<char>,
    ch: char,
    p: int,
)
    requires
        0 <= p < guess.len(),
        0 <= p < answer.len(),
        guess[p] == ch,
        answer[p] == ch,
    ensures
        verdict(answer, guess, p) == Correctness::Correct,
{
}

/// A letter occurs in a word exactly when the word's letter index maps it
/// to a non-empty set of positions.
pub proof fn lemma_occurs_iff_indexed(s: Seq<char>, ch: char)
    ensures
        occurs(s, ch) <==> letter_index(s)[ch] != Set::<int>::empty(),
{
    if occurs(s, ch) {
        let i = choose|i: int| 0 <= i < s.len() && s[i] == ch;
        assert(positions_of(s, ch).contains(i));
        assert(!Set::<int>::empty().contains(i));
    }
    if !occurs(s, ch) {
        assert(positions_of(s, ch) =~= Set::<int>::empty());
    }
}

/// Two letter sequences are identical in letter placement exactly when their
/// letter indices compare equal as mappings.
pub proof fn lemma_index_eq_iff_seq_eq(a: Seq<char>, b: Seq<char>)
    ensures
        letter_index(a) == letter_index(b) <==> a == b,
{
    if letter_index(a) == letter_index(b) {
        assert forall|ch: char| positions_of(a, ch) == positions_of(b, ch) by {
            assert(letter_index(a)[ch] == letter_index(b)[ch]);
        }
        assert(a.len() == b.len()) by {
            if a.len() < b.len() {
                let i = a.len() as int;
                assert(positions_of(b, b[i]).contains(i));
                assert(positions_of(a, b[i]).contains(i));
            } else if b.len() < a.len() {
                let i = b.len() as int;
                assert(positions_of(a, a[i]).contains(i));
                assert(positions_of(b, a[i]).contains(i));
            }
        }
        assert forall|i: int| 0 <= i < a.len() implies a[i] == b[i] by {
            assert(positions_of(a, a[i]).contains(i));
            assert(positions_of(b, a[i]).contains(i));
        }
        assert(a =~= b);
    }
    if a == b {
        assert(letter_index(a) =~= letter_index(b)) by {
            assert forall|ch: char| #[trigger] letter_index(a)[ch] == letter_index(b)[ch] by {
                assert(positions_of(a, ch) =~= positions_of(b, ch));
            }
        }
    }
}

} // verus!
