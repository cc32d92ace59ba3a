//! Scenarios for the terminal-state resolver.

use wordle::game::{Correctness, Guess};
use wordle::session::game_over;

fn wrong_row() -> Vec<(char, Correctness)> {
    vec![('a', Correctness::Incorrect), ('b', Correctness::Correct)]
}

fn right_row() -> Vec<(char, Correctness)> {
    vec![('a', Correctness::Correct), ('b', Correctness::Correct)]
}

fn guess_of(row: Vec<(char, Correctness)>) -> Guess {
    Guess { guess: row, submit_time: 0 }
}

#[test]
fn six_guesses_none_correct_is_over() {
    let guesses: Vec<Guess> = (0..6).map(|_| guess_of(wrong_row())).collect();
    assert!(game_over(&guesses));
}

#[test]
fn third_guess_all_correct_is_over() {
    let guesses = vec![guess_of(wrong_row()), guess_of(wrong_row()), guess_of(right_row())];
    assert!(game_over(&guesses));
}

#[test]
fn two_wrong_guesses_is_not_over() {
    let guesses = vec![guess_of(wrong_row()), guess_of(wrong_row())];
    assert!(!game_over(&guesses));
}

#[test]
fn no_guesses_is_not_over() {
    let guesses: Vec<Guess> = Vec::new();
    assert!(!game_over(&guesses));
}

#[test]
fn winning_guess_buried_in_history_is_not_over() {
    let guesses = vec![guess_of(right_row()), guess_of(wrong_row())];
    assert!(!game_over(&guesses));
}
