//! Scenarios for the guess evaluator.

use wordle::evaluate::eval;
use wordle::game::Correctness;

fn chars(s: &str) -> Vec<char> {
    s.chars().collect()
}

#[test]
fn eval_equal_guess_is_all_correct_and_complete() {
    let resp = eval(chars("crate"), chars("crate"));
    assert!(resp.game_over);
    assert_eq!(resp.guess.len(), 5);
    for (i, ch) in "crate".chars().enumerate() {
        assert_eq!(resp.guess[i].0, ch);
        assert!(matches!(resp.guess[i].1, Correctness::Correct));
    }
}

#[test]
fn eval_differing_guess_is_incomplete() {
    let resp = eval(chars("crate"), chars("trace"));
    assert!(!resp.game_over);
}

#[test]
fn eval_scenario_crate_trace() {
    let resp = eval(chars("crate"), chars("trace"));
    assert!(!resp.game_over);
    let expected = vec![
        ('t', Correctness::IncorrectPosition),
        ('r', Correctness::Correct),
        ('a', Correctness::Correct),
        ('c', Correctness::IncorrectPosition),
        ('e', Correctness::Correct),
    ];
    assert_eq!(resp.guess, expected);
}

#[test]
fn eval_scenario_duplicate_budget_not_capped() {
    let resp = eval(chars("aabb"), chars("aaaa"));
    assert!(!resp.game_over);
    let expected = vec![
        ('a', Correctness::Correct),
        ('a', Correctness::Correct),
        ('a', Correctness::IncorrectPosition),
        ('a', Correctness::IncorrectPosition),
    ];
    assert_eq!(resp.guess, expected);
}

#[test]
fn eval_matching_position_is_correct_despite_duplicates() {
    let resp = eval(chars("abca"), chars("aaaa"));
    assert!(matches!(resp.guess[0].1, Correctness::Correct));
    assert!(matches!(resp.guess[3].1, Correctness::Correct));
    assert!(matches!(resp.guess[1].1, Correctness::IncorrectPosition));
    assert!(matches!(resp.guess[2].1, Correctness::IncorrectPosition));
}

#[test]
fn eval_absent_letters_are_incorrect() {
    let resp = eval(chars("abc"), chars("xyz"));
    assert!(!resp.game_over);
    for mark in &resp.guess {
        assert!(matches!(mark.1, Correctness::Incorrect));
    }
}

#[test]
fn eval_is_case_sensitive() {
    let resp = eval(chars("abc"), chars("Abc"));
    assert!(!resp.game_over);
    assert!(matches!(resp.guess[0].1, Correctness::Incorrect));
    assert!(matches!(resp.guess[1].1, Correctness::Correct));
    assert!(matches!(resp.guess[2].1, Correctness::Correct));
}
