use regex::Regex;
use sveio::game::{
    guess, guess_at, is_valid_username, join, join_at, GameOptions, JoinError, MAX_USERNAME_LEN,
};
use sveio::packets::{GameMetadataMessage, GuessPacket};
use sveio::state::{GameState, Player};

fn state() -> GameState {
    GameState::new(GameOptions { guess_time: 7, showcase_time: 3 })
}

#[test]
fn valid_usernames_are_accepted() {
    for name in ["a", "Alice", "bob_42", "with space", "dash-ed", "_", "-", " ", "0", "Zz9 _-"] {
        assert!(is_valid_username(&name.to_string()), "{name:?}");
    }
    assert!(is_valid_username(&"x".repeat(32)));
}

#[test]
fn bad_usernames_are_refused() {
    for name in ["", "Ålice", "semi;colon", "tab\there", "new\nline", "Alice\n", "a.b", "a@b", "é"]
    {
        assert!(!is_valid_username(&name.to_string()), "{name:?}");
    }
    assert!(!is_valid_username(&"x".repeat(33)));
    assert!(!is_valid_username(&"x".repeat(1000)));
}

#[test]
fn username_rules_agree_with_the_pattern() {
    let pattern = Regex::new(r"^[A-Za-z0-9 _-]{1,32}$").unwrap();
    let mut names: Vec<String> = Vec::new();
    for code in 0u32..=0x250 {
        if let Some(c) = char::from_u32(code) {
            names.push(c.to_string());
            names.push(format!("a{c}"));
            names.push(format!("{c}b"));
        }
    }
    for len in 0..=40 {
        names.push("n".repeat(len));
        names.push(format!("{}!", "n".repeat(len)));
    }
    for name in names {
        assert_eq!(is_valid_username(&name), pattern.is_match(&name), "{name:?}");
    }
}

#[test]
fn longest_username_is_thirty_two_characters() {
    assert_eq!(MAX_USERNAME_LEN, 32);
}

#[test]
fn join_admits_and_tells_the_window_lengths() {
    let mut state = state();
    let answer = join_at(&mut state, 1, "Alice".to_string(), 1000);
    assert_eq!(answer, Ok(GameMetadataMessage { guess_time: 7, showcase_time: 3 }));
    assert_eq!(
        state.get_player(1),
        Some(Player { username: "Alice".to_string(), score: 0, last_packet: 1000 })
    );
    assert_eq!(state.get_players().len(), 1);
}

#[test]
fn join_with_bad_username_changes_nothing() {
    let mut state = state();
    assert_eq!(join_at(&mut state, 1, "".to_string(), 0), Err(JoinError::BadUsername));
    assert_eq!(join_at(&mut state, 1, "no!".to_string(), 0), Err(JoinError::BadUsername));
    assert_eq!(join_at(&mut state, 1, "x".repeat(33), 0), Err(JoinError::BadUsername));
    assert!(state.get_players().is_empty());
    assert!(state.get_guesses().is_empty());
}

#[test]
fn second_alice_is_refused() {
    let mut state = state();
    assert!(join_at(&mut state, 1, "Alice".to_string(), 10).is_ok());
    assert_eq!(join_at(&mut state, 2, "Alice".to_string(), 20), Err(JoinError::UsernameTaken));
    assert_eq!(JoinError::UsernameTaken.kick().message, "Username taken");
    let players = state.get_players();
    assert_eq!(players.len(), 1);
    assert_eq!(players.values().filter(|p| p.username == "Alice").count(), 1);
    assert_eq!(state.get_player(2), None);
    assert_eq!(
        state.get_player(1),
        Some(Player { username: "Alice".to_string(), score: 0, last_packet: 10 })
    );
}

#[test]
fn the_format_is_checked_before_the_name_is_looked_up() {
    let mut state = state();
    state.insert_player(1, Player { username: "bad name!".to_string(), score: 0, last_packet: 0 });
    assert_eq!(join_at(&mut state, 2, "bad name!".to_string(), 0), Err(JoinError::BadUsername));
}

#[test]
fn names_differing_in_case_are_different() {
    let mut state = state();
    assert!(join_at(&mut state, 1, "Alice".to_string(), 0).is_ok());
    assert!(join_at(&mut state, 2, "alice".to_string(), 0).is_ok());
    assert!(join_at(&mut state, 3, "ALICE".to_string(), 0).is_ok());
    assert_eq!(state.get_players().len(), 3);
}

#[test]
fn joins_with_distinct_names_all_succeed() {
    let mut state = state();
    for sid in 0..50u128 {
        assert!(join_at(&mut state, sid, format!("player {sid}"), 0).is_ok());
    }
    assert_eq!(state.get_players().len(), 50);
    for sid in 0..20u128 {
        state.remove_player(sid);
    }
    assert_eq!(state.get_players().len(), 30);
    for sid in 0..20u128 {
        assert!(join_at(&mut state, 100 + sid, format!("player {sid}"), 0).is_ok());
    }
    assert_eq!(state.get_players().len(), 50);
}

#[test]
fn a_freed_name_can_be_taken_again() {
    let mut state = state();
    assert!(join_at(&mut state, 1, "Alice".to_string(), 0).is_ok());
    state.remove_player(1);
    assert!(join_at(&mut state, 2, "Alice".to_string(), 0).is_ok());
    assert_eq!(state.get_players().len(), 1);
}

#[test]
fn join_by_the_clock_stamps_the_player() {
    let mut state = state();
    assert!(join(&mut state, 1, "Alice".to_string()).is_ok());
    let player = state.get_player(1).unwrap();
    assert_eq!(player.username, "Alice");
    assert_eq!(player.score, 0);
    assert!(player.last_packet > 1_577_836_800_000);
    assert_eq!(join(&mut state, 2, "Alice".to_string()), Err(JoinError::UsernameTaken));
    assert_eq!(join(&mut state, 2, "".to_string()), Err(JoinError::BadUsername));
    assert_eq!(state.get_players().len(), 1);
}

#[test]
fn refusals_carry_their_reason() {
    assert_eq!(JoinError::BadUsername.kick().message, "Bad username");
    assert_eq!(JoinError::UsernameTaken.kick().message, "Username taken");
}

#[test]
fn a_guess_is_stored_and_marks_the_player_alive() {
    let mut state = state();
    assert!(join_at(&mut state, 1, "Alice".to_string(), 10).is_ok());
    let first = GuessPacket { lat: 1.5f32.to_bits(), long: 2.5f32.to_bits() };
    let second = GuessPacket { lat: 3.5f32.to_bits(), long: 4.5f32.to_bits() };
    guess_at(&mut state, 1, first, 500);
    assert_eq!(state.get_guesses().get(&1), Some(&first));
    assert_eq!(state.get_player(1).unwrap().last_packet, 500);
    guess_at(&mut state, 1, second, 900);
    assert_eq!(state.get_guesses().len(), 1);
    assert_eq!(state.get_guesses().get(&1), Some(&second));
    assert_eq!(state.get_player(1).unwrap().last_packet, 900);
    assert_eq!(state.get_player(1).unwrap().score, 0);
}

#[test]
fn a_guess_without_a_player_is_kept_but_adds_nobody() {
    let mut state = state();
    let sent = GuessPacket { lat: 0, long: 0 };
    guess_at(&mut state, 5, sent, 500);
    guess(&mut state, 6, sent);
    assert_eq!(state.get_guesses().len(), 2);
    assert!(state.get_players().is_empty());
}

#[test]
fn a_guess_by_the_clock_marks_the_player_alive() {
    let mut state = state();
    assert!(join_at(&mut state, 1, "Alice".to_string(), 10).is_ok());
    let sent = GuessPacket { lat: 7, long: 8 };
    guess(&mut state, 1, sent);
    assert_eq!(state.get_guesses().get(&1), Some(&sent));
    assert!(state.get_player(1).unwrap().last_packet > 1_577_836_800_000);
}
