use robohand::game::GameState;

fn players(state: &GameState) -> String {
    String::from_utf8(state.players_json()).unwrap()
}

fn status(state: &GameState) -> String {
    String::from_utf8(state.state_json()).unwrap()
}

#[test]
fn who_wins_covers_every_pair() {
    let cases = [
        ("ROCK", "ROCK", "DRAW"),
        ("ROCK", "PAPER", "ROBOT"),
        ("ROCK", "SCISSORS", "PLAYER"),
        ("PAPER", "ROCK", "PLAYER"),
        ("PAPER", "PAPER", "DRAW"),
        ("PAPER", "SCISSORS", "ROBOT"),
        ("SCISSORS", "ROCK", "ROBOT"),
        ("SCISSORS", "PAPER", "PLAYER"),
        ("SCISSORS", "SCISSORS", "DRAW"),
    ];
    for (player, robot, expected) in cases {
        assert_eq!(GameState::who_wins(player, robot), expected, "{} vs {}", player, robot);
    }
}

#[test]
fn who_wins_unknown_gestures() {
    assert_eq!(GameState::who_wins("LIZARD", "ROCK"), "ROBOT");
    assert_eq!(GameState::who_wins("ROCK", "LIZARD"), "ROBOT");
    assert_eq!(GameState::who_wins("LIZARD", "LIZARD"), "DRAW");
    assert_eq!(GameState::who_wins("", ""), "DRAW");
    assert_eq!(GameState::who_wins("rock", "SCISSORS"), "ROBOT");
}

#[test]
fn who_wins_is_symmetric_on_gestures() {
    let gestures = ["ROCK", "PAPER", "SCISSORS"];
    for a in gestures {
        for b in gestures {
            let ab = GameState::who_wins(a, b);
            let ba = GameState::who_wins(b, a);
            assert_eq!(ab == "PLAYER", ba == "ROBOT");
            assert_eq!(ab == "DRAW", a == b);
        }
    }
}

#[test]
fn gesture_codes() {
    assert_eq!(GameState::gesture_to_u8("ROCK"), Some(0));
    assert_eq!(GameState::gesture_to_u8("PAPER"), Some(1));
    assert_eq!(GameState::gesture_to_u8("SCISSORS"), Some(2));
    assert_eq!(GameState::gesture_to_u8("NONE"), None);
    assert_eq!(GameState::gesture_to_u8(""), None);
    assert_eq!(GameState::gesture_to_u8("ROCK "), None);
}

#[test]
fn robot_move_follows_remainder() {
    let state = GameState::new();
    assert_eq!(state.predict_and_play(0, 0), "ROCK");
    assert_eq!(state.predict_and_play(0, 1), "PAPER");
    assert_eq!(state.predict_and_play(0, 2), "SCISSORS");
    assert_eq!(state.predict_and_play(0, 3), "ROCK");
    assert_eq!(state.predict_and_play(7, 3_000_000_001), "PAPER");
    assert_eq!(state.predict_and_play(0, u32::MAX), "ROCK");
}

#[test]
fn new_game_documents() {
    let state = GameState::new();
    assert_eq!(players(&state), "{\"players\":[]}");
    assert_eq!(
        status(&state),
        "{\"score\":0,\"last_player\":\"\",\"last_robot\":\"\",\"last_winner\":\"\"}"
    );
    assert_eq!(state.current_player(), None);
    assert_eq!(state.player_count(), 0);
}

#[test]
fn login_adds_and_selects_players() {
    let mut state = GameState::new();
    state.login("ana");
    assert_eq!(state.current_player(), Some(0));
    state.login("bob");
    assert_eq!(state.current_player(), Some(1));
    state.login("ana");
    assert_eq!(state.current_player(), Some(0));
    assert_eq!(state.player_count(), 2);
    assert_eq!(
        players(&state),
        "{\"players\":[{\"name\":\"ana\",\"score\":0},{\"name\":\"bob\",\"score\":0}]}"
    );
}

#[test]
fn login_twice_is_login_once() {
    let mut once = GameState::new();
    once.login("ana");
    once.login("carl");
    let mut twice = GameState::new();
    twice.login("ana");
    twice.login("carl");
    twice.login("carl");
    assert_eq!(players(&once), players(&twice));
    assert_eq!(once.current_player(), twice.current_player());
}

#[test]
fn login_on_full_roster_selects_last_player() {
    let mut state = GameState::new();
    for i in 0..15 {
        state.login(&format!("p{}", i));
        assert_eq!(state.current_player(), Some(i));
    }
    state.login("late");
    assert_eq!(state.player_count(), 15);
    assert_eq!(state.current_player(), Some(14));
    assert!(!players(&state).contains("late"));
}

#[test]
fn login_with_overlong_name_stores_empty_name() {
    let mut state = GameState::new();
    let long = "abcdefghijklmnopqrstuvwxyz0123456789";
    state.login(long);
    assert_eq!(state.current_player(), Some(0));
    assert_eq!(players(&state), "{\"players\":[{\"name\":\"\",\"score\":0}]}");
    let exact = "abcdefghijklmnopqrstuvwxyz012345";
    state.login(exact);
    assert_eq!(state.current_player(), Some(1));
    assert!(players(&state).contains(exact));
}

#[test]
fn play_without_player_does_nothing() {
    let mut state = GameState::new();
    assert!(state.can_play("ROCK", 0));
    assert!(state.play("ROCK", 0).is_none());
    assert_eq!(players(&state), "{\"players\":[]}");
}

#[test]
fn play_updates_score_history_and_last_round() {
    let mut state = GameState::new();
    state.login("ana");
    // rand 2 -> SCISSORS; ROCK beats it.
    let round = state.play("ROCK", 2).unwrap();
    assert_eq!(round.robot_move, "SCISSORS");
    assert_eq!(round.winner, "PLAYER");
    assert_eq!(
        status(&state),
        "{\"score\":1,\"last_player\":\"ROCK\",\"last_robot\":\"SCISSORS\",\"last_winner\":\"PLAYER\"}"
    );
    // rand 1 -> PAPER; ROCK loses twice.
    state.play("ROCK", 1).unwrap();
    let round = state.play("ROCK", 4).unwrap();
    assert_eq!(round.winner, "ROBOT");
    assert_eq!(
        players(&state),
        "{\"players\":[{\"name\":\"ana\",\"score\":-1}]}"
    );
    // rand 0 -> ROCK; a draw keeps the score.
    let round = state.play("ROCK", 0).unwrap();
    assert_eq!(round.winner, "DRAW");
    assert_eq!(state.history(0), vec![0, 0, 0, 0]);
    assert!(status(&state).starts_with("{\"score\":-1,"));
}

#[test]
fn play_unknown_gesture_loses_and_is_not_recorded() {
    let mut state = GameState::new();
    state.login("ana");
    let round = state.play("NONE", 0).unwrap();
    assert_eq!(round.robot_move, "ROCK");
    assert_eq!(round.winner, "ROBOT");
    assert_eq!(state.history(0), Vec::<u8>::new());
    assert_eq!(
        status(&state),
        "{\"score\":-1,\"last_player\":\"NONE\",\"last_robot\":\"ROCK\",\"last_winner\":\"ROBOT\"}"
    );
}

#[test]
fn play_with_overlong_gesture_keeps_empty_label() {
    let mut state = GameState::new();
    state.login("ana");
    state.play("SCISSORSSCISSORS!", 1).unwrap();
    assert_eq!(
        status(&state),
        "{\"score\":-1,\"last_player\":\"\",\"last_robot\":\"PAPER\",\"last_winner\":\"ROBOT\"}"
    );
}

#[test]
fn history_stops_at_thirty_gestures() {
    let mut state = GameState::new();
    state.login("ana");
    for i in 0..35u32 {
        state.play("PAPER", i).unwrap();
    }
    let h = state.history(0);
    assert_eq!(h.len(), 30);
    assert!(h.iter().all(|&c| c == 1));
}

#[test]
fn round_changes_only_current_player() {
    let mut state = GameState::new();
    state.login("ana");
    state.play("PAPER", 0).unwrap();
    state.login("bob");
    state.play("SCISSORS", 0).unwrap();
    assert_eq!(
        players(&state),
        "{\"players\":[{\"name\":\"ana\",\"score\":1},{\"name\":\"bob\",\"score\":-1}]}"
    );
    assert_eq!(state.history(0), vec![1]);
    assert_eq!(state.history(1), vec![2]);
}

#[test]
fn players_document_lists_in_roster_order() {
    let mut state = GameState::new();
    state.login("x");
    state.login("y");
    state.login("z");
    state.login("y");
    state.play("ROCK", 2).unwrap();
    assert_eq!(
        players(&state),
        "{\"players\":[{\"name\":\"x\",\"score\":0},{\"name\":\"y\",\"score\":1},{\"name\":\"z\",\"score\":0}]}"
    );
}
