use robohand::game::GameState;
use robohand::protocol::{
    action_for, move_message, parse_command, ready_banner, result_message, Action, Command,
    LineReader,
};
use robohand::servo::show_rock;

fn feed_all(reader: &mut LineReader, bytes: &[u8]) -> Vec<Command> {
    let mut out = Vec::new();
    for &b in bytes {
        if let Some(c) = reader.feed(b) {
            out.push(c);
        }
    }
    out
}

#[test]
fn messages_for_moves_and_verdicts() {
    assert_eq!(move_message("ROCK"), b"ROCK\n".to_vec());
    assert_eq!(move_message("PAPER"), b"PAPER\n".to_vec());
    assert_eq!(move_message("SCISSORS"), b"SCISSORS\n".to_vec());
    assert_eq!(move_message("OTHER"), b"SCISSORS\n".to_vec());
    assert_eq!(result_message("PLAYER"), b"WIN\n".to_vec());
    assert_eq!(result_message("DRAW"), b"DRAW\n".to_vec());
    assert_eq!(result_message("ROBOT"), b"LOSE\n".to_vec());
    assert_eq!(result_message("ANY"), b"LOSE\n".to_vec());
}

#[test]
fn parse_known_and_unknown_lines() {
    assert_eq!(parse_command(b"ROCK"), Some(Command::Rock));
    assert_eq!(parse_command(b"PAPER"), Some(Command::Paper));
    assert_eq!(parse_command(b"SCISSORS"), Some(Command::Scissors));
    assert_eq!(parse_command(b"WIN"), Some(Command::Win));
    assert_eq!(parse_command(b"LOSE"), Some(Command::Lose));
    assert_eq!(parse_command(b"DRAW"), Some(Command::Draw));
    assert_eq!(parse_command(b"READY"), None);
    assert_eq!(parse_command(b""), None);
    assert_eq!(parse_command(b"rock"), None);
}

#[test]
fn reader_assembles_lines() {
    let mut reader = LineReader::new();
    assert_eq!(feed_all(&mut reader, b"ROCK\nWIN\r\n"), vec![Command::Rock, Command::Win]);
    assert_eq!(feed_all(&mut reader, b"DR"), vec![]);
    assert_eq!(feed_all(&mut reader, b"AW\n"), vec![Command::Draw]);
    assert_eq!(feed_all(&mut reader, b"\n\nHELLO\nLO\rSE\n"), vec![Command::Lose]);
}

#[test]
fn reader_drops_bytes_past_fifteen() {
    let mut reader = LineReader::new();
    assert_eq!(feed_all(&mut reader, b"SCISSORSSCISSORS\n"), vec![]);
    assert_eq!(feed_all(&mut reader, b"PAPER\n"), vec![Command::Paper]);
    let mut reader = LineReader::new();
    // An overlong line is cut to fifteen bytes and not recognised; the next line starts afresh.
    assert_eq!(feed_all(&mut reader, b"ABCDEFGHIJKLMNOPQRSTUV\nROCK\n"), vec![Command::Rock]);
}

#[test]
fn rounds_reach_the_hand() {
    let mut state = GameState::new();
    state.login("ana");
    let mut reader = LineReader::new();
    for rand in 0..6u32 {
        for gesture in ["ROCK", "PAPER", "SCISSORS", "NONE"] {
            let round = state.play(gesture, rand).unwrap();
            let mut wire = move_message(round.robot_move);
            wire.extend(result_message(round.winner));
            let commands = feed_all(&mut reader, &wire);
            let shown = match round.robot_move {
                "ROCK" => Command::Rock,
                "PAPER" => Command::Paper,
                _ => Command::Scissors,
            };
            let verdict = match round.winner {
                "PLAYER" => Command::Win,
                "DRAW" => Command::Draw,
                _ => Command::Lose,
            };
            assert_eq!(commands, vec![shown, verdict]);
        }
    }
}

#[test]
fn actions_for_commands() {
    let max = 1000;
    match action_for(Command::Rock, max) {
        Action::Move(steps) => assert_eq!(steps, show_rock(max)),
        Action::Show(_) => panic!("rock moves the fingers"),
    }
    let expect = [
        (Command::Win, "YOU WIN!", 10),
        (Command::Lose, "YOU LOSE!", 5),
        (Command::Draw, "DRAW!", 30),
    ];
    for (cmd, text, x) in expect {
        match action_for(cmd, max) {
            Action::Show(b) => {
                assert_eq!(b.text, text);
                assert_eq!(b.x, x);
                assert_eq!(b.y, 24);
            }
            Action::Move(_) => panic!("verdicts are shown"),
        }
    }
    for cmd in [Command::Paper, Command::Scissors] {
        assert!(matches!(action_for(cmd, max), Action::Move(ref s) if !s.is_empty()));
    }
    let ready = ready_banner();
    assert_eq!((ready.text, ready.x, ready.y), ("READY", 25, 24));
}

#[test]
fn verdict_actions_need_no_duty_bound() {
    match action_for(Command::Win, u32::MAX) {
        Action::Show(b) => assert_eq!(b.text, "YOU WIN!"),
        Action::Move(_) => panic!("verdicts are shown"),
    }
}

#[test]
fn gesture_commands_move_fingers() {
    assert!(Command::Rock.moves_fingers());
    assert!(Command::Paper.moves_fingers());
    assert!(Command::Scissors.moves_fingers());
    assert!(!Command::Win.moves_fingers());
    assert!(!Command::Lose.moves_fingers());
    assert!(!Command::Draw.moves_fingers());
}
