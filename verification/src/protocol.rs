//! The serial link between the game board and the hand board. The game board
//! sends one line per message: the robot's move, then the verdict. The hand
//! board gathers bytes into lines, recognises the commands, and turns each
//! into finger moves or a message on its display.

use vstd::prelude::*;
use vstd::string::StringSliceAdditionalSpecFns;

use crate::rules::{
    draw_word, is_gesture, lemma_word_bytes, lemma_words_distinct, outcome, paper_word,
    player_word, rock_word, scissors_word,
};
use crate::servo::{
    max_duty_fits, show_paper, show_paper_steps, show_rock, show_rock_steps, show_scissors,
    show_scissors_steps, ServoStep,
};
use crate::text::{bytes_eq, push_text, same_text};

verus! {

/// The line byte that ends a command.
pub open spec fn newline() -> u8 {
    10u8
}

/// The carriage-return byte, which the hand board ignores.
pub open spec fn carriage_return() -> u8 {
    13u8
}

/// The command for the player's win.
pub open spec fn win_word() -> Seq<u8> {
    "WIN".spec_bytes()
}

/// The command for the robot's win.
pub open spec fn lose_word() -> Seq<u8> {
    "LOSE".spec_bytes()
}

/// The bytes of the two verdict commands that are not game words.
pub proof fn lemma_command_bytes()
    ensures
        win_word() == seq![87u8, 73, 78],
        lose_word() == seq![76u8, 79, 83, 69],
{
    reveal_strlit("WIN");
    reveal_strlit("LOSE");
    assert(vstd::string::is_ascii("WIN"));
    assert(vstd::string::is_ascii("LOSE"));
    vstd::string::is_ascii_spec_bytes("WIN");
    vstd::string::is_ascii_spec_bytes("LOSE");
    assert(win_word() =~= seq![87u8, 73, 78]);
    assert(lose_word() =~= seq![76u8, 79, 83, 69]);
}

/// The line that tells the hand the robot's move: the move's word, with any
/// text other than rock or paper sent as scissors, then a newline.
pub open spec fn move_line(robot_move: Seq<u8>) -> Seq<u8> {
    let word = if robot_move == rock_word() {
        rock_word()
    } else if robot_move == paper_word() {
        paper_word()
    } else {
        scissors_word()
    };
    word.push(newline())
}

/// The line that tells the hand the verdict, WIN when the player wins, DRAW
/// for a draw, LOSE otherwise, then a newline.
pub open spec fn result_line(winner: Seq<u8>) -> Seq<u8> {
    let word = if winner == player_word() {
        win_word()
    } else if winner == draw_word() {
        draw_word()
    } else {
        lose_word()
    };
    word.push(newline())
}

/// The line sent to the hand for the robot's move.
pub fn move_message(robot_move: &str) -> (line: Vec<u8>)
    ensures
        line@ == move_line(robot_move.spec_bytes()),
{
    let mut line: Vec<u8> = Vec::new();
    if same_text(robot_move, "ROCK") {
        push_text(&mut line, "ROCK");
    } else if same_text(robot_move, "PAPER") {
        push_text(&mut line, "PAPER");
    } else {
        push_text(&mut line, "SCISSORS");
    }
    line.push(10);
    assert(line@ =~= move_line(robot_move.spec_bytes()));
    line
}

/// The line sent to the hand for the verdict.
pub fn result_message(winner: &str) -> (line: Vec<u8>)
    ensures
        line@ == result_line(winner.spec_bytes()),
{
    let mut line: Vec<u8> = Vec::new();
    if same_text(winner, "PLAYER") {
        push_text(&mut line, "WIN");
    } else if same_text(winner, "DRAW") {
        push_text(&mut line, "DRAW");
    } else {
        push_text(&mut line, "LOSE");
    }
    line.push(10);
    assert(line@ =~= result_line(winner.spec_bytes()));
    line
}

/// A command understood by the hand board.
#[derive(Clone, Copy, PartialEq, Eq, Debug, Structural)]
pub enum Command {
    Rock,
    Paper,
    Scissors,
    Win,
    Lose,
    Draw,
}

impl Command {
    /// Whether the command is a gesture, which the hand shows with its
    /// fingers.
    pub open spec fn is_gesture_command(self) -> bool {
        self == Command::Rock || self == Command::Paper || self == Command::Scissors
    }

    /// Whether the command is a gesture, which the hand shows with its
    /// fingers.
    pub fn moves_fingers(&self) -> (r: bool)
        ensures
            r == self.is_gesture_command(),
    {
        match self {
            Command::Rock | Command::Paper | Command::Scissors => true,
            _ => false,
        }
    }
}

/// The command a complete line carries, if it carries one.
pub open spec fn parse_line(line: Seq<u8>) -> Option<Command> {
    if line == rock_word() {
        Some(Command::Rock)
    } else if line == paper_word() {
        Some(Command::Paper)
    } else if line == scissors_word() {
        Some(Command::Scissors)
    } else if line == win_word() {
        Some(Command::Win)
    } else if line == lose_word() {
        Some(Command::Lose)
    } else if line == draw_word() {
        Some(Command::Draw)
    } else {
        None
    }
}

/// The command a complete line carries, if it carries one.
pub fn parse_command(line: &[u8]) -> (c: Option<Command>)
    ensures
        c == parse_line(line@),
{
    if bytes_eq(line, "ROCK".as_bytes()) {
        Some(Command::Rock)
    } else if bytes_eq(line, "PAPER".as_bytes()) {
        Some(Command::Paper)
    } else if bytes_eq(line, "SCISSORS".as_bytes()) {
        Some(Command::Scissors)
    } else if bytes_eq(line, "WIN".as_bytes()) {
        Some(Command::Win)
    } else if bytes_eq(line, "LOSE".as_bytes()) {
        Some(Command::Lose)
    } else if bytes_eq(line, "DRAW".as_bytes()) {
        Some(Command::Draw)
    } else {
        None
    }
}

/// The most bytes of a line the hand board keeps; later bytes are dropped.
pub open spec fn line_capacity() -> nat {
    15
}

/// One byte arriving at the hand board, given the bytes of the line so far:
/// a newline ends the line (the line's command, if any, is the output, and a
/// new line starts); a carriage return is ignored; any other byte is kept
/// while the line has room and dropped otherwise.
pub open spec fn reader_step(pending: Seq<u8>, byte: u8) -> (Seq<u8>, Option<Command>) {
    if byte == newline() {
        (Seq::empty(), parse_line(pending))
    } else if byte == carriage_return() {
        (pending, None)
    } else if pending.len() < line_capacity() {
        (pending.push(byte), None)
    } else {
        (pending, None)
    }
}

/// The bytes of the line left after a run of bytes, and the commands
/// recognised along the way, in order.
pub open spec fn reader_run(pending: Seq<u8>, bytes: Seq<u8>) -> (Seq<u8>, Seq<Command>)
    decreases bytes.len(),
{
    if bytes.len() == 0 {
        (pending, Seq::empty())
    } else {
        let (next, out) = reader_step(pending, bytes[0]);
        let (last, rest) = reader_run(next, bytes.drop_first());
        (
            last,
            match out {
                Some(c) => seq![c] + rest,
                None => rest,
            },
        )
    }
}

/// A recognised command as a sequence of at most one command.
pub open spec fn command_list(c: Option<Command>) -> Seq<Command> {
    match c {
        Some(cmd) => seq![cmd],
        None => Seq::empty(),
    }
}

/// The command that makes the hand show a gesture.
pub open spec fn gesture_command(g: Seq<u8>) -> Command {
    if g == rock_word() {
        Command::Rock
    } else if g == paper_word() {
        Command::Paper
    } else {
        Command::Scissors
    }
}

/// The command that makes the hand show a verdict.
pub open spec fn verdict_command(winner: Seq<u8>) -> Command {
    if winner == player_word() {
        Command::Win
    } else if winner == draw_word() {
        Command::Draw
    } else {
        Command::Lose
    }
}

/// Whether `bytes` holds neither a newline nor a carriage return.
pub open spec fn is_plain_text(bytes: Seq<u8>) -> bool {
    forall|i: int| 0 <= i < bytes.len() ==> #[trigger] bytes[i] != newline() && bytes[i]
        != carriage_return()
}

/// Running the reader over two runs of bytes is running it over the first,
/// then over the second from where the first left the line.
pub proof fn lemma_reader_run_concat(pending: Seq<u8>, a: Seq<u8>, b: Seq<u8>)
    ensures
        reader_run(pending, a + b) == (
            reader_run(reader_run(pending, a).0, b).0,
            reader_run(pending, a).1 + reader_run(reader_run(pending, a).0, b).1,
        ),
    decreases a.len(),
{
    if a.len() == 0 {
        assert(a + b =~= b);
        assert(Seq::<Command>::empty() + reader_run(pending, b).1 =~= reader_run(pending, b).1);
    } else {
        let (next, out) = reader_step(pending, a[0]);
        assert((a + b)[0] == a[0]);
        assert((a + b).drop_first() =~= a.drop_first() + b);
        lemma_reader_run_concat(next, a.drop_first(), b);
        let mid = reader_run(next, a.drop_first());
        let tail = reader_run(mid.0, b);
        match out {
            Some(c) => {
                assert(seq![c] + (mid.1 + tail.1) =~= (seq![c] + mid.1) + tail.1);
            },
            None => {},
        }
    }
}

/// Plain bytes that fit the line are all kept, and no command comes out.
proof fn lemma_reader_run_plain(pending: Seq<u8>, text: Seq<u8>)
    requires
        pending.len() + text.len() <= line_capacity(),
        is_plain_text(text),
    ensures
        reader_run(pending, text) == (pending + text, Seq::<Command>::empty()),
    decreases text.len(),
{
    if text.len() == 0 {
        assert(pending + text =~= pending);
    } else {
        assert(text[0] != newline() && text[0] != carriage_return());
        let rest = text.drop_first();
        assert(is_plain_text(rest)) by {
            assert forall|i: int| 0 <= i < rest.len() implies #[trigger] rest[i] != newline()
                && rest[i] != carriage_return() by {
                assert(rest[i] == text[i + 1]);
            }
        }
        lemma_reader_run_plain(pending.push(text[0]), rest);
        assert(pending.push(text[0]) + rest =~= pending + text);
    }
}

/// A line of plain bytes that fits the line capacity, sent with its newline
/// to a reader with an empty line, yields exactly the command the line
/// carries, and leaves the reader with an empty line again.
pub proof fn law_line_round_trip(line: Seq<u8>)
    requires
        line.len() <= line_capacity(),
        is_plain_text(line),
    ensures
        reader_run(Seq::empty(), line.push(newline())) == (
            Seq::<u8>::empty(),
            command_list(parse_line(line)),
        ),
{
    assert(line.push(newline()) =~= line + seq![newline()]);
    lemma_reader_run_concat(Seq::empty(), line, seq![newline()]);
    lemma_reader_run_plain(Seq::empty(), line);
    assert(Seq::<u8>::empty() + line =~= line);
    let last = reader_run(line, seq![newline()]);
    assert(seq![newline()].drop_first() =~= Seq::<u8>::empty());
    assert(seq![newline()][0] == newline());
    assert(reader_step(line, newline()) == (Seq::<u8>::empty(), parse_line(line)));
    let fin = reader_run(Seq::<u8>::empty(), Seq::<u8>::empty());
    assert(fin == (Seq::<u8>::empty(), Seq::<Command>::empty()));
    match parse_line(line) {
        Some(c) => {
            assert(seq![c] + Seq::<Command>::empty() =~= seq![c]);
        },
        None => {},
    }
    assert(last == (Seq::<u8>::empty(), command_list(parse_line(line))));
    assert(Seq::<Command>::empty() + last.1 =~= last.1);
}

/// The robot's move, sent as its line, makes the hand show that gesture.
pub proof fn law_move_line_round_trip(robot_move: Seq<u8>)
    requires
        is_gesture(robot_move),
    ensures
        reader_run(Seq::empty(), move_line(robot_move)) == (
            Seq::<u8>::empty(),
            seq![gesture_command(robot_move)],
        ),
{
    lemma_word_bytes();
    lemma_words_distinct();
    lemma_command_bytes();
    assert(is_plain_text(robot_move));
    assert(move_line(robot_move) == robot_move.push(newline()));
    assert(parse_line(robot_move) == Some(gesture_command(robot_move))) by {
        assert(robot_move != win_word() && robot_move != lose_word()) by {
            assert(robot_move.len() != win_word().len() || robot_move[0] != win_word()[0]);
            assert(robot_move.len() != lose_word().len() || robot_move[0] != lose_word()[0]);
        }
    }
    law_line_round_trip(robot_move);
}

/// The verdict of any round, sent as its line, makes the hand show that
/// verdict, WIN when the player wins, DRAW for a draw, LOSE when the robot wins.
pub proof fn law_result_line_round_trip(player: Seq<u8>, robot: Seq<u8>)
    ensures
        reader_run(Seq::empty(), result_line(outcome(player, robot))) == (
            Seq::<u8>::empty(),
            seq![verdict_command(outcome(player, robot))],
        ),
{
    let w = outcome(player, robot);
    lemma_word_bytes();
    lemma_words_distinct();
    lemma_command_bytes();
    let word = if w == player_word() {
        win_word()
    } else if w == draw_word() {
        draw_word()
    } else {
        lose_word()
    };
    assert(result_line(w) == word.push(newline()));
    assert(is_plain_text(word));
    assert(word != rock_word() && word != paper_word() && word != scissors_word()) by {
        assert(word.len() != rock_word().len() || word[0] != rock_word()[0]);
        assert(word.len() != paper_word().len() || word[0] != paper_word()[0]);
        assert(word.len() != scissors_word().len() || word[0] != scissors_word()[0]);
    }
    assert(word == draw_word() ==> word != win_word() && word != lose_word()) by {
        if word == draw_word() {
            assert(word.len() != win_word().len());
            assert(word[0] != lose_word()[0]);
        }
    }
    assert(word == lose_word() ==> word != win_word()) by {
        if word == lose_word() {
            assert(word.len() != win_word().len());
        }
    }
    assert(parse_line(word) == Some(verdict_command(w)));
    law_line_round_trip(word);
}

/// A whole round as the game board sends it, the robot's move line then the
/// verdict line, makes the hand show the robot's gesture and then the
/// verdict, and leaves its reader ready for the next round.
pub proof fn law_round_reaches_hand(player: Seq<u8>, robot: Seq<u8>)
    requires
        is_gesture(robot),
    ensures
        reader_run(Seq::empty(), move_line(robot) + result_line(outcome(player, robot))) == (
            Seq::<u8>::empty(),
            seq![gesture_command(robot), verdict_command(outcome(player, robot))],
        ),
{
    law_move_line_round_trip(robot);
    law_result_line_round_trip(player, robot);
    lemma_reader_run_concat(Seq::empty(), move_line(robot), result_line(outcome(player, robot)));
    assert(seq![gesture_command(robot)] + seq![verdict_command(outcome(player, robot))]
        =~= seq![gesture_command(robot), verdict_command(outcome(player, robot))]);
}

/// The hand board's line assembler: a buffer of 16 bytes of which the first
/// `len` hold the line so far.
pub struct LineReader {
    buf: [u8; 16],
    len: usize,
}

impl View for LineReader {
    type V = Seq<u8>;

    closed spec fn view(&self) -> Seq<u8> {
        self.buf@.subrange(0, self.len as int)
    }
}

impl LineReader {
    /// The reader's invariant: the line so far fits the line capacity.
    pub closed spec fn wf(&self) -> bool {
        self.len <= 15
    }

    /// A reader with an empty line.
    pub fn new() -> (r: Self)
        ensures
            r.wf(),
            r@ == Seq::<u8>::empty(),
    {
        let r = LineReader { buf: [0u8; 16], len: 0 };
        assert(r@ =~= Seq::<u8>::empty());
        r
    }

    /// Takes in one byte; returns the command of a line that this byte ends.
    pub fn feed(&mut self, byte: u8) -> (c: Option<Command>)
        requires
            old(self).wf(),
        ensures
            final(self).wf(),
            (final(self)@, c) == reader_step(old(self)@, byte),
    {
        if byte == 10 {
            let c = parse_command(self.buf.as_slice().split_at(self.len).0);
            self.len = 0;
            assert(self@ =~= Seq::<u8>::empty());
            c
        } else if byte == 13 {
            None
        } else {
            if self.len < 15 {
                let ghost before = self@;
                self.buf[self.len] = byte;
                self.len = self.len + 1;
                assert(self@ =~= before.push(byte));
            }
            None
        }
    }
}

/// A message for the hand's display: a text drawn at column `x`, row `y`.
pub struct Banner {
    pub text: &'static str,
    pub x: i32,
    pub y: i32,
}

/// The message shown when the hand is ready.
pub fn ready_banner() -> (b: Banner)
    ensures
        b.text.spec_bytes() == "READY".spec_bytes(),
        b.x == 25,
        b.y == 24,
{
    Banner { text: "READY", x: 25, y: 24 }
}

/// What the hand does for a command: move its fingers, or show a message.
pub enum Action {
    Move(Vec<ServoStep>),
    Show(Banner),
}

/// The action for a command: the finger moves of a gesture, or the verdict's
/// message ("YOU WIN!", "YOU LOSE!", "DRAW!") at its place on the display.
pub fn action_for(command: Command, max_duty: u32) -> (a: Action)
    requires
        command.is_gesture_command() ==> max_duty_fits(max_duty),
    ensures
        command == Command::Rock ==> (a matches Action::Move(steps) && steps@ == show_rock_steps(
            max_duty,
        )),
        command == Command::Paper ==> (a matches Action::Move(steps) && steps@
            == show_paper_steps(max_duty)),
        command == Command::Scissors ==> (a matches Action::Move(steps) && steps@
            == show_scissors_steps(max_duty)),
        command == Command::Win ==> (a matches Action::Show(b) && b.text.spec_bytes()
            == "YOU WIN!".spec_bytes() && b.x == 10 && b.y == 24),
        command == Command::Lose ==> (a matches Action::Show(b) && b.text.spec_bytes()
            == "YOU LOSE!".spec_bytes() && b.x == 5 && b.y == 24),
        command == Command::Draw ==> (a matches Action::Show(b) && b.text.spec_bytes()
            == "DRAW!".spec_bytes() && b.x == 30 && b.y == 24),
{
    match command {
        Command::Rock => Action::Move(show_rock(max_duty)),
        Command::Paper => Action::Move(show_paper(max_duty)),
        Command::Scissors => Action::Move(show_scissors(max_duty)),
        Command::Win => Action::Show(Banner { text: "YOU WIN!", x: 10, y: 24 }),
        Command::Lose => Action::Show(Banner { text: "YOU LOSE!", x: 5, y: 24 }),
        Command::Draw => Action::Show(Banner { text: "DRAW!", x: 30, y: 24 }),
    }
}

} // verus!
