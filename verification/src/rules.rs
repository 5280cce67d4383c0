//! The rules of rock-paper-scissors as the hand plays them: the gesture
//! words, who wins a round, the one-byte code of a gesture, and how a random
//! number picks the robot's move.

use vstd::prelude::*;
use vstd::string::StringSliceAdditionalSpecFns;

verus! {

/// The word for the rock gesture.
pub open spec fn rock_word() -> Seq<u8> {
    "ROCK".spec_bytes()
}

/// The word for the paper gesture.
pub open spec fn paper_word() -> Seq<u8> {
    "PAPER".spec_bytes()
}

/// The word for the scissors gesture.
pub open spec fn scissors_word() -> Seq<u8> {
    "SCISSORS".spec_bytes()
}

/// The verdict when the player wins the round.
pub open spec fn player_word() -> Seq<u8> {
    "PLAYER".spec_bytes()
}

/// The verdict when both show the same gesture.
pub open spec fn draw_word() -> Seq<u8> {
    "DRAW".spec_bytes()
}

/// The verdict when the robot wins the round.
pub open spec fn robot_word() -> Seq<u8> {
    "ROBOT".spec_bytes()
}

/// Whether `g` names one of the three gestures.
pub open spec fn is_gesture(g: Seq<u8>) -> bool {
    g == rock_word() || g == paper_word() || g == scissors_word()
}

/// Whether gesture `a` beats gesture `b`: rock blunts scissors, paper wraps
/// rock, scissors cut paper.
pub open spec fn beats(a: Seq<u8>, b: Seq<u8>) -> bool {
    ||| a == rock_word() && b == scissors_word()
    ||| a == paper_word() && b == rock_word()
    ||| a == scissors_word() && b == paper_word()
}

/// The verdict of a round: the player's win, a draw when both texts are the
/// same, and the robot's win in every other case (an unknown gesture of the
/// player included).
pub open spec fn outcome(player: Seq<u8>, robot: Seq<u8>) -> Seq<u8> {
    if beats(player, robot) {
        player_word()
    } else if player == robot {
        draw_word()
    } else {
        robot_word()
    }
}

/// The one-byte code recorded in a player's history for a gesture.
pub open spec fn gesture_code(g: Seq<u8>) -> Option<u8> {
    if g == rock_word() {
        Some(0u8)
    } else if g == paper_word() {
        Some(1u8)
    } else if g == scissors_word() {
        Some(2u8)
    } else {
        None
    }
}

/// The robot's move for a random number: its remainder modulo three picks
/// rock, paper or scissors.
pub open spec fn move_for(n: u32) -> Seq<u8> {
    if n % 3 == 0 {
        rock_word()
    } else if n % 3 == 1 {
        paper_word()
    } else {
        scissors_word()
    }
}

/// The bytes behind the words of the game.
pub proof fn lemma_word_bytes()
    ensures
        rock_word() == seq![82u8, 79, 67, 75],
        paper_word() == seq![80u8, 65, 80, 69, 82],
        scissors_word() == seq![83u8, 67, 73, 83, 83, 79, 82, 83],
        player_word() == seq![80u8, 76, 65, 89, 69, 82],
        draw_word() == seq![68u8, 82, 65, 87],
        robot_word() == seq![82u8, 79, 66, 79, 84],
{
    reveal_strlit("ROCK");
    reveal_strlit("PAPER");
    reveal_strlit("SCISSORS");
    reveal_strlit("PLAYER");
    reveal_strlit("DRAW");
    reveal_strlit("ROBOT");
    assert(vstd::string::is_ascii("ROCK"));
    assert(vstd::string::is_ascii("PAPER"));
    assert(vstd::string::is_ascii("SCISSORS"));
    assert(vstd::string::is_ascii("PLAYER"));
    assert(vstd::string::is_ascii("DRAW"));
    assert(vstd::string::is_ascii("ROBOT"));
    vstd::string::is_ascii_spec_bytes("ROCK");
    vstd::string::is_ascii_spec_bytes("PAPER");
    vstd::string::is_ascii_spec_bytes("SCISSORS");
    vstd::string::is_ascii_spec_bytes("PLAYER");
    vstd::string::is_ascii_spec_bytes("DRAW");
    vstd::string::is_ascii_spec_bytes("ROBOT");
    assert(rock_word() =~= seq![82u8, 79, 67, 75]);
    assert(paper_word() =~= seq![80u8, 65, 80, 69, 82]);
    assert(scissors_word() =~= seq![83u8, 67, 73, 83, 83, 79, 82, 83]);
    assert(player_word() =~= seq![80u8, 76, 65, 89, 69, 82]);
    assert(draw_word() =~= seq![68u8, 82, 65, 87]);
    assert(robot_word() =~= seq![82u8, 79, 66, 79, 84]);
}

/// The three gesture words differ from one another, and so do the three
/// verdicts.
pub proof fn lemma_words_distinct()
    ensures
        rock_word() != paper_word(),
        rock_word() != scissors_word(),
        paper_word() != scissors_word(),
        player_word() != draw_word(),
        player_word() != robot_word(),
        draw_word() != robot_word(),
{
    lemma_word_bytes();
    assert(rock_word().len() != paper_word().len());
    assert(rock_word().len() != scissors_word().len());
    assert(paper_word().len() != scissors_word().len());
    assert(player_word().len() != draw_word().len());
    assert(player_word().len() != robot_word().len());
    assert(draw_word().len() != robot_word().len());
}

/// Between two gestures the verdict is symmetric: the player wins a round
/// exactly when, with the two moves swapped, the robot would win it; a round
/// is a draw exactly when both show the same gesture; and every round has
/// exactly one of the three verdicts.
pub proof fn law_outcome_symmetric(a: Seq<u8>, b: Seq<u8>)
    requires
        is_gesture(a),
        is_gesture(b),
    ensures
        outcome(a, b) == player_word() <==> outcome(b, a) == robot_word(),
        outcome(a, b) == draw_word() <==> a == b,
        outcome(a, b) == player_word() || outcome(a, b) == draw_word() || outcome(a, b)
            == robot_word(),
{
    lemma_words_distinct();
}

/// Each gesture beats exactly one gesture and is beaten by exactly one.
pub proof fn law_each_gesture_beats_one(g: Seq<u8>)
    requires
        is_gesture(g),
    ensures
        (beats(g, rock_word()) as int) + (beats(g, paper_word()) as int) + (beats(
            g,
            scissors_word(),
        ) as int) == 1,
        (beats(rock_word(), g) as int) + (beats(paper_word(), g) as int) + (beats(
            scissors_word(),
            g,
        ) as int) == 1,
{
    lemma_words_distinct();
}

/// The robot's move is always one of the three gestures, and its code is the
/// random number's remainder modulo three.
pub proof fn law_robot_move_is_gesture(n: u32)
    ensures
        is_gesture(move_for(n)),
        gesture_code(move_for(n)) == Some((n % 3) as u8),
{
    lemma_words_distinct();
}

/// Distinct gestures have distinct codes, and only gestures have a code.
pub proof fn law_gesture_code_injective(a: Seq<u8>, b: Seq<u8>)
    ensures
        gesture_code(a) is Some <==> is_gesture(a),
        gesture_code(a) is Some && gesture_code(a) == gesture_code(b) ==> a == b,
{
    lemma_words_distinct();
}

} // verus!
