//! The game server's state: the roster of players with their scores and
//! gesture histories, the current player, and the last round played; with the
//! requests that change it (login, a gesture) and the JSON documents that
//! report it.

use vstd::prelude::*;
use vstd::string::StringSliceAdditionalSpecFns;

use crate::bounded::{
    history_as_slice, history_items, history_new, history_push, label_as_str, label_bytes, label_new,
    label_push_str, name_as_str, name_bytes, name_new, name_push_str, roster_get,
    roster_get_mut, roster_items, roster_len, roster_new, roster_push,
};
use crate::rules::{
    draw_word, gesture_code, is_gesture, law_robot_move_is_gesture, lemma_word_bytes,
    lemma_words_distinct, move_for, outcome, player_word, robot_word,
};
use crate::rules::beats;
use crate::text::{decimal, digits, push_bytes, push_decimal, push_text, same_text};

verus! {

/// A player: a name, a score, and the codes of the gestures played.
pub struct Player {
    name: heapless::String<32>,
    score: i32,
    history: heapless::Vec<u8, 30>,
}

/// What a player holds, as plain values.
pub struct PlayerView {
    pub name: Seq<u8>,
    pub score: int,
    pub history: Seq<u8>,
}

impl View for Player {
    type V = PlayerView;

    closed spec fn view(&self) -> PlayerView {
        PlayerView {
            name: name_bytes(self.name),
            score: self.score as int,
            history: history_items(self.history),
        }
    }
}

/// The outcome of a played round: the robot's move and the verdict.
pub struct Round {
    pub robot_move: &'static str,
    pub winner: &'static str,
}

/// The whole game state.
pub struct GameState {
    players: heapless::Vec<Player, 15>,
    current_player: Option<usize>,
    last_player_move: heapless::String<16>,
    last_robot_move: heapless::String<16>,
    last_winner: heapless::String<16>,
}

/// What the game state holds, as plain values.
pub struct GameView {
    pub players: Seq<PlayerView>,
    pub current: Option<int>,
    pub last_player: Seq<u8>,
    pub last_robot: Seq<u8>,
    pub last_winner: Seq<u8>,
}

impl View for GameState {
    type V = GameView;

    closed spec fn view(&self) -> GameView {
        GameView {
            players: roster_items(self.players).map_values(|p: Player| p@),
            current: match self.current_player {
                Some(i) => Some(i as int),
                None => None,
            },
            last_player: label_bytes(self.last_player_move),
            last_robot: label_bytes(self.last_robot_move),
            last_winner: label_bytes(self.last_winner),
        }
    }
}

impl GameView {
    /// The state's invariant: the collections stay within their capacities
    /// and the current player, if any, is on the roster.
    pub open spec fn is_valid(self) -> bool {
        &&& self.players.len() <= 15
        &&& (self.current matches Some(i) ==> 0 <= i < self.players.len())
        &&& forall|j: int|
            0 <= j < self.players.len() ==> (#[trigger] self.players[j]).name.len() <= 32
                && self.players[j].history.len() <= 30
        &&& self.last_player.len() <= 16
        &&& self.last_robot.len() <= 16
        &&& self.last_winner.len() <= 16
    }
}

/// Whether `i` is the first position on the roster of a player named `name`.
pub open spec fn first_named(ps: Seq<PlayerView>, name: Seq<u8>, i: int) -> bool {
    &&& 0 <= i < ps.len()
    &&& ps[i].name == name
    &&& forall|j: int| 0 <= j < i ==> (#[trigger] ps[j]).name != name
}

/// Whether some player on the roster is named `name`.
pub open spec fn has_player_named(ps: Seq<PlayerView>, name: Seq<u8>) -> bool {
    exists|i: int| 0 <= i < ps.len() && (#[trigger] ps[i]).name == name
}

/// A text kept in a string of capacity `cap`: the text itself when its
/// bytes fit, the empty text when they do not.
pub open spec fn kept_text(t: Seq<u8>, cap: nat) -> Seq<u8> {
    if t.len() <= cap {
        t
    } else {
        Seq::empty()
    }
}

/// A newly registered player: the name (kept if it fits), score zero and an
/// empty history.
pub open spec fn new_player(name: Seq<u8>) -> PlayerView {
    PlayerView { name: kept_text(name, 32), score: 0, history: Seq::empty() }
}

/// The state after a login under `name`: an existing player of that name
/// (the first one) becomes current; otherwise a new player is appended and
/// becomes current; on a full roster the last player becomes current.
pub open spec fn after_login(s: GameView, name: Seq<u8>) -> GameView {
    if has_player_named(s.players, name) {
        GameView {
            players: s.players,
            current: Some(choose|i: int| first_named(s.players, name, i)),
            last_player: s.last_player,
            last_robot: s.last_robot,
            last_winner: s.last_winner,
        }
    } else if s.players.len() < 15 {
        GameView {
            players: s.players.push(new_player(name)),
            current: Some(s.players.len() as int),
            last_player: s.last_player,
            last_robot: s.last_robot,
            last_winner: s.last_winner,
        }
    } else {
        GameView {
            players: s.players,
            current: Some(s.players.len() - 1),
            last_player: s.last_player,
            last_robot: s.last_robot,
            last_winner: s.last_winner,
        }
    }
}

/// A score after a round with the given verdict, one up when the player
/// wins, one down when the robot wins, unchanged on a draw.
pub open spec fn score_after(score: int, verdict: Seq<u8>) -> int {
    if verdict == player_word() {
        score + 1
    } else if verdict == robot_word() {
        score - 1
    } else {
        score
    }
}

/// A history after the player shows `g`: the gesture's code is appended when
/// `g` is a gesture and the history has room.
pub open spec fn history_after(h: Seq<u8>, g: Seq<u8>) -> Seq<u8> {
    match gesture_code(g) {
        Some(c) => if h.len() < 30 {
            h.push(c)
        } else {
            h
        },
        None => h,
    }
}

/// The state after the current player shows `g` and the random number `n`
/// picks the robot's move; without a current player nothing changes.
pub open spec fn after_play(s: GameView, g: Seq<u8>, n: u32) -> GameView {
    match s.current {
        Some(i) => {
            let verdict = outcome(g, move_for(n));
            let p = s.players[i];
            GameView {
                players: s.players.update(
                    i,
                    PlayerView {
                        name: p.name,
                        score: score_after(p.score, verdict),
                        history: history_after(p.history, g),
                    },
                ),
                current: s.current,
                last_player: kept_text(g, 16),
                last_robot: move_for(n),
                last_winner: verdict,
            }
        },
        None => s,
    }
}

/// Whether the current player's score stays within `i32` after the round.
pub open spec fn round_fits(s: GameView, g: Seq<u8>, n: u32) -> bool {
    match s.current {
        Some(i) => i32::MIN <= score_after(s.players[i].score, outcome(g, move_for(n)))
            <= i32::MAX,
        None => true,
    }
}

/// One roster entry of the players document.
pub open spec fn player_entry(p: PlayerView) -> Seq<u8> {
    "{\"name\":\"".spec_bytes() + p.name + "\",\"score\":".spec_bytes() + decimal(p.score)
        + "}".spec_bytes()
}

/// The roster entries, separated by commas.
pub open spec fn player_entries(ps: Seq<PlayerView>) -> Seq<u8>
    decreases ps.len(),
{
    if ps.len() == 0 {
        Seq::empty()
    } else if ps.len() == 1 {
        player_entry(ps[0])
    } else {
        player_entries(ps.drop_last()) + ",".spec_bytes() + player_entry(ps.last())
    }
}

/// The players document: every player's name and score.
pub open spec fn players_document(ps: Seq<PlayerView>) -> Seq<u8> {
    "{\"players\":[".spec_bytes() + player_entries(ps) + "]}".spec_bytes()
}

/// The state document: the current player's score and the last round, or
/// zeros and empty texts when nobody is logged in.
pub open spec fn state_document(s: GameView) -> Seq<u8> {
    match s.current {
        Some(i) => "{\"score\":".spec_bytes() + decimal(s.players[i].score)
            + ",\"last_player\":\"".spec_bytes() + s.last_player + "\",\"last_robot\":\"".spec_bytes()
            + s.last_robot + "\",\"last_winner\":\"".spec_bytes() + s.last_winner
            + "\"}".spec_bytes(),
        None => "{\"score\":0,\"last_player\":\"\",\"last_robot\":\"\",\"last_winner\":\"\"}".spec_bytes(),
    }
}

/// There is at most one first position of a name.
proof fn lemma_first_named_unique(ps: Seq<PlayerView>, name: Seq<u8>, i: int, k: int)
    requires
        first_named(ps, name, i),
        first_named(ps, name, k),
    ensures
        i == k,
{
    if k < i {
        assert(ps[k].name != name);
    }
    if i < k {
        assert(ps[i].name != name);
    }
}

/// A name on the roster has a first position.
proof fn lemma_first_named_exists(ps: Seq<PlayerView>, name: Seq<u8>)
    requires
        has_player_named(ps, name),
    ensures
        exists|i: int| first_named(ps, name, i),
    decreases ps.len(),
{
    if ps.len() > 0 && ps[0].name == name {
        assert(first_named(ps, name, 0));
    } else {
        let rest = ps.drop_first();
        let w = choose|w: int| 0 <= w < ps.len() && (#[trigger] ps[w]).name == name;
        assert(rest[w - 1].name == name);
        lemma_first_named_exists(rest, name);
        let k = choose|k: int| first_named(rest, name, k);
        assert(first_named(ps, name, k + 1)) by {
            assert forall|j: int| 0 <= j < k + 1 implies (#[trigger] ps[j]).name != name by {
                if j > 0 {
                    assert(ps[j] == rest[j - 1]);
                }
            }
        }
    }
}

/// Logging in twice under the same name is the same as logging in once,
/// for names that fit a player's name string.
pub proof fn law_login_idempotent(s: GameView, name: Seq<u8>)
    requires
        s.is_valid(),
        name.len() <= 32,
    ensures
        after_login(after_login(s, name), name) == after_login(s, name),
{
    let t = after_login(s, name);
    if has_player_named(s.players, name) {
        lemma_first_named_exists(s.players, name);
    } else if s.players.len() < 15 {
        let i = s.players.len() as int;
        assert(t.players[i].name == name);
        assert(has_player_named(t.players, name));
        assert(first_named(t.players, name, i)) by {
            assert forall|j: int| 0 <= j < i implies (#[trigger] t.players[j]).name != name by {
                assert(t.players[j] == s.players[j]);
            }
        }
        lemma_first_named_exists(t.players, name);
        let k = choose|k: int| first_named(t.players, name, k);
        lemma_first_named_unique(t.players, name, i, k);
    } else {
        assert(!has_player_named(t.players, name));
    }
}

/// A login keeps every player already on the roster as they were, and makes
/// the named player current: the first player of that name, or the newly
/// added one; only a full roster without that name leaves the current player
/// unrelated to it.
pub proof fn law_login_selects_player(s: GameView, name: Seq<u8>)
    requires
        s.is_valid(),
        name.len() <= 32,
        has_player_named(s.players, name) || s.players.len() < 15,
    ensures
        after_login(s, name).is_valid(),
        after_login(s, name).players.subrange(0, s.players.len() as int) == s.players,
        after_login(s, name).current matches Some(i) && after_login(s, name).players[i].name
            == name,
{
    let t = after_login(s, name);
    if has_player_named(s.players, name) {
        lemma_first_named_exists(s.players, name);
        assert(t.players.subrange(0, s.players.len() as int) =~= s.players);
    } else {
        assert(t.players.subrange(0, s.players.len() as int) =~= s.players);
        assert(t.is_valid()) by {
            assert forall|j: int| 0 <= j < t.players.len() implies (#[trigger] t.players[j]).name.len()
                <= 32 && t.players[j].history.len() <= 30 by {
                if j < s.players.len() {
                    assert(t.players[j] == s.players[j]);
                }
            }
        }
    }
}

/// A round changes only the current player: the others keep their names,
/// scores and histories, the roster keeps its length, the current player
/// keeps their name and gains a point for a win, loses one for a loss, and
/// keeps the score on a draw; the robot's move is always a gesture.
pub proof fn law_round_changes_only_current(s: GameView, g: Seq<u8>, n: u32)
    requires
        s.is_valid(),
        s.current is Some,
    ensures
        ({
            let i = s.current->0;
            let t = after_play(s, g, n);
            let verdict = outcome(g, move_for(n));
            &&& t.players.len() == s.players.len()
            &&& forall|j: int| 0 <= j < s.players.len() && j != i ==> t.players[j] == s.players[j]
            &&& t.players[i].name == s.players[i].name
            &&& verdict == player_word() ==> t.players[i].score == s.players[i].score + 1
            &&& verdict == robot_word() ==> t.players[i].score == s.players[i].score - 1
            &&& verdict == draw_word() ==> t.players[i].score == s.players[i].score
            &&& is_gesture(t.last_robot)
            &&& t.is_valid()
        }),
{
    law_robot_move_is_gesture(n);
    lemma_words_distinct();
    lemma_word_bytes();
    let i = s.current->0;
    let t = after_play(s, g, n);
    assert(t.is_valid()) by {
        assert forall|j: int| 0 <= j < t.players.len() implies (#[trigger] t.players[j]).name.len()
            <= 32 && t.players[j].history.len() <= 30 by {
            if j != i {
                assert(t.players[j] == s.players[j]);
            }
        }
    }
}

/// A round keeps the logged-in player current, records the robot's move,
/// and records the round's outcome, a draw exactly when the player showed
/// the robot's move, the player's win exactly when the player's gesture
/// beats it, the robot's win otherwise; the current player's score moves by
/// one in the recorded winner's direction.
pub proof fn law_round_records_verdict(s: GameView, g: Seq<u8>, n: u32)
    requires
        s.is_valid(),
        s.current is Some,
    ensures
        ({
            let i = s.current->0;
            let t = after_play(s, g, n);
            &&& t.current == s.current
            &&& t.last_robot == move_for(n)
            &&& (t.last_winner == draw_word() <==> g == move_for(n))
            &&& (t.last_winner == player_word() <==> beats(g, move_for(n)))
            &&& (t.last_winner == robot_word() <==> !beats(g, move_for(n)) && g != move_for(n))
            &&& t.players[i].score == s.players[i].score + (if t.last_winner == player_word() {
                1int
            } else if t.last_winner == robot_word() {
                -1int
            } else {
                0int
            })
        }),
{
    lemma_words_distinct();
    let m = move_for(n);
    if beats(g, m) {
        assert(g != m) by {
            lemma_word_bytes();
        }
    }
}

/// Two rounds in a row are both played by the player who was logged in:
/// the same player stays current and every other player is left as they
/// were.
pub proof fn law_rounds_stay_with_current(s: GameView, g1: Seq<u8>, n1: u32, g2: Seq<u8>, n2: u32)
    requires
        s.is_valid(),
        s.current is Some,
    ensures
        ({
            let i = s.current->0;
            let u = after_play(after_play(s, g1, n1), g2, n2);
            &&& u.current == s.current
            &&& u.players.len() == s.players.len()
            &&& forall|j: int| 0 <= j < s.players.len() && j != i ==> u.players[j] == s.players[j]
        }),
{
    law_round_changes_only_current(s, g1, n1);
    law_round_changes_only_current(after_play(s, g1, n1), g2, n2);
}

/// The bytes of the fixed parts of the two documents.
proof fn lemma_document_bytes()
    ensures
        "{\"score\":".spec_bytes().len() == 9,
        ",\"last_player\":\"".spec_bytes()[0] == 44,
        ",\"last_player\":\"".spec_bytes().len() > 0,
        "]}".spec_bytes() == seq![93u8, 125],
        "{\"players\":[".spec_bytes() + "]}".spec_bytes() == "{\"players\":[]}".spec_bytes(),
{
    reveal_strlit("{\"score\":");
    reveal_strlit(",\"last_player\":\"");
    reveal_strlit("]}");
    reveal_strlit("{\"players\":[");
    reveal_strlit("{\"players\":[]}");
    assert(vstd::string::is_ascii("{\"score\":"));
    assert(vstd::string::is_ascii(",\"last_player\":\""));
    assert(vstd::string::is_ascii("]}"));
    assert(vstd::string::is_ascii("{\"players\":["));
    assert(vstd::string::is_ascii("{\"players\":[]}"));
    vstd::string::is_ascii_spec_bytes("{\"score\":");
    vstd::string::is_ascii_spec_bytes(",\"last_player\":\"");
    vstd::string::is_ascii_spec_bytes("]}");
    vstd::string::is_ascii_spec_bytes("{\"players\":[");
    vstd::string::is_ascii_spec_bytes("{\"players\":[]}");
    assert("]}".spec_bytes() =~= seq![93u8, 125]);
    assert("{\"players\":[".spec_bytes() + "]}".spec_bytes() =~= "{\"players\":[]}".spec_bytes());
}

/// Every byte of a number's digits is an ASCII digit.
proof fn lemma_digits_are_digits(n: nat)
    ensures
        digits(n).len() >= 1,
        forall|k: int| 0 <= k < digits(n).len() ==> 48 <= #[trigger] digits(n)[k] <= 57,
    decreases n,
{
    if n >= 10 {
        lemma_digits_are_digits(n / 10);
    }
}

/// Different numbers have different digits.
proof fn lemma_digits_injective(a: nat, b: nat)
    requires
        digits(a) == digits(b),
    ensures
        a == b,
    decreases a,
{
    lemma_digits_are_digits(a);
    lemma_digits_are_digits(b);
    if a >= 10 && b >= 10 {
        assert(digits(a).drop_last() == digits(a / 10));
        assert(digits(b).drop_last() == digits(b / 10));
        lemma_digits_injective(a / 10, b / 10);
        assert(digits(a).last() == digits(b).last());
        assert(digits(a).last() == (48 + a % 10) as u8);
        assert(digits(b).last() == (48 + b % 10) as u8);
        assert(a % 10 == b % 10);
        assert(a == 10 * (a / 10) + a % 10);
        assert(b == 10 * (b / 10) + b % 10);
    } else if a < 10 && b < 10 {
        assert(digits(a)[0] == digits(b)[0]);
        assert(digits(a)[0] == (48 + a) as u8);
        assert(digits(b)[0] == (48 + b) as u8);
    } else if a >= 10 {
        lemma_digits_are_digits(a / 10);
        assert(digits(a).len() >= 2);
    } else {
        lemma_digits_are_digits(b / 10);
        assert(digits(b).len() >= 2);
    }
}

/// Different integers have different decimal texts; a decimal text is a
/// minus sign or a digit followed by digits.
pub proof fn law_decimal_injective(a: int, b: int)
    ensures
        decimal(a) == decimal(b) ==> a == b,
        decimal(a).len() >= 1,
        forall|k: int| 0 <= k < decimal(a).len() ==> 48 <= #[trigger] decimal(a)[k] <= 57 || (k == 0
            && decimal(a)[k] == 45),
{
    let da = if a < 0 { (-a) as nat } else { a as nat };
    let db = if b < 0 { (-b) as nat } else { b as nat };
    lemma_digits_are_digits(da);
    lemma_digits_are_digits(db);
    assert forall|k: int| 0 <= k < decimal(a).len() implies 48 <= #[trigger] decimal(a)[k] <= 57
        || (k == 0 && decimal(a)[k] == 45) by {
        if a < 0 && k > 0 {
            assert(decimal(a)[k] == digits(da)[k - 1]);
        }
    }
    if decimal(a) == decimal(b) {
        if a < 0 && b < 0 {
            assert(decimal(a).drop_first() =~= digits(da));
            assert(decimal(b).drop_first() =~= digits(db));
            lemma_digits_injective(da, db);
        } else if a >= 0 && b >= 0 {
            lemma_digits_injective(da, db);
        } else if a < 0 {
            assert(decimal(a)[0] == 45);
            assert(decimal(b)[0] == digits(db)[0]);
        } else {
            assert(decimal(b)[0] == 45);
            assert(decimal(a)[0] == digits(da)[0]);
        }
    }
}

/// The state document opens with the current player's score: after
/// `{"score":` comes the decimal text of that score, and then a comma.
pub proof fn law_state_document_reports_current_score(s: GameView)
    requires
        s.is_valid(),
        s.current is Some,
    ensures
        ({
            let d = state_document(s);
            let score = decimal(s.players[s.current->0].score);
            &&& d.len() > 9 + score.len() as int
            &&& d.subrange(0, 9) == "{\"score\":".spec_bytes()
            &&& d.subrange(9, 9 + score.len() as int) == score
            &&& d[9 + score.len() as int] == 44
        }),
{
    lemma_document_bytes();
    let d = state_document(s);
    let score = decimal(s.players[s.current->0].score);
    let head = "{\"score\":".spec_bytes();
    let sep = ",\"last_player\":\"".spec_bytes();
    let rest = state_document(s).subrange(9 + score.len() as int, d.len() as int);
    assert(d == head + score + (sep + s.last_player + "\",\"last_robot\":\"".spec_bytes()
        + s.last_robot + "\",\"last_winner\":\"".spec_bytes() + s.last_winner + "\"}".spec_bytes())) by {
        assert(d =~= head + score + (sep + s.last_player + "\",\"last_robot\":\"".spec_bytes()
            + s.last_robot + "\",\"last_winner\":\"".spec_bytes() + s.last_winner
            + "\"}".spec_bytes()));
    }
    assert(d.subrange(0, 9) =~= head);
    assert(d.subrange(9, 9 + score.len() as int) =~= score);
}

/// Two states with the same current position whose current players'
/// scores differ give different state documents; states that differ only in
/// the other players give the same document.
pub proof fn law_state_document_follows_current(s: GameView, t: GameView)
    requires
        s.is_valid(),
        t.is_valid(),
        s.current is Some,
        t.current == s.current,
        s.last_player == t.last_player,
        s.last_robot == t.last_robot,
        s.last_winner == t.last_winner,
    ensures
        s.players[s.current->0].score != t.players[s.current->0].score ==> state_document(s)
            != state_document(t),
        s.players[s.current->0].score == t.players[s.current->0].score ==> state_document(s)
            == state_document(t),
{
    let i = s.current->0;
    let a = s.players[i].score;
    let b = t.players[i].score;
    if a != b {
        law_state_document_reports_current_score(s);
        law_state_document_reports_current_score(t);
        law_decimal_injective(a, b);
        law_decimal_injective(b, a);
        let da = decimal(a);
        let db = decimal(b);
        if state_document(s) == state_document(t) {
            let d = state_document(s);
            if da.len() == db.len() {
                assert(da =~= db) by {
                    assert forall|k: int| 0 <= k < da.len() implies da[k] == db[k] by {
                        assert(da[k] == d.subrange(9, 9 + da.len() as int)[k]);
                        assert(db[k] == d.subrange(9, 9 + db.len() as int)[k]);
                    }
                }
            } else if da.len() < db.len() {
                assert(d[9 + da.len() as int] == 44);
                assert(d[9 + da.len() as int] == db[da.len() as int]) by {
                    assert(db[da.len() as int] == d.subrange(9, 9 + db.len() as int)[da.len() as int]);
                }
            } else {
                assert(d[9 + db.len() as int] == 44);
                assert(d[9 + db.len() as int] == da[db.len() as int]) by {
                    assert(da[db.len() as int] == d.subrange(9, 9 + da.len() as int)[db.len() as int]);
                }
            }
        }
    }
}

/// The players document of an empty roster is `{"players":[]}`, and adding
/// a player to the roster adds that player's entry at the end of the list,
/// after a comma when the list was not empty: the document lists every
/// player on the roster, in order.
pub proof fn law_players_document_lists_every_player(ps: Seq<PlayerView>, p: PlayerView)
    ensures
        players_document(Seq::empty()) == "{\"players\":[]}".spec_bytes(),
        ({
            let before = players_document(ps);
            let after = players_document(ps.push(p));
            let sep = if ps.len() == 0 {
                Seq::<u8>::empty()
            } else {
                ",".spec_bytes()
            };
            &&& before.len() >= 2
            &&& after == before.subrange(0, before.len() - 2) + sep + player_entry(p)
                + "]}".spec_bytes()
        }),
{
    lemma_document_bytes();
    let head = "{\"players\":[".spec_bytes();
    let tail = "]}".spec_bytes();
    assert(players_document(Seq::empty()) =~= head + tail);
    let before = players_document(ps);
    assert(before.subrange(0, before.len() - 2) =~= head + player_entries(ps));
    let q = ps.push(p);
    assert(q.drop_last() =~= ps);
    assert(q.last() == p);
    if ps.len() == 0 {
        assert(player_entries(q) == player_entry(q[0]));
        assert(player_entries(ps) =~= Seq::<u8>::empty());
        assert(players_document(q) =~= head + player_entries(ps) + Seq::<u8>::empty()
            + player_entry(p) + tail);
    } else {
        assert(players_document(q) =~= head + player_entries(ps) + ",".spec_bytes()
            + player_entry(p) + tail);
    }
}

impl GameState {
    /// The state's invariant, on its view.
    pub open spec fn wf(&self) -> bool {
        self@.is_valid()
    }

    /// An empty game: no players, nobody logged in, no round played.
    pub fn new() -> (s: Self)
        ensures
            s.wf(),
            s@.players == Seq::<PlayerView>::empty(),
            s@.current == None::<int>,
            s@.last_player == Seq::<u8>::empty(),
            s@.last_robot == Seq::<u8>::empty(),
            s@.last_winner == Seq::<u8>::empty(),
    {
        let s = GameState {
            players: roster_new(),
            current_player: None,
            last_player_move: label_new(),
            last_robot_move: label_new(),
            last_winner: label_new(),
        };
        assert(s@.players =~= Seq::<PlayerView>::empty());
        s
    }

    /// The robot's move, picked by a random number: its remainder modulo
    /// three chooses rock, paper or scissors. The player's index does not
    /// enter into the choice.
    pub fn predict_and_play(&self, _player_idx: usize, rand_val: u32) -> (m: &'static str)
        ensures
            m.spec_bytes() == move_for(rand_val),
    {
        match rand_val % 3 {
            0 => "ROCK",
            1 => "PAPER",
            _ => "SCISSORS",
        }
    }

    /// The history code of a gesture: 0 for rock, 1 for paper, 2 for
    /// scissors, nothing for any other text.
    pub fn gesture_to_u8(g: &str) -> (r: Option<u8>)
        ensures
            r == gesture_code(g.spec_bytes()),
    {
        if same_text(g, "ROCK") {
            Some(0)
        } else if same_text(g, "PAPER") {
            Some(1)
        } else if same_text(g, "SCISSORS") {
            Some(2)
        } else {
            None
        }
    }

    /// The verdict of a round: "PLAYER" when the player's gesture beats the
    /// robot's, "DRAW" when both texts are equal, "ROBOT" otherwise.
    pub fn who_wins(player: &str, robot: &str) -> (r: &'static str)
        ensures
            r.spec_bytes() == outcome(player.spec_bytes(), robot.spec_bytes()),
    {
        let rock = "ROCK";
        let paper = "PAPER";
        let scissors = "SCISSORS";
        if (same_text(player, rock) && same_text(robot, scissors)) || (same_text(player, paper)
            && same_text(robot, rock)) || (same_text(player, scissors) && same_text(robot, paper)) {
            "PLAYER"
        } else if same_text(player, robot) {
            "DRAW"
        } else {
            "ROBOT"
        }
    }

    /// Logs a player in under `name`: the first player of that name becomes
    /// current; a new name is added to the roster with score zero and becomes
    /// current; when the roster is full the last player becomes current.
    pub fn login(&mut self, name: &str)
        requires
            old(self).wf(),
        ensures
            final(self).wf(),
            final(self)@ == after_login(old(self)@, name.spec_bytes()),
    {
        let ghost s = self@;
        let ghost want = name.spec_bytes();
        let n = roster_len(&self.players);
        let mut i: usize = 0;
        while i < n
            invariant
                self@ == s,
                s == old(self)@,
                want == name.spec_bytes(),
                s.is_valid(),
                n == s.players.len(),
                s.players == roster_items(self.players).map_values(|p: Player| p@),
                i <= n,
                forall|j: int| 0 <= j < i ==> (#[trigger] s.players[j]).name != want,
            decreases n - i,
        {
            let p = roster_get(&self.players, i);
            assert(s.players[i as int] == p@);
            let found = same_text(name_as_str(&p.name), name);
            assert(found == (p@.name == want));
            if found {
                self.current_player = Some(i);
                proof {
                    assert(s.players[i as int].name == want);
                    assert(first_named(s.players, want, i as int));
                    assert(has_player_named(s.players, want));
                    let k = choose|k: int| first_named(s.players, want, k);
                    if k < i {
                        assert(s.players[k].name != want);
                    }
                    if k > i {
                        assert(s.players[i as int].name != want);
                    }
                    assert(k == i);
                    assert(self@ =~= after_login(s, want));
                }
                return;
            }
            i = i + 1;
        }
        assert(!has_player_named(s.players, want));
        let mut p = Player { name: name_new(), score: 0, history: history_new() };
        let _ = name_push_str(&mut p.name, name);
        assert(p@ == new_player(want)) by {
            assert(p@.name =~= kept_text(want, 32));
        }
        let _ = roster_push(&mut self.players, p);
        let len = roster_len(&self.players);
        self.current_player = Some(len - 1);
        proof {
            if s.players.len() < 15 {
                assert(self@.players =~= s.players.push(new_player(want)));
            } else {
                assert(self@.players =~= s.players);
            }
            assert(self@ =~= after_login(s, want));
        }
    }

    /// Whether playing `gesture` against the move picked by `rand_val` keeps
    /// the current player's score within `i32`.
    pub fn can_play(&self, gesture: &str, rand_val: u32) -> (r: bool)
        requires
            self.wf(),
        ensures
            r == round_fits(self@, gesture.spec_bytes(), rand_val),
    {
        match self.current_player {
            None => true,
            Some(idx) => {
                let robot_move = self.predict_and_play(idx, rand_val);
                let winner = GameState::who_wins(gesture, robot_move);
                let p = roster_get(&self.players, idx);
                proof {
                    lemma_words_distinct();
                    assert(self@.players[idx as int] == p@);
                }
                if same_text(winner, "PLAYER") {
                    p.score < i32::MAX
                } else if same_text(winner, "ROBOT") {
                    p.score > i32::MIN
                } else {
                    true
                }
            },
        }
    }

    /// Plays a round for the current player: the robot's move comes from
    /// `rand_val`, the verdict updates the player's score, a recognised
    /// gesture is recorded in the player's history while it has room, and the
    /// round is kept as the last one. Without a current player nothing
    /// happens and `None` is returned.
    pub fn play(&mut self, gesture: &str, rand_val: u32) -> (r: Option<Round>)
        requires
            old(self).wf(),
            round_fits(old(self)@, gesture.spec_bytes(), rand_val),
        ensures
            final(self).wf(),
            final(self)@ == after_play(old(self)@, gesture.spec_bytes(), rand_val),
            r is Some <==> old(self)@.current is Some,
            r matches Some(round) ==> round.robot_move.spec_bytes() == move_for(rand_val)
                && round.winner.spec_bytes() == outcome(gesture.spec_bytes(), move_for(rand_val)),
            r matches Some(round) ==> final(self)@.last_robot == round.robot_move.spec_bytes()
                && final(self)@.last_winner == round.winner.spec_bytes(),
            final(self)@.current == old(self)@.current,
    {
        let ghost s = self@;
        let ghost g = gesture.spec_bytes();
        match self.current_player {
            None => None,
            Some(idx) => {
                let robot_move = self.predict_and_play(idx, rand_val);
                let winner = GameState::who_wins(gesture, robot_move);
                let ghost verdict = outcome(g, move_for(rand_val));
                proof {
                    lemma_words_distinct();
                    lemma_word_bytes();
                }
                let ghost items = roster_items(self.players);
                let p = roster_get_mut(&mut self.players, idx);
                assert(p@ == s.players[idx as int]);
                if same_text(winner, "PLAYER") {
                    p.score = p.score + 1;
                } else if same_text(winner, "ROBOT") {
                    p.score = p.score - 1;
                }
                let code = GameState::gesture_to_u8(gesture);
                match code {
                    Some(c) => {
                        let _ = history_push(&mut p.history, c);
                    },
                    None => {},
                }
                let ghost updated = *p;
                assert(updated@ == PlayerView {
                    name: s.players[idx as int].name,
                    score: score_after(s.players[idx as int].score, verdict),
                    history: history_after(s.players[idx as int].history, g),
                });
                self.last_player_move = label_new();
                let _ = label_push_str(&mut self.last_player_move, gesture);
                self.last_robot_move = label_new();
                let _ = label_push_str(&mut self.last_robot_move, robot_move);
                self.last_winner = label_new();
                let _ = label_push_str(&mut self.last_winner, winner);
                proof {
                    assert(roster_items(self.players) == items.update(idx as int, updated));
                    assert(self@.players =~= s.players.update(idx as int, updated@));
                    assert(self@.last_player =~= kept_text(g, 16));
                    assert(self@ =~= after_play(s, g, rand_val));
                }
                Some(Round { robot_move, winner })
            },
        }
    }

    /// The players document: `{"players":[...]}` with each player's name and
    /// score, in roster order.
    pub fn players_json(&self) -> (out: Vec<u8>)
        ensures
            out@ == players_document(self@.players),
    {
        let ghost ps = self@.players;
        let mut out: Vec<u8> = Vec::new();
        push_text(&mut out, "{\"players\":[");
        let n = roster_len(&self.players);
        let mut i: usize = 0;
        while i < n
            invariant
                ps == self@.players,
                ps == roster_items(self.players).map_values(|p: Player| p@),
                n == ps.len(),
                i <= n,
                out@ == "{\"players\":[".spec_bytes() + player_entries(ps.take(i as int)),
            decreases n - i,
        {
            let ghost before = out@;
            if i > 0 {
                push_text(&mut out, ",");
            }
            let p = roster_get(&self.players, i);
            assert(ps[i as int] == p@);
            push_text(&mut out, "{\"name\":\"");
            push_text(&mut out, name_as_str(&p.name));
            push_text(&mut out, "\",\"score\":");
            push_decimal(&mut out, p.score);
            push_text(&mut out, "}");
            proof {
                let t = ps.take(i + 1);
                assert(t.drop_last() =~= ps.take(i as int));
                assert(t.last() == ps[i as int]);
                if i == 0 {
                    assert(out@ =~= before + player_entry(ps[0]));
                    assert(player_entries(t) == player_entry(t[0]));
                } else {
                    assert(out@ =~= before + ",".spec_bytes() + player_entry(ps[i as int]));
                }
                assert(out@ =~= "{\"players\":[".spec_bytes() + player_entries(t));
            }
            i = i + 1;
        }
        push_text(&mut out, "]}");
        assert(ps.take(n as int) =~= ps);
        assert(out@ =~= players_document(ps));
        out
    }

    /// The state document: the current player's score with the last round's
    /// gesture, robot move and verdict; a document of zeros and empty texts
    /// when nobody is logged in.
    pub fn state_json(&self) -> (out: Vec<u8>)
        requires
            self.wf(),
        ensures
            out@ == state_document(self@),
    {
        let mut out: Vec<u8> = Vec::new();
        match self.current_player {
            Some(idx) => {
                let p = roster_get(&self.players, idx);
                assert(self@.players[idx as int] == p@);
                push_text(&mut out, "{\"score\":");
                push_decimal(&mut out, p.score);
                push_text(&mut out, ",\"last_player\":\"");
                push_text(&mut out, label_as_str(&self.last_player_move));
                push_text(&mut out, "\",\"last_robot\":\"");
                push_text(&mut out, label_as_str(&self.last_robot_move));
                push_text(&mut out, "\",\"last_winner\":\"");
                push_text(&mut out, label_as_str(&self.last_winner));
                push_text(&mut out, "\"}");
                assert(out@ =~= state_document(self@));
            },
            None => {
                push_text(
                    &mut out,
                    "{\"score\":0,\"last_player\":\"\",\"last_robot\":\"\",\"last_winner\":\"\"}",
                );
                assert(out@ =~= state_document(self@));
            },
        }
        out
    }
    /// The index of the current player, if anyone is logged in.
    pub fn current_player(&self) -> (r: Option<usize>)
        ensures
            r matches Some(i) ==> self@.current == Some(i as int),
            r is None ==> self@.current is None,
    {
        self.current_player
    }

    /// The number of players on the roster.
    pub fn player_count(&self) -> (n: usize)
        ensures
            n == self@.players.len(),
    {
        roster_len(&self.players)
    }

    /// The gesture codes recorded for the player at `i`, oldest first.
    pub fn history(&self, i: usize) -> (h: Vec<u8>)
        requires
            i < self@.players.len(),
        ensures
            h@ == self@.players[i as int].history,
    {
        let p = roster_get(&self.players, i);
        assert(self@.players[i as int] == p@);
        let mut h: Vec<u8> = Vec::new();
        push_bytes(&mut h, history_as_slice(&p.history));
        h
    }
}

} // verus!
