# robohand

The logic of a rock-paper-scissors robot hand, verified with Verus.

A game board serves a small web page, keeps a roster of players and their
scores, picks the robot's move from a random number and sends the move and
the verdict over UART to a hand board, which moves four finger servos and
shows the verdict on a display.

- `src/rules.rs` — gesture words, who wins, gesture codes, the robot's move.
- `src/game.rs` — the game state: login, playing a round, the JSON documents.
- `src/bounded.rs` — the `heapless` collections the state is kept in.
- `src/text.rs` — byte strings, decimal numbers, request bodies.
- `src/protocol.rs` — the UART lines, the hand board's line reader and actions.
- `src/servo.rs` — PWM duties and the finger sequences of each gesture.
- `app/` — the two boards' firmware around the library (Wi-Fi, HTTP, UART,
  PWM, display).
