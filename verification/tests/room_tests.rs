use sketchroom::room::{Machine, Msg, Room};
use sketchroom::snapshot::{snapshot_for, PhaseSnapshot};

const A: u128 = 11;
const B: u128 = 22;
const C: u128 = 33;

fn current_artist(room: &Room) -> Option<u128> {
    match room.machine() {
        Machine::Joining { .. } => None,
        Machine::SelectingWord { artist } => Some(*artist),
        Machine::Drawing(d) => Some(d.artist),
    }
}

fn room_with_three() -> Room {
    let mut room = Room::new();
    room.update(A, Msg::GotJoin);
    room.update(B, Msg::GotJoin);
    room.update(C, Msg::GotJoin);
    room
}

/// Joins A, B, C and starts A's turn on the given word.
fn drawing_room(word: &str) -> Room {
    let mut room = room_with_three();
    room.update(
        A,
        Msg::SetName { id: A, name: "ann".to_string() },
    );
    room.update(A, Msg::WordSelected { word: word.to_string() });
    room
}

/// Runs ticks until the turn expires and the phase rotates.
fn expire_turn(room: &mut Room) {
    for _ in 0..200 {
        room.update(0, Msg::Tick);
    }
}

#[test]
fn joins_are_counted_once_each() {
    let mut room = Room::new();
    room.update(A, Msg::GotJoin);
    room.update(B, Msg::GotJoin);
    assert_eq!(room.users().len(), 2);
    // a second join of the same participant is a no-op
    room.update(A, Msg::GotJoin);
    assert_eq!(room.users().len(), 2);
    assert_eq!(room.users()[0].0, A);
    assert_eq!(room.users()[1].0, B);
}

#[test]
fn every_snapshot_shows_all_joined_participants() {
    let room = room_with_three();
    for me in [A, B, C] {
        let snap = snapshot_for(&room, me);
        assert_eq!(snap.me, me);
        assert_eq!(snap.users.len(), 3);
    }
}

#[test]
fn set_name_names_and_hands_out_word_choice() {
    let mut room = Room::new();
    room.update(A, Msg::GotJoin);
    room.update(B, Msg::GotJoin);
    room.update(
        A,
        Msg::SetName { id: A, name: "ann".to_string() },
    );
    assert_eq!(room.users()[0].1.name().as_str(), "ann");
    assert_eq!(room.users()[0].1.points(), 0);
    assert_eq!(current_artist(&room), Some(A));
    // a later name change does not disturb the phase
    room.update(
        B,
        Msg::SetName { id: B, name: "bo".to_string() },
    );
    assert_eq!(room.users()[1].1.name().as_str(), "bo");
    assert_eq!(current_artist(&room), Some(A));
}

#[test]
fn set_name_of_absent_participant_is_ignored() {
    let mut room = Room::new();
    room.update(A, Msg::GotJoin);
    room.update(
        B,
        Msg::SetName { id: B, name: "bo".to_string() },
    );
    assert_eq!(room.users().len(), 1);
    assert_eq!(current_artist(&room), None);
}

#[test]
fn word_selection_needs_the_artist_and_a_word() {
    let mut room = room_with_three();
    room.update(
        A,
        Msg::SetName { id: A, name: "ann".to_string() },
    );
    // not the artist: ignored
    room.update(B, Msg::WordSelected { word: "cat".to_string() });
    assert!(matches!(room.machine(), Machine::SelectingWord { .. }));
    // empty word: ignored
    room.update(A, Msg::WordSelected { word: String::new() });
    assert!(matches!(room.machine(), Machine::SelectingWord { .. }));
    // the artist with a word: the turn starts
    room.update(A, Msg::WordSelected { word: "cat".to_string() });
    match room.machine() {
        Machine::Drawing(d) => {
            assert_eq!(d.artist, A);
            assert_eq!(d.seconds_left, 180);
            assert_eq!(d.word.letters(), vec![None, None, None]);
            assert!(d.frames.is_empty());
            assert!(d.guesses.is_empty());
        }
        _ => panic!("expected a drawing phase"),
    }
}

#[test]
fn guesses_are_recorded_with_exact_correctness() {
    let mut room = drawing_room("hey");
    room.update(B, Msg::GotGuess { guess: "hay".to_string() });
    room.update(C, Msg::GotGuess { guess: "hey".to_string() });
    match room.machine() {
        Machine::Drawing(d) => {
            assert_eq!(d.guesses.len(), 2);
            assert_eq!(d.guesses[0].val, "hay");
            assert!(!d.guesses[0].correct);
            assert_eq!(d.guesses[0].user, B);
            assert_eq!(d.guesses[1].val, "hey");
            assert!(d.guesses[1].correct);
            assert_eq!(d.guesses[1].user, C);
            // guessing never discloses letters
            assert_eq!(d.word.letters(), vec![None, None, None]);
        }
        _ => panic!("expected a drawing phase"),
    }
}

#[test]
fn guesses_outside_a_turn_are_ignored() {
    let mut room = room_with_three();
    room.update(B, Msg::GotGuess { guess: "hey".to_string() });
    assert!(matches!(room.machine(), Machine::Joining { .. }));
}

#[test]
fn strokes_accumulate_in_order() {
    let mut room = drawing_room("hey");
    room.update(A, Msg::GotCanvasFrames { frames: vec![1, 2] });
    room.update(A, Msg::GotCanvasFrames { frames: vec![3] });
    match room.machine() {
        Machine::Drawing(d) => assert_eq!(d.frames, vec![1, 2, 3]),
        _ => panic!("expected a drawing phase"),
    }
}

#[test]
fn strokes_outside_a_turn_are_ignored() {
    let mut room = room_with_three();
    room.update(A, Msg::GotCanvasFrames { frames: vec![1, 2] });
    assert!(matches!(room.machine(), Machine::Joining { .. }));
}

#[test]
fn ticks_count_down_and_disclose_on_the_cadence() {
    let mut room = drawing_room("hey");
    for _ in 0..9 {
        room.update(0, Msg::Tick);
    }
    match room.machine() {
        Machine::Drawing(d) => {
            assert_eq!(d.seconds_left, 171);
            assert_eq!(d.word.revealed_len(), 0);
        }
        _ => panic!("expected a drawing phase"),
    }
    room.update(0, Msg::Tick);
    match room.machine() {
        Machine::Drawing(d) => {
            assert_eq!(d.seconds_left, 170);
            assert_eq!(d.word.letters(), vec![Some('h'), None, None]);
        }
        _ => panic!("expected a drawing phase"),
    }
}

#[test]
fn expiry_rotates_to_the_next_participant_in_join_order() {
    let mut room = drawing_room("cat");
    expire_turn(&mut room);
    assert_eq!(current_artist(&room), Some(B));
}

#[test]
fn a_full_cycle_of_turns_visits_each_participant_once() {
    let mut room = drawing_room("cat");
    let mut artists = Vec::new();
    for _ in 0..3 {
        expire_turn(&mut room);
        let artist = current_artist(&room).expect("a turn should be pending");
        artists.push(artist);
        room.update(artist, Msg::WordSelected { word: "dog".to_string() });
    }
    let mut sorted = artists.clone();
    sorted.sort();
    assert_eq!(sorted, vec![A, B, C]);
}

#[test]
fn artist_disconnect_ends_the_turn_at_once() {
    let mut room = drawing_room("cat");
    room.update(A, Msg::GotCanvasFrames { frames: vec![9] });
    room.update(B, Msg::GotGuess { guess: "dog".to_string() });
    room.update(A, Msg::GotLeave);
    assert!(!matches!(room.machine(), Machine::Drawing(_)));
    assert_eq!(room.users().len(), 2);
    assert!(room.users().iter().all(|(id, _)| *id != A));
    // deterministic next participant: roster is now [B, C], cursor moves to C
    assert_eq!(current_artist(&room), Some(C));
}

#[test]
fn other_disconnects_leave_the_turn_running() {
    let mut room = drawing_room("cat");
    room.update(A, Msg::GotCanvasFrames { frames: vec![7, 8] });
    room.update(B, Msg::GotLeave);
    match room.machine() {
        Machine::Drawing(d) => {
            assert_eq!(d.artist, A);
            assert_eq!(d.frames, vec![7, 8]);
        }
        _ => panic!("expected the turn to keep running"),
    }
    assert_eq!(room.users().len(), 2);
}

#[test]
fn last_disconnect_returns_the_room_to_joining() {
    let mut room = Room::new();
    room.update(A, Msg::GotJoin);
    room.update(
        A,
        Msg::SetName { id: A, name: "ann".to_string() },
    );
    room.update(A, Msg::WordSelected { word: "cat".to_string() });
    room.update(A, Msg::GotLeave);
    assert!(matches!(room.machine(), Machine::Joining { .. }));
    assert!(room.users().is_empty());
}

#[test]
fn unknown_disconnect_is_ignored() {
    let mut room = room_with_three();
    room.update(99, Msg::GotLeave);
    assert_eq!(room.users().len(), 3);
}

#[test]
fn snapshots_carry_the_mask_but_never_the_secret() {
    let mut room = drawing_room("hey");
    for _ in 0..10 {
        room.update(0, Msg::Tick);
    }
    room.update(B, Msg::GotGuess { guess: "hen".to_string() });
    let snap = snapshot_for(&room, B);
    assert_eq!(snap.users.len(), 3);
    match snap.phase {
        PhaseSnapshot::Drawing { artist, letters, seconds_left, frames, guesses } => {
            assert_eq!(artist, A);
            assert_eq!(seconds_left, 170);
            assert_eq!(letters, vec![Some('h'), None, None]);
            assert!(frames.is_empty());
            assert_eq!(guesses.len(), 1);
            assert_eq!(guesses[0].val, "hen");
            assert!(!guesses[0].correct);
        }
        _ => panic!("expected a drawing snapshot"),
    }
}

#[test]
fn ticks_outside_a_turn_are_ignored() {
    let mut room = room_with_three();
    room.update(0, Msg::Tick);
    assert!(matches!(room.machine(), Machine::Joining { .. }));
    assert_eq!(room.users().len(), 3);
}
