use midnote::player::{MIN_SPEED, DEFAULT_SPEED};
use midnote::{Action, Command, Playback, Player, Response, State};

fn played(a: Action) -> usize {
    match a {
        Action::Play(p) => p.bar,
        other => panic!("expected a play action, got {:?}", other),
    }
}

#[test]
fn worked_scenario_five_bars() {
    let mut p = Player::new(5);
    assert_eq!(p.play_next(), Some(0));
    assert_eq!(p.play_next(), Some(1));
    assert_eq!(p.play_next(), Some(2));
    assert_eq!(p.play_prev(), Some(1));
    assert_eq!(p.play_prev(), Some(0));
    assert_eq!(p.play_prev(), None);
    assert_eq!(p.play_next(), Some(1));
}

#[test]
fn forward_moves_visit_every_bar_then_stop() {
    let mut p = Player::new(3);
    assert_eq!(played(p.handle(Command::Next)), 0);
    assert_eq!(played(p.handle(Command::Next)), 1);
    assert_eq!(played(p.handle(Command::Next)), 2);
    for _ in 0..4 {
        assert_eq!(p.handle(Command::Next), Action::Respond(Response::EndOfTrack));
    }
    assert_eq!(p.handle(Command::Reset), Action::Nothing);
    assert_eq!(played(p.handle(Command::Next)), 0);
}

#[test]
fn forward_moves_on_one_bar() {
    let mut p = Player::new(1);
    assert_eq!(p.play_next(), Some(0));
    assert_eq!(p.play_next(), None);
    assert_eq!(p.play_next(), None);
}

#[test]
fn no_bars_means_no_moves() {
    let mut p = Player::new(0);
    assert_eq!(p.handle(Command::Next), Action::Respond(Response::EndOfTrack));
    assert_eq!(p.handle(Command::Prev), Action::Respond(Response::StartOfTrack));
    assert_eq!(p.handle(Command::Replay), Action::Nothing);
}

#[test]
fn retreat_at_start_fails_and_keeps_cursor() {
    let mut p = Player::new(4);
    assert_eq!(p.handle(Command::Prev), Action::Respond(Response::StartOfTrack));
    assert_eq!(p.handle(Command::Prev), Action::Respond(Response::StartOfTrack));
    assert_eq!(played(p.handle(Command::Next)), 0);

    // Back at the first bar after a backward move.
    let mut q = Player::new(4);
    q.play_next();
    q.play_next();
    assert_eq!(q.play_prev(), Some(0));
    assert_eq!(q.play_prev(), None);
    assert_eq!(q.play_prev(), None);
    assert_eq!(q.play_next(), Some(1));
}

#[test]
fn advance_at_end_fails_and_keeps_cursor() {
    let mut p = Player::new(2);
    p.play_next();
    p.play_next();
    assert_eq!(p.play_next(), None);
    assert_eq!(p.play_next(), None);
    assert_eq!(p.play_prev(), Some(0));
}

#[test]
fn reversing_direction_plays_the_adjacent_bar() {
    let mut p = Player::new(6);
    p.play_next();
    p.play_next();
    p.play_next();
    p.play_next();
    assert_eq!(p.play_prev(), Some(2));
    assert_eq!(p.play_next(), Some(3));
    assert_eq!(p.play_next(), Some(4));
    assert_eq!(p.play_prev(), Some(3));
}

#[test]
fn replay_sounds_the_last_bar_with_current_settings() {
    let mut p = Player::new(5);
    p.handle(Command::Next);
    p.handle(Command::Next);
    p.handle(Command::Transpose(3));
    p.handle(Command::Solo);
    assert_eq!(
        p.handle(Command::Replay),
        Action::Play(Playback { bar: 1, solo: true, transpose: 3, speed: DEFAULT_SPEED })
    );
    assert_eq!(played(p.handle(Command::Next)), 2);
}

#[test]
fn replay_before_any_move_sounds_the_first_bar() {
    let mut p = Player::new(3);
    assert_eq!(played(p.handle(Command::Replay)), 0);
}

#[test]
fn silence_and_note_style_change_nothing() {
    let mut p = Player::new(3);
    assert_eq!(p.handle(Command::Silence), Action::Silence);
    assert_eq!(p.handle(Command::NoteStyle), Action::Nothing);
    assert_eq!(played(p.handle(Command::Next)), 0);
}

#[test]
fn only_plays_and_silence_stop_the_bar_in_flight() {
    let mut p = Player::new(3);
    let play = p.handle(Command::Next);
    assert!(play.cancels_in_flight());
    assert!(p.handle(Command::Silence).cancels_in_flight());
    assert!(!p.handle(Command::Info).cancels_in_flight());
    assert!(!p.handle(Command::Transpose(2)).cancels_in_flight());
    assert!(!p.handle(Command::Speed(5)).cancels_in_flight());
    assert!(!p.handle(Command::Solo).cancels_in_flight());
    assert!(!p.handle(Command::Reset).cancels_in_flight());
    assert!(p.handle(Command::Replay).cancels_in_flight());
    p.handle(Command::Next);
    p.handle(Command::Next);
    p.handle(Command::Next);
    // No next bar: nothing new sounds, so the bar in flight keeps playing.
    assert!(!p.handle(Command::Next).cancels_in_flight());
}

#[test]
fn info_reports_state() {
    let mut p = Player::new(7);
    p.handle(Command::Next);
    p.handle(Command::Next);
    assert_eq!(
        p.handle(Command::Info),
        Action::Respond(Response::State(State { transposition: 0, index: 1, length: 7, solo: false, speed: 100 }))
    );
}

#[test]
fn transpose_zero_resets() {
    let mut p = Player::new(1);
    p.transpose(5);
    p.transpose(4);
    assert_eq!(p.state().transposition, 9);
    p.transpose(0);
    assert_eq!(p.state().transposition, 0);
}

#[test]
fn transpose_accumulates_modulo_twelve() {
    let mut p = Player::new(1);
    p.transpose(7);
    p.transpose(7);
    assert_eq!(p.state().transposition, 2);
    p.transpose(-5);
    assert_eq!(p.state().transposition, -3);
    p.transpose(-11);
    assert_eq!(p.state().transposition, -2);
    p.transpose(127);
    assert_eq!(p.state().transposition, 5);
}

#[test]
fn transpose_round_trip() {
    for k in [1i8, 5, 11, 12, 13, -7, 100, -127] {
        let mut p = Player::new(1);
        p.transpose(4);
        p.transpose(k);
        p.transpose(-k);
        assert_eq!((p.state().transposition as i32 - 4).rem_euclid(12), 0, "k = {}", k);
    }
}

#[test]
fn transpose_reports_state() {
    let mut p = Player::new(2);
    assert_eq!(
        p.handle(Command::Transpose(-1)),
        Action::Respond(Response::State(State { transposition: -1, index: 0, length: 2, solo: false, speed: 100 }))
    );
}

#[test]
fn speed_never_reaches_below_floor() {
    let mut p = Player::new(1);
    for _ in 0..5 {
        match p.handle(Command::Speed(-100)) {
            Action::Respond(Response::State(s)) => {
                assert!(s.speed >= MIN_SPEED);
                assert!(s.speed > 0);
            }
            other => panic!("unexpected {:?}", other),
        }
    }
    assert_eq!(p.state().speed, 10);
}

#[test]
fn speed_steps() {
    let mut p = Player::new(1);
    p.change_speed(5);
    assert_eq!(p.state().speed, 105);
    p.change_speed(-50);
    assert_eq!(p.state().speed, 55);
    p.change_speed(-45);
    assert_eq!(p.state().speed, 10);
    p.change_speed(i32::MAX);
    p.change_speed(i32::MAX);
    p.change_speed(i32::MAX);
    assert_eq!(p.state().speed, u32::MAX);
}

#[test]
fn reset_restores_cursor_and_speed() {
    let mut p = Player::new(4);
    p.handle(Command::Next);
    p.handle(Command::Next);
    p.handle(Command::Speed(30));
    p.handle(Command::Transpose(2));
    p.handle(Command::Reset);
    let s = p.state();
    assert_eq!(s.speed, 100);
    assert_eq!(s.index, 0);
    assert_eq!(s.transposition, 2);
    assert_eq!(p.play_next(), Some(0));
}

#[test]
fn play_carries_settings() {
    let mut p = Player::new(3);
    p.handle(Command::Speed(-20));
    p.handle(Command::Transpose(-2));
    assert_eq!(
        p.handle(Command::Next),
        Action::Play(Playback { bar: 0, solo: false, transpose: -2, speed: 80 })
    );
    p.handle(Command::Solo);
    p.handle(Command::Solo);
    assert_eq!(
        p.handle(Command::Next),
        Action::Play(Playback { bar: 1, solo: false, transpose: -2, speed: 80 })
    );
}
