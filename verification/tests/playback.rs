use track_rs::bindings::{handle, Key};
use track_rs::playback::{
    frame_due, playback_tick, row_interval_nanos, sleep_nanos, ClockAction, FRAME_PERIOD_NANOS,
};
use track_rs::state::App;
use track_rs::tracker::{Note, NotePitch, Pattern};

#[test]
fn row_interval_at_120_bpm_is_an_eighth_second() {
    assert_eq!(row_interval_nanos(120), 125_000_000);
    assert_eq!(row_interval_nanos(60), 250_000_000);
    assert_eq!(row_interval_nanos(1), 15_000_000_000);
    assert_eq!(row_interval_nanos(u32::MAX), 3);
}

#[test]
fn frame_is_due_after_fifty_millis() {
    assert!(!frame_due(49_999_999));
    assert!(frame_due(50_000_000));
    assert_eq!(FRAME_PERIOD_NANOS, 50_000_000);
}

#[test]
fn notes_at_row_collects_tracks_in_order() {
    let mut p = Pattern::new(4, 3);
    p.set_step(2, 1, Some(Note { pitch: NotePitch::E, octave: 2 })).unwrap();
    p.set_step(0, 1, Some(Note { pitch: NotePitch::C, octave: 3 })).unwrap();
    p.set_step(1, 0, Some(Note { pitch: NotePitch::B, octave: 1 })).unwrap();
    assert_eq!(
        p.notes_at_row(1),
        vec![Note { pitch: NotePitch::C, octave: 3 }, Note { pitch: NotePitch::E, octave: 2 }]
    );
    assert_eq!(p.notes_at_row(0), vec![Note { pitch: NotePitch::B, octave: 1 }]);
    assert!(p.notes_at_row(4).is_empty());
}

#[test]
fn notes_at_row_skips_short_tracks() {
    let mut p = Pattern::new(2, 2);
    p.set_step(1, 1, Some(Note { pitch: NotePitch::A, octave: 4 })).unwrap();
    p.tracks[0].pop();
    assert_eq!(p.notes_at_row(1), vec![Note { pitch: NotePitch::A, octave: 4 }]);
}

#[test]
fn stopped_tick_clears_clock_and_plays_nothing() {
    let mut app = App::new();
    handle(Key::Char('z'), &mut app);
    let tick = playback_tick(&mut app, Some(10_000_000_000), 125_000_000);
    assert_eq!(tick.clock, ClockAction::Clear);
    assert!(tick.notes.is_empty());
    assert_eq!(app.playback_row, 0);
}

#[test]
fn first_tick_plays_current_row_without_advancing() {
    let mut app = App::new();
    handle(Key::Char('z'), &mut app);
    handle(Key::Char(' '), &mut app);
    let tick = playback_tick(&mut app, None, 125_000_000);
    assert_eq!(tick.clock, ClockAction::Restart);
    assert_eq!(tick.notes, vec![Note { pitch: NotePitch::C, octave: 4 }]);
    assert_eq!(app.playback_row, 0);
}

#[test]
fn due_tick_advances_and_plays_next_row() {
    let mut app = App::new();
    handle(Key::Char('j'), &mut app);
    handle(Key::Char('m'), &mut app);
    handle(Key::Char('l'), &mut app);
    handle(Key::Char('n'), &mut app);
    handle(Key::Char(' '), &mut app);
    let tick = playback_tick(&mut app, Some(125_000_000), 125_000_000);
    assert_eq!(tick.clock, ClockAction::Restart);
    assert_eq!(app.playback_row, 1);
    assert_eq!(
        tick.notes,
        vec![Note { pitch: NotePitch::B, octave: 4 }, Note { pitch: NotePitch::A, octave: 4 }]
    );
}

#[test]
fn early_tick_keeps_clock() {
    let mut app = App::new();
    handle(Key::Char(' '), &mut app);
    let tick = playback_tick(&mut app, Some(124_999_999), 125_000_000);
    assert_eq!(tick.clock, ClockAction::Keep);
    assert!(tick.notes.is_empty());
    assert_eq!(app.playback_row, 0);
}

#[test]
fn new_editor_plays_silence() {
    let mut app = App::new();
    handle(Key::Char(' '), &mut app);
    for _ in 0..70 {
        let tick = playback_tick(&mut app, Some(200_000_000), 125_000_000);
        assert!(tick.notes.is_empty());
    }
    assert_eq!(app.playback_row, 70 % 64);
}

#[test]
fn sleep_while_stopped_follows_the_frame() {
    let app = App::new();
    assert_eq!(sleep_nanos(&app, None, 125_000_000, 0), 10_000_000);
    assert_eq!(sleep_nanos(&app, None, 125_000_000, 43_000_000), 7_000_000);
    assert_eq!(sleep_nanos(&app, None, 125_000_000, 46_000_000), 1_000_000);
    assert_eq!(sleep_nanos(&app, None, 125_000_000, 90_000_000), 1_000_000);
}

#[test]
fn sleep_while_playing_follows_the_step() {
    let mut app = App::new();
    handle(Key::Char(' '), &mut app);
    assert_eq!(sleep_nanos(&app, None, 125_000_000, 0), 1_000_000);
    assert_eq!(sleep_nanos(&app, Some(119_000_000), 125_000_000, 0), 6_000_000);
    assert_eq!(sleep_nanos(&app, Some(122_000_000), 125_000_000, 0), 1_000_000);
    assert_eq!(sleep_nanos(&app, Some(0), 125_000_000, 0), 10_000_000);
    assert_eq!(sleep_nanos(&app, Some(0), 125_000_000, 42_000_000), 8_000_000);
}
