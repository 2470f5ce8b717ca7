use track_rs::bindings::{handle, Key};
use track_rs::state::{App, PlaybackState};
use track_rs::tracker::{Note, NotePitch};

fn under_cursor(app: &App) -> Option<Note> {
    app.pattern.get_step(app.cursor_track, app.cursor_row).unwrap().note
}

#[test]
fn quit_keys() {
    let mut app = App::new();
    handle(Key::Char('q'), &mut app);
    assert!(app.shutdown);
    let mut app = App::new();
    handle(Key::Char('Q'), &mut app);
    assert!(app.shutdown);
}

#[test]
fn space_toggles_playback() {
    let mut app = App::new();
    handle(Key::Char(' '), &mut app);
    assert_eq!(app.playback_state, PlaybackState::Playing);
    handle(Key::Char(' '), &mut app);
    assert_eq!(app.playback_state, PlaybackState::Stopped);
}

#[test]
fn movement_keys() {
    let mut app = App::new();
    handle(Key::Char('j'), &mut app);
    handle(Key::Char('j'), &mut app);
    handle(Key::Char('l'), &mut app);
    assert_eq!((app.cursor_row, app.cursor_track), (2, 1));
    handle(Key::Char('k'), &mut app);
    handle(Key::Char('h'), &mut app);
    handle(Key::Char('h'), &mut app);
    assert_eq!((app.cursor_row, app.cursor_track), (1, 0));
    for _ in 0..10 {
        handle(Key::Char('l'), &mut app);
    }
    assert_eq!(app.cursor_track, 3);
}

#[test]
fn note_keys_enter_white_keys() {
    let expected = [
        ('z', NotePitch::C),
        ('x', NotePitch::D),
        ('c', NotePitch::E),
        ('v', NotePitch::F),
        ('b', NotePitch::G),
        ('n', NotePitch::A),
        ('m', NotePitch::B),
    ];
    for (c, pitch) in expected {
        let mut app = App::new();
        handle(Key::Char(c), &mut app);
        assert_eq!(under_cursor(&app), Some(Note { pitch, octave: 4 }));
    }
}

#[test]
fn comma_enters_c_of_next_octave() {
    let mut app = App::new();
    handle(Key::Char(','), &mut app);
    assert_eq!(under_cursor(&app), Some(Note { pitch: NotePitch::C, octave: 5 }));
    assert_eq!(app.octave, 4);
}

#[test]
fn delete_clears_step() {
    let mut app = App::new();
    handle(Key::Char('v'), &mut app);
    handle(Key::Delete, &mut app);
    assert_eq!(under_cursor(&app), None);
}

#[test]
fn octave_keys_stay_in_range() {
    let mut app = App::new();
    for _ in 0..20 {
        handle(Key::Char('s'), &mut app);
    }
    assert_eq!(app.octave, 9);
    for _ in 0..20 {
        handle(Key::Char('a'), &mut app);
    }
    assert_eq!(app.octave, 0);
    handle(Key::Char('s'), &mut app);
    handle(Key::Char('x'), &mut app);
    assert_eq!(under_cursor(&app), Some(Note { pitch: NotePitch::D, octave: 1 }));
}

#[test]
fn octave_keys_clamp_a_large_octave() {
    let mut app = App::new();
    app.octave = 200;
    handle(Key::Char('s'), &mut app);
    assert_eq!(app.octave, 9);
    app.octave = 200;
    handle(Key::Char('a'), &mut app);
    assert_eq!(app.octave, 9);
}

#[test]
fn octave_up_then_down_round_trip() {
    let mut app = App::new();
    handle(Key::Char('s'), &mut app);
    handle(Key::Char('a'), &mut app);
    assert_eq!(app.octave, 4);
}

#[test]
fn unbound_keys_change_nothing() {
    let mut app = App::new();
    handle(Key::Char('?'), &mut app);
    handle(Key::Other, &mut app);
    assert_eq!(app.cursor_row, 0);
    assert_eq!(app.octave, 4);
    assert!(!app.shutdown);
    assert_eq!(app.playback_state, PlaybackState::Stopped);
    assert!(app.pattern.tracks.iter().all(|t| t.iter().all(|s| s.note.is_none())));
}
