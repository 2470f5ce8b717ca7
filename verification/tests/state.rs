use track_rs::state::{App, CursorOffset, PlaybackState};
use track_rs::tracker::{Note, NotePitch};

#[test]
fn new_app_defaults() {
    let app = App::new();
    assert_eq!(app.pattern.num_rows, 64);
    assert_eq!(app.pattern.tracks.len(), 4);
    assert_eq!(app.cursor_row, 0);
    assert_eq!(app.cursor_track, 0);
    assert_eq!(app.playback_row, 0);
    assert_eq!(app.playback_state, PlaybackState::Stopped);
    assert_eq!(app.octave, 4);
    assert_eq!(app.bpm, 120);
    assert!(!app.shutdown);
    assert!(app.is_well_formed());
}

#[test]
fn apply_to_moves_and_saturates() {
    assert_eq!(CursorOffset::Pos(3).apply_to(4), 7);
    assert_eq!(CursorOffset::Neg(3).apply_to(4), 1);
    assert_eq!(CursorOffset::Neg(5).apply_to(4), 4);
    assert_eq!(CursorOffset::Pos(1).apply_to(usize::MAX), usize::MAX);
    assert_eq!(CursorOffset::Stay.apply_to(9), 9);
}

#[test]
fn offset_cursor_clamps_to_pattern() {
    let mut app = App::new();
    app.offset_cursor(&CursorOffset::Pos(100), &CursorOffset::Pos(100));
    assert_eq!(app.cursor_row, 63);
    assert_eq!(app.cursor_track, 3);
    app.offset_cursor(&CursorOffset::Neg(100), &CursorOffset::Neg(1));
    // Moving back past the first row leaves the row as it was.
    assert_eq!(app.cursor_row, 63);
    assert_eq!(app.cursor_track, 2);
    app.offset_cursor(&CursorOffset::Neg(63), &CursorOffset::Stay);
    assert_eq!(app.cursor_row, 0);
}

#[test]
fn offset_cursor_brings_stray_cursor_back() {
    let mut app = App::new();
    app.cursor_row = 1000;
    app.cursor_track = 1000;
    app.offset_cursor(&CursorOffset::Stay, &CursorOffset::Stay);
    assert_eq!(app.cursor_row, 63);
    assert_eq!(app.cursor_track, 3);
}

#[test]
fn cursor_round_trip() {
    let mut app = App::new();
    app.offset_cursor(&CursorOffset::Pos(2), &CursorOffset::Pos(1));
    app.offset_cursor(&CursorOffset::Pos(5), &CursorOffset::Pos(2));
    app.offset_cursor(&CursorOffset::Neg(5), &CursorOffset::Neg(2));
    assert_eq!((app.cursor_row, app.cursor_track), (2, 1));
}

#[test]
fn shutdown_sets_flag() {
    let mut app = App::new();
    app.shutdown();
    assert!(app.shutdown);
    app.shutdown();
    assert!(app.shutdown);
}

#[test]
fn toggle_playback_starts_at_first_row_and_stops() {
    let mut app = App::new();
    app.playback_row = 10;
    app.toggle_playback();
    assert_eq!(app.playback_state, PlaybackState::Playing);
    assert_eq!(app.playback_row, 0);
    app.advance_playback_row();
    app.toggle_playback();
    assert_eq!(app.playback_state, PlaybackState::Stopped);
    assert_eq!(app.playback_row, 1);
    app.toggle_playback();
    assert_eq!(app.playback_row, 0);
}

#[test]
fn advance_wraps_after_last_row() {
    let mut app = App::new();
    app.toggle_playback();
    for _ in 0..63 {
        app.advance_playback_row();
    }
    assert_eq!(app.playback_row, 63);
    app.advance_playback_row();
    assert_eq!(app.playback_row, 0);
}

#[test]
fn advance_full_cycle_returns_to_start() {
    let mut app = App::new();
    app.toggle_playback();
    app.advance_playback_row();
    app.advance_playback_row();
    for _ in 0..64 {
        app.advance_playback_row();
    }
    assert_eq!(app.playback_row, 2);
}

#[test]
fn advance_does_nothing_when_stopped() {
    let mut app = App::new();
    app.playback_row = 5;
    app.advance_playback_row();
    assert_eq!(app.playback_row, 5);
}

#[test]
fn insert_note_under_cursor_writes_there() {
    let mut app = App::new();
    app.cursor_row = 7;
    app.cursor_track = 2;
    let n = Note { pitch: NotePitch::G, octave: 3 };
    app.insert_note_under_cursor(Some(n));
    assert_eq!(app.pattern.get_step(2, 7).unwrap().note, Some(n));
    assert_eq!(app.pattern.get_step(2, 6).unwrap().note, None);
    app.insert_note_under_cursor(None);
    assert_eq!(app.pattern.get_step(2, 7).unwrap().note, None);
    assert!(app.is_well_formed());
}

#[test]
fn is_well_formed_detects_broken_states() {
    let mut app = App::new();
    app.cursor_row = 64;
    assert!(!app.is_well_formed());
    let mut app = App::new();
    app.octave = 10;
    assert!(!app.is_well_formed());
    let mut app = App::new();
    app.pattern.tracks[1].pop();
    assert!(!app.is_well_formed());
    let mut app = App::new();
    app.playback_row = 64;
    assert!(!app.is_well_formed());
}
