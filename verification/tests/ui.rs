use track_rs::bindings::{handle, Key};
use track_rs::state::App;
use track_rs::tracker::{Note, NotePitch, PatternStep};
use track_rs::ui::{cell_highlight, editor_cells, format_step, status_text, track_header, CellHighlight};

#[test]
fn format_step_of_notes_and_silence() {
    let step = |pitch, octave| PatternStep { note: Some(Note { pitch, octave }) };
    assert_eq!(format_step(step(NotePitch::C, 4)), "C4");
    assert_eq!(format_step(step(NotePitch::Cs, 4)), "Cs4");
    assert_eq!(format_step(step(NotePitch::As, 0)), "As0");
    assert_eq!(format_step(step(NotePitch::B, 12)), "B12");
    assert_eq!(format_step(step(NotePitch::Gs, 255)), "Gs255");
    assert_eq!(format_step(PatternStep { note: None }), " . ");
}

#[test]
fn pitch_names_match_debug_names() {
    let pitches = [
        NotePitch::C,
        NotePitch::Cs,
        NotePitch::D,
        NotePitch::Ds,
        NotePitch::E,
        NotePitch::F,
        NotePitch::Fs,
        NotePitch::G,
        NotePitch::Gs,
        NotePitch::A,
        NotePitch::As,
        NotePitch::B,
    ];
    for p in pitches {
        assert_eq!(p.name(), format!("{:?}", p));
    }
}

#[test]
fn track_headers_count_from_one() {
    assert_eq!(track_header(0), "Track 1");
    assert_eq!(track_header(9), "Track 10");
    assert_eq!(track_header(usize::MAX - 1), format!("Track {}", usize::MAX));
}

#[test]
fn status_text_of_new_editor() {
    let app = App::new();
    assert_eq!(
        status_text(&app),
        "State: Stopped | Pos: 00,00 | Playback Row: 00 | BPM: 120.0 | Octave 04"
    );
}

#[test]
fn status_text_while_playing() {
    let mut app = App::new();
    for _ in 0..12 {
        handle(Key::Char('j'), &mut app);
    }
    handle(Key::Char('l'), &mut app);
    handle(Key::Char(' '), &mut app);
    app.playback_row = 123;
    app.bpm = 95;
    assert_eq!(
        status_text(&app),
        "State: Playing | Pos: 12,01 | Playback Row: 123 | BPM: 95.0 | Octave 04"
    );
}

#[test]
fn highlights() {
    let mut app = App::new();
    handle(Key::Char('j'), &mut app);
    assert_eq!(cell_highlight(&app, 1, 0), CellHighlight::Cursor);
    assert_eq!(cell_highlight(&app, 1, 1), CellHighlight::Plain);
    assert_eq!(cell_highlight(&app, 0, 0), CellHighlight::Plain);
    handle(Key::Char(' '), &mut app);
    assert_eq!(cell_highlight(&app, 0, 2), CellHighlight::Playback);
    app.playback_row = 1;
    assert_eq!(cell_highlight(&app, 1, 0), CellHighlight::CursorOnPlayback);
    assert_eq!(cell_highlight(&app, 1, 3), CellHighlight::Playback);
}

#[test]
fn editor_cells_cover_the_grid() {
    let mut app = App::new();
    handle(Key::Char('l'), &mut app);
    handle(Key::Char('b'), &mut app);
    let rows = editor_cells(&app);
    assert_eq!(rows.len(), 64);
    assert!(rows.iter().all(|r| r.len() == 4));
    assert_eq!(rows[0][1].text, "G4");
    assert_eq!(rows[0][1].highlight, CellHighlight::Cursor);
    assert_eq!(rows[0][0].text, " . ");
    assert_eq!(rows[0][0].highlight, CellHighlight::Plain);
    assert_eq!(rows[63][3].text, " . ");
}
