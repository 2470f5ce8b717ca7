use track_rs::tracker::{Note, NotePitch, Pattern, PatternError, PatternStep};

fn note(pitch: NotePitch, octave: u8) -> Note {
    Note { pitch, octave }
}

#[test]
fn new_pattern_is_silent_and_full() {
    let p = Pattern::new(8, 3);
    assert_eq!(p.num_rows, 8);
    assert_eq!(p.tracks.len(), 3);
    for track in &p.tracks {
        assert_eq!(track.len(), 8);
        assert!(track.iter().all(|s| s.note.is_none()));
    }
}

#[test]
fn new_pattern_with_no_tracks_or_rows() {
    let p = Pattern::new(0, 2);
    assert_eq!(p.tracks.len(), 2);
    assert!(p.tracks.iter().all(|t| t.is_empty()));
    let q = Pattern::new(5, 0);
    assert!(q.tracks.is_empty());
    assert!(q.get_step(0, 0).is_none());
}

#[test]
fn get_step_in_and_out_of_range() {
    let p = Pattern::new(4, 2);
    assert_eq!(p.get_step(1, 3), Some(&PatternStep { note: None }));
    assert!(p.get_step(2, 0).is_none());
    assert!(p.get_step(0, 4).is_none());
}

#[test]
fn set_step_then_get_step_reads_back() {
    let mut p = Pattern::new(4, 2);
    assert_eq!(p.set_step(1, 2, Some(note(NotePitch::Fs, 3))), Ok(()));
    assert_eq!(p.get_step(1, 2).unwrap().note, Some(note(NotePitch::Fs, 3)));
    assert_eq!(p.get_step(0, 2).unwrap().note, None);
    assert_eq!(p.get_step(1, 1).unwrap().note, None);
    assert_eq!(p.set_step(1, 2, None), Ok(()));
    assert_eq!(p.get_step(1, 2).unwrap().note, None);
}

#[test]
fn set_step_overwrites() {
    let mut p = Pattern::new(2, 1);
    p.set_step(0, 1, Some(note(NotePitch::A, 1))).unwrap();
    p.set_step(0, 1, Some(note(NotePitch::B, 2))).unwrap();
    assert_eq!(p.get_step(0, 1).unwrap().note, Some(note(NotePitch::B, 2)));
}

#[test]
fn set_step_missing_track() {
    let mut p = Pattern::new(4, 2);
    assert_eq!(p.set_step(2, 0, Some(note(NotePitch::C, 4))), Err(PatternError::MissingTrack));
    assert!(p.tracks.iter().all(|t| t.iter().all(|s| s.note.is_none())));
}

#[test]
fn set_step_missing_row() {
    let mut p = Pattern::new(4, 2);
    assert_eq!(p.set_step(0, 4, Some(note(NotePitch::C, 4))), Err(PatternError::MissingRow));
    assert!(p.tracks.iter().all(|t| t.iter().all(|s| s.note.is_none())));
}

#[test]
fn missing_track_is_reported_before_missing_row() {
    let mut p = Pattern::new(1, 1);
    assert_eq!(p.set_step(3, 3, None), Err(PatternError::MissingTrack));
}

#[test]
fn pitch_classes_run_from_c_to_b() {
    let pitches = [
        NotePitch::C,
        NotePitch::Cs,
        NotePitch::D,
        NotePitch::Ds,
        NotePitch::E,
        NotePitch::F,
        NotePitch::Fs,
        NotePitch::G,
        NotePitch::Gs,
        NotePitch::A,
        NotePitch::As,
        NotePitch::B,
    ];
    for (i, p) in pitches.iter().enumerate() {
        assert_eq!(p.pitch_class(), i as i32);
    }
}

#[test]
fn midi_note_numbers() {
    assert_eq!(note(NotePitch::C, 4).midi_note(), 60);
    assert_eq!(note(NotePitch::A, 4).midi_note(), 69);
    assert_eq!(note(NotePitch::C, 0).midi_note(), 12);
    assert_eq!(note(NotePitch::B, 255).midi_note(), 255 * 12 + 23);
}

#[test]
fn default_step_is_silent() {
    assert_eq!(PatternStep::default(), PatternStep { note: None });
}
