//! The key bindings: which key does what to the editor.

use vstd::prelude::*;
use crate::state::{clamp_to, App, AppView, CursorOffset, PlaybackState, MAX_OCTAVE};
use crate::tracker::{lemma_read_after_write, lemma_write_changes_one_step, Note, NotePitch, PatternStep};

verus! {

/// A key press, as far as the bindings tell keys apart.
#[derive(Clone, Copy, Debug, PartialEq, Eq, Structural)]
pub enum Key {
    /// A key that types a character.
    Char(char),
    /// The delete key.
    Delete,
    /// Any other key.
    Other,
}

/// The pitch that a note key enters in the current octave: the bottom row
/// of a keyboard `z x c v b n m` plays the white keys from C to B.
pub open spec fn pitch_for_char(c: char) -> Option<NotePitch> {
    if c == 'z' {
        Some(NotePitch::C)
    } else if c == 'x' {
        Some(NotePitch::D)
    } else if c == 'c' {
        Some(NotePitch::E)
    } else if c == 'v' {
        Some(NotePitch::F)
    } else if c == 'b' {
        Some(NotePitch::G)
    } else if c == 'n' {
        Some(NotePitch::A)
    } else if c == 'm' {
        Some(NotePitch::B)
    } else {
        None
    }
}

/// The octave after the key that lowers it: one less, not below 0, and no
/// higher than the largest octave.
pub open spec fn octave_down(octave: u8) -> u8 {
    clamp_to(if octave >= 1 { octave - 1 } else { 0 }, MAX_OCTAVE as int) as u8
}

/// The octave after the key that raises it: one more, not past 255, and no
/// higher than the largest octave.
pub open spec fn octave_up(octave: u8) -> u8 {
    clamp_to(if octave < 255 { octave + 1 } else { 255 }, MAX_OCTAVE as int) as u8
}

impl AppView {
    /// Whether handling `key` in this state stays within what the editor
    /// can do: moves need a pattern with rows and tracks, note entry needs
    /// the cursor on a step, and the key for C of the next octave needs an
    /// octave that has a next one.
    pub open spec fn accepts_key(self, key: Key) -> bool {
        match key {
            Key::Char(c) => if c == 'k' || c == 'j' || c == 'h' || c == 'l' {
                self.pattern.num_rows > 0 && self.pattern.tracks.len() > 0
            } else if pitch_for_char(c) is Some {
                self.cursor_on_step()
            } else if c == ',' {
                self.cursor_on_step() && self.octave < 255
            } else {
                true
            },
            Key::Delete => self.cursor_on_step(),
            Key::Other => true,
        }
    }

    /// The state after handling `key`:
    /// `q`/`Q` quits, space starts or stops playback, `k`/`j` move the
    /// cursor up/down a row and `h`/`l` left/right a track, the note keys
    /// write a note of the current octave under the cursor (`,` writes C of
    /// the next octave), delete clears the step under the cursor, and
    /// `a`/`s` lower/raise the octave within `0..=9`. Other keys change
    /// nothing.
    pub open spec fn after_key(self, key: Key) -> AppView {
        match key {
            Key::Char(c) => if c == 'q' || c == 'Q' {
                self.shut_down()
            } else if c == ' ' {
                self.toggled()
            } else if c == 'k' {
                self.with_cursor_offset(CursorOffset::Neg(1), CursorOffset::Stay)
            } else if c == 'j' {
                self.with_cursor_offset(CursorOffset::Pos(1), CursorOffset::Stay)
            } else if c == 'h' {
                self.with_cursor_offset(CursorOffset::Stay, CursorOffset::Neg(1))
            } else if c == 'l' {
                self.with_cursor_offset(CursorOffset::Stay, CursorOffset::Pos(1))
            } else if pitch_for_char(c) is Some {
                self.with_note_under_cursor(
                    Some(Note { pitch: pitch_for_char(c).unwrap(), octave: self.octave }),
                )
            } else if c == ',' {
                self.with_note_under_cursor(
                    Some(Note { pitch: NotePitch::C, octave: (self.octave + 1) as u8 }),
                )
            } else if c == 'a' {
                AppView { octave: octave_down(self.octave), ..self }
            } else if c == 's' {
                AppView { octave: octave_up(self.octave), ..self }
            } else {
                self
            },
            Key::Delete => self.with_note_under_cursor(None),
            Key::Other => self,
        }
    }
}

/// A well-formed editor accepts every key, and handling any key leaves it
/// well-formed.
pub proof fn lemma_keys_keep_wf(app: AppView, key: Key)
    requires
        app.wf(),
    ensures
        app.accepts_key(key),
        app.after_key(key).wf(),
{
    let after = app.after_key(key);
    assert forall|t: int| 0 <= t < after.pattern.tracks.len() implies #[trigger] after.pattern.tracks[t].len()
        == after.pattern.num_rows by {
        assert(app.pattern.tracks[t].len() == app.pattern.num_rows);
    }
}

/// `value` limited to `0..=max`.
fn clamp_octave(value: u8, max: u8) -> (clamped: u8)
    ensures
        clamped == clamp_to(value as int, max as int),
{
    if value > max {
        max
    } else {
        value
    }
}

/// Applies the binding of `key` to the editor.
pub fn handle(key: Key, state: &mut App)
    requires
        old(state)@.accepts_key(key),
    ensures
        final(state)@ == old(state)@.after_key(key),
        old(state)@.wf() ==> final(state)@.wf(),
{
    proof {
        if old(state)@.wf() {
            lemma_keys_keep_wf(old(state)@, key);
        }
    }
    match key {
        Key::Char('q') | Key::Char('Q') => state.shutdown(),
        Key::Char(' ') => state.toggle_playback(),
        Key::Char('k') => state.offset_cursor(&CursorOffset::Neg(1), &CursorOffset::Stay),
        Key::Char('j') => state.offset_cursor(&CursorOffset::Pos(1), &CursorOffset::Stay),
        Key::Char('h') => state.offset_cursor(&CursorOffset::Stay, &CursorOffset::Neg(1)),
        Key::Char('l') => state.offset_cursor(&CursorOffset::Stay, &CursorOffset::Pos(1)),
        Key::Char('z') => state.insert_note_under_cursor(
            Some(Note { pitch: NotePitch::C, octave: state.octave }),
        ),
        Key::Char('x') => state.insert_note_under_cursor(
            Some(Note { pitch: NotePitch::D, octave: state.octave }),
        ),
        Key::Char('c') => state.insert_note_under_cursor(
            Some(Note { pitch: NotePitch::E, octave: state.octave }),
        ),
        Key::Char('v') => state.insert_note_under_cursor(
            Some(Note { pitch: NotePitch::F, octave: state.octave }),
        ),
        Key::Char('b') => state.insert_note_under_cursor(
            Some(Note { pitch: NotePitch::G, octave: state.octave }),
        ),
        Key::Char('n') => state.insert_note_under_cursor(
            Some(Note { pitch: NotePitch::A, octave: state.octave }),
        ),
        Key::Char('m') => state.insert_note_under_cursor(
            Some(Note { pitch: NotePitch::B, octave: state.octave }),
        ),
        Key::Char(',') => state.insert_note_under_cursor(
            Some(Note { pitch: NotePitch::C, octave: state.octave + 1 }),
        ),
        Key::Delete => state.insert_note_under_cursor(None),
        Key::Char('a') => state.octave = clamp_octave(state.octave.saturating_sub(1), MAX_OCTAVE),
        Key::Char('s') => state.octave = clamp_octave(state.octave.saturating_add(1), MAX_OCTAVE),
        _ => {},
    }
}

/// The octave keys never leave the range `0..=9`, and within it raising
/// then lowering (or lowering then raising) the octave returns it where it
/// was.
pub proof fn lemma_octave_keys(app: AppView)
    ensures
        app.after_key(Key::Char('a')).octave <= MAX_OCTAVE,
        app.after_key(Key::Char('s')).octave <= MAX_OCTAVE,
        app.octave < MAX_OCTAVE ==> app.after_key(Key::Char('s')).after_key(Key::Char('a')).octave
            == app.octave,
        1 <= app.octave <= MAX_OCTAVE ==> app.after_key(Key::Char('a')).after_key(
            Key::Char('s'),
        ).octave == app.octave,
        app.after_key(Key::Char('a')).pattern == app.pattern,
        app.after_key(Key::Char('s')).pattern == app.pattern,
        app.octave < 9 ==> app.after_key(Key::Char('s')).octave == app.octave + 1,
        app.octave >= 9 ==> app.after_key(Key::Char('s')).octave == 9,
        1 <= app.octave <= 10 ==> app.after_key(Key::Char('a')).octave == app.octave - 1,
        app.octave == 0 ==> app.after_key(Key::Char('a')).octave == 0,
        app.octave > 10 ==> app.after_key(Key::Char('a')).octave == 9,
{
}

/// `q` and `Q` set the quit flag and space starts or stops playback
/// (starting on the first row); neither touches the grid, the cursor or
/// the octave.
pub proof fn lemma_quit_and_space(app: AppView)
    ensures
        app.after_key(Key::Char('q')).shutdown,
        app.after_key(Key::Char('Q')).shutdown,
        app.after_key(Key::Char('q')) == (AppView { shutdown: true, ..app }),
        app.after_key(Key::Char('Q')) == (AppView { shutdown: true, ..app }),
        app.playback_state is Stopped ==> app.after_key(Key::Char(' ')) == (AppView {
            playback_state: PlaybackState::Playing,
            playback_row: 0,
            ..app
        }),
        app.playback_state is Playing ==> app.after_key(Key::Char(' ')) == (AppView {
            playback_state: PlaybackState::Stopped,
            ..app
        }),
{
}

/// `j`/`k` move the cursor one row down/up and `l`/`h` one track
/// right/left, staying put at the edges of the pattern; nothing else
/// changes.
pub proof fn lemma_movement_keys(app: AppView)
    requires
        app.wf(),
    ensures
        app.after_key(Key::Char('j')) == (AppView {
            cursor_row: if app.cursor_row + 1 < app.pattern.num_rows {
                (app.cursor_row + 1) as usize
            } else {
                app.cursor_row
            },
            ..app
        }),
        app.after_key(Key::Char('k')) == (AppView {
            cursor_row: if app.cursor_row > 0 {
                (app.cursor_row - 1) as usize
            } else {
                app.cursor_row
            },
            ..app
        }),
        app.after_key(Key::Char('l')) == (AppView {
            cursor_track: if app.cursor_track + 1 < app.pattern.tracks.len() {
                (app.cursor_track + 1) as usize
            } else {
                app.cursor_track
            },
            ..app
        }),
        app.after_key(Key::Char('h')) == (AppView {
            cursor_track: if app.cursor_track > 0 {
                (app.cursor_track - 1) as usize
            } else {
                app.cursor_track
            },
            ..app
        }),
{
}

/// A note key writes its pitch, in the current octave, under the cursor,
/// and delete then clears that step again; neither moves the cursor.
pub proof fn lemma_note_key_then_delete(app: AppView, c: char)
    requires
        app.cursor_on_step(),
        pitch_for_char(c) is Some,
    ensures
        app.after_key(Key::Char(c)).pattern.step_at(app.cursor_track as int, app.cursor_row as int)
            == Some(PatternStep { note: Some(Note { pitch: pitch_for_char(c).unwrap(), octave: app.octave }) }),
        app.after_key(Key::Char(c)).cursor_row == app.cursor_row,
        app.after_key(Key::Char(c)).cursor_track == app.cursor_track,
        app.after_key(Key::Char(c)).after_key(Key::Delete).pattern.step_at(
            app.cursor_track as int,
            app.cursor_row as int,
        ) == Some(PatternStep { note: None }),
{
    let note = Some(Note { pitch: pitch_for_char(c).unwrap(), octave: app.octave });
    lemma_read_after_write(app.pattern, app.cursor_track as int, app.cursor_row as int, note, 0, 0);
    let after = app.after_key(Key::Char(c));
    lemma_read_after_write(after.pattern, app.cursor_track as int, app.cursor_row as int, None, 0, 0);
}

/// Delete clears the step under the cursor and only that step: every other
/// step of the grid, the shape of the grid, the cursor, the playback head,
/// the octave and the quit flag are left as they were.
pub proof fn lemma_delete_clears_only_cursor_step(app: AppView, t: int, r: int)
    requires
        app.cursor_on_step(),
    ensures
        app.after_key(Key::Delete).pattern.num_rows == app.pattern.num_rows,
        app.after_key(Key::Delete).pattern.tracks.len() == app.pattern.tracks.len(),
        0 <= t < app.pattern.tracks.len() ==> app.after_key(Key::Delete).pattern.tracks[t].len()
            == app.pattern.tracks[t].len(),
        app.after_key(Key::Delete).pattern.tracks[app.cursor_track as int][app.cursor_row as int].note is None,
        (0 <= t < app.pattern.tracks.len() && 0 <= r < app.pattern.tracks[t].len() && !(t
            == app.cursor_track && r == app.cursor_row)) ==> app.after_key(
            Key::Delete,
        ).pattern.tracks[t][r] == app.pattern.tracks[t][r],
        app.after_key(Key::Delete).cursor_row == app.cursor_row,
        app.after_key(Key::Delete).cursor_track == app.cursor_track,
        app.after_key(Key::Delete).playback_row == app.playback_row,
        app.after_key(Key::Delete).playback_state == app.playback_state,
        app.after_key(Key::Delete).octave == app.octave,
        app.after_key(Key::Delete).shutdown == app.shutdown,
{
    lemma_write_changes_one_step(app.pattern, app.cursor_track as int, app.cursor_row as int, None, t, r);
}

/// No key changes any step of the grid other than the one under the
/// cursor, nor the number of tracks or the length of any track.
pub proof fn lemma_keys_touch_only_cursor_step(app: AppView, key: Key, t: int, r: int)
    requires
        app.accepts_key(key),
    ensures
        app.after_key(key).pattern.num_rows == app.pattern.num_rows,
        app.after_key(key).pattern.tracks.len() == app.pattern.tracks.len(),
        0 <= t < app.pattern.tracks.len() ==> app.after_key(key).pattern.tracks[t].len()
            == app.pattern.tracks[t].len(),
        (0 <= t < app.pattern.tracks.len() && 0 <= r < app.pattern.tracks[t].len() && !(t
            == app.cursor_track && r == app.cursor_row)) ==> app.after_key(key).pattern.tracks[t][r]
            == app.pattern.tracks[t][r],
{
    let ct = app.cursor_track as int;
    let cr = app.cursor_row as int;
    match key {
        Key::Char(c) => {
            if pitch_for_char(c) is Some {
                lemma_write_changes_one_step(
                    app.pattern,
                    ct,
                    cr,
                    Some(Note { pitch: pitch_for_char(c).unwrap(), octave: app.octave }),
                    t,
                    r,
                );
            } else if c == ',' {
                lemma_write_changes_one_step(
                    app.pattern,
                    ct,
                    cr,
                    Some(Note { pitch: NotePitch::C, octave: (app.octave + 1) as u8 }),
                    t,
                    r,
                );
            }
        },
        Key::Delete => {
            lemma_write_changes_one_step(app.pattern, ct, cr, None, t, r);
        },
        Key::Other => {},
    }
}

/// A note key writes its note under the cursor: the white keys `z x c v b
/// n m` give C D E F G A B of the current octave, and `,` gives C of the
/// next octave.
pub proof fn lemma_note_keys_write_under_cursor(app: AppView, c: char)
    requires
        app.accepts_key(Key::Char(c)),
        pitch_for_char(c) is Some || c == ',',
    ensures
        c == 'z' ==> app.after_key(Key::Char(c)).pattern.tracks[app.cursor_track as int][app.cursor_row as int].note
            == Some(Note { pitch: NotePitch::C, octave: app.octave }),
        c == 'x' ==> app.after_key(Key::Char(c)).pattern.tracks[app.cursor_track as int][app.cursor_row as int].note
            == Some(Note { pitch: NotePitch::D, octave: app.octave }),
        c == 'c' ==> app.after_key(Key::Char(c)).pattern.tracks[app.cursor_track as int][app.cursor_row as int].note
            == Some(Note { pitch: NotePitch::E, octave: app.octave }),
        c == 'v' ==> app.after_key(Key::Char(c)).pattern.tracks[app.cursor_track as int][app.cursor_row as int].note
            == Some(Note { pitch: NotePitch::F, octave: app.octave }),
        c == 'b' ==> app.after_key(Key::Char(c)).pattern.tracks[app.cursor_track as int][app.cursor_row as int].note
            == Some(Note { pitch: NotePitch::G, octave: app.octave }),
        c == 'n' ==> app.after_key(Key::Char(c)).pattern.tracks[app.cursor_track as int][app.cursor_row as int].note
            == Some(Note { pitch: NotePitch::A, octave: app.octave }),
        c == 'm' ==> app.after_key(Key::Char(c)).pattern.tracks[app.cursor_track as int][app.cursor_row as int].note
            == Some(Note { pitch: NotePitch::B, octave: app.octave }),
        c == ',' ==> app.after_key(Key::Char(c)).pattern.tracks[app.cursor_track as int][app.cursor_row as int].note
            == Some(Note { pitch: NotePitch::C, octave: (app.octave + 1) as u8 }),
        app.after_key(Key::Char(c)).octave == app.octave,
        app.after_key(Key::Char(c)).cursor_row == app.cursor_row,
        app.after_key(Key::Char(c)).cursor_track == app.cursor_track,
{
}

/// Keys that do not edit the grid leave it exactly as it was.
pub proof fn lemma_non_editing_keys_keep_grid(app: AppView, key: Key)
    requires
        app.accepts_key(key),
        key != Key::Delete,
        !(key matches Key::Char(c) && (c == 'z' || c == 'x' || c == 'c' || c == 'v' || c == 'b'
            || c == 'n' || c == 'm' || c == ',')),
    ensures
        app.after_key(key).pattern == app.pattern,
{
}

} // verus!
