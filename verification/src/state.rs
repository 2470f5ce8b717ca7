//! The editor state: the pattern, the cursor, the playback head and the
//! settings that the keys change.

use vstd::prelude::*;
use crate::tracker::{Note, Pattern, PatternView};

verus! {

/// Whether the playback head is running.
#[derive(Clone, Copy, Debug, PartialEq, Eq, Structural)]
pub enum PlaybackState {
    Stopped,
    Playing,
}

/// A move of the cursor along one axis: back, forward, or nowhere.
#[derive(Clone, Copy, Debug, PartialEq, Eq, Structural)]
pub enum CursorOffset {
    Neg(usize),
    Pos(usize),
    Stay,
}

/// The editor state. The tempo is held in whole beats per minute.
#[derive(Clone, Debug)]
pub struct App {
    pub pattern: Pattern,
    pub cursor_row: usize,
    pub cursor_track: usize,
    pub playback_row: usize,
    pub playback_state: PlaybackState,
    pub octave: u8,
    pub bpm: u32,
    pub shutdown: bool,
}

/// The mathematical model of the editor state.
pub struct AppView {
    pub pattern: PatternView,
    pub cursor_row: usize,
    pub cursor_track: usize,
    pub playback_row: usize,
    pub playback_state: PlaybackState,
    pub octave: u8,
    pub bpm: u32,
    pub shutdown: bool,
}

/// The largest octave that the octave keys select.
pub const MAX_OCTAVE: u8 = 9;

/// Rows of the pattern a new editor starts with.
pub const DEFAULT_ROWS: usize = 64;

/// Tracks of the pattern a new editor starts with.
pub const DEFAULT_TRACKS: usize = 4;

/// Octave a new editor starts in.
pub const DEFAULT_OCTAVE: u8 = 4;

/// Tempo of a new editor, in beats per minute.
pub const DEFAULT_BPM: u32 = 120;

/// `value` limited to `0..=max`.
pub open spec fn clamp_to(value: int, max: int) -> int {
    if value > max {
        max
    } else {
        value
    }
}

/// `value` limited to `0..=max`.
fn clamp_index(value: usize, max: usize) -> (clamped: usize)
    ensures
        clamped == clamp_to(value as int, max as int),
{
    if value > max {
        max
    } else {
        value
    }
}

impl CursorOffset {
    /// The position that the offset leads to from `position`; a move that
    /// would leave the range of `usize` leaves the position as it was.
    pub open spec fn spec_apply_to(self, position: usize) -> usize {
        match self {
            CursorOffset::Pos(delta) => if position + delta <= usize::MAX {
                (position + delta) as usize
            } else {
                position
            },
            CursorOffset::Neg(delta) => if position >= delta {
                (position - delta) as usize
            } else {
                position
            },
            CursorOffset::Stay => position,
        }
    }

    /// The position that the offset leads to from `position`; a move that
    /// would leave the range of `usize` leaves the position as it was.
    pub fn apply_to(&self, position: usize) -> (moved: usize)
        ensures
            moved == self.spec_apply_to(position),
    {
        match self {
            CursorOffset::Pos(delta) => match position.checked_add(*delta) {
                Some(p) => p,
                None => position,
            },
            CursorOffset::Neg(delta) => match position.checked_sub(*delta) {
                Some(p) => p,
                None => position,
            },
            CursorOffset::Stay => position,
        }
    }
}

impl AppView {
    /// The invariant that every operation of the editor keeps: the pattern
    /// has rows and tracks and every track is full, the cursor and the
    /// playback head stand inside it, and the octave is one the keys select.
    pub open spec fn wf(self) -> bool {
        &&& self.pattern.wf()
        &&& self.pattern.num_rows > 0
        &&& 0 < self.pattern.tracks.len() <= usize::MAX
        &&& self.cursor_row < self.pattern.num_rows
        &&& self.cursor_track < self.pattern.tracks.len()
        &&& self.playback_row < self.pattern.num_rows
        &&& self.octave <= MAX_OCTAVE
    }

    /// Whether the cursor names a step of the pattern.
    pub open spec fn cursor_on_step(self) -> bool {
        self.pattern.has_step(self.cursor_track as int, self.cursor_row as int)
    }

    /// The state after moving the cursor by `dr` rows and `dt` tracks; each
    /// coordinate is then clamped to the last row and the last track.
    pub open spec fn with_cursor_offset(self, dr: CursorOffset, dt: CursorOffset) -> AppView {
        AppView {
            cursor_row: clamp_to(
                dr.spec_apply_to(self.cursor_row) as int,
                self.pattern.num_rows - 1,
            ) as usize,
            cursor_track: clamp_to(
                dt.spec_apply_to(self.cursor_track) as int,
                self.pattern.tracks.len() - 1,
            ) as usize,
            ..self
        }
    }

    /// The state after asking to quit.
    pub open spec fn shut_down(self) -> AppView {
        AppView { shutdown: true, ..self }
    }

    /// The state after starting or stopping playback; starting puts the
    /// playback head on the first row.
    pub open spec fn toggled(self) -> AppView {
        match self.playback_state {
            PlaybackState::Stopped => AppView {
                playback_state: PlaybackState::Playing,
                playback_row: 0,
                ..self
            },
            PlaybackState::Playing => AppView { playback_state: PlaybackState::Stopped, ..self },
        }
    }

    /// The state after one playback step: while playing, the head moves to
    /// the next row and wraps to the first after the last.
    pub open spec fn advanced(self) -> AppView {
        match self.playback_state {
            PlaybackState::Playing => AppView {
                playback_row: ((self.playback_row + 1) % (self.pattern.num_rows as int)) as usize,
                ..self
            },
            PlaybackState::Stopped => self,
        }
    }

    /// Whether a playback step can be taken without leaving the machine's
    /// integers or dividing by zero.
    pub open spec fn can_advance(self) -> bool {
        self.playback_state is Playing ==> (self.pattern.num_rows > 0 && self.playback_row
            < usize::MAX)
    }

    /// The state after writing `note` into the step under the cursor.
    pub open spec fn with_note_under_cursor(self, note: Option<Note>) -> AppView {
        AppView {
            pattern: self.pattern.with_note(self.cursor_track as int, self.cursor_row as int, note),
            ..self
        }
    }

    /// The state of a new editor.
    pub open spec fn initial() -> AppView {
        AppView {
            pattern: PatternView::empty(DEFAULT_ROWS, DEFAULT_TRACKS as nat),
            cursor_row: 0,
            cursor_track: 0,
            playback_row: 0,
            playback_state: PlaybackState::Stopped,
            octave: DEFAULT_OCTAVE,
            bpm: DEFAULT_BPM,
            shutdown: false,
        }
    }
}

impl View for App {
    type V = AppView;

    open spec fn view(&self) -> AppView {
        AppView {
            pattern: self.pattern@,
            cursor_row: self.cursor_row,
            cursor_track: self.cursor_track,
            playback_row: self.playback_row,
            playback_state: self.playback_state,
            octave: self.octave,
            bpm: self.bpm,
            shutdown: self.shutdown,
        }
    }
}

impl App {
    /// A stopped editor over an empty pattern of 64 rows and 4 tracks, with
    /// the cursor on the first step, in octave 4 at 120 beats per minute.
    pub fn new() -> (app: Self)
        ensures
            app@ == AppView::initial(),
            app@.wf(),
    {
        let default_rows: usize = DEFAULT_ROWS;
        let default_tracks: usize = DEFAULT_TRACKS;
        App {
            pattern: Pattern::new(default_rows, default_tracks),
            cursor_row: 0,
            cursor_track: 0,
            octave: DEFAULT_OCTAVE,
            playback_row: 0,
            playback_state: PlaybackState::Stopped,
            bpm: DEFAULT_BPM,
            shutdown: false,
        }
    }

    /// Whether the state satisfies the editor's invariant.
    pub fn is_well_formed(&self) -> (ok: bool)
        ensures
            ok == self@.wf(),
    {
        let num_rows = self.pattern.num_rows;
        let num_tracks = self.pattern.tracks.len();
        if num_rows == 0 || num_tracks == 0 || self.cursor_row >= num_rows || self.cursor_track
            >= num_tracks || self.playback_row >= num_rows || self.octave > MAX_OCTAVE {
            return false;
        }
        let mut t: usize = 0;
        while t < num_tracks
            invariant
                t <= num_tracks,
                num_tracks == self.pattern.tracks@.len(),
                num_rows == self.pattern.num_rows,
                forall|i: int| 0 <= i < t ==> #[trigger] self.pattern.tracks@[i]@.len() == num_rows,
            decreases num_tracks - t,
        {
            if self.pattern.tracks[t].len() != num_rows {
                assert(self.pattern@.tracks[t as int].len() != num_rows);
                return false;
            }
            t = t + 1;
        }
        assert(self@.pattern.wf());
        true
    }

    /// Moves the cursor by `dr` rows and `dt` tracks, then clamps each
    /// coordinate to the last row and the last track of the pattern.
    pub fn offset_cursor(&mut self, dr: &CursorOffset, dt: &CursorOffset)
        requires
            old(self).pattern.num_rows > 0,
            old(self).pattern.tracks@.len() > 0,
        ensures
            final(self)@ == old(self)@.with_cursor_offset(*dr, *dt),
            old(self)@.wf() ==> final(self)@.wf(),
    {
        let max_rows = self.pattern.num_rows;
        let max_tracks = self.pattern.tracks.len();

        self.cursor_row = clamp_index(dr.apply_to(self.cursor_row), max_rows - 1);
        self.cursor_track = clamp_index(dt.apply_to(self.cursor_track), max_tracks - 1);
    }

    /// Marks the editor as asked to quit.
    pub fn shutdown(&mut self)
        ensures
            final(self)@ == old(self)@.shut_down(),
            old(self)@.wf() ==> final(self)@.wf(),
    {
        self.shutdown = true;
    }

    /// Starts playback from the first row, or stops it.
    pub fn toggle_playback(&mut self)
        ensures
            final(self)@ == old(self)@.toggled(),
            old(self)@.wf() ==> final(self)@.wf(),
    {
        match self.playback_state {
            PlaybackState::Stopped => {
                self.playback_state = PlaybackState::Playing;
                self.playback_row = 0;
            },
            PlaybackState::Playing => {
                self.playback_state = PlaybackState::Stopped;
            },
        }
    }

    /// Writes `note` (or silence) into the step under the cursor.
    pub fn insert_note_under_cursor(&mut self, note: Option<Note>)
        requires
            old(self)@.cursor_on_step(),
        ensures
            final(self)@ == old(self)@.with_note_under_cursor(note),
            old(self)@.wf() ==> final(self)@.wf(),
    {
        let r = self.pattern.set_step(self.cursor_track, self.cursor_row, note);
        proof {
            let before = old(self)@;
            let after = before.with_note_under_cursor(note);
            if before.wf() {
                assert forall|t: int| 0 <= t < after.pattern.tracks.len() implies #[trigger] after.pattern.tracks[t].len()
                    == after.pattern.num_rows by {
                    assert(before.pattern.tracks[t].len() == before.pattern.num_rows);
                }
            }
        }
    }

    /// While playing, moves the playback head to the next row, wrapping to
    /// the first row after the last.
    pub fn advance_playback_row(&mut self)
        requires
            old(self)@.can_advance(),
        ensures
            final(self)@ == old(self)@.advanced(),
            old(self)@.wf() ==> final(self)@.wf(),
    {
        if let PlaybackState::Playing = self.playback_state {
            self.playback_row = (self.playback_row + 1) % self.pattern.num_rows;
        }
    }
}

impl AppView {
    /// The state after `k` playback steps.
    pub open spec fn advanced_times(self, k: nat) -> AppView
        decreases k,
    {
        if k == 0 {
            self
        } else {
            self.advanced_times((k - 1) as nat).advanced()
        }
    }
}

/// Whatever the cursor was, moving it leaves it on a row and a track of the
/// pattern, and changes nothing but the cursor.
pub proof fn lemma_cursor_stays_in_pattern(app: AppView, dr: CursorOffset, dt: CursorOffset)
    requires
        app.pattern.num_rows > 0,
        app.pattern.tracks.len() > 0,
    ensures
        app.with_cursor_offset(dr, dt).cursor_row < app.pattern.num_rows,
        app.with_cursor_offset(dr, dt).cursor_track < app.pattern.tracks.len(),
        app.with_cursor_offset(dr, dt).pattern == app.pattern,
        app.with_cursor_offset(dr, dt).playback_row == app.playback_row,
        app.with_cursor_offset(dr, dt).playback_state == app.playback_state,
        app.with_cursor_offset(dr, dt).octave == app.octave,
{
}

/// Moving the cursor forward and back by the same amount returns it where
/// it was, as long as the forward move stays inside the pattern.
pub proof fn lemma_cursor_round_trip(app: AppView, rows: usize, tracks: usize)
    requires
        app.wf(),
        app.cursor_row + rows < app.pattern.num_rows,
        app.cursor_track + tracks < app.pattern.tracks.len(),
    ensures
        app.with_cursor_offset(CursorOffset::Pos(rows), CursorOffset::Pos(tracks)).with_cursor_offset(
            CursorOffset::Neg(rows),
            CursorOffset::Neg(tracks),
        ) == app,
{
    let moved = app.with_cursor_offset(CursorOffset::Pos(rows), CursorOffset::Pos(tracks));
    assert(moved.cursor_row == app.cursor_row + rows);
    assert(moved.cursor_track == app.cursor_track + tracks);
    let back = moved.with_cursor_offset(CursorOffset::Neg(rows), CursorOffset::Neg(tracks));
    assert(back.cursor_row == app.cursor_row);
    assert(back.cursor_track == app.cursor_track);
}

/// Starting playback puts the head on the first row, and starting then
/// stopping (or stopping then starting) returns to the same playback state.
pub proof fn lemma_toggle_twice(app: AppView)
    ensures
        app.toggled().toggled().playback_state == app.playback_state,
        app.toggled().toggled().pattern == app.pattern,
        app.playback_state is Stopped ==> app.toggled().playback_row == 0,
        app.playback_state is Playing ==> app.toggled().toggled() == (AppView {
            playback_row: 0,
            ..app
        }),
        app.playback_state is Stopped ==> app.toggled().toggled() == (AppView {
            playback_row: 0,
            ..app
        }),
{
}

/// While playing, `k` playback steps move the head `k` rows forward,
/// wrapping around the pattern; after as many steps as there are rows it is
/// back where it started.
pub proof fn lemma_advance_wraps(app: AppView, k: nat)
    requires
        app.playback_state is Playing,
        app.pattern.num_rows > 0,
        app.playback_row < app.pattern.num_rows,
    ensures
        app.advanced_times(k).playback_row == (app.playback_row + k) % (app.pattern.num_rows as int),
        app.advanced_times(k).pattern == app.pattern,
        app.advanced_times(k).playback_state is Playing,
        app.advanced_times(app.pattern.num_rows as nat).playback_row == app.playback_row,
{
    lemma_advance_rows(app, k);
    lemma_advance_full_cycle(app);
}

/// After as many playback steps as there are rows, the head is back where
/// it started.
proof fn lemma_advance_full_cycle(app: AppView)
    requires
        app.playback_state is Playing,
        app.pattern.num_rows > 0,
        app.playback_row < app.pattern.num_rows,
    ensures
        app.advanced_times(app.pattern.num_rows as nat).playback_row == app.playback_row,
    decreases app.pattern.num_rows,
{
    let n = app.pattern.num_rows as int;
    lemma_advance_rows(app, n as nat);
    vstd::arithmetic::div_mod::lemma_mod_add_multiples_vanish(app.playback_row as int, n);
    vstd::arithmetic::div_mod::lemma_small_mod(app.playback_row as nat, n as nat);
}

/// `k` playback steps move the head `k` rows forward, modulo the rows.
proof fn lemma_advance_rows(app: AppView, k: nat)
    requires
        app.playback_state is Playing,
        app.pattern.num_rows > 0,
        app.playback_row < app.pattern.num_rows,
    ensures
        app.advanced_times(k).playback_row == (app.playback_row + k) % (app.pattern.num_rows as int),
        app.advanced_times(k).pattern == app.pattern,
        app.advanced_times(k).playback_state is Playing,
    decreases k,
{
    let n = app.pattern.num_rows as int;
    if k == 0 {
        vstd::arithmetic::div_mod::lemma_small_mod(app.playback_row as nat, n as nat);
    } else {
        lemma_advance_rows(app, (k - 1) as nat);
        let r = app.playback_row + (k - 1);
        vstd::arithmetic::div_mod::lemma_add_mod_noop(r, 1, n);
        vstd::arithmetic::div_mod::lemma_mod_twice(r + 1, n);
        if n == 1 {
            assert((r % n + 1) % n == (r + 1) % n) by (nonlinear_arith)
                requires
                    n == 1,
            ;
        } else {
            vstd::arithmetic::div_mod::lemma_small_mod(1, n as nat);
        }
    }
}

} // verus!
