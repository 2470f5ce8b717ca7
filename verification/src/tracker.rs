//! Notes, steps and the pattern grid that holds them.

use vstd::prelude::*;

verus! {

/// The twelve pitch classes of the chromatic scale, starting from C.
#[derive(Clone, Copy, Debug, PartialEq, Eq, Structural)]
pub enum NotePitch {
    C,
    Cs,
    D,
    Ds,
    E,
    F,
    Fs,
    G,
    Gs,
    A,
    As,
    B,
}

/// A pitch in a given octave.
#[derive(Clone, Copy, Debug, PartialEq, Eq, Structural)]
pub struct Note {
    pub pitch: NotePitch,
    pub octave: u8,
}

/// One cell of a track: either a note or silence.
#[derive(Clone, Copy, Debug, PartialEq, Eq, Structural)]
pub struct PatternStep {
    pub note: Option<Note>,
}

/// A column of steps, one per row.
pub type Track = Vec<PatternStep>;

/// A grid of `tracks`, each meant to hold `num_rows` steps.
#[derive(Clone, Debug)]
pub struct Pattern {
    pub num_rows: usize,
    pub tracks: Vec<Track>,
}

/// What the errors of `Pattern::set_step` name.
#[derive(Clone, Copy, Debug, PartialEq, Eq, Structural)]
pub enum PatternError {
    /// The track index is past the last track.
    MissingTrack,
    /// The row index is past the last step of the track.
    MissingRow,
}

/// The mathematical model of a pattern: the row count it was made with
/// and the steps of each track.
pub struct PatternView {
    pub num_rows: usize,
    pub tracks: Seq<Seq<PatternStep>>,
}

impl NotePitch {
    /// Position of the pitch within the octave, C being 0 and B 11.
    pub open spec fn spec_pitch_class(self) -> int {
        match self {
            NotePitch::C => 0,
            NotePitch::Cs => 1,
            NotePitch::D => 2,
            NotePitch::Ds => 3,
            NotePitch::E => 4,
            NotePitch::F => 5,
            NotePitch::Fs => 6,
            NotePitch::G => 7,
            NotePitch::Gs => 8,
            NotePitch::A => 9,
            NotePitch::As => 10,
            NotePitch::B => 11,
        }
    }

    /// Position of the pitch within the octave, C being 0 and B 11.
    pub fn pitch_class(self) -> (class: i32)
        ensures
            class == self.spec_pitch_class(),
            0 <= class < 12,
    {
        match self {
            NotePitch::C => 0,
            NotePitch::Cs => 1,
            NotePitch::D => 2,
            NotePitch::Ds => 3,
            NotePitch::E => 4,
            NotePitch::F => 5,
            NotePitch::Fs => 6,
            NotePitch::G => 7,
            NotePitch::Gs => 8,
            NotePitch::A => 9,
            NotePitch::As => 10,
            NotePitch::B => 11,
        }
    }
}

impl Note {
    /// The MIDI note number: octave 0 starts at 12, twelve semitones an octave.
    pub open spec fn spec_midi_note(self) -> int {
        self.octave * 12 + self.pitch.spec_pitch_class() + 12
    }

    /// The MIDI note number of this note (C of octave 4 is 60, A of octave 4 is 69).
    /// Its frequency is `440 * 2^((midi - 69) / 12)` Hz.
    pub fn midi_note(self) -> (midi: i32)
        ensures
            midi == self.spec_midi_note(),
            12 <= midi <= 255 * 12 + 23,
    {
        let octave: i32 = self.octave as i32;
        octave * 12 + self.pitch.pitch_class() + 12
    }
}

impl Default for PatternStep {
    fn default() -> (step: Self)
        ensures
            step.note is None,
    {
        PatternStep { note: None }
    }
}

impl PatternView {
    /// Every track holds exactly `num_rows` steps.
    pub open spec fn wf(self) -> bool {
        forall|t: int| 0 <= t < self.tracks.len() ==> #[trigger] self.tracks[t].len() == self.num_rows
    }

    /// Whether `(track, row)` names a step that exists.
    pub open spec fn has_step(self, track: int, row: int) -> bool {
        &&& 0 <= track < self.tracks.len()
        &&& 0 <= row < self.tracks[track].len()
    }

    /// The step at `(track, row)`, if there is one.
    pub open spec fn step_at(self, track: int, row: int) -> Option<PatternStep> {
        if self.has_step(track, row) {
            Some(self.tracks[track][row])
        } else {
            None
        }
    }

    /// The pattern with the note at `(track, row)` replaced.
    pub open spec fn with_note(self, track: int, row: int, note: Option<Note>) -> PatternView {
        PatternView {
            num_rows: self.num_rows,
            tracks: self.tracks.update(track, self.tracks[track].update(row, PatternStep { note })),
        }
    }

    /// The outcome of setting the note at `(track, row)`: the error when the
    /// step does not exist (a missing track is reported before a missing row).
    pub open spec fn set_result(self, track: int, row: int) -> Result<(), PatternError> {
        if !(0 <= track < self.tracks.len()) {
            Err(PatternError::MissingTrack)
        } else if !(0 <= row < self.tracks[track].len()) {
            Err(PatternError::MissingRow)
        } else {
            Ok(())
        }
    }

    /// A pattern of `num_tracks` tracks of `num_rows` silent steps.
    pub open spec fn empty(num_rows: usize, num_tracks: nat) -> PatternView {
        PatternView {
            num_rows,
            tracks: Seq::new(num_tracks, |t: int| Seq::new(num_rows as nat, |r: int| PatternStep { note: None })),
        }
    }
}

impl View for Pattern {
    type V = PatternView;

    open spec fn view(&self) -> PatternView {
        PatternView { num_rows: self.num_rows, tracks: self.tracks@.map_values(|t: Track| t@) }
    }
}

impl Pattern {
    /// A pattern of `num_tracks` tracks, each of `num_rows` silent steps.
    pub fn new(num_rows: usize, num_tracks: usize) -> (pattern: Self)
        ensures
            pattern@ == PatternView::empty(num_rows, num_tracks as nat),
            pattern@.wf(),
    {
        let mut tracks: Vec<Track> = Vec::new();
        let mut t: usize = 0;
        while t < num_tracks
            invariant
                t <= num_tracks,
                tracks@.len() == t,
                forall|i: int|
                    0 <= i < t ==> #[trigger] tracks@[i]@ == Seq::new(
                        num_rows as nat,
                        |r: int| PatternStep { note: None },
                    ),
            decreases num_tracks - t,
        {
            let mut track: Track = Vec::new();
            let mut r: usize = 0;
            while r < num_rows
                invariant
                    r <= num_rows,
                    track@.len() == r,
                    forall|j: int| 0 <= j < r ==> #[trigger] track@[j] == (PatternStep { note: None }),
                decreases num_rows - r,
            {
                track.push(PatternStep::default());
                r = r + 1;
            }
            assert(track@ =~= Seq::new(num_rows as nat, |r: int| PatternStep { note: None }));
            tracks.push(track);
            t = t + 1;
        }
        let pattern = Pattern { num_rows, tracks };
        assert(pattern@.tracks =~= PatternView::empty(num_rows, num_tracks as nat).tracks);
        pattern
    }

    /// The step of track `track_idx` at row `row_idx`, or `None` when either
    /// index is past the end.
    pub fn get_step(&self, track_idx: usize, row_idx: usize) -> (step: Option<&PatternStep>)
        ensures
            match step {
                Some(s) => self@.step_at(track_idx as int, row_idx as int) == Some(*s),
                None => self@.step_at(track_idx as int, row_idx as int) is None,
            },
    {
        if track_idx < self.tracks.len() {
            let track = &self.tracks[track_idx];
            if row_idx < track.len() {
                return Some(&track[row_idx]);
            }
        }
        None
    }

    /// Writes `new_note` into the step of track `track_idx` at row `row_idx`.
    /// Fails, leaving the pattern as it was, when the track or the row does
    /// not exist.
    pub fn set_step(&mut self, track_idx: usize, row_idx: usize, new_note: Option<Note>) -> (res: Result<(), PatternError>)
        ensures
            res == old(self)@.set_result(track_idx as int, row_idx as int),
            res is Ok ==> final(self)@ == old(self)@.with_note(track_idx as int, row_idx as int, new_note),
            res is Err ==> final(self)@ == old(self)@,
    {
        if track_idx >= self.tracks.len() {
            return Err(PatternError::MissingTrack);
        }
        if row_idx >= self.tracks[track_idx].len() {
            return Err(PatternError::MissingRow);
        }
        let ghost before = self@;
        self.tracks[track_idx][row_idx].note = new_note;
        assert(self@.tracks =~= before.with_note(track_idx as int, row_idx as int, new_note).tracks);
        Ok(())
    }
}

/// Reading a step gives back what was last written to it, and writing a
/// step leaves every other step, the row count and the pattern's
/// well-formedness as they were.
pub proof fn lemma_read_after_write(
    p: PatternView,
    track: int,
    row: int,
    note: Option<Note>,
    other_track: int,
    other_row: int,
)
    requires
        p.has_step(track, row),
    ensures
        p.with_note(track, row, note).step_at(track, row) == Some(PatternStep { note }),
        (other_track, other_row) != (track, row) ==> p.with_note(track, row, note).step_at(
            other_track,
            other_row,
        ) == p.step_at(other_track, other_row),
        p.with_note(track, row, note).num_rows == p.num_rows,
        p.wf() ==> p.with_note(track, row, note).wf(),
{
    let q = p.with_note(track, row, note);
    if p.wf() {
        assert forall|t: int| 0 <= t < q.tracks.len() implies #[trigger] q.tracks[t].len() == q.num_rows by {
            assert(p.tracks[t].len() == p.num_rows);
        }
    }
}

/// Writing a step twice leaves only the second write.
pub proof fn lemma_write_overwrites(
    p: PatternView,
    track: int,
    row: int,
    first: Option<Note>,
    second: Option<Note>,
)
    requires
        p.has_step(track, row),
    ensures
        p.with_note(track, row, first).with_note(track, row, second) == p.with_note(
            track,
            row,
            second,
        ),
{
    let a = p.with_note(track, row, first).with_note(track, row, second);
    let b = p.with_note(track, row, second);
    assert(a.tracks[track] =~= b.tracks[track]);
    assert(a.tracks =~= b.tracks);
}

/// Writing back the note a step already holds changes nothing.
pub proof fn lemma_write_same_is_identity(p: PatternView, track: int, row: int)
    requires
        p.has_step(track, row),
    ensures
        p.with_note(track, row, p.tracks[track][row].note) == p,
{
    let q = p.with_note(track, row, p.tracks[track][row].note);
    assert(q.tracks[track] =~= p.tracks[track]);
    assert(q.tracks =~= p.tracks);
}

/// Reading the grid: the step at `(track, row)` is the row-th step of the
/// track-th track when both exist, and there is none otherwise.
pub proof fn lemma_step_at_reads_grid(p: PatternView, track: int, row: int)
    ensures
        (0 <= track < p.tracks.len() && 0 <= row < p.tracks[track].len()) ==> p.step_at(track, row)
            == Some(p.tracks[track][row]),
        !(0 <= track < p.tracks.len() && 0 <= row < p.tracks[track].len()) ==> p.step_at(
            track,
            row,
        ) is None,
{
}

/// Setting a step fails exactly when the step does not exist: with
/// `MissingTrack` when the track index is past the last track, otherwise
/// with `MissingRow` when the row index is past the end of that track.
pub proof fn lemma_set_fails_only_off_grid(p: PatternView, track: int, row: int)
    ensures
        (p.set_result(track, row) is Ok) <==> (0 <= track < p.tracks.len() && 0 <= row
            < p.tracks[track].len()),
        !(0 <= track < p.tracks.len()) ==> p.set_result(track, row) == Err::<(), PatternError>(
            PatternError::MissingTrack,
        ),
        (0 <= track < p.tracks.len() && !(0 <= row < p.tracks[track].len())) ==> p.set_result(
            track,
            row,
        ) == Err::<(), PatternError>(PatternError::MissingRow),
{
}

/// Writing a step changes that one step of the grid and nothing else: the
/// number of tracks, each track's length and every other step stay as
/// they were.
pub proof fn lemma_write_changes_one_step(
    p: PatternView,
    track: int,
    row: int,
    note: Option<Note>,
    t: int,
    r: int,
)
    requires
        0 <= track < p.tracks.len(),
        0 <= row < p.tracks[track].len(),
    ensures
        p.with_note(track, row, note).num_rows == p.num_rows,
        p.with_note(track, row, note).tracks.len() == p.tracks.len(),
        0 <= t < p.tracks.len() ==> p.with_note(track, row, note).tracks[t].len()
            == p.tracks[t].len(),
        p.with_note(track, row, note).tracks[track][row].note == note,
        (0 <= t < p.tracks.len() && 0 <= r < p.tracks[t].len() && !(t == track && r == row))
            ==> p.with_note(track, row, note).tracks[t][r] == p.tracks[t][r],
{
}

/// Consecutive pitches are one MIDI number apart, from C (12 per octave,
/// starting at 12) up to B, and C of the next octave follows B; A of
/// octave 4 is 69.
pub proof fn lemma_midi_semitones(octave: u8)
    ensures
        (Note { pitch: NotePitch::C, octave }).spec_midi_note() == 12 * octave + 12,
        (Note { pitch: NotePitch::Cs, octave }).spec_midi_note() == (Note {
            pitch: NotePitch::C,
            octave,
        }).spec_midi_note() + 1,
        (Note { pitch: NotePitch::D, octave }).spec_midi_note() == (Note {
            pitch: NotePitch::Cs,
            octave,
        }).spec_midi_note() + 1,
        (Note { pitch: NotePitch::Ds, octave }).spec_midi_note() == (Note {
            pitch: NotePitch::D,
            octave,
        }).spec_midi_note() + 1,
        (Note { pitch: NotePitch::E, octave }).spec_midi_note() == (Note {
            pitch: NotePitch::Ds,
            octave,
        }).spec_midi_note() + 1,
        (Note { pitch: NotePitch::F, octave }).spec_midi_note() == (Note {
            pitch: NotePitch::E,
            octave,
        }).spec_midi_note() + 1,
        (Note { pitch: NotePitch::Fs, octave }).spec_midi_note() == (Note {
            pitch: NotePitch::F,
            octave,
        }).spec_midi_note() + 1,
        (Note { pitch: NotePitch::G, octave }).spec_midi_note() == (Note {
            pitch: NotePitch::Fs,
            octave,
        }).spec_midi_note() + 1,
        (Note { pitch: NotePitch::Gs, octave }).spec_midi_note() == (Note {
            pitch: NotePitch::G,
            octave,
        }).spec_midi_note() + 1,
        (Note { pitch: NotePitch::A, octave }).spec_midi_note() == (Note {
            pitch: NotePitch::Gs,
            octave,
        }).spec_midi_note() + 1,
        (Note { pitch: NotePitch::As, octave }).spec_midi_note() == (Note {
            pitch: NotePitch::A,
            octave,
        }).spec_midi_note() + 1,
        (Note { pitch: NotePitch::B, octave }).spec_midi_note() == (Note {
            pitch: NotePitch::As,
            octave,
        }).spec_midi_note() + 1,
        octave < 255 ==> (Note { pitch: NotePitch::C, octave: (octave + 1) as u8 }).spec_midi_note()
            == (Note { pitch: NotePitch::B, octave }).spec_midi_note() + 1,
        (Note { pitch: NotePitch::A, octave: 4 }).spec_midi_note() == 69,
{
}

/// Different notes have different MIDI numbers.
pub proof fn lemma_midi_injective(a: Note, b: Note)
    ensures
        a.spec_midi_note() == b.spec_midi_note() ==> a == b,
{
    if a.spec_midi_note() == b.spec_midi_note() {
        let ca = a.pitch.spec_pitch_class();
        let cb = b.pitch.spec_pitch_class();
        let oa = a.octave as int;
        let ob = b.octave as int;
        assert(0 <= ca < 12 && 0 <= cb < 12);
        assert(oa == ob && ca == cb) by (nonlinear_arith)
            requires
                oa * 12 + ca == ob * 12 + cb,
                0 <= ca < 12,
                0 <= cb < 12,
        ;
    }
}

} // verus!
