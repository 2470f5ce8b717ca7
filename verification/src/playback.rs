//! The timing decisions of the main loop: when the playback head moves,
//! which notes sound, when the screen is redrawn and how long to wait.
//! Times are whole nanoseconds.

use vstd::prelude::*;
use crate::state::{App, AppView, PlaybackState};
use crate::tracker::{Note, Pattern, PatternStep, PatternView};

verus! {

/// Nanoseconds in a second.
pub const NANOS_PER_SECOND: u64 = 1_000_000_000;

/// Nanoseconds in a millisecond.
pub const NANOS_PER_MILLI: u64 = 1_000_000;

/// Pattern rows per beat.
pub const ROWS_PER_BEAT: u64 = 4;

/// Time between two redraws of the screen.
pub const FRAME_PERIOD_NANOS: u64 = 50 * NANOS_PER_MILLI;

/// The longest wait the loop suggests.
pub const MAX_SLEEP_NANOS: u64 = 10 * NANOS_PER_MILLI;

/// Below this, a suggested wait is replaced by `MIN_SLEEP_NANOS`.
pub const SHORT_SLEEP_NANOS: u64 = 5 * NANOS_PER_MILLI;

/// The wait used in place of a too short one.
pub const MIN_SLEEP_NANOS: u64 = NANOS_PER_MILLI;

/// What the loop does with the time of the last playback step.
#[derive(Clone, Copy, Debug, PartialEq, Eq, Structural)]
pub enum ClockAction {
    /// Forget it: playback is stopped.
    Clear,
    /// Leave it as it is.
    Keep,
    /// Set it to now.
    Restart,
}

/// The outcome of one pass of the playback logic: what to do with the
/// step clock and which notes to play now.
#[derive(Debug)]
pub struct PlaybackTick {
    pub clock: ClockAction,
    pub notes: Vec<Note>,
}

/// The time between two rows at `bpm` beats per minute, four rows a beat.
pub open spec fn spec_row_interval(bpm: u32) -> int {
    (60 * NANOS_PER_SECOND) as int / (bpm * ROWS_PER_BEAT) as int
}

/// The notes of `tracks` at `row`, track by track, leaving out silent steps
/// and tracks too short to have that row.
pub open spec fn notes_in(tracks: Seq<Seq<PatternStep>>, row: int) -> Seq<Note>
    decreases tracks.len(),
{
    if tracks.len() == 0 {
        Seq::empty()
    } else {
        let before = notes_in(tracks.drop_last(), row);
        let last = tracks.last();
        if 0 <= row < last.len() && last[row].note is Some {
            before.push(last[row].note.unwrap())
        } else {
            before
        }
    }
}

/// `a - b`, or 0 when `b` is larger.
pub open spec fn sub_or_zero(a: u64, b: u64) -> u64 {
    if a >= b {
        (a - b) as u64
    } else {
        0
    }
}

/// The smaller of `a` and `b`.
pub open spec fn min_u64(a: u64, b: u64) -> u64 {
    if a <= b {
        a
    } else {
        b
    }
}

impl PatternView {
    /// The notes that sound at `row`.
    pub open spec fn notes_at(self, row: int) -> Seq<Note> {
        notes_in(self.tracks, row)
    }
}

impl AppView {
    /// Whether a pass of the loop plays a row: while playing, the first pass
    /// plays at once and later ones once a row interval has gone by since
    /// the last step.
    pub open spec fn tick_fires(self, since_last: Option<u64>, interval: u64) -> bool {
        &&& self.playback_state is Playing
        &&& match since_last {
            Some(elapsed) => elapsed >= interval,
            None => true,
        }
    }

    /// The state after a pass of the loop: the playback head moves a row
    /// when a step is due and an earlier step has been played.
    pub open spec fn after_tick(self, since_last: Option<u64>, interval: u64) -> AppView {
        if self.tick_fires(since_last, interval) && since_last is Some {
            self.advanced()
        } else {
            self
        }
    }

    /// What a pass of the loop does with the step clock.
    pub open spec fn tick_clock(self, since_last: Option<u64>, interval: u64) -> ClockAction {
        match self.playback_state {
            PlaybackState::Stopped => ClockAction::Clear,
            PlaybackState::Playing => if self.tick_fires(since_last, interval) {
                ClockAction::Restart
            } else {
                ClockAction::Keep
            },
        }
    }

    /// Whether a pass of the loop can run without leaving the machine's
    /// integers or dividing by zero.
    pub open spec fn can_tick(self, since_last: Option<u64>, interval: u64) -> bool {
        self.tick_fires(since_last, interval) && since_last is Some ==> self.can_advance()
    }

    /// The wait that the loop suggests before its next pass: the time left
    /// to the next step (none when a first step is due; the time to the next
    /// frame when stopped) and to the next frame, the smaller of
    /// them, at most 10 ms, and 1 ms in place of anything under 5 ms.
    pub open spec fn spec_sleep(
        self,
        since_last_tick: Option<u64>,
        interval: u64,
        since_last_frame: u64,
    ) -> u64 {
        let frame_left = sub_or_zero(FRAME_PERIOD_NANOS, since_last_frame);
        let tick_left = match (self.playback_state, since_last_tick) {
            (PlaybackState::Playing, Some(elapsed)) => sub_or_zero(interval, elapsed),
            (PlaybackState::Playing, None) => 0,
            _ => frame_left,
        };
        let suggested = min_u64(min_u64(tick_left, frame_left), MAX_SLEEP_NANOS);
        if suggested >= SHORT_SLEEP_NANOS {
            suggested
        } else {
            MIN_SLEEP_NANOS
        }
    }
}

/// The time between two rows at `bpm` beats per minute: a minute divided
/// among four rows a beat.
pub fn row_interval_nanos(bpm: u32) -> (interval: u64)
    requires
        bpm > 0,
    ensures
        interval == spec_row_interval(bpm),
        interval > 0,
{
    let rows_per_minute: u64 = bpm as u64 * ROWS_PER_BEAT;
    let minute: u64 = 60 * NANOS_PER_SECOND;
    assert(minute / rows_per_minute >= 1) by (nonlinear_arith)
        requires
            rows_per_minute <= 4 * 0xffff_ffffu64,
            rows_per_minute > 0,
            minute == 60_000_000_000u64,
    ;
    minute / rows_per_minute
}

/// Whether the screen is due for a redraw.
pub fn frame_due(since_last_frame: u64) -> (due: bool)
    ensures
        due == (since_last_frame >= FRAME_PERIOD_NANOS),
{
    since_last_frame >= FRAME_PERIOD_NANOS
}

impl Pattern {
    /// The notes that sound at `row`, track by track, leaving out silent
    /// steps and tracks too short to have that row.
    pub fn notes_at_row(&self, row: usize) -> (notes: Vec<Note>)
        ensures
            notes@ == self@.notes_at(row as int),
    {
        let mut notes: Vec<Note> = Vec::new();
        let num_tracks = self.tracks.len();
        let mut t: usize = 0;
        while t < num_tracks
            invariant
                t <= num_tracks,
                num_tracks == self@.tracks.len(),
                notes@ == notes_in(self@.tracks.take(t as int), row as int),
            decreases num_tracks - t,
        {
            assert(self@.tracks.take(t + 1).drop_last() =~= self@.tracks.take(t as int));
            if let Some(step) = self.get_step(t, row) {
                if let Some(note) = step.note {
                    notes.push(note);
                }
            }
            t = t + 1;
        }
        assert(self@.tracks.take(num_tracks as int) =~= self@.tracks);
        notes
    }
}

/// One pass of the playback logic, given the time since the last step
/// (`None` when no step has been played since playback started) and the
/// time between rows. While playing, a due step moves the playback head
/// (except for the first step, which plays the current row) and returns
/// the notes of the head's row; when stopped, the step clock is cleared.
pub fn playback_tick(app: &mut App, since_last: Option<u64>, interval: u64) -> (tick: PlaybackTick)
    requires
        old(app)@.can_tick(since_last, interval),
    ensures
        final(app)@ == old(app)@.after_tick(since_last, interval),
        old(app)@.wf() ==> final(app)@.wf(),
        tick.clock == old(app)@.tick_clock(since_last, interval),
        tick.notes@ == if old(app)@.tick_fires(since_last, interval) {
            final(app)@.pattern.notes_at(final(app)@.playback_row as int)
        } else {
            Seq::empty()
        },
{
    proof {
        if old(app)@.wf() {
            lemma_tick_keeps_wf(old(app)@, since_last, interval);
        }
    }
    match app.playback_state {
        PlaybackState::Playing => {
            let mut trigger = false;
            match since_last {
                Some(elapsed) => {
                    if elapsed >= interval {
                        trigger = true;
                        app.advance_playback_row();
                    }
                },
                None => {
                    trigger = true;
                },
            }
            if trigger {
                let notes = app.pattern.notes_at_row(app.playback_row);
                PlaybackTick { clock: ClockAction::Restart, notes }
            } else {
                PlaybackTick { clock: ClockAction::Keep, notes: Vec::new() }
            }
        },
        PlaybackState::Stopped => PlaybackTick { clock: ClockAction::Clear, notes: Vec::new() },
    }
}

/// `a - b`, or 0 when `b` is larger.
fn saturating_diff(a: u64, b: u64) -> (d: u64)
    ensures
        d == sub_or_zero(a, b),
{
    a.saturating_sub(b)
}

/// The wait that the loop suggests before its next pass, given the time
/// since the last step (`None` when none was played), the time between
/// rows and the time since the last redraw.
pub fn sleep_nanos(app: &App, since_last_tick: Option<u64>, interval: u64, since_last_frame: u64) -> (wait: u64)
    ensures
        wait == app@.spec_sleep(since_last_tick, interval, since_last_frame),
        MIN_SLEEP_NANOS <= wait <= MAX_SLEEP_NANOS,
{
    let frame_left = saturating_diff(FRAME_PERIOD_NANOS, since_last_frame);
    let tick_left = match (app.playback_state, since_last_tick) {
        (PlaybackState::Playing, Some(elapsed)) => saturating_diff(interval, elapsed),
        (PlaybackState::Playing, None) => 0,
        _ => frame_left,
    };
    let mut suggested = if tick_left <= frame_left {
        tick_left
    } else {
        frame_left
    };
    if suggested > MAX_SLEEP_NANOS {
        suggested = MAX_SLEEP_NANOS;
    }
    if suggested >= SHORT_SLEEP_NANOS {
        suggested
    } else {
        MIN_SLEEP_NANOS
    }
}

/// A well-formed editor can always take a pass of the playback logic, and
/// the pass leaves it well-formed.
pub proof fn lemma_tick_keeps_wf(app: AppView, since_last: Option<u64>, interval: u64)
    requires
        app.wf(),
    ensures
        app.can_tick(since_last, interval),
        app.after_tick(since_last, interval).wf(),
{
}

/// While stopped, a pass of the playback logic plays nothing and changes
/// nothing but clears the step clock.
pub proof fn lemma_stopped_is_silent(app: AppView, since_last: Option<u64>, interval: u64)
    requires
        app.playback_state is Stopped,
    ensures
        !app.tick_fires(since_last, interval),
        app.after_tick(since_last, interval) == app,
        app.tick_clock(since_last, interval) == ClockAction::Clear,
{
}

/// No row of an empty pattern has a note to play.
pub proof fn lemma_empty_pattern_is_silent(num_rows: usize, num_tracks: nat, row: int)
    ensures
        PatternView::empty(num_rows, num_tracks).notes_at(row) == Seq::<Note>::empty(),
    decreases num_tracks,
{
    let p = PatternView::empty(num_rows, num_tracks);
    if num_tracks > 0 {
        lemma_empty_pattern_is_silent(num_rows, (num_tracks - 1) as nat, row);
        assert(p.tracks.drop_last() =~= PatternView::empty(num_rows, (num_tracks - 1) as nat).tracks);
    }
}

/// A pattern without tracks has no notes on any row.
pub proof fn lemma_no_tracks_no_notes(num_rows: usize, row: int)
    ensures
        (PatternView { num_rows, tracks: Seq::empty() }).notes_at(row) == Seq::<Note>::empty(),
{
}

/// Adding a track adds that track's note at the row, if it has one, after
/// the notes of the other tracks; what the track holds on other rows
/// plays no part.
pub proof fn lemma_added_track_appends_its_note(p: PatternView, track: Seq<PatternStep>, row: int)
    ensures
        (PatternView { num_rows: p.num_rows, tracks: p.tracks.push(track) }).notes_at(row) == if 0
            <= row < track.len() && track[row].note is Some {
            p.notes_at(row).push(track[row].note.unwrap())
        } else {
            p.notes_at(row)
        },
{
    assert(p.tracks.push(track).drop_last() =~= p.tracks);
}

/// Every note on the row sounds: a track holding a note at the row puts
/// that note among the row's notes, whatever the track holds elsewhere.
pub proof fn lemma_every_note_of_the_row_sounds(p: PatternView, row: int, t: int)
    requires
        0 <= t < p.tracks.len(),
        0 <= row < p.tracks[t].len(),
        p.tracks[t][row].note is Some,
    ensures
        p.notes_at(row).contains(p.tracks[t][row].note.unwrap()),
    decreases p.tracks.len(),
{
    let rest = PatternView { num_rows: p.num_rows, tracks: p.tracks.drop_last() };
    if t == p.tracks.len() - 1 {
        assert(p.notes_at(row).last() == p.tracks[t][row].note.unwrap());
    } else {
        lemma_every_note_of_the_row_sounds(rest, row, t);
        let i = choose|i: int| 0 <= i < rest.notes_at(row).len() && rest.notes_at(row)[i] == p.tracks[t][row].note.unwrap();
        assert(p.notes_at(row)[i] == p.tracks[t][row].note.unwrap());
    }
}

/// Only notes on the row sound: each note returned for a row is the note
/// of some track at that row.
pub proof fn lemma_only_notes_of_the_row_sound(p: PatternView, row: int, i: int)
    requires
        0 <= i < p.notes_at(row).len(),
    ensures
        exists|t: int|
            0 <= t < p.tracks.len() && 0 <= row < p.tracks[t].len() && #[trigger] p.tracks[t][row].note
                == Some(p.notes_at(row)[i]),
    decreases p.tracks.len(),
{
    let rest = PatternView { num_rows: p.num_rows, tracks: p.tracks.drop_last() };
    let last = p.tracks.len() - 1;
    if i < rest.notes_at(row).len() {
        lemma_only_notes_of_the_row_sound(rest, row, i);
        let t = choose|t: int|
            0 <= t < rest.tracks.len() && 0 <= row < rest.tracks[t].len() && #[trigger] rest.tracks[t][row].note
                == Some(rest.notes_at(row)[i]);
        assert(p.tracks[t] == rest.tracks[t]);
    } else {
        assert(p.tracks[last][row].note == Some(p.notes_at(row)[i]));
    }
}

/// The notes of a row depend on that row alone: two patterns with the same
/// tracks at that row (whatever they hold on other rows) play the same
/// notes there.
pub proof fn lemma_notes_depend_only_on_row(p: PatternView, q: PatternView, row: int)
    requires
        p.tracks.len() == q.tracks.len(),
        forall|t: int|
            0 <= t < p.tracks.len() ==> ((0 <= row < #[trigger] p.tracks[t].len()) == (0 <= row
                < q.tracks[t].len())),
        forall|t: int|
            0 <= t < p.tracks.len() && 0 <= row < p.tracks[t].len() ==> #[trigger] p.tracks[t][row]
                == q.tracks[t][row],
    ensures
        p.notes_at(row) == q.notes_at(row),
    decreases p.tracks.len(),
{
    if p.tracks.len() > 0 {
        let pr = PatternView { num_rows: p.num_rows, tracks: p.tracks.drop_last() };
        let qr = PatternView { num_rows: q.num_rows, tracks: q.tracks.drop_last() };
        let last = p.tracks.len() - 1;
        assert(0 <= row < p.tracks[last].len() <==> 0 <= row < q.tracks[last].len());
        lemma_notes_depend_only_on_row(pr, qr, row);
    }
}

/// The row interval is a minute shared among `4 * bpm` rows, rounded down:
/// that many intervals fit in a minute, one more does not.
pub proof fn lemma_row_interval_divides_minute(bpm: u32)
    requires
        bpm > 0,
    ensures
        spec_row_interval(bpm) * (4 * bpm) <= 60_000_000_000,
        (spec_row_interval(bpm) + 1) * (4 * bpm) > 60_000_000_000,
{
    let d = 4 * bpm as int;
    let q = spec_row_interval(bpm);
    assert(q == 60_000_000_000int / d);
    vstd::arithmetic::div_mod::lemma_fundamental_div_mod(60_000_000_000int, d);
    assert(q * d <= 60_000_000_000 && (q + 1) * d > 60_000_000_000) by (nonlinear_arith)
        requires
            60_000_000_000int == d * q + 60_000_000_000int % d,
            0 <= 60_000_000_000int % d < d,
            d > 0,
    ;
}

/// While playing, the first pass plays the head's row without moving it;
/// later passes wait until a row interval has gone by and then move the
/// head one row forward (back to the first after the last) and play that
/// row. Nothing but the playback row changes.
pub proof fn lemma_playing_tick(app: AppView, since_last: Option<u64>, interval: u64)
    requires
        app.playback_state is Playing,
        app.wf(),
    ensures
        since_last is None ==> app.after_tick(since_last, interval) == app && app.tick_fires(
            since_last,
            interval,
        ) && app.tick_clock(since_last, interval) == ClockAction::Restart,
        (since_last matches Some(e) && e >= interval) ==> app.after_tick(since_last, interval)
            == (AppView {
            playback_row: if app.playback_row + 1 < app.pattern.num_rows {
                (app.playback_row + 1) as usize
            } else {
                0
            },
            ..app
        }) && app.tick_fires(since_last, interval) && app.tick_clock(since_last, interval)
            == ClockAction::Restart,
        (since_last matches Some(e) && e < interval) ==> app.after_tick(since_last, interval)
            == app && !app.tick_fires(since_last, interval) && app.tick_clock(since_last, interval)
            == ClockAction::Keep,
{
    let n = app.pattern.num_rows as int;
    let r = app.playback_row as int;
    if r + 1 < n {
        vstd::arithmetic::div_mod::lemma_small_mod((r + 1) as nat, n as nat);
    } else {
        vstd::arithmetic::div_mod::lemma_mod_self_0(n);
    }
}

} // verus!
