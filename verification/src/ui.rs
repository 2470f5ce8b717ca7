//! The text of the screen: step cells, track headers, the pattern grid
//! with its highlights, and the status line.

use vstd::prelude::*;
use crate::state::{App, AppView, PlaybackState};
use crate::tracker::{NotePitch, PatternStep};

verus! {

/// The character of the decimal digit `d`.
pub open spec fn digit_char(d: int) -> char {
    if d == 0 {
        '0'
    } else if d == 1 {
        '1'
    } else if d == 2 {
        '2'
    } else if d == 3 {
        '3'
    } else if d == 4 {
        '4'
    } else if d == 5 {
        '5'
    } else if d == 6 {
        '6'
    } else if d == 7 {
        '7'
    } else if d == 8 {
        '8'
    } else {
        '9'
    }
}

/// The decimal digits of `n`, most significant first, without leading zeros.
pub open spec fn decimal(n: nat) -> Seq<char>
    decreases n,
{
    if n < 10 {
        seq![digit_char(n as int)]
    } else {
        decimal(n / 10).push(digit_char((n % 10) as int))
    }
}

/// The decimal digits of `n`, with a leading zero when there is only one.
pub open spec fn padded2(n: nat) -> Seq<char> {
    if n < 10 {
        seq!['0'] + decimal(n)
    } else {
        decimal(n)
    }
}

impl NotePitch {
    /// The name of the pitch: its letter, followed by `s` for a sharp.
    pub open spec fn spec_name(self) -> Seq<char> {
        match self {
            NotePitch::C => seq!['C'],
            NotePitch::Cs => seq!['C', 's'],
            NotePitch::D => seq!['D'],
            NotePitch::Ds => seq!['D', 's'],
            NotePitch::E => seq!['E'],
            NotePitch::F => seq!['F'],
            NotePitch::Fs => seq!['F', 's'],
            NotePitch::G => seq!['G'],
            NotePitch::Gs => seq!['G', 's'],
            NotePitch::A => seq!['A'],
            NotePitch::As => seq!['A', 's'],
            NotePitch::B => seq!['B'],
        }
    }

    /// The name of the pitch: its letter, followed by `s` for a sharp.
    pub fn name(self) -> (name: &'static str)
        ensures
            name@ == self.spec_name(),
    {
        match self {
            NotePitch::C => {
                proof {
                    reveal_strlit("C");
                }
                "C"
            },
            NotePitch::Cs => {
                proof {
                    reveal_strlit("Cs");
                }
                "Cs"
            },
            NotePitch::D => {
                proof {
                    reveal_strlit("D");
                }
                "D"
            },
            NotePitch::Ds => {
                proof {
                    reveal_strlit("Ds");
                }
                "Ds"
            },
            NotePitch::E => {
                proof {
                    reveal_strlit("E");
                }
                "E"
            },
            NotePitch::F => {
                proof {
                    reveal_strlit("F");
                }
                "F"
            },
            NotePitch::Fs => {
                proof {
                    reveal_strlit("Fs");
                }
                "Fs"
            },
            NotePitch::G => {
                proof {
                    reveal_strlit("G");
                }
                "G"
            },
            NotePitch::Gs => {
                proof {
                    reveal_strlit("Gs");
                }
                "Gs"
            },
            NotePitch::A => {
                proof {
                    reveal_strlit("A");
                }
                "A"
            },
            NotePitch::As => {
                proof {
                    reveal_strlit("As");
                }
                "As"
            },
            NotePitch::B => {
                proof {
                    reveal_strlit("B");
                }
                "B"
            },
        }
    }
}

/// The text of a step: the pitch name followed by the octave, or ` . `
/// for silence.
pub open spec fn step_text(step: PatternStep) -> Seq<char> {
    match step.note {
        Some(note) => note.pitch.spec_name() + decimal(note.octave as nat),
        None => seq![' ', '.', ' '],
    }
}

/// The string of the decimal digit `d`.
fn digit_str(d: usize) -> (s: &'static str)
    requires
        d < 10,
    ensures
        s@ == seq![digit_char(d as int)],
{
    proof {
        reveal_strlit("0");
        reveal_strlit("1");
        reveal_strlit("2");
        reveal_strlit("3");
        reveal_strlit("4");
        reveal_strlit("5");
        reveal_strlit("6");
        reveal_strlit("7");
        reveal_strlit("8");
        reveal_strlit("9");
    }
    if d == 0 {
        "0"
    } else if d == 1 {
        "1"
    } else if d == 2 {
        "2"
    } else if d == 3 {
        "3"
    } else if d == 4 {
        "4"
    } else if d == 5 {
        "5"
    } else if d == 6 {
        "6"
    } else if d == 7 {
        "7"
    } else if d == 8 {
        "8"
    } else {
        "9"
    }
}

/// Appends the decimal digits of `n` to `s`.
pub fn push_decimal(s: &mut String, n: usize)
    ensures
        final(s)@ == old(s)@ + decimal(n as nat),
    decreases n,
{
    if n >= 10 {
        push_decimal(s, n / 10);
    }
    s.append(digit_str(n % 10));
    proof {
        if n >= 10 {
            assert(decimal(n as nat) == decimal((n / 10) as nat).push(digit_char((n % 10) as int)));
        }
    }
    assert(s@ =~= old(s)@ + decimal(n as nat));
}

/// Appends the decimal digits of `n` to `s`, with a leading zero when there
/// is only one.
pub fn push_padded2(s: &mut String, n: usize)
    ensures
        final(s)@ == old(s)@ + padded2(n as nat),
{
    if n < 10 {
        proof {
            reveal_strlit("0");
        }
        s.append("0");
    }
    push_decimal(s, n);
    assert(s@ =~= old(s)@ + padded2(n as nat));
}

/// The text of a step: the pitch name followed by the octave, or ` . `
/// for silence.
pub fn format_step(step: PatternStep) -> (text: String)
    ensures
        text@ == step_text(step),
{
    match step.note {
        Some(note) => {
            let mut text = String::from_str(note.pitch.name());
            push_decimal(&mut text, note.octave as usize);
            text
        },
        None => {
            proof {
                reveal_strlit(" . ");
            }
            String::from_str(" . ")
        },
    }
}

/// How a cell of the pattern grid is highlighted.
#[derive(Clone, Copy, Debug, PartialEq, Eq, Structural)]
pub enum CellHighlight {
    /// Neither the cursor nor the playback head is on it.
    Plain,
    /// The cursor is on it.
    Cursor,
    /// The playback head is on its row.
    Playback,
    /// The cursor is on it and the playback head on its row.
    CursorOnPlayback,
}

/// One cell of the pattern grid as it is drawn.
#[derive(Debug)]
pub struct EditorCell {
    pub text: String,
    pub highlight: CellHighlight,
}

impl AppView {
    /// The highlight of the cell of `track` at `row`: the cursor marks its
    /// own cell, and while playing the playback head marks its whole row.
    pub open spec fn highlight_at(self, row: int, track: int) -> CellHighlight {
        let cursor = row == self.cursor_row && track == self.cursor_track;
        let playback = self.playback_state is Playing && row == self.playback_row;
        if cursor && playback {
            CellHighlight::CursorOnPlayback
        } else if cursor {
            CellHighlight::Cursor
        } else if playback {
            CellHighlight::Playback
        } else {
            CellHighlight::Plain
        }
    }

    /// Whether every track has a step for every row of the grid.
    pub open spec fn tracks_cover_rows(self) -> bool {
        forall|t: int|
            0 <= t < self.pattern.tracks.len() ==> #[trigger] self.pattern.tracks[t].len()
                >= self.pattern.num_rows
    }

    /// The status line: playback state, cursor position, playback row,
    /// tempo and octave.
    pub open spec fn spec_status_text(self) -> Seq<char> {
        "State: "@ + state_name(self.playback_state) + " | Pos: "@ + padded2(
            self.cursor_row as nat,
        ) + ","@ + padded2(self.cursor_track as nat) + " | Playback Row: "@ + padded2(
            self.playback_row as nat,
        ) + " | BPM: "@ + decimal(self.bpm as nat) + ".0"@ + " | Octave "@ + padded2(
            self.octave as nat,
        )
    }
}

/// The name of a playback state.
pub open spec fn state_name(state: PlaybackState) -> Seq<char> {
    match state {
        PlaybackState::Stopped => "Stopped"@,
        PlaybackState::Playing => "Playing"@,
    }
}

/// The header of the track at `index`, counting tracks from 1.
pub open spec fn header_text(index: nat) -> Seq<char> {
    "Track "@ + decimal(index + 1)
}

/// The header of the track at `index`, counting tracks from 1.
pub fn track_header(index: usize) -> (header: String)
    requires
        index < usize::MAX,
    ensures
        header@ == header_text(index as nat),
{
    let mut header = String::from_str("Track ");
    push_decimal(&mut header, index + 1);
    header
}

/// The highlight of the cell of `track` at `row`.
pub fn cell_highlight(app: &App, row: usize, track: usize) -> (highlight: CellHighlight)
    ensures
        highlight == app@.highlight_at(row as int, track as int),
{
    let cursor = row == app.cursor_row && track == app.cursor_track;
    let playback = match app.playback_state {
        PlaybackState::Playing => row == app.playback_row,
        PlaybackState::Stopped => false,
    };
    if cursor && playback {
        CellHighlight::CursorOnPlayback
    } else if cursor {
        CellHighlight::Cursor
    } else if playback {
        CellHighlight::Playback
    } else {
        CellHighlight::Plain
    }
}

/// The pattern grid as it is drawn: one line per row, and in each line one
/// cell per track with the text of its step and its highlight.
pub fn editor_cells(app: &App) -> (rows: Vec<Vec<EditorCell>>)
    requires
        app@.tracks_cover_rows(),
    ensures
        rows@.len() == app@.pattern.num_rows,
        forall|r: int|
            0 <= r < rows@.len() ==> #[trigger] rows@[r]@.len() == app@.pattern.tracks.len(),
        forall|r: int, t: int|
            0 <= r < rows@.len() && 0 <= t < app@.pattern.tracks.len() ==> {
                &&& (#[trigger] rows@[r]@[t]).text@ == step_text(app@.pattern.tracks[t][r])
                &&& rows@[r]@[t].highlight == app@.highlight_at(r, t)
            },
{
    let num_rows = app.pattern.num_rows;
    let num_tracks = app.pattern.tracks.len();
    let mut rows: Vec<Vec<EditorCell>> = Vec::new();
    let mut r: usize = 0;
    while r < num_rows
        invariant
            r <= num_rows,
            num_rows == app@.pattern.num_rows,
            num_tracks == app@.pattern.tracks.len(),
            app@.tracks_cover_rows(),
            rows@.len() == r,
            forall|i: int| 0 <= i < r ==> #[trigger] rows@[i]@.len() == num_tracks,
            forall|i: int, t: int|
                0 <= i < r && 0 <= t < num_tracks ==> {
                    &&& (#[trigger] rows@[i]@[t]).text@ == step_text(app@.pattern.tracks[t][i])
                    &&& rows@[i]@[t].highlight == app@.highlight_at(i, t)
                },
        decreases num_rows - r,
    {
        let mut line: Vec<EditorCell> = Vec::new();
        let mut t: usize = 0;
        while t < num_tracks
            invariant
                t <= num_tracks,
                r < num_rows,
                num_rows == app@.pattern.num_rows,
                num_tracks == app@.pattern.tracks.len(),
                app@.tracks_cover_rows(),
                line@.len() == t,
                forall|j: int|
                    0 <= j < t ==> {
                        &&& (#[trigger] line@[j]).text@ == step_text(app@.pattern.tracks[j][r as int])
                        &&& line@[j].highlight == app@.highlight_at(r as int, j)
                    },
            decreases num_tracks - t,
        {
            assert(app@.pattern.tracks[t as int].len() >= num_rows);
            let step = app.pattern.tracks[t][r];
            let text = format_step(step);
            line.push(EditorCell { text, highlight: cell_highlight(app, r, t) });
            t = t + 1;
        }
        rows.push(line);
        r = r + 1;
    }
    rows
}

/// The status line: playback state, cursor position, playback row, tempo
/// (in beats per minute, with one decimal) and octave, two-digit numbers
/// padded with a zero.
pub fn status_text(app: &App) -> (text: String)
    ensures
        text@ == app@.spec_status_text(),
{
    proof {
        reveal_strlit("State: ");
        reveal_strlit("Stopped");
        reveal_strlit("Playing");
    }
    let mut text = String::from_str("State: ");
    match app.playback_state {
        PlaybackState::Stopped => text.append("Stopped"),
        PlaybackState::Playing => text.append("Playing"),
    }
    text.append(" | Pos: ");
    push_padded2(&mut text, app.cursor_row);
    text.append(",");
    push_padded2(&mut text, app.cursor_track);
    text.append(" | Playback Row: ");
    push_padded2(&mut text, app.playback_row);
    text.append(" | BPM: ");
    push_decimal(&mut text, app.bpm as usize);
    text.append(".0");
    text.append(" | Octave ");
    push_padded2(&mut text, app.octave as usize);
    assert(text@ =~= app@.spec_status_text());
    text
}

/// The cursor marks exactly its own cell and the playback head, while
/// playing, marks exactly its row: a cell carries the cursor highlight if
/// and only if the cursor is on it, whatever the playback state, and the
/// playback highlight if and only if playback is running on its row.
pub proof fn lemma_highlight_marks(app: AppView, row: int, track: int)
    ensures
        (app.highlight_at(row, track) is Cursor || app.highlight_at(row, track) is CursorOnPlayback)
            <==> (row == app.cursor_row && track == app.cursor_track),
        (app.highlight_at(row, track) is Playback || app.highlight_at(row, track) is CursorOnPlayback)
            <==> (app.playback_state is Playing && row == app.playback_row),
{
}

/// The number that a decimal digit character stands for.
pub open spec fn digit_value(c: char) -> int {
    c as int - '0' as int
}

/// The number that a string of decimal digits stands for, most significant
/// digit first.
pub open spec fn digits_value(s: Seq<char>) -> int
    decreases s.len(),
{
    if s.len() == 0 {
        0
    } else {
        digits_value(s.drop_last()) * 10 + digit_value(s.last())
    }
}

/// Each digit character stands for its digit.
proof fn lemma_digit_char_value(d: int)
    requires
        0 <= d < 10,
    ensures
        digit_value(digit_char(d)) == d,
        '0' <= digit_char(d) <= '9',
        d > 0 ==> digit_char(d) != '0',
{
    assert('0' as int == 48);
    assert('1' as int == 49);
    assert('2' as int == 50);
    assert('3' as int == 51);
    assert('4' as int == 52);
    assert('5' as int == 53);
    assert('6' as int == 54);
    assert('7' as int == 55);
    assert('8' as int == 56);
    assert('9' as int == 57);
}

/// The digits written for `n` are decimal digits, read back as `n`, and
/// start with a zero only for `n == 0`.
pub proof fn lemma_decimal_reads_back(n: nat)
    ensures
        decimal(n).len() >= 1,
        forall|i: int| 0 <= i < decimal(n).len() ==> '0' <= #[trigger] decimal(n)[i] <= '9',
        digits_value(decimal(n)) == n,
        n > 0 ==> decimal(n)[0] != '0',
    decreases n,
{
    lemma_digit_char_value((n % 10) as int);
    let d = decimal(n);
    if n >= 10 {
        lemma_decimal_reads_back(n / 10);
        assert(d.drop_last() =~= decimal(n / 10));
        assert(d.last() == digit_char((n % 10) as int));
        assert(d[0] == decimal(n / 10)[0]);
        assert(digits_value(d) == digits_value(decimal(n / 10)) * 10 + (n % 10));
    } else {
        assert(n % 10 == n);
        assert(d.drop_last() =~= Seq::<char>::empty());
        assert(digits_value(d) == digits_value(Seq::<char>::empty()) * 10 + digit_value(d.last()));
    }
}

/// A leading zero does not change the number that digits stand for.
proof fn lemma_leading_zero(s: Seq<char>)
    ensures
        digits_value(seq!['0'] + s) == digits_value(s),
    decreases s.len(),
{
    lemma_digit_char_value(0);
    let z = seq!['0'] + s;
    if s.len() > 0 {
        lemma_leading_zero(s.drop_last());
        assert(z.drop_last() =~= seq!['0'] + s.drop_last());
        assert(z.last() == s.last());
        assert(digits_value(z) == digits_value(z.drop_last()) * 10 + digit_value(z.last()));
        assert(digits_value(s) == digits_value(s.drop_last()) * 10 + digit_value(s.last()));
    } else {
        assert(z.len() == 1);
        assert(digits_value(z) == digits_value(z.drop_last()) * 10 + digit_value(z.last()));
        assert(digits_value(s) == 0);
        assert(z.drop_last() =~= Seq::<char>::empty());
        assert(z.last() == '0');
        assert(digit_value('0') == 0);
    }
}

/// The two-digit field written for `n` has at least two decimal digits and
/// is read back as `n`.
pub proof fn lemma_padded2_reads_back(n: nat)
    ensures
        padded2(n).len() >= 2,
        digits_value(padded2(n)) == n,
{
    lemma_decimal_reads_back(n);
    if n < 10 {
        lemma_leading_zero(decimal(n));
    } else {
        lemma_decimal_reads_back(n / 10);
    }
}

/// Different numbers are written differently.
pub proof fn lemma_fields_injective(a: nat, b: nat)
    ensures
        decimal(a) == decimal(b) ==> a == b,
        padded2(a) == padded2(b) ==> a == b,
{
    lemma_decimal_reads_back(a);
    lemma_decimal_reads_back(b);
    lemma_padded2_reads_back(a);
    lemma_padded2_reads_back(b);
}

/// The text of a step holding a note is the pitch's name, which holds no
/// digit and differs from pitch to pitch, followed by decimal digits that
/// read back as the octave; a silent step reads ` . `.
pub proof fn lemma_step_text_shows_note(step: PatternStep)
    ensures
        step.note matches Some(n) ==> {
            &&& step_text(step) == n.pitch.spec_name() + decimal(n.octave as nat)
            &&& digits_value(step_text(step).skip(n.pitch.spec_name().len() as int)) == n.octave
            &&& forall|i: int|
                0 <= i < n.pitch.spec_name().len() ==> !('0' <= #[trigger] n.pitch.spec_name()[i]
                    <= '9')
        },
        step.note is None ==> step_text(step) == seq![' ', '.', ' '],
{
    if let Some(n) = step.note {
        lemma_decimal_reads_back(n.octave as nat);
        assert(step_text(step).skip(n.pitch.spec_name().len() as int) =~= decimal(n.octave as nat));
    }
}

/// Different pitches have different names.
pub proof fn lemma_pitch_names_distinct(a: NotePitch, b: NotePitch)
    ensures
        a != b ==> a.spec_name() != b.spec_name(),
{
    if a != b && a.spec_name() == b.spec_name() {
        assert(a.spec_name().len() == b.spec_name().len());
        assert(a.spec_name()[0] == b.spec_name()[0]);
        if a.spec_name().len() == 2 {
            assert(a.spec_name()[1] == b.spec_name()[1]);
        }
    }
}

/// In `p + x + s`, the middle part is determined by the whole.
proof fn lemma_middle_cancels(p: Seq<char>, x1: Seq<char>, x2: Seq<char>, s: Seq<char>)
    requires
        p + x1 + s == p + x2 + s,
    ensures
        x1 == x2,
{
    let w1 = p + x1 + s;
    let w2 = p + x2 + s;
    assert(w1.len() == p.len() + x1.len() + s.len());
    assert(w2.len() == p.len() + x2.len() + s.len());
    assert(x1.len() == x2.len());
    assert(x1 =~= w1.subrange(p.len() as int, (p.len() + x1.len()) as int));
    assert(x2 =~= w2.subrange(p.len() as int, (p.len() + x2.len()) as int));
}

/// Everything after the state name on the status line is the same whether
/// playback is running or stopped, and the line begins with `State: `
/// followed by a seven-letter state name.
pub proof fn lemma_status_independent_of_state(app: AppView, other: PlaybackState)
    ensures
        app.spec_status_text().skip(14) == (AppView { playback_state: other, ..app }).spec_status_text().skip(14),
        app.spec_status_text().take(7) == "State: "@,
        other != app.playback_state ==> app.spec_status_text() != (AppView {
            playback_state: other,
            ..app
        }).spec_status_text(),
{
    reveal_strlit("State: ");
    reveal_strlit("Stopped");
    reveal_strlit("Playing");
    let b = AppView { playback_state: other, ..app };
    let rest = |v: AppView|
        " | Pos: "@ + padded2(v.cursor_row as nat) + ","@ + padded2(v.cursor_track as nat)
            + " | Playback Row: "@ + padded2(v.playback_row as nat) + " | BPM: "@ + decimal(
            v.bpm as nat,
        ) + ".0"@ + " | Octave "@ + padded2(v.octave as nat);
    assert(app.spec_status_text() =~= "State: "@ + state_name(app.playback_state) + rest(app));
    assert(b.spec_status_text() =~= "State: "@ + state_name(other) + rest(b));
    assert(rest(app) == rest(b));
    assert(app.spec_status_text().skip(14) =~= rest(app));
    assert(b.spec_status_text().skip(14) =~= rest(b));
    if other != app.playback_state {
        assert(app.spec_status_text()[7] != b.spec_status_text()[7]);
    }
}

/// The status line shows the tempo: two states that differ only in the
/// tempo have different status lines.
pub proof fn lemma_status_shows_bpm(app: AppView, bpm: u32)
    ensures
        app.spec_status_text() == (AppView { bpm, ..app }).spec_status_text() ==> bpm == app.bpm,
{
    let b = AppView { bpm, ..app };
    let pre = "State: "@ + state_name(app.playback_state) + " | Pos: "@ + padded2(
        app.cursor_row as nat,
    ) + ","@ + padded2(app.cursor_track as nat) + " | Playback Row: "@ + padded2(
        app.playback_row as nat,
    ) + " | BPM: "@;
    let post = ".0"@ + " | Octave "@ + padded2(app.octave as nat);
    assert(app.spec_status_text() =~= pre + decimal(app.bpm as nat) + post);
    assert(b.spec_status_text() =~= pre + decimal(bpm as nat) + post);
    if app.spec_status_text() == b.spec_status_text() {
        lemma_middle_cancels(pre, decimal(app.bpm as nat), decimal(bpm as nat), post);
        lemma_fields_injective(app.bpm as nat, bpm as nat);
    }
}

/// The status line shows the playback row, in every playback state: two
/// states that differ only in the playback row have different status
/// lines.
pub proof fn lemma_status_shows_playback_row(app: AppView, row: usize)
    ensures
        app.spec_status_text() == (AppView { playback_row: row, ..app }).spec_status_text() ==> row
            == app.playback_row,
{
    let b = AppView { playback_row: row, ..app };
    let pre = "State: "@ + state_name(app.playback_state) + " | Pos: "@ + padded2(
        app.cursor_row as nat,
    ) + ","@ + padded2(app.cursor_track as nat) + " | Playback Row: "@;
    let post = " | BPM: "@ + decimal(app.bpm as nat) + ".0"@ + " | Octave "@ + padded2(
        app.octave as nat,
    );
    assert(app.spec_status_text() =~= pre + padded2(app.playback_row as nat) + post);
    assert(b.spec_status_text() =~= pre + padded2(row as nat) + post);
    if app.spec_status_text() == b.spec_status_text() {
        lemma_middle_cancels(pre, padded2(app.playback_row as nat), padded2(row as nat), post);
        lemma_fields_injective(app.playback_row as nat, row as nat);
    }
}

/// The status line shows the cursor row: two states that differ only in
/// the cursor row have different status lines.
pub proof fn lemma_status_shows_cursor_row(app: AppView, row: usize)
    ensures
        app.spec_status_text() == (AppView { cursor_row: row, ..app }).spec_status_text() ==> row
            == app.cursor_row,
{
    let a1 = AppView { cursor_row: row, ..app };
    let pre = "State: "@ + state_name(app.playback_state) + " | Pos: "@;
    let post = ","@ + padded2(app.cursor_track as nat) + " | Playback Row: "@ + padded2(
        app.playback_row as nat,
    ) + " | BPM: "@ + decimal(app.bpm as nat) + ".0"@ + " | Octave "@ + padded2(
        app.octave as nat,
    );
    assert(app.spec_status_text() =~= pre + padded2(app.cursor_row as nat) + post);
    assert(a1.spec_status_text() =~= pre + padded2(row as nat) + post);
    if app.spec_status_text() == a1.spec_status_text() {
        lemma_middle_cancels(pre, padded2(app.cursor_row as nat), padded2(row as nat), post);
        lemma_fields_injective(app.cursor_row as nat, row as nat);
    }
}

/// The status line shows the cursor track: two states that differ only in
/// the cursor track have different status lines.
pub proof fn lemma_status_shows_cursor_track(app: AppView, track: usize)
    ensures
        app.spec_status_text() == (AppView { cursor_track: track, ..app }).spec_status_text()
            ==> track == app.cursor_track,
{
    let a2 = AppView { cursor_track: track, ..app };
    let pre = "State: "@ + state_name(app.playback_state) + " | Pos: "@ + padded2(
        app.cursor_row as nat,
    ) + ","@;
    let post = " | Playback Row: "@ + padded2(app.playback_row as nat) + " | BPM: "@ + decimal(
        app.bpm as nat,
    ) + ".0"@ + " | Octave "@ + padded2(app.octave as nat);
    assert(app.spec_status_text() =~= pre + padded2(app.cursor_track as nat) + post);
    assert(a2.spec_status_text() =~= pre + padded2(track as nat) + post);
    if app.spec_status_text() == a2.spec_status_text() {
        lemma_middle_cancels(pre, padded2(app.cursor_track as nat), padded2(track as nat), post);
        lemma_fields_injective(app.cursor_track as nat, track as nat);
    }
}

/// The status line shows the octave: two states that differ only in the
/// octave have different status lines.
pub proof fn lemma_status_shows_octave(app: AppView, octave: u8)
    ensures
        app.spec_status_text() == (AppView { octave, ..app }).spec_status_text() ==> octave
            == app.octave,
{
    let a3 = AppView { octave, ..app };
    let pre = "State: "@ + state_name(app.playback_state) + " | Pos: "@ + padded2(
        app.cursor_row as nat,
    ) + ","@ + padded2(app.cursor_track as nat) + " | Playback Row: "@ + padded2(
        app.playback_row as nat,
    ) + " | BPM: "@ + decimal(app.bpm as nat) + ".0"@ + " | Octave "@;
    let post = Seq::<char>::empty();
    assert(app.spec_status_text() =~= pre + padded2(app.octave as nat) + post);
    assert(a3.spec_status_text() =~= pre + padded2(octave as nat) + post);
    if app.spec_status_text() == a3.spec_status_text() {
        lemma_middle_cancels(pre, padded2(app.octave as nat), padded2(octave as nat), post);
        lemma_fields_injective(app.octave as nat, octave as nat);
    }
}

} // verus!
