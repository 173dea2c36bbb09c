//! Notes of the tuner, and the sizes the pitch detector works with.

use vstd::prelude::*;

verus! {

/// A note of the twelve-tone scale.
#[derive(Debug, Clone, Copy, PartialEq, Eq, Structural)]
pub enum Note {
    A,
    ASharp,
    B,
    C,
    CSharp,
    D,
    DSharp,
    E,
    F,
    FSharp,
    G,
    GSharp,
}

/// How a note is written.
pub open spec fn note_text(note: Note) -> Seq<char> {
    match note {
        Note::A => "A"@,
        Note::ASharp => "A#"@,
        Note::B => "B"@,
        Note::C => "C"@,
        Note::CSharp => "C#"@,
        Note::D => "D"@,
        Note::DSharp => "D#"@,
        Note::E => "E"@,
        Note::F => "F"@,
        Note::FSharp => "F#"@,
        Note::G => "G"@,
        Note::GSharp => "G#"@,
    }
}

/// The note at a position in the octave, counted in semitones up from C.
pub open spec fn note_in_octave(index: int) -> Note {
    if index == 0 {
        Note::C
    } else if index == 1 {
        Note::CSharp
    } else if index == 2 {
        Note::D
    } else if index == 3 {
        Note::DSharp
    } else if index == 4 {
        Note::E
    } else if index == 5 {
        Note::F
    } else if index == 6 {
        Note::FSharp
    } else if index == 7 {
        Note::G
    } else if index == 8 {
        Note::GSharp
    } else if index == 9 {
        Note::A
    } else if index == 10 {
        Note::ASharp
    } else {
        Note::B
    }
}

/// Division by twelve rounding towards zero, as integer division does.
pub open spec fn div_toward_zero_12(m: int) -> int {
    if m >= 0 {
        m / 12
    } else {
        -((-m) / 12)
    }
}

/// The note of a MIDI note number and its octave: MIDI note 69 is A4 and 60 is C4.
pub open spec fn spec_note_from_midi(midi: int) -> (Note, int) {
    (note_in_octave(midi % 12), div_toward_zero_12(midi) - 1)
}

impl Note {
    /// How the note is written, with `#` for a sharp.
    pub fn name(&self) -> (text: &'static str)
        ensures
            text@ == note_text(*self),
    {
        match self {
            Note::A => "A",
            Note::ASharp => "A#",
            Note::B => "B",
            Note::C => "C",
            Note::CSharp => "C#",
            Note::D => "D",
            Note::DSharp => "D#",
            Note::E => "E",
            Note::F => "F",
            Note::FSharp => "F#",
            Note::G => "G",
            Note::GSharp => "G#",
        }
    }
}

/// The note of a MIDI note number, and the octave it is in.
pub fn note_from_midi(midi: isize) -> (note: (Note, isize))
    ensures
        (note.0, note.1 as int) == spec_note_from_midi(midi as int),
        note.0 == seq![
            Note::C, Note::CSharp, Note::D, Note::DSharp, Note::E, Note::F,
            Note::FSharp, Note::G, Note::GSharp, Note::A, Note::ASharp, Note::B,
        ][midi as int % 12],
{
    proof {
        lemma_note_of_midi(midi as int);
    }
    let wide: i128 = midi as i128;
    let index: i128;
    let quotient: i128;
    if wide >= 0 {
        index = wide % 12;
        quotient = wide / 12;
    } else {
        let magnitude: i128 = -wide;
        let rest: i128 = magnitude % 12;
        index = if rest == 0 { 0 } else { 12 - rest };
        quotient = -(magnitude / 12);
        assert(index == (midi as int) % 12) by (nonlinear_arith)
            requires
                magnitude == -(midi as int),
                magnitude > 0,
                rest == magnitude % 12,
                index == if rest == 0 { 0 } else { 12 - rest },
        {
        }
    }
    let note = if index == 0 {
        Note::C
    } else if index == 1 {
        Note::CSharp
    } else if index == 2 {
        Note::D
    } else if index == 3 {
        Note::DSharp
    } else if index == 4 {
        Note::E
    } else if index == 5 {
        Note::F
    } else if index == 6 {
        Note::FSharp
    } else if index == 7 {
        Note::G
    } else if index == 8 {
        Note::GSharp
    } else if index == 9 {
        Note::A
    } else if index == 10 {
        Note::ASharp
    } else {
        Note::B
    };
    (note, (quotient - 1) as isize)
}

/// The note of a MIDI number is its place in the octave, counted in semitones up from C:
/// C, C#, D, D#, E, F, F#, G, G#, A, A#, B; and from MIDI 0 on, the octave is the number of whole
/// octaves above MIDI 0, less one (so MIDI 60 is C4, 67 is G4 and 69 is A4).
pub proof fn lemma_note_of_midi(midi: int)
    ensures
        spec_note_from_midi(midi).0 == seq![
            Note::C, Note::CSharp, Note::D, Note::DSharp, Note::E, Note::F,
            Note::FSharp, Note::G, Note::GSharp, Note::A, Note::ASharp, Note::B,
        ][midi % 12],
        midi >= 0 ==> spec_note_from_midi(midi).1 == midi / 12 - 1,
{
}

/// A note twelve semitones up is the same note an octave higher.
pub proof fn lemma_octave_up(midi: int)
    requires
        midi >= 0,
    ensures
        spec_note_from_midi(midi + 12).0 == spec_note_from_midi(midi).0,
        spec_note_from_midi(midi + 12).1 == spec_note_from_midi(midi).1 + 1,
{
    assert((midi + 12) % 12 == midi % 12);
    assert((midi + 12) / 12 == midi / 12 + 1);
}

/// The number of samples the pitch detector needs: the longest period it looks for, which is
/// that of `freq_min`, taken `num_periods` times.
pub fn minimum_buffer_length(sample_rate: usize, freq_min: usize, num_periods: usize) -> (length: usize)
    requires
        freq_min > 0,
        (sample_rate / freq_min) * num_periods <= usize::MAX,
    ensures
        length == (sample_rate / freq_min) * num_periods,
{
    let tau_max = sample_rate / freq_min;
    tau_max * num_periods
}

} // verus!
