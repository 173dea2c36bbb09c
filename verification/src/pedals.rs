//! The kinds of pedal a pedalboard can hold, and where a parameter's editor is shown.

use vstd::prelude::*;

verus! {

/// Every kind of pedal.
#[derive(Debug, Clone, Copy, PartialEq, Eq, Hash, Structural)]
pub enum PedalDiscriminants {
    AutoWah,
    Chorus,
    Compressor,
    Delay,
    Distortion,
    Flanger,
    Fuzz,
    GraphicEq7,
    SimpleEq,
    ImpulseResponse,
    Nam,
    NoiseGate,
    Overdrive,
    Phaser,
    PitchShift,
    Reverb,
    Tremolo,
    Vibrato,
    Volume,
    Vst2,
    Vst3,
    Wah,
}

/// The name a kind of pedal is shown with.
pub open spec fn pedal_display_name(kind: PedalDiscriminants) -> Seq<char> {
    match kind {
        PedalDiscriminants::Volume => "Volume"@,
        PedalDiscriminants::Fuzz => "Fuzz"@,
        PedalDiscriminants::PitchShift => "Pitch Shift"@,
        PedalDiscriminants::Chorus => "Chorus"@,
        PedalDiscriminants::Flanger => "Flanger"@,
        PedalDiscriminants::Delay => "Delay"@,
        PedalDiscriminants::GraphicEq7 => "Graphic EQ"@,
        PedalDiscriminants::SimpleEq => "Simple EQ"@,
        PedalDiscriminants::Nam => "Neural Amp Modeler"@,
        PedalDiscriminants::ImpulseResponse => "Impulse Response"@,
        PedalDiscriminants::NoiseGate => "Noise Gate"@,
        PedalDiscriminants::Vst2 => "VST2 Plugin"@,
        PedalDiscriminants::Vst3 => "VST3 Plugin"@,
        PedalDiscriminants::Reverb => "Reverb"@,
        PedalDiscriminants::Vibrato => "Vibrato"@,
        PedalDiscriminants::Tremolo => "Tremolo"@,
        PedalDiscriminants::AutoWah => "Auto Wah"@,
        PedalDiscriminants::Wah => "Wah"@,
        PedalDiscriminants::Compressor => "Compressor"@,
        PedalDiscriminants::Overdrive => "Overdrive"@,
        PedalDiscriminants::Phaser => "Phaser"@,
        PedalDiscriminants::Distortion => "Distortion"@,
    }
}

/// Every kind of pedal, in the order they are declared in.
pub open spec fn all_pedal_kinds() -> Seq<PedalDiscriminants> {
    seq![
        PedalDiscriminants::AutoWah,
        PedalDiscriminants::Chorus,
        PedalDiscriminants::Compressor,
        PedalDiscriminants::Delay,
        PedalDiscriminants::Distortion,
        PedalDiscriminants::Flanger,
        PedalDiscriminants::Fuzz,
        PedalDiscriminants::GraphicEq7,
        PedalDiscriminants::SimpleEq,
        PedalDiscriminants::ImpulseResponse,
        PedalDiscriminants::Nam,
        PedalDiscriminants::NoiseGate,
        PedalDiscriminants::Overdrive,
        PedalDiscriminants::Phaser,
        PedalDiscriminants::PitchShift,
        PedalDiscriminants::Reverb,
        PedalDiscriminants::Tremolo,
        PedalDiscriminants::Vibrato,
        PedalDiscriminants::Volume,
        PedalDiscriminants::Vst2,
        PedalDiscriminants::Vst3,
        PedalDiscriminants::Wah,
    ]
}

impl PedalDiscriminants {
    /// The name the kind of pedal is shown with.
    pub fn display_name(&self) -> (name: &'static str)
        ensures
            name@ == pedal_display_name(*self),
    {
        match self {
            PedalDiscriminants::Volume => "Volume",
            PedalDiscriminants::Fuzz => "Fuzz",
            PedalDiscriminants::PitchShift => "Pitch Shift",
            PedalDiscriminants::Chorus => "Chorus",
            PedalDiscriminants::Flanger => "Flanger",
            PedalDiscriminants::Delay => "Delay",
            PedalDiscriminants::GraphicEq7 => "Graphic EQ",
            PedalDiscriminants::SimpleEq => "Simple EQ",
            PedalDiscriminants::Nam => "Neural Amp Modeler",
            PedalDiscriminants::ImpulseResponse => "Impulse Response",
            PedalDiscriminants::NoiseGate => "Noise Gate",
            PedalDiscriminants::Vst2 => "VST2 Plugin",
            PedalDiscriminants::Vst3 => "VST3 Plugin",
            PedalDiscriminants::Reverb => "Reverb",
            PedalDiscriminants::Vibrato => "Vibrato",
            PedalDiscriminants::Tremolo => "Tremolo",
            PedalDiscriminants::AutoWah => "Auto Wah",
            PedalDiscriminants::Wah => "Wah",
            PedalDiscriminants::Compressor => "Compressor",
            PedalDiscriminants::Overdrive => "Overdrive",
            PedalDiscriminants::Phaser => "Phaser",
            PedalDiscriminants::Distortion => "Distortion",
        }
    }

    /// Every kind of pedal, in the order they are declared in.
    pub fn all() -> (kinds: Vec<PedalDiscriminants>)
        ensures
            kinds@ == all_pedal_kinds(),
    {
        let kinds = vec![
            PedalDiscriminants::AutoWah,
            PedalDiscriminants::Chorus,
            PedalDiscriminants::Compressor,
            PedalDiscriminants::Delay,
            PedalDiscriminants::Distortion,
            PedalDiscriminants::Flanger,
            PedalDiscriminants::Fuzz,
            PedalDiscriminants::GraphicEq7,
            PedalDiscriminants::SimpleEq,
            PedalDiscriminants::ImpulseResponse,
            PedalDiscriminants::Nam,
            PedalDiscriminants::NoiseGate,
            PedalDiscriminants::Overdrive,
            PedalDiscriminants::Phaser,
            PedalDiscriminants::PitchShift,
            PedalDiscriminants::Reverb,
            PedalDiscriminants::Tremolo,
            PedalDiscriminants::Vibrato,
            PedalDiscriminants::Volume,
            PedalDiscriminants::Vst2,
            PedalDiscriminants::Vst3,
            PedalDiscriminants::Wah,
        ];
        assert(kinds@ =~= all_pedal_kinds());
        kinds
    }
}

/// The position of a kind of pedal in the list of all of them.
pub open spec fn kind_position(kind: PedalDiscriminants) -> int {
    match kind {
        PedalDiscriminants::AutoWah => 0,
        PedalDiscriminants::Chorus => 1,
        PedalDiscriminants::Compressor => 2,
        PedalDiscriminants::Delay => 3,
        PedalDiscriminants::Distortion => 4,
        PedalDiscriminants::Flanger => 5,
        PedalDiscriminants::Fuzz => 6,
        PedalDiscriminants::GraphicEq7 => 7,
        PedalDiscriminants::SimpleEq => 8,
        PedalDiscriminants::ImpulseResponse => 9,
        PedalDiscriminants::Nam => 10,
        PedalDiscriminants::NoiseGate => 11,
        PedalDiscriminants::Overdrive => 12,
        PedalDiscriminants::Phaser => 13,
        PedalDiscriminants::PitchShift => 14,
        PedalDiscriminants::Reverb => 15,
        PedalDiscriminants::Tremolo => 16,
        PedalDiscriminants::Vibrato => 17,
        PedalDiscriminants::Volume => 18,
        PedalDiscriminants::Vst2 => 19,
        PedalDiscriminants::Vst3 => 20,
        PedalDiscriminants::Wah => 21,
    }
}

/// Every kind of pedal is listed, and listed once.
pub proof fn lemma_every_kind_listed(kind: PedalDiscriminants)
    ensures
        all_pedal_kinds().contains(kind),
        all_pedal_kinds().no_duplicates(),
{
    let all = all_pedal_kinds();
    assert forall|i: int| 0 <= i < all.len() implies kind_position(#[trigger] all[i]) == i by {
        if i == 0 {
            assert(all[0] == PedalDiscriminants::AutoWah);
        } else if i == 1 {
            assert(all[1] == PedalDiscriminants::Chorus);
        } else if i == 2 {
            assert(all[2] == PedalDiscriminants::Compressor);
        } else if i == 3 {
            assert(all[3] == PedalDiscriminants::Delay);
        } else if i == 4 {
            assert(all[4] == PedalDiscriminants::Distortion);
        } else if i == 5 {
            assert(all[5] == PedalDiscriminants::Flanger);
        } else if i == 6 {
            assert(all[6] == PedalDiscriminants::Fuzz);
        } else if i == 7 {
            assert(all[7] == PedalDiscriminants::GraphicEq7);
        } else if i == 8 {
            assert(all[8] == PedalDiscriminants::SimpleEq);
        } else if i == 9 {
            assert(all[9] == PedalDiscriminants::ImpulseResponse);
        } else if i == 10 {
            assert(all[10] == PedalDiscriminants::Nam);
        } else if i == 11 {
            assert(all[11] == PedalDiscriminants::NoiseGate);
        } else if i == 12 {
            assert(all[12] == PedalDiscriminants::Overdrive);
        } else if i == 13 {
            assert(all[13] == PedalDiscriminants::Phaser);
        } else if i == 14 {
            assert(all[14] == PedalDiscriminants::PitchShift);
        } else if i == 15 {
            assert(all[15] == PedalDiscriminants::Reverb);
        } else if i == 16 {
            assert(all[16] == PedalDiscriminants::Tremolo);
        } else if i == 17 {
            assert(all[17] == PedalDiscriminants::Vibrato);
        } else if i == 18 {
            assert(all[18] == PedalDiscriminants::Volume);
        } else if i == 19 {
            assert(all[19] == PedalDiscriminants::Vst2);
        } else if i == 20 {
            assert(all[20] == PedalDiscriminants::Vst3);
        } else if i == 21 {
            assert(all[21] == PedalDiscriminants::Wah);
        }
    }
    assert(all[kind_position(kind)] == kind);
}

/// Where a parameter's editor is shown.
#[derive(Debug, Clone, Copy, PartialEq, Eq, Structural)]
pub enum ParameterUILocation {
    Pedal,
    ParameterWindow,
    MidiMin,
    MidiMax,
}

} // verus!
