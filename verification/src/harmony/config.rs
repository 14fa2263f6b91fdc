//! Configuration enums for the harmony engine.

use vstd::prelude::*;

verus! {

/// Musical keys, C through B.
#[derive(Clone, Copy, Debug, PartialEq, Eq, Structural)]
pub enum Key {
    C,
    Db,
    D,
    Eb,
    E,
    F,
    Gb,
    G,
    Ab,
    A,
    Bb,
    B,
}

impl Key {
    /// The key at `index` in menu order (C = 0 up to B = 11), if any.
    pub fn from_index(index: usize) -> (r: Option<Key>)
        ensures
            r == if index < 12 {
                Some(Self::spec_all()[index as int])
            } else {
                None::<Key>
            },
    {
        let keys = Key::all();
        if index < keys.len() {
            Some(keys[index])
        } else {
            None
        }
    }

    /// Pitch class of the key's tonic.
    pub open spec fn spec_semitones(self) -> u8 {
        match self {
            Key::C => 0,
            Key::Db => 1,
            Key::D => 2,
            Key::Eb => 3,
            Key::E => 4,
            Key::F => 5,
            Key::Gb => 6,
            Key::G => 7,
            Key::Ab => 8,
            Key::A => 9,
            Key::Bb => 10,
            Key::B => 11,
        }
    }

    /// Returns semitones from C (0-11).
    pub fn semitones_from_c(&self) -> (r: u8)
        ensures
            r == self.spec_semitones(),
            r < 12,
    {
        match self {
            Key::C => 0,
            Key::Db => 1,
            Key::D => 2,
            Key::Eb => 3,
            Key::E => 4,
            Key::F => 5,
            Key::Gb => 6,
            Key::G => 7,
            Key::Ab => 8,
            Key::A => 9,
            Key::Bb => 10,
            Key::B => 11,
        }
    }

    /// All keys in order, C through B.
    pub open spec fn spec_all() -> Seq<Key> {
        seq![Key::C, Key::Db, Key::D, Key::Eb, Key::E, Key::F, Key::Gb, Key::G, Key::Ab, Key::A, Key::Bb, Key::B]
    }

    /// All keys in menu order.
    pub fn all() -> (r: &'static [Key])
        ensures
            r@ == Self::spec_all(),
            r@.len() == 12,
            forall|i: int| 0 <= i < 12 ==> (#[trigger] r@[i]).spec_semitones() == i,
    {
        let r: &'static [Key] = &[
            Key::C,
            Key::Db,
            Key::D,
            Key::Eb,
            Key::E,
            Key::F,
            Key::Gb,
            Key::G,
            Key::Ab,
            Key::A,
            Key::Bb,
            Key::B,
        ];
        r
    }
}


/// MIDI routing mode for harmony voice output.
#[derive(Clone, Copy, Debug, PartialEq, Eq, Structural)]
pub enum RoutingMode {
    /// Channel-based (MPE): all voices on one output, separated by MIDI channel.
    ChannelBased,
    /// Port-based: each voice goes to a separate MIDI output port.
    PortBased,
}

impl Default for RoutingMode {
    fn default() -> (r: Self)
        ensures
            r == RoutingMode::ChannelBased,
    {
        RoutingMode::ChannelBased
    }
}

/// Octave placement modes for harmony voices.
#[derive(Clone, Copy, Debug, PartialEq, Eq, Structural)]
pub enum OctaveMode {
    /// No octave modification.
    NoShift,
    /// Each successive voice is +1 octave higher.
    Spread,
    /// Harmonies below the melody go down an octave, above go up.
    BassTrebleSplit,
    /// Each harmony note is duplicated at +1 and -1 octave.
    Mirror,
}

impl Default for OctaveMode {
    fn default() -> (r: Self)
        ensures
            r == OctaveMode::NoShift,
    {
        OctaveMode::NoShift
    }
}

impl OctaveMode {
    /// The octave mode numbered `number` in menu order (0 none, 1 spread,
    /// 2 bass/treble split, 3 mirror), if any.
    pub fn from_number(number: u8) -> (r: Option<OctaveMode>)
        ensures
            r == if number == 0 {
                Some(OctaveMode::NoShift)
            } else if number == 1 {
                Some(OctaveMode::Spread)
            } else if number == 2 {
                Some(OctaveMode::BassTrebleSplit)
            } else if number == 3 {
                Some(OctaveMode::Mirror)
            } else {
                None::<OctaveMode>
            },
    {
        if number == 0 {
            Some(OctaveMode::NoShift)
        } else if number == 1 {
            Some(OctaveMode::Spread)
        } else if number == 2 {
            Some(OctaveMode::BassTrebleSplit)
        } else if number == 3 {
            Some(OctaveMode::Mirror)
        } else {
            None
        }
    }

    /// Menu description of the octave mode.
    pub open spec fn spec_description(self) -> Seq<char> {
        match self {
            OctaveMode::NoShift => "None (default pitch)"@,
            OctaveMode::Spread => "Spread (+1 octave per voice)"@,
            OctaveMode::BassTrebleSplit => "Bass/Treble split"@,
            OctaveMode::Mirror => "Mirror (\u{b1}1 octave)"@,
        }
    }

    /// Returns all octave modes for menu display.
    pub fn all() -> (r: &'static [OctaveMode])
        ensures
            r@ == seq![OctaveMode::NoShift, OctaveMode::Spread, OctaveMode::BassTrebleSplit, OctaveMode::Mirror],
    {
        let r: &'static [OctaveMode] = &[
            OctaveMode::NoShift,
            OctaveMode::Spread,
            OctaveMode::BassTrebleSplit,
            OctaveMode::Mirror,
        ];
        assert(r@ =~= seq![OctaveMode::NoShift, OctaveMode::Spread, OctaveMode::BassTrebleSplit, OctaveMode::Mirror]);
        r
    }

    /// Returns description for menu display.
    pub fn description(&self) -> (r: &'static str)
        ensures
            r@ == self.spec_description(),
    {
        match self {
            OctaveMode::NoShift => "None (default pitch)",
            OctaveMode::Spread => "Spread (+1 octave per voice)",
            OctaveMode::BassTrebleSplit => "Bass/Treble split",
            OctaveMode::Mirror => "Mirror (\u{b1}1 octave)",
        }
    }
}

/// Scale family grouping for UI display.
#[derive(Clone, Copy, Debug, PartialEq, Eq, Structural)]
pub enum ScaleFamily {
    /// The 7 modes of the major scale.
    Diatonic,
    /// The 7 modes of the harmonic minor scale.
    HarmonicMinor,
    /// The 7 modes of the melodic minor scale.
    MelodicMinor,
    /// The 7 modes of the harmonic major scale.
    HarmonicMajor,
    /// The 7 modes of the double harmonic scale.
    DoubleHarmonic,
    /// 5-note scales.
    Pentatonic,
    /// Blues scales and bebop dominant.
    Blues,
    /// Scales with transpositional symmetry.
    Symmetric,
    /// Scales from diverse traditions.
    World,
    /// 8-note Barry Harris sixth-diminished scales.
    BarryHarris,
}

impl ScaleFamily {
    /// Every family, in menu order.
    pub open spec fn spec_all() -> Seq<ScaleFamily> {
        seq![
            ScaleFamily::Diatonic,
            ScaleFamily::HarmonicMinor,
            ScaleFamily::MelodicMinor,
            ScaleFamily::HarmonicMajor,
            ScaleFamily::DoubleHarmonic,
            ScaleFamily::Pentatonic,
            ScaleFamily::Blues,
            ScaleFamily::Symmetric,
            ScaleFamily::World,
            ScaleFamily::BarryHarris,
        ]
    }

    /// Returns all scale families.
    pub fn all() -> (r: &'static [ScaleFamily])
        ensures
            r@ == Self::spec_all(),
            r@.len() == 10,
            forall|f: ScaleFamily| #[trigger] r@.contains(f),
    {
        let r: &'static [ScaleFamily] = &[
            ScaleFamily::Diatonic,
            ScaleFamily::HarmonicMinor,
            ScaleFamily::MelodicMinor,
            ScaleFamily::HarmonicMajor,
            ScaleFamily::DoubleHarmonic,
            ScaleFamily::Pentatonic,
            ScaleFamily::Blues,
            ScaleFamily::Symmetric,
            ScaleFamily::World,
            ScaleFamily::BarryHarris,
        ];
        assert(r@ =~= Self::spec_all());
        assert forall|f: ScaleFamily| #[trigger] r@.contains(f) by {
            match f {
                ScaleFamily::Diatonic => assert(r@[0] == f),
                ScaleFamily::HarmonicMinor => assert(r@[1] == f),
                ScaleFamily::MelodicMinor => assert(r@[2] == f),
                ScaleFamily::HarmonicMajor => assert(r@[3] == f),
                ScaleFamily::DoubleHarmonic => assert(r@[4] == f),
                ScaleFamily::Pentatonic => assert(r@[5] == f),
                ScaleFamily::Blues => assert(r@[6] == f),
                ScaleFamily::Symmetric => assert(r@[7] == f),
                ScaleFamily::World => assert(r@[8] == f),
                ScaleFamily::BarryHarris => assert(r@[9] == f),
            }
        }
        r
    }

    /// Display name of the family.
    pub open spec fn spec_display_name(self) -> Seq<char> {
        match self {
            ScaleFamily::Diatonic => "Diatonic Modes"@,
            ScaleFamily::HarmonicMinor => "Harmonic Minor"@,
            ScaleFamily::MelodicMinor => "Melodic Minor"@,
            ScaleFamily::HarmonicMajor => "Harmonic Major"@,
            ScaleFamily::DoubleHarmonic => "Double Harmonic"@,
            ScaleFamily::Pentatonic => "Pentatonic"@,
            ScaleFamily::Blues => "Blues & Bebop"@,
            ScaleFamily::Symmetric => "Symmetric"@,
            ScaleFamily::World => "World Scales"@,
            ScaleFamily::BarryHarris => "Barry Harris"@,
        }
    }

    /// Display name used in menus.
    pub fn display_name(&self) -> (r: &'static str)
        ensures
            r@ == self.spec_display_name(),
    {
        match self {
            ScaleFamily::Diatonic => "Diatonic Modes",
            ScaleFamily::HarmonicMinor => "Harmonic Minor",
            ScaleFamily::MelodicMinor => "Melodic Minor",
            ScaleFamily::HarmonicMajor => "Harmonic Major",
            ScaleFamily::DoubleHarmonic => "Double Harmonic",
            ScaleFamily::Pentatonic => "Pentatonic",
            ScaleFamily::Blues => "Blues & Bebop",
            ScaleFamily::Symmetric => "Symmetric",
            ScaleFamily::World => "World Scales",
            ScaleFamily::BarryHarris => "Barry Harris",
        }
    }
}

/// The interval pattern of a scale: 5 to 8 degrees, starting at the tonic,
/// strictly ascending, within one octave.
pub open spec fn intervals_well_formed(iv: Seq<u8>) -> bool {
    &&& 5 <= iv.len() <= 8
    &&& iv[0] == 0
    &&& forall|i: int, j: int| 0 <= i < j < iv.len() ==> iv[i] < iv[j]
    &&& forall|i: int| 0 <= i < iv.len() ==> #[trigger] iv[i] < 12
}

/// Scale modes, grouped by family.
#[derive(Clone, Copy, Debug, PartialEq, Eq, Structural)]
pub enum ScaleMode {
    /// Ionian mode (major scale): W-W-H-W-W-W-H
    Ionian,
    /// Dorian mode: W-H-W-W-W-H-W (minor with raised 6th)
    Dorian,
    /// Phrygian mode: H-W-W-W-H-W-W (minor with lowered 2nd)
    Phrygian,
    /// Lydian mode: W-W-W-H-W-W-H (major with raised 4th)
    Lydian,
    /// Mixolydian mode: W-W-H-W-W-H-W (major with lowered 7th)
    Mixolydian,
    /// Aeolian mode (natural minor): W-H-W-W-H-W-W
    Aeolian,
    /// Locrian mode: H-W-W-H-W-W-W (diminished tonic)
    Locrian,
    /// Harmonic minor: natural minor with raised 7th
    HarmonicMinor,
    /// Locrian natural 6: Locrian with natural 6th
    LocrianNat6,
    /// Ionian augmented: major with raised 5th
    IonianAug,
    /// Dorian #4: Dorian with raised 4th
    DorianSharp4,
    /// Phrygian dominant: Phrygian with raised 3rd (Spanish scale)
    PhrygianDominant,
    /// Lydian #2: Lydian with raised 2nd
    LydianSharp2,
    /// Super Locrian diminished: altered scale variant
    SuperLocrianDim,
    /// Melodic minor (ascending): minor with raised 6th and 7th
    MelodicMinor,
    /// Dorian b2: Dorian with lowered 2nd
    DorianFlat2,
    /// Lydian augmented: Lydian with raised 5th
    LydianAug,
    /// Lydian dominant: Lydian with lowered 7th
    LydianDominant,
    /// Mixolydian b6: Mixolydian with lowered 6th
    MixolydianFlat6,
    /// Locrian natural 2: Locrian with natural 2nd
    LocrianNat2,
    /// Super Locrian (altered scale): all tensions altered
    SuperLocrian,
    /// Harmonic major: major scale with b6 (7 notes)
    HarmonicMajor,
    /// Dorian b5: mode 2 of harmonic major (7 notes)
    DorianFlat5,
    /// Phrygian b4: mode 3 of harmonic major (7 notes)
    PhrygianFlat4,
    /// Lydian b3 (Lydian diminished): mode 4 of harmonic major (7 notes)
    LydianFlat3,
    /// Mixolydian b2: mode 5 of harmonic major (7 notes)
    MixolydianFlat2,
    /// Lydian augmented #2: mode 6 of harmonic major (7 notes)
    LydianAugSharp2,
    /// Locrian bb7: mode 7 of harmonic major (7 notes)
    LocrianDoubleFlat7,
    /// Double harmonic: mode 1, two augmented 2nd intervals (7 notes)
    DoubleHarmonic,
    /// Lydian #2 #6: mode 2 of double harmonic (7 notes)
    LydianSharp2Sharp6,
    /// Ultraphrygian: mode 3 of double harmonic (7 notes)
    Ultraphrygian,
    /// Hungarian minor: mode 4 of double harmonic, harmonic minor with #4 (7 notes)
    HungarianMinor,
    /// Oriental: mode 5 of double harmonic (7 notes)
    Oriental,
    /// Ionian #2 #5: mode 6 of double harmonic (7 notes)
    IonianSharp2Sharp5,
    /// Locrian bb3 bb7: mode 7 of double harmonic (7 notes)
    LocrianDoubleFlat3DoubleFlat7,
    /// Major pentatonic: the most common 5-note scale (5 notes)
    MajorPentatonic,
    /// Minor pentatonic: the most used guitar scale (5 notes)
    MinorPentatonic,
    /// Hirajoshi: Japanese pentatonic (5 notes)
    Hirajoshi,
    /// In Sen: Japanese pentatonic, mode 4 of Hirajoshi (5 notes)
    InSen,
    /// Iwato: Japanese pentatonic, mode 2 of Hirajoshi (5 notes)
    Iwato,
    /// Yo: mode 4 of major pentatonic (5 notes)
    Yo,
    /// Kumoi: Japanese pentatonic (5 notes)
    Kumoi,
    /// Pelog: Balinese/Javanese pentatonic (5 notes)
    Pelog,
    /// Minor blues: minor pentatonic + b5 (6 notes)
    MinorBlues,
    /// Major blues: major pentatonic + #2 (6 notes)
    MajorBlues,
    /// Bebop dominant: dominant 7th + natural 7th passing tone (8 notes)
    BebopDominant,
    /// Whole tone: 6 equally-spaced notes (6 notes, symmetry order 6)
    WholeTone,
    /// Diminished whole-half: alternating W-H (8 notes, symmetry order 4)
    DiminishedWholeHalf,
    /// Diminished half-whole: alternating H-W (8 notes, symmetry order 4)
    DiminishedHalfWhole,
    /// Augmented hexatonic: alternating m3-H (6 notes, symmetry order 3)
    AugmentedHex,
    /// Enigmatic: synthetic scale with unusual intervals (7 notes)
    Enigmatic,
    /// Neapolitan minor: harmonic minor with lowered 2nd (7 notes)
    NeapolitanMinor,
    /// Neapolitan major: major with lowered 2nd (7 notes)
    NeapolitanMajor,
    /// Persian: similar to double harmonic but with b5 (7 notes)
    Persian,
    /// Hungarian major: Lydian dominant with #2 (7 notes)
    HungarianMajor,
    /// Barry Harris major 6th diminished: 8-note bebop major scale
    BHMajor6thDim,
    /// Barry Harris minor 6th diminished: 8-note bebop minor scale
    BHMinor6thDim,
}

impl ScaleMode {
    /// Semitone offsets from the tonic for each degree.
    pub open spec fn spec_intervals(self) -> Seq<u8> {
        match self {
            ScaleMode::Ionian => seq![0, 2, 4, 5, 7, 9, 11],
            ScaleMode::Dorian => seq![0, 2, 3, 5, 7, 9, 10],
            ScaleMode::Phrygian => seq![0, 1, 3, 5, 7, 8, 10],
            ScaleMode::Lydian => seq![0, 2, 4, 6, 7, 9, 11],
            ScaleMode::Mixolydian => seq![0, 2, 4, 5, 7, 9, 10],
            ScaleMode::Aeolian => seq![0, 2, 3, 5, 7, 8, 10],
            ScaleMode::Locrian => seq![0, 1, 3, 5, 6, 8, 10],
            ScaleMode::HarmonicMinor => seq![0, 2, 3, 5, 7, 8, 11],
            ScaleMode::LocrianNat6 => seq![0, 1, 3, 5, 6, 9, 10],
            ScaleMode::IonianAug => seq![0, 2, 4, 5, 8, 9, 11],
            ScaleMode::DorianSharp4 => seq![0, 2, 3, 6, 7, 9, 10],
            ScaleMode::PhrygianDominant => seq![0, 1, 4, 5, 7, 8, 10],
            ScaleMode::LydianSharp2 => seq![0, 3, 4, 6, 7, 9, 11],
            ScaleMode::SuperLocrianDim => seq![0, 1, 3, 4, 6, 8, 9],
            ScaleMode::MelodicMinor => seq![0, 2, 3, 5, 7, 9, 11],
            ScaleMode::DorianFlat2 => seq![0, 1, 3, 5, 7, 9, 10],
            ScaleMode::LydianAug => seq![0, 2, 4, 6, 8, 9, 11],
            ScaleMode::LydianDominant => seq![0, 2, 4, 6, 7, 9, 10],
            ScaleMode::MixolydianFlat6 => seq![0, 2, 4, 5, 7, 8, 10],
            ScaleMode::LocrianNat2 => seq![0, 2, 3, 5, 6, 8, 10],
            ScaleMode::SuperLocrian => seq![0, 1, 3, 4, 6, 8, 10],
            ScaleMode::HarmonicMajor => seq![0, 2, 4, 5, 7, 8, 11],
            ScaleMode::DorianFlat5 => seq![0, 2, 3, 5, 6, 9, 10],
            ScaleMode::PhrygianFlat4 => seq![0, 1, 3, 4, 7, 9, 10],
            ScaleMode::LydianFlat3 => seq![0, 2, 3, 6, 7, 9, 11],
            ScaleMode::MixolydianFlat2 => seq![0, 1, 4, 5, 7, 9, 10],
            ScaleMode::LydianAugSharp2 => seq![0, 3, 4, 6, 8, 9, 11],
            ScaleMode::LocrianDoubleFlat7 => seq![0, 1, 3, 5, 6, 8, 9],
            ScaleMode::DoubleHarmonic => seq![0, 1, 4, 5, 7, 8, 11],
            ScaleMode::LydianSharp2Sharp6 => seq![0, 3, 4, 6, 7, 10, 11],
            ScaleMode::Ultraphrygian => seq![0, 1, 3, 4, 7, 8, 9],
            ScaleMode::HungarianMinor => seq![0, 2, 3, 6, 7, 8, 11],
            ScaleMode::Oriental => seq![0, 1, 4, 5, 6, 9, 10],
            ScaleMode::IonianSharp2Sharp5 => seq![0, 3, 4, 5, 8, 9, 11],
            ScaleMode::LocrianDoubleFlat3DoubleFlat7 => seq![0, 1, 2, 5, 6, 8, 9],
            ScaleMode::MajorPentatonic => seq![0, 2, 4, 7, 9],
            ScaleMode::MinorPentatonic => seq![0, 3, 5, 7, 10],
            ScaleMode::Hirajoshi => seq![0, 2, 3, 7, 8],
            ScaleMode::InSen => seq![0, 1, 5, 7, 8],
            ScaleMode::Iwato => seq![0, 1, 5, 6, 10],
            ScaleMode::Yo => seq![0, 2, 5, 7, 9],
            ScaleMode::Kumoi => seq![0, 2, 3, 7, 9],
            ScaleMode::Pelog => seq![0, 1, 3, 7, 8],
            ScaleMode::MinorBlues => seq![0, 3, 5, 6, 7, 10],
            ScaleMode::MajorBlues => seq![0, 2, 3, 4, 7, 9],
            ScaleMode::BebopDominant => seq![0, 2, 4, 5, 7, 9, 10, 11],
            ScaleMode::WholeTone => seq![0, 2, 4, 6, 8, 10],
            ScaleMode::DiminishedWholeHalf => seq![0, 2, 3, 5, 6, 8, 9, 11],
            ScaleMode::DiminishedHalfWhole => seq![0, 1, 3, 4, 6, 7, 9, 10],
            ScaleMode::AugmentedHex => seq![0, 3, 4, 7, 8, 11],
            ScaleMode::Enigmatic => seq![0, 1, 4, 6, 8, 10, 11],
            ScaleMode::NeapolitanMinor => seq![0, 1, 3, 5, 7, 8, 11],
            ScaleMode::NeapolitanMajor => seq![0, 1, 3, 5, 7, 9, 11],
            ScaleMode::Persian => seq![0, 1, 4, 5, 6, 8, 11],
            ScaleMode::HungarianMajor => seq![0, 3, 4, 6, 7, 9, 10],
            ScaleMode::BHMajor6thDim => seq![0, 2, 4, 5, 7, 8, 9, 11],
            ScaleMode::BHMinor6thDim => seq![0, 2, 3, 5, 7, 8, 9, 11],
        }
    }

    /// The family a mode belongs to.
    pub open spec fn spec_family(self) -> ScaleFamily {
        match self {
            ScaleMode::Ionian => ScaleFamily::Diatonic,
            ScaleMode::Dorian => ScaleFamily::Diatonic,
            ScaleMode::Phrygian => ScaleFamily::Diatonic,
            ScaleMode::Lydian => ScaleFamily::Diatonic,
            ScaleMode::Mixolydian => ScaleFamily::Diatonic,
            ScaleMode::Aeolian => ScaleFamily::Diatonic,
            ScaleMode::Locrian => ScaleFamily::Diatonic,
            ScaleMode::HarmonicMinor => ScaleFamily::HarmonicMinor,
            ScaleMode::LocrianNat6 => ScaleFamily::HarmonicMinor,
            ScaleMode::IonianAug => ScaleFamily::HarmonicMinor,
            ScaleMode::DorianSharp4 => ScaleFamily::HarmonicMinor,
            ScaleMode::PhrygianDominant => ScaleFamily::HarmonicMinor,
            ScaleMode::LydianSharp2 => ScaleFamily::HarmonicMinor,
            ScaleMode::SuperLocrianDim => ScaleFamily::HarmonicMinor,
            ScaleMode::MelodicMinor => ScaleFamily::MelodicMinor,
            ScaleMode::DorianFlat2 => ScaleFamily::MelodicMinor,
            ScaleMode::LydianAug => ScaleFamily::MelodicMinor,
            ScaleMode::LydianDominant => ScaleFamily::MelodicMinor,
            ScaleMode::MixolydianFlat6 => ScaleFamily::MelodicMinor,
            ScaleMode::LocrianNat2 => ScaleFamily::MelodicMinor,
            ScaleMode::SuperLocrian => ScaleFamily::MelodicMinor,
            ScaleMode::HarmonicMajor => ScaleFamily::HarmonicMajor,
            ScaleMode::DorianFlat5 => ScaleFamily::HarmonicMajor,
            ScaleMode::PhrygianFlat4 => ScaleFamily::HarmonicMajor,
            ScaleMode::LydianFlat3 => ScaleFamily::HarmonicMajor,
            ScaleMode::MixolydianFlat2 => ScaleFamily::HarmonicMajor,
            ScaleMode::LydianAugSharp2 => ScaleFamily::HarmonicMajor,
            ScaleMode::LocrianDoubleFlat7 => ScaleFamily::HarmonicMajor,
            ScaleMode::DoubleHarmonic => ScaleFamily::DoubleHarmonic,
            ScaleMode::LydianSharp2Sharp6 => ScaleFamily::DoubleHarmonic,
            ScaleMode::Ultraphrygian => ScaleFamily::DoubleHarmonic,
            ScaleMode::HungarianMinor => ScaleFamily::DoubleHarmonic,
            ScaleMode::Oriental => ScaleFamily::DoubleHarmonic,
            ScaleMode::IonianSharp2Sharp5 => ScaleFamily::DoubleHarmonic,
            ScaleMode::LocrianDoubleFlat3DoubleFlat7 => ScaleFamily::DoubleHarmonic,
            ScaleMode::MajorPentatonic => ScaleFamily::Pentatonic,
            ScaleMode::MinorPentatonic => ScaleFamily::Pentatonic,
            ScaleMode::Hirajoshi => ScaleFamily::Pentatonic,
            ScaleMode::InSen => ScaleFamily::Pentatonic,
            ScaleMode::Iwato => ScaleFamily::Pentatonic,
            ScaleMode::Yo => ScaleFamily::Pentatonic,
            ScaleMode::Kumoi => ScaleFamily::Pentatonic,
            ScaleMode::Pelog => ScaleFamily::Pentatonic,
            ScaleMode::MinorBlues => ScaleFamily::Blues,
            ScaleMode::MajorBlues => ScaleFamily::Blues,
            ScaleMode::BebopDominant => ScaleFamily::Blues,
            ScaleMode::WholeTone => ScaleFamily::Symmetric,
            ScaleMode::DiminishedWholeHalf => ScaleFamily::Symmetric,
            ScaleMode::DiminishedHalfWhole => ScaleFamily::Symmetric,
            ScaleMode::AugmentedHex => ScaleFamily::Symmetric,
            ScaleMode::Enigmatic => ScaleFamily::World,
            ScaleMode::NeapolitanMinor => ScaleFamily::World,
            ScaleMode::NeapolitanMajor => ScaleFamily::World,
            ScaleMode::Persian => ScaleFamily::World,
            ScaleMode::HungarianMajor => ScaleFamily::World,
            ScaleMode::BHMajor6thDim => ScaleFamily::BarryHarris,
            ScaleMode::BHMinor6thDim => ScaleFamily::BarryHarris,
        }
    }

    /// Every mode, in menu order (grouped by family).
    pub open spec fn spec_all() -> Seq<ScaleMode> {
        seq![
            ScaleMode::Ionian,
            ScaleMode::Dorian,
            ScaleMode::Phrygian,
            ScaleMode::Lydian,
            ScaleMode::Mixolydian,
            ScaleMode::Aeolian,
            ScaleMode::Locrian,
            ScaleMode::HarmonicMinor,
            ScaleMode::LocrianNat6,
            ScaleMode::IonianAug,
            ScaleMode::DorianSharp4,
            ScaleMode::PhrygianDominant,
            ScaleMode::LydianSharp2,
            ScaleMode::SuperLocrianDim,
            ScaleMode::MelodicMinor,
            ScaleMode::DorianFlat2,
            ScaleMode::LydianAug,
            ScaleMode::LydianDominant,
            ScaleMode::MixolydianFlat6,
            ScaleMode::LocrianNat2,
            ScaleMode::SuperLocrian,
            ScaleMode::HarmonicMajor,
            ScaleMode::DorianFlat5,
            ScaleMode::PhrygianFlat4,
            ScaleMode::LydianFlat3,
            ScaleMode::MixolydianFlat2,
            ScaleMode::LydianAugSharp2,
            ScaleMode::LocrianDoubleFlat7,
            ScaleMode::DoubleHarmonic,
            ScaleMode::LydianSharp2Sharp6,
            ScaleMode::Ultraphrygian,
            ScaleMode::HungarianMinor,
            ScaleMode::Oriental,
            ScaleMode::IonianSharp2Sharp5,
            ScaleMode::LocrianDoubleFlat3DoubleFlat7,
            ScaleMode::MajorPentatonic,
            ScaleMode::MinorPentatonic,
            ScaleMode::Hirajoshi,
            ScaleMode::InSen,
            ScaleMode::Iwato,
            ScaleMode::Yo,
            ScaleMode::Kumoi,
            ScaleMode::Pelog,
            ScaleMode::MinorBlues,
            ScaleMode::MajorBlues,
            ScaleMode::BebopDominant,
            ScaleMode::WholeTone,
            ScaleMode::DiminishedWholeHalf,
            ScaleMode::DiminishedHalfWhole,
            ScaleMode::AugmentedHex,
            ScaleMode::Enigmatic,
            ScaleMode::NeapolitanMinor,
            ScaleMode::NeapolitanMajor,
            ScaleMode::Persian,
            ScaleMode::HungarianMajor,
            ScaleMode::BHMajor6thDim,
            ScaleMode::BHMinor6thDim,
        ]
    }

    /// Display name of the mode.
    pub open spec fn spec_display_name(self) -> Seq<char> {
        match self {
            ScaleMode::Ionian => "Ionian (Major)"@,
            ScaleMode::Dorian => "Dorian"@,
            ScaleMode::Phrygian => "Phrygian"@,
            ScaleMode::Lydian => "Lydian"@,
            ScaleMode::Mixolydian => "Mixolydian"@,
            ScaleMode::Aeolian => "Aeolian (Minor)"@,
            ScaleMode::Locrian => "Locrian"@,
            ScaleMode::HarmonicMinor => "Harmonic Minor"@,
            ScaleMode::LocrianNat6 => "Locrian Nat 6"@,
            ScaleMode::IonianAug => "Ionian Augmented"@,
            ScaleMode::DorianSharp4 => "Dorian #4"@,
            ScaleMode::PhrygianDominant => "Phrygian Dominant"@,
            ScaleMode::LydianSharp2 => "Lydian #2"@,
            ScaleMode::SuperLocrianDim => "Super Locrian Dim"@,
            ScaleMode::MelodicMinor => "Melodic Minor"@,
            ScaleMode::DorianFlat2 => "Dorian b2"@,
            ScaleMode::LydianAug => "Lydian Augmented"@,
            ScaleMode::LydianDominant => "Lydian Dominant"@,
            ScaleMode::MixolydianFlat6 => "Mixolydian b6"@,
            ScaleMode::LocrianNat2 => "Locrian Nat 2"@,
            ScaleMode::SuperLocrian => "Super Locrian"@,
            ScaleMode::HarmonicMajor => "Harmonic Major"@,
            ScaleMode::DorianFlat5 => "Dorian b5"@,
            ScaleMode::PhrygianFlat4 => "Phrygian b4"@,
            ScaleMode::LydianFlat3 => "Lydian b3"@,
            ScaleMode::MixolydianFlat2 => "Mixolydian b2"@,
            ScaleMode::LydianAugSharp2 => "Lydian Aug #2"@,
            ScaleMode::LocrianDoubleFlat7 => "Locrian bb7"@,
            ScaleMode::DoubleHarmonic => "Double Harmonic"@,
            ScaleMode::LydianSharp2Sharp6 => "Lydian #2 #6"@,
            ScaleMode::Ultraphrygian => "Ultraphrygian"@,
            ScaleMode::HungarianMinor => "Hungarian Minor"@,
            ScaleMode::Oriental => "Oriental"@,
            ScaleMode::IonianSharp2Sharp5 => "Ionian #2 #5"@,
            ScaleMode::LocrianDoubleFlat3DoubleFlat7 => "Locrian bb3 bb7"@,
            ScaleMode::MajorPentatonic => "Major Pentatonic"@,
            ScaleMode::MinorPentatonic => "Minor Pentatonic"@,
            ScaleMode::Hirajoshi => "Hirajoshi"@,
            ScaleMode::InSen => "In Sen"@,
            ScaleMode::Iwato => "Iwato"@,
            ScaleMode::Yo => "Yo"@,
            ScaleMode::Kumoi => "Kumoi"@,
            ScaleMode::Pelog => "Pelog"@,
            ScaleMode::MinorBlues => "Minor Blues"@,
            ScaleMode::MajorBlues => "Major Blues"@,
            ScaleMode::BebopDominant => "Bebop Dominant"@,
            ScaleMode::WholeTone => "Whole Tone"@,
            ScaleMode::DiminishedWholeHalf => "Diminished (WH)"@,
            ScaleMode::DiminishedHalfWhole => "Diminished (HW)"@,
            ScaleMode::AugmentedHex => "Augmented"@,
            ScaleMode::Enigmatic => "Enigmatic"@,
            ScaleMode::NeapolitanMinor => "Neapolitan Minor"@,
            ScaleMode::NeapolitanMajor => "Neapolitan Major"@,
            ScaleMode::Persian => "Persian"@,
            ScaleMode::HungarianMajor => "Hungarian Major"@,
            ScaleMode::BHMajor6thDim => "BH Major 6th Dim"@,
            ScaleMode::BHMinor6thDim => "BH Minor 6th Dim"@,
        }
    }

    /// Returns semitone offsets from tonic for each scale degree.
    ///
    /// Every mode has 5 to 8 degrees, starts at 0, ascends strictly and
    /// stays within one octave.
    pub fn intervals(&self) -> (r: &'static [u8])
        ensures
            r@ == self.spec_intervals(),
            intervals_well_formed(r@),
    {
        let r: &'static [u8] = match self {
            ScaleMode::Ionian => &[0, 2, 4, 5, 7, 9, 11],
            ScaleMode::Dorian => &[0, 2, 3, 5, 7, 9, 10],
            ScaleMode::Phrygian => &[0, 1, 3, 5, 7, 8, 10],
            ScaleMode::Lydian => &[0, 2, 4, 6, 7, 9, 11],
            ScaleMode::Mixolydian => &[0, 2, 4, 5, 7, 9, 10],
            ScaleMode::Aeolian => &[0, 2, 3, 5, 7, 8, 10],
            ScaleMode::Locrian => &[0, 1, 3, 5, 6, 8, 10],
            ScaleMode::HarmonicMinor => &[0, 2, 3, 5, 7, 8, 11],
            ScaleMode::LocrianNat6 => &[0, 1, 3, 5, 6, 9, 10],
            ScaleMode::IonianAug => &[0, 2, 4, 5, 8, 9, 11],
            ScaleMode::DorianSharp4 => &[0, 2, 3, 6, 7, 9, 10],
            ScaleMode::PhrygianDominant => &[0, 1, 4, 5, 7, 8, 10],
            ScaleMode::LydianSharp2 => &[0, 3, 4, 6, 7, 9, 11],
            ScaleMode::SuperLocrianDim => &[0, 1, 3, 4, 6, 8, 9],
            ScaleMode::MelodicMinor => &[0, 2, 3, 5, 7, 9, 11],
            ScaleMode::DorianFlat2 => &[0, 1, 3, 5, 7, 9, 10],
            ScaleMode::LydianAug => &[0, 2, 4, 6, 8, 9, 11],
            ScaleMode::LydianDominant => &[0, 2, 4, 6, 7, 9, 10],
            ScaleMode::MixolydianFlat6 => &[0, 2, 4, 5, 7, 8, 10],
            ScaleMode::LocrianNat2 => &[0, 2, 3, 5, 6, 8, 10],
            ScaleMode::SuperLocrian => &[0, 1, 3, 4, 6, 8, 10],
            ScaleMode::HarmonicMajor => &[0, 2, 4, 5, 7, 8, 11],
            ScaleMode::DorianFlat5 => &[0, 2, 3, 5, 6, 9, 10],
            ScaleMode::PhrygianFlat4 => &[0, 1, 3, 4, 7, 9, 10],
            ScaleMode::LydianFlat3 => &[0, 2, 3, 6, 7, 9, 11],
            ScaleMode::MixolydianFlat2 => &[0, 1, 4, 5, 7, 9, 10],
            ScaleMode::LydianAugSharp2 => &[0, 3, 4, 6, 8, 9, 11],
            ScaleMode::LocrianDoubleFlat7 => &[0, 1, 3, 5, 6, 8, 9],
            ScaleMode::DoubleHarmonic => &[0, 1, 4, 5, 7, 8, 11],
            ScaleMode::LydianSharp2Sharp6 => &[0, 3, 4, 6, 7, 10, 11],
            ScaleMode::Ultraphrygian => &[0, 1, 3, 4, 7, 8, 9],
            ScaleMode::HungarianMinor => &[0, 2, 3, 6, 7, 8, 11],
            ScaleMode::Oriental => &[0, 1, 4, 5, 6, 9, 10],
            ScaleMode::IonianSharp2Sharp5 => &[0, 3, 4, 5, 8, 9, 11],
            ScaleMode::LocrianDoubleFlat3DoubleFlat7 => &[0, 1, 2, 5, 6, 8, 9],
            ScaleMode::MajorPentatonic => &[0, 2, 4, 7, 9],
            ScaleMode::MinorPentatonic => &[0, 3, 5, 7, 10],
            ScaleMode::Hirajoshi => &[0, 2, 3, 7, 8],
            ScaleMode::InSen => &[0, 1, 5, 7, 8],
            ScaleMode::Iwato => &[0, 1, 5, 6, 10],
            ScaleMode::Yo => &[0, 2, 5, 7, 9],
            ScaleMode::Kumoi => &[0, 2, 3, 7, 9],
            ScaleMode::Pelog => &[0, 1, 3, 7, 8],
            ScaleMode::MinorBlues => &[0, 3, 5, 6, 7, 10],
            ScaleMode::MajorBlues => &[0, 2, 3, 4, 7, 9],
            ScaleMode::BebopDominant => &[0, 2, 4, 5, 7, 9, 10, 11],
            ScaleMode::WholeTone => &[0, 2, 4, 6, 8, 10],
            ScaleMode::DiminishedWholeHalf => &[0, 2, 3, 5, 6, 8, 9, 11],
            ScaleMode::DiminishedHalfWhole => &[0, 1, 3, 4, 6, 7, 9, 10],
            ScaleMode::AugmentedHex => &[0, 3, 4, 7, 8, 11],
            ScaleMode::Enigmatic => &[0, 1, 4, 6, 8, 10, 11],
            ScaleMode::NeapolitanMinor => &[0, 1, 3, 5, 7, 8, 11],
            ScaleMode::NeapolitanMajor => &[0, 1, 3, 5, 7, 9, 11],
            ScaleMode::Persian => &[0, 1, 4, 5, 6, 8, 11],
            ScaleMode::HungarianMajor => &[0, 3, 4, 6, 7, 9, 10],
            ScaleMode::BHMajor6thDim => &[0, 2, 4, 5, 7, 8, 9, 11],
            ScaleMode::BHMinor6thDim => &[0, 2, 3, 5, 7, 8, 9, 11],
        };
        assert(r@ =~= self.spec_intervals());
        r
    }

    /// Returns the scale family for this mode.
    pub fn family(&self) -> (r: ScaleFamily)
        ensures
            r == self.spec_family(),
    {
        match self {
            ScaleMode::Ionian => ScaleFamily::Diatonic,
            ScaleMode::Dorian => ScaleFamily::Diatonic,
            ScaleMode::Phrygian => ScaleFamily::Diatonic,
            ScaleMode::Lydian => ScaleFamily::Diatonic,
            ScaleMode::Mixolydian => ScaleFamily::Diatonic,
            ScaleMode::Aeolian => ScaleFamily::Diatonic,
            ScaleMode::Locrian => ScaleFamily::Diatonic,
            ScaleMode::HarmonicMinor => ScaleFamily::HarmonicMinor,
            ScaleMode::LocrianNat6 => ScaleFamily::HarmonicMinor,
            ScaleMode::IonianAug => ScaleFamily::HarmonicMinor,
            ScaleMode::DorianSharp4 => ScaleFamily::HarmonicMinor,
            ScaleMode::PhrygianDominant => ScaleFamily::HarmonicMinor,
            ScaleMode::LydianSharp2 => ScaleFamily::HarmonicMinor,
            ScaleMode::SuperLocrianDim => ScaleFamily::HarmonicMinor,
            ScaleMode::MelodicMinor => ScaleFamily::MelodicMinor,
            ScaleMode::DorianFlat2 => ScaleFamily::MelodicMinor,
            ScaleMode::LydianAug => ScaleFamily::MelodicMinor,
            ScaleMode::LydianDominant => ScaleFamily::MelodicMinor,
            ScaleMode::MixolydianFlat6 => ScaleFamily::MelodicMinor,
            ScaleMode::LocrianNat2 => ScaleFamily::MelodicMinor,
            ScaleMode::SuperLocrian => ScaleFamily::MelodicMinor,
            ScaleMode::HarmonicMajor => ScaleFamily::HarmonicMajor,
            ScaleMode::DorianFlat5 => ScaleFamily::HarmonicMajor,
            ScaleMode::PhrygianFlat4 => ScaleFamily::HarmonicMajor,
            ScaleMode::LydianFlat3 => ScaleFamily::HarmonicMajor,
            ScaleMode::MixolydianFlat2 => ScaleFamily::HarmonicMajor,
            ScaleMode::LydianAugSharp2 => ScaleFamily::HarmonicMajor,
            ScaleMode::LocrianDoubleFlat7 => ScaleFamily::HarmonicMajor,
            ScaleMode::DoubleHarmonic => ScaleFamily::DoubleHarmonic,
            ScaleMode::LydianSharp2Sharp6 => ScaleFamily::DoubleHarmonic,
            ScaleMode::Ultraphrygian => ScaleFamily::DoubleHarmonic,
            ScaleMode::HungarianMinor => ScaleFamily::DoubleHarmonic,
            ScaleMode::Oriental => ScaleFamily::DoubleHarmonic,
            ScaleMode::IonianSharp2Sharp5 => ScaleFamily::DoubleHarmonic,
            ScaleMode::LocrianDoubleFlat3DoubleFlat7 => ScaleFamily::DoubleHarmonic,
            ScaleMode::MajorPentatonic => ScaleFamily::Pentatonic,
            ScaleMode::MinorPentatonic => ScaleFamily::Pentatonic,
            ScaleMode::Hirajoshi => ScaleFamily::Pentatonic,
            ScaleMode::InSen => ScaleFamily::Pentatonic,
            ScaleMode::Iwato => ScaleFamily::Pentatonic,
            ScaleMode::Yo => ScaleFamily::Pentatonic,
            ScaleMode::Kumoi => ScaleFamily::Pentatonic,
            ScaleMode::Pelog => ScaleFamily::Pentatonic,
            ScaleMode::MinorBlues => ScaleFamily::Blues,
            ScaleMode::MajorBlues => ScaleFamily::Blues,
            ScaleMode::BebopDominant => ScaleFamily::Blues,
            ScaleMode::WholeTone => ScaleFamily::Symmetric,
            ScaleMode::DiminishedWholeHalf => ScaleFamily::Symmetric,
            ScaleMode::DiminishedHalfWhole => ScaleFamily::Symmetric,
            ScaleMode::AugmentedHex => ScaleFamily::Symmetric,
            ScaleMode::Enigmatic => ScaleFamily::World,
            ScaleMode::NeapolitanMinor => ScaleFamily::World,
            ScaleMode::NeapolitanMajor => ScaleFamily::World,
            ScaleMode::Persian => ScaleFamily::World,
            ScaleMode::HungarianMajor => ScaleFamily::World,
            ScaleMode::BHMajor6thDim => ScaleFamily::BarryHarris,
            ScaleMode::BHMinor6thDim => ScaleFamily::BarryHarris,
        }
    }

    /// Returns all scale modes for menu display, grouped by family.
    pub fn all() -> (r: &'static [ScaleMode])
        ensures
            r@ == Self::spec_all(),
            r@.len() == 57,
            forall|m: ScaleMode| #[trigger] r@.contains(m),
            forall|i: int, j: int| 0 <= i < j < r@.len() ==> r@[i] != r@[j],
    {
        let r: &'static [ScaleMode] = &[
            ScaleMode::Ionian,
            ScaleMode::Dorian,
            ScaleMode::Phrygian,
            ScaleMode::Lydian,
            ScaleMode::Mixolydian,
            ScaleMode::Aeolian,
            ScaleMode::Locrian,
            ScaleMode::HarmonicMinor,
            ScaleMode::LocrianNat6,
            ScaleMode::IonianAug,
            ScaleMode::DorianSharp4,
            ScaleMode::PhrygianDominant,
            ScaleMode::LydianSharp2,
            ScaleMode::SuperLocrianDim,
            ScaleMode::MelodicMinor,
            ScaleMode::DorianFlat2,
            ScaleMode::LydianAug,
            ScaleMode::LydianDominant,
            ScaleMode::MixolydianFlat6,
            ScaleMode::LocrianNat2,
            ScaleMode::SuperLocrian,
            ScaleMode::HarmonicMajor,
            ScaleMode::DorianFlat5,
            ScaleMode::PhrygianFlat4,
            ScaleMode::LydianFlat3,
            ScaleMode::MixolydianFlat2,
            ScaleMode::LydianAugSharp2,
            ScaleMode::LocrianDoubleFlat7,
            ScaleMode::DoubleHarmonic,
            ScaleMode::LydianSharp2Sharp6,
            ScaleMode::Ultraphrygian,
            ScaleMode::HungarianMinor,
            ScaleMode::Oriental,
            ScaleMode::IonianSharp2Sharp5,
            ScaleMode::LocrianDoubleFlat3DoubleFlat7,
            ScaleMode::MajorPentatonic,
            ScaleMode::MinorPentatonic,
            ScaleMode::Hirajoshi,
            ScaleMode::InSen,
            ScaleMode::Iwato,
            ScaleMode::Yo,
            ScaleMode::Kumoi,
            ScaleMode::Pelog,
            ScaleMode::MinorBlues,
            ScaleMode::MajorBlues,
            ScaleMode::BebopDominant,
            ScaleMode::WholeTone,
            ScaleMode::DiminishedWholeHalf,
            ScaleMode::DiminishedHalfWhole,
            ScaleMode::AugmentedHex,
            ScaleMode::Enigmatic,
            ScaleMode::NeapolitanMinor,
            ScaleMode::NeapolitanMajor,
            ScaleMode::Persian,
            ScaleMode::HungarianMajor,
            ScaleMode::BHMajor6thDim,
            ScaleMode::BHMinor6thDim,
        ];
        assert(r@ =~= Self::spec_all());
        proof {
            lemma_all_modes_complete();
        }
        r
    }

    /// Display name used in menus.
    pub fn display_name(&self) -> (r: &'static str)
        ensures
            r@ == self.spec_display_name(),
    {
        match self {
            ScaleMode::Ionian => "Ionian (Major)",
            ScaleMode::Dorian => "Dorian",
            ScaleMode::Phrygian => "Phrygian",
            ScaleMode::Lydian => "Lydian",
            ScaleMode::Mixolydian => "Mixolydian",
            ScaleMode::Aeolian => "Aeolian (Minor)",
            ScaleMode::Locrian => "Locrian",
            ScaleMode::HarmonicMinor => "Harmonic Minor",
            ScaleMode::LocrianNat6 => "Locrian Nat 6",
            ScaleMode::IonianAug => "Ionian Augmented",
            ScaleMode::DorianSharp4 => "Dorian #4",
            ScaleMode::PhrygianDominant => "Phrygian Dominant",
            ScaleMode::LydianSharp2 => "Lydian #2",
            ScaleMode::SuperLocrianDim => "Super Locrian Dim",
            ScaleMode::MelodicMinor => "Melodic Minor",
            ScaleMode::DorianFlat2 => "Dorian b2",
            ScaleMode::LydianAug => "Lydian Augmented",
            ScaleMode::LydianDominant => "Lydian Dominant",
            ScaleMode::MixolydianFlat6 => "Mixolydian b6",
            ScaleMode::LocrianNat2 => "Locrian Nat 2",
            ScaleMode::SuperLocrian => "Super Locrian",
            ScaleMode::HarmonicMajor => "Harmonic Major",
            ScaleMode::DorianFlat5 => "Dorian b5",
            ScaleMode::PhrygianFlat4 => "Phrygian b4",
            ScaleMode::LydianFlat3 => "Lydian b3",
            ScaleMode::MixolydianFlat2 => "Mixolydian b2",
            ScaleMode::LydianAugSharp2 => "Lydian Aug #2",
            ScaleMode::LocrianDoubleFlat7 => "Locrian bb7",
            ScaleMode::DoubleHarmonic => "Double Harmonic",
            ScaleMode::LydianSharp2Sharp6 => "Lydian #2 #6",
            ScaleMode::Ultraphrygian => "Ultraphrygian",
            ScaleMode::HungarianMinor => "Hungarian Minor",
            ScaleMode::Oriental => "Oriental",
            ScaleMode::IonianSharp2Sharp5 => "Ionian #2 #5",
            ScaleMode::LocrianDoubleFlat3DoubleFlat7 => "Locrian bb3 bb7",
            ScaleMode::MajorPentatonic => "Major Pentatonic",
            ScaleMode::MinorPentatonic => "Minor Pentatonic",
            ScaleMode::Hirajoshi => "Hirajoshi",
            ScaleMode::InSen => "In Sen",
            ScaleMode::Iwato => "Iwato",
            ScaleMode::Yo => "Yo",
            ScaleMode::Kumoi => "Kumoi",
            ScaleMode::Pelog => "Pelog",
            ScaleMode::MinorBlues => "Minor Blues",
            ScaleMode::MajorBlues => "Major Blues",
            ScaleMode::BebopDominant => "Bebop Dominant",
            ScaleMode::WholeTone => "Whole Tone",
            ScaleMode::DiminishedWholeHalf => "Diminished (WH)",
            ScaleMode::DiminishedHalfWhole => "Diminished (HW)",
            ScaleMode::AugmentedHex => "Augmented",
            ScaleMode::Enigmatic => "Enigmatic",
            ScaleMode::NeapolitanMinor => "Neapolitan Minor",
            ScaleMode::NeapolitanMajor => "Neapolitan Major",
            ScaleMode::Persian => "Persian",
            ScaleMode::HungarianMajor => "Hungarian Major",
            ScaleMode::BHMajor6thDim => "BH Major 6th Dim",
            ScaleMode::BHMinor6thDim => "BH Minor 6th Dim",
        }
    }
}

/// Every mode occurs in the menu list exactly once.
pub proof fn lemma_all_modes_complete()
    ensures
        forall|m: ScaleMode| #[trigger] ScaleMode::spec_all().contains(m),
        forall|i: int, j: int|
            0 <= i < j < ScaleMode::spec_all().len() ==> ScaleMode::spec_all()[i] != ScaleMode::spec_all()[j],
{
    let s = ScaleMode::spec_all();
    assert forall|m: ScaleMode| #[trigger] s.contains(m) by {
        match m {
            ScaleMode::Ionian => { assert(s[0] == m); }
            ScaleMode::Dorian => { assert(s[1] == m); }
            ScaleMode::Phrygian => { assert(s[2] == m); }
            ScaleMode::Lydian => { assert(s[3] == m); }
            ScaleMode::Mixolydian => { assert(s[4] == m); }
            ScaleMode::Aeolian => { assert(s[5] == m); }
            ScaleMode::Locrian => { assert(s[6] == m); }
            ScaleMode::HarmonicMinor => { assert(s[7] == m); }
            ScaleMode::LocrianNat6 => { assert(s[8] == m); }
            ScaleMode::IonianAug => { assert(s[9] == m); }
            ScaleMode::DorianSharp4 => { assert(s[10] == m); }
            ScaleMode::PhrygianDominant => { assert(s[11] == m); }
            ScaleMode::LydianSharp2 => { assert(s[12] == m); }
            ScaleMode::SuperLocrianDim => { assert(s[13] == m); }
            ScaleMode::MelodicMinor => { assert(s[14] == m); }
            ScaleMode::DorianFlat2 => { assert(s[15] == m); }
            ScaleMode::LydianAug => { assert(s[16] == m); }
            ScaleMode::LydianDominant => { assert(s[17] == m); }
            ScaleMode::MixolydianFlat6 => { assert(s[18] == m); }
            ScaleMode::LocrianNat2 => { assert(s[19] == m); }
            ScaleMode::SuperLocrian => { assert(s[20] == m); }
            ScaleMode::HarmonicMajor => { assert(s[21] == m); }
            ScaleMode::DorianFlat5 => { assert(s[22] == m); }
            ScaleMode::PhrygianFlat4 => { assert(s[23] == m); }
            ScaleMode::LydianFlat3 => { assert(s[24] == m); }
            ScaleMode::MixolydianFlat2 => { assert(s[25] == m); }
            ScaleMode::LydianAugSharp2 => { assert(s[26] == m); }
            ScaleMode::LocrianDoubleFlat7 => { assert(s[27] == m); }
            ScaleMode::DoubleHarmonic => { assert(s[28] == m); }
            ScaleMode::LydianSharp2Sharp6 => { assert(s[29] == m); }
            ScaleMode::Ultraphrygian => { assert(s[30] == m); }
            ScaleMode::HungarianMinor => { assert(s[31] == m); }
            ScaleMode::Oriental => { assert(s[32] == m); }
            ScaleMode::IonianSharp2Sharp5 => { assert(s[33] == m); }
            ScaleMode::LocrianDoubleFlat3DoubleFlat7 => { assert(s[34] == m); }
            ScaleMode::MajorPentatonic => { assert(s[35] == m); }
            ScaleMode::MinorPentatonic => { assert(s[36] == m); }
            ScaleMode::Hirajoshi => { assert(s[37] == m); }
            ScaleMode::InSen => { assert(s[38] == m); }
            ScaleMode::Iwato => { assert(s[39] == m); }
            ScaleMode::Yo => { assert(s[40] == m); }
            ScaleMode::Kumoi => { assert(s[41] == m); }
            ScaleMode::Pelog => { assert(s[42] == m); }
            ScaleMode::MinorBlues => { assert(s[43] == m); }
            ScaleMode::MajorBlues => { assert(s[44] == m); }
            ScaleMode::BebopDominant => { assert(s[45] == m); }
            ScaleMode::WholeTone => { assert(s[46] == m); }
            ScaleMode::DiminishedWholeHalf => { assert(s[47] == m); }
            ScaleMode::DiminishedHalfWhole => { assert(s[48] == m); }
            ScaleMode::AugmentedHex => { assert(s[49] == m); }
            ScaleMode::Enigmatic => { assert(s[50] == m); }
            ScaleMode::NeapolitanMinor => { assert(s[51] == m); }
            ScaleMode::NeapolitanMajor => { assert(s[52] == m); }
            ScaleMode::Persian => { assert(s[53] == m); }
            ScaleMode::HungarianMajor => { assert(s[54] == m); }
            ScaleMode::BHMajor6thDim => { assert(s[55] == m); }
            ScaleMode::BHMinor6thDim => { assert(s[56] == m); }
        }
    }
}


/// The position of a family in the menu order.
pub open spec fn family_position(f: ScaleFamily) -> int {
    match f {
        ScaleFamily::Diatonic => 0,
        ScaleFamily::HarmonicMinor => 1,
        ScaleFamily::MelodicMinor => 2,
        ScaleFamily::HarmonicMajor => 3,
        ScaleFamily::DoubleHarmonic => 4,
        ScaleFamily::Pentatonic => 5,
        ScaleFamily::Blues => 6,
        ScaleFamily::Symmetric => 7,
        ScaleFamily::World => 8,
        ScaleFamily::BarryHarris => 9,
    }
}

/// 2 to the power `x`, for a pitch class `x`.
pub open spec fn pc_bit(x: u8) -> int {
    if x == 0 { 1 } else if x == 1 { 2 } else if x == 2 { 4 } else if x == 3 { 8 } else if x == 4 { 16 }
    else if x == 5 { 32 } else if x == 6 { 64 } else if x == 7 { 128 } else if x == 8 { 256 }
    else if x == 9 { 512 } else if x == 10 { 1024 } else { 2048 }
}

/// The pitch-class set of a pattern of five to eight offsets, as a bit mask.
pub open spec fn pc_mask(iv: Seq<u8>) -> int {
    let a = pc_bit(iv[0]) + pc_bit(iv[1]) + pc_bit(iv[2]) + pc_bit(iv[3]) + pc_bit(iv[4]);
    let b = if iv.len() > 5 { pc_bit(iv[5]) } else { 0 };
    let c = if iv.len() > 6 { pc_bit(iv[6]) } else { 0 };
    let d = if iv.len() > 7 { pc_bit(iv[7]) } else { 0 };
    a + b + c + d
}

/// The mode whose pitch-class mask is `k` (Ionian for masks of no mode).
pub open spec fn mode_of_mask(k: int) -> ScaleMode {
    if k == 2741 {
        ScaleMode::Ionian
    } else if k == 1709 {
        ScaleMode::Dorian
    } else if k == 1451 {
        ScaleMode::Phrygian
    } else if k == 2773 {
        ScaleMode::Lydian
    } else if k == 1717 {
        ScaleMode::Mixolydian
    } else if k == 1453 {
        ScaleMode::Aeolian
    } else if k == 1387 {
        ScaleMode::Locrian
    } else if k == 2477 {
        ScaleMode::HarmonicMinor
    } else if k == 1643 {
        ScaleMode::LocrianNat6
    } else if k == 2869 {
        ScaleMode::IonianAug
    } else if k == 1741 {
        ScaleMode::DorianSharp4
    } else if k == 1459 {
        ScaleMode::PhrygianDominant
    } else if k == 2777 {
        ScaleMode::LydianSharp2
    } else if k == 859 {
        ScaleMode::SuperLocrianDim
    } else if k == 2733 {
        ScaleMode::MelodicMinor
    } else if k == 1707 {
        ScaleMode::DorianFlat2
    } else if k == 2901 {
        ScaleMode::LydianAug
    } else if k == 1749 {
        ScaleMode::LydianDominant
    } else if k == 1461 {
        ScaleMode::MixolydianFlat6
    } else if k == 1389 {
        ScaleMode::LocrianNat2
    } else if k == 1371 {
        ScaleMode::SuperLocrian
    } else if k == 2485 {
        ScaleMode::HarmonicMajor
    } else if k == 1645 {
        ScaleMode::DorianFlat5
    } else if k == 1691 {
        ScaleMode::PhrygianFlat4
    } else if k == 2765 {
        ScaleMode::LydianFlat3
    } else if k == 1715 {
        ScaleMode::MixolydianFlat2
    } else if k == 2905 {
        ScaleMode::LydianAugSharp2
    } else if k == 875 {
        ScaleMode::LocrianDoubleFlat7
    } else if k == 2483 {
        ScaleMode::DoubleHarmonic
    } else if k == 3289 {
        ScaleMode::LydianSharp2Sharp6
    } else if k == 923 {
        ScaleMode::Ultraphrygian
    } else if k == 2509 {
        ScaleMode::HungarianMinor
    } else if k == 1651 {
        ScaleMode::Oriental
    } else if k == 2873 {
        ScaleMode::IonianSharp2Sharp5
    } else if k == 871 {
        ScaleMode::LocrianDoubleFlat3DoubleFlat7
    } else if k == 661 {
        ScaleMode::MajorPentatonic
    } else if k == 1193 {
        ScaleMode::MinorPentatonic
    } else if k == 397 {
        ScaleMode::Hirajoshi
    } else if k == 419 {
        ScaleMode::InSen
    } else if k == 1123 {
        ScaleMode::Iwato
    } else if k == 677 {
        ScaleMode::Yo
    } else if k == 653 {
        ScaleMode::Kumoi
    } else if k == 395 {
        ScaleMode::Pelog
    } else if k == 1257 {
        ScaleMode::MinorBlues
    } else if k == 669 {
        ScaleMode::MajorBlues
    } else if k == 3765 {
        ScaleMode::BebopDominant
    } else if k == 1365 {
        ScaleMode::WholeTone
    } else if k == 2925 {
        ScaleMode::DiminishedWholeHalf
    } else if k == 1755 {
        ScaleMode::DiminishedHalfWhole
    } else if k == 2457 {
        ScaleMode::AugmentedHex
    } else if k == 3411 {
        ScaleMode::Enigmatic
    } else if k == 2475 {
        ScaleMode::NeapolitanMinor
    } else if k == 2731 {
        ScaleMode::NeapolitanMajor
    } else if k == 2419 {
        ScaleMode::Persian
    } else if k == 1753 {
        ScaleMode::HungarianMajor
    } else if k == 2997 {
        ScaleMode::BHMajor6thDim
    } else if k == 2989 {
        ScaleMode::BHMinor6thDim
    } else {
        ScaleMode::Ionian
    }
}

/// A mode is recovered from its pitch-class mask.
#[verifier::spinoff_prover]
#[verifier::rlimit(100)]
proof fn lemma_mode_of_mask(m: ScaleMode)
    ensures
        mode_of_mask(pc_mask(m.spec_intervals())) == m,
{
    match m {
        ScaleMode::Ionian => {
            assert(pc_mask(m.spec_intervals()) == 2741);
        },
        ScaleMode::Dorian => {
            assert(pc_mask(m.spec_intervals()) == 1709);
        },
        ScaleMode::Phrygian => {
            assert(pc_mask(m.spec_intervals()) == 1451);
        },
        ScaleMode::Lydian => {
            assert(pc_mask(m.spec_intervals()) == 2773);
        },
        ScaleMode::Mixolydian => {
            assert(pc_mask(m.spec_intervals()) == 1717);
        },
        ScaleMode::Aeolian => {
            assert(pc_mask(m.spec_intervals()) == 1453);
        },
        ScaleMode::Locrian => {
            assert(pc_mask(m.spec_intervals()) == 1387);
        },
        ScaleMode::HarmonicMinor => {
            assert(pc_mask(m.spec_intervals()) == 2477);
        },
        ScaleMode::LocrianNat6 => {
            assert(pc_mask(m.spec_intervals()) == 1643);
        },
        ScaleMode::IonianAug => {
            assert(pc_mask(m.spec_intervals()) == 2869);
        },
        ScaleMode::DorianSharp4 => {
            assert(pc_mask(m.spec_intervals()) == 1741);
        },
        ScaleMode::PhrygianDominant => {
            assert(pc_mask(m.spec_intervals()) == 1459);
        },
        ScaleMode::LydianSharp2 => {
            assert(pc_mask(m.spec_intervals()) == 2777);
        },
        ScaleMode::SuperLocrianDim => {
            assert(pc_mask(m.spec_intervals()) == 859);
        },
        ScaleMode::MelodicMinor => {
            assert(pc_mask(m.spec_intervals()) == 2733);
        },
        ScaleMode::DorianFlat2 => {
            assert(pc_mask(m.spec_intervals()) == 1707);
        },
        ScaleMode::LydianAug => {
            assert(pc_mask(m.spec_intervals()) == 2901);
        },
        ScaleMode::LydianDominant => {
            assert(pc_mask(m.spec_intervals()) == 1749);
        },
        ScaleMode::MixolydianFlat6 => {
            assert(pc_mask(m.spec_intervals()) == 1461);
        },
        ScaleMode::LocrianNat2 => {
            assert(pc_mask(m.spec_intervals()) == 1389);
        },
        ScaleMode::SuperLocrian => {
            assert(pc_mask(m.spec_intervals()) == 1371);
        },
        ScaleMode::HarmonicMajor => {
            assert(pc_mask(m.spec_intervals()) == 2485);
        },
        ScaleMode::DorianFlat5 => {
            assert(pc_mask(m.spec_intervals()) == 1645);
        },
        ScaleMode::PhrygianFlat4 => {
            assert(pc_mask(m.spec_intervals()) == 1691);
        },
        ScaleMode::LydianFlat3 => {
            assert(pc_mask(m.spec_intervals()) == 2765);
        },
        ScaleMode::MixolydianFlat2 => {
            assert(pc_mask(m.spec_intervals()) == 1715);
        },
        ScaleMode::LydianAugSharp2 => {
            assert(pc_mask(m.spec_intervals()) == 2905);
        },
        ScaleMode::LocrianDoubleFlat7 => {
            assert(pc_mask(m.spec_intervals()) == 875);
        },
        ScaleMode::DoubleHarmonic => {
            assert(pc_mask(m.spec_intervals()) == 2483);
        },
        ScaleMode::LydianSharp2Sharp6 => {
            assert(pc_mask(m.spec_intervals()) == 3289);
        },
        ScaleMode::Ultraphrygian => {
            assert(pc_mask(m.spec_intervals()) == 923);
        },
        ScaleMode::HungarianMinor => {
            assert(pc_mask(m.spec_intervals()) == 2509);
        },
        ScaleMode::Oriental => {
            assert(pc_mask(m.spec_intervals()) == 1651);
        },
        ScaleMode::IonianSharp2Sharp5 => {
            assert(pc_mask(m.spec_intervals()) == 2873);
        },
        ScaleMode::LocrianDoubleFlat3DoubleFlat7 => {
            assert(pc_mask(m.spec_intervals()) == 871);
        },
        ScaleMode::MajorPentatonic => {
            assert(pc_mask(m.spec_intervals()) == 661);
        },
        ScaleMode::MinorPentatonic => {
            assert(pc_mask(m.spec_intervals()) == 1193);
        },
        ScaleMode::Hirajoshi => {
            assert(pc_mask(m.spec_intervals()) == 397);
        },
        ScaleMode::InSen => {
            assert(pc_mask(m.spec_intervals()) == 419);
        },
        ScaleMode::Iwato => {
            assert(pc_mask(m.spec_intervals()) == 1123);
        },
        ScaleMode::Yo => {
            assert(pc_mask(m.spec_intervals()) == 677);
        },
        ScaleMode::Kumoi => {
            assert(pc_mask(m.spec_intervals()) == 653);
        },
        ScaleMode::Pelog => {
            assert(pc_mask(m.spec_intervals()) == 395);
        },
        ScaleMode::MinorBlues => {
            assert(pc_mask(m.spec_intervals()) == 1257);
        },
        ScaleMode::MajorBlues => {
            assert(pc_mask(m.spec_intervals()) == 669);
        },
        ScaleMode::BebopDominant => {
            assert(pc_mask(m.spec_intervals()) == 3765);
        },
        ScaleMode::WholeTone => {
            assert(pc_mask(m.spec_intervals()) == 1365);
        },
        ScaleMode::DiminishedWholeHalf => {
            assert(pc_mask(m.spec_intervals()) == 2925);
        },
        ScaleMode::DiminishedHalfWhole => {
            assert(pc_mask(m.spec_intervals()) == 1755);
        },
        ScaleMode::AugmentedHex => {
            assert(pc_mask(m.spec_intervals()) == 2457);
        },
        ScaleMode::Enigmatic => {
            assert(pc_mask(m.spec_intervals()) == 3411);
        },
        ScaleMode::NeapolitanMinor => {
            assert(pc_mask(m.spec_intervals()) == 2475);
        },
        ScaleMode::NeapolitanMajor => {
            assert(pc_mask(m.spec_intervals()) == 2731);
        },
        ScaleMode::Persian => {
            assert(pc_mask(m.spec_intervals()) == 2419);
        },
        ScaleMode::HungarianMajor => {
            assert(pc_mask(m.spec_intervals()) == 1753);
        },
        ScaleMode::BHMajor6thDim => {
            assert(pc_mask(m.spec_intervals()) == 2997);
        },
        ScaleMode::BHMinor6thDim => {
            assert(pc_mask(m.spec_intervals()) == 2989);
        },
    }
}

/// Distinct scale modes have distinct interval patterns.
pub proof fn lemma_intervals_distinct(m1: ScaleMode, m2: ScaleMode)
    requires
        m1 != m2,
    ensures
        m1.spec_intervals() != m2.spec_intervals(),
{
    lemma_mode_of_mask(m1);
    lemma_mode_of_mask(m2);
}

/// The number of modes in a family.
pub open spec fn family_size(f: ScaleFamily) -> int {
    match f {
        ScaleFamily::Diatonic => 7,
        ScaleFamily::HarmonicMinor => 7,
        ScaleFamily::MelodicMinor => 7,
        ScaleFamily::HarmonicMajor => 7,
        ScaleFamily::DoubleHarmonic => 7,
        ScaleFamily::Pentatonic => 8,
        ScaleFamily::Blues => 3,
        ScaleFamily::Symmetric => 4,
        ScaleFamily::World => 5,
        ScaleFamily::BarryHarris => 2,
    }
}

/// Where a family's modes begin in the menu list.
pub open spec fn family_start(f: ScaleFamily) -> int {
    match f {
        ScaleFamily::Diatonic => 0,
        ScaleFamily::HarmonicMinor => 7,
        ScaleFamily::MelodicMinor => 14,
        ScaleFamily::HarmonicMajor => 21,
        ScaleFamily::DoubleHarmonic => 28,
        ScaleFamily::Pentatonic => 35,
        ScaleFamily::Blues => 43,
        ScaleFamily::Symmetric => 46,
        ScaleFamily::World => 50,
        ScaleFamily::BarryHarris => 55,
    }
}


/// The position of a mode in the menu list.
pub open spec fn mode_index(m: ScaleMode) -> int {
    match m {
            ScaleMode::Ionian => 0,
            ScaleMode::Dorian => 1,
            ScaleMode::Phrygian => 2,
            ScaleMode::Lydian => 3,
            ScaleMode::Mixolydian => 4,
            ScaleMode::Aeolian => 5,
            ScaleMode::Locrian => 6,
            ScaleMode::HarmonicMinor => 7,
            ScaleMode::LocrianNat6 => 8,
            ScaleMode::IonianAug => 9,
            ScaleMode::DorianSharp4 => 10,
            ScaleMode::PhrygianDominant => 11,
            ScaleMode::LydianSharp2 => 12,
            ScaleMode::SuperLocrianDim => 13,
            ScaleMode::MelodicMinor => 14,
            ScaleMode::DorianFlat2 => 15,
            ScaleMode::LydianAug => 16,
            ScaleMode::LydianDominant => 17,
            ScaleMode::MixolydianFlat6 => 18,
            ScaleMode::LocrianNat2 => 19,
            ScaleMode::SuperLocrian => 20,
            ScaleMode::HarmonicMajor => 21,
            ScaleMode::DorianFlat5 => 22,
            ScaleMode::PhrygianFlat4 => 23,
            ScaleMode::LydianFlat3 => 24,
            ScaleMode::MixolydianFlat2 => 25,
            ScaleMode::LydianAugSharp2 => 26,
            ScaleMode::LocrianDoubleFlat7 => 27,
            ScaleMode::DoubleHarmonic => 28,
            ScaleMode::LydianSharp2Sharp6 => 29,
            ScaleMode::Ultraphrygian => 30,
            ScaleMode::HungarianMinor => 31,
            ScaleMode::Oriental => 32,
            ScaleMode::IonianSharp2Sharp5 => 33,
            ScaleMode::LocrianDoubleFlat3DoubleFlat7 => 34,
            ScaleMode::MajorPentatonic => 35,
            ScaleMode::MinorPentatonic => 36,
            ScaleMode::Hirajoshi => 37,
            ScaleMode::InSen => 38,
            ScaleMode::Iwato => 39,
            ScaleMode::Yo => 40,
            ScaleMode::Kumoi => 41,
            ScaleMode::Pelog => 42,
            ScaleMode::MinorBlues => 43,
            ScaleMode::MajorBlues => 44,
            ScaleMode::BebopDominant => 45,
            ScaleMode::WholeTone => 46,
            ScaleMode::DiminishedWholeHalf => 47,
            ScaleMode::DiminishedHalfWhole => 48,
            ScaleMode::AugmentedHex => 49,
            ScaleMode::Enigmatic => 50,
            ScaleMode::NeapolitanMinor => 51,
            ScaleMode::NeapolitanMajor => 52,
            ScaleMode::Persian => 53,
            ScaleMode::HungarianMajor => 54,
            ScaleMode::BHMajor6thDim => 55,
            ScaleMode::BHMinor6thDim => 56,
    }
}

/// A mode sits at its index, inside its family's block.
proof fn lemma_mode_index(m: ScaleMode)
    ensures
        0 <= mode_index(m) < 57,
        ScaleMode::spec_all()[mode_index(m)] == m,
        family_start(m.spec_family()) <= mode_index(m) < family_start(m.spec_family()) + family_size(
            m.spec_family(),
        ),
{
    match m {
        ScaleMode::Ionian => {},
        ScaleMode::Dorian => {},
        ScaleMode::Phrygian => {},
        ScaleMode::Lydian => {},
        ScaleMode::Mixolydian => {},
        ScaleMode::Aeolian => {},
        ScaleMode::Locrian => {},
        ScaleMode::HarmonicMinor => {},
        ScaleMode::LocrianNat6 => {},
        ScaleMode::IonianAug => {},
        ScaleMode::DorianSharp4 => {},
        ScaleMode::PhrygianDominant => {},
        ScaleMode::LydianSharp2 => {},
        ScaleMode::SuperLocrianDim => {},
        ScaleMode::MelodicMinor => {},
        ScaleMode::DorianFlat2 => {},
        ScaleMode::LydianAug => {},
        ScaleMode::LydianDominant => {},
        ScaleMode::MixolydianFlat6 => {},
        ScaleMode::LocrianNat2 => {},
        ScaleMode::SuperLocrian => {},
        ScaleMode::HarmonicMajor => {},
        ScaleMode::DorianFlat5 => {},
        ScaleMode::PhrygianFlat4 => {},
        ScaleMode::LydianFlat3 => {},
        ScaleMode::MixolydianFlat2 => {},
        ScaleMode::LydianAugSharp2 => {},
        ScaleMode::LocrianDoubleFlat7 => {},
        ScaleMode::DoubleHarmonic => {},
        ScaleMode::LydianSharp2Sharp6 => {},
        ScaleMode::Ultraphrygian => {},
        ScaleMode::HungarianMinor => {},
        ScaleMode::Oriental => {},
        ScaleMode::IonianSharp2Sharp5 => {},
        ScaleMode::LocrianDoubleFlat3DoubleFlat7 => {},
        ScaleMode::MajorPentatonic => {},
        ScaleMode::MinorPentatonic => {},
        ScaleMode::Hirajoshi => {},
        ScaleMode::InSen => {},
        ScaleMode::Iwato => {},
        ScaleMode::Yo => {},
        ScaleMode::Kumoi => {},
        ScaleMode::Pelog => {},
        ScaleMode::MinorBlues => {},
        ScaleMode::MajorBlues => {},
        ScaleMode::BebopDominant => {},
        ScaleMode::WholeTone => {},
        ScaleMode::DiminishedWholeHalf => {},
        ScaleMode::DiminishedHalfWhole => {},
        ScaleMode::AugmentedHex => {},
        ScaleMode::Enigmatic => {},
        ScaleMode::NeapolitanMinor => {},
        ScaleMode::NeapolitanMajor => {},
        ScaleMode::Persian => {},
        ScaleMode::HungarianMajor => {},
        ScaleMode::BHMajor6thDim => {},
        ScaleMode::BHMinor6thDim => {},
    }
}

/// Each position of the menu list lies in the block of its mode's family.
proof fn lemma_position_in_block(i: int)
    requires
        0 <= i < 57,
    ensures
        mode_index(ScaleMode::spec_all()[i]) == i,
        family_start(ScaleMode::spec_all()[i].spec_family()) <= i < family_start(
            ScaleMode::spec_all()[i].spec_family(),
        ) + family_size(ScaleMode::spec_all()[i].spec_family()),
{
    let s = ScaleMode::spec_all();
    lemma_all_modes_complete();
    lemma_mode_index(s[i]);
    let k = mode_index(s[i]);
    if k != i {
        if k < i {
            assert(s[k] != s[i]);
        } else {
            assert(s[i] != s[k]);
        }
    }
}

/// The menu list of modes is grouped by family, families in menu order.
pub proof fn lemma_all_grouped_by_family(i: int, j: int)
    requires
        0 <= i < j < ScaleMode::spec_all().len(),
    ensures
        family_position(ScaleMode::spec_all()[i].spec_family()) <= family_position(
            ScaleMode::spec_all()[j].spec_family(),
        ),
        ScaleFamily::spec_all()[family_position(ScaleMode::spec_all()[i].spec_family())]
            == ScaleMode::spec_all()[i].spec_family(),
{
    lemma_position_in_block(i);
    lemma_position_in_block(j);
}

/// The block of family `f` cut at `n`: `(start, end)` within `0..n`.
pub open spec fn block_below(f: ScaleFamily, n: int) -> (int, int) {
    let lo = if family_start(f) < n { family_start(f) } else { n };
    let hi = if family_start(f) + family_size(f) < n { family_start(f) + family_size(f) } else { n };
    (lo, hi)
}

/// The first `n` modes of the menu list, filtered to family `f`, are the
/// part of `f`'s block below `n`.
proof fn lemma_filter_prefix(f: ScaleFamily, n: int)
    requires
        0 <= n <= 57,
    ensures
        ScaleMode::spec_all().take(n).filter(|m: ScaleMode| m.spec_family() == f) =~= ScaleMode::spec_all().subrange(
            block_below(f, n).0,
            block_below(f, n).1,
        ),
    decreases n,
{
    let s = ScaleMode::spec_all();
    let pred = |m: ScaleMode| m.spec_family() == f;
    if n == 0 {
        reveal(Seq::filter);
    } else {
        lemma_filter_prefix(f, n - 1);
        lemma_position_in_block(n - 1);
        let t = s.take(n);
        assert(t.drop_last() =~= s.take(n - 1));
        assert(t.last() == s[n - 1]);
        reveal(Seq::filter);
        assert(t.filter(pred) == if pred(t.last()) {
            t.drop_last().filter(pred).push(t.last())
        } else {
            t.drop_last().filter(pred)
        });
    }
}

/// Each family's modes are its block of the menu list: none is empty, and
/// the ten blocks together cover the 57 modes.
pub proof fn lemma_family_blocks(f: ScaleFamily)
    ensures
        ScaleMode::spec_in_family(f) == ScaleMode::spec_all().subrange(
            family_start(f),
            family_start(f) + family_size(f),
        ),
        ScaleMode::spec_in_family(f).len() == family_size(f) > 0,
        family_size(ScaleFamily::Diatonic) + family_size(ScaleFamily::HarmonicMinor) + family_size(
            ScaleFamily::MelodicMinor,
        ) + family_size(ScaleFamily::HarmonicMajor) + family_size(ScaleFamily::DoubleHarmonic)
            + family_size(ScaleFamily::Pentatonic) + family_size(ScaleFamily::Blues) + family_size(
            ScaleFamily::Symmetric,
        ) + family_size(ScaleFamily::World) + family_size(ScaleFamily::BarryHarris) == 57,
{
    lemma_filter_prefix(f, 57);
    assert(ScaleMode::spec_all().take(57) =~= ScaleMode::spec_all());
}

/// A sequence that increases at each step increases between any two positions.
proof fn lemma_steps_ascending(iv: Seq<u8>, i: int, j: int)
    requires
        0 <= i < j < iv.len(),
        forall|t: int| 0 <= t < iv.len() - 1 ==> #[trigger] iv[t] < iv[t + 1],
    ensures
        iv[i] < iv[j],
    decreases j - i,
{
    if j > i + 1 {
        lemma_steps_ascending(iv, i, j - 1);
        assert(iv[j - 1] < iv[j]);
    }
}

/// Every mode's interval pattern is well formed.
pub proof fn lemma_intervals_well_formed(m: ScaleMode)
    ensures
        intervals_well_formed(m.spec_intervals()),
{
    let iv = m.spec_intervals();
    assert(5 <= iv.len() <= 8);
    assert(forall|i: int| 0 <= i < iv.len() - 1 ==> #[trigger] iv[i] < iv[i + 1]);
    assert forall|i: int, j: int| 0 <= i < j < iv.len() implies iv[i] < iv[j] by {
        lemma_steps_ascending(iv, i, j);
    }
}

impl Default for ScaleMode {
    fn default() -> (r: Self)
        ensures
            r == ScaleMode::Ionian,
    {
        ScaleMode::Ionian
    }
}

impl ScaleMode {
    /// The modes of a family, in menu order.
    pub open spec fn spec_in_family(family: ScaleFamily) -> Seq<ScaleMode> {
        Self::spec_all().filter(|m: ScaleMode| m.spec_family() == family)
    }

    /// Returns all scale modes in a given family, in menu order.
    pub fn all_in_family(family: ScaleFamily) -> (r: Vec<ScaleMode>)
        ensures
            r@ == Self::spec_in_family(family),
            forall|i: int| 0 <= i < r@.len() ==> (#[trigger] r@[i]).spec_family() == family,
            forall|m: ScaleMode| m.spec_family() == family ==> #[trigger] r@.contains(m),
    {
        let all = ScaleMode::all();
        let ghost pred = |m: ScaleMode| m.spec_family() == family;
        let mut r: Vec<ScaleMode> = Vec::new();
        let mut i: usize = 0;
        while i < all.len()
            invariant
                i <= all@.len(),
                all@ == Self::spec_all(),
                pred == (|m: ScaleMode| m.spec_family() == family),
                r@ == all@.take(i as int).filter(pred),
            decreases all@.len() - i,
        {
            let m = all[i];
            proof {
                all@.take(i as int).lemma_filter_push(m, pred);
                assert(all@.take(i as int).push(m) =~= all@.take(i + 1));
            }
            if m.family() == family {
                r.push(m);
            }
            i = i + 1;
        }
        assert(all@.take(all@.len() as int) =~= all@);
        proof {
            broadcast use vstd::seq_lib::group_filter_ensures;
            assert forall|m: ScaleMode| m.spec_family() == family implies #[trigger] r@.contains(m) by {
                lemma_all_modes_complete();
                let k = choose|k: int| 0 <= k < all@.len() && all@[k] == m;
                all@.lemma_filter_contains(pred, k);
            }
            assert forall|k: int| 0 <= k < r@.len() implies (#[trigger] r@[k]).spec_family() == family by {
                all@.lemma_filter_pred(pred, k);
            }
        }
        r
    }
}

/// Harmony modes (algorithms for generating harmony notes).
#[derive(Clone, Copy, Debug, PartialEq, Eq, Structural)]
pub enum HarmonyMode {
    /// Mode 1: Pass-through (no harmony).
    PassThrough,
    /// Mode 2: Diatonic thirds above.
    DiatonicThirds,
    /// Mode 3: Diatonic fourths above.
    DiatonicFourths,
    /// Mode 4: Random diatonic interval below (2nd-7th).
    RandomBelow,
    /// Mode 5: Random below excluding 2nds.
    RandomBelowNoSeconds,
    /// Mode 6: Contrary motion (stateful).
    ContraryMotion,
    /// Mode 7: Note-against-note counterpoint (stateful).
    StrictCounterpoint,
    /// Mode 8: Barry Harris drop-2 voicings.
    BarryHarris,
    /// Mode 9: Functional harmony.
    FunctionalHarmony,
    /// Mode 10: Bach chorale.
    BachChorale,
}

impl Default for HarmonyMode {
    fn default() -> (r: Self)
        ensures
            r == HarmonyMode::PassThrough,
    {
        HarmonyMode::PassThrough
    }
}

impl HarmonyMode {
    /// Display number of the mode.
    pub open spec fn spec_number(self) -> u8 {
        match self {
            HarmonyMode::PassThrough => 1,
            HarmonyMode::DiatonicThirds => 2,
            HarmonyMode::DiatonicFourths => 3,
            HarmonyMode::RandomBelow => 4,
            HarmonyMode::RandomBelowNoSeconds => 5,
            HarmonyMode::ContraryMotion => 6,
            HarmonyMode::StrictCounterpoint => 7,
            HarmonyMode::BarryHarris => 8,
            HarmonyMode::FunctionalHarmony => 9,
            HarmonyMode::BachChorale => 10,
        }
    }

    /// Every mode, in menu order.
    pub open spec fn spec_all() -> Seq<HarmonyMode> {
        seq![
            HarmonyMode::PassThrough,
            HarmonyMode::DiatonicThirds,
            HarmonyMode::DiatonicFourths,
            HarmonyMode::RandomBelow,
            HarmonyMode::RandomBelowNoSeconds,
            HarmonyMode::ContraryMotion,
            HarmonyMode::StrictCounterpoint,
            HarmonyMode::BarryHarris,
            HarmonyMode::FunctionalHarmony,
            HarmonyMode::BachChorale,
        ]
    }

    /// Short menu description.
    pub open spec fn spec_description(self) -> Seq<char> {
        match self {
            HarmonyMode::PassThrough => "Pass-through (no harmony)"@,
            HarmonyMode::DiatonicThirds => "Parallel Thirds"@,
            HarmonyMode::DiatonicFourths => "Parallel Fourths"@,
            HarmonyMode::RandomBelow => "Random diatonic below"@,
            HarmonyMode::RandomBelowNoSeconds => "Random Below (consonant)"@,
            HarmonyMode::ContraryMotion => "Contrary motion"@,
            HarmonyMode::StrictCounterpoint => "Counterpoint (Species 1, basic)"@,
            HarmonyMode::BarryHarris => "Barry Harris (drop-2 voicings)"@,
            HarmonyMode::FunctionalHarmony => "Functional Harmony"@,
            HarmonyMode::BachChorale => "Bach Chorale"@,
        }
    }

    /// Longer tooltip describing the algorithm.
    pub open spec fn spec_tooltip(self) -> Seq<char> {
        match self {
            HarmonyMode::PassThrough => "Notes pass unchanged to output"@,
            HarmonyMode::DiatonicThirds => "Adds +2 scale degrees per voice. Multiple voices stack into 7th chords."@,
            HarmonyMode::DiatonicFourths => "Adds +3 scale degrees per voice. Multiple voices stack into extended chords."@,
            HarmonyMode::RandomBelow => "Random diatonic interval (2nd-7th) below the melody"@,
            HarmonyMode::RandomBelowNoSeconds => "Random diatonic interval below, excluding dissonant 2nds"@,
            HarmonyMode::ContraryMotion => "Harmony moves opposite to melody direction. Stateful \u{2014} tracks previous notes."@,
            HarmonyMode::StrictCounterpoint => "Note-against-note voice leading with scoring. No parallel 5ths/octaves, prefers contrary/stepwise motion. Partial Species 1 rules."@,
            HarmonyMode::BarryHarris => "4-voice drop-2 voicings using 8-note BH scale. Chord tones produce 6th chord voicings, passing tones produce dim7 voicings. Requires BH Major or Minor 6th Dim scale."@,
            HarmonyMode::FunctionalHarmony => "Reactive chord selection."@,
            HarmonyMode::BachChorale => "4-voice SATB."@,
        }
    }

    /// The mode with display number `number`, if any.
    pub fn from_number(number: u8) -> (r: Option<HarmonyMode>)
        ensures
            r == if 1 <= number <= 10 {
                Some(Self::spec_all()[number - 1])
            } else {
                None::<HarmonyMode>
            },
            r matches Some(m) ==> m.spec_number() == number,
    {
        let modes = HarmonyMode::all();
        if number >= 1 && (number as usize) <= modes.len() {
            Some(modes[number as usize - 1])
        } else {
            None
        }
    }

    /// Returns the mode number (1-10) for display.
    pub fn number(&self) -> (r: u8)
        ensures
            r == self.spec_number(),
            1 <= r <= 10,
    {
        match self {
            HarmonyMode::PassThrough => 1,
            HarmonyMode::DiatonicThirds => 2,
            HarmonyMode::DiatonicFourths => 3,
            HarmonyMode::RandomBelow => 4,
            HarmonyMode::RandomBelowNoSeconds => 5,
            HarmonyMode::ContraryMotion => 6,
            HarmonyMode::StrictCounterpoint => 7,
            HarmonyMode::BarryHarris => 8,
            HarmonyMode::FunctionalHarmony => 9,
            HarmonyMode::BachChorale => 10,
        }
    }

    /// Returns all modes in order for menu display; the i-th has number i + 1.
    pub fn all() -> (r: &'static [HarmonyMode])
        ensures
            r@ == Self::spec_all(),
            forall|i: int| 0 <= i < r@.len() ==> (#[trigger] r@[i]).spec_number() == i + 1,
    {
        let r: &'static [HarmonyMode] = &[
            HarmonyMode::PassThrough,
            HarmonyMode::DiatonicThirds,
            HarmonyMode::DiatonicFourths,
            HarmonyMode::RandomBelow,
            HarmonyMode::RandomBelowNoSeconds,
            HarmonyMode::ContraryMotion,
            HarmonyMode::StrictCounterpoint,
            HarmonyMode::BarryHarris,
            HarmonyMode::FunctionalHarmony,
            HarmonyMode::BachChorale,
        ];
        assert(r@ =~= Self::spec_all());
        r
    }

    /// Returns short description for menu display.
    pub fn description(&self) -> (r: &'static str)
        ensures
            r@ == self.spec_description(),
    {
        match self {
            HarmonyMode::PassThrough => "Pass-through (no harmony)",
            HarmonyMode::DiatonicThirds => "Parallel Thirds",
            HarmonyMode::DiatonicFourths => "Parallel Fourths",
            HarmonyMode::RandomBelow => "Random diatonic below",
            HarmonyMode::RandomBelowNoSeconds => "Random Below (consonant)",
            HarmonyMode::ContraryMotion => "Contrary motion",
            HarmonyMode::StrictCounterpoint => "Counterpoint (Species 1, basic)",
            HarmonyMode::BarryHarris => "Barry Harris (drop-2 voicings)",
            HarmonyMode::FunctionalHarmony => "Functional Harmony",
            HarmonyMode::BachChorale => "Bach Chorale",
        }
    }

    /// Returns a longer tooltip explaining what the mode's algorithm does.
    pub fn tooltip(&self) -> (r: &'static str)
        ensures
            r@ == self.spec_tooltip(),
    {
        match self {
            HarmonyMode::PassThrough => "Notes pass unchanged to output",
            HarmonyMode::DiatonicThirds => "Adds +2 scale degrees per voice. Multiple voices stack into 7th chords.",
            HarmonyMode::DiatonicFourths => "Adds +3 scale degrees per voice. Multiple voices stack into extended chords.",
            HarmonyMode::RandomBelow => "Random diatonic interval (2nd-7th) below the melody",
            HarmonyMode::RandomBelowNoSeconds => "Random diatonic interval below, excluding dissonant 2nds",
            HarmonyMode::ContraryMotion => "Harmony moves opposite to melody direction. Stateful \u{2014} tracks previous notes.",
            HarmonyMode::StrictCounterpoint => "Note-against-note voice leading with scoring. No parallel 5ths/octaves, prefers contrary/stepwise motion. Partial Species 1 rules.",
            HarmonyMode::BarryHarris => "4-voice drop-2 voicings using 8-note BH scale. Chord tones produce 6th chord voicings, passing tones produce dim7 voicings. Requires BH Major or Minor 6th Dim scale.",
            HarmonyMode::FunctionalHarmony => "Reactive chord selection.",
            HarmonyMode::BachChorale => "4-voice SATB.",
        }
    }
}

} // verus!
