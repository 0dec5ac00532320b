//! Notes of a lane and the tracker spelling of MIDI keys (`C-4`, `F#2`, ...).
use crate::text::digit_char;
use vstd::prelude::*;
use vstd::string::StrSliceExecFns;

verus! {

broadcast use vstd::string::group_string_axioms;

/// A note event of a lane. `velocity` is the MIDI velocity, `delay` the offset in
/// 1/256 of a line, `off` marks a note-off.
#[derive(Clone, Copy, Debug, PartialEq, Eq, Structural)]
pub struct Note {
    pub key: i16,
    pub velocity: u8,
    pub delay: u8,
    pub off: bool,
    pub channel: i16,
}

/// The note that a new lane item starts from: middle C (60) at velocity 100.
pub open spec fn default_note() -> Note {
    Note { key: 60, velocity: 100, delay: 0, off: false, channel: 0 }
}

impl Default for Note {
    fn default() -> (r: Self)
        ensures
            r == default_note(),
    {
        Note { key: 60, velocity: 100, delay: 0, off: false, channel: 0 }
    }
}

/// The two-character name of a semitone (0 is C, 11 is B).
pub open spec fn semitone_name(i: int) -> Seq<char> {
    if i == 0 {
        seq!['C', '-']
    } else if i == 1 {
        seq!['C', '#']
    } else if i == 2 {
        seq!['D', '-']
    } else if i == 3 {
        seq!['D', '#']
    } else if i == 4 {
        seq!['E', '-']
    } else if i == 5 {
        seq!['F', '-']
    } else if i == 6 {
        seq!['F', '#']
    } else if i == 7 {
        seq!['G', '-']
    } else if i == 8 {
        seq!['G', '#']
    } else if i == 9 {
        seq!['A', '-']
    } else if i == 10 {
        seq!['A', '#']
    } else {
        seq!['B', '-']
    }
}

/// Inputs on which spelling a key is defined: keys above 127 have no name, negative
/// keys are accepted only when they are a multiple of 12.
pub open spec fn midi_name_defined(midi: int) -> bool {
    midi > 127 || midi >= 0 || midi % 12 == 0
}

/// The tracker spelling of a MIDI key: semitone name and the octave (key / 12 - 2,
/// so that 60 is `C-3`) as one lower-case hexadecimal digit of its low four bits.
pub open spec fn spec_midi_to_note_name(midi: int) -> Option<Seq<char>> {
    if midi > 127 {
        None
    } else {
        Some(semitone_name(midi % 12) + seq![digit_char(((midi / 12 - 2) % 16) as nat, false)])
    }
}

fn semitone_str(i: i16) -> (s: &'static str)
    requires
        0 <= i < 12,
    ensures
        s@ == semitone_name(i as int),
{
    proof {
        reveal_strlit("C-");
        reveal_strlit("C#");
        reveal_strlit("D-");
        reveal_strlit("D#");
        reveal_strlit("E-");
        reveal_strlit("F-");
        reveal_strlit("F#");
        reveal_strlit("G-");
        reveal_strlit("G#");
        reveal_strlit("A-");
        reveal_strlit("A#");
        reveal_strlit("B-");
    }
    let r = match i {
        0 => "C-",
        1 => "C#",
        2 => "D-",
        3 => "D#",
        4 => "E-",
        5 => "F-",
        6 => "F#",
        7 => "G-",
        8 => "G#",
        9 => "A-",
        10 => "A#",
        _ => "B-",
    };
    assert(r@ =~= semitone_name(i as int));
    r
}

/// Spells a MIDI key the tracker way; `None` above 127.
pub fn midi_to_note_name(midi: i16) -> (r: Option<String>)
    requires
        midi_name_defined(midi as int),
    ensures
        match r {
            Some(s) => spec_midi_to_note_name(midi as int) == Some(s@),
            None => spec_midi_to_note_name(midi as int) is None,
        },
{
    if midi > 127 {
        return None;
    }
    let semitone: i16 = if midi >= 0 {
        midi % 12
    } else {
        0
    };
    assert(semitone as int == (midi as int) % 12);
    let octave: i16 = if midi >= 0 {
        midi / 12 - 2
    } else {
        -((-midi) / 12) - 2
    };
    assert(octave as int == (midi as int) / 12 - 2);
    let m: i16 = if octave >= 0 {
        octave % 16
    } else {
        let a: i16 = (-octave) % 16;
        if a == 0 {
            0
        } else {
            16 - a
        }
    };
    assert(m as int == (octave as int) % 16);
    let mut s = String::from_str(semitone_str(semitone));
    s.append(crate::text::digit_str(m as usize, false));
    assert(s@ =~= semitone_name(midi as int % 12) + seq![
        digit_char(((midi as int / 12 - 2) % 16) as nat, false),
    ]);
    Some(s)
}

/// ASCII upper-casing of a character code.
pub open spec fn upper_code(x: u32) -> u32 {
    if 97 <= x && x <= 122 {
        (x - 32) as u32
    } else {
        x
    }
}

/// The value of an upper-case hexadecimal digit code.
pub open spec fn hex_value(x: u32) -> Option<int> {
    if 48 <= x && x <= 57 {
        Some(x - 48)
    } else if 65 <= x && x <= 70 {
        Some(x - 55)
    } else {
        None
    }
}

/// Whether `a`, `b` are the codes of the name of semitone `i`.
pub open spec fn names_semitone(i: int, a: u32, b: u32) -> bool {
    semitone_name(i)[0] as u32 == a && semitone_name(i)[1] as u32 == b
}

/// The semitone whose two-character name has the codes `a`, `b`.
pub open spec fn semitone_index(a: u32, b: u32) -> Option<int> {
    if exists|i: int| 0 <= i < 12 && names_semitone(i, a, b) {
        Some(choose|i: int| 0 <= i < 12 && names_semitone(i, a, b))
    } else {
        None
    }
}

/// Reads a three-character tracker spelling back into a MIDI key, ignoring case.
/// Only ASCII text can be a spelling.
pub open spec fn spec_note_name_to_midi(s: Seq<char>) -> Option<int> {
    if !vstd::utf8::is_ascii_chars(s) || s.len() != 3 {
        None
    } else {
        match (
            hex_value(upper_code(s[2] as u32)),
            semitone_index(upper_code(s[0] as u32), upper_code(s[1] as u32)),
        ) {
            (Some(octave), Some(semitone)) => {
                let midi = (octave + 2) * 12 + semitone;
                if midi <= 127 {
                    Some(midi)
                } else {
                    None
                }
            },
            _ => None,
        }
    }
}

fn upper_byte(b: u8) -> (r: u32)
    ensures
        r == upper_code(b as u32),
{
    if 97 <= b && b <= 122 {
        (b - 32) as u32
    } else {
        b as u32
    }
}

fn semitone_of(a: u32, b: u32) -> (r: Option<i16>)
    ensures
        match r {
            Some(i) => semitone_index(a, b) == Some(i as int),
            None => semitone_index(a, b) is None,
        },
{
    let r: Option<i16> = if a == 67 && b == 45 {
        Some(0)
    } else if a == 67 && b == 35 {
        Some(1)
    } else if a == 68 && b == 45 {
        Some(2)
    } else if a == 68 && b == 35 {
        Some(3)
    } else if a == 69 && b == 45 {
        Some(4)
    } else if a == 70 && b == 45 {
        Some(5)
    } else if a == 70 && b == 35 {
        Some(6)
    } else if a == 71 && b == 45 {
        Some(7)
    } else if a == 71 && b == 35 {
        Some(8)
    } else if a == 65 && b == 45 {
        Some(9)
    } else if a == 65 && b == 35 {
        Some(10)
    } else if a == 66 && b == 45 {
        Some(11)
    } else {
        None
    };
    proof {
        match r {
            Some(i) => {
                assert(names_semitone(i as int, a, b));
                assert forall|j: int| 0 <= j < 12 && names_semitone(j, a, b) implies j == i by {}
            },
            None => {
                assert forall|i: int| 0 <= i < 12 implies !names_semitone(i, a, b) by {}
            },
        }
    }
    r
}

fn hex_of(x: u32) -> (r: Option<i16>)
    ensures
        match r {
            Some(v) => hex_value(x) == Some(v as int),
            None => hex_value(x) is None,
        },
{
    if 48 <= x && x <= 57 {
        Some((x - 48) as i16)
    } else if 65 <= x && x <= 70 {
        Some((x - 55) as i16)
    } else {
        None
    }
}

/// Reads a tracker spelling such as `C-4` or `f#2` back into a MIDI key.
pub fn note_name_to_midi(note: &str) -> (r: Option<i16>)
    ensures
        match r {
            Some(m) => spec_note_name_to_midi(note@) == Some(m as int),
            None => spec_note_name_to_midi(note@) is None,
        },
{
    if !note.is_ascii() {
        return None;
    }
    if note.unicode_len() != 3 {
        return None;
    }
    let b0 = note.get_ascii(0);
    let b1 = note.get_ascii(1);
    let b2 = note.get_ascii(2);
    assert(b0 as u32 == note@[0] as u32 && b1 as u32 == note@[1] as u32 && b2 as u32 == note@[2] as u32);
    let c0 = upper_byte(b0);
    let c1 = upper_byte(b1);
    let c2 = upper_byte(b2);
    let octave = match hex_of(c2) {
        Some(o) => o,
        None => {
            return None;
        },
    };
    match semitone_of(c0, c1) {
        Some(semitone) => {
            let midi = (octave + 2) * 12 + semitone;
            if midi >= 0 && midi <= 127 {
                Some(midi)
            } else {
                None
            }
        },
        None => None,
    }
}

impl Note {
    /// `OFF` for a note-off, else the spelling of the key.
    pub fn note_name(&self) -> (r: String)
        requires
            self.off || (self.key <= 127 && midi_name_defined(self.key as int)),
        ensures
            self.off ==> r@ == seq!['O', 'F', 'F'],
            !self.off ==> spec_midi_to_note_name(self.key as int) == Some(r@),
    {
        if self.off {
            proof {
                reveal_strlit("OFF");
            }
            let r = String::from_str("OFF");
            assert(r@ =~= seq!['O', 'F', 'F']);
            r
        } else {
            match midi_to_note_name(self.key) {
                Some(s) => s,
                None => String::new(),
            }
        }
    }

    /// Sets the key from a spelling; an unreadable spelling leaves the note as it was.
    pub fn set_note_name(&mut self, note_name: &str)
        ensures
            match spec_note_name_to_midi(note_name@) {
                Some(m) => *final(self) == (Note { key: m as i16, ..*old(self) }),
                None => *final(self) == *old(self),
            },
    {
        if let Some(key) = note_name_to_midi(note_name) {
            self.key = key;
        }
    }
}

/// Upper-casing of a character sequence, ASCII letters only.
pub open spec fn upper_chars(s: Seq<char>) -> Seq<char> {
    s.map_values(|c: char| upper_code(c as u32) as char)
}

proof fn lemma_semitone_index_of(i: int)
    requires
        0 <= i < 12,
    ensures
        semitone_index(semitone_name(i)[0] as u32, semitone_name(i)[1] as u32) == Some(i),
{
    let a = semitone_name(i)[0] as u32;
    let b = semitone_name(i)[1] as u32;
    assert(names_semitone(i, a, b));
    assert forall|j: int| 0 <= j < 12 && names_semitone(j, a, b) implies j == i by {}
}

/// Spelling a key from 24 (`C-0`) to 127 and reading the spelling back gives the
/// key again. Keys below 24 are spelt with octave digits `e` and `f`, which read
/// back as octaves 14 and 15 and so as no key.
pub proof fn lemma_note_name_round_trip(midi: int)
    requires
        24 <= midi <= 127,
    ensures
        spec_midi_to_note_name(midi) matches Some(name) && spec_note_name_to_midi(name) == Some(
            midi,
        ),
{
    let t = midi % 12;
    let o = midi / 12 - 2;
    assert(0 <= o <= 8);
    let name = spec_midi_to_note_name(midi).unwrap();
    assert(name.len() == 3);
    assert(name[2] == digit_char(o as nat, false));
    assert(upper_code(name[2] as u32) == 48 + o);
    assert(vstd::utf8::is_ascii_chars(name));
    lemma_semitone_index_of(t);
    assert(upper_code(name[0] as u32) == name[0] as u32);
    assert(upper_code(name[1] as u32) == name[1] as u32);
}

/// A spelling that reads as a key is, up to ASCII case, the spelling of that key.
pub proof fn lemma_note_name_canonical(s: Seq<char>)
    requires
        spec_note_name_to_midi(s) is Some,
    ensures
        spec_midi_to_note_name(spec_note_name_to_midi(s).unwrap()) == Some(upper_chars(s)),
{
    let m = spec_note_name_to_midi(s).unwrap();
    let a = upper_code(s[0] as u32);
    let b = upper_code(s[1] as u32);
    let c = upper_code(s[2] as u32);
    let o = hex_value(c).unwrap();
    let t = semitone_index(a, b).unwrap();
    assert(names_semitone(t, a, b));
    assert(0 <= t < 12);
    assert(m == (o + 2) * 12 + t);
    assert(m % 12 == t && m / 12 - 2 == o);
    assert(0 <= o <= 8);
    let name = spec_midi_to_note_name(m).unwrap();
    assert(name[0] as u32 == a && name[1] as u32 == b);
    assert(name[2] as u32 == c);
    assert(name =~= upper_chars(s));
}

} // verus!
