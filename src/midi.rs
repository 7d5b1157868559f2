//! Naming of MIDI note numbers in twelve-tone equal temperament.
use vstd::prelude::*;

verus! {

/// The character of a decimal digit `d < 10`.
pub open spec fn digit_char(d: nat) -> char {
    if d == 0 { '0' }
    else if d == 1 { '1' }
    else if d == 2 { '2' }
    else if d == 3 { '3' }
    else if d == 4 { '4' }
    else if d == 5 { '5' }
    else if d == 6 { '6' }
    else if d == 7 { '7' }
    else if d == 8 { '8' }
    else { '9' }
}

/// Decimal digits of a natural number, most significant first, without
/// leading zeros ("0" for zero).
pub open spec fn decimal_digits(n: nat) -> Seq<char>
    decreases n,
{
    if n < 10 {
        seq![digit_char(n)]
    } else {
        decimal_digits(n / 10).push(digit_char(n % 10))
    }
}

/// Decimal text of an integer, with a leading '-' for a negative one.
pub open spec fn decimal_text(v: int) -> Seq<char> {
    if v < 0 {
        seq!['-'] + decimal_digits((-v) as nat)
    } else {
        decimal_digits(v as nat)
    }
}

/// Name of the pitch class `i` in `[0, 12)`, counted from C.
pub open spec fn pitch_class_text(i: int) -> Seq<char> {
    if i == 0 { seq!['C'] }
    else if i == 1 { seq!['C', '#'] }
    else if i == 2 { seq!['D'] }
    else if i == 3 { seq!['D', '#'] }
    else if i == 4 { seq!['E'] }
    else if i == 5 { seq!['F'] }
    else if i == 6 { seq!['F', '#'] }
    else if i == 7 { seq!['G'] }
    else if i == 8 { seq!['G', '#'] }
    else if i == 9 { seq!['A'] }
    else if i == 10 { seq!['A', '#'] }
    else { seq!['B'] }
}

/// Pitch class of a MIDI number: its remainder modulo 12, always in `[0, 12)`.
pub open spec fn pitch_class_of(midi: int) -> int {
    midi % 12
}

/// Octave of a MIDI number: MIDI 60 (middle C) lies in octave 4.
pub open spec fn octave_of(midi: int) -> int {
    midi / 12 - 1
}

/// Note name of a MIDI number: pitch class followed by the signed octave.
pub open spec fn note_name(midi: int) -> Seq<char> {
    pitch_class_text(pitch_class_of(midi)) + decimal_text(octave_of(midi))
}

fn pitch_class_str(i: u32) -> (r: &'static str)
    requires
        i < 12,
    ensures
        r@ == pitch_class_text(i as int),
{
    if i == 0 {
        proof { reveal_strlit("C"); }
        "C"
    } else if i == 1 {
        proof { reveal_strlit("C#"); }
        "C#"
    } else if i == 2 {
        proof { reveal_strlit("D"); }
        "D"
    } else if i == 3 {
        proof { reveal_strlit("D#"); }
        "D#"
    } else if i == 4 {
        proof { reveal_strlit("E"); }
        "E"
    } else if i == 5 {
        proof { reveal_strlit("F"); }
        "F"
    } else if i == 6 {
        proof { reveal_strlit("F#"); }
        "F#"
    } else if i == 7 {
        proof { reveal_strlit("G"); }
        "G"
    } else if i == 8 {
        proof { reveal_strlit("G#"); }
        "G#"
    } else if i == 9 {
        proof { reveal_strlit("A"); }
        "A"
    } else if i == 10 {
        proof { reveal_strlit("A#"); }
        "A#"
    } else {
        proof { reveal_strlit("B"); }
        "B"
    }
}

fn digit_str(d: u64) -> (r: &'static str)
    requires
        d < 10,
    ensures
        r@ == seq![digit_char(d as nat)],
{
    if d == 0 {
        proof { reveal_strlit("0"); }
        "0"
    } else if d == 1 {
        proof { reveal_strlit("1"); }
        "1"
    } else if d == 2 {
        proof { reveal_strlit("2"); }
        "2"
    } else if d == 3 {
        proof { reveal_strlit("3"); }
        "3"
    } else if d == 4 {
        proof { reveal_strlit("4"); }
        "4"
    } else if d == 5 {
        proof { reveal_strlit("5"); }
        "5"
    } else if d == 6 {
        proof { reveal_strlit("6"); }
        "6"
    } else if d == 7 {
        proof { reveal_strlit("7"); }
        "7"
    } else if d == 8 {
        proof { reveal_strlit("8"); }
        "8"
    } else {
        proof { reveal_strlit("9"); }
        "9"
    }
}

/// Appends the decimal digits of `n` to `s`.
fn append_decimal(s: &mut String, n: u64)
    ensures
        final(s)@ == old(s)@ + decimal_digits(n as nat),
    decreases n,
{
    if n >= 10 {
        append_decimal(s, n / 10);
    }
    s.append(digit_str(n % 10));
    proof {
        if n < 10 {
            assert(n % 10 == n);
        }
        assert(final(s)@ =~= old(s)@ + decimal_digits(n as nat));
    }
}

/// Splits a MIDI number into its pitch class in `[0, 12)` and its octave.
fn pitch_class_and_octave(midi_number: i32) -> (r: (u32, i64))
    ensures
        r.0 as int == pitch_class_of(midi_number as int),
        r.1 as int == octave_of(midi_number as int),
{
    if midi_number >= 0 {
        let n: u32 = midi_number as u32;
        let q: u32 = n / 12;
        (n % 12, q as i64 - 1)
    } else {
        let a: u32 = (-(midi_number as i64)) as u32;
        let q: u32 = a / 12;
        let r: u32 = a % 12;
        proof {
            let m = midi_number as int;
            assert(a as int == q as int * 12 + r as int);
        }
        if r == 0 {
            proof {
                let m = midi_number as int;
                assert(m == -(q as int) * 12);
                vstd::arithmetic::div_mod::lemma_fundamental_div_mod_converse(
                    m, 12, -(q as int), 0);
            }
            (0, -(q as i64) - 1)
        } else {
            proof {
                let m = midi_number as int;
                assert(m == (-(q as int) - 1) * 12 + (12 - r as int));
                vstd::arithmetic::div_mod::lemma_fundamental_div_mod_converse(
                    m, 12, -(q as int) - 1, 12 - r as int);
            }
            (12 - r, -(q as i64) - 2)
        }
    }
}

/// Name of a MIDI note number, such as "A4" for 69 and "C4" for 60.
///
/// The pitch class is the number's remainder modulo 12, always in `[0, 12)`
/// also for a negative number; the octave is its floor quotient by 12, less one.
pub fn midi_to_note_name(midi_number: i32) -> (r: String)
    ensures
        r@ == note_name(midi_number as int),
{
    let (pc, octave) = pitch_class_and_octave(midi_number);
    let mut name = String::from_str(pitch_class_str(pc));
    if octave < 0 {
        proof { reveal_strlit("-"); }
        name.append("-");
        append_decimal(&mut name, (-octave) as u64);
        proof {
            assert(name@ =~= note_name(midi_number as int));
        }
    } else {
        append_decimal(&mut name, octave as u64);
    }
    name
}

} // verus!
