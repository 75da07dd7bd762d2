//! Musical scales: an ordered set of notes within one octave, anchored to a
//! base frequency (the frequency of note index 0, typically C4).
//!
//! A scale is generic over `R`, the number type its cents offsets and base
//! frequency are held in. This module owns the structure of a scale and the
//! arithmetic on absolute note indices; the pitch arithmetic on `R` belongs to
//! whoever picks `R`.

use vstd::prelude::*;

verus! {

/// Number of notes of the equal-tempered scale.
pub const EQUAL_TEMPERED_NOTES: usize = 12;

/// Cents between two adjacent notes of the equal-tempered scale.
pub const CENTS_PER_SEMITONE: u16 = 100;

/// A single note within a scale.
#[derive(Clone, Debug, PartialEq)]
pub struct ScaleNote<R> {
    pub name: String,
    /// Offset from the scale's base note, in cents.
    pub offset_cents: R,
    /// Exact offset as an integer ratio `(numerator, denominator)`, when the
    /// scale defines one. `None` for tempered scales that only give cents.
    pub offset_ratio: Option<(i16, i16)>,
}

/// A musical scale. It always holds at least one note, and no more than an
/// absolute note index (`i32`) can address.
#[derive(Clone, Debug, PartialEq)]
pub struct Scale<R> {
    pub name: String,
    pub base_frequency: R,
    notes: Vec<ScaleNote<R>>,
}

/// The note names of the equal-tempered scale, from C upwards.
pub open spec fn equal_tempered_name(i: int) -> Seq<char> {
    if i == 0 { "C"@ }
    else if i == 1 { "C#"@ }
    else if i == 2 { "D"@ }
    else if i == 3 { "D#"@ }
    else if i == 4 { "E"@ }
    else if i == 5 { "F"@ }
    else if i == 6 { "F#"@ }
    else if i == 7 { "G"@ }
    else if i == 8 { "G#"@ }
    else if i == 9 { "A"@ }
    else if i == 10 { "A#"@ }
    else { "B"@ }
}

fn equal_tempered_name_exec(i: usize) -> (name: String)
    requires
        i < EQUAL_TEMPERED_NOTES,
    ensures
        name@ == equal_tempered_name(i as int),
{
    let s: &str = if i == 0 { "C" }
        else if i == 1 { "C#" }
        else if i == 2 { "D" }
        else if i == 3 { "D#" }
        else if i == 4 { "E" }
        else if i == 5 { "F" }
        else if i == 6 { "F#" }
        else if i == 7 { "G" }
        else if i == 8 { "G#" }
        else if i == 9 { "A" }
        else if i == 10 { "A#" }
        else { "B" };
    String::from_str(s)
}

impl<R> Scale<R> {
    /// The notes of the scale, in order.
    pub closed spec fn notes_view(&self) -> Seq<ScaleNote<R>> {
        self.notes@
    }

    /// The scale's name.
    pub closed spec fn name_view(&self) -> Seq<char> {
        self.name@
    }

    /// The frequency of note index 0.
    pub closed spec fn base_frequency_view(&self) -> R {
        self.base_frequency
    }

    /// Number of notes, as a mathematical integer.
    pub open spec fn note_count(&self) -> int {
        self.notes_view().len() as int
    }

    /// A scale holds at least one note and at most `i32::MAX` of them.
    pub open spec fn wf(&self) -> bool {
        0 < self.note_count() <= i32::MAX
    }

    /// The 12-tone equal-tempered scale anchored at `base_frequency` (C4 by
    /// convention): note `i` is named after the chromatic scale from C and
    /// sits `100 * i` cents above the base, converted to `R` by `From<u16>`.
    /// Only the base note carries an exact ratio, 1/1.
    pub fn equal_tempered(base_frequency: R) -> (scale: Self)
        where
            R: From<u16>,
        ensures
            scale.wf(),
            scale.name_view() == "Default equal-tempered scale"@,
            scale.base_frequency_view() == base_frequency,
            scale.note_count() == EQUAL_TEMPERED_NOTES,
            forall|i: int|
                #![trigger scale.notes_view()[i]]
                0 <= i < EQUAL_TEMPERED_NOTES ==> {
                    &&& scale.notes_view()[i].name@ == equal_tempered_name(i)
                    &&& call_ensures(
                        R::from,
                        ((CENTS_PER_SEMITONE * i) as u16,),
                        scale.notes_view()[i].offset_cents,
                    )
                    &&& scale.notes_view()[i].offset_ratio == (if i == 0 {
                        Some((1i16, 1i16))
                    } else {
                        None
                    })
                },
    {
        let mut notes: Vec<ScaleNote<R>> = Vec::new();
        for i in 0..EQUAL_TEMPERED_NOTES
            invariant
                notes@.len() == i,
                forall|j: int|
                    #![trigger notes@[j]]
                    0 <= j < i ==> {
                        &&& notes@[j].name@ == equal_tempered_name(j)
                        &&& call_ensures(
                            R::from,
                            ((CENTS_PER_SEMITONE * j) as u16,),
                            notes@[j].offset_cents,
                        )
                        &&& notes@[j].offset_ratio == (if j == 0 {
                            Some((1i16, 1i16))
                        } else {
                            None
                        })
                    },
        {
            let cents: u16 = CENTS_PER_SEMITONE * (i as u16);
            let note = ScaleNote {
                name: equal_tempered_name_exec(i),
                offset_cents: R::from(cents),
                offset_ratio: if i == 0 { Some((1, 1)) } else { None },
            };
            notes.push(note);
        }
        Scale {
            name: String::from_str("Default equal-tempered scale"),
            base_frequency,
            notes,
        }
    }

    /// Number of notes in the scale.
    pub fn len(&self) -> (n: usize)
        ensures
            n == self.note_count(),
    {
        self.notes.len()
    }

    /// Always false for a well-formed scale.
    pub fn is_empty(&self) -> (empty: bool)
        ensures
            empty == (self.note_count() == 0),
    {
        self.notes.len() == 0
    }

    /// The notes of the scale, in order.
    pub fn notes(&self) -> (notes: &[ScaleNote<R>])
        ensures
            notes@ == self.notes_view(),
    {
        self.notes.as_slice()
    }

    /// Octave number for an absolute note index: octave 0 spans indices
    /// `0..len`, and negative indices fall in negative octaves (floor division).
    pub fn octave(&self, index: i32) -> (octave: i32)
        requires
            self.wf(),
        ensures
            octave == index as int / self.note_count(),
    {
        let n: i32 = self.notes.len() as i32;
        if index < 0 {
            // -(index + 1) cannot overflow, unlike -index
            let m: i32 = -(index + 1);
            let q: i32 = m / n;
            proof {
                lemma_floor_of_negative(index as int, n as int, m as int, q as int, (m % n) as int);
            }
            -q - 1
        } else {
            index / n
        }
    }

    /// Position of an absolute note index within its octave, in `[0, len)`.
    pub fn note_index(&self, index: i32) -> (note: i32)
        requires
            self.wf(),
        ensures
            note == index as int % self.note_count(),
            0 <= note < self.note_count(),
    {
        let n: i32 = self.notes.len() as i32;
        if index < 0 {
            let m: i32 = -(index + 1);
            let b: i32 = m % n;
            proof {
                lemma_floor_of_negative(index as int, n as int, m as int, m as int / n as int, b as int);
            }
            n - 1 - b
        } else {
            index % n
        }
    }
}

/// For a negative `index = -(m + 1)` and `m = n * q + b` with `0 <= b < n`,
/// the floor quotient of `index` by `n` is `-q - 1` and the remainder `n - 1 - b`.
proof fn lemma_floor_of_negative(index: int, n: int, m: int, q: int, b: int)
    requires
        n > 0,
        index < 0,
        m == -(index + 1),
        q == m / n,
        b == m % n,
    ensures
        index / n == -q - 1,
        index % n == n - 1 - b,
{
    vstd::arithmetic::div_mod::lemma_fundamental_div_mod(m, n);
    assert(index == n * (-q - 1) + (n - 1 - b)) by (nonlinear_arith)
        requires
            m == -(index + 1),
            m == n * q + b,
    ;
    vstd::arithmetic::div_mod::lemma_fundamental_div_mod_converse(index, n, -q - 1, n - 1 - b);
}

/// Every absolute note index splits uniquely into an octave and a position
/// within that octave: `index == octave(index) * len + note_index(index)`,
/// with the position in `[0, len)`.
pub proof fn lemma_index_decomposes<R>(scale: &Scale<R>, index: i32)
    requires
        scale.wf(),
    ensures
        index == (index as int / scale.note_count()) * scale.note_count() + index as int % scale.note_count(),
        0 <= index as int % scale.note_count() < scale.note_count(),
{
    let n = scale.note_count();
    vstd::arithmetic::div_mod::lemma_fundamental_div_mod(index as int, n);
    vstd::arithmetic::mul::lemma_mul_is_commutative(n, index as int / n);
}

} // verus!
