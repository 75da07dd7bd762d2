//! Note names for display: the name of the note at an absolute index,
//! followed by its octave number.

use vstd::prelude::*;
use crate::scale::Scale;
use crate::text::{decimal, push_decimal};

verus! {

/// Octave number of the scale's base note (index 0 is C4 by convention).
pub const BASE_OCTAVE: i32 = 4;

/// The label of the note at absolute index `index`: its name within the scale
/// followed by its octave number, counted from [`BASE_OCTAVE`] (so index 9 of
/// the equal-tempered scale is `A4`, and index -36 is `C1`).
pub open spec fn note_label_text<R>(scale: &Scale<R>, index: int) -> Seq<char> {
    scale.notes_view()[index % scale.note_count()].name@ + decimal(BASE_OCTAVE + index / scale.note_count())
}

/// The label of the note at absolute index `index`, such as `A4`.
pub fn note_label<R>(scale: &Scale<R>, index: i32) -> (label: String)
    requires
        scale.wf(),
    ensures
        label@ == note_label_text(scale, index as int),
{
    let position = scale.note_index(index);
    let octave = scale.octave(index);
    let notes = scale.notes();
    let mut label = notes[position as usize].name.clone();
    push_decimal(&mut label, BASE_OCTAVE as i64 + octave as i64);
    label
}

} // verus!
