use lingot::note::note_label;
use lingot::scale::Scale;

/// C4, the base note of the equal-tempered scale.
const MID_C_FREQUENCY_HZ: f64 = 261.625565;

fn default_scale() -> Scale<f64> {
    Scale::equal_tempered(MID_C_FREQUENCY_HZ)
}

#[test]
fn default_scale_has_twelve_notes() {
    let scale = default_scale();
    assert_eq!(scale.len(), 12);
    assert_eq!(scale.notes()[9].name, "A");
}

#[test]
fn octave_and_note_index_wrap() {
    let scale = default_scale();
    assert_eq!(scale.octave(9), 0);
    assert_eq!(scale.note_index(9), 9);
    assert_eq!(scale.octave(-36), -3);
    assert_eq!(scale.note_index(-36), 0);
    assert_eq!(scale.octave(13), 1);
    assert_eq!(scale.note_index(13), 1);
}

#[test]
fn equal_tempered_offsets_and_ratios() {
    let scale = default_scale();
    assert!(!scale.is_empty());
    assert_eq!(scale.name, "Default equal-tempered scale");
    assert_eq!(scale.base_frequency, MID_C_FREQUENCY_HZ);
    let names: Vec<&str> = scale.notes().iter().map(|n| n.name.as_str()).collect();
    assert_eq!(names, ["C", "C#", "D", "D#", "E", "F", "F#", "G", "G#", "A", "A#", "B"]);
    for (i, note) in scale.notes().iter().enumerate() {
        assert_eq!(note.offset_cents, 100.0 * i as f64);
        assert_eq!(note.offset_ratio, if i == 0 { Some((1, 1)) } else { None });
    }
}

#[test]
fn negative_indices_fall_in_lower_octaves() {
    let scale = default_scale();
    assert_eq!(scale.octave(-1), -1);
    assert_eq!(scale.note_index(-1), 11);
    assert_eq!(scale.octave(-12), -1);
    assert_eq!(scale.note_index(-12), 0);
    assert_eq!(scale.octave(-13), -2);
    assert_eq!(scale.note_index(-13), 11);
    assert_eq!(scale.octave(i32::MIN), -178956971);
    assert_eq!(scale.note_index(i32::MIN), 4);
}

#[test]
fn indices_decompose_into_octave_and_position() {
    let scale = default_scale();
    for index in -100..100 {
        let octave = scale.octave(index);
        let position = scale.note_index(index);
        assert!((0..12).contains(&position));
        assert_eq!(octave * 12 + position, index);
    }
}

#[test]
fn note_labels_carry_the_octave() {
    let scale = default_scale();
    assert_eq!(note_label(&scale, 9), "A4");
    assert_eq!(note_label(&scale, -36), "C1");
    assert_eq!(note_label(&scale, -3), "A3");
    assert_eq!(note_label(&scale, 13), "C#5");
    assert_eq!(note_label(&scale, -61), "B-2");
}
