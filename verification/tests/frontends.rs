use lingot::audio::AudioInputConfig;
use lingot::tui::{gauge_bar, label_row};
use lingot::{audio_start_hint, ANDROID_AUDIO_HINT};

#[test]
fn gauge_bar_has_ticks_at_ends_quarters_and_centre() {
    assert_eq!(gauge_bar(9), "├─┼─╫─┼─┤");
    assert_eq!(gauge_bar(0), "");
    assert_eq!(gauge_bar(1), "╫");
    assert_eq!(gauge_bar(41).chars().count(), 41);
    assert_eq!(gauge_bar(41).chars().nth(20), Some('╫'));
}

#[test]
fn only_android_gets_an_audio_hint() {
    assert_eq!(audio_start_hint(false), None);
    let hint = audio_start_hint(true).unwrap();
    assert_eq!(hint, ANDROID_AUDIO_HINT);
    assert!(hint.contains("microphone permission"));
    assert!(hint.contains("pm grant com.termux android.permission.RECORD_AUDIO"));
}

#[test]
fn audio_input_config_holds_device_and_rate() {
    let config = AudioInputConfig { device: Some("mic".to_string()), sample_rate: 44100 };
    let copy = config.clone();
    assert_eq!(copy.device.as_deref(), Some("mic"));
    assert_eq!(copy.sample_rate, 44100);
}

#[test]
fn scale_labels_are_centred_and_kept_inside_the_row() {
    let labels: Vec<(usize, String)> = vec![
        (0, "-50".to_string()),
        (10, "-25".to_string()),
        (20, "0".to_string()),
        (30, "+25".to_string()),
        (40, "+50".to_string()),
    ];
    assert_eq!(label_row(41, &labels), "-50      -25        0        +25      +50");
    assert_eq!(label_row(0, &labels), "");
    // a later label overwrites an earlier one where they meet
    let overlapping = vec![(2, "abc".to_string()), (3, "XY".to_string())];
    assert_eq!(label_row(6, &overlapping), " aXY  ");
    // labels longer than the row are cut at its end
    assert_eq!(label_row(2, &[(1, "long".to_string())]), "lo");
}
