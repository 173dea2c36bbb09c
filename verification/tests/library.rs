use rs_pedalboard::parameters::{flip_flop_int, int_is_valid};
use rs_pedalboard::pedals::{ParameterUILocation, PedalDiscriminants};
use rs_pedalboard::text::{push_decimal, text_before, text_equal};
use rs_pedalboard::{clock_reading_text, forward_slash_path, unique_time_id, TimeOnlyFormat, SAVE_DIR};

#[test]
fn paths_are_written_with_forward_slashes() {
    assert_eq!(forward_slash_path(r"C:\Users\me\rs_pedalboard"), "C:/Users/me/rs_pedalboard");
    assert_eq!(forward_slash_path("/usr/lib/vst"), "/usr/lib/vst");
    assert_eq!(forward_slash_path(r"a\\b"), "a//b");
    assert_eq!(forward_slash_path(""), "");
    assert_eq!(SAVE_DIR, "rs_pedalboard");
}

#[test]
fn time_ids_are_nanoseconds_into_the_second() {
    for _ in 0..10 {
        assert!(unique_time_id() < 1_000_000_000);
    }
}

#[test]
fn log_times_are_written_as_hours_minutes_and_seconds() {
    let text = TimeOnlyFormat.format_time().expect("the clock reads after the Unix epoch");
    let chars: Vec<char> = text.chars().collect();
    assert_eq!(chars.len(), 8);
    assert_eq!(chars[2], ':');
    assert_eq!(chars[5], ':');
    for i in [0, 1, 3, 4, 6, 7] {
        assert!(chars[i].is_ascii_digit(), "{text}");
    }
    let hours: u32 = text[0..2].parse().unwrap();
    let minutes: u32 = text[3..5].parse().unwrap();
    let seconds: u32 = text[6..8].parse().unwrap();
    assert!(hours < 24 && minutes < 60 && seconds < 60);
}

#[test]
fn a_clock_reading_is_written_zero_padded() {
    assert_eq!(clock_reading_text(Some((7, 5, 9))), Some("07:05:09".to_string()));
    assert_eq!(clock_reading_text(Some((23, 59, 59))), Some("23:59:59".to_string()));
    assert_eq!(clock_reading_text(Some((0, 0, 0))), Some("00:00:00".to_string()));
    assert_eq!(clock_reading_text(None), None);
}

#[test]
fn pedal_kinds_have_display_names() {
    let all = PedalDiscriminants::all();
    assert_eq!(all.len(), 22);
    assert_eq!(all[0], PedalDiscriminants::AutoWah);
    assert_eq!(all[21], PedalDiscriminants::Wah);
    assert_eq!(PedalDiscriminants::Nam.display_name(), "Neural Amp Modeler");
    assert_eq!(PedalDiscriminants::GraphicEq7.display_name(), "Graphic EQ");
    assert_eq!(PedalDiscriminants::PitchShift.display_name(), "Pitch Shift");
    assert_eq!(PedalDiscriminants::Vst3.display_name(), "VST3 Plugin");
    let mut names: Vec<&str> = all.iter().map(|k| k.display_name()).collect();
    names.sort();
    names.dedup();
    assert_eq!(names.len(), 22);
    assert_ne!(ParameterUILocation::Pedal, ParameterUILocation::MidiMax);
}

#[test]
fn integer_parameters_stay_within_their_bounds() {
    assert!(int_is_valid(5, Some(0), Some(10)));
    assert!(int_is_valid(0, Some(0), Some(10)));
    assert!(!int_is_valid(-1, Some(0), Some(10)));
    assert!(!int_is_valid(11, Some(0), Some(10)));
    assert!(int_is_valid(11, Some(0), None));
    assert!(int_is_valid(-100, None, None));
}

#[test]
fn a_flip_flop_sends_an_integer_to_the_other_end() {
    assert_eq!(flip_flop_int(0, 0, 10), 10);
    assert_eq!(flip_flop_int(10, 0, 10), 0);
    assert_eq!(flip_flop_int(4, 0, 10), 10);
    assert_eq!(flip_flop_int(5, 0, 10), 0);
    assert_eq!(flip_flop_int(2, 2, 2), 2);
    // An inverted range is read the same way: the value is high when it is at least half way
    // from the minimum to the maximum
    assert_eq!(flip_flop_int(10, 10, 0), 0);
    assert_eq!(flip_flop_int(5, 10, 0), 10);
    assert_eq!(flip_flop_int(6, 10, 0), 0);
}

#[test]
fn numbers_and_texts_compare_as_written() {
    let mut s = String::from("n=");
    push_decimal(&mut s, 0);
    push_decimal(&mut s, 907);
    assert_eq!(s, "n=0907");
    let mut big = String::new();
    push_decimal(&mut big, u64::MAX);
    assert_eq!(big, u64::MAX.to_string());

    assert!(text_before("Depth", "Rate"));
    assert!(text_before("Rate", "Rates"));
    assert!(!text_before("Rate", "Rate"));
    assert!(text_before("Z", "a"));
    assert!(text_equal("Gain", "Gain"));
    assert!(!text_equal("Gain", "gain"));
}
