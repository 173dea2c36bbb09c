use rs_pedalboard::parameter_updates::{
    copy_value, set_parameter_value, Direction, PlainParameter, PlainRange, PlainUpdate, PlainValue,
};
use rs_pedalboard::parameters::value_display_number;

/// The value a display string is typed back as: its number, read as a fraction when the string
/// is a percentage.
fn parse_value_display_string(text: &str) -> Option<f64> {
    let (number, percent) = value_display_number(text);
    let number: f64 = number.parse().ok()?;
    if percent {
        Some(number / 100.0)
    } else {
        Some(number)
    }
}

#[test]
fn a_value_display_string_is_parsed_back_into_its_value() {
    assert_eq!(parse_value_display_string("6000.0 Hz"), Some(6000.0));
    assert_eq!(parse_value_display_string("+6.0 dB"), Some(6.0));
    assert_eq!(parse_value_display_string("-5 st"), Some(-5.0));
    assert_eq!(parse_value_display_string("1.50x"), Some(1.5));
    assert_eq!(parse_value_display_string("512 samples"), Some(512.0));
    assert_eq!(parse_value_display_string("4.0:1"), Some(4.0));
    assert_eq!(parse_value_display_string("50%"), Some(0.5));
    assert_eq!(parse_value_display_string("100%"), Some(1.0));
    assert_eq!(parse_value_display_string("0.50"), Some(0.5));
    assert_eq!(parse_value_display_string("Off"), None);
    assert_eq!(parse_value_display_string(""), None);
}

#[test]
fn the_number_of_a_display_string_is_read_after_leading_white_space() {
    assert_eq!(value_display_number("  \t12.5 dB"), ("12.5".to_string(), false));
    assert_eq!(value_display_number("\u{2003}7 st"), ("7".to_string(), false));
    assert_eq!(value_display_number("Off"), (String::new(), false));
    assert_eq!(value_display_number("x 50%"), (String::new(), true));
    assert_eq!(value_display_number("3-4+5.6k"), ("3-4+5.6".to_string(), false));
}

fn int_parameter(value: i16, min: i16, max: i16) -> PlainParameter {
    PlainParameter { value: PlainValue::Int(value), min: Some(PlainValue::Int(min)), max: Some(PlainValue::Int(max)) }
}

fn switch(on: bool) -> PlainParameter {
    PlainParameter { value: PlainValue::Bool(on), min: None, max: None }
}

fn as_int(value: Option<PlainValue>) -> Option<i16> {
    match value {
        Some(PlainValue::Int(i)) => Some(i),
        _ => None,
    }
}

fn as_bool(value: Option<PlainValue>) -> Option<bool> {
    match value {
        Some(PlainValue::Bool(b)) => Some(b),
        _ => None,
    }
}

fn as_text(value: Option<PlainValue>) -> Option<String> {
    match value {
        Some(PlainValue::Text(t)) => Some(t),
        _ => None,
    }
}

#[test]
fn a_relative_update_steps_a_whole_number_within_its_range() {
    let parameter = int_parameter(5, 0, 10);
    let mut up = PlainUpdate::Relative(Direction::Up, 3, None);
    assert_eq!(as_int(up.apply_to_parameter(&parameter)), Some(8));
    // The range the update moves over is filled in from the parameter
    assert!(matches!(up, PlainUpdate::Relative(Direction::Up, 3, Some(PlainRange { min: PlainValue::Int(0), max: PlainValue::Int(10) }))));

    let mut far = PlainUpdate::Relative(Direction::Up, 20, None);
    assert_eq!(as_int(far.apply_to_parameter(&parameter)), Some(10));
    let mut down = PlainUpdate::Relative(Direction::Down, 7, None);
    assert_eq!(as_int(down.apply_to_parameter(&parameter)), Some(0));

    // No movement is no change
    let mut still = PlainUpdate::Relative(Direction::Still, 1, None);
    assert!(still.apply_to_parameter(&parameter).is_none());
}

#[test]
fn a_switch_moves_to_the_end_of_its_range_the_update_points_at() {
    let mut up = PlainUpdate::Relative(Direction::Up, 1, None);
    assert_eq!(as_bool(up.apply_to_parameter(&switch(false))), Some(true));
    let mut down = PlainUpdate::Relative(Direction::Down, 1, None);
    assert_eq!(as_bool(down.apply_to_parameter(&switch(true))), Some(false));
}

#[test]
fn a_flip_flop_update_toggles_a_switch_and_a_whole_number() {
    let mut flip = PlainUpdate::FlipFlop(None);
    assert_eq!(as_bool(flip.apply_to_parameter(&switch(true))), Some(false));
    let mut flip = PlainUpdate::FlipFlop(None);
    assert_eq!(as_bool(flip.apply_to_parameter(&switch(false))), Some(true));

    let mut flip = PlainUpdate::FlipFlop(None);
    assert_eq!(as_int(flip.apply_to_parameter(&int_parameter(2, 0, 10))), Some(10));
    let mut flip = PlainUpdate::FlipFlop(None);
    assert_eq!(as_int(flip.apply_to_parameter(&int_parameter(5, 0, 10))), Some(0));
}

#[test]
fn a_text_without_a_range_cannot_be_moved() {
    let text = PlainParameter { value: PlainValue::Text("a".to_string()), min: None, max: None };
    let mut flip = PlainUpdate::FlipFlop(None);
    assert!(flip.apply_to_parameter(&text).is_none());
    assert!(matches!(flip, PlainUpdate::FlipFlop(None)));

    // With a range handed to it, a flip-flop moves it to the other end
    let range = PlainRange { min: PlainValue::Text("a".to_string()), max: PlainValue::Text("b".to_string()) };
    let mut flip = PlainUpdate::FlipFlop(Some(range));
    assert_eq!(as_text(flip.apply_to_parameter(&text)), Some("b".to_string()));
}

#[test]
fn an_absolute_value_is_taken_only_when_it_is_allowed() {
    let parameter = int_parameter(5, 0, 10);
    let mut inside = PlainUpdate::Absolute(PlainValue::Int(7));
    assert_eq!(as_int(inside.apply_to_parameter(&parameter)), Some(7));
    let mut outside = PlainUpdate::Absolute(PlainValue::Int(11));
    assert!(outside.apply_to_parameter(&parameter).is_none());
    let mut text = PlainUpdate::Absolute(PlainValue::Text("x".to_string()));
    assert_eq!(as_text(text.apply_to_parameter(&parameter)), Some("x".to_string()));
    assert!(parameter.is_valid(&PlainValue::Int(0)));
    assert!(!parameter.is_valid(&PlainValue::Int(-1)));
}

#[test]
fn a_parameter_takes_a_value_only_when_it_has_one_of_that_name_and_the_value_is_allowed() {
    let mut parameters = vec![
        ("Drive".to_string(), int_parameter(5, 0, 10)),
        ("Active".to_string(), switch(true)),
    ];
    assert!(set_parameter_value(&mut parameters, "Drive", PlainValue::Int(7)));
    assert_eq!(as_int(Some(copy_value(&parameters[0].1.value))), Some(7));
    assert!(!set_parameter_value(&mut parameters, "Drive", PlainValue::Int(11)));
    assert_eq!(as_int(Some(copy_value(&parameters[0].1.value))), Some(7));
    assert!(!set_parameter_value(&mut parameters, "Tone", PlainValue::Int(1)));
    assert!(set_parameter_value(&mut parameters, "Active", PlainValue::Bool(false)));
    assert_eq!(as_bool(Some(copy_value(&parameters[1].1.value))), Some(false));
    assert_eq!(parameters.len(), 2);
}

#[test]
fn white_space_is_what_std_calls_white_space() {
    for code in (0u32..0x3100).chain([0xFEFF, 0x10FFFF]) {
        let Some(c) = char::from_u32(code) else { continue };
        let text = format!("{c}7");
        let (number, _) = value_display_number(&text);
        let expected = if c.is_whitespace() {
            "7".to_string()
        } else if c.is_ascii_digit() || c == '.' || c == '-' || c == '+' {
            text.clone()
        } else {
            String::new()
        };
        assert_eq!(number, expected, "U+{code:04X}");
    }
}
