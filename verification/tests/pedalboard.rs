use rs_pedalboard::pedalboard::{
    prefix_pedal_messages, ParameterPath, ParameterSummary, PedalSummary, PedalboardSummary,
    ValueKind,
};
use rs_pedalboard::pedalboard_set::PedalboardSet;

fn float_parameter(name: &str) -> ParameterSummary {
    ParameterSummary {
        name: name.to_string(),
        kind: ValueKind::Float,
        has_min: true,
        has_max: true,
    }
}

fn switch_parameter(name: &str) -> ParameterSummary {
    ParameterSummary {
        name: name.to_string(),
        kind: ValueKind::Bool,
        has_min: false,
        has_max: false,
    }
}

/// The parameters an overdrive pedal is built with.
fn overdrive(id: u32) -> PedalSummary {
    PedalSummary {
        id,
        parameters: vec![
            float_parameter("Drive"),
            float_parameter("Tone"),
            float_parameter("Level"),
            switch_parameter("Active"),
            switch_parameter("Enable EQ"),
        ],
    }
}

fn board(id: u32, pedals: Vec<PedalSummary>) -> PedalboardSummary {
    PedalboardSummary {
        id,
        name: "Test Pedalboard".to_string(),
        pedals,
    }
}

/// The pedal index and parameter name which a knob at `index` controls.
fn knob_target(board: &PedalboardSummary, index: usize) -> Option<(usize, String)> {
    let path = board.sensible_parameter_from_index(index, false)?;
    let pedal_index = board
        .pedals
        .iter()
        .position(|pedal| pedal.id == path.pedal_id)
        .expect("a sensible parameter should belong to a pedal of this pedalboard");

    Some((pedal_index, path.parameter_name))
}

/// The index of the pedal which a footswitch at `index` toggles.
fn toggle_target(board: &PedalboardSummary, index: usize) -> Option<usize> {
    let path = board.sensible_parameter_from_index(index, true)?;
    assert_eq!(path.parameter_name, "Active");

    board.pedals.iter().position(|pedal| pedal.id == path.pedal_id)
}

#[test]
fn the_first_knob_controls_the_first_parameter_worth_controlling() {
    let board = board(7, vec![overdrive(1), overdrive(2)]);

    // The parameters which matter most come first ('Drive', then 'Level', then 'Tone' on an
    // overdrive), and the pedals are visited in the order they are on the pedalboard
    assert_eq!(knob_target(&board, 0), Some((0, "Drive".to_string())));
    assert_eq!(knob_target(&board, 1), Some((0, "Level".to_string())));
    assert_eq!(knob_target(&board, 2), Some((0, "Tone".to_string())));
    assert_eq!(knob_target(&board, 3), Some((1, "Drive".to_string())));
}

#[test]
fn a_footswitch_toggles_a_pedal_which_has_an_active_parameter() {
    // Pedals can be built without an 'Active' parameter, for example by a plugin which
    // doesn't report one
    let mut not_toggleable = overdrive(1);
    not_toggleable.parameters.retain(|p| p.name != "Active");

    let board = board(7, vec![not_toggleable, overdrive(2)]);

    // The pedal without an 'Active' parameter is skipped rather than swallowing an index
    assert_eq!(toggle_target(&board, 0), Some(1));
    assert_eq!(toggle_target(&board, 1), None);
}

#[test]
fn fallback_parameters_follow_the_prioritised_ones_in_sorted_order() {
    let pedal = PedalSummary {
        id: 5,
        parameters: vec![
            float_parameter("Rate"),
            float_parameter("Gain"),
            float_parameter("Depth"),
            ParameterSummary {
                name: "Mode".to_string(),
                kind: ValueKind::String,
                has_min: false,
                has_max: false,
            },
            ParameterSummary {
                name: "Steps".to_string(),
                kind: ValueKind::Int,
                has_min: true,
                has_max: true,
            },
            ParameterSummary {
                name: "Unbounded".to_string(),
                kind: ValueKind::Float,
                has_min: true,
                has_max: false,
            },
            switch_parameter("Active"),
        ],
    };
    let board = board(3, vec![pedal]);
    let parameters = board.sensible_parameters();
    let names: Vec<&str> = parameters.iter().map(|(_, name)| name.as_str()).collect();
    assert_eq!(names, vec!["Gain", "Depth", "Rate", "Steps"]);
    assert!(parameters.iter().all(|(id, _)| *id == 5));

    let path = board.sensible_parameter_from_index(2, false).unwrap();
    assert_eq!(path.pedalboard_id, Some(3));
    assert_eq!(path.pedal_id, 5);
    assert_eq!(path.parameter_name, "Rate");
    assert!(board.sensible_parameter_from_index(4, false).is_none());
}

#[test]
fn prioritised_parameters_of_every_pedal_come_before_any_fallback() {
    let chorus = PedalSummary {
        id: 1,
        parameters: vec![float_parameter("Rate"), float_parameter("Dry/Wet")],
    };
    let fuzz = PedalSummary {
        id: 2,
        parameters: vec![float_parameter("Level"), float_parameter("Bias")],
    };
    let board = board(3, vec![chorus, fuzz]);
    let parameters = board.sensible_parameters();
    assert_eq!(
        parameters,
        vec![
            (1, "Dry/Wet".to_string()),
            (2, "Level".to_string()),
            (1, "Rate".to_string()),
            (2, "Bias".to_string()),
        ]
    );
}

fn path(pedal_id: u32) -> ParameterPath {
    ParameterPath {
        pedalboard_id: None,
        pedal_id,
        parameter_name: "Drive".to_string(),
    }
}

#[test]
fn a_path_resolves_to_the_active_pedalboard_first() {
    let boards = vec![
        board(10, vec![overdrive(1)]),
        board(20, vec![overdrive(1), overdrive(2)]),
        board(30, vec![overdrive(3)]),
    ];
    let mut set = PedalboardSet::from_pedalboards(boards).unwrap();
    set.set_active_pedalboard(1);

    // Pedal 1 is on the active pedalboard and on an earlier one: the active one wins
    let mut shared = path(1);
    assert!(shared.resolve_pedalboard_id(&set));
    assert_eq!(shared.pedalboard_id, Some(20));

    // Pedal 3 is only on the last pedalboard
    let mut elsewhere = path(3);
    assert!(elsewhere.resolve_pedalboard_id(&set));
    assert_eq!(elsewhere.pedalboard_id, Some(30));

    // No pedalboard holds pedal 9
    let mut missing = path(9);
    assert!(!missing.resolve_pedalboard_id(&set));
    assert_eq!(missing.pedalboard_id, None);

    // A path that already names a pedalboard keeps it, and points at a pedalboard in the set
    // only when the set holds one of that identifier
    let mut named = ParameterPath {
        pedalboard_id: Some(10),
        pedal_id: 3,
        parameter_name: "Tone".to_string(),
    };
    assert!(named.resolve_pedalboard_id(&set));
    assert_eq!(named.pedalboard_id, Some(10));

    let mut named_elsewhere = ParameterPath {
        pedalboard_id: Some(99),
        pedal_id: 3,
        parameter_name: "Tone".to_string(),
    };
    assert!(!named_elsewhere.resolve_pedalboard_id(&set));
    assert_eq!(named_elsewhere.pedalboard_id, Some(99));
}

#[test]
fn a_path_falls_back_to_the_first_pedalboard_holding_the_pedal() {
    let boards = vec![
        board(10, vec![overdrive(4)]),
        board(20, vec![overdrive(1)]),
        board(30, vec![overdrive(1)]),
    ];
    let set = PedalboardSet::from_pedalboards(boards).unwrap();
    let mut p = path(1);
    assert!(p.resolve_pedalboard_id(&set));
    assert_eq!(p.pedalboard_id, Some(20));
}

#[test]
fn pedal_messages_are_marked_with_the_pedal() {
    let mut messages = vec!["tuner 440".to_string(), String::new()];
    prefix_pedal_messages(1234, &mut messages);
    assert_eq!(messages, vec!["pedalmsg1234 tuner 440".to_string(), "pedalmsg1234 ".to_string()]);

    let mut none: Vec<String> = Vec::new();
    prefix_pedal_messages(1, &mut none);
    assert!(none.is_empty());

    let mut zero = vec!["x".to_string()];
    prefix_pedal_messages(0, &mut zero);
    assert_eq!(zero, vec!["pedalmsg0 x".to_string()]);
}

#[test]
fn a_pedalboard_reports_its_pedals() {
    let board = board(42, vec![overdrive(1)]);
    assert_eq!(board.get_id(), 42);
    assert!(board.has_pedal(1));
    assert!(!board.has_pedal(2));
}
