use rs_pedalboard::eq_presets::{
    band_freq_hz, band_name, fit_saved_bands, EqPresets, GraphicEqSettings, BAND_COUNT,
};

const INITIAL_GAIN: f32 = 0.0;
const INITIAL_BANDWIDTH: f32 = 1.05;

type Bands = (Vec<f32>, Vec<f32>);

fn flat() -> Bands {
    (vec![INITIAL_GAIN; BAND_COUNT], vec![INITIAL_BANDWIDTH; BAND_COUNT])
}

/// A set of EQs named after the order they were added in
fn presets(names: &[&str]) -> EqPresets<Bands> {
    let mut presets = EqPresets::default();

    for name in names {
        presets.add(name.to_string(), flat());
    }

    presets
}

/// The bands the editor has, with the given bands at the low end of the range and the bands
/// beyond them left at `fill`
fn bands_with(bands: &[f32], fill: f32) -> Vec<f32> {
    let mut all = vec![fill; BAND_COUNT];
    all[..bands.len()].copy_from_slice(bands);
    all
}

/// The numbers a saved EQ holds under `key`, if it holds any
fn saved_numbers(json: &str, key: &str) -> Option<Vec<f32>> {
    let value: serde_json::Value = serde_json::from_str(json).expect("Failed to load EQ");
    value.get(key).map(|numbers| {
        numbers
            .as_array()
            .expect("bands are saved as a list")
            .iter()
            .map(|n| n.as_f64().expect("a band is a number") as f32)
            .collect()
    })
}

/// A saved EQ: its name, and its gains and bandwidths read into the bands the editor has
fn load(json: &str) -> GraphicEqSettings<Bands> {
    let value: serde_json::Value = serde_json::from_str(json).expect("Failed to load EQ");
    let name = value.get("name").and_then(|n| n.as_str()).unwrap_or_default().to_string();
    let gains = saved_numbers(json, "gains").unwrap_or_default();
    let bandwidths = saved_numbers(json, "bandwidths").unwrap_or_default();
    GraphicEqSettings::new(
        name,
        (
            fit_saved_bands(&gains, INITIAL_GAIN),
            fit_saved_bands(&bandwidths, INITIAL_BANDWIDTH),
        ),
    )
}

#[test]
fn the_eq_that_is_applied_is_always_one_of_the_eqs_that_are_kept() {
    // A new EQ is given a name no other EQ is using, and is applied as soon as it is created
    let mut eqs: EqPresets<Bands> = EqPresets::default();

    let first = eqs.add(eqs.unused_name(), flat());
    assert_eq!(eqs.selected, Some(first));
    assert_eq!(eqs.selected_eq().unwrap().name, "EQ 1");

    // Renaming the first EQ to the name a second one would have been given keeps the two
    // apart, as the dropdown is the only place an EQ can be told apart
    assert!(eqs.rename(first, "EQ 2".to_string()));

    let second = eqs.add(eqs.unused_name(), flat());
    assert_eq!(eqs.selected, Some(second));
    assert_eq!(eqs.selected_eq().unwrap().name, "EQ 3");

    // Deleting the applied EQ applies the one that takes its place, and deleting one before
    // the applied EQ leaves it applied
    let mut eqs = presets(&["A", "B", "C"]);
    eqs.select(Some(1));

    assert!(eqs.remove(1));
    assert_eq!(eqs.selected_eq().unwrap().name, "C");

    assert!(eqs.remove(0));
    assert_eq!(eqs.selected, Some(0));
    assert_eq!(eqs.selected_eq().unwrap().name, "C");

    // Deleting the last EQ leaves none applied
    assert!(eqs.remove(0));
    assert_eq!(eqs.selected, None);
    assert!(eqs.selected_eq().is_none());
    assert!(eqs.selected_eq_mut().is_none());

    // Deleting an EQ that is not there, or renaming one that is not there, leaves the EQs and
    // the one that is applied alone
    let mut eqs = presets(&["A"]);

    assert!(!eqs.remove(1));
    assert!(!eqs.rename(1, "Renamed".to_string()));
    assert_eq!(eqs.eqs[0].name, "A");
    assert_eq!(eqs.selected_eq().unwrap().name, "A");

    // A selection that is not one of the EQs applies nothing, whether it was left over from a
    // saved file or made by no EQ being chosen
    eqs.select(Some(7));
    assert_eq!(eqs.selected, None);
    assert!(eqs.selected_eq().is_none());

    eqs.select(None);
    assert!(eqs.selected_eq().is_none());
}

#[test]
fn an_eq_saved_by_an_older_editor_still_loads() {
    // An EQ saved before a field existed is loaded with the default for it
    let settings = load(r#"{"name": "Old"}"#);
    assert_eq!(settings.name, "Old");
    let (gains, bandwidths) = settings.bands;
    assert_eq!(gains, vec![INITIAL_GAIN; BAND_COUNT]);
    assert_eq!(bandwidths, vec![INITIAL_BANDWIDTH; BAND_COUNT]);

    // The EQ holds as many bands as the editor had when it was saved, so the bands it holds
    // are read into the bands at the low end of the range.
    let (gains, _) = load(
        r#"{"name": "Old", "gains": [1,2,3,4,5,6,7], "low_shelf": false, "high_shelf": false}"#,
    )
    .bands;
    assert_eq!(
        gains,
        bands_with(&[1.0, 2.0, 3.0, 4.0, 5.0, 6.0, 7.0], INITIAL_GAIN)
    );

    // An EQ saved with fewer bands than the editor has now is read into the bands at the low
    // end of the range, and one saved with more than it has now is read into as many bands as
    // the editor has, keeping the bands at the low end of the range
    let (gains, bandwidths) = load(r#"{"name": "Old", "gains": [1,2,3], "bandwidths": [1.2]}"#).bands;
    assert_eq!(gains, bands_with(&[1.0, 2.0, 3.0], INITIAL_GAIN));
    assert_eq!(bandwidths, bands_with(&[1.2], INITIAL_BANDWIDTH));

    let (gains, bandwidths) = load(
        r#"{"name": "Newer", "gains": [1,2,3,4,5,6,7,8,9,10,11,12], "bandwidths": [1,1,1,1,1,1,1,1,1,1,1,1]}"#,
    )
    .bands;
    assert_eq!(
        gains,
        vec![1.0, 2.0, 3.0, 4.0, 5.0, 6.0, 7.0, 8.0, 9.0, 10.0]
    );
    assert_eq!(bandwidths, vec![1.0; BAND_COUNT]);

    // An EQ saved holding no bands at all is left at the defaults rather than failing to load
    let (gains, bandwidths) = load(r#"{"name": "Empty", "gains": []}"#).bands;
    assert_eq!(gains, vec![INITIAL_GAIN; BAND_COUNT]);
    assert_eq!(bandwidths, vec![INITIAL_BANDWIDTH; BAND_COUNT]);

    // A selection left over from a saved file that holds no EQ, or names one that is not in it,
    // applies nothing rather than a setting that is not there
    let eqs: EqPresets<Bands> = EqPresets {
        eqs: Vec::new(),
        selected: Some(3),
    };
    assert!(eqs.selected_eq().is_none());
}

#[test]
fn an_unused_name_skips_every_name_in_use() {
    let eqs = presets(&["EQ 3", "EQ 4", "x"]);
    assert_eq!(eqs.unused_name(), "EQ 5");

    let eqs = presets(&["EQ 2", "EQ 3"]);
    assert_eq!(eqs.unused_name(), "EQ 4");

    let eqs = presets(&["EQ 10", "EQ 1"]);
    assert_eq!(eqs.unused_name(), "EQ 3");

    let eqs: EqPresets<Bands> = EqPresets::new();
    assert_eq!(eqs.unused_name(), "EQ 1");
}

#[test]
fn removing_an_eq_after_the_applied_one_keeps_it_applied() {
    let mut eqs = presets(&["A", "B", "C"]);
    eqs.select(Some(0));
    assert!(eqs.remove(2));
    assert_eq!(eqs.selected, Some(0));
    assert_eq!(eqs.eqs.len(), 2);

    let mut eqs = presets(&["A", "B", "C"]);
    eqs.select(None);
    assert!(eqs.remove(0));
    assert_eq!(eqs.selected, None);
}

#[test]
fn the_applied_eq_can_be_changed_in_place() {
    let mut eqs = presets(&["A", "B"]);
    eqs.select(Some(0));
    eqs.selected_eq_mut().unwrap().bands.0[3] = 6.0;
    assert_eq!(eqs.eqs[0].bands.0[3], 6.0);
    assert_eq!(eqs.eqs[1].bands, flat());

    // Renaming keeps the bands
    assert!(eqs.rename(0, "Boost".to_string()));
    assert_eq!(eqs.eqs[0].name, "Boost");
    assert_eq!(eqs.eqs[0].bands.0[3], 6.0);
}

#[test]
fn bands_are_named_in_hz_and_khz() {
    let names: Vec<String> = (0..BAND_COUNT).map(band_name).collect();
    assert_eq!(
        names,
        vec![
            "32 Hz", "64 Hz", "125 Hz", "250 Hz", "500 Hz", "1.0 kHz", "2.0 kHz", "4.0 kHz",
            "8.0 kHz", "16.0 kHz"
        ]
    );
    assert_eq!(band_freq_hz(0), 32);
    assert_eq!(band_freq_hz(9), 16000);
}
