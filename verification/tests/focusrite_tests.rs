use focusrite_watch::compat::deserialize_naive_date_timestamp;
use focusrite_watch::focusrite::{
    AdatInput, AnalogInput, AnalogInputMode, AnalogOutput, Device, DeviceClocking, DeviceInputs,
    DeviceMonitoring, DeviceOutputs, DeviceSettings, FocusriteProfile, Input, LoopbackOutput,
    Output, PlaybackInput, RecordOutput, RecordOutputs, SpdifRcaInput, SpdifRcaOutput,
};

fn analog_output(source: Option<&str>) -> Output {
    Output::Analog(AnalogOutput {
        stereo: true,
        mute: false,
        source: source.map(|s| s.to_string()),
        nickname: String::new(),
        gain: -16,
        hardware_control: true,
    })
}

fn sample_outputs() -> DeviceOutputs {
    DeviceOutputs {
        v: vec![
            analog_output(Some("Mix A")),
            analog_output(None),
            Output::SpdifRca(SpdifRcaOutput {
                stereo: true,
                mute: false,
                source: Some("Playback 1".to_string()),
                nickname: String::new(),
            }),
            Output::Loopback(LoopbackOutput {
                stereo: true,
                mute: false,
                source: None,
                nickname: String::new(),
            }),
        ],
    }
}

fn sample_record_outputs() -> RecordOutputs {
    RecordOutputs::new(vec![
        RecordOutput { hardware_input: Some(0), hardware_input_m: Some(0), hardware_input_h: Some(0) },
        RecordOutput { hardware_input: None, hardware_input_m: None, hardware_input_h: None },
    ])
}

fn sample_inputs() -> DeviceInputs {
    DeviceInputs::new(vec![
        Input::Analog(AnalogInput {
            nickname: String::new(),
            air: Some(false),
            pad: Some(false),
            mode: Some(AnalogInputMode::Line),
        }),
        Input::Analog(AnalogInput { nickname: String::new(), air: None, pad: None, mode: None }),
        Input::SpdifRca(SpdifRcaInput { nickname: String::new() }),
        Input::Adat(AdatInput { nickname: String::new() }),
        Input::Playback(PlaybackInput { nickname: String::new() }),
    ])
}

fn sample_device() -> Device {
    Device::new(
        deserialize_naive_date_timestamp(1688712542).unwrap(),
        sample_outputs(),
        sample_record_outputs(),
        sample_inputs(),
        DeviceSettings { spdif_mode: Some("RCA".to_string()), phantom_persistence: Some(true) },
        DeviceClocking {},
        DeviceMonitoring { preset: Some("1-2".to_string()) },
    )
}

#[test]
fn profile_parts_are_reachable() {
    let profile: FocusriteProfile = sample_device();
    assert_eq!(2, profile.record_outputs().len());
    assert_eq!(4, profile.outputs().len());
    assert_eq!(5, profile.inputs().len());
    assert_eq!(profile.outputs()[1], analog_output(None));
    assert_eq!(profile.record_outputs()[0].hardware_input, Some(0));
    assert_eq!(profile.record_outputs()[0].hardware_input_m, Some(0));
    assert_eq!(profile.record_outputs()[0].hardware_input_h, Some(0));
    assert_eq!(profile.record_outputs()[1].hardware_input, None);
    assert_eq!(profile.timestamp.timestamp(), 1688712542);
    assert_eq!(profile.settings.spdif_mode.as_deref(), Some("RCA"));
    assert_eq!(profile.monitoring.preset.as_deref(), Some("1-2"));
}

#[test]
fn containers_deref_to_their_items() {
    let outputs = sample_outputs();
    assert_eq!(outputs.len(), 4);
    let records = sample_record_outputs();
    assert_eq!(records.len(), 2, "Failed to deserialize two child record output items.");
    let inputs = sample_inputs();
    assert_eq!(inputs.len(), 5);
    assert!(matches!(inputs[3], Input::Adat(_)));
    assert_eq!(inputs.into_vec().len(), 5);
    assert_eq!(records.into_vec()[0].hardware_input, Some(0));
}

#[test]
fn parts_round_trip() {
    let d = sample_device();
    let (t, o, r, i, s, c, m) = sample_device().into_parts();
    assert_eq!(Device::new(t, o, r, i, s, c, m), d);
}
