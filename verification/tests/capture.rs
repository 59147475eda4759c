use os3000::capture::{
    error_status, next_action, process_waveform_frames, CaptureConfig, CycleAction, ScopeStatus,
};
use os3000::channels::Channel;
use os3000::condition::ValueUnitPair;
use os3000::errors::OscilloscopeError;

fn base_config() -> CaptureConfig {
    CaptureConfig {
        do_capture: false,
        open_port: false,
        two_stopbits: false,
        do_s1: false,
        do_ro: false,
        do_ri: false,
        port_name: String::from("/dev/ttyUSB0"),
        channel: Channel::DISPLAY1,
        baudrate: 9600,
    }
}

#[test]
fn closed_port_is_idle() {
    let mut config = base_config();
    config.do_capture = true;
    config.do_ri = true;
    assert_eq!(next_action(&config), CycleAction::Idle);
}

#[test]
fn open_port_without_capture_holds() {
    let mut config = base_config();
    config.open_port = true;
    assert_eq!(next_action(&config), CycleAction::Hold);
    config.do_capture = true;
    assert_eq!(next_action(&config), CycleAction::Hold);
}

#[test]
fn sub_commands_select_their_paths() {
    let mut config = base_config();
    config.open_port = true;
    config.do_capture = true;
    config.do_s1 = true;
    assert_eq!(next_action(&config), CycleAction::TestConnection);
    config.do_s1 = false;
    config.do_ri = true;
    assert_eq!(next_action(&config), CycleAction::ReadWaveform);
    config.do_ri = false;
    config.do_ro = true;
    assert_eq!(next_action(&config), CycleAction::ReadConditions);
}

#[test]
fn errors_map_to_statuses() {
    assert_eq!(error_status(&OscilloscopeError::S1Failure), ScopeStatus::TestFailed);
    assert_eq!(error_status(&OscilloscopeError::RiError), ScopeStatus::WaveformFailed);
    assert_eq!(error_status(&OscilloscopeError::RoError), ScopeStatus::ConditionsFailed);
    assert_eq!(error_status(&OscilloscopeError::WriteError), ScopeStatus::UnknownError);
}

#[test]
fn error_messages() {
    assert_eq!(OscilloscopeError::RiError.message(), "capture error");
    assert_eq!(OscilloscopeError::S1Failure.message(), "S1 failure");
    assert_eq!(OscilloscopeError::WriteError.message(), "write error");
    assert_eq!(OscilloscopeError::RoError.message(), "measurement condition error");
}

#[test]
fn default_pair_is_empty() {
    let p = ValueUnitPair::default();
    assert_eq!(p.value_centi, 0);
    assert_eq!(p.unit_mult, 0);
    assert_eq!(p.unit_name, "");
}

/// A full waveform frame: 14 header bytes, the data bytes, one terminator.
fn flat_frame(sample: u8) -> Vec<u8> {
    let mut frame: Vec<u8> = vec![0x20; 14];
    frame.extend(std::iter::repeat(sample).take(1000));
    frame.push(0x0D);
    frame
}

#[test]
fn waveform_path_on_flat_trace() {
    // scenario: every data byte on the zero line, scales 1ms and 5mV
    let cond = String::from(",,,1ms,,,,5mV,,,,,");
    let frame = flat_frame(128);
    assert_eq!(frame.len(), 1015);
    let (samples, time_unit, voltage_unit) =
        process_waveform_frames(&cond, &frame, 0, 1000).unwrap();
    assert_eq!(samples.len(), 986);
    assert!(samples.iter().all(|&v| v == 0));
    assert_eq!(time_unit.value_centi, 100);
    assert_eq!(time_unit.unit_name, "ms");
    assert_eq!(voltage_unit.value_centi, 500);
    assert_eq!(voltage_unit.unit_name, "mV");
    // the voltage scaling that follows keeps every sample at exactly 0.0
    let value = voltage_unit.value_centi as f64 / 100.0;
    let volts: Vec<f64> = samples.iter().map(|&v| v as f64 * (value / 25.0)).collect();
    assert!(volts.iter().all(|&v| v == 0.0));
}

#[test]
fn waveform_path_reports_the_failed_stage() {
    let frame = flat_frame(128);
    // a conditions record that does not decode is a conditions error
    assert!(matches!(
        process_waveform_frames(&String::from("a,b"), &frame, 0, 1000),
        Err(OscilloscopeError::RoError)
    ));
    // a short frame is a waveform error
    let cond = String::from(",,,1ms,,,,5mV,,,,,");
    let short: Vec<u8> = vec![0; 100];
    assert!(matches!(
        process_waveform_frames(&cond, &short, 0, 1000),
        Err(OscilloscopeError::RiError)
    ));
}
