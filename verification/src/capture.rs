use vstd::prelude::*;

use crate::channels::Channel;
use crate::condition::{get_scale_units, parse_unit_spec, split_fields, ValueUnitPair};
use crate::errors::OscilloscopeError;
use crate::processing::{center_waveform_data, centered};
use crate::protocol::{extract_waveform_payload, spec_waveform_frame_ok};
use vstd::utf8::encode_utf8;

verus! {

/// Pure progress signal of the capture loop, reported to the display layer;
/// it carries no payload and the most recent value wins.
#[derive(Clone, Copy, Debug, PartialEq, Eq, Structural)]
pub enum ScopeStatus {
    Idle,
    TestingConnection,
    TestFailed,
    TestOk,
    GettingConditions,
    ConditionsFailed,
    GettingWaveform,
    WaveformFailed,
    WaveformOk,
    UnknownError,
}

/// Snapshot of the shared capture configuration: run flags, the selected
/// sub-command, port parameters and the target channel. The foreground owns
/// the live copy and mutates it so that at most one of the three
/// sub-command flags is set; the worker acts on a clone of it each cycle.
#[derive(Clone, Debug)]
pub struct CaptureConfig {
    pub do_capture: bool,
    pub open_port: bool,
    pub two_stopbits: bool,
    pub do_s1: bool,
    pub do_ro: bool,
    pub do_ri: bool,
    pub port_name: String,
    pub channel: Channel,
    pub baudrate: u32,
}

/// What the worker does with one configuration snapshot: sleep and report
/// idle, hold the port open without a command, or run one of the three
/// command paths.
#[derive(Clone, Copy, Debug, PartialEq, Eq, Structural)]
pub enum CycleAction {
    Idle,
    Hold,
    TestConnection,
    ReadConditions,
    ReadWaveform,
}

/// The decision at the top of each worker cycle, from the configuration
/// snapshot alone. The sub-commands are consulted in the worker's order:
/// the connection test first, then the waveform path, then conditions.
pub fn next_action(config: &CaptureConfig) -> (a: CycleAction)
    ensures
        a is Idle <==> !config.open_port,
        a is TestConnection <==> config.open_port && config.do_capture && config.do_s1,
        a is ReadWaveform <==> config.open_port && config.do_capture && !config.do_s1
            && config.do_ri,
        a is ReadConditions <==> config.open_port && config.do_capture && !config.do_s1
            && !config.do_ri && config.do_ro,
        a is Hold <==> config.open_port && (!config.do_capture || (!config.do_s1 && !config.do_ri
            && !config.do_ro)),
{
    if !config.open_port {
        CycleAction::Idle
    } else if !config.do_capture {
        CycleAction::Hold
    } else if config.do_s1 {
        CycleAction::TestConnection
    } else if config.do_ri {
        CycleAction::ReadWaveform
    } else if config.do_ro {
        CycleAction::ReadConditions
    } else {
        CycleAction::Hold
    }
}

/// The status value reported for a failed cycle, by the stage that failed.
pub fn error_status(e: &OscilloscopeError) -> (s: ScopeStatus)
    ensures
        e is S1Failure ==> s is TestFailed,
        e is RiError ==> s is WaveformFailed,
        e is RoError ==> s is ConditionsFailed,
        e is WriteError ==> s is UnknownError,
{
    match *e {
        OscilloscopeError::S1Failure => ScopeStatus::TestFailed,
        OscilloscopeError::RiError => ScopeStatus::WaveformFailed,
        OscilloscopeError::RoError => ScopeStatus::ConditionsFailed,
        OscilloscopeError::WriteError => ScopeStatus::UnknownError,
    }
}

/// Whether a conditions record decodes into its two scale units.
pub open spec fn spec_scale_units_ok(cond: Seq<char>) -> bool {
    let fields = split_fields(encode_utf8(cond));
    fields.len() >= 12 && parse_unit_spec(fields[3]) is Some && parse_unit_spec(fields[7]) is Some
}

/// The compute tail of the waveform path, once the conditions text and the
/// waveform frame have been read: decode the two scale units, validate the
/// frame and strip header, terminator and tail, and center the samples on
/// the 128 zero line. A bad conditions record is a conditions error; a bad
/// frame is a waveform error. The remaining per-sample voltage scaling is a
/// floating-point multiplication left to the caller.
pub fn process_waveform_frames(
    condition_string: &String,
    frame: &Vec<u8>,
    start_address: u32,
    end_address: u32,
) -> (r: Result<(Vec<i16>, ValueUnitPair, ValueUnitPair), OscilloscopeError>)
    requires
        start_address <= end_address,
        end_address <= 9999,
    ensures
        r is Ok <==> spec_scale_units_ok(condition_string@) && spec_waveform_frame_ok(
            frame@,
            start_address,
            end_address,
        ),
        r matches Ok((samples, t, v)) ==> {
            let fields = split_fields(encode_utf8(condition_string@));
            &&& parse_unit_spec(fields[3]) == Some(t@)
            &&& parse_unit_spec(fields[7]) == Some(v@)
            &&& samples@.len() == end_address - 14
            &&& forall|k: int| 0 <= k < samples@.len() ==> samples@[k] == centered(frame@[14 + k])
        },
        r matches Err(e) ==> e == if !spec_scale_units_ok(condition_string@) {
            OscilloscopeError::RoError
        } else {
            OscilloscopeError::RiError
        },
{
    let (time_unit, voltage_unit) = match get_scale_units(condition_string) {
        Ok(p) => p,
        Err(_) => {
            return Err(OscilloscopeError::RoError);
        },
    };
    let payload = match extract_waveform_payload(frame, start_address, end_address) {
        Ok(p) => p,
        Err(_) => {
            return Err(OscilloscopeError::RiError);
        },
    };
    let samples = center_waveform_data(&payload);
    Ok((samples, time_unit, voltage_unit))
}

} // verus!
