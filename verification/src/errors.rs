use vstd::prelude::*;

verus! {

/// Stage-specific failure of one command of a capture cycle: a failed
/// connection test, a transmit failure, a bad waveform frame, or a bad
/// conditions frame.
#[derive(Clone, Copy, Debug, PartialEq, Eq, Structural)]
pub enum OscilloscopeError {
    S1Failure,
    WriteError,
    RiError,
    RoError,
}

impl OscilloscopeError {
    /// The diagnostic text shown for this error.
    pub open spec fn spec_message(&self) -> Seq<char> {
        match *self {
            OscilloscopeError::RiError => "capture error"@,
            OscilloscopeError::S1Failure => "S1 failure"@,
            OscilloscopeError::WriteError => "write error"@,
            OscilloscopeError::RoError => "measurement condition error"@,
        }
    }

    pub fn message(&self) -> (r: String)
        ensures
            r@ == self.spec_message(),
    {
        match *self {
            OscilloscopeError::RiError => String::from_str("capture error"),
            OscilloscopeError::S1Failure => String::from_str("S1 failure"),
            OscilloscopeError::WriteError => String::from_str("write error"),
            OscilloscopeError::RoError => String::from_str("measurement condition error"),
        }
    }
}

} // verus!
