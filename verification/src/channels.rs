use vstd::prelude::*;

verus! {

/// An input channel of the instrument. The wire protocol addresses the two
/// display channels and the two save channels by the digits 1 to 4.
#[allow(non_camel_case_types)]
#[derive(Clone, Copy, Debug, PartialEq, Eq, Structural)]
pub enum Channel {
    DISPLAY1,
    DISPLAY2,
    SAVE1,
    SAVE2,
}

impl Channel {
    /// The protocol-level number of the channel.
    pub open spec fn spec_number(self) -> u8 {
        match self {
            Channel::DISPLAY1 => 1,
            Channel::DISPLAY2 => 2,
            Channel::SAVE1 => 3,
            Channel::SAVE2 => 4,
        }
    }

    /// The ASCII digit that names the channel inside a command.
    pub open spec fn spec_digit_byte(self) -> u8 {
        (48 + self.spec_number()) as u8
    }

    pub fn number(self) -> (n: u8)
        ensures
            n == self.spec_number(),
    {
        match self {
            Channel::DISPLAY1 => 1,
            Channel::DISPLAY2 => 2,
            Channel::SAVE1 => 3,
            Channel::SAVE2 => 4,
        }
    }
}

} // verus!
