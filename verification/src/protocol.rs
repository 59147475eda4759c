use vstd::prelude::*;

use crate::channels::Channel;
use crate::errors::OscilloscopeError;

verus! {

/// Every response frame ends with this terminator byte (ASCII carriage return).
pub const FRAME_TERMINATOR: u8 = 13;

/// A conditions frame is exactly this long, terminator included.
pub const CONDITIONS_FRAME_LEN: usize = 68;

/// A waveform frame starts with this many header bytes.
pub const WAVEFORM_HEADER_LEN: usize = 14;

/// The ASCII digit byte for a decimal digit d.
pub open spec fn spec_digit_byte(d: int) -> u8 {
    (48 + d) as u8
}

/// The decimal digits of n, zero-padded to width four (n at most 9999).
pub open spec fn spec_pad4(n: int) -> Seq<u8> {
    seq![
        spec_digit_byte(n / 1000 % 10),
        spec_digit_byte(n / 100 % 10),
        spec_digit_byte(n / 10 % 10),
        spec_digit_byte(n % 10),
    ]
}

/// Wire text of the connection test command.
pub open spec fn spec_s1_command() -> Seq<char> {
    seq!['S', '1', '\r']
}

/// Wire text of the read-conditions command for a channel.
pub open spec fn spec_ro_command(channel: Channel) -> Seq<char> {
    seq!['R', 'o', '(', channel.spec_digit_byte() as char, ')', '\r']
}

/// Wire text of the read-waveform command for a channel and address range.
pub open spec fn spec_ri_command(channel: Channel, start_address: u32, end_address: u32) -> Seq<
    char,
> {
    seq!['R', channel.spec_digit_byte() as char, '(']
        + spec_pad4(start_address as int).map(|i: int, b: u8| b as char) + seq![',']
        + spec_pad4(end_address as int).map(|i: int, b: u8| b as char) + seq![',', 'B', ')', '\r']
}

/// Relies on String::from_utf8: bytes below 0x80 are valid UTF-8 and decode
/// one-for-one to the chars with the same code points.
#[verifier::external_body]
fn ascii_to_string(bytes: Vec<u8>) -> (r: String)
    requires
        forall|i: int| 0 <= i < bytes@.len() ==> bytes@[i] < 128,
    ensures
        r@.len() == bytes@.len(),
        forall|i: int| 0 <= i < bytes@.len() ==> r@[i] == bytes@[i] as char,
{
    match String::from_utf8(bytes) {
        Ok(s) => s,
        Err(_) => String::new(),
    }
}

/// Appends the four zero-padded decimal digits of n.
fn push_pad4(bytes: &mut Vec<u8>, n: u32)
    requires
        n <= 9999,
    ensures
        final(bytes)@ == old(bytes)@ + spec_pad4(n as int),
{
    bytes.push((48 + (n / 1000 % 10) as u8) as u8);
    bytes.push((48 + (n / 100 % 10) as u8) as u8);
    bytes.push((48 + (n / 10 % 10) as u8) as u8);
    bytes.push((48 + (n % 10) as u8) as u8);
    assert(final(bytes)@ =~= old(bytes)@ + spec_pad4(n as int));
}

/// The connection test command, literally "S1\r".
pub fn make_s1_command() -> (r: String)
    ensures
        r@ == spec_s1_command(),
{
    let r = String::from_str("S1\r");
    proof {
        reveal_strlit("S1\r");
        assert(r@ =~= spec_s1_command());
    }
    r
}

/// Encodes the read-conditions command "Ro(<channel>)\r".
pub fn make_ro_command(channel: Channel) -> (r: String)
    ensures
        r@ == spec_ro_command(channel),
{
    let mut bytes: Vec<u8> = Vec::new();
    bytes.push(82);  // 'R'
    bytes.push(111);  // 'o'
    bytes.push(40);  // '('
    bytes.push(48 + channel.number());
    bytes.push(41);  // ')'
    bytes.push(13);  // '\r'
    let r = ascii_to_string(bytes);
    proof {
        assert(r@ =~= spec_ro_command(channel));
    }
    r
}

/// Encodes the read-waveform command "R<channel>(<start:04>,<end:04>,B)\r",
/// addresses zero-padded to four digits.
pub fn make_ri_command(channel: Channel, start_address: u32, end_address: u32) -> (r: String)
    requires
        start_address <= 9999,
        end_address <= 9999,
    ensures
        r@ == spec_ri_command(channel, start_address, end_address),
{
    let mut bytes: Vec<u8> = Vec::new();
    bytes.push(82);  // 'R'
    bytes.push(48 + channel.number());
    bytes.push(40);  // '('
    push_pad4(&mut bytes, start_address);
    bytes.push(44);  // ','
    push_pad4(&mut bytes, end_address);
    bytes.push(44);  // ','
    bytes.push(66);  // 'B'
    bytes.push(41);  // ')'
    bytes.push(13);  // '\r'
    let r = ascii_to_string(bytes);
    proof {
        assert(r@ =~= spec_ri_command(channel, start_address, end_address));
    }
    r
}

/// Judges a connection-test response: the handshake succeeds iff exactly two
/// bytes came back and the first is ASCII 'A'.
pub fn eval_response(response: &Vec<u8>) -> (r: bool)
    ensures
        r == (response@.len() == 2 && response@[0] == 65),
{
    response.len() == 2 && response[0] == 65
}

/// Validates the length of a conditions frame: it must hold exactly 68 bytes,
/// terminator included; any other length is a conditions-frame error.
pub fn check_conditions_frame(num_read: usize) -> (r: Result<(), OscilloscopeError>)
    ensures
        num_read == CONDITIONS_FRAME_LEN ==> r == Ok::<(), OscilloscopeError>(()),
        num_read != CONDITIONS_FRAME_LEN ==> r == Err::<(), OscilloscopeError>(
            OscilloscopeError::RoError,
        ),
{
    if num_read == CONDITIONS_FRAME_LEN {
        Ok(())
    } else {
        Err(OscilloscopeError::RoError)
    }
}

/// Whether a waveform frame read is acceptable: exactly
/// (end - start) + 15 bytes, and the address window [14, end) must lie inside
/// the frame once the trailing terminator is dropped.
pub open spec fn spec_waveform_frame_ok(frame: Seq<u8>, start_address: u32, end_address: u32) -> bool {
    &&& frame.len() == end_address - start_address + 15
    &&& start_address <= 14
    &&& 14 <= end_address
}

/// Validates a waveform frame and extracts its sample payload: the bytes at
/// addresses [14, end) of the frame, i.e. with the 14-byte header, the
/// trailing terminator and the tail beyond the end address stripped.
pub fn extract_waveform_payload(frame: &Vec<u8>, start_address: u32, end_address: u32) -> (r:
    Result<Vec<u8>, OscilloscopeError>)
    requires
        start_address <= end_address,
        end_address <= 9999,
    ensures
        r is Ok <==> spec_waveform_frame_ok(frame@, start_address, end_address),
        r matches Ok(p) ==> p@ == frame@.subrange(
            WAVEFORM_HEADER_LEN as int,
            end_address as int,
        ),
        r matches Err(e) ==> e == OscilloscopeError::RiError,
{
    let expected: usize = (end_address - start_address) as usize + 15;
    if frame.len() != expected || start_address > 14 || end_address < 14 {
        return Err(OscilloscopeError::RiError);
    }
    let end: usize = end_address as usize;
    let mut payload: Vec<u8> = Vec::new();
    let mut i: usize = WAVEFORM_HEADER_LEN;
    while i < end
        invariant
            WAVEFORM_HEADER_LEN <= i <= end,
            end <= frame@.len(),
            payload@ == frame@.subrange(WAVEFORM_HEADER_LEN as int, i as int),
        decreases end - i,
    {
        payload.push(frame[i]);
        assert(payload@ =~= frame@.subrange(WAVEFORM_HEADER_LEN as int, i + 1));
        i = i + 1;
    }
    Ok(payload)
}

} // verus!
