//! Outbound command encoder.
//!
//! Builds the one outbound message shape the gateway sends: the
//! standard "send message" command, eight bytes on the wire.  Also
//! computes the device brightness byte from a caller-supplied percent
//! level.

use vstd::prelude::*;

use crate::insteon_structs::{MSG_BEGIN, SEND_STANDARD_MSG};

verus! {

/// Message-type bits of the flags byte for a direct message.
pub const DIRECT_MSG: u8 = 0x00;

/// Extended-length bit of the flags byte left clear: standard length.
pub const STANDARD_LENGTH: u8 = 0x00;

/// Hops-remaining field of the flags byte set to three.
pub const MSG_REMAINING_3: u8 = 0x0C;

/// Retransmit field of the flags byte set to three.
pub const RETRANSMIT_3: u8 = 0x03;

/// Flags byte of every outbound command the gateway builds: a direct,
/// standard-length message with three hops and three retransmits.
pub const DEFAULT_SEND_FLAGS: u8 = DIRECT_MSG | STANDARD_LENGTH | MSG_REMAINING_3 | RETRANSMIT_3;

/// The wire bytes of a "send standard message" command: start marker,
/// its opcode, the three target address bytes verbatim, then the flags
/// and the two command bytes.
pub open spec fn send_frame(addr_to: Seq<u8>, flags: u8, cmd1: u8, cmd2: u8) -> Seq<u8> {
    seq![MSG_BEGIN, SEND_STANDARD_MSG] + addr_to + seq![flags, cmd1, cmd2]
}

/// Builds the eight wire bytes of a "send standard message" command.
pub fn encode_send(addr_to: &[u8; 3], flags: u8, cmd1: u8, cmd2: u8) -> (out: Vec<u8>)
    ensures
        out@ == send_frame(addr_to@, flags, cmd1, cmd2),
        out@.len() == 8,
{
    let out = vec![
        MSG_BEGIN,
        SEND_STANDARD_MSG,
        addr_to[0],
        addr_to[1],
        addr_to[2],
        flags,
        cmd1,
        cmd2,
    ];
    proof {
        assert(out@ =~= send_frame(addr_to@, flags, cmd1, cmd2));
    }
    out
}

/// The brightness byte for a percent level: `level / 100` of the full
/// byte range, rounded to the nearest value (half rounds up).
pub open spec fn brightness_of(level: int) -> int {
    (level * 255 + 50) / 100
}

/// Scales a percent level (0 through 100) to the device's brightness
/// byte, rounding to the nearest value.
pub fn brightness_from_level(level: u8) -> (b: u8)
    requires
        level <= 100,
    ensures
        b == brightness_of(level as int),
{
    (((level as u32) * 255 + 50) / 100) as u8
}

} // verus!
