//! Typed protocol messages and the opcode registry.
//!
//! The registry is the single source of truth for the mapping from a
//! one-byte opcode to the fixed payload length of its message, and for
//! how the payload bytes are assembled into the fields of the typed
//! message.  Addresses and other multi-byte fields are raw byte arrays;
//! byte order on the wire is preserved verbatim, never reinterpreted
//! numerically.

use vstd::prelude::*;

verus! {

/// Every frame on the wire begins with this marker byte.
pub const MSG_BEGIN: u8 = 0x02;

pub const STANDARD_MSG: u8 = 0x50;
pub const EXTENDED_MSG: u8 = 0x51;
pub const X10_RECEIVED: u8 = 0x52;
pub const ALL_LINKING_COMPLETED: u8 = 0x53;
pub const BUTTON_EVENT_REPORT: u8 = 0x54;
pub const USER_RESET_DETECTED: u8 = 0x55;
pub const ALL_LINK_CLEANUP_FAILURE_REPORT: u8 = 0x56;
pub const ALL_LINK_RECORD_RESPONSE: u8 = 0x57;
pub const ALL_LINK_CLEANUP_STATUS_REPORT: u8 = 0x58;
pub const SEND_STANDARD_MSG: u8 = 0x62;

/// One decoded protocol message; one variant per opcode in the
/// registry.  Each variant's wire size is exactly one opcode byte plus
/// the payload length that `payload_size` gives for its opcode.
#[derive(Clone, Copy, Debug, PartialEq)]
pub enum InsteonMsg {
    StandardMsg {
        addr_from: [u8; 3],
        addr_to: [u8; 3],
        msg_flags: u8,
        cmd1: u8,
        cmd2: u8,
    },
    ExtendedMsg {
        addr_from: [u8; 3],
        addr_to: [u8; 3],
        msg_flags: u8,
        cmd1: u8,
        cmd2: u8,
        user_data: [u8; 14],
    },
    X10Received {
        raw_x10: u8,
        x10_flag: u8,
    },
    AllLinkingCompleted {
        link_code: u8,
        all_link_group: u8,
        id: [u8; 3],
        device_category: u8,
        device_subcategory: u8,
        firmware_version: u8,
    },
    ButtonEventReport {
        button_event: u8,
    },
    UserResetDetected {},
    AllLinkCleanupFailureReport {
        x01: u8,
        all_link_group: u8,
        id: [u8; 3],
    },
    AllLinkRecordResponse {
        all_link_record_flags: u8,
        all_link_group: u8,
        id: [u8; 3],
        link_data: [u8; 3],
    },
    AllLinkCleanupStatusReport {
        status_byte: u8,
    },
    SendStandardMsg {
        addr_to: [u8; 3],
        msg_flags: u8,
        cmd1: u8,
        cmd2: u8,
    },
}

/// Device command numbers for the `cmd1` byte of an outbound standard
/// message.
#[derive(Clone, Copy, Debug, PartialEq)]
pub enum Command {
    DataReq,
    InsteonVer,
    IdReq,
    On,
    FastOn,
    Off,
    FastOff,
    BrightStep,
    DimStep,
    StartChange,
    StopChange,
    StatusReq,
    GetOpFlags,
    SetOpFlags,
    SetHiAddr,
    PokeEE,
    PeekEE,
    OnAtRate,
    OffAtRate,
    WriteOutput,
    ReadInput,
    GetSensorVal,
    ReadCfg,
    IoModuleCtrl,
    ThermalZoneInfo,
    SetImCfg,
}

/// The wire byte of each device command.
pub open spec fn command_code(cmd: Command) -> u8 {
    match cmd {
        Command::DataReq => 0x03,
        Command::InsteonVer => 0x0D,
        Command::IdReq => 0x10,
        Command::On => 0x11,
        Command::FastOn => 0x12,
        Command::Off => 0x13,
        Command::FastOff => 0x14,
        Command::BrightStep => 0x15,
        Command::DimStep => 0x16,
        Command::StartChange => 0x17,
        Command::StopChange => 0x18,
        Command::StatusReq => 0x19,
        Command::GetOpFlags => 0x1F,
        Command::SetOpFlags => 0x20,
        Command::SetHiAddr => 0x28,
        Command::PokeEE => 0x29,
        Command::PeekEE => 0x2B,
        Command::OnAtRate => 0x2E,
        Command::OffAtRate => 0x2F,
        Command::WriteOutput => 0x48,
        Command::ReadInput => 0x49,
        Command::GetSensorVal => 0x4A,
        Command::ReadCfg => 0x4E,
        Command::IoModuleCtrl => 0x4F,
        Command::ThermalZoneInfo => 0x6A,
        Command::SetImCfg => 0x6B,
    }
}

/// Turns a device command into the byte sent on the wire.
#[allow(non_snake_case)]
pub fn u8Command(cmd: Command) -> (code: u8)
    ensures
        code == command_code(cmd),
{
    match cmd {
        Command::DataReq => 0x03,
        Command::InsteonVer => 0x0D,
        Command::IdReq => 0x10,
        Command::On => 0x11,
        Command::FastOn => 0x12,
        Command::Off => 0x13,
        Command::FastOff => 0x14,
        Command::BrightStep => 0x15,
        Command::DimStep => 0x16,
        Command::StartChange => 0x17,
        Command::StopChange => 0x18,
        Command::StatusReq => 0x19,
        Command::GetOpFlags => 0x1F,
        Command::SetOpFlags => 0x20,
        Command::SetHiAddr => 0x28,
        Command::PokeEE => 0x29,
        Command::PeekEE => 0x2B,
        Command::OnAtRate => 0x2E,
        Command::OffAtRate => 0x2F,
        Command::WriteOutput => 0x48,
        Command::ReadInput => 0x49,
        Command::GetSensorVal => 0x4A,
        Command::ReadCfg => 0x4E,
        Command::IoModuleCtrl => 0x4F,
        Command::ThermalZoneInfo => 0x6A,
        Command::SetImCfg => 0x6B,
    }
}

/// The registry's size column: payload bytes that follow the opcode
/// byte of each known opcode, `None` for an opcode outside the table.
pub open spec fn payload_size(op: u8) -> Option<usize> {
    if op == STANDARD_MSG {
        Some(9usize)
    } else if op == EXTENDED_MSG {
        Some(23usize)
    } else if op == X10_RECEIVED {
        Some(2usize)
    } else if op == ALL_LINKING_COMPLETED {
        Some(8usize)
    } else if op == BUTTON_EVENT_REPORT {
        Some(1usize)
    } else if op == USER_RESET_DETECTED {
        Some(0usize)
    } else if op == ALL_LINK_CLEANUP_FAILURE_REPORT {
        Some(5usize)
    } else if op == ALL_LINK_RECORD_RESPONSE {
        Some(8usize)
    } else if op == ALL_LINK_CLEANUP_STATUS_REPORT {
        Some(1usize)
    } else if op == SEND_STANDARD_MSG {
        Some(6usize)
    } else {
        None
    }
}

/// Looks an opcode up in the registry's size column.
pub fn get_msg_size(msg_type: &u8) -> (size: Option<usize>)
    ensures
        size == payload_size(*msg_type),
{
    match *msg_type {
        0x50 => Some(9),
        0x51 => Some(23),
        0x52 => Some(2),
        0x53 => Some(8),
        0x54 => Some(1),
        0x55 => Some(0),
        0x56 => Some(5),
        0x57 => Some(8),
        0x58 => Some(1),
        0x62 => Some(6),
        _ => None,
    }
}

/// The position of each opcode's variant in the declaration order of
/// `InsteonMsg`, `None` for an opcode outside the table.
pub open spec fn variant_index(op: u8) -> Option<u8> {
    if op == STANDARD_MSG {
        Some(0u8)
    } else if op == EXTENDED_MSG {
        Some(1u8)
    } else if op == X10_RECEIVED {
        Some(2u8)
    } else if op == ALL_LINKING_COMPLETED {
        Some(3u8)
    } else if op == BUTTON_EVENT_REPORT {
        Some(4u8)
    } else if op == USER_RESET_DETECTED {
        Some(5u8)
    } else if op == ALL_LINK_CLEANUP_FAILURE_REPORT {
        Some(6u8)
    } else if op == ALL_LINK_RECORD_RESPONSE {
        Some(7u8)
    } else if op == ALL_LINK_CLEANUP_STATUS_REPORT {
        Some(8u8)
    } else if op == SEND_STANDARD_MSG {
        Some(9u8)
    } else {
        None
    }
}

/// Looks an opcode up in the registry's variant-index column.
pub fn get_discriminant(msg_type: &u8) -> (idx: Option<u8>)
    ensures
        idx == variant_index(*msg_type),
        idx is Some <==> payload_size(*msg_type) is Some,
{
    match *msg_type {
        0x50 => Some(0),
        0x51 => Some(1),
        0x52 => Some(2),
        0x53 => Some(3),
        0x54 => Some(4),
        0x55 => Some(5),
        0x56 => Some(6),
        0x57 => Some(7),
        0x58 => Some(8),
        0x62 => Some(9),
        _ => None,
    }
}

/// What it means for a typed message to be the decoding of the payload
/// `p` of a frame with opcode `op`: the message is the variant that the
/// registry assigns to `op`, and its fields hold the payload bytes in
/// declared order, verbatim.
pub open spec fn is_decode_of(m: InsteonMsg, op: u8, p: Seq<u8>) -> bool {
    if op == STANDARD_MSG {
        &&& p.len() == 9
        &&& m matches InsteonMsg::StandardMsg { addr_from, addr_to, msg_flags, cmd1, cmd2 }
        &&& addr_from@ =~= p.subrange(0, 3)
        &&& addr_to@ =~= p.subrange(3, 6)
        &&& msg_flags == p[6]
        &&& cmd1 == p[7]
        &&& cmd2 == p[8]
    } else if op == EXTENDED_MSG {
        &&& p.len() == 23
        &&& m matches InsteonMsg::ExtendedMsg { addr_from, addr_to, msg_flags, cmd1, cmd2, user_data }
        &&& addr_from@ =~= p.subrange(0, 3)
        &&& addr_to@ =~= p.subrange(3, 6)
        &&& msg_flags == p[6]
        &&& cmd1 == p[7]
        &&& cmd2 == p[8]
        &&& user_data@ =~= p.subrange(9, 23)
    } else if op == X10_RECEIVED {
        &&& p.len() == 2
        &&& m matches InsteonMsg::X10Received { raw_x10, x10_flag }
        &&& raw_x10 == p[0]
        &&& x10_flag == p[1]
    } else if op == ALL_LINKING_COMPLETED {
        &&& p.len() == 8
        &&& m matches InsteonMsg::AllLinkingCompleted {
            link_code, all_link_group, id, device_category, device_subcategory, firmware_version }
        &&& link_code == p[0]
        &&& all_link_group == p[1]
        &&& id@ =~= p.subrange(2, 5)
        &&& device_category == p[5]
        &&& device_subcategory == p[6]
        &&& firmware_version == p[7]
    } else if op == BUTTON_EVENT_REPORT {
        &&& p.len() == 1
        &&& m matches InsteonMsg::ButtonEventReport { button_event }
        &&& button_event == p[0]
    } else if op == USER_RESET_DETECTED {
        &&& p.len() == 0
        &&& m matches InsteonMsg::UserResetDetected {}
    } else if op == ALL_LINK_CLEANUP_FAILURE_REPORT {
        &&& p.len() == 5
        &&& m matches InsteonMsg::AllLinkCleanupFailureReport { x01, all_link_group, id }
        &&& x01 == p[0]
        &&& all_link_group == p[1]
        &&& id@ =~= p.subrange(2, 5)
    } else if op == ALL_LINK_RECORD_RESPONSE {
        &&& p.len() == 8
        &&& m matches InsteonMsg::AllLinkRecordResponse { all_link_record_flags, all_link_group, id, link_data }
        &&& all_link_record_flags == p[0]
        &&& all_link_group == p[1]
        &&& id@ =~= p.subrange(2, 5)
        &&& link_data@ =~= p.subrange(5, 8)
    } else if op == ALL_LINK_CLEANUP_STATUS_REPORT {
        &&& p.len() == 1
        &&& m matches InsteonMsg::AllLinkCleanupStatusReport { status_byte }
        &&& status_byte == p[0]
    } else if op == SEND_STANDARD_MSG {
        &&& p.len() == 6
        &&& m matches InsteonMsg::SendStandardMsg { addr_to, msg_flags, cmd1, cmd2 }
        &&& addr_to@ =~= p.subrange(0, 3)
        &&& msg_flags == p[3]
        &&& cmd1 == p[4]
        &&& cmd2 == p[5]
    } else {
        false
    }
}

/// The opcode under which the registry files each variant.
pub open spec fn msg_opcode(m: InsteonMsg) -> u8 {
    match m {
        InsteonMsg::StandardMsg { .. } => STANDARD_MSG,
        InsteonMsg::ExtendedMsg { .. } => EXTENDED_MSG,
        InsteonMsg::X10Received { .. } => X10_RECEIVED,
        InsteonMsg::AllLinkingCompleted { .. } => ALL_LINKING_COMPLETED,
        InsteonMsg::ButtonEventReport { .. } => BUTTON_EVENT_REPORT,
        InsteonMsg::UserResetDetected { .. } => USER_RESET_DETECTED,
        InsteonMsg::AllLinkCleanupFailureReport { .. } => ALL_LINK_CLEANUP_FAILURE_REPORT,
        InsteonMsg::AllLinkRecordResponse { .. } => ALL_LINK_RECORD_RESPONSE,
        InsteonMsg::AllLinkCleanupStatusReport { .. } => ALL_LINK_CLEANUP_STATUS_REPORT,
        InsteonMsg::SendStandardMsg { .. } => SEND_STANDARD_MSG,
    }
}

/// The payload bytes of a message: its fields in declared order,
/// verbatim.
pub open spec fn msg_payload(m: InsteonMsg) -> Seq<u8> {
    match m {
        InsteonMsg::StandardMsg { addr_from, addr_to, msg_flags, cmd1, cmd2 } => addr_from@
            + addr_to@ + seq![msg_flags, cmd1, cmd2],
        InsteonMsg::ExtendedMsg { addr_from, addr_to, msg_flags, cmd1, cmd2, user_data } => addr_from@
            + addr_to@ + seq![msg_flags, cmd1, cmd2] + user_data@,
        InsteonMsg::X10Received { raw_x10, x10_flag } => seq![raw_x10, x10_flag],
        InsteonMsg::AllLinkingCompleted {
            link_code,
            all_link_group,
            id,
            device_category,
            device_subcategory,
            firmware_version,
        } => seq![link_code, all_link_group] + id@ + seq![
            device_category,
            device_subcategory,
            firmware_version,
        ],
        InsteonMsg::ButtonEventReport { button_event } => seq![button_event],
        InsteonMsg::UserResetDetected { .. } => Seq::empty(),
        InsteonMsg::AllLinkCleanupFailureReport { x01, all_link_group, id } => seq![
            x01,
            all_link_group,
        ] + id@,
        InsteonMsg::AllLinkRecordResponse { all_link_record_flags, all_link_group, id, link_data } => seq![
            all_link_record_flags,
            all_link_group,
        ] + id@ + link_data@,
        InsteonMsg::AllLinkCleanupStatusReport { status_byte } => seq![status_byte],
        InsteonMsg::SendStandardMsg { addr_to, msg_flags, cmd1, cmd2 } => addr_to@ + seq![
            msg_flags,
            cmd1,
            cmd2,
        ],
    }
}

/// The registry has no duplicated size logic to drift apart: for every
/// message, the payload its fields occupy is exactly as long as the
/// size column says for its opcode, and decoding that payload under
/// that opcode gives back the message, field for field.
pub proof fn lemma_decode_inverts_encode(m: InsteonMsg)
    ensures
        payload_size(msg_opcode(m)) matches Some(sz) && sz == msg_payload(m).len(),
        is_decode_of(m, msg_opcode(m), msg_payload(m)),
{
    let p = msg_payload(m);
    match m {
        InsteonMsg::StandardMsg { addr_from, addr_to, .. } => {
            assert(addr_from@ =~= p.subrange(0, 3));
            assert(addr_to@ =~= p.subrange(3, 6));
        },
        InsteonMsg::ExtendedMsg { addr_from, addr_to, user_data, .. } => {
            assert(addr_from@ =~= p.subrange(0, 3));
            assert(addr_to@ =~= p.subrange(3, 6));
            assert(user_data@ =~= p.subrange(9, 23));
        },
        InsteonMsg::AllLinkingCompleted { id, .. } => {
            assert(id@ =~= p.subrange(2, 5));
        },
        InsteonMsg::AllLinkCleanupFailureReport { id, .. } => {
            assert(id@ =~= p.subrange(2, 5));
        },
        InsteonMsg::AllLinkRecordResponse { id, link_data, .. } => {
            assert(id@ =~= p.subrange(2, 5));
            assert(link_data@ =~= p.subrange(5, 8));
        },
        InsteonMsg::SendStandardMsg { addr_to, .. } => {
            assert(addr_to@ =~= p.subrange(0, 3));
        },
        _ => {},
    }
}

impl InsteonMsg {
    /// Decodes one message from the front of `buf`, whose first byte is
    /// taken as the opcode and whose following bytes as the payload.
    /// Returns the message and its payload length, or `None` exactly
    /// when the buffer is empty, the opcode is outside the registry, or
    /// the payload is still incomplete.
    pub fn new(buf: &[u8]) -> (r: Option<(InsteonMsg, usize)>)
        ensures
            match r {
                Some((msg, size)) => {
                    &&& buf@.len() >= 1
                    &&& payload_size(buf@[0]) == Some(size)
                    &&& buf@.len() >= 1 + size
                    &&& is_decode_of(msg, buf@[0], buf@.subrange(1, 1 + size as int))
                },
                None => {
                    ||| buf@.len() == 0
                    ||| payload_size(buf@[0]) is None
                    ||| buf@.len() < 1 + payload_size(buf@[0]).unwrap()
                },
            },
    {
        if buf.len() == 0 {
            return None;
        }
        let command_type = buf[0];
        let size = match get_msg_size(&command_type) {
            Some(size) => size,
            None => {
                return None;
            },
        };
        if buf.len() - 1 < size {
            return None;
        }
        let msg = match command_type {
            0x50 => InsteonMsg::StandardMsg {
                addr_from: [buf[1], buf[2], buf[3]],
                addr_to: [buf[4], buf[5], buf[6]],
                msg_flags: buf[7],
                cmd1: buf[8],
                cmd2: buf[9],
            },
            0x51 => InsteonMsg::ExtendedMsg {
                addr_from: [buf[1], buf[2], buf[3]],
                addr_to: [buf[4], buf[5], buf[6]],
                msg_flags: buf[7],
                cmd1: buf[8],
                cmd2: buf[9],
                user_data: [
                    buf[10], buf[11], buf[12], buf[13], buf[14], buf[15], buf[16],
                    buf[17], buf[18], buf[19], buf[20], buf[21], buf[22], buf[23],
                ],
            },
            0x52 => InsteonMsg::X10Received { raw_x10: buf[1], x10_flag: buf[2] },
            0x53 => InsteonMsg::AllLinkingCompleted {
                link_code: buf[1],
                all_link_group: buf[2],
                id: [buf[3], buf[4], buf[5]],
                device_category: buf[6],
                device_subcategory: buf[7],
                firmware_version: buf[8],
            },
            0x54 => InsteonMsg::ButtonEventReport { button_event: buf[1] },
            0x55 => InsteonMsg::UserResetDetected {},
            0x56 => InsteonMsg::AllLinkCleanupFailureReport {
                x01: buf[1],
                all_link_group: buf[2],
                id: [buf[3], buf[4], buf[5]],
            },
            0x57 => InsteonMsg::AllLinkRecordResponse {
                all_link_record_flags: buf[1],
                all_link_group: buf[2],
                id: [buf[3], buf[4], buf[5]],
                link_data: [buf[6], buf[7], buf[8]],
            },
            0x58 => InsteonMsg::AllLinkCleanupStatusReport { status_byte: buf[1] },
            _ => InsteonMsg::SendStandardMsg {
                addr_to: [buf[1], buf[2], buf[3]],
                msg_flags: buf[4],
                cmd1: buf[5],
                cmd2: buf[6],
            },
        };
        Some((msg, size))
    }

    /// Encodes the message back to its wire body: the opcode byte
    /// followed by the payload — the fields in declared order,
    /// verbatim.  The start marker is framing, not part of the
    /// message, and is prepended by the command encoder.
    pub fn encode(&self) -> (out: Vec<u8>)
        ensures
            out@ == seq![msg_opcode(*self)] + msg_payload(*self),
    {
        let mut out: Vec<u8> = Vec::new();
        match self {
            InsteonMsg::StandardMsg { addr_from, addr_to, msg_flags, cmd1, cmd2 } => {
                out.push(STANDARD_MSG);
                out.push(addr_from[0]);
                out.push(addr_from[1]);
                out.push(addr_from[2]);
                out.push(addr_to[0]);
                out.push(addr_to[1]);
                out.push(addr_to[2]);
                out.push(*msg_flags);
                out.push(*cmd1);
                out.push(*cmd2);
            },
            InsteonMsg::ExtendedMsg { addr_from, addr_to, msg_flags, cmd1, cmd2, user_data } => {
                out.push(EXTENDED_MSG);
                out.push(addr_from[0]);
                out.push(addr_from[1]);
                out.push(addr_from[2]);
                out.push(addr_to[0]);
                out.push(addr_to[1]);
                out.push(addr_to[2]);
                out.push(*msg_flags);
                out.push(*cmd1);
                out.push(*cmd2);
                out.push(user_data[0]);
                out.push(user_data[1]);
                out.push(user_data[2]);
                out.push(user_data[3]);
                out.push(user_data[4]);
                out.push(user_data[5]);
                out.push(user_data[6]);
                out.push(user_data[7]);
                out.push(user_data[8]);
                out.push(user_data[9]);
                out.push(user_data[10]);
                out.push(user_data[11]);
                out.push(user_data[12]);
                out.push(user_data[13]);
            },
            InsteonMsg::X10Received { raw_x10, x10_flag } => {
                out.push(X10_RECEIVED);
                out.push(*raw_x10);
                out.push(*x10_flag);
            },
            InsteonMsg::AllLinkingCompleted {
                link_code,
                all_link_group,
                id,
                device_category,
                device_subcategory,
                firmware_version,
            } => {
                out.push(ALL_LINKING_COMPLETED);
                out.push(*link_code);
                out.push(*all_link_group);
                out.push(id[0]);
                out.push(id[1]);
                out.push(id[2]);
                out.push(*device_category);
                out.push(*device_subcategory);
                out.push(*firmware_version);
            },
            InsteonMsg::ButtonEventReport { button_event } => {
                out.push(BUTTON_EVENT_REPORT);
                out.push(*button_event);
            },
            InsteonMsg::UserResetDetected {} => {
                out.push(USER_RESET_DETECTED);
            },
            InsteonMsg::AllLinkCleanupFailureReport { x01, all_link_group, id } => {
                out.push(ALL_LINK_CLEANUP_FAILURE_REPORT);
                out.push(*x01);
                out.push(*all_link_group);
                out.push(id[0]);
                out.push(id[1]);
                out.push(id[2]);
            },
            InsteonMsg::AllLinkRecordResponse {
                all_link_record_flags,
                all_link_group,
                id,
                link_data,
            } => {
                out.push(ALL_LINK_RECORD_RESPONSE);
                out.push(*all_link_record_flags);
                out.push(*all_link_group);
                out.push(id[0]);
                out.push(id[1]);
                out.push(id[2]);
                out.push(link_data[0]);
                out.push(link_data[1]);
                out.push(link_data[2]);
            },
            InsteonMsg::AllLinkCleanupStatusReport { status_byte } => {
                out.push(ALL_LINK_CLEANUP_STATUS_REPORT);
                out.push(*status_byte);
            },
            InsteonMsg::SendStandardMsg { addr_to, msg_flags, cmd1, cmd2 } => {
                out.push(SEND_STANDARD_MSG);
                out.push(addr_to[0]);
                out.push(addr_to[1]);
                out.push(addr_to[2]);
                out.push(*msg_flags);
                out.push(*cmd1);
                out.push(*cmd2);
            },
        }
        proof {
            assert(out@ =~= seq![msg_opcode(*self)] + msg_payload(*self));
        }
        out
    }
}

} // verus!
