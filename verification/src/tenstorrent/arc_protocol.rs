//! The ARC message protocol: register names and addresses, the three-word
//! message layout, and how a reply is read.
use vstd::prelude::*;
use super::error::PlatformError;
use crate::text::{str_eq, string_of};
use crate::number::{push_radix, radix_string};

verus! {

/// Magic in the low half of the first word of a request.
pub const ARC_MSG_MAGIC: u16 = 0xaa55;

/// Magic in the low half of the first word of a reply.
pub const ARC_RESPONSE_MAGIC: u16 = 0x55aa;

/// Symbolic names of the ARC scratch and control registers.
pub struct ArcRegisters;

/// Address of a symbolic register name: the Wormhole/Grayskull reset unit
/// scratch registers 0..2 at 0x1FF30060 + 4i and its misc control at
/// 0x1FF30100, the CSM data base at 0x1FEF0000, and the Blackhole reset unit
/// scratch registers 0..2 at 0xFFB2A060 + 4i and misc control at 0xFFB2A100.
pub open spec fn register_address(name: Seq<char>) -> Option<u64> {
    if name == "ARC_RESET.SCRATCH[0]"@ {
        Some(0x1FF30060)
    } else if name == "ARC_RESET.SCRATCH[1]"@ {
        Some(0x1FF30064)
    } else if name == "ARC_RESET.SCRATCH[2]"@ {
        Some(0x1FF30068)
    } else if name == "ARC_RESET.ARC_MISC_CNTL"@ {
        Some(0x1FF30100)
    } else if name == "ARC_CSM.DATA[0]"@ {
        Some(0x1FEF0000)
    } else if name == "arc_ss.reset_unit.SCRATCH_0"@ {
        Some(0xFFB2A060)
    } else if name == "arc_ss.reset_unit.SCRATCH_1"@ {
        Some(0xFFB2A064)
    } else if name == "arc_ss.reset_unit.SCRATCH_2"@ {
        Some(0xFFB2A068)
    } else if name == "arc_ss.reset_unit.ARC_MISC_CNTL"@ {
        Some(0xFFB2A100)
    } else {
        None
    }
}

impl ArcRegisters {
    /// Translates a symbolic register name to its address; an unknown name is
    /// an invalid parameter whose message is "Unknown register: " and the name.
    pub fn translate(reg_name: &str) -> (r: Result<u64, PlatformError>)
        ensures
            match r {
                Ok(a) => register_address(reg_name@) == Some(a),
                Err(e) => register_address(reg_name@) is None && (e matches PlatformError::InvalidParameter(m)
                    && m@ == "Unknown register: "@ + reg_name@),
            },
    {
        if str_eq(reg_name, "ARC_RESET.SCRATCH[0]") {
            Ok(0x1FF30060)
        } else if str_eq(reg_name, "ARC_RESET.SCRATCH[1]") {
            Ok(0x1FF30064)
        } else if str_eq(reg_name, "ARC_RESET.SCRATCH[2]") {
            Ok(0x1FF30068)
        } else if str_eq(reg_name, "ARC_RESET.ARC_MISC_CNTL") {
            Ok(0x1FF30100)
        } else if str_eq(reg_name, "ARC_CSM.DATA[0]") {
            Ok(0x1FEF0000)
        } else if str_eq(reg_name, "arc_ss.reset_unit.SCRATCH_0") {
            Ok(0xFFB2A060)
        } else if str_eq(reg_name, "arc_ss.reset_unit.SCRATCH_1") {
            Ok(0xFFB2A064)
        } else if str_eq(reg_name, "arc_ss.reset_unit.SCRATCH_2") {
            Ok(0xFFB2A068)
        } else if str_eq(reg_name, "arc_ss.reset_unit.ARC_MISC_CNTL") {
            Ok(0xFFB2A100)
        } else {
            let mut msg = string_of("Unknown register: ");
            let name = string_of(reg_name);
            msg.append(name.as_str());
            Err(PlatformError::InvalidParameter(msg))
        }
    }
}

/// Typed ARC message codes.
#[derive(Debug, Clone, Copy, PartialEq, Eq, Structural)]
pub enum TypedArcMsg {
    Nop,
    GetSmbusTelemetryAddr,
    GetEthSmbusTelemetryAddr,
}

/// Code of a typed message: Nop 0x11, GetSmbusTelemetryAddr 0x2C,
/// GetEthSmbusTelemetryAddr 0x2D.
pub open spec fn typed_code(m: TypedArcMsg) -> u8 {
    match m {
        TypedArcMsg::Nop => 0x11,
        TypedArcMsg::GetSmbusTelemetryAddr => 0x2C,
        TypedArcMsg::GetEthSmbusTelemetryAddr => 0x2D,
    }
}

impl TypedArcMsg {
    /// The message code.
    pub fn code(&self) -> (r: u8)
        ensures
            r == typed_code(*self),
    {
        match self {
            TypedArcMsg::Nop => 0x11,
            TypedArcMsg::GetSmbusTelemetryAddr => 0x2C,
            TypedArcMsg::GetEthSmbusTelemetryAddr => 0x2D,
        }
    }
}

/// An ARC message: type magic, code, return code and two arguments.
#[derive(Debug, Clone, Copy, PartialEq, Eq, Structural)]
pub struct ArcMsg {
    pub msg_type: u16,
    pub msg_code: u8,
    pub return_code: u8,
    pub arg0: u32,
    pub arg1: u32,
}

/// The first register word of a message: type in bits 0..16, code in 16..24,
/// return code in 24..32.
pub open spec fn word0(m: ArcMsg) -> u32 {
    (m.msg_type as int + m.msg_code as int * 0x10000 + m.return_code as int * 0x100_0000) as u32
}

/// The twelve bytes of a message, little endian: type (2), code, return
/// code, arg0 (4), arg1 (4).
pub open spec fn msg_bytes(m: ArcMsg) -> Seq<u8> {
    seq![
        (m.msg_type % 0x100) as u8,
        (m.msg_type / 0x100) as u8,
        m.msg_code,
        m.return_code,
        (m.arg0 % 0x100) as u8,
        ((m.arg0 / 0x100) % 0x100) as u8,
        ((m.arg0 / 0x1_0000) % 0x100) as u8,
        (m.arg0 / 0x100_0000) as u8,
        (m.arg1 % 0x100) as u8,
        ((m.arg1 / 0x100) % 0x100) as u8,
        ((m.arg1 / 0x1_0000) % 0x100) as u8,
        (m.arg1 / 0x100_0000) as u8,
    ]
}

/// The little-endian 32-bit word of four bytes.
pub open spec fn le_word(b0: u8, b1: u8, b2: u8, b3: u8) -> u32 {
    (b0 as int + b1 as int * 0x100 + b2 as int * 0x1_0000 + b3 as int * 0x100_0000) as u32
}

fn low_byte(x: u32) -> (r: u8)
    ensures
        r == x % 0x100,
{
    assert(x & 0xffu32 == x % 0x100) by (bit_vector);
    (x & 0xff) as u8
}

impl ArcMsg {
    /// A request with the request magic, the code of `msg_code`, and zero
    /// return code and arguments.
    pub fn new(msg_code: TypedArcMsg) -> (r: Self)
        ensures
            r == (ArcMsg {
                msg_type: ARC_MSG_MAGIC,
                msg_code: typed_code(msg_code),
                return_code: 0,
                arg0: 0,
                arg1: 0,
            }),
    {
        ArcMsg { msg_type: ARC_MSG_MAGIC, msg_code: msg_code.code(), return_code: 0, arg0: 0, arg1: 0 }
    }

    /// The twelve bytes written to the scratch registers.
    pub fn to_bytes(&self) -> (b: [u8; 12])
        ensures
            b@ == msg_bytes(*self),
    {
        let t = self.msg_type as u32;
        let a = self.arg0;
        let c = self.arg1;
        assert((t >> 8u32) & 0xffu32 == t / 0x100) by (bit_vector)
            requires
                t < 0x10000,
        ;
        assert((a >> 8u32) % 0x100 == (a / 0x100) % 0x100) by (bit_vector);
        assert((a >> 16u32) % 0x100 == (a / 0x1_0000) % 0x100) by (bit_vector);
        assert((a >> 24u32) % 0x100 == a / 0x100_0000) by (bit_vector);
        assert((c >> 8u32) % 0x100 == (c / 0x100) % 0x100) by (bit_vector);
        assert((c >> 16u32) % 0x100 == (c / 0x1_0000) % 0x100) by (bit_vector);
        assert((c >> 24u32) % 0x100 == c / 0x100_0000) by (bit_vector);
        let b = [
            low_byte(t),
            ((t >> 8) & 0xff) as u8,
            self.msg_code,
            self.return_code,
            low_byte(a),
            low_byte(a >> 8),
            low_byte(a >> 16),
            low_byte(a >> 24),
            low_byte(c),
            low_byte(c >> 8),
            low_byte(c >> 16),
            low_byte(c >> 24),
        ];
        assert(b@ =~= msg_bytes(*self));
        b
    }

    /// The three register words written for this message.
    pub fn to_registers(&self) -> (r: (u32, u32, u32))
        ensures
            r == (word0(*self), self.arg0, self.arg1),
    {
        let t = self.msg_type as u32;
        let c = self.msg_code as u32;
        let rc = self.return_code as u32;
        assert(t | (c << 16u32) | (rc << 24u32) == t + c * 0x10000 + rc * 0x100_0000) by (bit_vector)
            requires
                t < 0x10000,
                c < 0x100,
                rc < 0x100,
        ;
        (t | (c << 16) | (rc << 24), self.arg0, self.arg1)
    }

    /// A message read back from its three register words.
    pub fn from_registers(reg0: u32, reg1: u32, reg2: u32) -> (r: Self)
        ensures
            r.msg_type == reg0 % 0x10000,
            r.msg_code == (reg0 / 0x10000) % 0x100,
            r.return_code == reg0 / 0x100_0000,
            r.arg0 == reg1,
            r.arg1 == reg2,
    {
        assert(reg0 & 0xFFFFu32 == reg0 % 0x10000) by (bit_vector);
        assert((reg0 >> 16u32) & 0xFFu32 == (reg0 / 0x10000) % 0x100) by (bit_vector);
        assert((reg0 >> 24u32) & 0xFFu32 == reg0 / 0x100_0000) by (bit_vector);
        ArcMsg {
            msg_type: (reg0 & 0xFFFF) as u16,
            msg_code: ((reg0 >> 16) & 0xFF) as u8,
            return_code: ((reg0 >> 24) & 0xFF) as u8,
            arg0: reg1,
            arg1: reg2,
        }
    }
}

/// Reading a message back from the words written for it gives the message.
pub proof fn law_registers_roundtrip(m: ArcMsg)
    ensures
        ({
            let w = word0(m);
            &&& w % 0x10000 == m.msg_type
            &&& (w / 0x10000) % 0x100 == m.msg_code
            &&& w / 0x100_0000 == m.return_code
        }),
{
    let t = m.msg_type as u32;
    let c = m.msg_code as u32;
    let rc = m.return_code as u32;
    let w = word0(m);
    assert(w == t + c * 0x10000 + rc * 0x100_0000);
    assert((t + c * 0x10000 + rc * 0x100_0000) % 0x10000 == t && ((t + c * 0x10000 + rc * 0x100_0000)
        / 0x10000) % 0x100 == c && (t + c * 0x10000 + rc * 0x100_0000) / 0x100_0000 == rc)
        by (nonlinear_arith)
        requires
            t < 0x10000,
            c < 0x100,
            rc < 0x100,
    ;
}

/// The register words are the little-endian words of the message bytes.
pub proof fn law_words_are_le_bytes(m: ArcMsg)
    ensures
        ({
            let b = msg_bytes(m);
            &&& le_word(b[0], b[1], b[2], b[3]) == word0(m)
            &&& le_word(b[4], b[5], b[6], b[7]) == m.arg0
            &&& le_word(b[8], b[9], b[10], b[11]) == m.arg1
        }),
{
    let a = m.arg0;
    let c = m.arg1;
    assert(a % 0x100 + ((a / 0x100) % 0x100) * 0x100 + ((a / 0x1_0000) % 0x100) * 0x1_0000 + (a
        / 0x100_0000) * 0x100_0000 == a) by (nonlinear_arith)
        requires
            a < 0x1_0000_0000,
    ;
    assert(c % 0x100 + ((c / 0x100) % 0x100) * 0x100 + ((c / 0x1_0000) % 0x100) * 0x1_0000 + (c
        / 0x100_0000) * 0x100_0000 == c) by (nonlinear_arith)
        requires
            c < 0x1_0000_0000,
    ;
    let t = m.msg_type;
    assert(t % 0x100 + (t / 0x100) * 0x100 == t) by (nonlinear_arith)
        requires
            t < 0x10000,
    ;
}

/// How the first scratch register answers a request.
#[derive(Debug, Clone, Copy, PartialEq, Eq, Structural)]
pub enum ArcResponse {
    /// No reply magic yet.
    Pending,
    /// A reply with a nonzero return code.
    Failed(u8),
    /// A reply with return code 0: the result is in the second register.
    Done,
}

/// Register access that the ARC message protocol runs over, implemented by
/// whatever can reach a chip.
pub trait ArcMessageHandler {
    /// Reads a 32-bit value from an AXI address.
    fn axi_read32(&self, addr: u64) -> Result<u32, PlatformError>;

    /// Writes a 32-bit value to an AXI address.
    fn axi_write32(&self, addr: u64, value: u32) -> Result<(), PlatformError>;

    /// The name of the architecture's scratch register base.
    fn get_scratch_base(&self) -> Result<&'static str, PlatformError>;

    /// The name of the architecture's misc control register.
    fn get_misc_cntl(&self) -> Result<&'static str, PlatformError>;
}

/// The ARC message protocol.
pub struct ArcProtocol;

impl ArcProtocol {
    /// The misc control value that rings the doorbell: bit 5 set.
    pub fn doorbell_value() -> (r: u32)
        ensures
            r == 0x20,
    {
        assert(1u32 << 5u32 == 0x20u32) by (bit_vector);
        1 << 5
    }

    /// The three register words of a request for `msg` with its two arguments.
    pub fn request_registers(msg: TypedArcMsg, arg0: u32, arg1: u32) -> (r: (u32, u32, u32))
        ensures
            r == (word0(
                ArcMsg {
                    msg_type: ARC_MSG_MAGIC,
                    msg_code: typed_code(msg),
                    return_code: 0,
                    arg0: 0,
                    arg1: 0,
                },
            ), arg0, arg1),
    {
        let mut m = ArcMsg::new(msg);
        m.arg0 = arg0;
        m.arg1 = arg1;
        m.to_registers()
    }

    /// The error of a reply with a nonzero return code.
    pub fn failure_error(return_code: u8) -> (r: PlatformError)
        ensures
            r matches PlatformError::ChipError(m) && m@ == "ARC message failed with return code: "@
                + radix_string(return_code as nat, 10),
    {
        let mut m = string_of("ARC message failed with return code: ");
        push_radix(&mut m, return_code as u64, 10);
        PlatformError::ChipError(m)
    }

    /// The error of a request that got no reply in time.
    pub fn timeout_error() -> (r: PlatformError)
        ensures
            r matches PlatformError::Timeout(m) && m@ == "ARC message timeout"@,
    {
        PlatformError::Timeout(string_of("ARC message timeout"))
    }

    /// Reads the reply state from the first scratch register: a reply carries
    /// the reply magic in its low half and the return code in its top byte.
    pub fn check_response(reg0: u32) -> (r: ArcResponse)
        ensures
            r == if reg0 % 0x10000 != ARC_RESPONSE_MAGIC as int {
                ArcResponse::Pending
            } else if reg0 / 0x100_0000 != 0 {
                ArcResponse::Failed((reg0 / 0x100_0000) as u8)
            } else {
                ArcResponse::Done
            },
    {
        let m = ArcMsg::from_registers(reg0, 0, 0);
        if m.msg_type == ARC_RESPONSE_MAGIC {
            if m.return_code != 0 {
                ArcResponse::Failed(m.return_code)
            } else {
                ArcResponse::Done
            }
        } else {
            ArcResponse::Pending
        }
    }
}

} // verus!
