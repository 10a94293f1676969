//! Typed ARC messages of the legacy message path, and the values it writes to
//! the ARC scratch registers.
use vstd::prelude::*;

verus! {

/// Addresses of the scratch register block and of the ARC misc control register.
#[derive(Debug, Clone, Copy)]
pub struct ArcMsgAddr {
    pub scratch_base: u32,
    pub arc_misc_cntl: u32,
}

/// Messages with a known code.
#[derive(Debug, Clone, Copy, PartialEq, Eq, Structural)]
pub enum TypedArcMsg {
    GetSmbusTelemetryAddr,
}

impl TypedArcMsg {
    /// The message code written to the ARC.
    pub fn msg_code(&self) -> (r: u16)
        ensures
            r == 0x2C,
    {
        match self {
            TypedArcMsg::GetSmbusTelemetryAddr => 0x2C,
        }
    }
}

/// A message for the ARC.
#[derive(Debug, Clone, Copy)]
pub enum ArcMsg {
    Typed(TypedArcMsg),
}

/// A successful exchange: the returned argument, or no wait at all.
#[derive(Debug, Clone, Copy, PartialEq, Eq, Structural)]
pub enum ArcMsgOk {
    Answered { arg: u32 },
    OkNoWait,
}

/// Options of one ARC message exchange.
pub struct ArcMsgOptions {
    pub msg: ArcMsg,
    pub wait_for_done: bool,
    /// How long to wait for the answer, in whole seconds.
    pub timeout_secs: u64,
    pub use_second_mailbox: bool,
    pub addrs: Option<ArcMsgAddr>,
}

impl Default for ArcMsgOptions {
    /// Asks for the telemetry address, waits for the answer for one second, on
    /// the first mailbox, at the default addresses.
    fn default() -> (r: Self)
        ensures
            r.msg == ArcMsg::Typed(TypedArcMsg::GetSmbusTelemetryAddr),
            r.wait_for_done,
            r.timeout_secs == 1,
            !r.use_second_mailbox,
            r.addrs is None,
    {
        ArcMsgOptions {
            msg: ArcMsg::Typed(TypedArcMsg::GetSmbusTelemetryAddr),
            wait_for_done: true,
            timeout_secs: 1,
            use_second_mailbox: false,
            addrs: None,
        }
    }
}

/// The code of a message.
pub fn arc_msg_code(msg: &ArcMsg) -> (r: u16)
    ensures
        r == 0x2C,
{
    match msg {
        ArcMsg::Typed(t) => t.msg_code(),
    }
}

/// The value written to the message register: the code under the `0xaa00`
/// magic prefix.
pub fn arc_msg_value(msg_code: u16) -> (r: u32)
    ensures
        r == (0xaa00u32 | msg_code as u32),
{
    0xaa00 | msg_code as u32
}

/// Address of a numbered scratch register: four bytes per register.
pub fn arc_scratch_addr(scratch_base: u32, reg: u64) -> (r: u32)
    requires
        scratch_base + (reg as u32) * 4 <= u32::MAX,
        reg as u32 * 4 <= u32::MAX,
    ensures
        r == scratch_base + (reg as u32) * 4,
{
    scratch_base + (reg as u32 * 4)
}

/// The misc control value that raises the ARC interrupt: bit 16 set.
pub fn arc_trigger_value(misc_val: u32) -> (r: u32)
    ensures
        r == misc_val | 0x10000u32,
{
    assert(1u32 << 16u32 == 0x10000u32) by (bit_vector);
    misc_val | (1 << 16)
}

/// What a read of the message register says of the exchange.
#[derive(Debug, Clone, Copy, PartialEq, Eq, Structural)]
pub enum ArcMsgPoll {
    /// The low 16 bits echo the message code: read the answer.
    Done,
    /// All ones: the ARC does not know the message.
    NotRecognized,
    /// Anything else: keep waiting.
    Pending,
}

/// Classifies a read of the message register.
pub fn arc_msg_poll(status: u32, msg_code: u16) -> (r: ArcMsgPoll)
    ensures
        r == if (status & 0xFFFFu32) == msg_code as u32 {
            ArcMsgPoll::Done
        } else if status == 0xffffffffu32 {
            ArcMsgPoll::NotRecognized
        } else {
            ArcMsgPoll::Pending
        },
{
    if (status & 0xFFFF) as u16 == msg_code {
        assert(status & 0xFFFFu32 <= 0xFFFFu32) by (bit_vector);
        ArcMsgPoll::Done
    } else {
        assert(status & 0xFFFFu32 <= 0xFFFFu32) by (bit_vector);
        if status == 0xffffffff {
            ArcMsgPoll::NotRecognized
        } else {
            ArcMsgPoll::Pending
        }
    }
}

} // verus!
