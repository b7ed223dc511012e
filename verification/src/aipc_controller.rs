//! Control of the machine's AI hardware: commands to a processor and the status of each.
//!
//! A usage share is kept in thousandths.
use vstd::prelude::*;
use crate::text::owned;

verus! {

/// A piece of hardware.
#[derive(Debug, Clone, Copy, PartialEq, Eq, Hash, Structural)]
pub enum HardwareType {
    Cpu,
    Gpu,
    Npu,
    Memory,
    Storage,
}

/// A command to a piece of hardware.
#[derive(Debug)]
pub struct HardwareCommand {
    pub hardware: HardwareType,
    pub action: String,
    pub params: Vec<(String, String)>,
}

/// The state of a piece of hardware.
#[derive(Debug, Clone, Copy, PartialEq, Eq, Structural)]
pub struct HardwareStatus {
    pub hardware: HardwareType,
    pub available: bool,
    /// Usage, in thousandths.
    pub usage_permille: u32,
}

/// Sends commands to the hardware and knows its status.
pub struct AipcController {
    hardware_status: Vec<HardwareStatus>,
}

/// What a command answers: the processors it drives say so; other hardware queues it.
pub open spec fn command_answer(h: HardwareType) -> Seq<char> {
    match h {
        HardwareType::Npu => "NPU command executed"@,
        HardwareType::Gpu => "GPU command executed"@,
        _ => "Command queued"@,
    }
}

/// The first status at or after `i` of hardware `h`.
pub open spec fn status_from(s: Seq<HardwareStatus>, h: HardwareType, i: int) -> Option<HardwareStatus>
    decreases s.len() - i,
{
    if i < 0 || i >= s.len() {
        None
    } else if s[i].hardware == h {
        Some(s[i])
    } else {
        status_from(s, h, i + 1)
    }
}

impl AipcController {
    /// A controller that knows the CPU, available and idle.
    pub fn new() -> (r: Self)
        ensures
            r.status_of(HardwareType::Cpu) == Some(HardwareStatus { hardware: HardwareType::Cpu, available: true, usage_permille: 0 }),
            forall|h: HardwareType| h != HardwareType::Cpu ==> r.status_of(h) is None,
    {
        let mut s: Vec<HardwareStatus> = Vec::new();
        s.push(HardwareStatus { hardware: HardwareType::Cpu, available: true, usage_permille: 0 });
        let r = AipcController { hardware_status: s };
        assert forall|h: HardwareType| h != HardwareType::Cpu implies r.status_of(h) is None by {
            assert(status_from(s@, h, 1) is None);
        }
        r
    }

    /// The status known of `h`.
    pub closed spec fn status_of(&self, h: HardwareType) -> Option<HardwareStatus> {
        status_from(self.hardware_status@, h, 0)
    }

    /// Carries out a command (see `command_answer`).
    pub fn execute_command(&self, command: HardwareCommand) -> (r: Result<String, String>)
        ensures
            r matches Ok(s) && s@ == command_answer(command.hardware),
    {
        match command.hardware {
            HardwareType::Npu => Ok(owned("NPU command executed")),
            HardwareType::Gpu => Ok(owned("GPU command executed")),
            _ => Ok(owned("Command queued")),
        }
    }

    /// The status of `hardware`, if it is known.
    pub fn get_hardware_status(&self, hardware: &HardwareType) -> (r: Option<HardwareStatus>)
        ensures
            r == self.status_of(*hardware),
    {
        let n = self.hardware_status.len();
        let mut i: usize = 0;
        while i < n
            invariant
                i <= n,
                n == self.hardware_status@.len(),
                status_from(self.hardware_status@, *hardware, 0) == status_from(self.hardware_status@, *hardware, i as int),
            decreases n - i,
        {
            if self.hardware_status[i].hardware == *hardware {
                return Some(self.hardware_status[i]);
            }
            i = i + 1;
        }
        None
    }
}

} // verus!
