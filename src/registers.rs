//! The embedded controller's register map and the register writes that the
//! library asks its caller to perform.
use vstd::prelude::*;

verus! {

/// Offset of the first fan channel's duty register.
pub const FAN1_OFFSET: u64 = 0x34;
/// Offset of the second fan channel's duty register.
pub const FAN2_OFFSET: u64 = 0x35;
/// Offset of the CPU temperature register.
pub const CPU_TEMP_OFFSET: u64 = 0x57;
/// Offset of the GPU temperature register.
pub const GPU_TEMP_OFFSET: u64 = 0xB7;
/// Offset of the register that arbitrates fan control between firmware and software.
pub const BIOS_CONTROL_OFFSET: u64 = 0x62;
/// Offset of the firmware performance-profile register.
pub const PERFORMANCE_OFFSET: u64 = 0x95;

/// Arbitration code that hands fan control to software.
pub const BIOS_DISABLE_CODE: u8 = 0x06;
/// Arbitration code that hands fan control back to firmware.
pub const BIOS_ENABLE_CODE: u8 = 0x00;

/// Largest duty value of the first fan channel.
pub const FAN1_MAX: u8 = 55;
/// Largest duty value of the second fan channel.
pub const FAN2_MAX: u8 = 57;

/// One single-byte write into the register space.
#[derive(Clone, Copy, Debug, PartialEq, Eq, Structural)]
pub struct RegisterWrite {
    pub offset: u64,
    pub value: u8,
}

/// Who drives the fans.
#[derive(Clone, Copy, Debug, PartialEq, Eq, Structural)]
pub enum Owner {
    Firmware,
    Software,
}

/// A manual duty request that exceeds a channel's maximum.
#[derive(Clone, Copy, Debug, PartialEq, Eq, Structural)]
pub enum DutyError {
    Fan1OutOfRange,
    Fan2OutOfRange,
}

/// The write that takes fan control away from firmware.
pub fn disable_bios_control() -> (w: RegisterWrite)
    ensures
        w == (RegisterWrite { offset: BIOS_CONTROL_OFFSET, value: BIOS_DISABLE_CODE }),
{
    RegisterWrite { offset: BIOS_CONTROL_OFFSET, value: BIOS_DISABLE_CODE }
}

/// The write that hands fan control back to firmware.
pub fn enable_bios_control() -> (w: RegisterWrite)
    ensures
        w == (RegisterWrite { offset: BIOS_CONTROL_OFFSET, value: BIOS_ENABLE_CODE }),
{
    RegisterWrite { offset: BIOS_CONTROL_OFFSET, value: BIOS_ENABLE_CODE }
}

/// The two duty writes for a fan duty pair, first channel first.
pub open spec fn fan_writes(fan1: u8, fan2: u8) -> Seq<RegisterWrite> {
    seq![
        RegisterWrite { offset: FAN1_OFFSET, value: fan1 },
        RegisterWrite { offset: FAN2_OFFSET, value: fan2 },
    ]
}

/// Writes of an explicit duty pair, checked against each channel's maximum.
pub fn set_fan_speed(fan1: u8, fan2: u8) -> (r: Result<Vec<RegisterWrite>, DutyError>)
    ensures
        fan1 > FAN1_MAX ==> r == Err::<Vec<RegisterWrite>, DutyError>(DutyError::Fan1OutOfRange),
        fan1 <= FAN1_MAX && fan2 > FAN2_MAX ==> r == Err::<Vec<RegisterWrite>, DutyError>(
            DutyError::Fan2OutOfRange,
        ),
        fan1 <= FAN1_MAX && fan2 <= FAN2_MAX ==> r is Ok && r->Ok_0@ == fan_writes(fan1, fan2),
{
    if fan1 > FAN1_MAX {
        return Err(DutyError::Fan1OutOfRange);
    }
    if fan2 > FAN2_MAX {
        return Err(DutyError::Fan2OutOfRange);
    }
    Ok(duty_writes(fan1, fan2))
}

/// The two duty writes for a pair already known to be in range.
pub fn duty_writes(fan1: u8, fan2: u8) -> (r: Vec<RegisterWrite>)
    ensures
        r@ == fan_writes(fan1, fan2),
{
    let mut r: Vec<RegisterWrite> = Vec::new();
    r.push(RegisterWrite { offset: FAN1_OFFSET, value: fan1 });
    r.push(RegisterWrite { offset: FAN2_OFFSET, value: fan2 });
    proof {
        assert(r@ =~= fan_writes(fan1, fan2));
    }
    r
}

/// The control temperature: the hotter of the CPU and GPU readings.
pub fn get_max_temp(cpu_temp: u8, gpu_temp: u8) -> (r: u8)
    ensures
        r >= cpu_temp,
        r >= gpu_temp,
        r == cpu_temp || r == gpu_temp,
{
    if cpu_temp >= gpu_temp {
        cpu_temp
    } else {
        gpu_temp
    }
}

} // verus!
