//! The signal operations that an update is made of, and a model of what
//! they leave on the chip's control lines.
use vstd::prelude::*;

verus! {

/// A control or data line of the chip.
#[derive(Clone, Copy, Debug, PartialEq, Eq, Structural)]
pub enum Line {
    /// Serial data into the shift register.
    Sin,
    /// Shift clock.
    Sclk,
    /// Latch strobe.
    Xlat,
    /// Blank input; forces all outputs off while asserted.
    Blank,
    /// Greyscale clock.
    Gsclk,
}

/// Duty cycle of a blank line that a pulse generator drives.
#[derive(Clone, Copy, Debug, PartialEq, Eq, Structural)]
pub enum Duty {
    /// Held asserted: outputs disabled.
    Full,
    /// Half duty, free running: outputs enabled.
    Half,
}

/// How the blank input is driven; its "outputs disabled" level depends on it.
#[derive(Clone, Copy, Debug, PartialEq, Eq, Structural)]
pub enum BlankDrive {
    /// A digital output: high disables the outputs, low enables them.
    Pin,
    /// A pulse generator: full duty disables the outputs, half duty enables them.
    Generator,
}

/// One operation on the hardware.
#[derive(Clone, Copy, Debug, PartialEq, Eq, Structural)]
pub enum Op {
    /// Drive a digital output to a level (`true` is high).
    Drive(Line, bool),
    /// Drive a digital output high, then low.
    Pulse(Line),
    /// Set the duty cycle of the blank pulse generator.
    BlankDuty(Duty),
    /// Send one command byte on the serial bus.
    Command(u8),
    /// Send the transaction's payload on the serial bus.
    Transfer,
    /// Repeatedly send the given status command and read one status byte
    /// until the device no longer reports a write in progress.
    AwaitReady(u8),
}

/// Level of line `l` after running `ops` from level `start`.
pub open spec fn level_after(start: bool, ops: Seq<Op>, l: Line) -> bool
    decreases ops.len(),
{
    if ops.len() == 0 {
        start
    } else {
        let rest = level_after(start, ops.drop_last(), l);
        match ops.last() {
            Op::Drive(m, v) => if m == l {
                v
            } else {
                rest
            },
            Op::Pulse(m) => if m == l {
                false
            } else {
                rest
            },
            _ => rest,
        }
    }
}

/// Duty of the blank generator after running `ops` from duty `start`.
pub open spec fn duty_after(start: Duty, ops: Seq<Op>) -> Duty
    decreases ops.len(),
{
    if ops.len() == 0 {
        start
    } else {
        match ops.last() {
            Op::BlankDuty(d) => d,
            _ => duty_after(start, ops.drop_last()),
        }
    }
}

/// Whether the blank input, driven as `drive`, holds the outputs disabled
/// given the blank line's level and the blank generator's duty.
pub open spec fn outputs_disabled(drive: BlankDrive, blank_level: bool, duty: Duty) -> bool {
    match drive {
        BlankDrive::Pin => blank_level,
        BlankDrive::Generator => duty == Duty::Full,
    }
}

/// Number of pulses on line `l` in `ops`.
pub open spec fn pulse_count(ops: Seq<Op>, l: Line) -> nat
    decreases ops.len(),
{
    if ops.len() == 0 {
        0
    } else {
        pulse_count(ops.drop_last(), l) + if ops.last() == Op::Pulse(l) {
            1nat
        } else {
            0nat
        }
    }
}

/// Pulses on a line add up over concatenated operation sequences.
pub proof fn lemma_pulse_count_concat(a: Seq<Op>, b: Seq<Op>, l: Line)
    ensures
        pulse_count(a + b, l) == pulse_count(a, l) + pulse_count(b, l),
    decreases b.len(),
{
    if b.len() > 0 {
        lemma_pulse_count_concat(a, b.drop_last(), l);
        assert((a + b).drop_last() =~= a + b.drop_last());
    } else {
        assert(a + b =~= a);
    }
}

/// The operation that disables the outputs.
pub open spec fn disable_op(drive: BlankDrive) -> Op {
    match drive {
        BlankDrive::Pin => Op::Drive(Line::Blank, true),
        BlankDrive::Generator => Op::BlankDuty(Duty::Full),
    }
}

/// The operation that enables the outputs.
pub open spec fn enable_op(drive: BlankDrive) -> Op {
    match drive {
        BlankDrive::Pin => Op::Drive(Line::Blank, false),
        BlankDrive::Generator => Op::BlankDuty(Duty::Half),
    }
}

/// Returns the operation that disables the outputs.
pub fn disable_outputs(drive: BlankDrive) -> (r: Op)
    ensures
        r == disable_op(drive),
{
    match drive {
        BlankDrive::Pin => Op::Drive(Line::Blank, true),
        BlankDrive::Generator => Op::BlankDuty(Duty::Full),
    }
}

/// Returns the operation that enables the outputs.
pub fn enable_outputs(drive: BlankDrive) -> (r: Op)
    ensures
        r == enable_op(drive),
{
    match drive {
        BlankDrive::Pin => Op::Drive(Line::Blank, false),
        BlankDrive::Generator => Op::BlankDuty(Duty::Half),
    }
}

} // verus!
