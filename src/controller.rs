//! The driver handle: the channel buffer, the transport it was built for,
//! and the update engine that turns the buffer into one hardware
//! transaction.
use vstd::prelude::*;
use crate::packing::{
    channel_bit, channel_bit_value, pack_channels, packed, stream_bit, stream_bit_value, stream_len,
};
use crate::signal::{
    disable_op, disable_outputs, duty_after, enable_op, enable_outputs, level_after,
    lemma_pulse_count_concat, outputs_disabled, pulse_count, BlankDrive, Duty, Line, Op,
};

verus! {

/// Serial-flash style "write enable" command, sent before a framed payload.
pub const WREN: u8 = 0b0110;

/// Serial-flash style "write" command, the first byte of a framed payload.
pub const WRITE: u8 = 0b0010;

/// Serial-flash style "read status register" command.
pub const RDSR: u8 = 0b0101;

/// Write-in-progress bit of the status byte.
pub const WIP: u8 = 1;

/// Greyscale clock ticks in one full 12-bit PWM cycle.
pub const GS_CYCLE: usize = 4096;

/// Extra framing around a bulk transfer.
#[derive(Clone, Copy, Debug, PartialEq, Eq, Structural)]
pub enum Framing {
    /// The packed stream alone.
    Plain,
    /// A write-enable command first, then the write command and three zero
    /// address bytes ahead of the packed stream, then a status poll until
    /// the write is no longer in progress.
    WriteEnable,
}

/// How channel data and the greyscale clock reach the chip.
#[derive(Clone, Copy, Debug, PartialEq, Eq, Structural)]
pub enum Strategy {
    /// Data, shift clock and greyscale clock are all software-pulsed
    /// digital outputs; an update drives one full greyscale cycle.
    SoftwareClock,
    /// Data and shift clock are software-pulsed; the greyscale clock is a
    /// free-running pulse generator that the update never touches.
    HardwareClock,
    /// The packed stream goes out in one bulk serial transfer; the
    /// greyscale clock is a free-running pulse generator.
    Bulk(Framing),
}

/// The transport a driver is built for.
#[derive(Clone, Copy, Debug, PartialEq, Eq, Structural)]
pub struct Transport {
    pub strategy: Strategy,
    pub blank: BlankDrive,
}

/// The hardware work of one update: operations to run in order, and the
/// bytes that `Op::Transfer` sends.
pub struct Transaction {
    pub ops: Vec<Op>,
    pub payload: Vec<u8>,
}

/// A buffer of `n` channels all holding `value`.
pub open spec fn all_set(n: nat, value: u16) -> Seq<u16> {
    Seq::new(n, |_i: int| value)
}

/// The effect of `set_channel(i, value)` for `i` in `0..m`, in order.
pub open spec fn channel_writes(colors: Seq<u16>, value: u16, m: nat) -> Seq<u16>
    decreases m,
{
    if m == 0 {
        colors
    } else {
        channel_writes(colors, value, (m - 1) as nat).update(m - 1, value)
    }
}

/// Operations of the first `m` bits of a bit-banged shift: set the data
/// line to the bit, pulse the shift clock.
pub open spec fn shifts(colors: Seq<u16>, m: nat) -> Seq<Op>
    decreases m,
{
    if m == 0 {
        seq![]
    } else {
        shifts(colors, (m - 1) as nat) + seq![
            Op::Drive(Line::Sin, stream_bit(colors, m - 1)),
            Op::Pulse(Line::Sclk),
        ]
    }
}

/// Operations of greyscale tick `t` when the greyscale clock is
/// software-pulsed: while stream bits remain, shift the next one; once
/// they run out, drive the data line low; pulse the greyscale clock.
pub open spec fn tick_ops(colors: Seq<u16>, t: int) -> Seq<Op> {
    let nbits = stream_len(colors.len());
    if t < nbits {
        seq![
            Op::Drive(Line::Sin, stream_bit(colors, t)),
            Op::Pulse(Line::Sclk),
            Op::Pulse(Line::Gsclk),
        ]
    } else if t == nbits {
        seq![Op::Drive(Line::Sin, false), Op::Pulse(Line::Gsclk)]
    } else {
        seq![Op::Pulse(Line::Gsclk)]
    }
}

/// Operations of the first `m` greyscale ticks.
pub open spec fn ticks(colors: Seq<u16>, m: nat) -> Seq<Op>
    decreases m,
{
    if m == 0 {
        seq![]
    } else {
        ticks(colors, (m - 1) as nat) + tick_ops(colors, m - 1)
    }
}

/// Operations that bring the owned outputs to their idle levels: data,
/// clocks and latch low, outputs disabled.
pub open spec fn init_plan(t: Transport) -> Seq<Op> {
    let pins = match t.strategy {
        Strategy::SoftwareClock => seq![
            Op::Drive(Line::Sin, false),
            Op::Drive(Line::Sclk, false),
            Op::Drive(Line::Gsclk, false),
        ],
        Strategy::HardwareClock => seq![Op::Drive(Line::Sin, false), Op::Drive(Line::Sclk, false)],
        Strategy::Bulk(_) => seq![],
    };
    pins + seq![Op::Drive(Line::Xlat, false), disable_op(t.blank)]
}

/// The transfer part of an update.
pub open spec fn transfer_plan(t: Transport, colors: Seq<u16>) -> Seq<Op> {
    match t.strategy {
        Strategy::SoftwareClock => ticks(colors, GS_CYCLE as nat),
        Strategy::HardwareClock => shifts(colors, stream_len(colors.len())) + seq![
            Op::Drive(Line::Sin, false),
        ],
        Strategy::Bulk(Framing::Plain) => seq![Op::Transfer],
        Strategy::Bulk(Framing::WriteEnable) => seq![
            Op::Command(WREN),
            Op::Transfer,
            Op::AwaitReady(RDSR),
        ],
    }
}

/// The operations of an update: disable the outputs, transfer the
/// stream, pulse the latch, enable the outputs.
pub open spec fn update_plan(t: Transport, colors: Seq<u16>) -> Seq<Op> {
    seq![disable_op(t.blank)] + transfer_plan(t, colors) + seq![
        Op::Pulse(Line::Xlat),
        enable_op(t.blank),
    ]
}

/// The bytes a bulk transfer sends; empty for the bit-banged strategies.
pub open spec fn update_payload(t: Transport, colors: Seq<u16>) -> Seq<u8> {
    match t.strategy {
        Strategy::Bulk(Framing::Plain) => packed(colors),
        Strategy::Bulk(Framing::WriteEnable) => seq![WRITE, 0u8, 0u8, 0u8] + packed(colors),
        _ => seq![],
    }
}

/// Whether a status byte reports a write in progress.
pub fn write_in_progress(status: u8) -> (r: bool)
    ensures
        r == (status & WIP != 0),
{
    status & WIP != 0
}

/// Driver for one chip: a fixed-length buffer of channel intensities and
/// the transport it is wired through.
pub struct TlcController {
    colors: Vec<u16>,
    transport: Transport,
}

impl View for TlcController {
    type V = Seq<u16>;

    closed spec fn view(&self) -> Seq<u16> {
        self.colors@
    }
}

impl TlcController {
    /// The transport the driver was built for.
    pub closed spec fn transport_spec(&self) -> Transport {
        self.transport
    }

    /// The channel count leaves room for the packed stream's length.
    pub open spec fn wf(&self) -> bool {
        12 * self@.len() + 7 <= usize::MAX
    }

    /// A driver for `len` channels, all zero.
    pub fn new(len: usize, transport: Transport) -> (r: Self)
        requires
            12 * len + 7 <= usize::MAX,
        ensures
            r.wf(),
            r@ == all_set(len as nat, 0),
            r.transport_spec() == transport,
    {
        let colors: Vec<u16> = vec![0u16; len];
        let r = TlcController { colors, transport };
        assert(r@ =~= all_set(len as nat, 0));
        r
    }

    /// The transport the driver was built for.
    pub fn transport(&self) -> (r: Transport)
        ensures
            r == self.transport_spec(),
    {
        self.transport
    }

    /// Number of channels.
    pub fn len(&self) -> (r: usize)
        ensures
            r == self@.len(),
    {
        self.colors.len()
    }

    /// Intensity of channel `channel`.
    pub fn channel(&self, channel: usize) -> (r: u16)
        requires
            channel < self@.len(),
        ensures
            r == self@[channel as int],
    {
        self.colors[channel]
    }

    /// Bit `bit` of channel `channel`, as the level to put on the data line.
    pub fn get_pin_value_for_channel(&self, channel: usize, bit: u8) -> (r: bool)
        requires
            channel < self@.len(),
            bit < 16,
        ensures
            r == channel_bit(self@[channel as int], bit as u16),
    {
        channel_bit_value(self.colors[channel], bit)
    }

    /// Writes one channel's intensity.
    pub fn set_channel(&mut self, channel: usize, color: u16)
        requires
            channel < old(self)@.len(),
        ensures
            final(self)@ == old(self)@.update(channel as int, color),
            final(self).transport_spec() == old(self).transport_spec(),
    {
        self.colors.set(channel, color);
    }

    /// Writes the same intensity to every channel.
    pub fn set_all(&mut self, value: u16)
        ensures
            final(self)@ == all_set(old(self)@.len(), value),
            final(self).transport_spec() == old(self).transport_spec(),
    {
        let n = self.colors.len();
        let mut i: usize = 0;
        while i < n
            invariant
                n == self.colors@.len(),
                n == old(self).colors@.len(),
                i <= n,
                self.transport == old(self).transport,
                forall|j: int| 0 <= j < i ==> self.colors@[j] == value,
            decreases n - i,
        {
            self.colors.set(i, value);
            i = i + 1;
        }
        assert(self@ =~= all_set(n as nat, value));
    }

    /// Sets every channel to zero, as `set_all(0)` does.
    pub fn clear(&mut self)
        ensures
            final(self)@ == all_set(old(self)@.len(), 0),
            final(self).transport_spec() == old(self).transport_spec(),
    {
        self.set_all(0);
    }

    /// The operations that bring the outputs to their idle levels; run
    /// them once before the first update.
    pub fn initialize(&self) -> (r: Vec<Op>)
        ensures
            r@ == init_plan(self.transport_spec()),
    {
        let mut ops: Vec<Op> = Vec::new();
        match self.transport.strategy {
            Strategy::SoftwareClock => {
                ops.push(Op::Drive(Line::Sin, false));
                ops.push(Op::Drive(Line::Sclk, false));
                ops.push(Op::Drive(Line::Gsclk, false));
            },
            Strategy::HardwareClock => {
                ops.push(Op::Drive(Line::Sin, false));
                ops.push(Op::Drive(Line::Sclk, false));
            },
            Strategy::Bulk(_) => {},
        }
        ops.push(Op::Drive(Line::Xlat, false));
        ops.push(disable_outputs(self.transport.blank));
        assert(ops@ =~= init_plan(self.transport));
        ops
    }

    /// A single pulse of the blank line, where it is a digital output.
    pub fn pulse_blank(&self) -> (r: Option<Vec<Op>>)
        ensures
            self.transport_spec().blank == BlankDrive::Pin ==> r.is_some() && r.unwrap()@ == seq![
                Op::Pulse(Line::Blank),
            ],
            self.transport_spec().blank == BlankDrive::Generator ==> r.is_none(),
    {
        match self.transport.blank {
            BlankDrive::Pin => {
                let mut ops: Vec<Op> = Vec::new();
                ops.push(Op::Pulse(Line::Blank));
                Some(ops)
            },
            BlankDrive::Generator => None,
        }
    }

    /// Appends the bit-banged shift of the whole stream.
    fn push_shifts(&self, ops: &mut Vec<Op>)
        requires
            self.wf(),
        ensures
            final(ops)@ == old(ops)@ + shifts(self@, stream_len(self@.len())),
    {
        let nbits = 12 * self.colors.len();
        let ghost start = ops@;
        let mut k: usize = 0;
        while k < nbits
            invariant
                nbits == stream_len(self@.len()),
                k <= nbits,
                ops@ == start + shifts(self@, k as nat),
            decreases nbits - k,
        {
            let bit = stream_bit_value(self.colors.as_slice(), k);
            ops.push(Op::Drive(Line::Sin, bit));
            ops.push(Op::Pulse(Line::Sclk));
            k = k + 1;
            assert(ops@ =~= start + shifts(self@, k as nat));
        }
    }

    /// Appends one full greyscale cycle of software-clocked ticks, with
    /// the stream shifted in during the first ticks.
    fn push_ticks(&self, ops: &mut Vec<Op>)
        requires
            self.wf(),
        ensures
            final(ops)@ == old(ops)@ + ticks(self@, GS_CYCLE as nat),
    {
        let nbits = 12 * self.colors.len();
        let ghost start = ops@;
        let mut t: usize = 0;
        while t < GS_CYCLE
            invariant
                nbits == stream_len(self@.len()),
                t <= GS_CYCLE,
                ops@ == start + ticks(self@, t as nat),
            decreases GS_CYCLE - t,
        {
            if t < nbits {
                let bit = stream_bit_value(self.colors.as_slice(), t);
                ops.push(Op::Drive(Line::Sin, bit));
                ops.push(Op::Pulse(Line::Sclk));
            } else if t == nbits {
                ops.push(Op::Drive(Line::Sin, false));
            }
            ops.push(Op::Pulse(Line::Gsclk));
            t = t + 1;
            assert(ops@ =~= start + ticks(self@, t as nat));
        }
    }

    /// The hardware transaction that pushes the buffer into the chip and
    /// latches it.
    pub fn update(&self) -> (r: Transaction)
        requires
            self.wf(),
        ensures
            r.ops@ == update_plan(self.transport_spec(), self@),
            r.payload@ == update_payload(self.transport_spec(), self@),
    {
        let mut ops: Vec<Op> = Vec::new();
        ops.push(disable_outputs(self.transport.blank));
        let ghost head = ops@;
        let mut payload: Vec<u8> = Vec::new();
        match self.transport.strategy {
            Strategy::SoftwareClock => {
                self.push_ticks(&mut ops);
            },
            Strategy::HardwareClock => {
                self.push_shifts(&mut ops);
                ops.push(Op::Drive(Line::Sin, false));
            },
            Strategy::Bulk(Framing::Plain) => {
                payload = pack_channels(self.colors.as_slice());
                ops.push(Op::Transfer);
            },
            Strategy::Bulk(Framing::WriteEnable) => {
                payload.push(WRITE);
                payload.push(0u8);
                payload.push(0u8);
                payload.push(0u8);
                let mut data = pack_channels(self.colors.as_slice());
                payload.append(&mut data);
                ops.push(Op::Command(WREN));
                ops.push(Op::Transfer);
                ops.push(Op::AwaitReady(RDSR));
            },
        }
        assert(ops@ =~= head + transfer_plan(self.transport, self@));
        ops.push(Op::Pulse(Line::Xlat));
        ops.push(enable_outputs(self.transport.blank));
        assert(ops@ =~= update_plan(self.transport, self@));
        assert(payload@ =~= update_payload(self.transport, self@));
        Transaction { ops, payload }
    }
}

/// Setting every channel to `value` one `set_channel` call at a time, in
/// index order, gives the buffer that `set_all(value)` gives.
pub proof fn lemma_set_all_is_each_set_channel(colors: Seq<u16>, value: u16)
    ensures
        channel_writes(colors, value, colors.len()) == all_set(colors.len(), value),
{
    lemma_channel_writes(colors, value, colors.len());
    assert(channel_writes(colors, value, colors.len()) =~= all_set(colors.len(), value));
}

proof fn lemma_channel_writes(colors: Seq<u16>, value: u16, m: nat)
    requires
        m <= colors.len(),
    ensures
        channel_writes(colors, value, m).len() == colors.len(),
        forall|j: int|
            0 <= j < colors.len() ==> #[trigger] channel_writes(colors, value, m)[j] == if j < m {
                value
            } else {
                colors[j]
            },
    decreases m,
{
    if m > 0 {
        lemma_channel_writes(colors, value, (m - 1) as nat);
    }
}

proof fn lemma_tick_counts(colors: Seq<u16>, t: int)
    ensures
        pulse_count(tick_ops(colors, t), Line::Gsclk) == 1,
        pulse_count(tick_ops(colors, t), Line::Sclk) == if t < stream_len(colors.len()) {
            1nat
        } else {
            0nat
        },
{
    reveal_with_fuel(pulse_count, 4);
    let ops = tick_ops(colors, t);
    if t < stream_len(colors.len()) {
        assert(ops.drop_last() =~= seq![ops[0], ops[1]]);
        assert(ops.drop_last().drop_last() =~= seq![ops[0]]);
        assert(ops.drop_last().drop_last().drop_last() =~= seq![]);
    } else if t == stream_len(colors.len()) {
        assert(ops.drop_last() =~= seq![ops[0]]);
        assert(ops.drop_last().drop_last() =~= seq![]);
    } else {
        assert(ops.drop_last() =~= seq![]);
    }
}

proof fn lemma_ticks_counts(colors: Seq<u16>, m: nat)
    ensures
        pulse_count(ticks(colors, m), Line::Gsclk) == m,
        pulse_count(ticks(colors, m), Line::Sclk) == if m < stream_len(colors.len()) {
            m
        } else {
            stream_len(colors.len())
        },
    decreases m,
{
    if m > 0 {
        let prev = ticks(colors, (m - 1) as nat);
        lemma_ticks_counts(colors, (m - 1) as nat);
        lemma_tick_counts(colors, m - 1);
        lemma_pulse_count_concat(prev, tick_ops(colors, m - 1), Line::Gsclk);
        lemma_pulse_count_concat(prev, tick_ops(colors, m - 1), Line::Sclk);
    }
}

proof fn lemma_shifts_counts(colors: Seq<u16>, m: nat)
    ensures
        pulse_count(shifts(colors, m), Line::Gsclk) == 0,
        pulse_count(shifts(colors, m), Line::Sclk) == m,
    decreases m,
{
    if m > 0 {
        reveal_with_fuel(pulse_count, 3);
        let prev = shifts(colors, (m - 1) as nat);
        let step = seq![
            Op::Drive(Line::Sin, stream_bit(colors, m - 1)),
            Op::Pulse(Line::Sclk),
        ];
        lemma_shifts_counts(colors, (m - 1) as nat);
        assert(step.drop_last() =~= seq![step[0]]);
        assert(step.drop_last().drop_last() =~= seq![]);
        lemma_pulse_count_concat(prev, step, Line::Gsclk);
        lemma_pulse_count_concat(prev, step, Line::Sclk);
    }
}

proof fn lemma_frame_counts(t: Transport, body: Seq<Op>, l: Line)
    requires
        l != Line::Xlat,
    ensures
        pulse_count(
            seq![disable_op(t.blank)] + body + seq![Op::Pulse(Line::Xlat), enable_op(t.blank)],
            l,
        ) == pulse_count(body, l),
{
    reveal_with_fuel(pulse_count, 3);
    let head = seq![disable_op(t.blank)];
    let tail = seq![Op::Pulse(Line::Xlat), enable_op(t.blank)];
    assert(head.drop_last() =~= seq![]);
    assert(tail.drop_last() =~= seq![tail[0]]);
    assert(tail.drop_last().drop_last() =~= seq![]);
    lemma_pulse_count_concat(head, body, l);
    lemma_pulse_count_concat(head + body, tail, l);
}

/// Greyscale cycle of a software-clocked update: the update is one tick
/// sequence between the blanking operations; every one of its `GS_CYCLE`
/// ticks pulses the greyscale clock once, the first `12 n` ticks each
/// pulse the shift clock once and the rest never do. So the update pulses
/// the greyscale clock exactly `GS_CYCLE` times and the shift clock exactly
/// `12 n` times, provided the stream fits into one cycle.
pub proof fn lemma_software_clock_cycle(t: Transport, colors: Seq<u16>)
    requires
        t.strategy == Strategy::SoftwareClock,
        stream_len(colors.len()) <= GS_CYCLE,
    ensures
        update_plan(t, colors) == seq![disable_op(t.blank)] + ticks(colors, GS_CYCLE as nat)
            + seq![Op::Pulse(Line::Xlat), enable_op(t.blank)],
        forall|i: int|
            0 <= i < GS_CYCLE ==> pulse_count(#[trigger] tick_ops(colors, i), Line::Gsclk) == 1
                && pulse_count(tick_ops(colors, i), Line::Sclk) == if i < stream_len(
                colors.len(),
            ) {
                1nat
            } else {
                0nat
            },
        pulse_count(update_plan(t, colors), Line::Gsclk) == GS_CYCLE,
        pulse_count(update_plan(t, colors), Line::Sclk) == stream_len(colors.len()),
{
    assert forall|i: int| 0 <= i < GS_CYCLE implies pulse_count(
        #[trigger] tick_ops(colors, i),
        Line::Gsclk,
    ) == 1 && pulse_count(tick_ops(colors, i), Line::Sclk) == if i < stream_len(colors.len()) {
        1nat
    } else {
        0nat
    } by {
        lemma_tick_counts(colors, i);
    }
    lemma_ticks_counts(colors, GS_CYCLE as nat);
    lemma_frame_counts(t, ticks(colors, GS_CYCLE as nat), Line::Gsclk);
    lemma_frame_counts(t, ticks(colors, GS_CYCLE as nat), Line::Sclk);
}

/// With a free-running greyscale generator, a bit-banged update never
/// pulses the greyscale clock and pulses the shift clock exactly `12 n`
/// times.
pub proof fn lemma_hardware_clock_shifts(t: Transport, colors: Seq<u16>)
    requires
        t.strategy == Strategy::HardwareClock,
    ensures
        pulse_count(update_plan(t, colors), Line::Gsclk) == 0,
        pulse_count(update_plan(t, colors), Line::Sclk) == stream_len(colors.len()),
{
    let n = stream_len(colors.len());
    let low = seq![Op::Drive(Line::Sin, false)];
    reveal_with_fuel(pulse_count, 2);
    assert(low.drop_last() =~= seq![]);
    lemma_shifts_counts(colors, n);
    lemma_pulse_count_concat(shifts(colors, n), low, Line::Gsclk);
    lemma_pulse_count_concat(shifts(colors, n), low, Line::Sclk);
    lemma_frame_counts(t, transfer_plan(t, colors), Line::Gsclk);
    lemma_frame_counts(t, transfer_plan(t, colors), Line::Sclk);
}

/// Idle safety after initialization: whatever the lines held before,
/// running the initialization leaves the outputs disabled and the latch low.
pub proof fn lemma_idle_after_init(t: Transport, start: bool, duty: Duty)
    ensures
        outputs_disabled(
            t.blank,
            level_after(start, init_plan(t), Line::Blank),
            duty_after(duty, init_plan(t)),
        ),
        !level_after(start, init_plan(t), Line::Xlat),
{
    let ops = init_plan(t);
    reveal_with_fuel(level_after, 2);
    assert(ops.last() == disable_op(t.blank));
    assert(ops.drop_last().last() == Op::Drive(Line::Xlat, false));
}

/// Idle safety after an update: whatever the lines held before, running an
/// update leaves the outputs enabled and the latch low.
pub proof fn lemma_idle_after_update(t: Transport, colors: Seq<u16>, start: bool, duty: Duty)
    ensures
        !outputs_disabled(
            t.blank,
            level_after(start, update_plan(t, colors), Line::Blank),
            duty_after(duty, update_plan(t, colors)),
        ),
        !level_after(start, update_plan(t, colors), Line::Xlat),
{
    let ops = update_plan(t, colors);
    reveal_with_fuel(level_after, 2);
    assert(ops.last() == enable_op(t.blank));
    assert(ops.drop_last().last() == Op::Pulse(Line::Xlat));
}

/// Updating twice with the same transport and the same buffer contents
/// produces identical transactions, byte for byte.
pub proof fn lemma_update_repeatable(a: TlcController, b: TlcController)
    requires
        a.transport_spec() == b.transport_spec(),
        a@ == b@,
    ensures
        update_plan(a.transport_spec(), a@) == update_plan(b.transport_spec(), b@),
        update_payload(a.transport_spec(), a@) == update_payload(b.transport_spec(), b@),
{
}

} // verus!
