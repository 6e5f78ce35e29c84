use tlc5940::{
    pack_channels, stream_bit_value, write_in_progress, BlankDrive, Duty, Framing, Line, Op,
    Strategy, TlcController, Transport, GS_CYCLE, RDSR, WREN, WRITE,
};

fn transport(strategy: Strategy, blank: BlankDrive) -> Transport {
    Transport { strategy, blank }
}

fn bulk_plain() -> Transport {
    transport(Strategy::Bulk(Framing::Plain), BlankDrive::Generator)
}

fn unpack_channel(bytes: &[u8], n: usize, c: usize) -> u16 {
    let base = 12 * (n - 1 - c);
    let mut v: u16 = 0;
    for b in 0..12 {
        let k = base + 11 - b;
        if (bytes[k / 8] >> (k % 8)) & 1 == 1 {
            v |= 1 << b;
        }
    }
    v
}

fn pulses(ops: &[Op], line: Line) -> usize {
    ops.iter().filter(|op| **op == Op::Pulse(line)).count()
}

#[test]
fn test() {
    const LEN: usize = 48;
    let t = transport(Strategy::Bulk(Framing::WriteEnable), BlankDrive::Pin);
    let mut ctrl = TlcController::new(LEN, t);
    ctrl.set_channel(3, 2312);
    let tx = ctrl.update();
    assert_eq!(
        tx.ops,
        vec![
            Op::Drive(Line::Blank, true),
            Op::Command(WREN),
            Op::Transfer,
            Op::AwaitReady(RDSR),
            Op::Pulse(Line::Xlat),
            Op::Drive(Line::Blank, false),
        ]
    );
    assert_eq!(tx.payload.len(), 76);
    assert_eq!(&tx.payload[..4], &[WRITE, 0, 0, 0]);
    for (j, byte) in tx.payload[4..].iter().enumerate() {
        let expected = match j {
            66 => 0x09,
            67 => 0x01,
            _ => 0,
        };
        assert_eq!(*byte, expected, "byte {}", j);
    }
}

#[test]
fn set_channel_reads_back_and_touches_nothing_else() {
    let mut ctrl = TlcController::new(16, bulk_plain());
    ctrl.set_all(7);
    ctrl.set_channel(5, 4095);
    for i in 0..16 {
        assert_eq!(ctrl.channel(i), if i == 5 { 4095 } else { 7 });
    }
    assert_eq!(ctrl.len(), 16);
}

#[test]
fn set_all_matches_each_set_channel() {
    let mut a = TlcController::new(10, bulk_plain());
    let mut b = TlcController::new(10, bulk_plain());
    a.set_channel(2, 99);
    b.set_channel(2, 99);
    a.set_all(1234);
    for i in 0..10 {
        b.set_channel(i, 1234);
    }
    for i in 0..10 {
        assert_eq!(a.channel(i), b.channel(i));
        assert_eq!(a.channel(i), 1234);
    }
}

#[test]
fn clear_matches_set_all_zero() {
    let mut a = TlcController::new(8, bulk_plain());
    let mut b = TlcController::new(8, bulk_plain());
    a.set_all(300);
    b.set_all(300);
    a.clear();
    b.set_all(0);
    for i in 0..8 {
        assert_eq!(a.channel(i), 0);
        assert_eq!(a.channel(i), b.channel(i));
    }
}

#[test]
fn packed_length_is_ceiling_of_twelve_n_over_eight() {
    for (n, len) in [(0usize, 0usize), (1, 2), (2, 3), (3, 5), (4, 6), (16, 24), (48, 72)] {
        assert_eq!(pack_channels(&vec![0u16; n]).len(), len, "n = {}", n);
    }
}

#[test]
fn pack_single_channel_exact_bytes() {
    assert_eq!(pack_channels(&[0x0abc]), vec![0xd5, 0x03]);
}

#[test]
fn pack_last_channel_goes_first() {
    assert_eq!(pack_channels(&[0x0fff, 0x0000]), vec![0x00, 0xf0, 0xff]);
    assert_eq!(pack_channels(&[0x0000, 0x0fff]), vec![0xff, 0x0f, 0x00]);
}

#[test]
fn pack_round_trip() {
    let colors: Vec<u16> = (0..48u16).map(|i| (i * 977 + 13) & 0x0fff).collect();
    let bytes = pack_channels(&colors);
    assert_eq!(bytes.len(), 72);
    for c in 0..48 {
        assert_eq!(unpack_channel(&bytes, 48, c), colors[c]);
    }
}

#[test]
fn pack_ignores_high_bits() {
    let low: Vec<u16> = vec![0x0908, 0x0123, 0x0fff];
    let high: Vec<u16> = vec![0xf908, 0x1123, 0xffff];
    assert_eq!(pack_channels(&low), pack_channels(&high));
}

#[test]
fn all_zero_bulk_payload() {
    let mut ctrl = TlcController::new(48, bulk_plain());
    ctrl.set_all(0);
    let tx = ctrl.update();
    assert_eq!(tx.payload, vec![0u8; 72]);
    assert_eq!(
        tx.ops,
        vec![
            Op::BlankDuty(Duty::Full),
            Op::Transfer,
            Op::Pulse(Line::Xlat),
            Op::BlankDuty(Duty::Half),
        ]
    );
}

#[test]
fn single_channel_bulk_payload() {
    let mut ctrl = TlcController::new(48, bulk_plain());
    ctrl.set_channel(3, 2312);
    let tx = ctrl.update();
    assert_eq!(tx.payload.len(), 72);
    for (j, byte) in tx.payload.iter().enumerate() {
        let expected = match j {
            66 => 0x09,
            67 => 0x01,
            _ => 0,
        };
        assert_eq!(*byte, expected, "byte {}", j);
    }
}

#[test]
fn single_channel_bit_banged_stream() {
    let t = transport(Strategy::HardwareClock, BlankDrive::Pin);
    let mut ctrl = TlcController::new(48, t);
    ctrl.set_channel(3, 2312);
    let tx = ctrl.update();
    let bits: Vec<bool> = tx
        .ops
        .iter()
        .filter_map(|op| match op {
            Op::Drive(Line::Sin, v) => Some(*v),
            _ => None,
        })
        .collect();
    // one level per shifted bit, then the data line is driven low
    assert_eq!(bits.len(), 48 * 12 + 1);
    let pattern = [true, false, false, true, false, false, false, false, true, false, false, false];
    for (k, bit) in bits[..576].iter().enumerate() {
        let expected = (528..540).contains(&k) && pattern[k - 528];
        assert_eq!(*bit, expected, "bit {}", k);
    }
    assert!(!bits[576]);
    assert_eq!(pulses(&tx.ops, Line::Sclk), 576);
    assert_eq!(pulses(&tx.ops, Line::Gsclk), 0);
    assert_eq!(tx.payload.len(), 0);
}

#[test]
fn software_clock_cycle_counts() {
    let t = transport(Strategy::SoftwareClock, BlankDrive::Pin);
    let mut ctrl = TlcController::new(48, t);
    ctrl.set_channel(0, 4095);
    let tx = ctrl.update();
    assert_eq!(pulses(&tx.ops, Line::Gsclk), GS_CYCLE);
    assert_eq!(pulses(&tx.ops, Line::Sclk), 576);
    let mut ticks_seen = 0usize;
    for op in &tx.ops {
        match op {
            Op::Pulse(Line::Gsclk) => ticks_seen += 1,
            Op::Pulse(Line::Sclk) => assert!(ticks_seen < 576),
            _ => {}
        }
    }
    assert_eq!(ticks_seen, GS_CYCLE);
}

#[test]
fn software_clock_cycle_counts_for_one_channel() {
    let t = transport(Strategy::SoftwareClock, BlankDrive::Generator);
    let ctrl = TlcController::new(1, t);
    let tx = ctrl.update();
    assert_eq!(pulses(&tx.ops, Line::Gsclk), GS_CYCLE);
    assert_eq!(pulses(&tx.ops, Line::Sclk), 12);
}

#[test]
fn idle_levels_after_initialize_and_update() {
    let pin = transport(Strategy::HardwareClock, BlankDrive::Pin);
    let ctrl = TlcController::new(16, pin);
    let init = ctrl.initialize();
    assert_eq!(
        init,
        vec![
            Op::Drive(Line::Sin, false),
            Op::Drive(Line::Sclk, false),
            Op::Drive(Line::Xlat, false),
            Op::Drive(Line::Blank, true),
        ]
    );
    let ops = ctrl.update().ops;
    assert_eq!(ops[0], Op::Drive(Line::Blank, true));
    assert_eq!(&ops[ops.len() - 2..], &[Op::Pulse(Line::Xlat), Op::Drive(Line::Blank, false)]);

    let generator = TlcController::new(16, bulk_plain());
    assert_eq!(
        generator.initialize(),
        vec![Op::Drive(Line::Xlat, false), Op::BlankDuty(Duty::Full)]
    );
    let ops = generator.update().ops;
    assert_eq!(ops.last(), Some(&Op::BlankDuty(Duty::Half)));
}

#[test]
fn update_twice_is_identical() {
    let mut ctrl = TlcController::new(48, bulk_plain());
    ctrl.set_channel(7, 1000);
    ctrl.set_channel(40, 4095);
    let a = ctrl.update();
    let b = ctrl.update();
    assert_eq!(a.ops, b.ops);
    assert_eq!(a.payload, b.payload);
}

#[test]
fn pulse_blank_only_on_a_pin() {
    let pin = TlcController::new(4, transport(Strategy::Bulk(Framing::Plain), BlankDrive::Pin));
    assert_eq!(pin.pulse_blank(), Some(vec![Op::Pulse(Line::Blank)]));
    assert_eq!(TlcController::new(4, bulk_plain()).pulse_blank(), None);
}

#[test]
fn status_write_in_progress_bit() {
    assert!(write_in_progress(0x01));
    assert!(write_in_progress(0x83));
    assert!(!write_in_progress(0x00));
    assert!(!write_in_progress(0x02));
}

#[test]
fn channel_bits_and_stream_bits() {
    let mut ctrl = TlcController::new(2, bulk_plain());
    ctrl.set_channel(0, 0x0801);
    assert!(ctrl.get_pin_value_for_channel(0, 11));
    assert!(ctrl.get_pin_value_for_channel(0, 0));
    assert!(!ctrl.get_pin_value_for_channel(0, 1));
    assert!(!ctrl.get_pin_value_for_channel(1, 11));
    let colors = [0x0801u16, 0x0000];
    assert!(!stream_bit_value(&colors, 0));
    assert!(stream_bit_value(&colors, 12));
    assert!(stream_bit_value(&colors, 23));
    assert!(!stream_bit_value(&colors, 22));
}
