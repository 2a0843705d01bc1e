use ecg::session::{
    blocking_flags, clear_thumb_bit, start_ops, up_channel_flags_address, ProbeOp, HALT_WAIT_MS,
};

#[test]
fn flag_word_follows_the_control_block() {
    assert_eq!(up_channel_flags_address(0x2000_0000), Some(0x2000_002C));
    assert_eq!(up_channel_flags_address(u32::MAX - 44), Some(u32::MAX));
    assert_eq!(up_channel_flags_address(u32::MAX - 43), None);
}

#[test]
fn blocking_mode_keeps_other_bits() {
    assert_eq!(blocking_flags(0), 2);
    assert_eq!(blocking_flags(0b01), 0b10);
    assert_eq!(blocking_flags(0b11), 0b10);
    assert_eq!(blocking_flags(0xFFFF_FFFF), 0xFFFF_FFFE);
    assert_eq!(blocking_flags(0x1234_5671), 0x1234_5672);
}

#[test]
fn thumb_bit_is_cleared() {
    assert_eq!(clear_thumb_bit(0x0800_0401), 0x0800_0400);
    assert_eq!(clear_thumb_bit(0x0800_0400), 0x0800_0400);
}

#[test]
fn start_with_log_transport_switches_it_to_blocking() {
    let ops = start_ops(0x100, Some(0x2000_0000), 0x201).unwrap();
    assert_eq!(
        ops,
        vec![
            ProbeOp::SetBreakpoint(0x100),
            ProbeOp::Run,
            ProbeOp::WaitHalted(HALT_WAIT_MS),
            ProbeOp::SetBlocking(0x2000_002C),
            ProbeOp::ClearBreakpoint(0x100),
            ProbeOp::SetBreakpoint(0x200),
            ProbeOp::Run,
        ]
    );
    assert_eq!(HALT_WAIT_MS, 5000);
}

#[test]
fn start_without_log_transport_only_runs() {
    assert_eq!(
        start_ops(0x100, None, 0x301).unwrap(),
        vec![ProbeOp::SetBreakpoint(0x300), ProbeOp::Run]
    );
    assert_eq!(start_ops(0x100, Some(u32::MAX), 0x301), None);
}
