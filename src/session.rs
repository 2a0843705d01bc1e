use vstd::prelude::*;

verus! {

/// Offset of the first up-channel's flag word inside the log transport's
/// control structure.
pub const UP_CHANNEL_FLAGS_OFFSET: u32 = 44;

/// The bits of the flag word that select what happens when the buffer is full.
pub const MODE_MASK: u32 = 0b11;

/// The mode that blocks the firmware until the host has drained the buffer.
pub const MODE_BLOCK_IF_FULL: u32 = 0b10;

/// How long to wait for the target to halt at the breakpoint, in milliseconds.
pub const HALT_WAIT_MS: u32 = 5000;

/// The address of the first up-channel's flag word, for a control structure
/// at `control_block`; `None` where it lies past the 32-bit address space.
pub fn up_channel_flags_address(control_block: u32) -> (r: Option<u32>)
    ensures
        control_block + UP_CHANNEL_FLAGS_OFFSET <= u32::MAX ==> r == Some(
            (control_block + UP_CHANNEL_FLAGS_OFFSET) as u32,
        ),
        control_block + UP_CHANNEL_FLAGS_OFFSET > u32::MAX ==> r is None,
{
    control_block.checked_add(UP_CHANNEL_FLAGS_OFFSET)
}

/// The flag word with the buffer-full mode set to blocking, and every other
/// bit kept.
pub fn blocking_flags(flags: u32) -> (r: u32)
    ensures
        r & MODE_MASK == MODE_BLOCK_IF_FULL,
        r & !MODE_MASK == flags & !MODE_MASK,
{
    let r = (flags & !MODE_MASK) | MODE_BLOCK_IF_FULL;
    assert(r & 3u32 == 2u32 && r & !3u32 == flags & !3u32) by (bit_vector)
        requires
            r == (flags & !3u32) | 2u32,
    ;
    r
}

/// The address to break on for a Thumb function pointer: the pointer with
/// its lowest bit cleared.
pub fn clear_thumb_bit(addr: u32) -> (r: u32)
    ensures
        r == addr & !1u32,
        r & 1 == 0,
{
    let r = addr & !1u32;
    assert(r & 1u32 == 0u32) by (bit_vector)
        requires
            r == addr & !1u32,
    ;
    r
}

/// One operation on the target, in the order the start sequence makes them.
#[derive(Debug, Clone, Copy, PartialEq, Eq, Structural)]
pub enum ProbeOp {
    SetBreakpoint(u32),
    ClearBreakpoint(u32),
    Run,
    /// Wait, at most this many milliseconds, for the target to halt.
    WaitHalted(u32),
    /// Read the word at this address, set its buffer-full mode with
    /// `blocking_flags`, and write it back.
    SetBlocking(u32),
}

/// The operations that start the program: where the image has a log
/// transport, first run to `main`, switch the transport to blocking there
/// and clear that breakpoint; then break on the hard-fault handler and run.
pub open spec fn start_ops_spec(main_fn: u32, flags_address: Option<u32>, hard_fault: u32) -> Seq<
    ProbeOp,
> {
    let handshake = match flags_address {
        Some(a) => seq![
            ProbeOp::SetBreakpoint(main_fn),
            ProbeOp::Run,
            ProbeOp::WaitHalted(HALT_WAIT_MS),
            ProbeOp::SetBlocking(a),
            ProbeOp::ClearBreakpoint(main_fn),
        ],
        None => seq![],
    };
    handshake + seq![ProbeOp::SetBreakpoint(hard_fault & !1u32), ProbeOp::Run]
}

/// Where the flag word lies, for a control structure at `control_block`.
pub open spec fn flags_address_of(control_block: Option<u32>) -> Option<u32> {
    match control_block {
        Some(c) => Some((c + UP_CHANNEL_FLAGS_OFFSET) as u32),
        None => None,
    }
}

/// The start sequence for an image whose `main` is at `main_fn`, whose log
/// transport's control structure (if any) is at `control_block`, and whose
/// hard-fault handler is at `hard_fault`. `None` where the flag word's
/// address does not fit in 32 bits.
pub fn start_ops(main_fn: u32, control_block: Option<u32>, hard_fault: u32) -> (r: Option<
    Vec<ProbeOp>,
>)
    ensures
        r is None <==> (control_block is Some && control_block->0 + UP_CHANNEL_FLAGS_OFFSET
            > u32::MAX),
        r is Some ==> r->0@ == start_ops_spec(main_fn, flags_address_of(control_block), hard_fault),
{
    let mut ops: Vec<ProbeOp> = Vec::new();
    let mut flags_address: Option<u32> = None;
    if let Some(c) = control_block {
        match up_channel_flags_address(c) {
            Some(a) => {
                flags_address = Some(a);
                ops.push(ProbeOp::SetBreakpoint(main_fn));
                ops.push(ProbeOp::Run);
                ops.push(ProbeOp::WaitHalted(HALT_WAIT_MS));
                ops.push(ProbeOp::SetBlocking(a));
                ops.push(ProbeOp::ClearBreakpoint(main_fn));
            },
            None => {
                return None;
            },
        }
    }
    ops.push(ProbeOp::SetBreakpoint(clear_thumb_bit(hard_fault)));
    ops.push(ProbeOp::Run);
    assert(ops@ =~= start_ops_spec(main_fn, flags_address, hard_fault));
    Some(ops)
}

} // verus!
