//! The DMX512 transmitter as a state machine. It decides, one operation at a
//! time, what the serial bridge must do to send a universe: open the device,
//! set the line speed, then ten passes of break, mark-after-break, frame and
//! inter-frame gap. Whoever drives it performs each operation and reports
//! whether it succeeded; the first failure aborts the whole send.

use vstd::prelude::*;

verus! {

/// USB vendor id of the serial bridge.
pub const VENDOR_ID: u16 = 0x0403;

/// USB product id of the serial bridge.
pub const PRODUCT_ID: u16 = 0x6001;

/// Line speed of DMX512, in baud.
pub const BAUD_RATE: u32 = 250_000;

/// How many times the whole frame is sent.
pub const REPEATS: usize = 10;

/// How long the break is held, in microseconds.
pub const BREAK_MICROS: u32 = 10_000;

/// How long the line is marked after the break, in microseconds.
pub const MARK_AFTER_BREAK_MICROS: u32 = 8;

/// The gap after each frame, in microseconds.
pub const FRAME_GAP_MICROS: u32 = 15_000;

/// Operations before the first pass: open, then set the line speed.
pub const SETUP_OPS: usize = 2;

/// Operations in one pass.
pub const OPS_PER_PASS: usize = 6;

/// Position of the end of the plan.
pub const PLAN_LEN: usize = 62;

/// One thing for the serial bridge to do.
#[derive(Clone, Copy, Debug, PartialEq, Eq, Structural)]
pub enum DeviceOp {
    /// Open the device with this USB identity.
    Open { vendor: u16, product: u16 },
    /// Set the line speed, with 8 data bits, 2 stop bits and no parity.
    SetBaudRate(u32),
    /// Assert (`true`) or release (`false`) the break on the line.
    SetBreak(bool),
    /// Wait this many microseconds.
    Pause(u32),
    /// Write the 512 bytes of the universe.
    WriteFrame,
    /// Every pass went through: the send succeeded.
    Finished,
    /// An operation failed: the send is abandoned.
    Aborted,
}

/// The operation at offset `j` of a pass.
pub open spec fn pass_op(j: int) -> DeviceOp {
    if j == 0 {
        DeviceOp::SetBreak(true)
    } else if j == 1 {
        DeviceOp::Pause(BREAK_MICROS)
    } else if j == 2 {
        DeviceOp::SetBreak(false)
    } else if j == 3 {
        DeviceOp::Pause(MARK_AFTER_BREAK_MICROS)
    } else if j == 4 {
        DeviceOp::WriteFrame
    } else {
        DeviceOp::Pause(FRAME_GAP_MICROS)
    }
}

/// The operation at position `k` of a send in which nothing fails.
pub open spec fn planned_op(k: int) -> DeviceOp {
    if k == 0 {
        DeviceOp::Open { vendor: VENDOR_ID, product: PRODUCT_ID }
    } else if k == 1 {
        DeviceOp::SetBaudRate(BAUD_RATE)
    } else if k < PLAN_LEN {
        pass_op((k - SETUP_OPS) % (OPS_PER_PASS as int))
    } else {
        DeviceOp::Finished
    }
}

/// Each of the ten passes asserts the break, holds it, releases it, marks,
/// writes the frame and waits out the gap; after the last one the send is
/// done. No pass is skipped because an earlier one went through.
pub proof fn lemma_pass_layout(p: int)
    requires
        0 <= p < REPEATS,
    ensures
        planned_op(SETUP_OPS + OPS_PER_PASS * p) == DeviceOp::SetBreak(true),
        planned_op(SETUP_OPS + OPS_PER_PASS * p + 1) == DeviceOp::Pause(BREAK_MICROS),
        planned_op(SETUP_OPS + OPS_PER_PASS * p + 2) == DeviceOp::SetBreak(false),
        planned_op(SETUP_OPS + OPS_PER_PASS * p + 3) == DeviceOp::Pause(MARK_AFTER_BREAK_MICROS),
        planned_op(SETUP_OPS + OPS_PER_PASS * p + 4) == DeviceOp::WriteFrame,
        planned_op(SETUP_OPS + OPS_PER_PASS * p + 5) == DeviceOp::Pause(FRAME_GAP_MICROS),
        planned_op(PLAN_LEN as int) == DeviceOp::Finished,
{
    lemma_offset_in_pass(p, 0);
    lemma_offset_in_pass(p, 1);
    lemma_offset_in_pass(p, 2);
    lemma_offset_in_pass(p, 3);
    lemma_offset_in_pass(p, 4);
    lemma_offset_in_pass(p, 5);
}

proof fn lemma_offset_in_pass(p: int, j: int)
    requires
        0 <= p,
        0 <= j < 6,
    ensures
        (6 * p + j) % 6 == j,
{
    assert((6 * p + j) % 6 == j) by (nonlinear_arith)
        requires
            0 <= p,
            0 <= j < 6,
    ;
}

/// Computes the operation at position `k` of the plan.
fn op_at(k: usize) -> (op: DeviceOp)
    requires
        k <= PLAN_LEN,
    ensures
        op == planned_op(k as int),
{
    if k == 0 {
        DeviceOp::Open { vendor: VENDOR_ID, product: PRODUCT_ID }
    } else if k == 1 {
        DeviceOp::SetBaudRate(BAUD_RATE)
    } else if k < PLAN_LEN {
        let j = (k - SETUP_OPS) % OPS_PER_PASS;
        if j == 0 {
            DeviceOp::SetBreak(true)
        } else if j == 1 {
            DeviceOp::Pause(BREAK_MICROS)
        } else if j == 2 {
            DeviceOp::SetBreak(false)
        } else if j == 3 {
            DeviceOp::Pause(MARK_AFTER_BREAK_MICROS)
        } else if j == 4 {
            DeviceOp::WriteFrame
        } else {
            DeviceOp::Pause(FRAME_GAP_MICROS)
        }
    } else {
        DeviceOp::Finished
    }
}

/// Where a send stands.
pub struct Transmitter {
    position: usize,
    aborted: bool,
}

impl Transmitter {
    /// The position in the plan of the operation handed out last.
    pub closed spec fn position(&self) -> int {
        self.position as int
    }

    /// Whether an operation failed.
    pub closed spec fn is_aborted(&self) -> bool {
        self.aborted
    }

    /// The position never passes the end of the plan.
    pub closed spec fn wf(&self) -> bool {
        self.position <= PLAN_LEN
    }

    /// Whether the send is over, one way or the other.
    pub open spec fn is_done(&self) -> bool {
        self.is_aborted() || self.position() >= PLAN_LEN
    }

    /// Begins a send; the operation returned is the first of the plan.
    pub fn start() -> (r: (Transmitter, DeviceOp))
        ensures
            r.0.wf(),
            r.0.position() == 0,
            !r.0.is_aborted(),
            r.1 == planned_op(0),
    {
        (Transmitter { position: 0, aborted: false }, op_at(0))
    }

    /// Takes the outcome of the operation handed out last and returns the
    /// next one: the next of the plan after a success, `Aborted` after a
    /// failure. A send that is over stays where it is.
    pub fn advance(&mut self, succeeded: bool) -> (op: DeviceOp)
        requires
            old(self).wf(),
        ensures
            final(self).wf(),
            old(self).is_done() ==> *final(self) == *old(self),
            old(self).is_done() && old(self).is_aborted() ==> op == DeviceOp::Aborted,
            old(self).is_done() && !old(self).is_aborted() ==> op == DeviceOp::Finished,
            !old(self).is_done() && !succeeded ==> final(self).is_aborted() && op
                == DeviceOp::Aborted && final(self).position() == old(self).position(),
            !old(self).is_done() && succeeded ==> !final(self).is_aborted()
                && final(self).position() == old(self).position() + 1
                && op == planned_op(final(self).position()),
    {
        if self.aborted {
            return DeviceOp::Aborted;
        }
        if self.position >= PLAN_LEN {
            return DeviceOp::Finished;
        }
        if !succeeded {
            self.aborted = true;
            return DeviceOp::Aborted;
        }
        self.position = self.position + 1;
        op_at(self.position)
    }
}

} // verus!
