//! The register-bus port and its in-memory simulation.
//!
//! Every driver talks to its chip through [`RegisterBus`]: register writes,
//! register reads, delays and the enable line.  The trait carries a ghost
//! transcript of the operations performed, so a driver's contract can state
//! exactly which registers it touched and in which order — the discharge
//! delay of the converter, for instance, is proved to precede the reference
//! write from that transcript alone.
//!
//! [`SimBus`] implements the port over a plain register file, with a
//! configurable "device clears these bits on write" rule (enough to model
//! the NVM request bit) and optional fault injection, so the drivers and
//! the application can run and be tested without hardware.

use vstd::prelude::*;

verus! {

/// An opaque bus-transaction failure.
#[derive(Clone, Copy, Debug, PartialEq, Eq, Structural)]
pub struct BusError;

/// What a driver call can fail with.
#[derive(Clone, Copy, Debug, PartialEq, Eq, Structural)]
pub enum DriverError {
    /// A register transaction failed on the bus.
    Bus,
    /// A chip identification or status check failed.
    Verification,
    /// The request was outside the device's range.
    OutOfRange,
    /// A bounded busy-poll gave up.
    Timeout,
}

/// One operation on a device port, as recorded in the ghost transcript.
pub enum BusOp {
    /// `data` written starting at register `reg`.
    Write { reg: u8, data: Seq<u8> },
    /// `data` read starting at register `reg`.
    Read { reg: u8, data: Seq<u8> },
    /// A pause of `us` microseconds.
    DelayUs { us: u64 },
    /// The chip-enable line driven high or low.
    EnableLine { high: bool },
}

/// A device port: register access on one chip, plus its enable line and
/// timed pauses.  `log()` is the ghost transcript of everything done so
/// far; a failed transaction records nothing.
pub trait RegisterBus: Sized {
    spec fn log(&self) -> Seq<BusOp>;

    spec fn inv(&self) -> bool;

    /// Write `data` to consecutive registers starting at `reg`.
    fn write_regs(&mut self, reg: u8, data: &[u8]) -> (r: Result<(), BusError>)
        requires
            old(self).inv(),
        ensures
            final(self).inv(),
            match r {
                Ok(()) => final(self).log() == old(self).log().push(
                    BusOp::Write { reg, data: data@ },
                ),
                Err(_) => final(self).log() == old(self).log(),
            },
    ;

    /// Read `n` bytes from consecutive registers starting at `reg`.
    fn read_regs(&mut self, reg: u8, n: usize) -> (r: Result<Vec<u8>, BusError>)
        requires
            old(self).inv(),
        ensures
            final(self).inv(),
            match r {
                Ok(data) => data@.len() == n && final(self).log() == old(self).log().push(
                    BusOp::Read { reg, data: data@ },
                ),
                Err(_) => final(self).log() == old(self).log(),
            },
    ;

    /// Pause for `us` microseconds.
    fn delay_us(&mut self, us: u64)
        requires
            old(self).inv(),
        ensures
            final(self).inv(),
            final(self).log() == old(self).log().push(BusOp::DelayUs { us }),
    ;

    /// Drive the chip-enable line.
    fn set_enable_line(&mut self, high: bool)
        requires
            old(self).inv(),
        ensures
            final(self).inv(),
            final(self).log() == old(self).log().push(BusOp::EnableLine { high }),
    ;
}

/// An in-memory device: 256 one-byte registers, a per-register mask of bits
/// the simulated chip clears right after they are written (the NVM request
/// bit), and an optional injected fault.
pub struct SimBus {
    regs: Vec<u8>,
    clear_mask: Vec<u8>,
    /// When `Some(n)`, the n-th next transaction fails once.
    fail_countdown: Option<usize>,
    /// Microseconds of pauses taken so far, saturating.
    delay_total_us: u64,
    transcript: Ghost<Seq<BusOp>>,
}

impl SimBus {
    /// A bus with all registers zero and no device behaviour configured.
    pub fn new() -> (r: SimBus)
        ensures
            r.inv(),
            r.log() == Seq::<BusOp>::empty(),
    {
        let mut regs: Vec<u8> = Vec::new();
        let mut clear_mask: Vec<u8> = Vec::new();
        let mut i: usize = 0;
        while i < 256
            invariant
                i <= 256,
                regs@.len() == i,
                clear_mask@.len() == i,
            decreases 256 - i,
        {
            regs.push(0);
            clear_mask.push(0);
            i = i + 1;
        }
        SimBus {
            regs,
            clear_mask,
            fail_countdown: None,
            delay_total_us: 0,
            transcript: Ghost(Seq::empty()),
        }
    }

    /// Preload one register, as the simulated chip would present it.
    pub fn set_reg(&mut self, reg: u8, value: u8)
        requires
            old(self).inv(),
        ensures
            final(self).inv(),
            final(self).log() == old(self).log(),
            final(self).spec_regs() == old(self).spec_regs().update(reg as int, value),
            final(self).spec_clear_mask() == old(self).spec_clear_mask(),
            final(self).spec_fail_countdown() == old(self).spec_fail_countdown(),
            final(self).spec_delay_total() == old(self).spec_delay_total(),
    {
        self.regs[reg as usize] = value;
    }

    /// What the register file currently holds.
    pub fn get_reg(&self, reg: u8) -> (r: u8)
        requires
            self.inv(),
        ensures
            r == self.spec_regs()[reg as int],
    {
        self.regs[reg as usize]
    }

    /// Bits in `mask` read back as zero after any write to `reg`: the
    /// simulated chip completes such a request at once.
    pub fn set_clear_on_write(&mut self, reg: u8, mask: u8)
        requires
            old(self).inv(),
        ensures
            final(self).inv(),
            final(self).log() == old(self).log(),
            final(self).spec_regs() == old(self).spec_regs(),
            final(self).spec_clear_mask() == old(self).spec_clear_mask().update(
                reg as int,
                mask,
            ),
            final(self).spec_fail_countdown() == old(self).spec_fail_countdown(),
            final(self).spec_delay_total() == old(self).spec_delay_total(),
    {
        self.clear_mask[reg as usize] = mask;
    }

    /// Make the n-th next transaction fail (0 = the very next one).
    pub fn inject_failure(&mut self, after: usize)
        requires
            old(self).inv(),
        ensures
            final(self).inv(),
            final(self).log() == old(self).log(),
            final(self).spec_regs() == old(self).spec_regs(),
            final(self).spec_clear_mask() == old(self).spec_clear_mask(),
            final(self).spec_fail_countdown() == Some(after),
            final(self).spec_delay_total() == old(self).spec_delay_total(),
    {
        self.fail_countdown = Some(after);
    }

    /// The raw register file.
    pub closed spec fn spec_regs(&self) -> Seq<u8> {
        self.regs@
    }

    /// The per-register clear-on-write masks.
    pub closed spec fn spec_clear_mask(&self) -> Seq<u8> {
        self.clear_mask@
    }

    /// The pending injected fault, if any.
    pub closed spec fn spec_fail_countdown(&self) -> Option<usize> {
        self.fail_countdown
    }

    /// Microseconds of pauses taken so far.
    pub closed spec fn spec_delay_total(&self) -> u64 {
        self.delay_total_us
    }

    /// How long the device has been asked to pause in total, in
    /// microseconds.
    pub fn delay_total(&self) -> (r: u64)
        ensures
            r == self.spec_delay_total(),
    {
        self.delay_total_us
    }

    /// Returns true when this transaction is the one set up to fail.
    fn step_failure(&mut self) -> (fail: bool)
        ensures
            final(self).regs == old(self).regs,
            final(self).clear_mask == old(self).clear_mask,
            final(self).transcript == old(self).transcript,
    {
        match self.fail_countdown {
            None => false,
            Some(n) => {
                if n == 0 {
                    self.fail_countdown = None;
                    true
                } else {
                    self.fail_countdown = Some(n - 1);
                    false
                }
            },
        }
    }
}

impl RegisterBus for SimBus {
    closed spec fn log(&self) -> Seq<BusOp> {
        self.transcript@
    }

    closed spec fn inv(&self) -> bool {
        self.regs@.len() == 256 && self.clear_mask@.len() == 256
    }

    fn write_regs(&mut self, reg: u8, data: &[u8]) -> (r: Result<(), BusError>)
    {
        if self.step_failure() {
            return Err(BusError);
        }
        let mut i: usize = 0;
        while i < data.len()
            invariant
                self.inv(),
                self.transcript == old(self).transcript,
            decreases data.len() - i,
        {
            if i < 256 {
                let idx = reg as usize + i;
                if idx < 256 {
                    let stored = data[i] & !self.clear_mask[idx];
                    self.regs[idx] = stored;
                }
            }
            i = i + 1;
        }
        self.transcript = Ghost(self.transcript@.push(BusOp::Write { reg, data: data@ }));
        Ok(())
    }

    fn read_regs(&mut self, reg: u8, n: usize) -> (r: Result<Vec<u8>, BusError>)
    {
        if self.step_failure() {
            return Err(BusError);
        }
        let mut out: Vec<u8> = Vec::new();
        let mut i: usize = 0;
        while i < n
            invariant
                i <= n,
                self.inv(),
                self.transcript == old(self).transcript,
                out@.len() == i,
            decreases n - i,
        {
            let b = if i < 256 && reg as usize + i < 256 {
                self.regs[reg as usize + i]
            } else {
                0
            };
            out.push(b);
            i = i + 1;
        }
        self.transcript = Ghost(self.transcript@.push(BusOp::Read { reg, data: out@ }));
        Ok(out)
    }

    fn delay_us(&mut self, us: u64) {
        if self.delay_total_us <= u64::MAX - us {
            self.delay_total_us = self.delay_total_us + us;
        }
        self.transcript = Ghost(self.transcript@.push(BusOp::DelayUs { us }));
    }

    fn set_enable_line(&mut self, high: bool) {
        self.transcript = Ghost(self.transcript@.push(BusOp::EnableLine { high }));
    }
}

/// A write of `data` starting at `reg`.
pub open spec fn op_write(reg: u8, data: Seq<u8>) -> BusOp {
    BusOp::Write { reg, data }
}

/// A one-byte write.
pub open spec fn op_write1(reg: u8, b: u8) -> BusOp {
    BusOp::Write { reg, data: seq![b] }
}

/// A pause of `us` microseconds.
pub open spec fn op_delay(us: int) -> BusOp {
    BusOp::DelayUs { us: us as u64 }
}

/// The enable line driven high or low.
pub open spec fn op_enable_line(high: bool) -> BusOp {
    BusOp::EnableLine { high }
}

/// `post` continues `pre` without rewriting history.
pub open spec fn log_extends(pre: Seq<BusOp>, post: Seq<BusOp>) -> bool {
    post.len() >= pre.len() && post.take(pre.len() as int) =~= pre
}

/// The operations `post` adds after `pre`.
pub open spec fn log_ext(pre: Seq<BusOp>, post: Seq<BusOp>) -> Seq<BusOp> {
    post.skip(pre.len() as int)
}

/// `ops` is how far along `full` an interrupted run got: the two agree up
/// to `ops`'s end.
pub open spec fn spec_prefix_of(ops: Seq<BusOp>, full: Seq<BusOp>) -> bool {
    ops.len() <= full.len() && ops =~= full.subrange(0, ops.len() as int)
}

/// A transcript slice that only reads: nothing was written to the device.
pub open spec fn spec_reads_only(ops: Seq<BusOp>) -> bool {
    forall|i: int| 0 <= i < ops.len() ==> (#[trigger] ops[i]) is Read
}

/// The operation at `i` reads `len` bytes starting at `reg`.
pub open spec fn spec_read_at(ops: Seq<BusOp>, i: int, reg: u8, len: int) -> bool {
    &&& ops[i] matches BusOp::Read { reg: r, data } && r == reg && data.len() == len
}

/// The bytes returned by the read at `i`.
pub open spec fn spec_read_data(ops: Seq<BusOp>, i: int) -> Seq<u8> {
    ops[i]->Read_data
}

/// Pushing one operation extends a transcript by exactly that operation.
pub proof fn lemma_push_ext(pre: Seq<BusOp>, op: BusOp)
    ensures
        log_extends(pre, pre.push(op)),
        log_ext(pre, pre.push(op)) =~= seq![op],
{
    assert(pre.push(op).take(pre.len() as int) =~= pre);
}

/// Transcript extension composes, and the added slices concatenate.
pub proof fn lemma_extends_trans(a: Seq<BusOp>, b: Seq<BusOp>, c: Seq<BusOp>)
    requires
        log_extends(a, b),
        log_extends(b, c),
    ensures
        log_extends(a, c),
        log_ext(a, c) =~= log_ext(a, b) + log_ext(b, c),
{
    assert forall|i: int| 0 <= i < a.len() implies c[i] == a[i] by {
        assert(b.take(a.len() as int)[i] == a[i]);
        assert(c.take(b.len() as int)[i] == b[i]);
    }
    assert(c.take(a.len() as int) =~= a);
    assert forall|i: int| 0 <= i < c.len() - a.len() implies
        log_ext(a, c)[i] == (log_ext(a, b) + log_ext(b, c))[i] by {
        if i < b.len() - a.len() {
            assert(c.take(b.len() as int)[a.len() + i] == b[a.len() + i]);
        }
    }
}

} // verus!

verus! {

/// Split a transcript extension at six checkpoints: each stretch between
/// consecutive checkpoints reads back as the matching subrange of the
/// whole extension.
#[verifier::rlimit(100)]
#[verifier::spinoff_prover]
pub proof fn lemma_segment_split(
    l0: Seq<BusOp>,
    c0: Seq<BusOp>,
    c1: Seq<BusOp>,
    c2: Seq<BusOp>,
    c3: Seq<BusOp>,
    c4: Seq<BusOp>,
    c5: Seq<BusOp>,
    post: Seq<BusOp>,
)
    requires
        log_extends(l0, c0),
        log_extends(c0, c1),
        log_extends(c1, c2),
        log_extends(c2, c3),
        log_extends(c3, c4),
        log_extends(c4, c5),
        log_extends(c5, post),
    ensures
        log_extends(l0, post),
        log_ext(l0, post).len() == log_ext(l0, c0).len() + log_ext(c0, c1).len() + log_ext(
            c1,
            c2,
        ).len() + log_ext(c2, c3).len() + log_ext(c3, c4).len() + log_ext(c4, c5).len() + log_ext(
            c5,
            post,
        ).len(),
        log_ext(l0, post).subrange(0, log_ext(l0, c0).len() as int) =~= log_ext(l0, c0),
        log_ext(l0, post).subrange(
            log_ext(l0, c0).len() as int,
            log_ext(l0, c1).len() as int,
        ) =~= log_ext(c0, c1),
        log_ext(l0, post).subrange(
            log_ext(l0, c1).len() as int,
            log_ext(l0, c2).len() as int,
        ) =~= log_ext(c1, c2),
        log_ext(l0, post).subrange(
            log_ext(l0, c2).len() as int,
            log_ext(l0, c3).len() as int,
        ) =~= log_ext(c2, c3),
        log_ext(l0, post).subrange(
            log_ext(l0, c3).len() as int,
            log_ext(l0, c4).len() as int,
        ) =~= log_ext(c3, c4),
        log_ext(l0, post).subrange(
            log_ext(l0, c4).len() as int,
            log_ext(l0, c5).len() as int,
        ) =~= log_ext(c4, c5),
        log_ext(l0, post).subrange(
            log_ext(l0, c5).len() as int,
            log_ext(l0, post).len() as int,
        ) =~= log_ext(c5, post),
{
    lemma_extends_trans(l0, c0, c1);
    lemma_extends_trans(l0, c1, c2);
    lemma_extends_trans(l0, c2, c3);
    lemma_extends_trans(l0, c3, c4);
    lemma_extends_trans(l0, c4, c5);
    lemma_extends_trans(l0, c5, post);
}

} // verus!
