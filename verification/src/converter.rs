//! The buck/boost output-converter driver and its register codec.
//!
//! The chip exposes a 2-bit feedback-range register choosing a divisor in
//! {625, 1250, 1875, 2500} and a 16-bit reference register; the output
//! voltage in millivolts relates to them by
//! `mv = ((ref * 1129 / 2) + 45000) * divisor / 141000`.  Programming a
//! lower voltage while the output is enabled must wait out a
//! capacitor-discharge delay before the new reference is written; the
//! driver's transcript contract proves it always does.

use vstd::prelude::*;

use crate::bus::{
    log_ext, log_extends, op_delay, op_enable_line, op_write, op_write1, spec_read_at,
    spec_read_data, BusOp, DriverError, RegisterBus,
};
use crate::event::Channel;

verus! {

/// Bus address of the channel-B converter chip; channel A sits one above.
pub const CONVERTER_ADDR: u8 = 0x74;

/// Reference register, low byte (the high byte follows it).
pub const REF_LSB: u8 = 0x00;

/// Output current limit register.
pub const IOUT_LIMIT: u8 = 0x02;

/// Feedback range (voltage divisor select) register.
pub const VOUT_FS: u8 = 0x04;

/// Mode register: bit 7 is output enable.
pub const MODE: u8 = 0x06;

/// Status register.
pub const STATUS: u8 = 0x07;

/// Mode byte with the output enabled.
pub const MODE_ENABLED: u8 = 0xB0;

/// Mode byte with the output disabled.
pub const MODE_DISABLED: u8 = 0x30;

/// How many register-bus positions each channel's chip is offset.
pub fn converter_address(channel: Channel) -> (r: u8)
    ensures
        channel is A ==> r == 0x75,
        channel is B ==> r == 0x74,
{
    match channel {
        Channel::A => CONVERTER_ADDR + 1,
        Channel::B => CONVERTER_ADDR,
    }
}

/// The feedback divisor selected by the low two bits of the range register.
pub open spec fn spec_feedback_divisor(code: u8) -> int {
    if code % 4 == 0 {
        625
    } else if code % 4 == 1 {
        1250
    } else if code % 4 == 2 {
        1875
    } else {
        2500
    }
}

/// The range code for a target, by voltage bucket; `None` outside
/// 200..=20000 mV.
pub open spec fn spec_range_code(mv: int) -> Option<u8> {
    if 200 <= mv <= 5000 {
        Some(0u8)
    } else if 5000 < mv <= 10000 {
        Some(1u8)
    } else if 10000 < mv <= 15000 {
        Some(2u8)
    } else if 15000 < mv <= 20000 {
        Some(3u8)
    } else {
        None
    }
}

/// The reference-register code for a target voltage under a divisor:
/// `((mv * 141000 / divisor) - 45000) * 2 / 1129`.
pub open spec fn spec_ref_code(mv: int, divisor: int) -> int {
    (141000 * mv / divisor - 45000) * 2 / 1129
}

/// The voltage a range code and reference code stand for, in millivolts.
pub open spec fn spec_decode_voltage_mv(code: u8, reg: int) -> int {
    (reg * 1129 / 2 + 45000) * spec_feedback_divisor(code) / 141000
}

/// One decode step loses at most one reference LSB; in millivolts, per
/// range: 3, 6, 8 or 11.
pub open spec fn spec_round_trip_slack_mv(code: u8) -> int {
    if code % 4 == 0 {
        3
    } else if code % 4 == 1 {
        6
    } else if code % 4 == 2 {
        8
    } else {
        11
    }
}

/// The capacitor-discharge wait when stepping the output down from `v_i`
/// to `v_f` millivolts: `590 * (v_i - v_f) / 100 + 20000` microseconds.
pub open spec fn spec_cc_discharge_time(v_i: int, v_f: int) -> int {
    590 * (v_i - v_f) / 100 + 20000
}

/// The discharge wait in microseconds, for a voltage step down.
pub fn cc_discharge_time(v_i: u32, v_f: u32) -> (r: u64)
    requires
        v_f <= v_i,
    ensures
        r == spec_cc_discharge_time(v_i as int, v_f as int),
{
    590 * (v_i as u64 - v_f as u64) / 100 + 20000
}

/// Pick the feedback range and reference code for a target in millivolts;
/// targets outside 200..=20000 mV are rejected.
pub fn encode_voltage(voltage: u16) -> (r: Result<(u8, u16), DriverError>)
    ensures
        match spec_range_code(voltage as int) {
            Some(code) => r matches Ok((c, reg))
                && c == code
                && reg == spec_ref_code(voltage as int, spec_feedback_divisor(code)),
            None => r matches Err(e) && e == DriverError::OutOfRange,
        },
{
    let (divisor, feedback_reg): (u64, u8) = if 200 <= voltage && voltage <= 5000 {
        (625, 0)
    } else if 5000 < voltage && voltage <= 10000 {
        (1250, 1)
    } else if 10000 < voltage && voltage <= 15000 {
        (1875, 2)
    } else if 15000 < voltage && voltage <= 20000 {
        (2500, 3)
    } else {
        return Err(DriverError::OutOfRange);
    };
    let scaled: u64 = voltage as u64 * 141000 / divisor;
    let vref: u64 = scaled - 45000;
    let reg: u16 = (vref * 2 / 1129) as u16;
    Ok((feedback_reg, reg))
}

/// Decode a feedback-range code and reference register back to millivolts.
pub fn decode_voltage(range_code: u8, reg: u16) -> (r: u32)
    ensures
        r == spec_decode_voltage_mv(range_code, reg as int),
{
    let divisor: u64 = match range_code % 4 {
        0 => 625,
        1 => 1250,
        2 => 1875,
        _ => 2500,
    };
    let vref: u64 = reg as u64 * 1129 / 2;
    let conv: u64 = (vref + 45000) * divisor / 141000;
    conv as u32
}

/// The current-limit register byte for a limit in milliamps: the enable
/// bit over the limit in 50 mA steps (seven bits, higher limits wrap as
/// the register would).
pub open spec fn spec_current_limit_reg(ma: int) -> int {
    128 + (ma / 50) % 128
}

/// Compute the current-limit register byte.
pub fn current_limit_reg(current: u16) -> (r: u8)
    ensures
        r == spec_current_limit_reg(current as int),
{
    let steps: u16 = current / 50;
    128 + (steps % 128) as u8
}

/// Round-trip accuracy of the voltage codec: for every target in
/// 200..=20000 mV, decoding the encoded range and reference codes comes
/// back no higher than the target and within one reference LSB of it
/// (3/6/8/11 mV depending on the range).
pub proof fn lemma_voltage_round_trip(mv: u16)
    requires
        200 <= mv <= 20000,
    ensures
        spec_range_code(mv as int) is Some,
        ({
            let code = spec_range_code(mv as int)->Some_0;
            let reg = spec_ref_code(mv as int, spec_feedback_divisor(code));
            let back = spec_decode_voltage_mv(code, reg);
            back <= mv && mv - back <= spec_round_trip_slack_mv(code)
        }),
{
    let v = mv as int;
    let code = spec_range_code(v)->Some_0;
    let d = spec_feedback_divisor(code);
    let a = 141000 * v / d;
    let r = spec_ref_code(v, d);
    let w = r * 1129 / 2;
    let v2 = spec_decode_voltage_mv(code, r);
    if d == 625 {
        lemma_round_trip_core(v, 625, a, r, w, v2, 3);
    } else if d == 1250 {
        lemma_round_trip_core(v, 1250, a, r, w, v2, 6);
    } else if d == 1875 {
        lemma_round_trip_core(v, 1875, a, r, w, v2, 8);
    } else {
        lemma_round_trip_core(v, 2500, a, r, w, v2, 11);
    }
}

/// The arithmetic core of the round-trip bound: each stage's integer
/// division is handed in as a bracketing pair, and the chain of products
/// gives the slack.
proof fn lemma_round_trip_core(v: int, d: int, a: int, r: int, w: int, v2: int, slack: int)
    by (nonlinear_arith)
    requires
        1 <= d,
        200 <= v,
        45000 <= a,
        566 * d + 141000 <= 141000 * (slack + 1),
        d * a <= 141000 * v < d * a + d,
        1129 * r <= 2 * (a - 45000) < 1129 * r + 1129,
        2 * w <= 1129 * r < 2 * w + 2,
        141000 * v2 <= (w + 45000) * d < 141000 * v2 + 141000,
    ensures
        v2 <= v,
        v - v2 <= slack,
{
    let big = 141000 * v;
    assert(w + 45000 <= a);
    assert((w + 45000) * d <= a * d);
    assert(141000 * v2 <= big);
    assert(2 * w >= 2 * (a - 45000) - 1130);
    assert(w + 45000 >= a - 565);
    assert((w + 45000) * d >= (a - 565) * d);
    assert((a - 565) * d > big - d - 565 * d);
    assert(141000 * v2 + 141000 > big - 566 * d);
    assert(141000 * (v - v2) < 566 * d + 141000);
    assert(141000 * (v - v2) < 141000 * (slack + 1));
}

/// Does the mode byte show the output enabled?
pub open spec fn spec_mode_enabled(b: u8) -> bool {
    b & 0x80 != 0
}

/// The status block passes the power-up self-check: expected mode and
/// status bit patterns.
pub open spec fn spec_init_ok(mode: u8, status: u8) -> bool {
    mode & 0xE2 == 0x20 && status & 0xE3 == 0x01
}

/// The three reads `set_voltage` opens with: mode, feedback range,
/// reference.
pub open spec fn spec_set_voltage_reads(ext: Seq<BusOp>) -> bool {
    &&& ext.len() >= 3
    &&& spec_read_at(ext, 0, MODE, 1)
    &&& spec_read_at(ext, 1, VOUT_FS, 1)
    &&& spec_read_at(ext, 2, REF_LSB, 2)
}

/// Whether the opening reads showed the output enabled.
pub open spec fn spec_read_enabled(ext: Seq<BusOp>) -> bool {
    spec_mode_enabled(spec_read_data(ext, 0)[0])
}

/// The output voltage the opening reads showed, in millivolts.
pub open spec fn spec_read_prev_mv(ext: Seq<BusOp>) -> int {
    spec_decode_voltage_mv(
        spec_read_data(ext, 1)[0],
        spec_read_data(ext, 2)[0] as int + 256 * (spec_read_data(ext, 2)[1] as int),
    )
}

/// Everything a successful `set_voltage` does after its three reads:
/// disable, the discharge wait when stepping down while enabled, range and
/// reference writes, re-enable if it was enabled.
pub open spec fn spec_set_voltage_tail(ext: Seq<BusOp>, mv: int) -> Seq<BusOp> {
    let code = spec_range_code(mv)->Some_0;
    let rc = spec_ref_code(mv, spec_feedback_divisor(code));
    let enabled = spec_read_enabled(ext);
    let lower = enabled && spec_read_prev_mv(ext) > mv;
    let wait: Seq<BusOp> = if lower {
        seq![op_delay(spec_cc_discharge_time(spec_read_prev_mv(ext), mv))]
    } else {
        Seq::empty()
    };
    let reenable: Seq<BusOp> = if enabled {
        seq![op_write1(MODE, MODE_ENABLED)]
    } else {
        Seq::empty()
    };
    seq![op_write1(MODE, MODE_DISABLED)] + wait + seq![
        op_write1(VOUT_FS, code),
        op_write(REF_LSB, seq![(rc % 256) as u8, (rc / 256) as u8]),
    ] + reenable
}

/// A write that lands on the reference register.
pub open spec fn spec_is_ref_write(op: BusOp) -> bool {
    op matches BusOp::Write { reg, data } && reg == REF_LSB
}

/// Every reference write in the transcript slice comes after the discharge
/// wait of `delay_us` microseconds.
pub open spec fn spec_ref_write_guarded(ext: Seq<BusOp>, delay_us: int) -> bool {
    forall|i: int| 0 <= i < ext.len() && spec_is_ref_write(#[trigger] ext[i]) ==> exists|j: int|
        0 <= j < i && ext[j] == op_delay(delay_us)
}

/// One channel's output-converter chip, spoken to over a register port.
pub struct ConverterDevice<B: RegisterBus> {
    pub bus: B,
}

impl<B: RegisterBus> ConverterDevice<B> {
    pub open spec fn inv(self) -> bool {
        self.bus.inv()
    }

    pub open spec fn log(self) -> Seq<BusOp> {
        self.bus.log()
    }

    pub fn new(bus: B) -> (r: Self)
        ensures
            r.bus == bus,
    {
        ConverterDevice { bus }
    }

    /// Power-up self check: raise the enable line, wait out the chip's
    /// settle time, read the status block and verify its mode and status
    /// patterns, then leave the output disabled.
    pub fn init(&mut self) -> (r: Result<(), DriverError>)
        requires
            old(self).inv(),
        ensures
            final(self).inv(),
            log_extends(old(self).log(), final(self).log()),
            ({
                let ext = log_ext(old(self).log(), final(self).log());
                match r {
                    Ok(()) => {
                        &&& ext.len() == 4
                        &&& ext[0] == op_enable_line(true)
                        &&& ext[1] == op_delay(100000)
                        &&& spec_read_at(ext, 2, REF_LSB, 8)
                        &&& spec_init_ok(spec_read_data(ext, 2)[6], spec_read_data(ext, 2)[7])
                        &&& ext[3] == op_write1(MODE, MODE_DISABLED)
                    },
                    Err(DriverError::Verification) => {
                        &&& ext.len() == 3
                        &&& spec_read_at(ext, 2, REF_LSB, 8)
                        &&& !spec_init_ok(spec_read_data(ext, 2)[6], spec_read_data(ext, 2)[7])
                    },
                    Err(e) => {
                        &&& e == DriverError::Bus
                        &&& ext.len() <= 3
                        &&& ext.len() >= 1 ==> ext[0] == op_enable_line(true)
                        &&& ext.len() >= 2 ==> ext[1] == op_delay(100000)
                        &&& ext.len() >= 3 ==> spec_read_at(ext, 2, REF_LSB, 8)
                    },
                }
            }),
    {
        let ghost l0 = self.bus.log();
        self.bus.set_enable_line(true);
        self.bus.delay_us(100000);
        let regs = match self.bus.read_regs(REF_LSB, 8) {
            Ok(regs) => regs,
            Err(_) => {
                return Err(DriverError::Bus);
            },
        };
        let mode = regs[6] & 0xE2;
        let status = regs[7] & 0xE3;
        if !(mode == 0x20 && status == 0x01) {
            proof {
                assert(log_ext(l0, self.bus.log()) =~= seq![
                    op_enable_line(true),
                    op_delay(100000),
                    BusOp::Read { reg: REF_LSB, data: regs@ },
                ]);
                assert(self.bus.log().take(l0.len() as int) =~= l0);
            }
            return Err(DriverError::Verification);
        }
        let disable_byte = [MODE_DISABLED];
        let disable_bytes = disable_byte.as_slice();
        proof {
            assert(disable_bytes@ =~= seq![MODE_DISABLED]);
        }
        match self.bus.write_regs(MODE, disable_bytes) {
            Ok(()) => {
                proof {
                    assert(log_ext(l0, self.bus.log()) =~= seq![
                        op_enable_line(true),
                        op_delay(100000),
                        BusOp::Read { reg: REF_LSB, data: regs@ },
                        op_write1(MODE, MODE_DISABLED),
                    ]);
                    assert(self.bus.log().take(l0.len() as int) =~= l0);
                }
                Ok(())
            },
            Err(_) => Err(DriverError::Bus),
        }
    }

    /// Set the output-enable bit.
    pub fn enable(&mut self) -> (r: Result<(), DriverError>)
        requires
            old(self).inv(),
        ensures
            final(self).inv(),
            log_extends(old(self).log(), final(self).log()),
            match r {
                Ok(()) => log_ext(old(self).log(), final(self).log()) == seq![
                    op_write1(MODE, MODE_ENABLED),
                ],
                Err(e) => e == DriverError::Bus && final(self).log() == old(self).log(),
            },
    {
        let ghost l0 = self.bus.log();
        let mode_byte = [MODE_ENABLED];
        let mode_bytes = mode_byte.as_slice();
        proof {
            assert(mode_bytes@ =~= seq![MODE_ENABLED]);
        }
        match self.bus.write_regs(MODE, mode_bytes) {
            Ok(()) => {
                proof {
                    crate::bus::lemma_push_ext(l0, op_write1(MODE, MODE_ENABLED));
                }
                Ok(())
            },
            Err(_) => Err(DriverError::Bus),
        }
    }

    /// Clear the output-enable bit.
    pub fn disable(&mut self) -> (r: Result<(), DriverError>)
        requires
            old(self).inv(),
        ensures
            final(self).inv(),
            log_extends(old(self).log(), final(self).log()),
            match r {
                Ok(()) => log_ext(old(self).log(), final(self).log()) == seq![
                    op_write1(MODE, MODE_DISABLED),
                ],
                Err(e) => e == DriverError::Bus && final(self).log() == old(self).log(),
            },
    {
        let ghost l0 = self.bus.log();
        let mode_byte = [MODE_DISABLED];
        let mode_bytes = mode_byte.as_slice();
        proof {
            assert(mode_bytes@ =~= seq![MODE_DISABLED]);
        }
        match self.bus.write_regs(MODE, mode_bytes) {
            Ok(()) => {
                proof {
                    crate::bus::lemma_push_ext(l0, op_write1(MODE, MODE_DISABLED));
                }
                Ok(())
            },
            Err(_) => Err(DriverError::Bus),
        }
    }

    /// Read the output-enable bit.
    pub fn get_enabled(&mut self) -> (r: Result<bool, DriverError>)
        requires
            old(self).inv(),
        ensures
            final(self).inv(),
            log_extends(old(self).log(), final(self).log()),
            ({
                let ext = log_ext(old(self).log(), final(self).log());
                match r {
                    Ok(enabled) => {
                        &&& ext.len() == 1
                        &&& spec_read_at(ext, 0, MODE, 1)
                        &&& enabled == spec_mode_enabled(spec_read_data(ext, 0)[0])
                    },
                    Err(e) => e == DriverError::Bus && final(self).log() == old(self).log(),
                }
            }),
    {
        let ghost l0 = self.bus.log();
        match self.bus.read_regs(MODE, 1) {
            Ok(data) => {
                proof {
                    crate::bus::lemma_push_ext(l0, BusOp::Read { reg: MODE, data: data@ });
                }
                Ok(data[0] & 0x80 != 0)
            },
            Err(_) => Err(DriverError::Bus),
        }
    }

    /// Read back the programmed output voltage, in millivolts.
    pub fn get_voltage(&mut self) -> (r: Result<u32, DriverError>)
        requires
            old(self).inv(),
        ensures
            final(self).inv(),
            log_extends(old(self).log(), final(self).log()),
            ({
                let ext = log_ext(old(self).log(), final(self).log());
                match r {
                    Ok(mv) => {
                        &&& ext.len() == 2
                        &&& spec_read_at(ext, 0, VOUT_FS, 1)
                        &&& spec_read_at(ext, 1, REF_LSB, 2)
                        &&& mv == spec_decode_voltage_mv(
                            spec_read_data(ext, 0)[0],
                            spec_read_data(ext, 1)[0] as int + 256 * (spec_read_data(ext, 1)[1] as int),
                        )
                    },
                    Err(e) => {
                        &&& e == DriverError::Bus
                        &&& ext.len() <= 1
                        &&& ext.len() == 1 ==> spec_read_at(ext, 0, VOUT_FS, 1)
                    },
                }
            }),
    {
        let ghost l0 = self.bus.log();
        let feedback = match self.bus.read_regs(VOUT_FS, 1) {
            Ok(d) => d,
            Err(_) => {
                return Err(DriverError::Bus);
            },
        };
        let word = match self.bus.read_regs(REF_LSB, 2) {
            Ok(d) => d,
            Err(_) => {
                proof {
                    crate::bus::lemma_push_ext(l0, BusOp::Read { reg: VOUT_FS, data: feedback@ });
                }
                return Err(DriverError::Bus);
            },
        };
        let reg: u16 = word[0] as u16 + 256 * (word[1] as u16);
        let mv = decode_voltage(feedback[0], reg);
        proof {
            assert(log_ext(l0, self.bus.log()) =~= seq![
                BusOp::Read { reg: VOUT_FS, data: feedback@ },
                BusOp::Read { reg: REF_LSB, data: word@ },
            ]);
            assert(self.bus.log().take(l0.len() as int) =~= l0);
        }
        Ok(mv)
    }

    /// Program a new output voltage.  A target outside 200..=20000 mV is
    /// rejected before anything touches the bus, and that is the only way
    /// the range error can come back.  A bus error leaves the chip having
    /// seen at most a prefix of the nominal sequence; in particular, when
    /// stepping down while the output is enabled, the discharge wait
    /// always separates the disable from the reference write — on every
    /// path, failed ones included.
    #[verifier::rlimit(60)]
    pub fn set_voltage(&mut self, voltage: u16) -> (r: Result<(), DriverError>)
        requires
            old(self).inv(),
        ensures
            final(self).inv(),
            log_extends(old(self).log(), final(self).log()),
            spec_range_code(voltage as int) is None ==> r == Err::<(), DriverError>(
                DriverError::OutOfRange,
            ) && final(self).log() == old(self).log(),
            r == Err::<(), DriverError>(DriverError::OutOfRange) ==> spec_range_code(
                voltage as int,
            ) is None,
            r == Err::<(), DriverError>(DriverError::Bus) ==> ({
                let ext = log_ext(old(self).log(), final(self).log());
                &&& spec_range_code(voltage as int) is Some
                &&& ext.len() <= 8
                &&& ext.len() >= 1 ==> spec_read_at(ext, 0, MODE, 1)
                &&& ext.len() >= 2 ==> spec_read_at(ext, 1, VOUT_FS, 1)
                &&& ext.len() >= 3 ==> spec_read_at(ext, 2, REF_LSB, 2)
                &&& ext.len() >= 4 ==> spec_set_voltage_reads(ext) && crate::bus::spec_prefix_of(
                    ext.skip(3),
                    spec_set_voltage_tail(ext, voltage as int),
                )
            }),
            ({
                let ext = log_ext(old(self).log(), final(self).log());
                r is Ok ==> {
                    &&& spec_range_code(voltage as int) is Some
                    &&& spec_set_voltage_reads(ext)
                    &&& ext.skip(3) == spec_set_voltage_tail(ext, voltage as int)
                }
            }),
            r matches Err(e) ==> e == DriverError::Bus || e == DriverError::OutOfRange,
            ({
                let ext = log_ext(old(self).log(), final(self).log());
                (spec_set_voltage_reads(ext) && spec_read_enabled(ext) && spec_read_prev_mv(ext)
                    > voltage as int) ==> spec_ref_write_guarded(
                    ext,
                    spec_cc_discharge_time(spec_read_prev_mv(ext), voltage as int),
                )
            }),
    {
        let (feedback_code, ref_reg) = match encode_voltage(voltage) {
            Ok(pair) => pair,
            Err(e) => {
                return Err(e);
            },
        };
        let ghost l0 = self.bus.log();
        let was_enabled = match self.get_enabled() {
            Ok(b) => b,
            Err(e) => {
                return Err(e);
            },
        };
        let ghost l1 = self.bus.log();
        let prev_voltage = match self.get_voltage() {
            Ok(v) => v,
            Err(e) => {
                proof {
                    crate::bus::lemma_extends_trans(l0, l1, self.bus.log());
                    lemma_no_ref_write_in_reads(log_ext(l0, self.bus.log()));
                    let ext = log_ext(l0, self.bus.log());
                    assert(ext =~= log_ext(l0, l1) + log_ext(l1, self.bus.log()));
                    assert(ext.len() <= 2);
                    assert(spec_read_at(ext, 0, MODE, 1));
                }
                return Err(e);
            },
        };
        let ghost l2 = self.bus.log();
        proof {
            crate::bus::lemma_extends_trans(l0, l1, l2);
        }
        let ghost reads = log_ext(l0, l2);
        proof {
            assert(spec_set_voltage_reads(reads));
            assert(spec_read_enabled(reads) == was_enabled);
            assert(spec_read_prev_mv(reads) == prev_voltage as int);
        }
        match self.disable() {
            Ok(()) => (),
            Err(e) => {
                proof {
                    crate::bus::lemma_extends_trans(l0, l2, self.bus.log());
                    lemma_guard_vacuous(log_ext(l0, self.bus.log()), 3);
                    assert(log_ext(l0, self.bus.log()) =~= reads);
                }
                return Err(e);
            },
        }
        let ghost l2d = self.bus.log();
        proof {
            crate::bus::lemma_extends_trans(l0, l2, l2d);
            assert(log_ext(l0, l2d) =~= reads.push(op_write1(MODE, MODE_DISABLED)));
        }
        let lowering = was_enabled && prev_voltage > voltage as u32;
        if lowering {
            let us_delay = cc_discharge_time(prev_voltage, voltage as u32);
            self.bus.delay_us(us_delay);
            proof {
                crate::bus::lemma_push_ext(l2d, op_delay(us_delay as int));
                crate::bus::lemma_extends_trans(l0, l2d, self.bus.log());
            }
        }
        let ghost l3 = self.bus.log();
        let ghost ext3 = log_ext(l0, l3);
        proof {
            if lowering {
                assert(ext3 =~= reads.push(op_write1(MODE, MODE_DISABLED)).push(
                    op_delay(spec_cc_discharge_time(prev_voltage as int, voltage as int)),
                ));
            } else {
                assert(ext3 =~= reads.push(op_write1(MODE, MODE_DISABLED)));
            }
            assert(spec_set_voltage_reads(ext3));
            assert(spec_read_enabled(ext3) == was_enabled);
            assert(spec_read_prev_mv(ext3) == prev_voltage as int);
            assert(ext3[3] == op_write1(MODE, MODE_DISABLED));
        }
        let fs_byte = [feedback_code];
        let fs_bytes = fs_byte.as_slice();
        proof {
            assert(fs_bytes@ =~= seq![feedback_code]);
        }
        match self.bus.write_regs(VOUT_FS, fs_bytes) {
            Ok(()) => (),
            Err(_) => {
                proof {
                    lemma_set_voltage_guard(l0, l3, self.bus.log(), voltage as int, lowering);
                    let ext = log_ext(l0, self.bus.log());
                    assert(ext =~= ext3);
                    assert(ext.skip(3) =~= spec_set_voltage_tail(ext, voltage as int).subrange(
                        0,
                        ext.len() - 3,
                    ));
                }
                return Err(DriverError::Bus);
            },
        }
        let ghost l4 = self.bus.log();
        let lsb = (ref_reg % 256) as u8;
        let msb = (ref_reg / 256) as u8;
        let ref_byte = [lsb, msb];
        let ref_bytes = ref_byte.as_slice();
        proof {
            assert(ref_bytes@ =~= seq![lsb, msb]);
            crate::bus::lemma_push_ext(l3, op_write1(VOUT_FS, feedback_code));
        }
        match self.bus.write_regs(REF_LSB, ref_bytes) {
            Ok(()) => (),
            Err(_) => {
                proof {
                    crate::bus::lemma_extends_trans(l3, l4, self.bus.log());
                    lemma_set_voltage_guard(l0, l3, self.bus.log(), voltage as int, lowering);
                    let ext = log_ext(l0, self.bus.log());
                    assert(ext =~= ext3.push(op_write1(VOUT_FS, feedback_code)));
                    assert(ext.skip(3) =~= spec_set_voltage_tail(ext, voltage as int).subrange(
                        0,
                        ext.len() - 3,
                    ));
                }
                return Err(DriverError::Bus);
            },
        }
        let ghost l5 = self.bus.log();
        proof {
            crate::bus::lemma_push_ext(l4, op_write(REF_LSB, seq![lsb, msb]));
            crate::bus::lemma_extends_trans(l3, l4, l5);
        }
        if was_enabled {
            match self.enable() {
                Ok(()) => (),
                Err(e) => {
                    proof {
                        crate::bus::lemma_extends_trans(l3, l5, self.bus.log());
                        lemma_set_voltage_guard(l0, l3, self.bus.log(), voltage as int, lowering);
                        let ext = log_ext(l0, self.bus.log());
                        assert(ext =~= ext3.push(op_write1(VOUT_FS, feedback_code)).push(
                            op_write(REF_LSB, seq![lsb, msb]),
                        ));
                        assert(ext.skip(3) =~= spec_set_voltage_tail(ext, voltage as int).subrange(
                            0,
                            ext.len() - 3,
                        ));
                    }
                    return Err(e);
                },
            }
            proof {
                crate::bus::lemma_extends_trans(l3, l5, self.bus.log());
            }
        }
        proof {
            lemma_set_voltage_guard(l0, l3, self.bus.log(), voltage as int, lowering);
            let ext = log_ext(l0, self.bus.log());
            if was_enabled {
                assert(log_ext(l3, self.bus.log()) =~= seq![
                    op_write1(VOUT_FS, feedback_code),
                    op_write(REF_LSB, seq![lsb, msb]),
                    op_write1(MODE, MODE_ENABLED),
                ]);
            } else {
                assert(log_ext(l3, self.bus.log()) =~= seq![
                    op_write1(VOUT_FS, feedback_code),
                    op_write(REF_LSB, seq![lsb, msb]),
                ]);
            }
            crate::bus::lemma_extends_trans(l0, l3, self.bus.log());
            assert(ext =~= ext3 + log_ext(l3, self.bus.log()));
            assert(spec_read_enabled(ext) == was_enabled);
            assert(spec_read_prev_mv(ext) == prev_voltage as int);
            assert(ext.skip(3) =~= spec_set_voltage_tail(ext, voltage as int));
        }
        Ok(())
    }

    /// Program the output current limit, in milliamps.
    pub fn set_current(&mut self, current: u16) -> (r: Result<(), DriverError>)
        requires
            old(self).inv(),
        ensures
            final(self).inv(),
            log_extends(old(self).log(), final(self).log()),
            match r {
                Ok(()) => log_ext(old(self).log(), final(self).log()) == seq![
                    op_write1(IOUT_LIMIT, spec_current_limit_reg(current as int) as u8),
                ],
                Err(e) => e == DriverError::Bus && final(self).log() == old(self).log(),
            },
    {
        let ghost l0 = self.bus.log();
        let reg = current_limit_reg(current);
        let reg_byte = [reg];
        let reg_bytes = reg_byte.as_slice();
        proof {
            assert(reg_bytes@ =~= seq![reg]);
        }
        match self.bus.write_regs(IOUT_LIMIT, reg_bytes) {
            Ok(()) => {
                proof {
                    crate::bus::lemma_push_ext(l0, op_write1(IOUT_LIMIT, reg));
                }
                Ok(())
            },
            Err(_) => Err(DriverError::Bus),
        }
    }
}

/// A transcript of reads alone holds no reference write.
proof fn lemma_no_ref_write_in_reads(ext: Seq<BusOp>)
    requires
        crate::bus::spec_reads_only(ext),
    ensures
        forall|d: int| spec_ref_write_guarded(ext, d),
{
}

/// The guard holds vacuously of a transcript whose writes lie before
/// `upto` only as non-reference writes... in particular, of the reads plus
/// the mode-disable write.
proof fn lemma_guard_vacuous(ext: Seq<BusOp>, upto: int)
    requires
        forall|i: int| 0 <= i < ext.len() ==> !spec_is_ref_write(#[trigger] ext[i]),
    ensures
        forall|d: int| spec_ref_write_guarded(ext, d),
{
}

/// After the reads, the disable write and (when lowering) the discharge
/// wait, every reference write that any continuation of the transcript
/// makes sits after the wait.
proof fn lemma_set_voltage_guard(
    l0: Seq<BusOp>,
    l3: Seq<BusOp>,
    post: Seq<BusOp>,
    mv: int,
    lowering: bool,
)
    requires
        log_extends(l0, l3),
        log_extends(l3, post),
        spec_set_voltage_reads(log_ext(l0, l3)),
        log_ext(l0, l3).len() == if lowering {
            5int
        } else {
            4int
        },
        log_ext(l0, l3)[3] == op_write1(MODE, MODE_DISABLED),
        lowering == (spec_read_enabled(log_ext(l0, l3)) && spec_read_prev_mv(log_ext(l0, l3))
            > mv),
        lowering ==> log_ext(l0, l3)[4] == op_delay(
            spec_cc_discharge_time(spec_read_prev_mv(log_ext(l0, l3)), mv),
        ),
    ensures
        log_extends(l0, post),
        spec_set_voltage_reads(log_ext(l0, post)),
        spec_read_enabled(log_ext(l0, post)) == spec_read_enabled(log_ext(l0, l3)),
        spec_read_prev_mv(log_ext(l0, post)) == spec_read_prev_mv(log_ext(l0, l3)),
        (spec_read_enabled(log_ext(l0, post)) && spec_read_prev_mv(log_ext(l0, post)) > mv)
            ==> spec_ref_write_guarded(
            log_ext(l0, post),
            spec_cc_discharge_time(spec_read_prev_mv(log_ext(l0, post)), mv),
        ),
{
    crate::bus::lemma_extends_trans(l0, l3, post);
    let ext = log_ext(l0, post);
    let ext3 = log_ext(l0, l3);
    assert(ext =~= ext3 + log_ext(l3, post));
    assert(ext[0] == ext3[0]);
    assert(ext[1] == ext3[1]);
    assert(ext[2] == ext3[2]);
    assert(ext[3] == ext3[3]);
    if lowering {
        assert(ext[4] == ext3[4]);
        let d = spec_cc_discharge_time(spec_read_prev_mv(ext), mv);
        assert(ext[4] == op_delay(d));
        assert forall|i: int| 0 <= i < ext.len() && spec_is_ref_write(ext[i]) implies exists|j: int|
            0 <= j < i && ext[j] == op_delay(d) by {
            assert(!spec_is_ref_write(ext[0]));
            assert(!spec_is_ref_write(ext[1]));
            assert(!spec_is_ref_write(ext[2]));
            assert(!spec_is_ref_write(ext[3]));
            assert(!spec_is_ref_write(ext[4]));
            assert(i > 4);
            assert(0 <= 4 < i && ext[4] == op_delay(d));
        }
    }
}

} // verus!
