//! The current/voltage sense driver and its calibration math.
//!
//! The chip reports bus voltage (1.25 mV per count), shunt voltage (2.5 µV
//! per count, signed), current and power scaled by a calibration register
//! written at start-up.  With a full-scale current of `i_max` the current
//! LSB is `i_max / 2^15`, the power LSB 25 times that, and the calibration
//! word `0.00512 / (current_lsb * r_shunt)` truncated to 16 bits.  All
//! results here are exact integers: microvolts, nanovolts, microamps and
//! microwatts.

use vstd::prelude::*;

use crate::bus::{
    log_ext, log_extends, op_write, spec_read_at, spec_read_data, BusOp, DriverError, RegisterBus,
};
use crate::event::Channel;

verus! {

/// Bus address of the channel-A sense chip; channel B sits one above.
pub const MEASURE_ADDR: u8 = 0x40;

/// Shunt-voltage register.
pub const SHUNT_VOLTAGE: u8 = 0x01;

/// Bus-voltage register.
pub const BUS_VOLTAGE: u8 = 0x02;

/// Power register.
pub const POWER: u8 = 0x03;

/// Current register.
pub const CURRENT: u8 = 0x04;

/// Calibration register.
pub const CALIBRATION: u8 = 0x05;

/// Manufacturer-ID register.
pub const MANUFACTURER_ID: u8 = 0xFE;

/// The manufacturer ID the chip must report.
pub const EXPECTED_MANUFACTURER_ID: u16 = 0x5449;

/// Each channel's sense chip sits at its own address.
pub fn measure_address(channel: Channel) -> (r: u8)
    ensures
        channel is A ==> r == 0x40,
        channel is B ==> r == 0x41,
{
    match channel {
        Channel::A => MEASURE_ADDR,
        Channel::B => MEASURE_ADDR + 1,
    }
}

/// Shunt resistance and full-scale current the calibration derives from.
#[derive(Clone, Copy, Debug, PartialEq, Eq, Structural)]
pub struct SenseConfig {
    /// Shunt resistance in milliohms.
    pub r_shunt_mohm: u32,
    /// Full-scale current in milliamps.
    pub i_max_ma: u32,
}

impl SenseConfig {
    /// Positive and small enough for the fixed-point math to be exact.
    pub open spec fn wf(self) -> bool {
        &&& 1 <= self.r_shunt_mohm <= 100000
        &&& 1 <= self.i_max_ma <= 100000
    }
}

impl Default for SenseConfig {
    /// A 10 milliohm shunt, 5 A full scale.
    fn default() -> (r: Self)
        ensures
            r == (SenseConfig { r_shunt_mohm: 10, i_max_ma: 5000 }),
    {
        SenseConfig { r_shunt_mohm: 10, i_max_ma: 5000 }
    }
}

/// The calibration word: `0.00512 / ((i_max / 2^15) * r_shunt)` in exact
/// integer form, truncated, and saturated into 16 bits as the register
/// cast would.
pub open spec fn spec_calibration(config: SenseConfig) -> int {
    let cal: int = (5120 * 32768) as int / (config.i_max_ma as int * config.r_shunt_mohm as int);
    if cal > 65535 {
        65535
    } else {
        cal
    }
}

/// A big-endian register pair as an unsigned word.
pub open spec fn spec_word_be(d: Seq<u8>) -> int {
    d[0] * 256 + d[1]
}

/// A 16-bit count reinterpreted as two's-complement.
pub open spec fn spec_signed16(x: int) -> int {
    if x >= 32768 {
        x - 65536
    } else {
        x
    }
}

/// Bus voltage: 1250 µV per count.
pub open spec fn spec_bus_voltage_uv(reg: int) -> int {
    reg * 1250
}

/// Shunt voltage: 2500 nV per signed count.
pub open spec fn spec_shunt_voltage_nv(reg: int) -> int {
    spec_signed16(reg) * 2500
}

/// Current in microamps: signed count times the current LSB
/// (`i_max_ma * 1000 / 2^15` µA), truncated toward zero.
pub open spec fn spec_current_ua(reg: int, config: SenseConfig) -> int {
    let signed = spec_signed16(reg);
    if signed >= 0 {
        signed * (config.i_max_ma * 1000) / 32768
    } else {
        -((-signed) * (config.i_max_ma * 1000) / 32768)
    }
}

/// Power in microwatts: count times 25 current LSBs.
pub open spec fn spec_power_uw(reg: int, config: SenseConfig) -> int {
    reg * (config.i_max_ma * 25000) / 32768
}

/// One channel's sense chip, spoken to over a register port.
pub struct MeasureDevice<B: RegisterBus> {
    pub bus: B,
    pub config: SenseConfig,
}

impl<B: RegisterBus> MeasureDevice<B> {
    pub open spec fn inv(self) -> bool {
        self.bus.inv() && self.config.wf()
    }

    pub open spec fn log(self) -> Seq<BusOp> {
        self.bus.log()
    }

    pub fn new(bus: B, config: SenseConfig) -> (r: Self)
        requires
            config.wf(),
        ensures
            r.bus == bus,
            r.config == config,
    {
        MeasureDevice { bus, config }
    }

    /// Verify the chip's manufacturer ID, then write the calibration word.
    pub fn init(&mut self) -> (r: Result<(), DriverError>)
        requires
            old(self).inv(),
        ensures
            final(self).inv(),
            final(self).config == old(self).config,
            log_extends(old(self).log(), final(self).log()),
            ({
                let ext = log_ext(old(self).log(), final(self).log());
                match r {
                    Ok(()) => {
                        &&& ext.len() == 2
                        &&& spec_read_at(ext, 0, MANUFACTURER_ID, 2)
                        &&& spec_word_be(spec_read_data(ext, 0)) == EXPECTED_MANUFACTURER_ID
                        &&& ext[1] == op_write(
                            CALIBRATION,
                            seq![
                                (spec_calibration(old(self).config) / 256) as u8,
                                (spec_calibration(old(self).config) % 256) as u8,
                            ],
                        )
                    },
                    Err(DriverError::Verification) => {
                        &&& ext.len() == 1
                        &&& spec_read_at(ext, 0, MANUFACTURER_ID, 2)
                        &&& spec_word_be(spec_read_data(ext, 0)) != EXPECTED_MANUFACTURER_ID
                    },
                    Err(e) => e == DriverError::Bus && crate::bus::spec_reads_only(ext),
                }
            }),
    {
        let ghost l0 = self.bus.log();
        let id = match self.bus.read_regs(MANUFACTURER_ID, 2) {
            Ok(d) => d,
            Err(_) => {
                proof {
                    assert(crate::bus::spec_reads_only(log_ext(l0, self.bus.log())));
                }
                return Err(DriverError::Bus);
            },
        };
        let word: u16 = id[0] as u16 * 256 + id[1] as u16;
        if word != EXPECTED_MANUFACTURER_ID {
            proof {
                crate::bus::lemma_push_ext(l0, BusOp::Read { reg: MANUFACTURER_ID, data: id@ });
            }
            return Err(DriverError::Verification);
        }
        proof {
            assert(self.config.wf());
            assert(self.config.i_max_ma as int * self.config.r_shunt_mohm as int
                <= 10000000000) by (nonlinear_arith)
                requires
                    self.config.i_max_ma <= 100000,
                    self.config.r_shunt_mohm <= 100000,
            ;
            assert(self.config.i_max_ma as int * self.config.r_shunt_mohm as int
                >= 1) by (nonlinear_arith)
                requires
                    self.config.i_max_ma >= 1,
                    self.config.r_shunt_mohm >= 1,
            ;
        }
        let denom: u64 = self.config.i_max_ma as u64 * self.config.r_shunt_mohm as u64;
        let cal64: u64 = 5120 * 32768 / denom;
        let cal: u16 = if cal64 > 65535 {
            65535
        } else {
            cal64 as u16
        };
        let cal_hi = (cal / 256) as u8;
        let cal_lo = (cal % 256) as u8;
        let cal_byte = [cal_hi, cal_lo];
        let cal_bytes = cal_byte.as_slice();
        proof {
            assert(cal_bytes@ =~= seq![cal_hi, cal_lo]);
        }
        match self.bus.write_regs(CALIBRATION, cal_bytes) {
            Ok(()) => {
                proof {
                    assert(log_ext(l0, self.bus.log()) =~= seq![
                        BusOp::Read { reg: MANUFACTURER_ID, data: id@ },
                        op_write(CALIBRATION, seq![cal_hi, cal_lo]),
                    ]);
                    assert(self.bus.log().take(l0.len() as int) =~= l0);
                }
                Ok(())
            },
            Err(_) => {
                proof {
                    crate::bus::lemma_push_ext(l0, BusOp::Read { reg: MANUFACTURER_ID, data: id@ });
                }
                Err(DriverError::Bus)
            },
        }
    }

    /// Read one big-endian measurement register.
    fn read_word(&mut self, reg: u8) -> (r: Result<u16, DriverError>)
        requires
            old(self).inv(),
        ensures
            final(self).inv(),
            final(self).config == old(self).config,
            log_extends(old(self).log(), final(self).log()),
            ({
                let ext = log_ext(old(self).log(), final(self).log());
                match r {
                    Ok(w) => {
                        &&& ext.len() == 1
                        &&& spec_read_at(ext, 0, reg, 2)
                        &&& w == spec_word_be(spec_read_data(ext, 0))
                    },
                    Err(e) => e == DriverError::Bus && final(self).log() == old(self).log(),
                }
            }),
    {
        let ghost l0 = self.bus.log();
        match self.bus.read_regs(reg, 2) {
            Ok(d) => {
                proof {
                    crate::bus::lemma_push_ext(l0, BusOp::Read { reg, data: d@ });
                }
                Ok(d[0] as u16 * 256 + d[1] as u16)
            },
            Err(_) => Err(DriverError::Bus),
        }
    }

    /// Shunt voltage in nanovolts (signed).
    pub fn read_shunt_voltage(&mut self) -> (r: Result<i32, DriverError>)
        requires
            old(self).inv(),
        ensures
            final(self).inv(),
            final(self).config == old(self).config,
            log_extends(old(self).log(), final(self).log()),
            ({
                let ext = log_ext(old(self).log(), final(self).log());
                match r {
                    Ok(nv) => {
                        &&& ext.len() == 1
                        &&& spec_read_at(ext, 0, SHUNT_VOLTAGE, 2)
                        &&& nv == spec_shunt_voltage_nv(spec_word_be(spec_read_data(ext, 0)))
                    },
                    Err(e) => e == DriverError::Bus && final(self).log() == old(self).log(),
                }
            }),
    {
        match self.read_word(SHUNT_VOLTAGE) {
            Ok(w) => {
                let signed: i32 = if w >= 32768 {
                    w as i32 - 65536
                } else {
                    w as i32
                };
                Ok(signed * 2500)
            },
            Err(e) => Err(e),
        }
    }

    /// Bus voltage in microvolts.
    pub fn read_bus_voltage(&mut self) -> (r: Result<u32, DriverError>)
        requires
            old(self).inv(),
        ensures
            final(self).inv(),
            final(self).config == old(self).config,
            log_extends(old(self).log(), final(self).log()),
            ({
                let ext = log_ext(old(self).log(), final(self).log());
                match r {
                    Ok(uv) => {
                        &&& ext.len() == 1
                        &&& spec_read_at(ext, 0, BUS_VOLTAGE, 2)
                        &&& uv == spec_bus_voltage_uv(spec_word_be(spec_read_data(ext, 0)))
                    },
                    Err(e) => e == DriverError::Bus && final(self).log() == old(self).log(),
                }
            }),
    {
        match self.read_word(BUS_VOLTAGE) {
            Ok(w) => Ok(w as u32 * 1250),
            Err(e) => Err(e),
        }
    }

    /// Current in microamps (signed).
    pub fn read_current(&mut self) -> (r: Result<i64, DriverError>)
        requires
            old(self).inv(),
        ensures
            final(self).inv(),
            final(self).config == old(self).config,
            log_extends(old(self).log(), final(self).log()),
            ({
                let ext = log_ext(old(self).log(), final(self).log());
                match r {
                    Ok(ua) => {
                        &&& ext.len() == 1
                        &&& spec_read_at(ext, 0, CURRENT, 2)
                        &&& ua == spec_current_ua(
                            spec_word_be(spec_read_data(ext, 0)),
                            old(self).config,
                        )
                    },
                    Err(e) => e == DriverError::Bus && final(self).log() == old(self).log(),
                }
            }),
    {
        let scale: u64 = self.config.i_max_ma as u64 * 1000;
        match self.read_word(CURRENT) {
            Ok(w) => {
                proof {
                    assert(w as int * scale as int <= 65536 * 100000000) by (nonlinear_arith)
                        requires
                            w <= 65536,
                            scale <= 100000000,
                    ;
                    assert((65536 - w as int) * scale as int <= 65536 * 100000000)
                        by (nonlinear_arith)
                        requires
                            w <= 65536,
                            scale <= 100000000,
                    ;
                }
                if w >= 32768 {
                    let magnitude: u64 = 65536 - w as u64;
                    Ok(-((magnitude * scale / 32768) as i64))
                } else {
                    Ok((w as u64 * scale / 32768) as i64)
                }
            },
            Err(e) => Err(e),
        }
    }

    /// Power in microwatts.
    pub fn read_power(&mut self) -> (r: Result<u64, DriverError>)
        requires
            old(self).inv(),
        ensures
            final(self).inv(),
            final(self).config == old(self).config,
            log_extends(old(self).log(), final(self).log()),
            ({
                let ext = log_ext(old(self).log(), final(self).log());
                match r {
                    Ok(uw) => {
                        &&& ext.len() == 1
                        &&& spec_read_at(ext, 0, POWER, 2)
                        &&& uw == spec_power_uw(
                            spec_word_be(spec_read_data(ext, 0)),
                            old(self).config,
                        )
                    },
                    Err(e) => e == DriverError::Bus && final(self).log() == old(self).log(),
                }
            }),
    {
        let scale: u64 = self.config.i_max_ma as u64 * 25000;
        match self.read_word(POWER) {
            Ok(w) => {
                proof {
                    assert(w as int * scale as int <= 65536 * 2500000000) by (nonlinear_arith)
                        requires
                            w <= 65536,
                            scale <= 2500000000,
                    ;
                }
                Ok(w as u64 * scale / 32768)
            },
            Err(e) => Err(e),
        }
    }
}

/// The sense context reports ready only when both channels' chips came
/// up: the result carried by the readiness event.
pub fn combine_init_results(a: Result<(), DriverError>, b: Result<(), DriverError>) -> (r: Result<
    (),
    (),
>)
    ensures
        r is Ok <==> (a is Ok && b is Ok),
{
    if a.is_ok() && b.is_ok() {
        Ok(())
    } else {
        Err(())
    }
}

} // verus!
