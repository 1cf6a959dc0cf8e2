//! Tests for the sense driver: calibration and exact unit conversions.

use protovolt::bus::{DriverError, SimBus};
use protovolt::measure::{
    measure_address, MeasureDevice, SenseConfig, BUS_VOLTAGE, CALIBRATION, CURRENT,
    MANUFACTURER_ID, POWER, SHUNT_VOLTAGE,
};
use protovolt::event::Channel;

fn ready_bus() -> SimBus {
    let mut bus = SimBus::new();
    // The chip answers with the expected manufacturer ID.
    bus.set_reg(MANUFACTURER_ID, 0x54);
    bus.set_reg(MANUFACTURER_ID + 1, 0x49);
    bus
}

#[test]
fn sense_addresses() {
    assert_eq!(measure_address(Channel::A), 0x40);
    assert_eq!(measure_address(Channel::B), 0x41);
}

#[test]
fn init_writes_the_calibration_word() {
    let mut dev = MeasureDevice::new(ready_bus(), SenseConfig::default());
    assert_eq!(dev.init(), Ok(()));
    // 0.00512 / ((5 A / 2^15) * 10 mOhm) truncates to 3355 = 0x0D1B.
    assert_eq!(dev.bus.get_reg(CALIBRATION), 0x0D);
    assert_eq!(dev.bus.get_reg(CALIBRATION + 1), 0x1B);
}

#[test]
fn init_rejects_a_wrong_manufacturer_id() {
    let mut bus = SimBus::new();
    bus.set_reg(MANUFACTURER_ID, 0x12);
    bus.set_reg(MANUFACTURER_ID + 1, 0x34);
    let mut dev = MeasureDevice::new(bus, SenseConfig::default());
    assert_eq!(dev.init(), Err(DriverError::Verification));
}

#[test]
fn bus_voltage_counts_are_1250_microvolts() {
    let mut bus = ready_bus();
    bus.set_reg(BUS_VOLTAGE, 0x10);
    bus.set_reg(BUS_VOLTAGE + 1, 0x00);
    let mut dev = MeasureDevice::new(bus, SenseConfig::default());
    // 0x1000 = 4096 counts -> 5.12 V.
    assert_eq!(dev.read_bus_voltage(), Ok(4096 * 1250));
}

#[test]
fn shunt_voltage_counts_are_signed() {
    let mut bus = ready_bus();
    bus.set_reg(SHUNT_VOLTAGE, 0xFF);
    bus.set_reg(SHUNT_VOLTAGE + 1, 0xFF);
    let mut dev = MeasureDevice::new(bus, SenseConfig::default());
    // 0xFFFF is -1 count of 2.5 uV.
    assert_eq!(dev.read_shunt_voltage(), Ok(-2500));
}

#[test]
fn current_scales_by_the_full_scale_lsb() {
    let mut bus = ready_bus();
    // 0x4000 = 16384 counts: half the positive range, so 2.5 A.
    bus.set_reg(CURRENT, 0x40);
    bus.set_reg(CURRENT + 1, 0x00);
    let mut dev = MeasureDevice::new(bus, SenseConfig::default());
    assert_eq!(dev.read_current(), Ok(2_500_000));

    // 0x8000 is the most negative count: -5 A.
    dev.bus.set_reg(CURRENT, 0x80);
    dev.bus.set_reg(CURRENT + 1, 0x00);
    assert_eq!(dev.read_current(), Ok(-5_000_000));
}

#[test]
fn power_scales_by_25_current_lsbs() {
    let mut bus = ready_bus();
    bus.set_reg(POWER, 0x00);
    bus.set_reg(POWER + 1, 0x80);
    let mut dev = MeasureDevice::new(bus, SenseConfig::default());
    // 128 counts of (5 A / 2^15) * 25 W each: 128 * 125_000_000 / 32768 uW.
    assert_eq!(dev.read_power(), Ok(128 * 125_000_000 / 32768));
}

#[test]
fn sense_bus_fault_is_a_bus_error() {
    let mut bus = ready_bus();
    bus.inject_failure(0);
    let mut dev = MeasureDevice::new(bus, SenseConfig::default());
    assert_eq!(dev.read_bus_voltage(), Err(DriverError::Bus));
}
