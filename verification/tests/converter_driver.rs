//! Tests for the converter codec and the driver over the simulated bus.

use protovolt::bus::{DriverError, SimBus};
use protovolt::converter::{
    cc_discharge_time, converter_address, current_limit_reg, decode_voltage, encode_voltage,
    ConverterDevice, IOUT_LIMIT, MODE, REF_LSB, VOUT_FS,
};
use protovolt::event::Channel;

#[test]
fn channel_addresses() {
    assert_eq!(converter_address(Channel::A), 0x75);
    assert_eq!(converter_address(Channel::B), 0x74);
}

#[test]
fn encode_picks_the_bucket_and_reference() {
    assert_eq!(encode_voltage(5000), Ok((0, 1918)));
    // 12 V: divisor 1875, 12_000_000 uV * 141 / 1875 = 902_400; minus
    // 45_000 is 857_400; times 2 over 1129 is 1518.
    assert_eq!(encode_voltage(12000), Ok((2, 1518)));
    assert_eq!(encode_voltage(200).unwrap().0, 0);
    assert_eq!(encode_voltage(5001).unwrap().0, 1);
    assert_eq!(encode_voltage(10001).unwrap().0, 2);
    assert_eq!(encode_voltage(15001).unwrap().0, 3);
    assert_eq!(encode_voltage(20000).unwrap().0, 3);
    assert_eq!(encode_voltage(199), Err(DriverError::OutOfRange));
    assert_eq!(encode_voltage(20001), Err(DriverError::OutOfRange));
    assert_eq!(encode_voltage(0), Err(DriverError::OutOfRange));
}

#[test]
fn decode_inverts_the_reference_math() {
    assert_eq!(decode_voltage(0, 1918), 4998);
    assert_eq!(decode_voltage(2, 1518), 11993);
    // The range code only uses its low two bits.
    assert_eq!(decode_voltage(4, 1918), decode_voltage(0, 1918));
}

#[test]
fn round_trip_stays_within_one_reference_lsb() {
    let slack = [3u32, 6, 8, 11];
    let mut mv: u16 = 200;
    while mv <= 20000 {
        let (code, reg) = encode_voltage(mv).unwrap();
        let back = decode_voltage(code, reg);
        assert!(back <= mv as u32, "{} decoded above itself: {}", mv, back);
        assert!(
            mv as u32 - back <= slack[code as usize],
            "{} came back as {}",
            mv,
            back
        );
        mv += 7;
    }
}

#[test]
fn discharge_time_formula() {
    // Stepping 12 V down to 5 V: 590 * 7000 / 100 + 20000 us.
    assert_eq!(cc_discharge_time(12000, 5000), 61300);
    assert_eq!(cc_discharge_time(5000, 5000), 20000);
}

#[test]
fn current_limit_register_byte() {
    // 1 A in 50 mA steps is 20 counts, under the enable bit.
    assert_eq!(current_limit_reg(1000), 0x80 | 20);
    assert_eq!(current_limit_reg(0), 0x80);
    assert_eq!(current_limit_reg(5000), 0x80 | 100);
}

#[test]
fn init_checks_the_status_block() {
    let mut bus = SimBus::new();
    bus.set_reg(MODE, 0x20);
    bus.set_reg(0x07, 0x01);
    let mut dev = ConverterDevice::new(bus);
    assert_eq!(dev.init(), Ok(()));
    // init leaves the output disabled.
    assert_eq!(dev.bus.get_reg(MODE), 0x30);

    let bus = SimBus::new();
    let mut dev = ConverterDevice::new(bus);
    assert_eq!(dev.init(), Err(DriverError::Verification));
}

#[test]
fn enable_disable_write_the_mode_register() {
    let bus = SimBus::new();
    let mut dev = ConverterDevice::new(bus);
    assert_eq!(dev.enable(), Ok(()));
    assert_eq!(dev.bus.get_reg(MODE), 0xB0);
    assert_eq!(dev.get_enabled(), Ok(true));
    assert_eq!(dev.disable(), Ok(()));
    assert_eq!(dev.bus.get_reg(MODE), 0x30);
    assert_eq!(dev.get_enabled(), Ok(false));
}

#[test]
fn set_voltage_programs_range_and_reference() {
    let bus = SimBus::new();
    let mut dev = ConverterDevice::new(bus);
    assert_eq!(dev.set_voltage(12000), Ok(()));
    assert_eq!(dev.bus.get_reg(VOUT_FS), 2);
    assert_eq!(dev.bus.get_reg(REF_LSB), (1518 % 256) as u8);
    assert_eq!(dev.bus.get_reg(REF_LSB + 1), (1518 / 256) as u8);
    // The output was not enabled, so it stays disabled.
    assert_eq!(dev.get_enabled(), Ok(false));
    assert_eq!(dev.get_voltage(), Ok(11993));
}

#[test]
fn set_voltage_reenables_an_enabled_output() {
    let bus = SimBus::new();
    let mut dev = ConverterDevice::new(bus);
    assert_eq!(dev.set_voltage(12000), Ok(()));
    assert_eq!(dev.enable(), Ok(()));
    // Stepping down while enabled: reprogrammed and re-enabled.
    assert_eq!(dev.set_voltage(5000), Ok(()));
    assert_eq!(dev.bus.get_reg(VOUT_FS), 0);
    assert_eq!(dev.bus.get_reg(REF_LSB), (1918 % 256) as u8);
    assert_eq!(dev.bus.get_reg(REF_LSB + 1), (1918 / 256) as u8);
    assert_eq!(dev.get_enabled(), Ok(true));
}

#[test]
fn set_voltage_rejects_out_of_range_targets() {
    let bus = SimBus::new();
    let mut dev = ConverterDevice::new(bus);
    assert_eq!(dev.set_voltage(100), Err(DriverError::OutOfRange));
    assert_eq!(dev.set_voltage(30000), Err(DriverError::OutOfRange));
}

#[test]
fn bus_faults_surface_as_bus_errors() {
    let mut bus = SimBus::new();
    bus.inject_failure(0);
    let mut dev = ConverterDevice::new(bus);
    assert_eq!(dev.set_current(1000), Err(DriverError::Bus));
    // The fault was one-shot; the retry succeeds.
    assert_eq!(dev.set_current(1000), Ok(()));
    assert_eq!(dev.bus.get_reg(IOUT_LIMIT), 0x80 | 20);
}

#[test]
fn lowering_while_enabled_waits_out_the_discharge() {
    let bus = SimBus::new();
    let mut dev = ConverterDevice::new(bus);
    assert_eq!(dev.set_voltage(12000), Ok(()));
    assert_eq!(dev.enable(), Ok(()));
    let before = dev.bus.delay_total();
    // The programmed 12 V bucket reads back as 11993 mV; stepping down to
    // 5 V must wait 590 * (11993 - 5000) / 100 + 20000 us.
    assert_eq!(dev.set_voltage(5000), Ok(()));
    assert_eq!(
        dev.bus.delay_total() - before,
        590 * (11993 - 5000) / 100 + 20000
    );
}

#[test]
fn raising_or_disabled_changes_take_no_discharge_wait() {
    let bus = SimBus::new();
    let mut dev = ConverterDevice::new(bus);
    assert_eq!(dev.set_voltage(5000), Ok(()));
    let before = dev.bus.delay_total();
    // Disabled: no wait even when stepping down.
    assert_eq!(dev.set_voltage(1000), Ok(()));
    assert_eq!(dev.bus.delay_total(), before);
    // Enabled but stepping up: no wait either.
    assert_eq!(dev.enable(), Ok(()));
    assert_eq!(dev.set_voltage(9000), Ok(()));
    assert_eq!(dev.bus.delay_total(), before);
}
