//! Tests for the USB-PD source-capability driver: the current-code and
//! PDO codecs, the live registers, and the NVM protocol over the
//! simulated bus.

use protovolt::bus::{DriverError, SimBus};
use protovolt::power::{
    decode_nvm_settings, nvm_ca_to_code, nvm_code_to_ca, PowerDeliveryDevice, DPM_PDO_NUMB,
    FTP_CTRL_0, FTP_CUST_REQ, RW_BUFFER,
};

fn nvm_bus() -> SimBus {
    let mut bus = SimBus::new();
    // The simulated chip completes NVM requests at once: the request bit
    // reads back clear after any control write.
    bus.set_clear_on_write(FTP_CTRL_0, FTP_CUST_REQ);
    bus
}

#[test]
fn current_code_table() {
    assert_eq!(nvm_code_to_ca(0), 0);
    assert_eq!(nvm_code_to_ca(1), 50);
    assert_eq!(nvm_code_to_ca(10), 275);
    assert_eq!(nvm_code_to_ca(11), 300);
    assert_eq!(nvm_code_to_ca(15), 500);
    assert_eq!(nvm_ca_to_code(0), 0);
    assert_eq!(nvm_ca_to_code(49), 0);
    assert_eq!(nvm_ca_to_code(50), 1);
    assert_eq!(nvm_ca_to_code(300), 11);
    assert_eq!(nvm_ca_to_code(500), 15);
}

#[test]
fn current_code_is_idempotent() {
    for code in 0u8..=15 {
        assert_eq!(nvm_ca_to_code(nvm_code_to_ca(code)), code);
    }
}

#[test]
fn current_round_trip_bounds() {
    for ca in 0u16..=500 {
        let back = nvm_code_to_ca(nvm_ca_to_code(ca));
        assert!(back <= ca);
        assert!(ca - back <= 49, "{} came back as {}", ca, back);
        if (50..=300).contains(&ca) {
            assert!(ca - back <= 24, "{} came back as {}", ca, back);
        }
    }
}

#[test]
fn live_pdo_codec_round_trips() {
    let mut dev = PowerDeliveryDevice::new(SimBus::new());
    assert_eq!(dev.set_voltage(2, 12000), Ok(()));
    assert_eq!(dev.set_current(2, 3000), Ok(()));
    assert_eq!(dev.get_voltage(2), Ok(12000));
    assert_eq!(dev.get_current(2), Ok(3000));
    // The word holds voltage bits 240 and current bits 300, little endian
    // at the slot's register block.
    let lo = dev.bus.get_reg(0x89) as u32;
    let b1 = dev.bus.get_reg(0x8A) as u32;
    let b2 = dev.bus.get_reg(0x8B) as u32;
    let word = lo + 256 * b1 + 65536 * b2;
    assert_eq!(word, 240 * 1024 + 300);
}

#[test]
fn set_voltage_clamps_slot_and_range() {
    let mut dev = PowerDeliveryDevice::new(SimBus::new());
    // Slot 1 is pinned to 5 V whatever is asked.
    assert_eq!(dev.set_voltage(1, 9000), Ok(()));
    assert_eq!(dev.get_voltage(1), Ok(5000));
    // Slot numbers clamp into 1..=3.
    assert_eq!(dev.set_voltage(0, 8000), Ok(()));
    assert_eq!(dev.get_voltage(1), Ok(5000));
    assert_eq!(dev.set_voltage(9, 50000), Ok(()));
    assert_eq!(dev.get_voltage(3), Ok(20000));
    assert_eq!(dev.set_voltage(2, 1000), Ok(()));
    assert_eq!(dev.get_voltage(2), Ok(5000));
}

#[test]
fn pdo_number_register() {
    let mut dev = PowerDeliveryDevice::new(SimBus::new());
    assert_eq!(dev.set_pdo_number(9), Ok(()));
    assert_eq!(dev.bus.get_reg(DPM_PDO_NUMB), 3);
    assert_eq!(dev.get_pdo_number(), Ok(3));
    assert_eq!(dev.set_pdo_number(2), Ok(()));
    assert_eq!(dev.get_pdo_number(), Ok(2));
}

#[test]
fn nvm_read_decodes_and_pushes_profiles() {
    let mut bus = nvm_bus();
    // Every sector read returns the window below, so sectors 3 and 4 of
    // the mirror both hold it.  Decoded: three PDOs; PDO1 at code 9
    // (2.5 A); PDO2 at 241 voltage bits (12.05 V), code 5 (1.5 A); PDO3
    // at 150 voltage bits (7.5 V), code 11 (3 A).
    let window: [u8; 8] = [0x40, 0x3C, 0x96, 0x00, 0x05, 0xB0, 0x00, 0x00];
    for (k, b) in window.iter().enumerate() {
        bus.set_reg(RW_BUFFER + k as u8, *b);
    }
    let mut dev = PowerDeliveryDevice::new(bus);
    assert_eq!(dev.read(), Ok(()));

    let settings = dev.decoded_settings();
    assert_eq!(settings.pdo_count, 3);
    assert_eq!(settings.pdo1_ma, 2500);
    assert_eq!(settings.pdo2_ma, 1500);
    assert_eq!(settings.pdo3_ma, 3000);
    assert_eq!(settings.pdo2_mv, 12050);
    assert_eq!(settings.pdo3_mv, 7500);

    // The decoded profiles were pushed into the live registers.
    assert_eq!(dev.get_pdo_number(), Ok(3));
    assert_eq!(dev.get_voltage(1), Ok(5000));
    assert_eq!(dev.get_current(1), Ok(2500));
    assert_eq!(dev.get_voltage(2), Ok(12050));
    assert_eq!(dev.get_current(2), Ok(1500));
    assert_eq!(dev.get_voltage(3), Ok(7500));
    assert_eq!(dev.get_current(3), Ok(3000));
}

#[test]
fn nvm_read_times_out_on_a_stuck_request_bit() {
    // Without the clear-on-write rule the request bit never clears.
    let bus = SimBus::new();
    let mut dev = PowerDeliveryDevice::new(bus);
    assert_eq!(dev.read(), Err(DriverError::Timeout));
}

#[test]
fn nvm_write_reencodes_the_live_profiles() {
    let mut bus = nvm_bus();
    bus.set_reg(DPM_PDO_NUMB, 2);
    let mut dev = PowerDeliveryDevice::new(bus);
    assert_eq!(dev.set_current(1, 1000), Ok(()));
    assert_eq!(dev.set_voltage(2, 12000), Ok(()));
    assert_eq!(dev.set_current(2, 3000), Ok(()));
    assert_eq!(dev.set_voltage(3, 9000), Ok(()));
    assert_eq!(dev.set_current(3, 2000), Ok(()));

    assert_eq!(dev.write(0), Ok(()));

    // The mirror now stores the re-encoded profiles.
    let settings = decode_nvm_settings(&dev.sector);
    assert_eq!(settings.pdo_count, 2);
    assert_eq!(settings.pdo1_ma, 1000);
    assert_eq!(settings.pdo2_ma, 3000);
    assert_eq!(settings.pdo3_ma, 2000);
    assert_eq!(settings.pdo2_mv, 12000);
    assert_eq!(settings.pdo3_mv, 9000);

    // The last programmed sector left its bytes in the window: sector 4
    // holds the two voltage fields.
    assert_eq!(dev.bus.get_reg(RW_BUFFER + 1), 60);
    assert_eq!(dev.bus.get_reg(RW_BUFFER + 2), 180);
}

#[test]
fn nvm_write_defaults_programs_the_factory_image() {
    let mut dev = PowerDeliveryDevice::new(nvm_bus());
    assert_eq!(dev.write(1), Ok(()));
    // The mirror is untouched; the window holds the last default row.
    assert!(dev.sector.iter().all(|b| *b == 0));
    let last_row: [u8; 8] = [0x00, 0x4B, 0x90, 0x21, 0x43, 0x00, 0x40, 0xFB];
    for (k, b) in last_row.iter().enumerate() {
        assert_eq!(dev.bus.get_reg(RW_BUFFER + k as u8), *b);
    }
}

#[test]
fn stored_configuration_getters() {
    let mut dev = PowerDeliveryDevice::new(SimBus::new());
    // Sector 3 byte 3 is 0xAF: upper limit of PDO1 is its high nibble
    // plus five.
    dev.sector[27] = 0xAF;
    assert_eq!(dev.get_upper_voltage_limit(1), Ok(15));
    dev.sector[28] = 0x64;
    assert_eq!(dev.get_lower_voltage_limit(2), Ok(11));
    assert_eq!(dev.get_lower_voltage_limit(1), Ok(0));
    assert_eq!(dev.get_lower_voltage_limit(4), Err(DriverError::OutOfRange));
    // Flex current: low nibble of sector 4 byte 4 over the top six bits
    // of byte 3.
    dev.sector[35] = 0xFC;
    dev.sector[36] = 0x02;
    assert_eq!(dev.get_flex_current(), Ok(2 * 64 + 63));
    dev.sector[26] = 0x09;
    assert_eq!(dev.get_external_power(), Ok(1));
    assert_eq!(dev.get_usb_comm_capable(), Ok(1));
    dev.sector[38] = 0x18;
    assert_eq!(dev.get_power_above_5v_only(), Ok(1));
    assert_eq!(dev.get_req_src_current(), Ok(1));
    dev.sector[8] = 0x20;
    assert_eq!(dev.get_gpio_ctrl(), Ok(2));
}

#[test]
fn sector_image_decodes_without_hardware() {
    let mut sector = vec![0u8; 40];
    sector[26] = 0x96;
    sector[28] = 0x05;
    sector[29] = 0xB0;
    sector[32] = 0x40;
    sector[33] = 0x3C;
    sector[34] = 0x96;
    sector[35] = 0x00;
    let settings = decode_nvm_settings(&sector);
    assert_eq!(settings.pdo_count, 3);
    assert_eq!(settings.pdo1_ma, 2500);
    assert_eq!(settings.pdo2_ma, 1500);
    assert_eq!(settings.pdo3_ma, 3000);
    assert_eq!(settings.pdo2_mv, 12050);
    assert_eq!(settings.pdo3_mv, 7500);
}
