//! The USB-PD source-capability driver: live PDO registers and the NVM
//! sector protocol.
//!
//! Each of the three source profiles is a 32-bit word whose low ten bits
//! carry the current in 10 mA steps and whose next ten bits carry the
//! voltage in 50 mV steps.  The same profiles persist in five 8-byte NVM
//! sectors, with a four-bit piecewise current code and ten-bit voltage
//! fields at documented offsets; this module holds the bit-exact codec for
//! both forms, and the read/erase/program protocol with password unlock
//! and bounded busy-polling on the request bit.  Every protocol contract
//! also bounds its failure paths: an error leaves the chip having seen at
//! most a prefix of the stated operation sequence.

use vstd::prelude::*;

use crate::bus::{
    log_ext, log_extends, op_write, op_write1, spec_read_at, spec_read_data, BusOp, DriverError,
    RegisterBus,
};

verus! {

/// Bus address of the power-source chip.
pub const POWER_ADDR: u8 = 0x28;

/// NVM password register, and the password that unlocks it.
pub const FTP_CUST_PASSWORD_REG: u8 = 0x95;

/// The NVM unlock password.
pub const FTP_CUST_PASSWORD: u8 = 0x47;

/// NVM control register 0.
pub const FTP_CTRL_0: u8 = 0x96;

/// Power bit in control register 0.
pub const FTP_CUST_PWR: u8 = 0x80;

/// Reset-line bit in control register 0.
pub const FTP_CUST_RST_N: u8 = 0x40;

/// Request bit in control register 0: set to start an operation, cleared
/// by the chip when the operation completes.
pub const FTP_CUST_REQ: u8 = 0x10;

/// Sector-select mask in control register 0.
pub const FTP_CUST_SECT: u8 = 0x07;

/// NVM control register 1.
pub const FTP_CTRL_1: u8 = 0x97;

/// Opcode mask in control register 1.
pub const FTP_CUST_OPCODE: u8 = 0x07;

/// Shared 8-byte data window for sector reads and programs.
pub const RW_BUFFER: u8 = 0x53;

/// Register holding the number of configured sink PDOs.
pub const DPM_PDO_NUMB: u8 = 0x70;

/// Opcode: read the selected sector into the window.
pub const OPCODE_READ: u8 = 0x00;

/// Opcode: load the window into the program latch.
pub const OPCODE_WRITE_PL: u8 = 0x01;

/// Opcode: load the sector-erase latch.
pub const OPCODE_WRITE_SER: u8 = 0x02;

/// Opcode: erase the latched sectors.
pub const OPCODE_ERASE_SECTOR: u8 = 0x05;

/// Opcode: program the selected sector from the latch.
pub const OPCODE_PROG_SECTOR: u8 = 0x06;

/// Opcode: soft program after erase.
pub const OPCODE_SOFT_PROG_SECTOR: u8 = 0x07;

/// All five sector-select bits.
pub const ALL_SECTORS: u8 = 0x1F;

/// How many polls of the request bit before the driver gives up.
pub const REQUEST_POLL_LIMIT: u32 = 100;

/// The pause between request-bit polls, in microseconds.
pub const REQUEST_POLL_PAUSE_US: u64 = 30000;

// --- the piecewise NVM current code (4 bits <-> centiamps) ---

/// Decode a four-bit NVM current code to centiamps: 0 is 0 A; codes below
/// 11 step by 0.25 A from 0.5 A; the rest step by 0.5 A from 3 A.
pub open spec fn spec_nvm_code_to_ca(code: int) -> int {
    if code == 0 {
        0
    } else if code < 11 {
        code * 25 + 25
    } else {
        code * 50 - 250
    }
}

/// Encode centiamps to the four-bit NVM current code: below 0.5 A is 0;
/// up to 3 A uses the fine table; above it the coarse one.
pub open spec fn spec_nvm_ca_to_code(ca: int) -> int {
    if ca < 50 {
        0
    } else if ca <= 300 {
        (4 * ca - 100) / 100
    } else {
        (2 * ca + 500) / 100
    }
}

/// Decode a current code.
pub fn nvm_code_to_ca(code: u8) -> (ca: u16)
    requires
        code <= 15,
    ensures
        ca == spec_nvm_code_to_ca(code as int),
        ca <= 500,
{
    if code == 0 {
        0
    } else if code < 11 {
        code as u16 * 25 + 25
    } else {
        code as u16 * 50 - 250
    }
}

/// Encode a current in centiamps.
pub fn nvm_ca_to_code(ca: u16) -> (code: u8)
    requires
        ca <= 500,
    ensures
        code == spec_nvm_ca_to_code(ca as int),
        code <= 15,
{
    if ca < 50 {
        0
    } else if ca <= 300 {
        ((4 * ca - 100) / 100) as u8
    } else {
        ((2 * ca + 500) / 100) as u8
    }
}

/// The NVM current code is a fixed point of the mapping: re-encoding a
/// decoded code gives the code back, for every four-bit code.
pub proof fn lemma_nvm_current_code_idempotent(code: u8)
    requires
        code <= 15,
    ensures
        spec_nvm_ca_to_code(spec_nvm_code_to_ca(code as int)) == code,
{
}

/// Round-trip accuracy of the NVM current mapping over 0..=5 A: the
/// decoded value never exceeds the input and sits within one coarse
/// step (0.5 A) of it everywhere, within one fine step (0.25 A) on the
/// fine segment 0.5..=3 A.
pub proof fn lemma_nvm_current_round_trip(ca: int)
    requires
        0 <= ca <= 500,
    ensures
        spec_nvm_code_to_ca(spec_nvm_ca_to_code(ca)) <= ca,
        ca - spec_nvm_code_to_ca(spec_nvm_ca_to_code(ca)) <= 49,
        50 <= ca <= 300 ==> ca - spec_nvm_code_to_ca(spec_nvm_ca_to_code(ca)) <= 24,
{
}

// --- the live PDO word (bits 9:0 current, 19:10 voltage) ---

/// The ten voltage bits of a PDO word (50 mV steps).
pub open spec fn spec_pdo_voltage_bits(w: int) -> int {
    (w / 1024) % 1024
}

/// A PDO word's voltage in millivolts.
pub open spec fn spec_pdo_voltage_mv(w: int) -> int {
    spec_pdo_voltage_bits(w) * 50
}

/// A PDO word's current in centiamps (its low ten bits).
pub open spec fn spec_pdo_current_ca(w: int) -> int {
    w % 1024
}

/// A PDO word's current in milliamps.
pub open spec fn spec_pdo_current_ma(w: int) -> int {
    spec_pdo_current_ca(w) * 10
}

/// The word with its voltage bits replaced.
pub open spec fn spec_with_voltage_bits(w: int, bits: int) -> int {
    (w / 1048576) * 1048576 + bits * 1024 + w % 1024
}

/// The word with its current bits replaced.
pub open spec fn spec_with_current_bits(w: int, ca: int) -> int {
    (w / 1024) * 1024 + ca
}

/// The voltage a PDO slot accepts: slot 1 is fixed at 5 V, the others
/// clamp into 5..=20 V.
pub open spec fn spec_clamp_pdo_mv(slot: int, mv: int) -> int {
    if slot == 1 {
        5000
    } else if mv < 5000 {
        5000
    } else if mv > 20000 {
        20000
    } else {
        mv
    }
}

/// A little-endian 32-bit register as a word.
pub open spec fn spec_word_le(d: Seq<u8>) -> int {
    d[0] + 256 * d[1] + 65536 * d[2] + 16777216 * d[3]
}

/// A word as its four little-endian bytes.
pub open spec fn spec_le_bytes(w: int) -> Seq<u8> {
    seq![
        (w % 256) as u8,
        ((w / 256) % 256) as u8,
        ((w / 65536) % 256) as u8,
        ((w / 16777216) % 256) as u8,
    ]
}

// --- the NVM sector mirror (five sectors of eight bytes, kept flat) ---

/// The sector mirror holds five 8-byte sectors.
pub open spec fn spec_sector_wf(s: Seq<u8>) -> bool {
    s.len() == 40
}

/// How many PDOs the stored configuration enables (sector 3, byte 2,
/// bits 2:1).
pub open spec fn spec_nvm_pdo_count(s: Seq<u8>) -> int {
    (s[26] as int / 2) % 4
}

/// Stored current of PDO 1, in milliamps (sector 3, byte 2, high nibble).
pub open spec fn spec_nvm_pdo1_ma(s: Seq<u8>) -> int {
    spec_nvm_code_to_ca(s[26] as int / 16) * 10
}

/// Stored current of PDO 2, in milliamps (sector 3, byte 4, low nibble).
pub open spec fn spec_nvm_pdo2_ma(s: Seq<u8>) -> int {
    spec_nvm_code_to_ca(s[28] as int % 16) * 10
}

/// Stored current of PDO 3, in milliamps (sector 3, byte 5, high nibble).
pub open spec fn spec_nvm_pdo3_ma(s: Seq<u8>) -> int {
    spec_nvm_code_to_ca(s[29] as int / 16) * 10
}

/// Stored voltage of PDO 2, in millivolts (ten bits spread over sector 4,
/// bytes 1 and 0).
pub open spec fn spec_nvm_pdo2_mv(s: Seq<u8>) -> int {
    (s[33] as int * 4 + s[32] as int / 64) * 50
}

/// Stored voltage of PDO 3, in millivolts (ten bits spread over sector 4,
/// bytes 3 and 2).
pub open spec fn spec_nvm_pdo3_mv(s: Seq<u8>) -> int {
    ((s[35] as int % 4) * 256 + s[34] as int) * 50
}

/// The source profiles an NVM image stores.  PDO 1's voltage is the fixed
/// 5 V rail and is not stored.
#[derive(Clone, Copy, Debug, PartialEq, Eq, Structural)]
pub struct PdoSettings {
    pub pdo_count: u8,
    pub pdo1_ma: u32,
    pub pdo2_ma: u32,
    pub pdo3_ma: u32,
    pub pdo2_mv: u32,
    pub pdo3_mv: u32,
}

/// The profiles an NVM image stores, as one record.
pub open spec fn spec_decoded_settings(s: Seq<u8>) -> PdoSettings {
    PdoSettings {
        pdo_count: spec_nvm_pdo_count(s) as u8,
        pdo1_ma: spec_nvm_pdo1_ma(s) as u32,
        pdo2_ma: spec_nvm_pdo2_ma(s) as u32,
        pdo3_ma: spec_nvm_pdo3_ma(s) as u32,
        pdo2_mv: spec_nvm_pdo2_mv(s) as u32,
        pdo3_mv: spec_nvm_pdo3_mv(s) as u32,
    }
}

/// Decode the stored profiles out of a sector mirror.
pub fn decode_nvm_settings(sector: &Vec<u8>) -> (r: PdoSettings)
    requires
        spec_sector_wf(sector@),
    ensures
        r.pdo_count == spec_nvm_pdo_count(sector@),
        r.pdo1_ma == spec_nvm_pdo1_ma(sector@),
        r.pdo2_ma == spec_nvm_pdo2_ma(sector@),
        r.pdo3_ma == spec_nvm_pdo3_ma(sector@),
        r.pdo2_mv == spec_nvm_pdo2_mv(sector@),
        r.pdo3_mv == spec_nvm_pdo3_mv(sector@),
{
    let pdo_count = (sector[26] / 2) % 4;
    let pdo1_ma = nvm_code_to_ca(sector[26] / 16) as u32 * 10;
    let pdo2_ma = nvm_code_to_ca(sector[28] % 16) as u32 * 10;
    let pdo3_ma = nvm_code_to_ca(sector[29] / 16) as u32 * 10;
    let pdo2_mv = (sector[33] as u32 * 4 + sector[32] as u32 / 64) * 50;
    let pdo3_mv = ((sector[35] as u32 % 4) * 256 + sector[34] as u32) * 50;
    PdoSettings { pdo_count, pdo1_ma, pdo2_ma, pdo3_ma, pdo2_mv, pdo3_mv }
}

/// A sector mirror updated from the three live PDO words and the PDO
/// count byte, exactly as the program path stores them: currents as
/// four-bit codes, voltages clamped to 5..=20 V in 50 mV steps.
pub open spec fn spec_nvm_encode(s: Seq<u8>, w1: int, w2: int, w3: int, dpm: int) -> Seq<u8> {
    let ca1 = if w1 % 1024 > 500 {
        500
    } else {
        w1 % 1024
    };
    let ca2 = if w2 % 1024 > 500 {
        500
    } else {
        w2 % 1024
    };
    let ca3 = if w3 % 1024 > 500 {
        500
    } else {
        w3 % 1024
    };
    let c1 = spec_nvm_ca_to_code(ca1);
    let c2 = spec_nvm_ca_to_code(ca2);
    let c3 = spec_nvm_ca_to_code(ca3);
    let v2 = spec_clamp_pdo_mv(2, spec_pdo_voltage_mv(w2)) / 50;
    let v3 = spec_clamp_pdo_mv(3, spec_pdo_voltage_mv(w3)) / 50;
    let s1 = s.update(26, (s[26] % 16 + c1 * 16) as u8);
    let s2 = s1.update(28, ((s1[28] / 16) * 16 + c2) as u8);
    let s3 = s2.update(29, (s2[29] % 16 + c3 * 16) as u8);
    let s4 = s3.update(32, (s3[32] % 64 + (v2 % 4) * 64) as u8);
    let s5 = s4.update(33, (v2 / 4) as u8);
    let s6 = s5.update(34, (v3 % 256) as u8);
    let s7 = s6.update(35, ((s6[35] / 4) * 4 + v3 / 256) as u8);
    let b = s7[26] as int;
    s7.update(26, (b - (b / 2) % 4 * 2 + (dpm % 4) * 2) as u8)
}

/// The bus address of a live PDO slot's register block.
pub open spec fn spec_pdo_addr(slot: int) -> int {
    0x85 + (slot - 1) * 4
}

/// A transcript slice made only of request-bit polls and pauses.
pub open spec fn spec_poll_ops(ops: Seq<BusOp>) -> bool {
    forall|i: int| 0 <= i < ops.len() ==> spec_read_at(ops, i, FTP_CTRL_0, 1) || (#[trigger] ops[i]) is DelayUs
}

/// A completed request wait: polls only, and the last poll saw the
/// request bit clear.
pub open spec fn spec_request_completed(ops: Seq<BusOp>) -> bool {
    &&& spec_poll_ops(ops)
    &&& ops.len() >= 1
    &&& spec_read_at(ops, ops.len() - 1, FTP_CTRL_0, 1)
    &&& spec_read_data(ops, ops.len() - 1)[0] & FTP_CUST_REQ == 0
}

/// An opcode write, a request write, and a completed wait.
pub open spec fn spec_request_ops(ops: Seq<BusOp>, ctrl1: u8, ctrl0: u8) -> bool {
    &&& ops.len() >= 2
    &&& ops[0] == op_write1(FTP_CTRL_1, ctrl1)
    &&& ops[1] == op_write1(FTP_CTRL_0, ctrl0)
    &&& spec_request_completed(ops.skip(2))
}

/// A read-modify-write that replaces a live slot's ten voltage bits with
/// the clamped target in 50 mV steps.
pub open spec fn spec_voltage_update_ops(ops: Seq<BusOp>, slot: int, mv: int) -> bool {
    &&& ops.len() == 2
    &&& spec_read_at(ops, 0, spec_pdo_addr(slot) as u8, 4)
    &&& ops[1] == op_write(
        spec_pdo_addr(slot) as u8,
        spec_le_bytes(spec_with_voltage_bits(
            spec_word_le(spec_read_data(ops, 0)),
            spec_clamp_pdo_mv(slot, mv) / 50,
        )),
    )
}

/// A read-modify-write that replaces a live slot's ten current bits with
/// the target in 10 mA steps.
pub open spec fn spec_current_update_ops(ops: Seq<BusOp>, slot: int, ma: int) -> bool {
    &&& ops.len() == 2
    &&& spec_read_at(ops, 0, spec_pdo_addr(slot) as u8, 4)
    &&& ops[1] == op_write(
        spec_pdo_addr(slot) as u8,
        spec_le_bytes(spec_with_current_bits(
            spec_word_le(spec_read_data(ops, 0)),
            (ma / 10) % 1024,
        )),
    )
}

/// One sector fetch: power the NVM machinery, issue a read request for
/// sector `i` and poll it to completion, and only then copy the window —
/// which is the slice's final operation.
#[verifier::opaque]
pub open spec fn spec_sector_fetch_ops(ops: Seq<BusOp>, i: int, data: Seq<u8>) -> bool {
    &&& ops.len() >= 5
    &&& ops[0] == op_write1(FTP_CTRL_0, 0xC0u8)
    &&& spec_request_ops(ops.subrange(1, ops.len() - 1), OPCODE_READ, (0xD0 + i) as u8)
    &&& ops.last() == (BusOp::Read { reg: RW_BUFFER, data })
}

/// The whole NVM read protocol: the password unlock before anything else,
/// the five sector fetches in order — each request polled to completion
/// strictly before its window copy — and the exit from test mode, with
/// `s` the mirror the five copies produced.
#[verifier::opaque]
pub open spec fn spec_nvm_read_protocol(ext: Seq<BusOp>, s: Seq<u8>) -> bool {
    &&& s.len() == 40
    &&& ext.len() >= 5
    &&& ext[0] == op_write1(FTP_CUST_PASSWORD_REG, FTP_CUST_PASSWORD)
    &&& ext[1] == op_write1(FTP_CTRL_0, 0u8)
    &&& ext[2] == op_write1(FTP_CTRL_0, 0xC0u8)
    &&& exists|k1: int, k2: int, k3: int, k4: int, k5: int|
        #![trigger ext.subrange(3, k1), ext.subrange(k1, k2), ext.subrange(k2, k3),
            ext.subrange(k3, k4), ext.subrange(k4, k5)]
        {
            &&& 3 <= k1 <= k2 <= k3 <= k4 <= k5
            &&& k5 + 2 == ext.len()
            &&& spec_sector_fetch_ops(ext.subrange(3, k1), 0, s.subrange(0, 8))
            &&& spec_sector_fetch_ops(ext.subrange(k1, k2), 1, s.subrange(8, 16))
            &&& spec_sector_fetch_ops(ext.subrange(k2, k3), 2, s.subrange(16, 24))
            &&& spec_sector_fetch_ops(ext.subrange(k3, k4), 3, s.subrange(24, 32))
            &&& spec_sector_fetch_ops(ext.subrange(k4, k5), 4, s.subrange(32, 40))
            &&& ext[k5] == op_write1(FTP_CTRL_0, FTP_CUST_RST_N)
            &&& ext[k5 + 1] == op_write1(FTP_CUST_PASSWORD_REG, 0u8)
        }
}

/// The thirteen live-register operations that push a decoded profile set:
/// the PDO count (clamped to 3), then each slot's voltage and current in
/// turn, slot 1 at the fixed 5 V rail.
#[verifier::opaque]
pub open spec fn spec_settings_push_ops(ext: Seq<BusOp>, s: PdoSettings) -> bool {
    &&& ext.len() == 13
    &&& ext[0] == op_write1(
        DPM_PDO_NUMB,
        if s.pdo_count > 3 {
            3u8
        } else {
            s.pdo_count
        },
    )
    &&& spec_voltage_update_ops(ext.subrange(1, 3), 1, 5000)
    &&& spec_current_update_ops(ext.subrange(3, 5), 1, s.pdo1_ma as int)
    &&& spec_voltage_update_ops(ext.subrange(5, 7), 2, s.pdo2_mv as int)
    &&& spec_current_update_ops(ext.subrange(7, 9), 2, s.pdo2_ma as int)
    &&& spec_voltage_update_ops(ext.subrange(9, 11), 3, s.pdo3_mv as int)
    &&& spec_current_update_ops(ext.subrange(11, 13), 3, s.pdo3_ma as int)
}

/// What entering write mode does: unlock, clear the window and control
/// registers, power the machinery, then latch the sectors to erase, soft
/// program, and erase them — each request polled to completion.
#[verifier::opaque]
pub open spec fn spec_enter_write_ops(ops: Seq<BusOp>, erased_sector: u8) -> bool {
    &&& ops.len() >= 4
    &&& ops[0] == op_write1(FTP_CUST_PASSWORD_REG, FTP_CUST_PASSWORD)
    &&& ops[1] == op_write1(RW_BUFFER, 0u8)
    &&& ops[2] == op_write1(FTP_CTRL_0, 0u8)
    &&& ops[3] == op_write1(FTP_CTRL_0, 0xC0u8)
    &&& exists|a: int, b: int|
        {
            &&& 4 <= a <= b <= ops.len()
            &&& spec_request_ops(
                #[trigger] ops.subrange(4, a),
                ((erased_sector as int * 8) % 256 + 2) as u8,
                0xD0u8,
            )
            &&& spec_request_ops(#[trigger] ops.subrange(a, b), OPCODE_SOFT_PROG_SECTOR, 0xD0u8)
            &&& spec_request_ops(ops.subrange(b, ops.len() as int), OPCODE_ERASE_SECTOR, 0xD0u8)
        }
}

/// What programming one sector does: load `row` into the window, latch it,
/// and program sector `i` — both requests polled to completion.
#[verifier::opaque]
pub open spec fn spec_sector_program_ops(ops: Seq<BusOp>, i: int, row: Seq<u8>) -> bool {
    &&& ops.len() >= 2
    &&& ops[0] == op_write(RW_BUFFER, row)
    &&& ops[1] == op_write1(FTP_CTRL_0, 0xC0u8)
    &&& exists|a: int|
        {
            &&& 2 <= a <= ops.len()
            &&& spec_request_ops(#[trigger] ops.subrange(2, a), OPCODE_WRITE_PL, 0xD0u8)
            &&& spec_request_ops(ops.subrange(a, ops.len() as int), OPCODE_PROG_SECTOR, (0xD0 + i) as u8)
        }
}

/// An interrupted request: nothing yet, the opcode write alone, or both
/// writes and some incomplete polling.
#[verifier::opaque]
pub open spec fn spec_request_prefix(ops: Seq<BusOp>, ctrl1: u8, ctrl0: u8) -> bool {
    ||| ops.len() == 0
    ||| (ops.len() == 1 && ops[0] == op_write1(FTP_CTRL_1, ctrl1))
    ||| (ops.len() >= 2 && ops[0] == op_write1(FTP_CTRL_1, ctrl1) && ops[1] == op_write1(
        FTP_CTRL_0,
        ctrl0,
    ) && spec_poll_ops(ops.skip(2)))
}

/// An interrupted run of consecutive requests: some prefix of them
/// completed, and the next one got part way.
#[verifier::opaque]
pub open spec fn spec_request_chain_prefix(ops: Seq<BusOp>, reqs: Seq<(u8, u8)>) -> bool
    decreases reqs.len(),
{
    if reqs.len() == 0 {
        ops.len() == 0
    } else {
        ||| spec_request_prefix(ops, reqs[0].0, reqs[0].1)
        ||| exists|a: int|
            0 <= a <= ops.len() && #[trigger] spec_request_ops(
                ops.subrange(0, a),
                reqs[0].0,
                reqs[0].1,
            ) && spec_request_chain_prefix(ops.subrange(a, ops.len() as int), reqs.skip(1))
    }
}

/// An interrupted exit from test mode: at most its first write.
pub open spec fn spec_exit_prefix(ops: Seq<BusOp>) -> bool {
    &&& ops.len() <= 1
    &&& ops.len() == 1 ==> ops[0] == op_write1(FTP_CTRL_0, FTP_CUST_RST_N)
}

/// An interrupted fetch of sector `i`: at most the power write and part
/// of the read request — the window copy, which would complete the fetch,
/// never happened.
#[verifier::opaque]
pub open spec fn spec_fetch_prefix(ops: Seq<BusOp>, i: int) -> bool {
    ||| ops.len() == 0
    ||| (ops[0] == op_write1(FTP_CTRL_0, 0xC0u8) && spec_request_prefix(
        ops.skip(1),
        OPCODE_READ,
        (0xD0 + i) as u8,
    ))
}

/// An interrupted run of the sector fetches from `i` on, ending in the
/// exit from test mode: complete fetches, then one cut part way (or the
/// exit itself cut).
#[verifier::opaque]
pub open spec fn spec_fetch_chain_prefix(ops: Seq<BusOp>, i: int) -> bool
    decreases 5 - i,
{
    if i >= 5 {
        spec_exit_prefix(ops)
    } else {
        ||| spec_fetch_prefix(ops, i)
        ||| exists|a: int, d: Seq<u8>|
            0 <= a <= ops.len() && d.len() == 8 && #[trigger] spec_sector_fetch_ops(
                ops.subrange(0, a),
                i,
                d,
            ) && spec_fetch_chain_prefix(ops.subrange(a, ops.len() as int), i + 1)
    }
}

/// An interrupted NVM read: cut inside the unlock, or unlocked and cut
/// somewhere among the sector fetches or the exit.
/// The three writes that open the NVM for reading: password, control
/// clear, power up.
pub open spec fn spec_nvm_unlock_ops() -> Seq<BusOp> {
    seq![
        op_write1(FTP_CUST_PASSWORD_REG, FTP_CUST_PASSWORD),
        op_write1(FTP_CTRL_0, 0u8),
        op_write1(FTP_CTRL_0, 0xC0u8),
    ]
}

#[verifier::opaque]
pub open spec fn spec_nvm_read_prefix(ext: Seq<BusOp>) -> bool {
    ||| crate::bus::spec_prefix_of(
        ext,
        seq![
            op_write1(FTP_CUST_PASSWORD_REG, FTP_CUST_PASSWORD),
            op_write1(FTP_CTRL_0, 0u8),
            op_write1(FTP_CTRL_0, 0xC0u8),
        ],
    )
    ||| (ext.len() >= 3 && ext[0] == op_write1(FTP_CUST_PASSWORD_REG, FTP_CUST_PASSWORD)
        && ext[1] == op_write1(FTP_CTRL_0, 0u8) && ext[2] == op_write1(FTP_CTRL_0, 0xC0u8)
        && spec_fetch_chain_prefix(ext.skip(3), 0))
}

/// An interrupted push of a decoded profile set: the completed head of
/// the thirteen operations, possibly ending on a dangling slot read.
#[verifier::opaque]
pub open spec fn spec_push_prefix(ops: Seq<BusOp>, s: PdoSettings) -> bool {
    &&& ops.len() <= 13
    &&& ops.len() >= 1 ==> ops[0] == op_write1(
        DPM_PDO_NUMB,
        if s.pdo_count > 3 {
            3u8
        } else {
            s.pdo_count
        },
    )
    &&& ops.len() == 2 ==> spec_read_at(ops, 1, spec_pdo_addr(1) as u8, 4)
    &&& ops.len() >= 3 ==> spec_voltage_update_ops(ops.subrange(1, 3), 1, 5000)
    &&& ops.len() == 4 ==> spec_read_at(ops, 3, spec_pdo_addr(1) as u8, 4)
    &&& ops.len() >= 5 ==> spec_current_update_ops(ops.subrange(3, 5), 1, s.pdo1_ma as int)
    &&& ops.len() == 6 ==> spec_read_at(ops, 5, spec_pdo_addr(2) as u8, 4)
    &&& ops.len() >= 7 ==> spec_voltage_update_ops(ops.subrange(5, 7), 2, s.pdo2_mv as int)
    &&& ops.len() == 8 ==> spec_read_at(ops, 7, spec_pdo_addr(2) as u8, 4)
    &&& ops.len() >= 9 ==> spec_current_update_ops(ops.subrange(7, 9), 2, s.pdo2_ma as int)
    &&& ops.len() == 10 ==> spec_read_at(ops, 9, spec_pdo_addr(3) as u8, 4)
    &&& ops.len() >= 11 ==> spec_voltage_update_ops(ops.subrange(9, 11), 3, s.pdo3_mv as int)
    &&& ops.len() == 12 ==> spec_read_at(ops, 11, spec_pdo_addr(3) as u8, 4)
    &&& ops.len() == 13 ==> spec_current_update_ops(ops.subrange(11, 13), 3, s.pdo3_ma as int)
}

/// An interrupted entry into write mode: cut inside the four setup
/// writes, or set up and cut among the three latched requests.
#[verifier::opaque]
pub open spec fn spec_enter_write_prefix(ops: Seq<BusOp>, erased_sector: u8) -> bool {
    ||| crate::bus::spec_prefix_of(
        ops,
        seq![
            op_write1(FTP_CUST_PASSWORD_REG, FTP_CUST_PASSWORD),
            op_write1(RW_BUFFER, 0u8),
            op_write1(FTP_CTRL_0, 0u8),
            op_write1(FTP_CTRL_0, 0xC0u8),
        ],
    )
    ||| (ops.len() >= 4 && ops[0] == op_write1(FTP_CUST_PASSWORD_REG, FTP_CUST_PASSWORD)
        && ops[1] == op_write1(RW_BUFFER, 0u8) && ops[2] == op_write1(FTP_CTRL_0, 0u8) && ops[3]
        == op_write1(FTP_CTRL_0, 0xC0u8) && spec_request_chain_prefix(
        ops.skip(4),
        seq![
            (((erased_sector as int * 8) % 256 + 2) as u8, 0xD0u8),
            (OPCODE_SOFT_PROG_SECTOR, 0xD0u8),
            (OPCODE_ERASE_SECTOR, 0xD0u8),
        ],
    ))
}

/// An interrupted programming of one sector: at most the window load, the
/// power write, and part of the latch/program requests.
#[verifier::opaque]
pub open spec fn spec_sector_program_prefix(ops: Seq<BusOp>, i: int, row: Seq<u8>) -> bool {
    ||| ops.len() == 0
    ||| (ops.len() == 1 && ops[0] == op_write(RW_BUFFER, row))
    ||| (ops.len() >= 2 && ops[0] == op_write(RW_BUFFER, row) && ops[1] == op_write1(
        FTP_CTRL_0,
        0xC0u8,
    ) && spec_request_chain_prefix(
        ops.skip(2),
        seq![(OPCODE_WRITE_PL, 0xD0u8), (OPCODE_PROG_SECTOR, (0xD0 + i) as u8)],
    ))
}

/// An interrupted run of the sector programs from `i` on, ending in the
/// exit from test mode.
#[verifier::opaque]
pub open spec fn spec_program_chain_prefix(ops: Seq<BusOp>, s: Seq<u8>, i: int) -> bool
    decreases 5 - i,
{
    if i >= 5 {
        spec_exit_prefix(ops)
    } else {
        ||| spec_sector_program_prefix(ops, i, s.subrange(8 * i, 8 * i + 8))
        ||| exists|a: int|
            0 <= a <= ops.len() && #[trigger] spec_sector_program_ops(
                ops.subrange(0, a),
                i,
                s.subrange(8 * i, 8 * i + 8),
            ) && spec_program_chain_prefix(ops.subrange(a, ops.len() as int), s, i + 1)
    }
}

/// An interrupted program of a whole image: cut inside the write-mode
/// entry, or entered and cut among the sector programs or the exit.
#[verifier::opaque]
pub open spec fn spec_program_prefix(ops: Seq<BusOp>, s: Seq<u8>) -> bool {
    ||| spec_enter_write_prefix(ops, ALL_SECTORS)
    ||| exists|e: int|
        0 <= e <= ops.len() && #[trigger] spec_enter_write_ops(ops.subrange(0, e), ALL_SECTORS)
            && spec_program_chain_prefix(ops.subrange(e, ops.len() as int), s, 0)
}

/// The whole NVM program protocol: erase all five sectors through the
/// write-mode entry, program the five rows of `s` in order, and exit test
/// mode.
#[verifier::opaque]
pub open spec fn spec_nvm_program_protocol(ops: Seq<BusOp>, s: Seq<u8>) -> bool {
    &&& s.len() == 40
    &&& exists|e: int, k1: int, k2: int, k3: int, k4: int, k5: int|
        #![trigger ops.subrange(0, e), ops.subrange(e, k1), ops.subrange(k1, k2),
            ops.subrange(k2, k3), ops.subrange(k3, k4), ops.subrange(k4, k5)]
        {
            &&& 0 <= e <= k1 <= k2 <= k3 <= k4 <= k5
            &&& k5 + 2 == ops.len()
            &&& spec_enter_write_ops(ops.subrange(0, e), ALL_SECTORS)
            &&& spec_sector_program_ops(ops.subrange(e, k1), 0, s.subrange(0, 8))
            &&& spec_sector_program_ops(ops.subrange(k1, k2), 1, s.subrange(8, 16))
            &&& spec_sector_program_ops(ops.subrange(k2, k3), 2, s.subrange(16, 24))
            &&& spec_sector_program_ops(ops.subrange(k3, k4), 3, s.subrange(24, 32))
            &&& spec_sector_program_ops(ops.subrange(k4, k5), 4, s.subrange(32, 40))
            &&& ops[k5] == op_write1(FTP_CTRL_0, FTP_CUST_RST_N)
            &&& ops[k5 + 1] == op_write1(FTP_CUST_PASSWORD_REG, 0u8)
        }
}

/// The USB-PD source-capability chip, spoken to over a register port.
/// `sector` mirrors the five 8-byte NVM sectors, flattened.
pub struct PowerDeliveryDevice<B: RegisterBus> {
    pub bus: B,
    pub sector: Vec<u8>,
    pub read_sectors: bool,
}

impl<B: RegisterBus> PowerDeliveryDevice<B> {
    pub open spec fn inv(self) -> bool {
        self.bus.inv() && spec_sector_wf(self.sector@)
    }

    pub open spec fn log(self) -> Seq<BusOp> {
        self.bus.log()
    }

    pub fn new(bus: B) -> (r: Self)
        ensures
            r.bus == bus,
            r.sector@.len() == 40,
            forall|i: int| 0 <= i < 40 ==> r.sector@[i] == 0,
            !r.read_sectors,
    {
        let mut sector: Vec<u8> = Vec::new();
        let mut i: usize = 0;
        while i < 40
            invariant
                i <= 40,
                sector@.len() == i,
                forall|j: int| 0 <= j < i ==> sector@[j] == 0,
            decreases 40 - i,
        {
            sector.push(0);
            i = i + 1;
        }
        PowerDeliveryDevice { bus, sector, read_sectors: false }
    }

    /// Nothing to do: the chip needs no session setup beyond its address.
    pub fn begin(&mut self, device_address: u8) -> (r: Result<(), DriverError>)
        ensures
            *final(self) == *old(self),
            r is Ok,
    {
        let _ = device_address;
        Ok(())
    }

    /// One register write on the chip.
    fn i2c_write(&mut self, reg: u8, data: &[u8]) -> (r: Result<(), DriverError>)
        requires
            old(self).inv(),
        ensures
            final(self).inv(),
            final(self).sector == old(self).sector,
            final(self).read_sectors == old(self).read_sectors,
            log_extends(old(self).log(), final(self).log()),
            match r {
                Ok(()) => final(self).log() == old(self).log().push(
                    BusOp::Write { reg, data: data@ },
                ),
                Err(e) => e == DriverError::Bus && final(self).log() == old(self).log(),
            },
    {
        let ghost l0 = self.bus.log();
        match self.bus.write_regs(reg, data) {
            Ok(()) => {
                proof {
                    crate::bus::lemma_push_ext(l0, BusOp::Write { reg, data: data@ });
                }
                Ok(())
            },
            Err(_) => Err(DriverError::Bus),
        }
    }

    /// One register read on the chip.
    fn i2c_read(&mut self, reg: u8, n: usize) -> (r: Result<Vec<u8>, DriverError>)
        requires
            old(self).inv(),
        ensures
            final(self).inv(),
            final(self).sector == old(self).sector,
            final(self).read_sectors == old(self).read_sectors,
            log_extends(old(self).log(), final(self).log()),
            match r {
                Ok(d) => d@.len() == n && final(self).log() == old(self).log().push(
                    BusOp::Read { reg, data: d@ },
                ),
                Err(e) => e == DriverError::Bus && final(self).log() == old(self).log(),
            },
    {
        let ghost l0 = self.bus.log();
        match self.bus.read_regs(reg, n) {
            Ok(d) => {
                proof {
                    crate::bus::lemma_push_ext(l0, BusOp::Read { reg, data: d@ });
                }
                Ok(d)
            },
            Err(_) => Err(DriverError::Bus),
        }
    }

    /// Read one live PDO word.
    fn read_pdo(&mut self, pdo_numb: u8) -> (r: Result<u32, DriverError>)
        requires
            old(self).inv(),
            1 <= pdo_numb <= 3,
        ensures
            final(self).inv(),
            final(self).sector == old(self).sector,
            final(self).read_sectors == old(self).read_sectors,
            log_extends(old(self).log(), final(self).log()),
            ({
                let ext = log_ext(old(self).log(), final(self).log());
                match r {
                    Ok(w) => {
                        &&& ext.len() == 1
                        &&& spec_read_at(ext, 0, spec_pdo_addr(pdo_numb as int) as u8, 4)
                        &&& w == spec_word_le(spec_read_data(ext, 0))
                    },
                    Err(e) => e == DriverError::Bus && final(self).log() == old(self).log(),
                }
            }),
    {
        let addr: u8 = 0x85 + (pdo_numb - 1) * 4;
        match self.i2c_read(addr, 4) {
            Ok(d) => {
                let w: u32 = d[0] as u32 + 256 * d[1] as u32 + 65536 * d[2] as u32 + 16777216
                    * d[3] as u32;
                Ok(w)
            },
            Err(e) => Err(e),
        }
    }

    /// Write one live PDO word, as four little-endian bytes.
    fn write_pdo(&mut self, pdo_numb: u8, pdo_data: u32) -> (r: Result<(), DriverError>)
        requires
            old(self).inv(),
            1 <= pdo_numb <= 3,
        ensures
            final(self).inv(),
            final(self).sector == old(self).sector,
            final(self).read_sectors == old(self).read_sectors,
            log_extends(old(self).log(), final(self).log()),
            ({
                let ext = log_ext(old(self).log(), final(self).log());
                match r {
                    Ok(()) => ext =~= seq![
                        op_write(
                            spec_pdo_addr(pdo_numb as int) as u8,
                            spec_le_bytes(pdo_data as int),
                        ),
                    ],
                    Err(e) => e == DriverError::Bus && final(self).log() == old(self).log(),
                }
            }),
    {
        let addr: u8 = 0x85 + (pdo_numb - 1) * 4;
        let b0 = (pdo_data % 256) as u8;
        let b1 = ((pdo_data / 256) % 256) as u8;
        let b2 = ((pdo_data / 65536) % 256) as u8;
        let b3 = ((pdo_data / 16777216) % 256) as u8;
        let word = [b0, b1, b2, b3];
        let bytes = word.as_slice();
        proof {
            assert(bytes@ =~= spec_le_bytes(pdo_data as int));
        }
        self.i2c_write(addr, bytes)
    }

    /// Voltage of a live PDO slot, in millivolts.
    pub fn get_voltage(&mut self, pdo_numb: u8) -> (r: Result<u32, DriverError>)
        requires
            old(self).inv(),
            1 <= pdo_numb <= 3,
        ensures
            final(self).inv(),
            final(self).sector == old(self).sector,
            final(self).read_sectors == old(self).read_sectors,
            log_extends(old(self).log(), final(self).log()),
            ({
                let ext = log_ext(old(self).log(), final(self).log());
                match r {
                    Ok(mv) => {
                        &&& ext.len() == 1
                        &&& spec_read_at(ext, 0, spec_pdo_addr(pdo_numb as int) as u8, 4)
                        &&& mv == spec_pdo_voltage_mv(spec_word_le(spec_read_data(ext, 0)))
                    },
                    Err(e) => e == DriverError::Bus && final(self).log() == old(self).log(),
                }
            }),
    {
        match self.read_pdo(pdo_numb) {
            Ok(w) => Ok(((w / 1024) % 1024) * 50),
            Err(e) => Err(e),
        }
    }

    /// Current of a live PDO slot, in milliamps.
    pub fn get_current(&mut self, pdo_numb: u8) -> (r: Result<u32, DriverError>)
        requires
            old(self).inv(),
            1 <= pdo_numb <= 3,
        ensures
            final(self).inv(),
            final(self).sector == old(self).sector,
            final(self).read_sectors == old(self).read_sectors,
            log_extends(old(self).log(), final(self).log()),
            ({
                let ext = log_ext(old(self).log(), final(self).log());
                match r {
                    Ok(ma) => {
                        &&& ext.len() == 1
                        &&& spec_read_at(ext, 0, spec_pdo_addr(pdo_numb as int) as u8, 4)
                        &&& ma == spec_pdo_current_ma(spec_word_le(spec_read_data(ext, 0)))
                    },
                    Err(e) => e == DriverError::Bus && final(self).log() == old(self).log(),
                }
            }),
    {
        match self.read_pdo(pdo_numb) {
            Ok(w) => Ok((w % 1024) * 10),
            Err(e) => Err(e),
        }
    }

    /// Program a live PDO slot's voltage: the slot number clamps into
    /// 1..=3, the voltage into 5..=20 V (slot 1 stays at 5 V), and the
    /// word is read, its voltage bits replaced, and written back.
    #[verifier::rlimit(100)]
    #[verifier::spinoff_prover]
    pub fn set_voltage(&mut self, pdo_numb: u8, voltage_mv: u32) -> (r: Result<(), DriverError>)
        requires
            old(self).inv(),
        ensures
            final(self).inv(),
            final(self).sector == old(self).sector,
            final(self).read_sectors == old(self).read_sectors,
            log_extends(old(self).log(), final(self).log()),
            ({
                let ext = log_ext(old(self).log(), final(self).log());
                let slot = if pdo_numb < 1 {
                    1int
                } else if pdo_numb > 3 {
                    3int
                } else {
                    pdo_numb as int
                };
                match r {
                    Ok(()) => spec_voltage_update_ops(ext, slot, voltage_mv as int),
                    Err(e) => {
                        &&& e == DriverError::Bus
                        &&& ext.len() <= 1
                        &&& ext.len() == 1 ==> spec_read_at(ext, 0, spec_pdo_addr(slot) as u8, 4)
                    },
                }
            }),
    {
        let slot: u8 = if pdo_numb < 1 {
            1
        } else if pdo_numb > 3 {
            3
        } else {
            pdo_numb
        };
        let clamped: u32 = if slot == 1 {
            5000
        } else if voltage_mv < 5000 {
            5000
        } else if voltage_mv > 20000 {
            20000
        } else {
            voltage_mv
        };
        let bits: u32 = clamped / 50;
        let ghost l0 = self.bus.log();
        let word = match self.read_pdo(slot) {
            Ok(w) => w,
            Err(e) => {
                return Err(e);
            },
        };
        let ghost l1 = self.bus.log();
        let updated: u32 = (word / 1048576) * 1048576 + bits * 1024 + word % 1024;
        proof {
            assert(updated as int == spec_with_voltage_bits(word as int, bits as int));
            assert(bits as int == spec_clamp_pdo_mv(slot as int, voltage_mv as int) / 50);
        }
        match self.write_pdo(slot, updated) {
            Ok(()) => {
                proof {
                    crate::bus::lemma_extends_trans(l0, l1, self.bus.log());
                    assert(log_ext(l0, self.bus.log()) =~= log_ext(l0, l1) + log_ext(
                        l1,
                        self.bus.log(),
                    ));
                }
                Ok(())
            },
            Err(e) => {
                proof {
                    crate::bus::lemma_extends_trans(l0, l1, self.bus.log());
                    assert(log_ext(l0, self.bus.log()) =~= log_ext(l0, l1));
                }
                Err(e)
            },
        }
    }

    /// Program a live PDO slot's current, in milliamps: the word is read,
    /// its ten current bits replaced by the current in 10 mA steps, and
    /// written back.
    #[verifier::rlimit(100)]
    #[verifier::spinoff_prover]
    pub fn set_current(&mut self, pdo_numb: u8, current_ma: u32) -> (r: Result<(), DriverError>)
        requires
            old(self).inv(),
            1 <= pdo_numb <= 3,
        ensures
            final(self).inv(),
            final(self).sector == old(self).sector,
            final(self).read_sectors == old(self).read_sectors,
            log_extends(old(self).log(), final(self).log()),
            ({
                let ext = log_ext(old(self).log(), final(self).log());
                match r {
                    Ok(()) => spec_current_update_ops(ext, pdo_numb as int, current_ma as int),
                    Err(e) => {
                        &&& e == DriverError::Bus
                        &&& ext.len() <= 1
                        &&& ext.len() == 1 ==> spec_read_at(
                            ext,
                            0,
                            spec_pdo_addr(pdo_numb as int) as u8,
                            4,
                        )
                    },
                }
            }),
    {
        let ca: u32 = (current_ma / 10) % 1024;
        let ghost l0 = self.bus.log();
        let word = match self.read_pdo(pdo_numb) {
            Ok(w) => w,
            Err(e) => {
                return Err(e);
            },
        };
        let ghost l1 = self.bus.log();
        let updated: u32 = (word / 1024) * 1024 + ca;
        match self.write_pdo(pdo_numb, updated) {
            Ok(()) => {
                proof {
                    crate::bus::lemma_extends_trans(l0, l1, self.bus.log());
                    assert(log_ext(l0, self.bus.log()) =~= log_ext(l0, l1) + log_ext(
                        l1,
                        self.bus.log(),
                    ));
                }
                Ok(())
            },
            Err(e) => {
                proof {
                    crate::bus::lemma_extends_trans(l0, l1, self.bus.log());
                    assert(log_ext(l0, self.bus.log()) =~= log_ext(l0, l1));
                }
                Err(e)
            },
        }
    }

    /// How many sink PDOs the chip reports configured.
    pub fn get_pdo_number(&mut self) -> (r: Result<u8, DriverError>)
        requires
            old(self).inv(),
        ensures
            final(self).inv(),
            final(self).sector == old(self).sector,
            final(self).read_sectors == old(self).read_sectors,
            log_extends(old(self).log(), final(self).log()),
            ({
                let ext = log_ext(old(self).log(), final(self).log());
                match r {
                    Ok(n) => {
                        &&& ext.len() == 1
                        &&& spec_read_at(ext, 0, DPM_PDO_NUMB, 1)
                        &&& n == spec_read_data(ext, 0)[0] % 8
                    },
                    Err(e) => e == DriverError::Bus && final(self).log() == old(self).log(),
                }
            }),
    {
        match self.i2c_read(DPM_PDO_NUMB, 1) {
            Ok(d) => Ok(d[0] % 8),
            Err(e) => Err(e),
        }
    }

    /// Set the number of sink PDOs, clamped to at most 3.
    pub fn set_pdo_number(&mut self, value: u8) -> (r: Result<(), DriverError>)
        requires
            old(self).inv(),
        ensures
            final(self).inv(),
            final(self).sector == old(self).sector,
            final(self).read_sectors == old(self).read_sectors,
            log_extends(old(self).log(), final(self).log()),
            match r {
                Ok(()) => log_ext(old(self).log(), final(self).log()) == seq![
                    op_write1(DPM_PDO_NUMB, if value > 3 { 3u8 } else { value }),
                ],
                Err(e) => e == DriverError::Bus && final(self).log() == old(self).log(),
            },
    {
        let clamped: u8 = if value > 3 {
            3
        } else {
            value
        };
        let value_byte = [clamped];
        let bytes = value_byte.as_slice();
        proof {
            assert(bytes@ =~= seq![clamped]);
        }
        self.i2c_write(DPM_PDO_NUMB, bytes)
    }
}

/// Appending one more poll or pause keeps a transcript slice polls-only.
proof fn lemma_poll_ops_push(l0: Seq<BusOp>, mid: Seq<BusOp>, op: BusOp)
    requires
        log_extends(l0, mid),
        spec_poll_ops(log_ext(l0, mid)),
        (op matches BusOp::Read { reg, data } && reg == FTP_CTRL_0 && data.len() == 1) || op
            is DelayUs,
    ensures
        log_extends(l0, mid.push(op)),
        spec_poll_ops(log_ext(l0, mid.push(op))),
{
    crate::bus::lemma_push_ext(mid, op);
    crate::bus::lemma_extends_trans(l0, mid, mid.push(op));
    let e1 = log_ext(l0, mid);
    let e2 = log_ext(l0, mid.push(op));
    assert(e2 =~= e1.push(op));
    assert forall|i: int| 0 <= i < e2.len() implies spec_read_at(e2, i, FTP_CTRL_0, 1) || (
    #[trigger] e2[i]) is DelayUs by {
        if i < e1.len() {
            assert(e2[i] == e1[i]);
            assert(spec_read_at(e1, i, FTP_CTRL_0, 1) || e1[i] is DelayUs);
        } else {
            assert(e2[i] == op);
        }
    }
}

impl<B: RegisterBus> PowerDeliveryDevice<B> {
    /// Poll the request bit until the chip clears it, pausing between
    /// polls; give up with `Timeout` after a bounded number of polls.
    fn wait_request_complete(&mut self) -> (r: Result<(), DriverError>)
        requires
            old(self).inv(),
        ensures
            final(self).inv(),
            final(self).sector == old(self).sector,
            final(self).read_sectors == old(self).read_sectors,
            log_extends(old(self).log(), final(self).log()),
            spec_poll_ops(log_ext(old(self).log(), final(self).log())),
            match r {
                Ok(()) => spec_request_completed(log_ext(old(self).log(), final(self).log())),
                Err(e) => e == DriverError::Bus || e == DriverError::Timeout,
            },
    {
        let ghost l0 = self.bus.log();
        proof {
            assert(log_ext(l0, self.bus.log()) =~= Seq::<BusOp>::empty());
            assert(self.bus.log().take(l0.len() as int) =~= l0);
        }
        let mut attempts: u32 = 0;
        while attempts < REQUEST_POLL_LIMIT
            invariant
                self.inv(),
                self.sector == old(self).sector,
                self.read_sectors == old(self).read_sectors,
                l0 == old(self).log(),
                log_extends(l0, self.bus.log()),
                spec_poll_ops(log_ext(l0, self.bus.log())),
            decreases REQUEST_POLL_LIMIT - attempts,
        {
            let ghost lc = self.bus.log();
            let d = match self.i2c_read(FTP_CTRL_0, 1) {
                Ok(d) => d,
                Err(e) => {
                    return Err(e);
                },
            };
            proof {
                lemma_poll_ops_push(l0, lc, BusOp::Read { reg: FTP_CTRL_0, data: d@ });
            }
            if d[0] & FTP_CUST_REQ == 0 {
                proof {
                    let ext = log_ext(l0, self.bus.log());
                    assert(ext =~= log_ext(l0, lc).push(
                        BusOp::Read { reg: FTP_CTRL_0, data: d@ },
                    ));
                    assert(spec_read_at(ext, ext.len() - 1, FTP_CTRL_0, 1));
                    assert(spec_read_data(ext, ext.len() - 1) == d@);
                }
                return Ok(());
            }
            let ghost lr = self.bus.log();
            self.bus.delay_us(REQUEST_POLL_PAUSE_US);
            proof {
                lemma_poll_ops_push(l0, lr, BusOp::DelayUs { us: REQUEST_POLL_PAUSE_US });
            }
            attempts = attempts + 1;
        }
        Err(DriverError::Timeout)
    }

    /// Write an opcode, raise the request bit, and wait for completion.
    fn request_op(&mut self, ctrl1: u8, ctrl0: u8) -> (r: Result<(), DriverError>)
        requires
            old(self).inv(),
        ensures
            final(self).inv(),
            final(self).sector == old(self).sector,
            final(self).read_sectors == old(self).read_sectors,
            log_extends(old(self).log(), final(self).log()),
            match r {
                Ok(()) => spec_request_ops(
                    log_ext(old(self).log(), final(self).log()),
                    ctrl1,
                    ctrl0,
                ),
                Err(e) => (e == DriverError::Bus || e == DriverError::Timeout)
                    && spec_request_prefix(
                    log_ext(old(self).log(), final(self).log()),
                    ctrl1,
                    ctrl0,
                ),
            },
    {
        proof {
            reveal(spec_request_prefix);
        }
        let ghost l0 = self.bus.log();
        let c1_byte = [ctrl1];
        let c1_bytes = c1_byte.as_slice();
        proof {
            assert(c1_bytes@ =~= seq![ctrl1]);
        }
        match self.i2c_write(FTP_CTRL_1, c1_bytes) {
            Ok(()) => (),
            Err(e) => {
                return Err(e);
            },
        }
        proof {
            assert(log_ext(l0, self.bus.log()) =~= seq![op_write1(FTP_CTRL_1, ctrl1)]);
        }
        let ghost l1 = self.bus.log();
        let c0_byte = [ctrl0];
        let c0_bytes = c0_byte.as_slice();
        proof {
            assert(c0_bytes@ =~= seq![ctrl0]);
        }
        match self.i2c_write(FTP_CTRL_0, c0_bytes) {
            Ok(()) => (),
            Err(e) => {
                return Err(e);
            },
        }
        let ghost l2 = self.bus.log();
        proof {
            assert(log_ext(l0, l2) =~= seq![
                op_write1(FTP_CTRL_1, ctrl1),
                op_write1(FTP_CTRL_0, ctrl0),
            ]);
        }
        match self.wait_request_complete() {
            Ok(()) => {
                proof {
                    let post = self.bus.log();
                    crate::bus::lemma_extends_trans(l0, l1, l2);
                    crate::bus::lemma_extends_trans(l0, l2, post);
                    let ext = log_ext(l0, post);
                    assert(ext =~= log_ext(l0, l2) + log_ext(l2, post));
                    assert(ext[0] == op_write1(FTP_CTRL_1, ctrl1));
                    assert(ext[1] == op_write1(FTP_CTRL_0, ctrl0));
                    assert(ext.skip(2) =~= log_ext(l2, post));
                    assert(spec_request_completed(ext.skip(2)));
                }
                Ok(())
            },
            Err(e) => {
                proof {
                    let post = self.bus.log();
                    crate::bus::lemma_extends_trans(l0, l2, post);
                    let ext = log_ext(l0, post);
                    assert(ext =~= log_ext(l0, l2) + log_ext(l2, post));
                    assert(ext.skip(2) =~= log_ext(l2, post));
                }
                Err(e)
            },
        }
    }

    /// Leave NVM test mode: drop power, clear the password.
    pub fn exit_test_mode(&mut self) -> (r: Result<(), DriverError>)
        requires
            old(self).inv(),
        ensures
            final(self).inv(),
            final(self).sector == old(self).sector,
            final(self).read_sectors == old(self).read_sectors,
            log_extends(old(self).log(), final(self).log()),
            match r {
                Ok(()) => log_ext(old(self).log(), final(self).log()) == seq![
                    op_write1(FTP_CTRL_0, FTP_CUST_RST_N),
                    op_write1(FTP_CUST_PASSWORD_REG, 0u8),
                ],
                Err(e) => e == DriverError::Bus && spec_exit_prefix(
                    log_ext(old(self).log(), final(self).log()),
                ),
            },
    {
        let ghost l0 = self.bus.log();
        let rst_byte = [FTP_CUST_RST_N];
        let rst_bytes = rst_byte.as_slice();
        proof {
            assert(rst_bytes@ =~= seq![FTP_CUST_RST_N]);
        }
        match self.i2c_write(FTP_CTRL_0, rst_bytes) {
            Ok(()) => (),
            Err(e) => {
                return Err(e);
            },
        }
        proof {
            assert(log_ext(l0, self.bus.log()) =~= seq![op_write1(FTP_CTRL_0, FTP_CUST_RST_N)]);
        }
        let zero_byte = [0u8];
        let zero_bytes = zero_byte.as_slice();
        proof {
            assert(zero_bytes@ =~= seq![0u8]);
        }
        match self.i2c_write(FTP_CUST_PASSWORD_REG, zero_bytes) {
            Ok(()) => {
                proof {
                    assert(log_ext(l0, self.bus.log()) =~= seq![
                        op_write1(FTP_CTRL_0, FTP_CUST_RST_N),
                        op_write1(FTP_CUST_PASSWORD_REG, 0u8),
                    ]);
                    assert(self.bus.log().take(l0.len() as int) =~= l0);
                }
                Ok(())
            },
            Err(e) => Err(e),
        }
    }

    /// Unlock the NVM, power its state machine, latch the sectors to
    /// erase, soft-program, and erase them.
    #[verifier::rlimit(100)]
    #[verifier::spinoff_prover]
    pub fn enter_write_mode(&mut self, erased_sector: u8) -> (r: Result<(), DriverError>)
        requires
            old(self).inv(),
        ensures
            final(self).inv(),
            final(self).sector == old(self).sector,
            final(self).read_sectors == old(self).read_sectors,
            log_extends(old(self).log(), final(self).log()),
            match r {
                Ok(()) => spec_enter_write_ops(
                    log_ext(old(self).log(), final(self).log()),
                    erased_sector,
                ),
                Err(e) => (e == DriverError::Bus || e == DriverError::Timeout)
                    && spec_enter_write_prefix(
                    log_ext(old(self).log(), final(self).log()),
                    erased_sector,
                ),
            },
    {
        proof {
            reveal(spec_enter_write_ops);
            reveal(spec_enter_write_prefix);
            reveal(spec_request_prefix);
            reveal(spec_request_chain_prefix);
        }
        let ghost l0 = self.bus.log();
        let pwd_byte = [FTP_CUST_PASSWORD];
        let pwd_bytes = pwd_byte.as_slice();
        let zero_byte = [0u8];
        let zero_bytes = zero_byte.as_slice();
        let pwr_byte = [0xC0u8];
        let pwr_bytes = pwr_byte.as_slice();
        proof {
            assert(pwd_bytes@ =~= seq![FTP_CUST_PASSWORD]);
            assert(zero_bytes@ =~= seq![0u8]);
            assert(pwr_bytes@ =~= seq![0xC0u8]);
        }
        let ghost setup = seq![
            op_write1(FTP_CUST_PASSWORD_REG, FTP_CUST_PASSWORD),
            op_write1(RW_BUFFER, 0u8),
            op_write1(FTP_CTRL_0, 0u8),
            op_write1(FTP_CTRL_0, 0xC0u8),
        ];
        match self.i2c_write(FTP_CUST_PASSWORD_REG, pwd_bytes) {
            Ok(()) => (),
            Err(e) => {
                proof {
                    assert(log_ext(l0, self.bus.log()) =~= setup.subrange(0, 0));
                }
                return Err(e);
            },
        }
        match self.i2c_write(RW_BUFFER, zero_bytes) {
            Ok(()) => (),
            Err(e) => {
                proof {
                    assert(log_ext(l0, self.bus.log()) =~= setup.subrange(0, 1));
                }
                return Err(e);
            },
        }
        match self.i2c_write(FTP_CTRL_0, zero_bytes) {
            Ok(()) => (),
            Err(e) => {
                proof {
                    assert(log_ext(l0, self.bus.log()) =~= setup.subrange(0, 2));
                }
                return Err(e);
            },
        }
        match self.i2c_write(FTP_CTRL_0, pwr_bytes) {
            Ok(()) => (),
            Err(e) => {
                proof {
                    assert(log_ext(l0, self.bus.log()) =~= setup.subrange(0, 3));
                }
                return Err(e);
            },
        }
        let ghost l4 = self.bus.log();
        proof {
            assert(log_ext(l0, l4) =~= seq![
                op_write1(FTP_CUST_PASSWORD_REG, FTP_CUST_PASSWORD),
                op_write1(RW_BUFFER, 0u8),
                op_write1(FTP_CTRL_0, 0u8),
                op_write1(FTP_CTRL_0, 0xC0u8),
            ]);
            assert(l4.take(l0.len() as int) =~= l0);
        }
        let opcode: u8 = ((erased_sector as u16 * 8) % 256) as u8 + OPCODE_WRITE_SER;
        let ghost reqs = seq![
            (((erased_sector as int * 8) % 256 + 2) as u8, 0xD0u8),
            (OPCODE_SOFT_PROG_SECTOR, 0xD0u8),
            (OPCODE_ERASE_SECTOR, 0xD0u8),
        ];
        match self.request_op(opcode, 0xD0) {
            Ok(()) => (),
            Err(e) => {
                proof {
                    crate::bus::lemma_extends_trans(l0, l4, self.bus.log());
                    let ext = log_ext(l0, self.bus.log());
                    assert(ext =~= log_ext(l0, l4) + log_ext(l4, self.bus.log()));
                    assert(ext.skip(4) =~= log_ext(l4, self.bus.log()));
                    assert(spec_request_chain_prefix(ext.skip(4), reqs));
                }
                return Err(e);
            },
        }
        let ghost la = self.bus.log();
        match self.request_op(OPCODE_SOFT_PROG_SECTOR, 0xD0) {
            Ok(()) => (),
            Err(e) => {
                proof {
                    crate::bus::lemma_extends_trans(l0, l4, la);
                    crate::bus::lemma_extends_trans(l0, la, self.bus.log());
                    let ext = log_ext(l0, self.bus.log());
                    assert(ext =~= log_ext(l0, l4) + log_ext(l4, la) + log_ext(
                        la,
                        self.bus.log(),
                    ));
                    let a = log_ext(l4, la).len() as int;
                    let tail = ext.skip(4);
                    assert(tail.subrange(0, a) =~= log_ext(l4, la));
                    assert(tail.subrange(a, tail.len() as int) =~= log_ext(la, self.bus.log()));
                    assert(spec_request_chain_prefix(
                        tail.subrange(a, tail.len() as int),
                        reqs.skip(1),
                    ));
                    assert(spec_request_chain_prefix(tail, reqs));
                }
                return Err(e);
            },
        }
        let ghost lb = self.bus.log();
        match self.request_op(OPCODE_ERASE_SECTOR, 0xD0) {
            Ok(()) => (),
            Err(e) => {
                proof {
                    crate::bus::lemma_extends_trans(l0, l4, la);
                    crate::bus::lemma_extends_trans(l0, la, lb);
                    crate::bus::lemma_extends_trans(l0, lb, self.bus.log());
                    let ext = log_ext(l0, self.bus.log());
                    assert(ext =~= log_ext(l0, l4) + log_ext(l4, la) + log_ext(la, lb) + log_ext(
                        lb,
                        self.bus.log(),
                    ));
                    let a = log_ext(l4, la).len() as int;
                    let b = a + log_ext(la, lb).len() as int;
                    let tail = ext.skip(4);
                    assert(tail.subrange(0, a) =~= log_ext(l4, la));
                    assert(tail.subrange(a, b) =~= log_ext(la, lb));
                    assert(tail.subrange(b, tail.len() as int) =~= log_ext(lb, self.bus.log()));
                    let mid = tail.subrange(a, tail.len() as int);
                    assert(mid.subrange(0, b - a) =~= log_ext(la, lb));
                    assert(mid.subrange(b - a, mid.len() as int) =~= log_ext(
                        lb,
                        self.bus.log(),
                    ));
                    assert(spec_request_chain_prefix(
                        mid.subrange(b - a, mid.len() as int),
                        reqs.skip(1).skip(1),
                    ));
                    assert(spec_request_chain_prefix(mid, reqs.skip(1)));
                    assert(spec_request_chain_prefix(tail, reqs));
                }
                return Err(e);
            },
        }
        let ghost post = self.bus.log();
        proof {
            crate::bus::lemma_extends_trans(l0, l4, la);
            crate::bus::lemma_extends_trans(l0, la, lb);
            crate::bus::lemma_extends_trans(l0, lb, post);
            let ext = log_ext(l0, post);
            let a = 4 + log_ext(l4, la).len() as int;
            let b = a + log_ext(la, lb).len() as int;
            assert(log_ext(l0, la) =~= log_ext(l0, l4) + log_ext(l4, la));
            assert(log_ext(l0, lb) =~= log_ext(l0, la) + log_ext(la, lb));
            assert(ext =~= log_ext(l0, lb) + log_ext(lb, post));
            assert(ext.subrange(4, a) =~= log_ext(l4, la));
            assert(ext.subrange(a, b) =~= log_ext(la, lb));
            assert(ext.subrange(b, ext.len() as int) =~= log_ext(lb, post));
        }
        Ok(())
    }

    /// Load eight bytes into the window, latch them, and program one
    /// sector.
    pub fn write_sector(&mut self, sector_num: u8, sector_data: &[u8]) -> (r: Result<
        (),
        DriverError,
    >)
        requires
            old(self).inv(),
            sector_data@.len() == 8,
            sector_num < 8,
        ensures
            final(self).inv(),
            final(self).sector == old(self).sector,
            final(self).read_sectors == old(self).read_sectors,
            log_extends(old(self).log(), final(self).log()),
            match r {
                Ok(()) => spec_sector_program_ops(
                    log_ext(old(self).log(), final(self).log()),
                    sector_num as int,
                    sector_data@,
                ),
                Err(e) => (e == DriverError::Bus || e == DriverError::Timeout)
                    && spec_sector_program_prefix(
                    log_ext(old(self).log(), final(self).log()),
                    sector_num as int,
                    sector_data@,
                ),
            },
    {
        proof {
            reveal(spec_sector_program_ops);
            reveal(spec_sector_program_prefix);
            reveal(spec_request_prefix);
            reveal(spec_request_chain_prefix);
        }
        let ghost l0 = self.bus.log();
        match self.i2c_write(RW_BUFFER, sector_data) {
            Ok(()) => (),
            Err(e) => {
                return Err(e);
            },
        }
        let pwr_byte = [0xC0u8];
        let pwr_bytes = pwr_byte.as_slice();
        proof {
            assert(pwr_bytes@ =~= seq![0xC0u8]);
        }
        match self.i2c_write(FTP_CTRL_0, pwr_bytes) {
            Ok(()) => (),
            Err(e) => {
                proof {
                    assert(log_ext(l0, self.bus.log()) =~= seq![
                        op_write(RW_BUFFER, sector_data@),
                    ]);
                }
                return Err(e);
            },
        }
        let ghost l2 = self.bus.log();
        proof {
            assert(log_ext(l0, l2) =~= seq![
                op_write(RW_BUFFER, sector_data@),
                op_write1(FTP_CTRL_0, 0xC0u8),
            ]);
            assert(l2.take(l0.len() as int) =~= l0);
        }
        let ghost reqs = seq![
            (OPCODE_WRITE_PL, 0xD0u8),
            (OPCODE_PROG_SECTOR, (0xD0 + sector_num as int % 8) as u8),
        ];
        match self.request_op(OPCODE_WRITE_PL, 0xD0) {
            Ok(()) => (),
            Err(e) => {
                proof {
                    crate::bus::lemma_extends_trans(l0, l2, self.bus.log());
                    let ext = log_ext(l0, self.bus.log());
                    assert(ext =~= log_ext(l0, l2) + log_ext(l2, self.bus.log()));
                    assert(ext.skip(2) =~= log_ext(l2, self.bus.log()));
                    assert(spec_request_chain_prefix(ext.skip(2), reqs));
                }
                return Err(e);
            },
        }
        let ghost la = self.bus.log();
        match self.request_op(OPCODE_PROG_SECTOR, 0xD0 + sector_num % 8) {
            Ok(()) => (),
            Err(e) => {
                proof {
                    crate::bus::lemma_extends_trans(l0, l2, la);
                    crate::bus::lemma_extends_trans(l0, la, self.bus.log());
                    let ext = log_ext(l0, self.bus.log());
                    assert(ext =~= log_ext(l0, l2) + log_ext(l2, la) + log_ext(
                        la,
                        self.bus.log(),
                    ));
                    let a = log_ext(l2, la).len() as int;
                    let tail = ext.skip(2);
                    assert(tail.subrange(0, a) =~= log_ext(l2, la));
                    assert(tail.subrange(a, tail.len() as int) =~= log_ext(la, self.bus.log()));
                    assert(spec_request_chain_prefix(
                        tail.subrange(a, tail.len() as int),
                        reqs.skip(1),
                    ));
                    assert(spec_request_chain_prefix(tail, reqs));
                }
                return Err(e);
            },
        }
        let ghost post = self.bus.log();
        proof {
            crate::bus::lemma_extends_trans(l0, l2, la);
            crate::bus::lemma_extends_trans(l0, la, post);
            let ext = log_ext(l0, post);
            let a = 2 + log_ext(l2, la).len() as int;
            assert(log_ext(l0, la) =~= log_ext(l0, l2) + log_ext(l2, la));
            assert(ext =~= log_ext(l0, la) + log_ext(la, post));
            assert(ext.subrange(2, a) =~= log_ext(l2, la));
            assert(ext.subrange(a, ext.len() as int) =~= log_ext(la, post));
        }
        Ok(())
    }
}

/// The factory default image, flattened into one forty-byte mirror.
pub open spec fn spec_default_image() -> Seq<u8> {
    spec_default_sector_row(0) + spec_default_sector_row(1) + spec_default_sector_row(2)
        + spec_default_sector_row(3) + spec_default_sector_row(4)
}

/// The default image is its five rows, in order.
pub proof fn lemma_default_image_rows()
    ensures
        spec_default_image().len() == 40,
        spec_default_image().subrange(0, 8) =~= spec_default_sector_row(0),
        spec_default_image().subrange(8, 16) =~= spec_default_sector_row(1),
        spec_default_image().subrange(16, 24) =~= spec_default_sector_row(2),
        spec_default_image().subrange(24, 32) =~= spec_default_sector_row(3),
        spec_default_image().subrange(32, 40) =~= spec_default_sector_row(4),
{
}

/// The factory default image, row by sector.
pub open spec fn spec_default_sector_row(i: int) -> Seq<u8> {
    if i == 0 {
        seq![0x00u8, 0x00, 0xB0, 0xAA, 0x00, 0x45, 0x00, 0x00]
    } else if i == 1 {
        seq![0x10u8, 0x40, 0x9C, 0x1C, 0xFF, 0x01, 0x3C, 0xDF]
    } else if i == 2 {
        seq![0x02u8, 0x40, 0x0F, 0x00, 0x32, 0x00, 0xFC, 0xF1]
    } else if i == 3 {
        seq![0x00u8, 0x19, 0x56, 0xAF, 0xF5, 0x35, 0x5F, 0x00]
    } else {
        seq![0x00u8, 0x4B, 0x90, 0x21, 0x43, 0x00, 0x40, 0xFB]
    }
}

/// Fold the three live PDO words and the PDO count back into the sector
/// mirror, exactly as [`spec_nvm_encode`] states.
fn apply_nvm_encode(sector: &mut Vec<u8>, w1: u32, w2: u32, w3: u32, dpm: u8)
    requires
        old(sector)@.len() == 40,
    ensures
        final(sector)@ == spec_nvm_encode(old(sector)@, w1 as int, w2 as int, w3 as int, dpm as int),
        final(sector)@.len() == 40,
{
    let ca1: u32 = if w1 % 1024 > 500 {
        500
    } else {
        w1 % 1024
    };
    let ca2: u32 = if w2 % 1024 > 500 {
        500
    } else {
        w2 % 1024
    };
    let ca3: u32 = if w3 % 1024 > 500 {
        500
    } else {
        w3 % 1024
    };
    let c1: u8 = nvm_ca_to_code(ca1 as u16);
    let c2: u8 = nvm_ca_to_code(ca2 as u16);
    let c3: u8 = nvm_ca_to_code(ca3 as u16);
    let mv2: u32 = ((w2 / 1024) % 1024) * 50;
    let mv3: u32 = ((w3 / 1024) % 1024) * 50;
    let v2: u32 = (if mv2 < 5000 {
        5000u32
    } else if mv2 > 20000 {
        20000u32
    } else {
        mv2
    }) / 50;
    let v3: u32 = (if mv3 < 5000 {
        5000u32
    } else if mv3 > 20000 {
        20000u32
    } else {
        mv3
    }) / 50;
    sector[26] = sector[26] % 16 + c1 * 16;
    sector[28] = (sector[28] / 16) * 16 + c2;
    sector[29] = sector[29] % 16 + c3 * 16;
    sector[32] = sector[32] % 64 + (v2 % 4) as u8 * 64;
    sector[33] = (v2 / 4) as u8;
    sector[34] = (v3 % 256) as u8;
    sector[35] = (sector[35] / 4) * 4 + (v3 / 256) as u8;
    let b: u8 = sector[26];
    proof {
        assert(b as int / 2 % 4 * 2 <= b as int);
    }
    sector[26] = b - (b / 2) % 4 * 2 + (dpm % 4) * 2;
    proof {
        assert(final(sector)@ =~= spec_nvm_encode(
            old(sector)@,
            w1 as int,
            w2 as int,
            w3 as int,
            dpm as int,
        ));
    }
}

impl<B: RegisterBus> PowerDeliveryDevice<B> {
    /// The profiles stored in the sector mirror, decoded.
    pub fn decoded_settings(&self) -> (r: PdoSettings)
        requires
            self.inv(),
        ensures
            r == spec_decoded_settings(self.sector@),
    {
        decode_nvm_settings(&self.sector)
    }

    /// Under-voltage lockout percentage code for a PDO; slot 1 has none.
    pub fn get_lower_voltage_limit(&self, pdo_numb: u8) -> (r: Result<u8, DriverError>)
        requires
            self.inv(),
        ensures
            pdo_numb == 1 ==> r == Ok::<u8, DriverError>(0),
            pdo_numb == 2 ==> r == Ok::<u8, DriverError>(
                (self.sector@[28] as int / 16 + 5) as u8,
            ),
            pdo_numb == 3 ==> r == Ok::<u8, DriverError>(
                (self.sector@[30] as int % 16 + 5) as u8,
            ),
            !(1 <= pdo_numb <= 3) ==> r == Err::<u8, DriverError>(DriverError::OutOfRange),
    {
        match pdo_numb {
            1 => Ok(0),
            2 => Ok(self.sector[28] / 16 + 5),
            3 => Ok(self.sector[30] % 16 + 5),
            _ => Err(DriverError::OutOfRange),
        }
    }

    /// Over-voltage lockout percentage code for a PDO.
    pub fn get_upper_voltage_limit(&self, pdo_numb: u8) -> (r: Result<u8, DriverError>)
        requires
            self.inv(),
        ensures
            pdo_numb == 1 ==> r == Ok::<u8, DriverError>(
                (self.sector@[27] as int / 16 + 5) as u8,
            ),
            pdo_numb == 2 ==> r == Ok::<u8, DriverError>(
                (self.sector@[29] as int % 16 + 5) as u8,
            ),
            pdo_numb == 3 ==> r == Ok::<u8, DriverError>(
                (self.sector@[30] as int / 16 + 5) as u8,
            ),
            !(1 <= pdo_numb <= 3) ==> r == Err::<u8, DriverError>(DriverError::OutOfRange),
    {
        match pdo_numb {
            1 => Ok(self.sector[27] / 16 + 5),
            2 => Ok(self.sector[29] % 16 + 5),
            3 => Ok(self.sector[30] / 16 + 5),
            _ => Err(DriverError::OutOfRange),
        }
    }

    /// The stored global flexible current, in centiamps.
    pub fn get_flex_current(&self) -> (r: Result<u16, DriverError>)
        requires
            self.inv(),
        ensures
            r == Ok::<u16, DriverError>(
                ((self.sector@[36] as int % 16) * 64 + self.sector@[35] as int / 4) as u16,
            ),
    {
        Ok((self.sector[36] as u16 % 16) * 64 + self.sector[35] as u16 / 4)
    }

    /// Whether the stored configuration flags an external power source.
    pub fn get_external_power(&self) -> (r: Result<u8, DriverError>)
        requires
            self.inv(),
        ensures
            r == Ok::<u8, DriverError>(((self.sector@[26] as int / 8) % 2) as u8),
    {
        Ok((self.sector[26] / 8) % 2)
    }

    /// Whether the stored configuration flags USB data capability.
    pub fn get_usb_comm_capable(&self) -> (r: Result<u8, DriverError>)
        requires
            self.inv(),
        ensures
            r == Ok::<u8, DriverError>((self.sector@[26] as int % 2) as u8),
    {
        Ok(self.sector[26] % 2)
    }

    /// The stored POWER_OK pin configuration.
    pub fn get_config_ok_gpio(&self) -> (r: Result<u8, DriverError>)
        requires
            self.inv(),
        ensures
            r == Ok::<u8, DriverError>(((self.sector@[36] as int / 32) % 4) as u8),
    {
        Ok((self.sector[36] / 32) % 4)
    }

    /// The stored GPIO pin configuration.
    pub fn get_gpio_ctrl(&self) -> (r: Result<u8, DriverError>)
        requires
            self.inv(),
        ensures
            r == Ok::<u8, DriverError>(((self.sector@[8] as int / 16) % 4) as u8),
    {
        Ok((self.sector[8] / 16) % 4)
    }

    /// Whether the sink only accepts sources above 5 V.
    pub fn get_power_above_5v_only(&self) -> (r: Result<u8, DriverError>)
        requires
            self.inv(),
        ensures
            r == Ok::<u8, DriverError>(((self.sector@[38] as int / 8) % 2) as u8),
    {
        Ok((self.sector[38] / 8) % 2)
    }

    /// Whether the sink requests the source's current figure.
    pub fn get_req_src_current(&self) -> (r: Result<u8, DriverError>)
        requires
            self.inv(),
        ensures
            r == Ok::<u8, DriverError>(((self.sector@[38] as int / 16) % 2) as u8),
    {
        Ok((self.sector[38] / 16) % 2)
    }
}

/// One row of the factory default image.
fn default_sector_row(i: usize) -> (r: [u8; 8])
    requires
        i < 5,
    ensures
        r@ =~= spec_default_sector_row(i as int),
{
    if i == 0 {
        [0x00, 0x00, 0xB0, 0xAA, 0x00, 0x45, 0x00, 0x00]
    } else if i == 1 {
        [0x10, 0x40, 0x9C, 0x1C, 0xFF, 0x01, 0x3C, 0xDF]
    } else if i == 2 {
        [0x02, 0x40, 0x0F, 0x00, 0x32, 0x00, 0xFC, 0xF1]
    } else if i == 3 {
        [0x00, 0x19, 0x56, 0xAF, 0xF5, 0x35, 0x5F, 0x00]
    } else {
        [0x00, 0x4B, 0x90, 0x21, 0x43, 0x00, 0x40, 0xFB]
    }
}

impl<B: RegisterBus> PowerDeliveryDevice<B> {
    /// One sector fetch: power the NVM machinery, issue the read request
    /// for sector `i`, poll it to completion, and only then copy the
    /// window out.
    fn fetch_sector(&mut self, i: u8) -> (r: Result<Vec<u8>, DriverError>)
        requires
            old(self).inv(),
            i < 5,
        ensures
            final(self).inv(),
            final(self).sector == old(self).sector,
            final(self).read_sectors == old(self).read_sectors,
            log_extends(old(self).log(), final(self).log()),
            match r {
                Ok(d) => {
                    &&& d@.len() == 8
                    &&& spec_sector_fetch_ops(
                        log_ext(old(self).log(), final(self).log()),
                        i as int,
                        d@,
                    )
                },
                Err(e) => (e == DriverError::Bus || e == DriverError::Timeout)
                    && spec_fetch_prefix(log_ext(old(self).log(), final(self).log()), i as int),
            },
    {
        proof {
            reveal(spec_sector_fetch_ops);
            reveal(spec_fetch_prefix);
            reveal(spec_request_prefix);
        }
        let ghost l0 = self.bus.log();
        let pwr_byte = [0xC0u8];
        let pwr_bytes = pwr_byte.as_slice();
        proof {
            assert(pwr_bytes@ =~= seq![0xC0u8]);
        }
        match self.i2c_write(FTP_CTRL_0, pwr_bytes) {
            Ok(()) => (),
            Err(e) => {
                return Err(e);
            },
        }
        let ghost l1 = self.bus.log();
        match self.request_op(OPCODE_READ, 0xD0 + i) {
            Ok(()) => proof {
                crate::bus::lemma_extends_trans(l0, l1, self.bus.log());
            },
            Err(e) => {
                proof {
                    crate::bus::lemma_extends_trans(l0, l1, self.bus.log());
                    let ext = log_ext(l0, self.bus.log());
                    assert(ext =~= log_ext(l0, l1) + log_ext(l1, self.bus.log()));
                    assert(ext.skip(1) =~= log_ext(l1, self.bus.log()));
                }
                return Err(e);
            },
        }
        let ghost l2 = self.bus.log();
        match self.i2c_read(RW_BUFFER, 8) {
            Ok(d) => {
                proof {
                    crate::bus::lemma_extends_trans(l0, l2, self.bus.log());
                    let ext = log_ext(l0, self.bus.log());
                    assert(ext =~= log_ext(l0, l1) + log_ext(l1, l2) + seq![
                        BusOp::Read { reg: RW_BUFFER, data: d@ },
                    ]);
                    assert(ext.subrange(1, ext.len() - 1) =~= log_ext(l1, l2));
                    assert(spec_sector_fetch_ops(ext, i as int, d@));
                }
                Ok(d)
            },
            Err(e) => {
                proof {
                    crate::bus::lemma_extends_trans(l0, l2, self.bus.log());
                    let ext = log_ext(l0, self.bus.log());
                    assert(ext =~= log_ext(l0, l1) + log_ext(l1, l2));
                    assert(ext.skip(1) =~= log_ext(l1, l2));
                }
                Err(e)
            },
        }
    }

    /// Copy one fetched row into the sector mirror; nothing else moves.
    fn store_sector_row(&mut self, i: usize, d: &Vec<u8>)
        requires
            old(self).inv(),
            i < 5,
            d@.len() == 8,
        ensures
            final(self).inv(),
            final(self).bus == old(self).bus,
            final(self).read_sectors == old(self).read_sectors,
            final(self).sector@.len() == 40,
            final(self).sector@.subrange(8 * i as int, 8 * i as int + 8) == d@,
            forall|idx: int| 0 <= idx < 40 && !(8 * i <= idx < 8 * i + 8)
                ==> final(self).sector@[idx] == old(self).sector@[idx],
    {
        let ghost sec_before = self.sector@;
        let mut j: usize = 0;
        while j < 8
            invariant
                j <= 8,
                i < 5,
                d@.len() == 8,
                self.sector@.len() == 40,
                self.bus == old(self).bus,
                self.read_sectors == old(self).read_sectors,
                forall|jj: int| 0 <= jj < j ==> self.sector@[8 * i + jj] == d@[jj],
                forall|idx: int| 0 <= idx < 40 && !(8 * i <= idx < 8 * i + j)
                    ==> self.sector@[idx] == sec_before[idx],
            decreases 8 - j,
        {
            let idx: usize = 8 * i + j;
            let val = d[j];
            self.sector[idx] = val;
            j = j + 1;
        }
        proof {
            assert(self.sector@.subrange(8 * i as int, 8 * i as int + 8) =~= d@);
        }
    }

    /// Fetch sector `i` and store it as row `i` of the mirror: the bus
    /// sees exactly one sector fetch, and no other row moves.
    fn load_sector(&mut self, i: u8) -> (r: Result<(), DriverError>)
        requires
            old(self).inv(),
            i < 5,
        ensures
            final(self).inv(),
            final(self).read_sectors == old(self).read_sectors,
            log_extends(old(self).log(), final(self).log()),
            match r {
                Ok(()) => {
                    &&& spec_sector_fetch_ops(
                        log_ext(old(self).log(), final(self).log()),
                        i as int,
                        final(self).sector@.subrange(8 * i as int, 8 * i as int + 8),
                    )
                    &&& forall|idx: int| 0 <= idx < 40 && !(8 * i <= idx < 8 * i + 8)
                        ==> final(self).sector@[idx] == old(self).sector@[idx]
                },
                Err(e) => {
                    &&& e == DriverError::Bus || e == DriverError::Timeout
                    &&& final(self).sector == old(self).sector
                    &&& spec_fetch_prefix(
                        log_ext(old(self).log(), final(self).log()),
                        i as int,
                    )
                },
            },
    {
        let d = match self.fetch_sector(i) {
            Ok(d) => d,
            Err(e) => {
                return Err(e);
            },
        };
        self.store_sector_row(i as usize, &d);
        Ok(())
    }

    /// Fetch the five NVM sectors into the mirror: password unlock, one
    /// polled fetch per sector, exit from test mode.
    #[verifier::rlimit(100)]
    #[verifier::spinoff_prover]
    fn read_nvm_sectors(&mut self) -> (r: Result<(), DriverError>)
        requires
            old(self).inv(),
        ensures
            final(self).inv(),
            match r {
                Ok(()) => {
                    &&& final(self).read_sectors
                    &&& log_extends(old(self).log(), final(self).log())
                    &&& spec_nvm_read_protocol(
                        log_ext(old(self).log(), final(self).log()),
                        final(self).sector@,
                    )
                },
                Err(e) => (e == DriverError::Bus || e == DriverError::Timeout)
                    && spec_nvm_read_prefix(log_ext(old(self).log(), final(self).log())),
            },
    {
        proof {
            reveal(spec_nvm_read_prefix);
            reveal(spec_fetch_chain_prefix);
        }
        let ghost l0 = self.bus.log();
        let ghost unlock = spec_nvm_unlock_ops();
        proof {
            assert(self.bus.log().take(l0.len() as int) =~= l0);
        }
        self.read_sectors = true;
        let pwd_byte = [FTP_CUST_PASSWORD];
        let pwd_bytes = pwd_byte.as_slice();
        let zero_byte = [0u8];
        let zero_bytes = zero_byte.as_slice();
        let pwr_byte = [0xC0u8];
        let pwr_bytes = pwr_byte.as_slice();
        proof {
            assert(pwd_bytes@ =~= seq![FTP_CUST_PASSWORD]);
            assert(zero_bytes@ =~= seq![0u8]);
            assert(pwr_bytes@ =~= seq![0xC0u8]);
        }
        match self.i2c_write(FTP_CUST_PASSWORD_REG, pwd_bytes) {
            Ok(()) => (),
            Err(e) => {
                proof {
                    assert(log_ext(l0, self.bus.log()) =~= unlock.subrange(0, 0));
                }
                return Err(e);
            },
        }
        let ghost lc1 = self.bus.log();
        match self.i2c_write(FTP_CTRL_0, zero_bytes) {
            Ok(()) => proof {
                crate::bus::lemma_extends_trans(l0, lc1, self.bus.log());
            },
            Err(e) => {
                proof {
                    assert(log_ext(l0, self.bus.log()) =~= unlock.subrange(0, 1));
                }
                return Err(e);
            },
        }
        let ghost lc2 = self.bus.log();
        match self.i2c_write(FTP_CTRL_0, pwr_bytes) {
            Ok(()) => proof {
                crate::bus::lemma_extends_trans(l0, lc2, self.bus.log());
            },
            Err(e) => {
                proof {
                    assert(log_ext(l0, self.bus.log()) =~= unlock.subrange(0, 2));
                }
                return Err(e);
            },
        }
        let ghost m0 = self.bus.log();
        proof {
            assert(log_ext(l0, m0) =~= unlock);
        }
        match self.load_sector(0) {
            Ok(()) => proof {
                crate::bus::lemma_extends_trans(l0, m0, self.bus.log());
            },
            Err(e) => {
                proof {
                    reveal(spec_nvm_read_prefix);
                    reveal(spec_fetch_chain_prefix);
                    crate::bus::lemma_extends_trans(l0, m0, self.bus.log());
                    let ext = log_ext(l0, self.bus.log());
                    assert(ext =~= unlock + log_ext(m0, self.bus.log()));
                    assert(ext.skip(3) =~= log_ext(m0, self.bus.log()));
                    assert(spec_fetch_chain_prefix(ext.skip(3), 0));
                }
                return Err(e);
            },
        }
        let ghost m1 = self.bus.log();
        let ghost s1 = self.sector@;
        match self.load_sector(1) {
            Ok(()) => proof {
                crate::bus::lemma_extends_trans(l0, m1, self.bus.log());
            },
            Err(e) => {
                proof {
                    crate::bus::lemma_extends_trans(l0, m0, m1);
                    crate::bus::lemma_extends_trans(l0, m1, self.bus.log());
                    let ext = log_ext(l0, self.bus.log());
                    assert(ext =~= unlock + log_ext(m0, m1) + log_ext(m1, self.bus.log()));
                    lemma_read_prefix_after_1(
                        ext,
                        log_ext(m0, m1),
                        log_ext(m1, self.bus.log()),
                        s1.subrange(0, 8),
                    );
                }
                return Err(e);
            },
        }
        let ghost m2 = self.bus.log();
        let ghost s2 = self.sector@;
        match self.load_sector(2) {
            Ok(()) => proof {
                crate::bus::lemma_extends_trans(l0, m2, self.bus.log());
            },
            Err(e) => {
                proof {
                    crate::bus::lemma_extends_trans(l0, m0, m1);
                    crate::bus::lemma_extends_trans(l0, m1, m2);
                    crate::bus::lemma_extends_trans(l0, m2, self.bus.log());
                    let ext = log_ext(l0, self.bus.log());
                    assert(ext =~= unlock + log_ext(m0, m1) + log_ext(m1, m2) + log_ext(m2, self.bus.log()));
                    lemma_read_prefix_after_2(
                        ext,
                        log_ext(m0, m1), log_ext(m1, m2),
                        log_ext(m2, self.bus.log()),
                        s1.subrange(0, 8), s2.subrange(8, 16),
                    );
                }
                return Err(e);
            },
        }
        let ghost m3 = self.bus.log();
        let ghost s3 = self.sector@;
        match self.load_sector(3) {
            Ok(()) => proof {
                crate::bus::lemma_extends_trans(l0, m3, self.bus.log());
            },
            Err(e) => {
                proof {
                    crate::bus::lemma_extends_trans(l0, m0, m1);
                    crate::bus::lemma_extends_trans(l0, m1, m2);
                    crate::bus::lemma_extends_trans(l0, m2, m3);
                    crate::bus::lemma_extends_trans(l0, m3, self.bus.log());
                    let ext = log_ext(l0, self.bus.log());
                    assert(ext =~= unlock + log_ext(m0, m1) + log_ext(m1, m2) + log_ext(m2, m3) + log_ext(m3, self.bus.log()));
                    lemma_read_prefix_after_3(
                        ext,
                        log_ext(m0, m1), log_ext(m1, m2), log_ext(m2, m3),
                        log_ext(m3, self.bus.log()),
                        s1.subrange(0, 8), s2.subrange(8, 16), s3.subrange(16, 24),
                    );
                }
                return Err(e);
            },
        }
        let ghost m4 = self.bus.log();
        let ghost s4 = self.sector@;
        match self.load_sector(4) {
            Ok(()) => proof {
                crate::bus::lemma_extends_trans(l0, m4, self.bus.log());
            },
            Err(e) => {
                proof {
                    crate::bus::lemma_extends_trans(l0, m0, m1);
                    crate::bus::lemma_extends_trans(l0, m1, m2);
                    crate::bus::lemma_extends_trans(l0, m2, m3);
                    crate::bus::lemma_extends_trans(l0, m3, m4);
                    crate::bus::lemma_extends_trans(l0, m4, self.bus.log());
                    let ext = log_ext(l0, self.bus.log());
                    assert(ext =~= unlock + log_ext(m0, m1) + log_ext(m1, m2) + log_ext(m2, m3) + log_ext(m3, m4) + log_ext(m4, self.bus.log()));
                    lemma_read_prefix_after_4(
                        ext,
                        log_ext(m0, m1), log_ext(m1, m2), log_ext(m2, m3), log_ext(m3, m4),
                        log_ext(m4, self.bus.log()),
                        s1.subrange(0, 8), s2.subrange(8, 16), s3.subrange(16, 24), s4.subrange(24, 32),
                    );
                }
                return Err(e);
            },
        }
        let ghost m5 = self.bus.log();
        let ghost s5 = self.sector@;
        match self.exit_test_mode() {
            Ok(()) => proof {
                crate::bus::lemma_extends_trans(l0, m5, self.bus.log());
            },
            Err(e) => {
                proof {
                    crate::bus::lemma_extends_trans(l0, m0, m1);
                    crate::bus::lemma_extends_trans(l0, m1, m2);
                    crate::bus::lemma_extends_trans(l0, m2, m3);
                    crate::bus::lemma_extends_trans(l0, m3, m4);
                    crate::bus::lemma_extends_trans(l0, m4, m5);
                    crate::bus::lemma_extends_trans(l0, m5, self.bus.log());
                    let ext = log_ext(l0, self.bus.log());
                    assert(ext =~= unlock + log_ext(m0, m1) + log_ext(m1, m2) + log_ext(m2, m3) + log_ext(m3, m4) + log_ext(m4, m5) + log_ext(m5, self.bus.log()));
                    lemma_read_prefix_after_5(
                        ext,
                        log_ext(m0, m1), log_ext(m1, m2), log_ext(m2, m3), log_ext(m3, m4), log_ext(m4, m5),
                        log_ext(m5, self.bus.log()),
                        s1.subrange(0, 8), s2.subrange(8, 16), s3.subrange(16, 24), s4.subrange(24, 32), s5.subrange(32, 40),
                    );
                }
                return Err(e);
            },
        }
        proof {
            reveal(spec_nvm_read_protocol);
            let post = self.bus.log();
            let ext = log_ext(l0, post);
            let k1 = 3 + log_ext(m0, m1).len() as int;
            let k2 = k1 + log_ext(m1, m2).len() as int;
            let k3 = k2 + log_ext(m2, m3).len() as int;
            let k4 = k3 + log_ext(m3, m4).len() as int;
            let k5 = k4 + log_ext(m4, m5).len() as int;
            assert(ext =~= log_ext(l0, m0) + log_ext(m0, m1) + log_ext(m1, m2) + log_ext(m2, m3)
                + log_ext(m3, m4) + log_ext(m4, m5) + log_ext(m5, post));
            assert(ext.subrange(3, k1) =~= log_ext(m0, m1));
            assert(ext.subrange(k1, k2) =~= log_ext(m1, m2));
            assert(ext.subrange(k2, k3) =~= log_ext(m2, m3));
            assert(ext.subrange(k3, k4) =~= log_ext(m3, m4));
            assert(ext.subrange(k4, k5) =~= log_ext(m4, m5));
            assert(ext[k5] == op_write1(FTP_CTRL_0, FTP_CUST_RST_N));
            assert(ext[k5 + 1] == op_write1(FTP_CUST_PASSWORD_REG, 0u8));
            // Later loads only touch their own rows, so the rows the early
            // fetches filled read the same in the final mirror.
            assert(s2.subrange(0, 8) =~= s1.subrange(0, 8));
            assert(s3.subrange(0, 8) =~= s2.subrange(0, 8));
            assert(s4.subrange(0, 8) =~= s3.subrange(0, 8));
            assert(s5.subrange(0, 8) =~= s4.subrange(0, 8));
            assert(s3.subrange(8, 16) =~= s2.subrange(8, 16));
            assert(s4.subrange(8, 16) =~= s3.subrange(8, 16));
            assert(s5.subrange(8, 16) =~= s4.subrange(8, 16));
            assert(s4.subrange(16, 24) =~= s3.subrange(16, 24));
            assert(s5.subrange(16, 24) =~= s4.subrange(16, 24));
            assert(s5.subrange(24, 32) =~= s4.subrange(24, 32));
            assert(spec_sector_fetch_ops(ext.subrange(3, k1), 0, s5.subrange(0, 8)));
            assert(spec_sector_fetch_ops(ext.subrange(k1, k2), 1, s5.subrange(8, 16)));
            assert(spec_sector_fetch_ops(ext.subrange(k2, k3), 2, s5.subrange(16, 24)));
            assert(spec_sector_fetch_ops(ext.subrange(k3, k4), 3, s5.subrange(24, 32)));
            assert(spec_sector_fetch_ops(ext.subrange(k4, k5), 4, s5.subrange(32, 40)));
            assert(spec_nvm_read_protocol(ext, self.sector@));
        }
        Ok(())
    }

    /// Push a decoded profile set into the live PDO registers: the count,
    /// then each slot's voltage and current in turn, slot 1 at the fixed
    /// 5 V rail.
    #[verifier::rlimit(100)]
    #[verifier::spinoff_prover]
    fn push_decoded_settings(&mut self, settings: PdoSettings) -> (r: Result<(), DriverError>)
        requires
            old(self).inv(),
        ensures
            final(self).inv(),
            final(self).sector == old(self).sector,
            final(self).read_sectors == old(self).read_sectors,
            log_extends(old(self).log(), final(self).log()),
            match r {
                Ok(()) => spec_settings_push_ops(
                    log_ext(old(self).log(), final(self).log()),
                    settings,
                ),
                Err(e) => e == DriverError::Bus && spec_push_prefix(
                    log_ext(old(self).log(), final(self).log()),
                    settings,
                ),
            },
    {
        proof {
            reveal(spec_push_prefix);
        }
        let ghost l0 = self.bus.log();
        proof {
            assert(self.bus.log().take(l0.len() as int) =~= l0);
        }
        match self.set_pdo_number(settings.pdo_count) {
            Ok(()) => (),
            Err(e) => {
                return Err(e);
            },
        }
        let ghost lp1 = self.bus.log();
        match self.set_voltage(1, 5000) {
            Ok(()) => proof {
                crate::bus::lemma_extends_trans(l0, lp1, self.bus.log());
            },
            Err(e) => {
                proof {
                    crate::bus::lemma_extends_trans(l0, lp1, self.bus.log());
                    let ext = log_ext(l0, self.bus.log());
                    assert(ext =~= log_ext(l0, lp1) + log_ext(lp1, self.bus.log()));

                    assert(ext.subrange(1, ext.len() as int) =~= log_ext(
                        lp1,
                        self.bus.log(),
                    ));
                }
                return Err(e);
            },
        }
        let ghost lp2 = self.bus.log();
        match self.set_current(1, settings.pdo1_ma) {
            Ok(()) => proof {
                crate::bus::lemma_extends_trans(l0, lp2, self.bus.log());
            },
            Err(e) => {
                proof {
                    crate::bus::lemma_extends_trans(l0, lp2, self.bus.log());
                    let ext = log_ext(l0, self.bus.log());
                    assert(ext =~= log_ext(l0, lp2) + log_ext(lp2, self.bus.log()));
                    assert(ext.subrange(1, 3) =~= log_ext(lp1, lp2));
                    assert(ext.subrange(3, ext.len() as int) =~= log_ext(
                        lp2,
                        self.bus.log(),
                    ));
                }
                return Err(e);
            },
        }
        let ghost lp3 = self.bus.log();
        match self.set_voltage(2, settings.pdo2_mv) {
            Ok(()) => proof {
                crate::bus::lemma_extends_trans(l0, lp3, self.bus.log());
            },
            Err(e) => {
                proof {
                    crate::bus::lemma_extends_trans(l0, lp3, self.bus.log());
                    let ext = log_ext(l0, self.bus.log());
                    assert(ext =~= log_ext(l0, lp3) + log_ext(lp3, self.bus.log()));
                    assert(ext.subrange(1, 3) =~= log_ext(lp1, lp2));
                    assert(ext.subrange(3, 5) =~= log_ext(lp2, lp3));
                    assert(ext.subrange(5, ext.len() as int) =~= log_ext(
                        lp3,
                        self.bus.log(),
                    ));
                }
                return Err(e);
            },
        }
        let ghost lp4 = self.bus.log();
        match self.set_current(2, settings.pdo2_ma) {
            Ok(()) => proof {
                crate::bus::lemma_extends_trans(l0, lp4, self.bus.log());
            },
            Err(e) => {
                proof {
                    crate::bus::lemma_extends_trans(l0, lp4, self.bus.log());
                    let ext = log_ext(l0, self.bus.log());
                    assert(ext =~= log_ext(l0, lp4) + log_ext(lp4, self.bus.log()));
                    assert(ext.subrange(1, 3) =~= log_ext(lp1, lp2));
                    assert(ext.subrange(3, 5) =~= log_ext(lp2, lp3));
                    assert(ext.subrange(5, 7) =~= log_ext(lp3, lp4));
                    assert(ext.subrange(7, ext.len() as int) =~= log_ext(
                        lp4,
                        self.bus.log(),
                    ));
                }
                return Err(e);
            },
        }
        let ghost lp5 = self.bus.log();
        match self.set_voltage(3, settings.pdo3_mv) {
            Ok(()) => proof {
                crate::bus::lemma_extends_trans(l0, lp5, self.bus.log());
            },
            Err(e) => {
                proof {
                    crate::bus::lemma_extends_trans(l0, lp5, self.bus.log());
                    let ext = log_ext(l0, self.bus.log());
                    assert(ext =~= log_ext(l0, lp5) + log_ext(lp5, self.bus.log()));
                    assert(ext.subrange(1, 3) =~= log_ext(lp1, lp2));
                    assert(ext.subrange(3, 5) =~= log_ext(lp2, lp3));
                    assert(ext.subrange(5, 7) =~= log_ext(lp3, lp4));
                    assert(ext.subrange(7, 9) =~= log_ext(lp4, lp5));
                    assert(ext.subrange(9, ext.len() as int) =~= log_ext(
                        lp5,
                        self.bus.log(),
                    ));
                }
                return Err(e);
            },
        }
        let ghost lp6 = self.bus.log();
        match self.set_current(3, settings.pdo3_ma) {
            Ok(()) => {
                proof {
                    reveal(spec_settings_push_ops);
                    crate::bus::lemma_extends_trans(l0, lp6, self.bus.log());
                    let ext = log_ext(l0, self.bus.log());
                    assert(ext.subrange(1, 3) =~= log_ext(lp1, lp2));
                    assert(ext.subrange(3, 5) =~= log_ext(lp2, lp3));
                    assert(ext.subrange(5, 7) =~= log_ext(lp3, lp4));
                    assert(ext.subrange(7, 9) =~= log_ext(lp4, lp5));
                    assert(ext.subrange(9, 11) =~= log_ext(lp5, lp6));
                    assert(ext.subrange(11, 13) =~= log_ext(lp6, self.bus.log()));
                    assert(spec_settings_push_ops(ext, settings));
                }
                Ok(())
            },
            Err(e) => {
                proof {
                    crate::bus::lemma_extends_trans(l0, lp6, self.bus.log());
                    let ext = log_ext(l0, self.bus.log());
                    assert(ext =~= log_ext(l0, lp6) + log_ext(lp6, self.bus.log()));
                    assert(ext.subrange(1, 3) =~= log_ext(lp1, lp2));
                    assert(ext.subrange(3, 5) =~= log_ext(lp2, lp3));
                    assert(ext.subrange(5, 7) =~= log_ext(lp3, lp4));
                    assert(ext.subrange(7, 9) =~= log_ext(lp4, lp5));
                    assert(ext.subrange(9, 11) =~= log_ext(lp5, lp6));
                    assert(ext.subrange(11, ext.len() as int) =~= log_ext(
                        lp6,
                        self.bus.log(),
                    ));
                }
                Err(e)
            },
        }
    }

    /// Read the NVM: run the unlock/fetch/exit protocol to fill the
    /// mirror, then push the decoded profiles into the live PDO
    /// registers.
    pub fn read(&mut self) -> (r: Result<(), DriverError>)
        requires
            old(self).inv(),
        ensures
            final(self).inv(),
            match r {
                Ok(()) => {
                    &&& final(self).read_sectors
                    &&& log_extends(old(self).log(), final(self).log())
                    &&& exists|k: int|
                        #![trigger log_ext(old(self).log(), final(self).log()).subrange(0, k)]
                        {
                            let ext = log_ext(old(self).log(), final(self).log());
                            &&& 0 <= k <= ext.len()
                            &&& spec_nvm_read_protocol(ext.subrange(0, k), final(self).sector@)
                            &&& spec_settings_push_ops(
                                ext.subrange(k, ext.len() as int),
                                spec_decoded_settings(final(self).sector@),
                            )
                        }
                },
                Err(e) => (e == DriverError::Bus || e == DriverError::Timeout) && ({
                    let ext = log_ext(old(self).log(), final(self).log());
                    ||| spec_nvm_read_prefix(ext)
                    ||| exists|k: int|
                        #![trigger ext.subrange(0, k)]
                        {
                            &&& 0 <= k <= ext.len()
                            &&& spec_nvm_read_protocol(ext.subrange(0, k), final(self).sector@)
                            &&& spec_push_prefix(
                                ext.subrange(k, ext.len() as int),
                                spec_decoded_settings(final(self).sector@),
                            )
                        }
                }),
            },
    {
        let ghost l0 = self.bus.log();
        match self.read_nvm_sectors() {
            Ok(()) => (),
            Err(e) => {
                return Err(e);
            },
        }
        let ghost l_mid = self.bus.log();
        let ghost sec_mid = self.sector@;
        let settings = self.decoded_settings();
        match self.push_decoded_settings(settings) {
            Ok(()) => (),
            Err(e) => {
                proof {
                    crate::bus::lemma_extends_trans(l0, l_mid, self.bus.log());
                    let ext = log_ext(l0, self.bus.log());
                    let k = log_ext(l0, l_mid).len() as int;
                    assert(ext =~= log_ext(l0, l_mid) + log_ext(l_mid, self.bus.log()));
                    assert(ext.subrange(0, k) =~= log_ext(l0, l_mid));
                    assert(ext.subrange(k, ext.len() as int) =~= log_ext(l_mid, self.bus.log()));
                    assert(self.sector@ == sec_mid);
                    assert(spec_nvm_read_protocol(ext.subrange(0, k), self.sector@));
                    assert(spec_push_prefix(
                        ext.subrange(k, ext.len() as int),
                        spec_decoded_settings(self.sector@),
                    ));
                }
                return Err(e);
            },
        }
        proof {
            crate::bus::lemma_extends_trans(l0, l_mid, self.bus.log());
            let ext = log_ext(l0, self.bus.log());
            let k = log_ext(l0, l_mid).len() as int;
            assert(ext =~= log_ext(l0, l_mid) + log_ext(l_mid, self.bus.log()));
            assert(ext.subrange(0, k) =~= log_ext(l0, l_mid));
            assert(ext.subrange(k, ext.len() as int) =~= log_ext(l_mid, self.bus.log()));
            assert(self.sector@ == sec_mid);
            assert(spec_nvm_read_protocol(ext.subrange(0, k), self.sector@));
            assert(spec_settings_push_ops(
                ext.subrange(k, ext.len() as int),
                spec_decoded_settings(self.sector@),
            ));
        }
        Ok(())
    }

    /// Program a whole image: enter write mode (erasing all five
    /// sectors), load and program each of its rows in turn, and exit test
    /// mode.
    #[verifier::rlimit(100)]
    #[verifier::spinoff_prover]
    fn program_image(&mut self, image: &Vec<u8>) -> (r: Result<(), DriverError>)
        requires
            old(self).inv(),
            image@.len() == 40,
        ensures
            final(self).inv(),
            final(self).sector == old(self).sector,
            final(self).read_sectors == old(self).read_sectors,
            log_extends(old(self).log(), final(self).log()),
            match r {
                Ok(()) => spec_nvm_program_protocol(
                    log_ext(old(self).log(), final(self).log()),
                    image@,
                ),
                Err(e) => (e == DriverError::Bus || e == DriverError::Timeout)
                    && spec_program_prefix(
                    log_ext(old(self).log(), final(self).log()),
                    image@,
                ),
            },
    {
        let ghost l0 = self.bus.log();
        proof {
            assert(self.bus.log().take(l0.len() as int) =~= l0);
        }
        match self.enter_write_mode(ALL_SECTORS) {
            Ok(()) => (),
            Err(e) => {
                proof {
                    reveal(spec_program_prefix);
                }
                return Err(e);
            },
        }
        let ghost m0 = self.bus.log();
        match self.program_image_row(image, 0) {
            Ok(()) => proof {
                crate::bus::lemma_extends_trans(l0, m0, self.bus.log());
            },
            Err(e) => {
                proof {

                    crate::bus::lemma_extends_trans(l0, m0, self.bus.log());
                    let ext = log_ext(l0, self.bus.log());
                    assert(ext =~= log_ext(l0, m0) + log_ext(m0, self.bus.log()));
                    lemma_program_prefix_after_0(
                        ext,
                        log_ext(l0, m0),
                        log_ext(m0, self.bus.log()),
                        image@,
                    );
                }
                return Err(e);
            },
        }
        let ghost m1 = self.bus.log();
        match self.program_image_row(image, 1) {
            Ok(()) => proof {
                crate::bus::lemma_extends_trans(l0, m1, self.bus.log());
            },
            Err(e) => {
                proof {
                    crate::bus::lemma_extends_trans(l0, m0, m1);
                    crate::bus::lemma_extends_trans(l0, m1, self.bus.log());
                    let ext = log_ext(l0, self.bus.log());
                    assert(ext =~= log_ext(l0, m0) + log_ext(m0, m1) + log_ext(m1, self.bus.log()));
                    lemma_program_prefix_after_1(
                        ext,
                        log_ext(l0, m0),
                        log_ext(m0, m1),
                        log_ext(m1, self.bus.log()),
                        image@,
                    );
                }
                return Err(e);
            },
        }
        let ghost m2 = self.bus.log();
        match self.program_image_row(image, 2) {
            Ok(()) => proof {
                crate::bus::lemma_extends_trans(l0, m2, self.bus.log());
            },
            Err(e) => {
                proof {
                    crate::bus::lemma_extends_trans(l0, m0, m1);
                    crate::bus::lemma_extends_trans(l0, m1, m2);
                    crate::bus::lemma_extends_trans(l0, m2, self.bus.log());
                    let ext = log_ext(l0, self.bus.log());
                    assert(ext =~= log_ext(l0, m0) + log_ext(m0, m1) + log_ext(m1, m2) + log_ext(m2, self.bus.log()));
                    lemma_program_prefix_after_2(
                        ext,
                        log_ext(l0, m0),
                        log_ext(m0, m1),
                        log_ext(m1, m2),
                        log_ext(m2, self.bus.log()),
                        image@,
                    );
                }
                return Err(e);
            },
        }
        let ghost m3 = self.bus.log();
        match self.program_image_row(image, 3) {
            Ok(()) => proof {
                crate::bus::lemma_extends_trans(l0, m3, self.bus.log());
            },
            Err(e) => {
                proof {
                    crate::bus::lemma_extends_trans(l0, m0, m1);
                    crate::bus::lemma_extends_trans(l0, m1, m2);
                    crate::bus::lemma_extends_trans(l0, m2, m3);
                    crate::bus::lemma_extends_trans(l0, m3, self.bus.log());
                    let ext = log_ext(l0, self.bus.log());
                    assert(ext =~= log_ext(l0, m0) + log_ext(m0, m1) + log_ext(m1, m2) + log_ext(m2, m3) + log_ext(m3, self.bus.log()));
                    lemma_program_prefix_after_3(
                        ext,
                        log_ext(l0, m0),
                        log_ext(m0, m1),
                        log_ext(m1, m2),
                        log_ext(m2, m3),
                        log_ext(m3, self.bus.log()),
                        image@,
                    );
                }
                return Err(e);
            },
        }
        let ghost m4 = self.bus.log();
        match self.program_image_row(image, 4) {
            Ok(()) => proof {
                crate::bus::lemma_extends_trans(l0, m4, self.bus.log());
            },
            Err(e) => {
                proof {
                    crate::bus::lemma_extends_trans(l0, m0, m1);
                    crate::bus::lemma_extends_trans(l0, m1, m2);
                    crate::bus::lemma_extends_trans(l0, m2, m3);
                    crate::bus::lemma_extends_trans(l0, m3, m4);
                    crate::bus::lemma_extends_trans(l0, m4, self.bus.log());
                    let ext = log_ext(l0, self.bus.log());
                    assert(ext =~= log_ext(l0, m0) + log_ext(m0, m1) + log_ext(m1, m2) + log_ext(m2, m3) + log_ext(m3, m4) + log_ext(m4, self.bus.log()));
                    lemma_program_prefix_after_4(
                        ext,
                        log_ext(l0, m0),
                        log_ext(m0, m1),
                        log_ext(m1, m2),
                        log_ext(m2, m3),
                        log_ext(m3, m4),
                        log_ext(m4, self.bus.log()),
                        image@,
                    );
                }
                return Err(e);
            },
        }
        let ghost m5 = self.bus.log();
        match self.exit_test_mode() {
            Ok(()) => proof {
                crate::bus::lemma_extends_trans(l0, m5, self.bus.log());
            },
            Err(e) => {
                proof {
                    crate::bus::lemma_extends_trans(l0, m0, m1);
                    crate::bus::lemma_extends_trans(l0, m1, m2);
                    crate::bus::lemma_extends_trans(l0, m2, m3);
                    crate::bus::lemma_extends_trans(l0, m3, m4);
                    crate::bus::lemma_extends_trans(l0, m4, m5);
                    crate::bus::lemma_extends_trans(l0, m5, self.bus.log());
                    let ext = log_ext(l0, self.bus.log());
                    assert(ext =~= log_ext(l0, m0) + log_ext(m0, m1) + log_ext(m1, m2) + log_ext(m2, m3) + log_ext(m3, m4) + log_ext(m4, m5) + log_ext(m5, self.bus.log()));
                    lemma_program_prefix_after_5(
                        ext,
                        log_ext(l0, m0),
                        log_ext(m0, m1),
                        log_ext(m1, m2),
                        log_ext(m2, m3),
                        log_ext(m3, m4),
                        log_ext(m4, m5),
                        log_ext(m5, self.bus.log()),
                        image@,
                    );
                }
                return Err(e);
            },
        }
        proof {
            let post = self.bus.log();
            crate::bus::lemma_segment_split(l0, m0, m1, m2, m3, m4, m5, post);
            let ext = log_ext(l0, post);
            let e0 = log_ext(l0, m0).len() as int;
            let k1 = log_ext(l0, m1).len() as int;
            let k2 = log_ext(l0, m2).len() as int;
            let k3 = log_ext(l0, m3).len() as int;
            let k4 = log_ext(l0, m4).len() as int;
            let k5 = log_ext(l0, m5).len() as int;
            assert(ext[k5] == log_ext(m5, post)[0]);
            assert(ext[k5 + 1] == log_ext(m5, post)[1]);
            lemma_program_protocol_assembly(ext, e0, k1, k2, k3, k4, k5, image@);
        }
        Ok(())
    }

    /// Load row `i` of an image into the window and program sector `i`.
    fn program_image_row(&mut self, image: &Vec<u8>, i: u8) -> (r: Result<(), DriverError>)
        requires
            old(self).inv(),
            image@.len() == 40,
            i < 5,
        ensures
            final(self).inv(),
            final(self).sector == old(self).sector,
            final(self).read_sectors == old(self).read_sectors,
            log_extends(old(self).log(), final(self).log()),
            match r {
                Ok(()) => spec_sector_program_ops(
                    log_ext(old(self).log(), final(self).log()),
                    i as int,
                    image@.subrange(8 * i as int, 8 * i as int + 8),
                ),
                Err(e) => (e == DriverError::Bus || e == DriverError::Timeout)
                    && spec_sector_program_prefix(
                    log_ext(old(self).log(), final(self).log()),
                    i as int,
                    image@.subrange(8 * i as int, 8 * i as int + 8),
                ),
            },
    {
        let base: usize = 8 * i as usize;
        let row = [
            image[base],
            image[base + 1],
            image[base + 2],
            image[base + 3],
            image[base + 4],
            image[base + 5],
            image[base + 6],
            image[base + 7],
        ];
        let row_bytes = row.as_slice();
        proof {
            assert(row_bytes@ =~= image@.subrange(8 * i as int, 8 * i as int + 8));
        }
        self.write_sector(i, row_bytes)
    }

    /// A copy of the sector mirror, for programming.
    fn mirror_image(&self) -> (r: Vec<u8>)
        requires
            self.inv(),
        ensures
            r@ == self.sector@,
    {
        let mut image: Vec<u8> = Vec::new();
        let mut i: usize = 0;
        while i < 40
            invariant
                i <= 40,
                self.inv(),
                image@ =~= self.sector@.take(i as int),
            decreases 40 - i,
        {
            image.push(self.sector[i]);
            i = i + 1;
        }
        proof {
            assert(image@ =~= self.sector@);
        }
        image
    }

    /// Re-encode the live PDO words into the sector mirror and program all
    /// five sectors through the erase/program protocol, or program the
    /// factory default image when `default_vals` is nonzero.
    pub fn write(&mut self, default_vals: u8) -> (r: Result<(), DriverError>)
        requires
            old(self).inv(),
        ensures
            final(self).inv(),
            match r {
                Ok(()) => {
                    &&& log_extends(old(self).log(), final(self).log())
                    &&& default_vals == 0 ==> ({
                        let ext = log_ext(old(self).log(), final(self).log());
                        &&& ext.len() >= 4
                        &&& spec_read_at(ext, 0, spec_pdo_addr(1) as u8, 4)
                        &&& spec_read_at(ext, 1, spec_pdo_addr(2) as u8, 4)
                        &&& spec_read_at(ext, 2, spec_pdo_addr(3) as u8, 4)
                        &&& spec_read_at(ext, 3, DPM_PDO_NUMB, 1)
                        &&& final(self).sector@ == spec_nvm_encode(
                            old(self).sector@,
                            spec_word_le(spec_read_data(ext, 0)),
                            spec_word_le(spec_read_data(ext, 1)),
                            spec_word_le(spec_read_data(ext, 2)),
                            spec_read_data(ext, 3)[0] as int,
                        )
                        &&& spec_nvm_program_protocol(
                            ext.subrange(4, ext.len() as int),
                            final(self).sector@,
                        )
                    })
                    &&& default_vals != 0 ==> final(self).sector == old(self).sector
                        && spec_nvm_program_protocol(
                        log_ext(old(self).log(), final(self).log()),
                        spec_default_image(),
                    )
                },
                Err(e) => (e == DriverError::Bus || e == DriverError::Timeout) && ({
                    let ext = log_ext(old(self).log(), final(self).log());
                    &&& default_vals == 0 ==> {
                        ||| {
                            &&& final(self).sector == old(self).sector
                            &&& ext.len() <= 4
                            &&& ext.len() >= 1 ==> spec_read_at(ext, 0, spec_pdo_addr(1) as u8, 4)
                            &&& ext.len() >= 2 ==> spec_read_at(ext, 1, spec_pdo_addr(2) as u8, 4)
                            &&& ext.len() >= 3 ==> spec_read_at(ext, 2, spec_pdo_addr(3) as u8, 4)
                            &&& ext.len() >= 4 ==> spec_read_at(ext, 3, DPM_PDO_NUMB, 1)
                        }
                        ||| {
                            &&& ext.len() >= 4
                            &&& spec_read_at(ext, 0, spec_pdo_addr(1) as u8, 4)
                            &&& spec_read_at(ext, 1, spec_pdo_addr(2) as u8, 4)
                            &&& spec_read_at(ext, 2, spec_pdo_addr(3) as u8, 4)
                            &&& spec_read_at(ext, 3, DPM_PDO_NUMB, 1)
                            &&& final(self).sector@ == spec_nvm_encode(
                                old(self).sector@,
                                spec_word_le(spec_read_data(ext, 0)),
                                spec_word_le(spec_read_data(ext, 1)),
                                spec_word_le(spec_read_data(ext, 2)),
                                spec_read_data(ext, 3)[0] as int,
                            )
                            &&& spec_program_prefix(
                                ext.subrange(4, ext.len() as int),
                                final(self).sector@,
                            )
                        }
                    }
                    &&& default_vals != 0 ==> final(self).sector == old(self).sector
                        && spec_program_prefix(ext, spec_default_image())
                }),
            },
    {
        if default_vals == 0 {
            self.write_encoded()
        } else {
            self.write_factory_defaults()
        }
    }

    /// The reprogram path: read the three live PDO words and the PDO
    /// count, fold them into the mirror, and program it.
    #[verifier::rlimit(100)]
    #[verifier::spinoff_prover]
    fn write_encoded(&mut self) -> (r: Result<(), DriverError>)
        requires
            old(self).inv(),
        ensures
            final(self).inv(),
            match r {
                Ok(()) => ({
                    let ext = log_ext(old(self).log(), final(self).log());
                    &&& log_extends(old(self).log(), final(self).log())
                    &&& ext.len() >= 4
                    &&& spec_read_at(ext, 0, spec_pdo_addr(1) as u8, 4)
                    &&& spec_read_at(ext, 1, spec_pdo_addr(2) as u8, 4)
                    &&& spec_read_at(ext, 2, spec_pdo_addr(3) as u8, 4)
                    &&& spec_read_at(ext, 3, DPM_PDO_NUMB, 1)
                    &&& final(self).sector@ == spec_nvm_encode(
                        old(self).sector@,
                        spec_word_le(spec_read_data(ext, 0)),
                        spec_word_le(spec_read_data(ext, 1)),
                        spec_word_le(spec_read_data(ext, 2)),
                        spec_read_data(ext, 3)[0] as int,
                    )
                    &&& spec_nvm_program_protocol(
                        ext.subrange(4, ext.len() as int),
                        final(self).sector@,
                    )
                }),
                Err(e) => (e == DriverError::Bus || e == DriverError::Timeout) && ({
                    let ext = log_ext(old(self).log(), final(self).log());
                    ||| {
                        &&& final(self).sector == old(self).sector
                        &&& ext.len() <= 4
                        &&& ext.len() >= 1 ==> spec_read_at(ext, 0, spec_pdo_addr(1) as u8, 4)
                        &&& ext.len() >= 2 ==> spec_read_at(ext, 1, spec_pdo_addr(2) as u8, 4)
                        &&& ext.len() >= 3 ==> spec_read_at(ext, 2, spec_pdo_addr(3) as u8, 4)
                        &&& ext.len() >= 4 ==> spec_read_at(ext, 3, DPM_PDO_NUMB, 1)
                    }
                    ||| {
                        &&& ext.len() >= 4
                        &&& spec_read_at(ext, 0, spec_pdo_addr(1) as u8, 4)
                        &&& spec_read_at(ext, 1, spec_pdo_addr(2) as u8, 4)
                        &&& spec_read_at(ext, 2, spec_pdo_addr(3) as u8, 4)
                        &&& spec_read_at(ext, 3, DPM_PDO_NUMB, 1)
                        &&& final(self).sector@ == spec_nvm_encode(
                            old(self).sector@,
                            spec_word_le(spec_read_data(ext, 0)),
                            spec_word_le(spec_read_data(ext, 1)),
                            spec_word_le(spec_read_data(ext, 2)),
                            spec_read_data(ext, 3)[0] as int,
                        )
                        &&& spec_program_prefix(
                            ext.subrange(4, ext.len() as int),
                            final(self).sector@,
                        )
                    }
                }),
            },
    {
        let ghost l0 = self.bus.log();
        proof {
            assert(self.bus.log().take(l0.len() as int) =~= l0);
        }
        let w1 = match self.read_pdo(1) {
            Ok(w) => w,
            Err(e) => {
                return Err(e);
            },
        };
        let ghost lr1 = self.bus.log();
        let w2 = match self.read_pdo(2) {
            Ok(w) => w,
            Err(e) => {
                proof {
                    crate::bus::lemma_extends_trans(l0, lr1, self.bus.log());
                    let ext = log_ext(l0, self.bus.log());
                    assert(ext =~= log_ext(l0, lr1));
                }
                return Err(e);
            },
        };
        proof {
            crate::bus::lemma_extends_trans(l0, lr1, self.bus.log());
        }
        let ghost lr2 = self.bus.log();
        let w3 = match self.read_pdo(3) {
            Ok(w) => w,
            Err(e) => {
                proof {
                    crate::bus::lemma_extends_trans(l0, lr2, self.bus.log());
                    let ext = log_ext(l0, self.bus.log());
                    assert(ext =~= log_ext(l0, lr2));
                }
                return Err(e);
            },
        };
        proof {
            crate::bus::lemma_extends_trans(l0, lr2, self.bus.log());
        }
        let ghost lr3 = self.bus.log();
        let dpm_data = match self.i2c_read(DPM_PDO_NUMB, 1) {
            Ok(d) => d,
            Err(e) => {
                proof {
                    crate::bus::lemma_extends_trans(l0, lr3, self.bus.log());
                    let ext = log_ext(l0, self.bus.log());
                    assert(ext =~= log_ext(l0, lr3));
                }
                return Err(e);
            },
        };
        proof {
            crate::bus::lemma_extends_trans(l0, lr3, self.bus.log());
        }
        let dpm = dpm_data[0];
        apply_nvm_encode(&mut self.sector, w1, w2, w3, dpm);
        let ghost lr4 = self.bus.log();
        let ghost reads = log_ext(l0, lr4);
        proof {
            assert(reads.len() == 4);
            assert(spec_read_at(reads, 0, spec_pdo_addr(1) as u8, 4));
            assert(spec_read_at(reads, 1, spec_pdo_addr(2) as u8, 4));
            assert(spec_read_at(reads, 2, spec_pdo_addr(3) as u8, 4));
            assert(spec_read_at(reads, 3, DPM_PDO_NUMB, 1));
            assert(w1 as int == spec_word_le(spec_read_data(reads, 0)));
            assert(w2 as int == spec_word_le(spec_read_data(reads, 1)));
            assert(w3 as int == spec_word_le(spec_read_data(reads, 2)));
            assert(dpm as int == spec_read_data(reads, 3)[0] as int);
        }
        let image = self.mirror_image();
        match self.program_image(&image) {
            Ok(()) => (),
            Err(e) => {
                proof {
                    crate::bus::lemma_extends_trans(l0, lr4, self.bus.log());
                    let ext = log_ext(l0, self.bus.log());
                    assert(ext =~= reads + log_ext(lr4, self.bus.log()));
                    assert(ext.subrange(4, ext.len() as int) =~= log_ext(lr4, self.bus.log()));
                    assert(ext[0] == reads[0]);
                    assert(ext[1] == reads[1]);
                    assert(ext[2] == reads[2]);
                    assert(ext[3] == reads[3]);
                }
                return Err(e);
            },
        }
        proof {
            crate::bus::lemma_extends_trans(l0, lr4, self.bus.log());
            let ext = log_ext(l0, self.bus.log());
            assert(ext =~= reads + log_ext(lr4, self.bus.log()));
            assert(ext.subrange(4, ext.len() as int) =~= log_ext(lr4, self.bus.log()));
            assert(ext[0] == reads[0]);
            assert(ext[1] == reads[1]);
            assert(ext[2] == reads[2]);
            assert(ext[3] == reads[3]);
        }
        Ok(())
    }

    /// The factory path: program the fixed default image, leaving the
    /// mirror alone.
    fn write_factory_defaults(&mut self) -> (r: Result<(), DriverError>)
        requires
            old(self).inv(),
        ensures
            final(self).inv(),
            final(self).sector == old(self).sector,
            match r {
                Ok(()) => log_extends(old(self).log(), final(self).log())
                    && spec_nvm_program_protocol(
                    log_ext(old(self).log(), final(self).log()),
                    spec_default_image(),
                ),
                Err(e) => (e == DriverError::Bus || e == DriverError::Timeout)
                    && spec_program_prefix(
                    log_ext(old(self).log(), final(self).log()),
                    spec_default_image(),
                ),
            },
    {
        let image = default_image();
        self.program_image(&image)
    }
}

/// Assemble the program protocol from its checked pieces: the write-mode
/// entry, the five sector programs, and the exit writes.
proof fn lemma_program_protocol_assembly(
    ext: Seq<BusOp>,
    e0: int,
    k1: int,
    k2: int,
    k3: int,
    k4: int,
    k5: int,
    s: Seq<u8>,
)
    requires
        s.len() == 40,
        0 <= e0 <= k1 <= k2 <= k3 <= k4 <= k5 <= ext.len(),
        k5 + 2 == ext.len(),
        spec_enter_write_ops(ext.subrange(0, e0), ALL_SECTORS),
        spec_sector_program_ops(ext.subrange(e0, k1), 0, s.subrange(0, 8)),
        spec_sector_program_ops(ext.subrange(k1, k2), 1, s.subrange(8, 16)),
        spec_sector_program_ops(ext.subrange(k2, k3), 2, s.subrange(16, 24)),
        spec_sector_program_ops(ext.subrange(k3, k4), 3, s.subrange(24, 32)),
        spec_sector_program_ops(ext.subrange(k4, k5), 4, s.subrange(32, 40)),
        ext[k5] == op_write1(FTP_CTRL_0, FTP_CUST_RST_N),
        ext[k5 + 1] == op_write1(FTP_CUST_PASSWORD_REG, 0u8),
    ensures
        spec_nvm_program_protocol(ext, s),
{
    reveal(spec_nvm_program_protocol);
}

/// An NVM read interrupted after 1 complete sector fetch is a
/// prefix of the read protocol.
#[verifier::rlimit(100)]
#[verifier::spinoff_prover]
proof fn lemma_read_prefix_after_1(ext: Seq<BusOp>, g0: Seq<BusOp>, derr: Seq<BusOp>, d0: Seq<u8>)
    requires
        ext =~= spec_nvm_unlock_ops() + g0 + derr,
        d0.len() == 8,
        spec_sector_fetch_ops(g0, 0, d0),
        spec_fetch_prefix(derr, 1),
    ensures
        spec_nvm_read_prefix(ext),
{
    reveal(spec_nvm_read_prefix);
    reveal(spec_fetch_chain_prefix);
    let tail = ext.skip(3);
    assert(tail =~= g0 + derr);
    let a0 = 0 + g0.len() as int;
    assert(tail.subrange(0, a0) =~= g0);
    assert(tail.subrange(a0, tail.len() as int) =~= derr);
    assert(spec_fetch_chain_prefix(tail.subrange(a0, tail.len() as int), 1));
    assert(tail.subrange(0, a0) =~= g0);
    assert(tail.subrange(a0, tail.len() as int) =~= tail.subrange(a0, tail.len() as int));
    assert(spec_fetch_chain_prefix(tail, 0));
}

/// An NVM read interrupted after 2 complete sector fetches is a
/// prefix of the read protocol.
#[verifier::rlimit(100)]
#[verifier::spinoff_prover]
proof fn lemma_read_prefix_after_2(ext: Seq<BusOp>, g0: Seq<BusOp>, g1: Seq<BusOp>, derr: Seq<BusOp>, d0: Seq<u8>, d1: Seq<u8>)
    requires
        ext =~= spec_nvm_unlock_ops() + g0 + g1 + derr,
        d0.len() == 8,
        spec_sector_fetch_ops(g0, 0, d0),
        d1.len() == 8,
        spec_sector_fetch_ops(g1, 1, d1),
        spec_fetch_prefix(derr, 2),
    ensures
        spec_nvm_read_prefix(ext),
{
    reveal(spec_nvm_read_prefix);
    reveal(spec_fetch_chain_prefix);
    let tail = ext.skip(3);
    assert(tail =~= g0 + g1 + derr);
    let a0 = 0 + g0.len() as int;
    let a1 = a0 + g1.len() as int;
    assert(tail.subrange(0, a0) =~= g0);
    assert(tail.subrange(a0, a1) =~= g1);
    assert(tail.subrange(a1, tail.len() as int) =~= derr);
    assert(spec_fetch_chain_prefix(tail.subrange(a1, tail.len() as int), 2));
    assert((tail.subrange(a0, tail.len() as int)).subrange(0, a1 - a0) =~= g1);
    assert((tail.subrange(a0, tail.len() as int)).subrange(a1 - a0, (tail.subrange(a0, tail.len() as int)).len() as int) =~= tail.subrange(a1, tail.len() as int));
    assert(spec_fetch_chain_prefix(tail.subrange(a0, tail.len() as int), 1));
    assert(tail.subrange(0, a0) =~= g0);
    assert(tail.subrange(a0, tail.len() as int) =~= tail.subrange(a0, tail.len() as int));
    assert(spec_fetch_chain_prefix(tail, 0));
}

/// An NVM read interrupted after 3 complete sector fetches is a
/// prefix of the read protocol.
#[verifier::rlimit(100)]
#[verifier::spinoff_prover]
proof fn lemma_read_prefix_after_3(ext: Seq<BusOp>, g0: Seq<BusOp>, g1: Seq<BusOp>, g2: Seq<BusOp>, derr: Seq<BusOp>, d0: Seq<u8>, d1: Seq<u8>, d2: Seq<u8>)
    requires
        ext =~= spec_nvm_unlock_ops() + g0 + g1 + g2 + derr,
        d0.len() == 8,
        spec_sector_fetch_ops(g0, 0, d0),
        d1.len() == 8,
        spec_sector_fetch_ops(g1, 1, d1),
        d2.len() == 8,
        spec_sector_fetch_ops(g2, 2, d2),
        spec_fetch_prefix(derr, 3),
    ensures
        spec_nvm_read_prefix(ext),
{
    reveal(spec_nvm_read_prefix);
    reveal(spec_fetch_chain_prefix);
    let tail = ext.skip(3);
    assert(tail =~= g0 + g1 + g2 + derr);
    let a0 = 0 + g0.len() as int;
    let a1 = a0 + g1.len() as int;
    let a2 = a1 + g2.len() as int;
    assert(tail.subrange(0, a0) =~= g0);
    assert(tail.subrange(a0, a1) =~= g1);
    assert(tail.subrange(a1, a2) =~= g2);
    assert(tail.subrange(a2, tail.len() as int) =~= derr);
    assert(spec_fetch_chain_prefix(tail.subrange(a2, tail.len() as int), 3));
    assert((tail.subrange(a1, tail.len() as int)).subrange(0, a2 - a1) =~= g2);
    assert((tail.subrange(a1, tail.len() as int)).subrange(a2 - a1, (tail.subrange(a1, tail.len() as int)).len() as int) =~= tail.subrange(a2, tail.len() as int));
    assert(spec_fetch_chain_prefix(tail.subrange(a1, tail.len() as int), 2));
    assert((tail.subrange(a0, tail.len() as int)).subrange(0, a1 - a0) =~= g1);
    assert((tail.subrange(a0, tail.len() as int)).subrange(a1 - a0, (tail.subrange(a0, tail.len() as int)).len() as int) =~= tail.subrange(a1, tail.len() as int));
    assert(spec_fetch_chain_prefix(tail.subrange(a0, tail.len() as int), 1));
    assert(tail.subrange(0, a0) =~= g0);
    assert(tail.subrange(a0, tail.len() as int) =~= tail.subrange(a0, tail.len() as int));
    assert(spec_fetch_chain_prefix(tail, 0));
}

/// An NVM read interrupted after 4 complete sector fetches is a
/// prefix of the read protocol.
#[verifier::rlimit(100)]
#[verifier::spinoff_prover]
proof fn lemma_read_prefix_after_4(ext: Seq<BusOp>, g0: Seq<BusOp>, g1: Seq<BusOp>, g2: Seq<BusOp>, g3: Seq<BusOp>, derr: Seq<BusOp>, d0: Seq<u8>, d1: Seq<u8>, d2: Seq<u8>, d3: Seq<u8>)
    requires
        ext =~= spec_nvm_unlock_ops() + g0 + g1 + g2 + g3 + derr,
        d0.len() == 8,
        spec_sector_fetch_ops(g0, 0, d0),
        d1.len() == 8,
        spec_sector_fetch_ops(g1, 1, d1),
        d2.len() == 8,
        spec_sector_fetch_ops(g2, 2, d2),
        d3.len() == 8,
        spec_sector_fetch_ops(g3, 3, d3),
        spec_fetch_prefix(derr, 4),
    ensures
        spec_nvm_read_prefix(ext),
{
    reveal(spec_nvm_read_prefix);
    reveal(spec_fetch_chain_prefix);
    let tail = ext.skip(3);
    assert(tail =~= g0 + g1 + g2 + g3 + derr);
    let a0 = 0 + g0.len() as int;
    let a1 = a0 + g1.len() as int;
    let a2 = a1 + g2.len() as int;
    let a3 = a2 + g3.len() as int;
    assert(tail.subrange(0, a0) =~= g0);
    assert(tail.subrange(a0, a1) =~= g1);
    assert(tail.subrange(a1, a2) =~= g2);
    assert(tail.subrange(a2, a3) =~= g3);
    assert(tail.subrange(a3, tail.len() as int) =~= derr);
    assert(spec_fetch_chain_prefix(tail.subrange(a3, tail.len() as int), 4));
    assert((tail.subrange(a2, tail.len() as int)).subrange(0, a3 - a2) =~= g3);
    assert((tail.subrange(a2, tail.len() as int)).subrange(a3 - a2, (tail.subrange(a2, tail.len() as int)).len() as int) =~= tail.subrange(a3, tail.len() as int));
    assert(spec_fetch_chain_prefix(tail.subrange(a2, tail.len() as int), 3));
    assert((tail.subrange(a1, tail.len() as int)).subrange(0, a2 - a1) =~= g2);
    assert((tail.subrange(a1, tail.len() as int)).subrange(a2 - a1, (tail.subrange(a1, tail.len() as int)).len() as int) =~= tail.subrange(a2, tail.len() as int));
    assert(spec_fetch_chain_prefix(tail.subrange(a1, tail.len() as int), 2));
    assert((tail.subrange(a0, tail.len() as int)).subrange(0, a1 - a0) =~= g1);
    assert((tail.subrange(a0, tail.len() as int)).subrange(a1 - a0, (tail.subrange(a0, tail.len() as int)).len() as int) =~= tail.subrange(a1, tail.len() as int));
    assert(spec_fetch_chain_prefix(tail.subrange(a0, tail.len() as int), 1));
    assert(tail.subrange(0, a0) =~= g0);
    assert(tail.subrange(a0, tail.len() as int) =~= tail.subrange(a0, tail.len() as int));
    assert(spec_fetch_chain_prefix(tail, 0));
}

/// An NVM read interrupted after 5 complete sector fetches is a
/// prefix of the read protocol.
#[verifier::rlimit(100)]
#[verifier::spinoff_prover]
proof fn lemma_read_prefix_after_5(ext: Seq<BusOp>, g0: Seq<BusOp>, g1: Seq<BusOp>, g2: Seq<BusOp>, g3: Seq<BusOp>, g4: Seq<BusOp>, derr: Seq<BusOp>, d0: Seq<u8>, d1: Seq<u8>, d2: Seq<u8>, d3: Seq<u8>, d4: Seq<u8>)
    requires
        ext =~= spec_nvm_unlock_ops() + g0 + g1 + g2 + g3 + g4 + derr,
        d0.len() == 8,
        spec_sector_fetch_ops(g0, 0, d0),
        d1.len() == 8,
        spec_sector_fetch_ops(g1, 1, d1),
        d2.len() == 8,
        spec_sector_fetch_ops(g2, 2, d2),
        d3.len() == 8,
        spec_sector_fetch_ops(g3, 3, d3),
        d4.len() == 8,
        spec_sector_fetch_ops(g4, 4, d4),
        spec_exit_prefix(derr),
    ensures
        spec_nvm_read_prefix(ext),
{
    reveal(spec_nvm_read_prefix);
    reveal(spec_fetch_chain_prefix);
    let tail = ext.skip(3);
    assert(tail =~= g0 + g1 + g2 + g3 + g4 + derr);
    let a0 = 0 + g0.len() as int;
    let a1 = a0 + g1.len() as int;
    let a2 = a1 + g2.len() as int;
    let a3 = a2 + g3.len() as int;
    let a4 = a3 + g4.len() as int;
    assert(tail.subrange(0, a0) =~= g0);
    assert(tail.subrange(a0, a1) =~= g1);
    assert(tail.subrange(a1, a2) =~= g2);
    assert(tail.subrange(a2, a3) =~= g3);
    assert(tail.subrange(a3, a4) =~= g4);
    assert(tail.subrange(a4, tail.len() as int) =~= derr);
    assert(spec_fetch_chain_prefix(tail.subrange(a4, tail.len() as int), 5));
    assert((tail.subrange(a3, tail.len() as int)).subrange(0, a4 - a3) =~= g4);
    assert((tail.subrange(a3, tail.len() as int)).subrange(a4 - a3, (tail.subrange(a3, tail.len() as int)).len() as int) =~= tail.subrange(a4, tail.len() as int));
    assert(spec_fetch_chain_prefix(tail.subrange(a3, tail.len() as int), 4));
    assert((tail.subrange(a2, tail.len() as int)).subrange(0, a3 - a2) =~= g3);
    assert((tail.subrange(a2, tail.len() as int)).subrange(a3 - a2, (tail.subrange(a2, tail.len() as int)).len() as int) =~= tail.subrange(a3, tail.len() as int));
    assert(spec_fetch_chain_prefix(tail.subrange(a2, tail.len() as int), 3));
    assert((tail.subrange(a1, tail.len() as int)).subrange(0, a2 - a1) =~= g2);
    assert((tail.subrange(a1, tail.len() as int)).subrange(a2 - a1, (tail.subrange(a1, tail.len() as int)).len() as int) =~= tail.subrange(a2, tail.len() as int));
    assert(spec_fetch_chain_prefix(tail.subrange(a1, tail.len() as int), 2));
    assert((tail.subrange(a0, tail.len() as int)).subrange(0, a1 - a0) =~= g1);
    assert((tail.subrange(a0, tail.len() as int)).subrange(a1 - a0, (tail.subrange(a0, tail.len() as int)).len() as int) =~= tail.subrange(a1, tail.len() as int));
    assert(spec_fetch_chain_prefix(tail.subrange(a0, tail.len() as int), 1));
    assert(tail.subrange(0, a0) =~= g0);
    assert(tail.subrange(a0, tail.len() as int) =~= tail.subrange(a0, tail.len() as int));
    assert(spec_fetch_chain_prefix(tail, 0));
}

/// An NVM program interrupted after the write-mode entry and 0 complete
/// sector programs is a prefix of the program protocol.
#[verifier::rlimit(100)]
#[verifier::spinoff_prover]
proof fn lemma_program_prefix_after_0(
    ext: Seq<BusOp>,
    gent: Seq<BusOp>,
    derr: Seq<BusOp>,
    s: Seq<u8>,
)
    requires
        s.len() == 40,
        ext =~= gent + derr,
        spec_enter_write_ops(gent, ALL_SECTORS),

        spec_sector_program_prefix(derr, 0, s.subrange(0, 8)),
    ensures
        spec_program_prefix(ext, s),
{
    reveal(spec_program_prefix);
    reveal(spec_program_chain_prefix);
    let e = gent.len() as int;
    assert(ext.subrange(0, e) =~= gent);
    let tail = ext.subrange(e, ext.len() as int);
    assert(tail =~= derr);
    assert(tail.subrange(0, tail.len() as int) =~= derr);
    assert(spec_program_chain_prefix(tail.subrange(0, tail.len() as int), s, 0));
    assert(spec_program_chain_prefix(tail, s, 0));
}

/// An NVM program interrupted after the write-mode entry and 1 complete
/// sector program is a prefix of the program protocol.
#[verifier::rlimit(100)]
#[verifier::spinoff_prover]
proof fn lemma_program_prefix_after_1(
    ext: Seq<BusOp>,
    gent: Seq<BusOp>,
    g0: Seq<BusOp>,
    derr: Seq<BusOp>,
    s: Seq<u8>,
)
    requires
        s.len() == 40,
        ext =~= gent + g0 + derr,
        spec_enter_write_ops(gent, ALL_SECTORS),
        spec_sector_program_ops(g0, 0, s.subrange(0, 8)),
        spec_sector_program_prefix(derr, 1, s.subrange(8, 16)),
    ensures
        spec_program_prefix(ext, s),
{
    reveal(spec_program_prefix);
    reveal(spec_program_chain_prefix);
    let e = gent.len() as int;
    assert(ext.subrange(0, e) =~= gent);
    let tail = ext.subrange(e, ext.len() as int);
    assert(tail =~= g0 + derr);
    let a0 = 0 + g0.len() as int;
    assert(tail.subrange(0, a0) =~= g0);
    assert(tail.subrange(a0, tail.len() as int) =~= derr);
    assert(spec_program_chain_prefix(tail.subrange(a0, tail.len() as int), s, 1));
    assert(tail.subrange(0, a0) =~= g0);
    assert(tail.subrange(a0, tail.len() as int) =~= tail.subrange(a0, tail.len() as int));
    assert(spec_program_chain_prefix(tail, s, 0));
}

/// An NVM program interrupted after the write-mode entry and 2 complete
/// sector programs is a prefix of the program protocol.
#[verifier::rlimit(100)]
#[verifier::spinoff_prover]
proof fn lemma_program_prefix_after_2(
    ext: Seq<BusOp>,
    gent: Seq<BusOp>,
    g0: Seq<BusOp>,
    g1: Seq<BusOp>,
    derr: Seq<BusOp>,
    s: Seq<u8>,
)
    requires
        s.len() == 40,
        ext =~= gent + g0 + g1 + derr,
        spec_enter_write_ops(gent, ALL_SECTORS),
        spec_sector_program_ops(g0, 0, s.subrange(0, 8)),
        spec_sector_program_ops(g1, 1, s.subrange(8, 16)),
        spec_sector_program_prefix(derr, 2, s.subrange(16, 24)),
    ensures
        spec_program_prefix(ext, s),
{
    reveal(spec_program_prefix);
    reveal(spec_program_chain_prefix);
    let e = gent.len() as int;
    assert(ext.subrange(0, e) =~= gent);
    let tail = ext.subrange(e, ext.len() as int);
    assert(tail =~= g0 + g1 + derr);
    let a0 = 0 + g0.len() as int;
    let a1 = a0 + g1.len() as int;
    assert(tail.subrange(0, a0) =~= g0);
    assert(tail.subrange(a0, a1) =~= g1);
    assert(tail.subrange(a1, tail.len() as int) =~= derr);
    assert(spec_program_chain_prefix(tail.subrange(a1, tail.len() as int), s, 2));
    assert((tail.subrange(a0, tail.len() as int)).subrange(0, a1 - a0) =~= g1);
    assert((tail.subrange(a0, tail.len() as int)).subrange(a1 - a0, (tail.subrange(a0, tail.len() as int)).len() as int) =~= tail.subrange(a1, tail.len() as int));
    assert(spec_program_chain_prefix(tail.subrange(a0, tail.len() as int), s, 1));
    assert(tail.subrange(0, a0) =~= g0);
    assert(tail.subrange(a0, tail.len() as int) =~= tail.subrange(a0, tail.len() as int));
    assert(spec_program_chain_prefix(tail, s, 0));
}

/// An NVM program interrupted after the write-mode entry and 3 complete
/// sector programs is a prefix of the program protocol.
#[verifier::rlimit(100)]
#[verifier::spinoff_prover]
proof fn lemma_program_prefix_after_3(
    ext: Seq<BusOp>,
    gent: Seq<BusOp>,
    g0: Seq<BusOp>,
    g1: Seq<BusOp>,
    g2: Seq<BusOp>,
    derr: Seq<BusOp>,
    s: Seq<u8>,
)
    requires
        s.len() == 40,
        ext =~= gent + g0 + g1 + g2 + derr,
        spec_enter_write_ops(gent, ALL_SECTORS),
        spec_sector_program_ops(g0, 0, s.subrange(0, 8)),
        spec_sector_program_ops(g1, 1, s.subrange(8, 16)),
        spec_sector_program_ops(g2, 2, s.subrange(16, 24)),
        spec_sector_program_prefix(derr, 3, s.subrange(24, 32)),
    ensures
        spec_program_prefix(ext, s),
{
    reveal(spec_program_prefix);
    reveal(spec_program_chain_prefix);
    let e = gent.len() as int;
    assert(ext.subrange(0, e) =~= gent);
    let tail = ext.subrange(e, ext.len() as int);
    assert(tail =~= g0 + g1 + g2 + derr);
    let a0 = 0 + g0.len() as int;
    let a1 = a0 + g1.len() as int;
    let a2 = a1 + g2.len() as int;
    assert(tail.subrange(0, a0) =~= g0);
    assert(tail.subrange(a0, a1) =~= g1);
    assert(tail.subrange(a1, a2) =~= g2);
    assert(tail.subrange(a2, tail.len() as int) =~= derr);
    assert(spec_program_chain_prefix(tail.subrange(a2, tail.len() as int), s, 3));
    assert((tail.subrange(a1, tail.len() as int)).subrange(0, a2 - a1) =~= g2);
    assert((tail.subrange(a1, tail.len() as int)).subrange(a2 - a1, (tail.subrange(a1, tail.len() as int)).len() as int) =~= tail.subrange(a2, tail.len() as int));
    assert(spec_program_chain_prefix(tail.subrange(a1, tail.len() as int), s, 2));
    assert((tail.subrange(a0, tail.len() as int)).subrange(0, a1 - a0) =~= g1);
    assert((tail.subrange(a0, tail.len() as int)).subrange(a1 - a0, (tail.subrange(a0, tail.len() as int)).len() as int) =~= tail.subrange(a1, tail.len() as int));
    assert(spec_program_chain_prefix(tail.subrange(a0, tail.len() as int), s, 1));
    assert(tail.subrange(0, a0) =~= g0);
    assert(tail.subrange(a0, tail.len() as int) =~= tail.subrange(a0, tail.len() as int));
    assert(spec_program_chain_prefix(tail, s, 0));
}

/// An NVM program interrupted after the write-mode entry and 4 complete
/// sector programs is a prefix of the program protocol.
#[verifier::rlimit(100)]
#[verifier::spinoff_prover]
proof fn lemma_program_prefix_after_4(
    ext: Seq<BusOp>,
    gent: Seq<BusOp>,
    g0: Seq<BusOp>,
    g1: Seq<BusOp>,
    g2: Seq<BusOp>,
    g3: Seq<BusOp>,
    derr: Seq<BusOp>,
    s: Seq<u8>,
)
    requires
        s.len() == 40,
        ext =~= gent + g0 + g1 + g2 + g3 + derr,
        spec_enter_write_ops(gent, ALL_SECTORS),
        spec_sector_program_ops(g0, 0, s.subrange(0, 8)),
        spec_sector_program_ops(g1, 1, s.subrange(8, 16)),
        spec_sector_program_ops(g2, 2, s.subrange(16, 24)),
        spec_sector_program_ops(g3, 3, s.subrange(24, 32)),
        spec_sector_program_prefix(derr, 4, s.subrange(32, 40)),
    ensures
        spec_program_prefix(ext, s),
{
    reveal(spec_program_prefix);
    reveal(spec_program_chain_prefix);
    let e = gent.len() as int;
    assert(ext.subrange(0, e) =~= gent);
    let tail = ext.subrange(e, ext.len() as int);
    assert(tail =~= g0 + g1 + g2 + g3 + derr);
    let a0 = 0 + g0.len() as int;
    let a1 = a0 + g1.len() as int;
    let a2 = a1 + g2.len() as int;
    let a3 = a2 + g3.len() as int;
    assert(tail.subrange(0, a0) =~= g0);
    assert(tail.subrange(a0, a1) =~= g1);
    assert(tail.subrange(a1, a2) =~= g2);
    assert(tail.subrange(a2, a3) =~= g3);
    assert(tail.subrange(a3, tail.len() as int) =~= derr);
    assert(spec_program_chain_prefix(tail.subrange(a3, tail.len() as int), s, 4));
    assert((tail.subrange(a2, tail.len() as int)).subrange(0, a3 - a2) =~= g3);
    assert((tail.subrange(a2, tail.len() as int)).subrange(a3 - a2, (tail.subrange(a2, tail.len() as int)).len() as int) =~= tail.subrange(a3, tail.len() as int));
    assert(spec_program_chain_prefix(tail.subrange(a2, tail.len() as int), s, 3));
    assert((tail.subrange(a1, tail.len() as int)).subrange(0, a2 - a1) =~= g2);
    assert((tail.subrange(a1, tail.len() as int)).subrange(a2 - a1, (tail.subrange(a1, tail.len() as int)).len() as int) =~= tail.subrange(a2, tail.len() as int));
    assert(spec_program_chain_prefix(tail.subrange(a1, tail.len() as int), s, 2));
    assert((tail.subrange(a0, tail.len() as int)).subrange(0, a1 - a0) =~= g1);
    assert((tail.subrange(a0, tail.len() as int)).subrange(a1 - a0, (tail.subrange(a0, tail.len() as int)).len() as int) =~= tail.subrange(a1, tail.len() as int));
    assert(spec_program_chain_prefix(tail.subrange(a0, tail.len() as int), s, 1));
    assert(tail.subrange(0, a0) =~= g0);
    assert(tail.subrange(a0, tail.len() as int) =~= tail.subrange(a0, tail.len() as int));
    assert(spec_program_chain_prefix(tail, s, 0));
}

/// An NVM program interrupted after the write-mode entry and 5 complete
/// sector programs is a prefix of the program protocol.
#[verifier::rlimit(100)]
#[verifier::spinoff_prover]
proof fn lemma_program_prefix_after_5(
    ext: Seq<BusOp>,
    gent: Seq<BusOp>,
    g0: Seq<BusOp>,
    g1: Seq<BusOp>,
    g2: Seq<BusOp>,
    g3: Seq<BusOp>,
    g4: Seq<BusOp>,
    derr: Seq<BusOp>,
    s: Seq<u8>,
)
    requires
        s.len() == 40,
        ext =~= gent + g0 + g1 + g2 + g3 + g4 + derr,
        spec_enter_write_ops(gent, ALL_SECTORS),
        spec_sector_program_ops(g0, 0, s.subrange(0, 8)),
        spec_sector_program_ops(g1, 1, s.subrange(8, 16)),
        spec_sector_program_ops(g2, 2, s.subrange(16, 24)),
        spec_sector_program_ops(g3, 3, s.subrange(24, 32)),
        spec_sector_program_ops(g4, 4, s.subrange(32, 40)),
        spec_exit_prefix(derr),
    ensures
        spec_program_prefix(ext, s),
{
    reveal(spec_program_prefix);
    reveal(spec_program_chain_prefix);
    let e = gent.len() as int;
    assert(ext.subrange(0, e) =~= gent);
    let tail = ext.subrange(e, ext.len() as int);
    assert(tail =~= g0 + g1 + g2 + g3 + g4 + derr);
    let a0 = 0 + g0.len() as int;
    let a1 = a0 + g1.len() as int;
    let a2 = a1 + g2.len() as int;
    let a3 = a2 + g3.len() as int;
    let a4 = a3 + g4.len() as int;
    assert(tail.subrange(0, a0) =~= g0);
    assert(tail.subrange(a0, a1) =~= g1);
    assert(tail.subrange(a1, a2) =~= g2);
    assert(tail.subrange(a2, a3) =~= g3);
    assert(tail.subrange(a3, a4) =~= g4);
    assert(tail.subrange(a4, tail.len() as int) =~= derr);
    assert(spec_program_chain_prefix(tail.subrange(a4, tail.len() as int), s, 5));
    assert((tail.subrange(a3, tail.len() as int)).subrange(0, a4 - a3) =~= g4);
    assert((tail.subrange(a3, tail.len() as int)).subrange(a4 - a3, (tail.subrange(a3, tail.len() as int)).len() as int) =~= tail.subrange(a4, tail.len() as int));
    assert(spec_program_chain_prefix(tail.subrange(a3, tail.len() as int), s, 4));
    assert((tail.subrange(a2, tail.len() as int)).subrange(0, a3 - a2) =~= g3);
    assert((tail.subrange(a2, tail.len() as int)).subrange(a3 - a2, (tail.subrange(a2, tail.len() as int)).len() as int) =~= tail.subrange(a3, tail.len() as int));
    assert(spec_program_chain_prefix(tail.subrange(a2, tail.len() as int), s, 3));
    assert((tail.subrange(a1, tail.len() as int)).subrange(0, a2 - a1) =~= g2);
    assert((tail.subrange(a1, tail.len() as int)).subrange(a2 - a1, (tail.subrange(a1, tail.len() as int)).len() as int) =~= tail.subrange(a2, tail.len() as int));
    assert(spec_program_chain_prefix(tail.subrange(a1, tail.len() as int), s, 2));
    assert((tail.subrange(a0, tail.len() as int)).subrange(0, a1 - a0) =~= g1);
    assert((tail.subrange(a0, tail.len() as int)).subrange(a1 - a0, (tail.subrange(a0, tail.len() as int)).len() as int) =~= tail.subrange(a1, tail.len() as int));
    assert(spec_program_chain_prefix(tail.subrange(a0, tail.len() as int), s, 1));
    assert(tail.subrange(0, a0) =~= g0);
    assert(tail.subrange(a0, tail.len() as int) =~= tail.subrange(a0, tail.len() as int));
    assert(spec_program_chain_prefix(tail, s, 0));
}

/// The factory default image as one forty-byte vector.
fn default_image() -> (r: Vec<u8>)
    ensures
        r@ == spec_default_image(),
        r@.len() == 40,
{
    let mut image: Vec<u8> = Vec::new();
    let mut i: usize = 0;
    while i < 5
        invariant
            i <= 5,
            image@.len() == 8 * i,
            image@ =~= spec_default_image().take(8 * i as int),
        decreases 5 - i,
    {
        let row = default_sector_row(i);
        let mut j: usize = 0;
        while j < 8
            invariant
                i < 5,
                j <= 8,
                row@ =~= spec_default_sector_row(i as int),
                image@.len() == 8 * i + j,
                image@ =~= spec_default_image().take(8 * i + j),
            decreases 8 - j,
        {
            proof {
                lemma_default_image_rows();
                assert(spec_default_image()[8 * i + j] == spec_default_image().subrange(
                    8 * i as int,
                    8 * i as int + 8,
                )[j as int]);
            }
            image.push(row[j]);
            proof {
                assert(image@ =~= spec_default_image().take(8 * i + j + 1));
            }
            j = j + 1;
        }
        i = i + 1;
    }
    proof {
        assert(image@ =~= spec_default_image());
    }
    image
}

} // verus!
