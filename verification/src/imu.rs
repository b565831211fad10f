//! Register-level logic of the LSM6DS3 accelerometer driver: range
//! configuration, decoding of raw readings, saturation detection and the
//! consecutive-error count that triggers bus recovery.  The bus transfers
//! themselves are made by the caller.
use vstd::prelude::*;
use crate::config::MAX_I2C_ERRORS;

verus! {

/// I2C address of the LSM6DS3.
pub const LSM6DS3_ADDR: u8 = 0x6A;

/// First output register of the accelerometer (X low byte).
pub const OUTX_L_A: u8 = 0x28;

/// Accelerometer control register.
pub const CTRL1_XL: u8 = 0x10;

/// Output data rate bits for 416 Hz; the range bits are OR'd in.
pub const ODR_416HZ: u8 = 0x60;

/// Bus timeout, in ticks, of every transfer.
pub const I2C_TIMEOUT_TICKS: u32 = 100;

/// Distance below the saturation value at which a reading counts as clipped.
pub const SATURATION_MARGIN: i16 = 10;

/// Accelerometer full-scale range.
#[derive(Clone, Copy, PartialEq, Eq, Structural)]
pub enum AccelRange {
    G2,
    G4,
    G8,
    G16,
}

impl AccelRange {
    /// The value of the range's two-bit FS_XL field (bits 3:2 of
    /// CTRL1_XL): 00 for 2 g, 01 for 16 g, 10 for 4 g, 11 for 8 g.
    pub open spec fn spec_bits(self) -> u8 {
        match self {
            AccelRange::G2 => 0x00,
            AccelRange::G4 => 0x02,
            AccelRange::G8 => 0x03,
            AccelRange::G16 => 0x01,
        }
    }

    /// The range's FS_XL field value.
    pub fn register_bits(self) -> (bits: u8)
        ensures
            bits == self.spec_bits(),
    {
        match self {
            AccelRange::G2 => 0x00,
            AccelRange::G4 => 0x02,
            AccelRange::G8 => 0x03,
            AccelRange::G16 => 0x01,
        }
    }

    /// Raw reading at which the sensor saturates in this range.
    pub fn saturation_raw(self) -> (sat: i16)
        ensures
            sat == i16::MAX,
    {
        match self {
            AccelRange::G2 => i16::MAX,
            AccelRange::G4 => i16::MAX,
            AccelRange::G8 => i16::MAX,
            AccelRange::G16 => i16::MAX,
        }
    }
}

/// The CTRL1_XL value for 416 Hz output (bits 7:4) in the given range
/// (bits 3:2).
pub open spec fn spec_ctrl1_xl(range: AccelRange) -> u8 {
    (ODR_416HZ + 4 * range.spec_bits()) as u8
}

/// The CTRL1_XL value for 416 Hz output in the given range.
pub fn ctrl1_xl_value(range: AccelRange) -> (v: u8)
    ensures
        v == spec_ctrl1_xl(range),
{
    let bits = range.register_bits();
    let shifted: u8 = bits * 4;
    assert(shifted <= 12);
    assert(ODR_416HZ | shifted == ODR_416HZ + shifted) by (bit_vector)
        requires
            shifted == 0 || shifted == 4 || shifted == 8 || shifted == 12,
    ;
    ODR_416HZ | shifted
}

/// The signed 16-bit value whose little-endian bytes are `lo`, `hi`.
pub open spec fn le_i16(lo: u8, hi: u8) -> int {
    let u = lo + 256 * hi;
    if u >= 0x8000 { u - 0x1_0000 } else { u }
}

/// Decodes a little-endian signed 16-bit reading.
pub fn i16_from_le(lo: u8, hi: u8) -> (v: i16)
    ensures
        v == le_i16(lo, hi),
{
    let u: i32 = (lo as i32) + 256 * (hi as i32);
    if u >= 0x8000 {
        (u - 0x1_0000) as i16
    } else {
        u as i16
    }
}

/// Every signed 16-bit value is decoded back from its own little-endian
/// bytes.
pub proof fn lemma_le_i16_roundtrip(v: i16)
    ensures
        le_i16(((v + 0x1_0000) % 0x1_0000 % 256) as u8, ((v + 0x1_0000) % 0x1_0000 / 256) as u8) == v,
{
}

/// Magnitude of a reading.
pub open spec fn abs_i16(v: i16) -> int {
    if v < 0 { -v } else { v as int }
}

/// Whether a reading is within `SATURATION_MARGIN` of the saturation value.
pub open spec fn spec_clipped(raw: i16, sat: i16) -> bool {
    abs_i16(raw) >= sat - SATURATION_MARGIN
}

/// Magnitude of a reading, widened so that `i16::MIN` has one too.
fn abs_raw(v: i16) -> (a: i32)
    ensures
        a == abs_i16(v),
{
    let w: i32 = v as i32;
    if w < 0 { -w } else { w }
}

/// State of the accelerometer driver: its configured range and the number
/// of consecutive failed bus reads.
pub struct ImuDriver {
    pub range: AccelRange,
    pub error_count: u32,
}

impl ImuDriver {
    /// A driver for `range` with no errors yet; the caller writes
    /// `init_command()` to the device before reading from it.
    pub fn new(range: AccelRange) -> (d: ImuDriver)
        ensures
            d.range == range,
            d.error_count == 0,
    {
        ImuDriver { range, error_count: 0 }
    }

    /// Register address and value that configure the device (written at
    /// start-up and again on bus recovery).
    pub fn init_command(&self) -> (cmd: [u8; 2])
        ensures
            cmd@ == seq![CTRL1_XL, spec_ctrl1_xl(self.range)],
    {
        let cmd = [CTRL1_XL, ctrl1_xl_value(self.range)];
        assert(cmd@ =~= seq![CTRL1_XL, spec_ctrl1_xl(self.range)]);
        cmd
    }

    /// Whether any axis reading is at the range limit, which means the
    /// vibration amplitude is being clipped.
    pub fn is_saturated(&self, raw_x: i16, raw_y: i16, raw_z: i16) -> (sat: bool)
        ensures
            sat == (spec_clipped(raw_x, i16::MAX) || spec_clipped(raw_y, i16::MAX) || spec_clipped(
                raw_z,
                i16::MAX,
            )),
    {
        let limit: i32 = (self.range.saturation_raw() - SATURATION_MARGIN) as i32;
        abs_raw(raw_x) >= limit || abs_raw(raw_y) >= limit || abs_raw(raw_z) >= limit
    }

    /// Decodes the six output bytes of a successful read into (x, y, z) raw
    /// readings; a successful read clears the consecutive-error count.
    pub fn read_accel_raw(&mut self, buf: [u8; 6]) -> (raw: (i16, i16, i16))
        ensures
            raw.0 == le_i16(buf@[0], buf@[1]),
            raw.1 == le_i16(buf@[2], buf@[3]),
            raw.2 == le_i16(buf@[4], buf@[5]),
            final(self).range == old(self).range,
            final(self).error_count == 0,
    {
        let raw_x = i16_from_le(buf[0], buf[1]);
        let raw_y = i16_from_le(buf[2], buf[3]);
        let raw_z = i16_from_le(buf[4], buf[5]);
        self.error_count = 0;
        (raw_x, raw_y, raw_z)
    }

    /// The driver state after one more failed read.
    pub open spec fn spec_failed(self) -> ImuDriver {
        ImuDriver { error_count: (self.error_count + 1) as u32, ..self }
    }

    /// Recovery is to be attempted.
    pub open spec fn spec_needs_recovery(self) -> bool {
        self.error_count >= MAX_I2C_ERRORS
    }

    /// Counts one failed read and returns the consecutive-error count.
    pub fn report_error(&mut self) -> (count: u32)
        requires
            old(self).error_count < u32::MAX,
        ensures
            *final(self) == old(self).spec_failed(),
            count == final(self).error_count,
    {
        self.error_count += 1;
        self.error_count
    }

    /// Enough consecutive reads have failed to attempt bus recovery.
    pub fn needs_recovery(&self) -> (r: bool)
        ensures
            r == self.spec_needs_recovery(),
    {
        self.error_count >= MAX_I2C_ERRORS
    }

    /// Records a successful recovery (the configuration in `init_command()`
    /// was written again): the consecutive-error count starts over.
    pub fn recover(&mut self)
        ensures
            final(self).error_count == 0,
            final(self).range == old(self).range,
    {
        self.error_count = 0;
    }

    /// Consecutive failed reads so far.
    pub fn error_count(&self) -> (count: u32)
        ensures
            count == self.error_count,
    {
        self.error_count
    }
}

/// The driver state after `k` consecutive failed reads.
pub open spec fn after_failures(d: ImuDriver, k: nat) -> ImuDriver
    decreases k,
{
    if k == 0 { d } else { after_failures(d, (k - 1) as nat).spec_failed() }
}

/// Starting from a driver whose last read succeeded (or a fresh one),
/// recovery becomes due exactly when `MAX_I2C_ERRORS` consecutive reads
/// have failed, and the count of failures is exact.
pub proof fn lemma_recovery_after_consecutive_failures(d: ImuDriver, k: nat)
    requires
        d.error_count == 0,
        k < u32::MAX,
    ensures
        after_failures(d, k).error_count == k,
        after_failures(d, k).range == d.range,
        after_failures(d, k).spec_needs_recovery() <==> k >= MAX_I2C_ERRORS,
    decreases k,
{
    if k > 0 {
        lemma_recovery_after_consecutive_failures(d, (k - 1) as nat);
    }
}

} // verus!
