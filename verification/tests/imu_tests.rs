use vibesentinel::config::MAX_I2C_ERRORS;
use vibesentinel::imu::{ctrl1_xl_value, i16_from_le, AccelRange, ImuDriver, CTRL1_XL};

#[test]
fn ctrl_register_combines_rate_and_range() {
    assert_eq!(ctrl1_xl_value(AccelRange::G2), 0x60);
    assert_eq!(ctrl1_xl_value(AccelRange::G4), 0x68);
    assert_eq!(ctrl1_xl_value(AccelRange::G8), 0x6C);
    assert_eq!(ctrl1_xl_value(AccelRange::G16), 0x64);
    assert_eq!(AccelRange::G8.register_bits(), 0x03);
    assert_eq!(AccelRange::G16.register_bits(), 0x01);
    for r in [AccelRange::G2, AccelRange::G4, AccelRange::G8, AccelRange::G16] {
        let v = ctrl1_xl_value(r);
        assert_eq!(v & 0xF0, 0x60, "416 Hz data rate kept");
        assert_eq!((v >> 2) & 0x03, r.register_bits(), "range only in bits 3:2");
        assert_eq!(v & 0x03, 0);
    }
}

#[test]
fn init_command_writes_ctrl1_xl() {
    let d = ImuDriver::new(AccelRange::G8);
    assert_eq!(d.init_command(), [CTRL1_XL, 0x6C]);
}

#[test]
fn saturation_value_is_i16_max_for_every_range() {
    for r in [AccelRange::G2, AccelRange::G4, AccelRange::G8, AccelRange::G16] {
        assert_eq!(r.saturation_raw(), i16::MAX);
    }
}

#[test]
fn decode_little_endian_readings() {
    assert_eq!(i16_from_le(0x34, 0x12), 0x1234);
    assert_eq!(i16_from_le(0xFF, 0xFF), -1);
    assert_eq!(i16_from_le(0x00, 0x80), i16::MIN);
    assert_eq!(i16_from_le(0xFF, 0x7F), i16::MAX);
    for v in [-32768i16, -1234, -1, 0, 1, 999, 32767] {
        let b = v.to_le_bytes();
        assert_eq!(i16_from_le(b[0], b[1]), v);
    }
}

#[test]
fn raw_read_decodes_and_clears_errors() {
    let mut d = ImuDriver::new(AccelRange::G8);
    d.report_error();
    d.report_error();
    let mut buf = [0u8; 6];
    buf[0..2].copy_from_slice(&100i16.to_le_bytes());
    buf[2..4].copy_from_slice(&(-200i16).to_le_bytes());
    buf[4..6].copy_from_slice(&16384i16.to_le_bytes());
    assert_eq!(d.read_accel_raw(buf), (100, -200, 16384));
    assert_eq!(d.error_count(), 0);
}

#[test]
fn saturation_detection_margin() {
    let d = ImuDriver::new(AccelRange::G8);
    assert!(!d.is_saturated(0, 0, 0));
    assert!(!d.is_saturated(32756, -32756, 100));
    assert!(d.is_saturated(32757, 0, 0));
    assert!(d.is_saturated(0, -32757, 0));
    assert!(d.is_saturated(0, 0, i16::MAX));
    assert!(d.is_saturated(i16::MIN, 0, 0));
    assert!(d.is_saturated(0, -32768, 0));
    assert!(d.is_saturated(0, 0, -32767));
}

#[test]
fn recovery_after_max_consecutive_errors() {
    let mut d = ImuDriver::new(AccelRange::G16);
    for k in 1..MAX_I2C_ERRORS {
        assert_eq!(d.report_error(), k);
        assert!(!d.needs_recovery());
    }
    assert_eq!(d.report_error(), MAX_I2C_ERRORS);
    assert!(d.needs_recovery());
    d.recover();
    assert_eq!(d.error_count(), 0);
    assert!(!d.needs_recovery());
}
