use cmos_rtc::decode::{
    bcd_hour_to_binary, bcd_to_binary, decode_field, decode_hour, reads_12_hour, reads_bcd,
    resolve_from_baseline, resolve_with_century, to_24_hour, MAX_CURRENT_YEAR,
};
use cmos_rtc::{ReadRTC, Sample, Time};

const BCD_12H: u8 = 0x00;
const BCD_24H: u8 = 0x02;
const BINARY_12H: u8 = 0x04;
const BINARY_24H: u8 = 0x06;

#[test]
fn bcd_decodes_every_valid_byte_to_its_decimal_reading() {
    for tens in 0u8..=9 {
        for units in 0u8..=9 {
            let byte = (tens << 4) | units;
            assert_eq!(bcd_to_binary(byte), tens * 10 + units);
            assert_eq!(bcd_to_binary(byte), (byte & 0x0F) + (byte >> 4) * 10);
        }
    }
}

#[test]
fn bcd_exact_values() {
    assert_eq!(bcd_to_binary(0x00), 0);
    assert_eq!(bcd_to_binary(0x09), 9);
    assert_eq!(bcd_to_binary(0x10), 10);
    assert_eq!(bcd_to_binary(0x59), 59);
    assert_eq!(bcd_to_binary(0x99), 99);
}

#[test]
fn bcd_follows_the_formula_on_bytes_that_are_no_bcd() {
    assert_eq!(bcd_to_binary(0x0A), 10);
    assert_eq!(bcd_to_binary(0x1F), 25);
    assert_eq!(bcd_to_binary(0xA0), 100);
    assert_eq!(bcd_to_binary(0xFF), 165);
    for byte in 0u8..=255 {
        assert_eq!(bcd_to_binary(byte), (byte & 0x0F) + (byte >> 4) * 10);
    }
}

#[test]
fn bcd_hour_keeps_the_pm_flag() {
    for raw in 0u8..=255 {
        let decoded = bcd_hour_to_binary(raw);
        assert_eq!(decoded & 0x80, raw & 0x80);
        assert_eq!(decoded & 0x7F, bcd_to_binary(raw & 0x7F));
    }
}

#[test]
fn bcd_hour_exact_values() {
    assert_eq!(bcd_hour_to_binary(0x12), 12);
    assert_eq!(bcd_hour_to_binary(0x92), 0x80 | 12);
    assert_eq!(bcd_hour_to_binary(0x81), 0x80 | 1);
    assert_eq!(bcd_hour_to_binary(0x23), 23);
    assert_eq!(bcd_hour_to_binary(0xFF), 0x80 | 85);
}

#[test]
fn pm_hours_move_on_by_twelve_modulo_24() {
    for raw in 0x80u8..=0xFF {
        assert_eq!(to_24_hour(raw), ((raw & 0x7F) + 12) % 24);
    }
}

#[test]
fn am_hours_stay_as_they_are() {
    for raw in 0u8..0x80 {
        assert_eq!(to_24_hour(raw), raw);
    }
}

#[test]
fn twelve_pm_folds_to_zero() {
    assert_eq!(to_24_hour(0x80 | 12), 0);
}

#[test]
fn one_pm_is_thirteen() {
    assert_eq!(to_24_hour(0x80 | 1), 13);
}

#[test]
fn eleven_pm_is_twenty_three() {
    assert_eq!(to_24_hour(0x80 | 11), 23);
}

#[test]
fn mode_bits_are_read_from_status_b() {
    assert!(reads_bcd(BCD_12H));
    assert!(reads_bcd(BCD_24H));
    assert!(!reads_bcd(BINARY_12H));
    assert!(!reads_bcd(BINARY_24H));
    assert!(reads_12_hour(BCD_12H));
    assert!(!reads_12_hour(BCD_24H));
    assert!(reads_12_hour(BINARY_12H));
    assert!(!reads_12_hour(BINARY_24H));
    assert!(reads_bcd(0xF9));
    assert!(!reads_bcd(0xFD));
    assert!(reads_12_hour(0xFD));
    assert!(!reads_12_hour(0xFB));
}

#[test]
fn field_is_decoded_only_in_bcd_mode() {
    assert_eq!(decode_field(0x59, BCD_24H), 59);
    assert_eq!(decode_field(0x59, BINARY_24H), 0x59);
    assert_eq!(decode_field(59, BINARY_12H), 59);
}

#[test]
fn hour_under_each_of_the_four_modes() {
    assert_eq!(decode_hour(0x81, BCD_12H), 13);
    assert_eq!(decode_hour(0x92, BCD_12H), 0);
    assert_eq!(decode_hour(0x11, BCD_12H), 11);
    assert_eq!(decode_hour(0x23, BCD_24H), 23);
    assert_eq!(decode_hour(0x81, BCD_24H), 0x81);
    assert_eq!(decode_hour(0x80 | 7, BINARY_12H), 19);
    assert_eq!(decode_hour(7, BINARY_12H), 7);
    assert_eq!(decode_hour(23, BINARY_24H), 23);
    assert_eq!(decode_hour(0x80 | 7, BINARY_24H), 0x80 | 7);
}

#[test]
fn year_in_the_baseline_century() {
    assert_eq!(resolve_from_baseline(24, 2024), 2024);
}

#[test]
fn year_late_in_the_baseline_century_needs_no_roll_over() {
    assert_eq!(resolve_from_baseline(99, 2024), 2099);
}

#[test]
fn year_before_the_baseline_rolls_into_the_next_century() {
    assert_eq!(resolve_from_baseline(5, 2099), 2105);
    assert_eq!(resolve_from_baseline(23, 2024), 2123);
    assert_eq!(resolve_from_baseline(0, 2001), 2100);
}

#[test]
fn year_at_the_largest_baseline_fits() {
    assert_eq!(MAX_CURRENT_YEAR, 65_299);
    assert_eq!(resolve_from_baseline(255, MAX_CURRENT_YEAR), 65_455);
    assert_eq!(resolve_from_baseline(0, MAX_CURRENT_YEAR), 65_300);
    assert_eq!(resolve_from_baseline(98, MAX_CURRENT_YEAR), 65_398);
    assert_eq!(resolve_from_baseline(99, MAX_CURRENT_YEAR), 65_299);
    assert_eq!(resolve_from_baseline(255, 65_200), u16::MAX - 80);
    assert_eq!(resolve_from_baseline(0, 0), 0);
}

#[test]
fn year_with_a_century() {
    assert_eq!(resolve_with_century(24, 20), 2024);
    assert_eq!(resolve_with_century(99, 19), 1999);
    assert_eq!(resolve_with_century(0, 0), 0);
    assert_eq!(resolve_with_century(255, 255), 25_755);
}

#[test]
fn decode_a_bcd_sample_on_a_12_hour_clock_without_century() {
    let rtc = ReadRTC::new(2024, 0);
    let sample = Sample {
        second: 0x58,
        minute: 0x07,
        hour: 0x81,
        day: 0x31,
        month: 0x12,
        year: 0x24,
        century: 0,
    };
    assert_eq!(
        rtc.decode(sample, BCD_12H),
        Time { century: 0, year: 2024, month: 12, day: 31, hour: 13, minute: 7, second: 58 }
    );
}

#[test]
fn decode_a_binary_sample_on_a_24_hour_clock_with_century() {
    let rtc = ReadRTC::new(0, 0x32);
    let sample =
        Sample { second: 58, minute: 7, hour: 13, day: 31, month: 12, year: 24, century: 20 };
    assert_eq!(
        rtc.decode(sample, BINARY_24H),
        Time { century: 20, year: 2024, month: 12, day: 31, hour: 13, minute: 7, second: 58 }
    );
}

#[test]
fn decode_a_bcd_century() {
    let rtc = ReadRTC::new(0, 0x32);
    let sample = Sample {
        second: 0x00,
        minute: 0x00,
        hour: 0x00,
        day: 0x01,
        month: 0x01,
        year: 0x24,
        century: 0x20,
    };
    let time = rtc.decode(sample, BCD_24H);
    assert_eq!(time.century, 20);
    assert_eq!(time.year, 2024);
}

#[test]
fn decode_leaves_the_century_alone_without_a_register() {
    let rtc = ReadRTC::new(1999, 0);
    let sample = Sample {
        second: 0x00,
        minute: 0x00,
        hour: 0x00,
        day: 0x01,
        month: 0x01,
        year: 0x05,
        century: 0,
    };
    let time = rtc.decode(sample, BCD_24H);
    assert_eq!(time.century, 0);
    assert_eq!(time.year, 2005);
}

#[test]
fn decode_passes_implausible_values_through() {
    let rtc = ReadRTC::new(0, 0x32);
    let sample = Sample {
        second: 0xFF,
        minute: 0xFF,
        hour: 0xFF,
        day: 0xFF,
        month: 0xFF,
        year: 0xFF,
        century: 0xFF,
    };
    assert_eq!(
        rtc.decode(sample, BCD_24H),
        Time {
            century: 165,
            year: 165 + 165 * 100,
            month: 165,
            day: 165,
            hour: 0x80 | 85,
            minute: 165,
            second: 165
        }
    );
    assert_eq!(rtc.decode(sample, BCD_12H).hour, ((85 + 12) % 24) as u8);
}
