//! The device as the platform fixes it: port addresses, register indices,
//! flag bits, and the shape of one raw sample.

use vstd::prelude::*;

verus! {

/// The port to which a register index is written to select that register.
pub const CMOS_ADDRESS: u16 = 0x70;

/// The port from which the selected register's content is read.
pub const CMOS_DATA: u16 = 0x71;

pub const REG_SECONDS: u8 = 0x00;

pub const REG_MINUTES: u8 = 0x02;

pub const REG_HOURS: u8 = 0x04;

pub const REG_DAY: u8 = 0x07;

pub const REG_MONTH: u8 = 0x08;

pub const REG_YEAR: u8 = 0x09;

/// Status register A, which carries the update-in-progress flag.
pub const REG_STATUS_A: u8 = 0x0A;

/// Status register B, which carries the two mode bits.
pub const REG_STATUS_B: u8 = 0x0B;

/// In status register A: the device is rewriting its time registers.
pub const UPDATE_IN_PROGRESS: u8 = 0x80;

/// In status register B: values are binary. Clear: packed BCD.
pub const BINARY_MODE: u8 = 0x04;

/// In status register B: the hour runs from 0 to 23. Clear: 12-hour clock.
pub const HOUR_24_MODE: u8 = 0x02;

/// In the hour register of a 12-hour clock: the afternoon.
pub const PM_FLAG: u8 = 0x80;

/// How many time registers the device always has, before an optional century
/// register.
pub const FIXED_FIELDS: u8 = 6;

/// The time registers exactly as the device returned them, before any
/// decoding. Without a century register, `century` is zero.
#[derive(Debug, PartialEq, Eq, Clone, Copy, Structural)]
pub struct Sample {
    pub second: u8,
    pub minute: u8,
    pub hour: u8,
    pub day: u8,
    pub month: u8,
    pub year: u8,
    pub century: u8,
}

/// Whether a reading of status register A says that an update is in progress.
pub open spec fn update_in_progress(status_a: u8) -> bool {
    status_a & UPDATE_IN_PROGRESS != 0
}

/// Whether a reading of status register B says that the registers hold packed BCD.
pub open spec fn is_bcd(status_b: u8) -> bool {
    status_b & BINARY_MODE == 0
}

/// Whether a reading of status register B says that the hour is on a 12-hour clock.
pub open spec fn is_12_hour(status_b: u8) -> bool {
    status_b & HOUR_24_MODE == 0
}

/// The register that holds the time field with the given position in a sample.
/// Position 6 is the century, whose register differs between platforms.
pub open spec fn field_register(position: u8, century_register: u8) -> u8 {
    if position == 0 {
        REG_SECONDS
    } else if position == 1 {
        REG_MINUTES
    } else if position == 2 {
        REG_HOURS
    } else if position == 3 {
        REG_DAY
    } else if position == 4 {
        REG_MONTH
    } else if position == 5 {
        REG_YEAR
    } else {
        century_register
    }
}

/// Tests the update-in-progress flag in a reading of status register A.
pub fn is_updating(status_a: u8) -> (r: bool)
    ensures
        r == update_in_progress(status_a),
{
    status_a & UPDATE_IN_PROGRESS != 0
}

/// The register to select for the time field at `position`.
pub fn register_of(position: u8, century_register: u8) -> (r: u8)
    ensures
        r == field_register(position, century_register),
{
    if position == 0 {
        REG_SECONDS
    } else if position == 1 {
        REG_MINUTES
    } else if position == 2 {
        REG_HOURS
    } else if position == 3 {
        REG_DAY
    } else if position == 4 {
        REG_MONTH
    } else if position == 5 {
        REG_YEAR
    } else {
        century_register
    }
}

impl Sample {
    /// A sample of which nothing has been read yet.
    pub open spec fn blank() -> Sample {
        Sample { second: 0, minute: 0, hour: 0, day: 0, month: 0, year: 0, century: 0 }
    }

    /// A sample of which nothing has been read yet.
    pub fn empty() -> (r: Sample)
        ensures
            r == Sample::blank(),
    {
        Sample { second: 0, minute: 0, hour: 0, day: 0, month: 0, year: 0, century: 0 }
    }

    /// Stores `byte` as the field at `position`.
    pub fn filled(self, position: u8, byte: u8) -> (r: Sample)
        ensures
            r == self.with_field(position, byte),
    {
        let mut r = self;
        if position == 0 {
            r.second = byte;
        } else if position == 1 {
            r.minute = byte;
        } else if position == 2 {
            r.hour = byte;
        } else if position == 3 {
            r.day = byte;
        } else if position == 4 {
            r.month = byte;
        } else if position == 5 {
            r.year = byte;
        } else {
            r.century = byte;
        }
        r
    }

    /// The sample with the field at `position` replaced by `byte`.
    pub open spec fn with_field(self, position: u8, byte: u8) -> Sample {
        if position == 0 {
            Sample { second: byte, ..self }
        } else if position == 1 {
            Sample { minute: byte, ..self }
        } else if position == 2 {
            Sample { hour: byte, ..self }
        } else if position == 3 {
            Sample { day: byte, ..self }
        } else if position == 4 {
            Sample { month: byte, ..self }
        } else if position == 5 {
            Sample { year: byte, ..self }
        } else {
            Sample { century: byte, ..self }
        }
    }
}

} // verus!
