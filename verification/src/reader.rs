//! The reader: its configuration, the exchange with the device as a state
//! machine, and the decoding of a settled sample.
//!
//! The exchange waits until the device is not updating, samples the time
//! registers in a fixed order, and repeats both until two consecutive samples
//! agree. It then reads the mode bits and decodes. There is no retry limit: a
//! device that never settles keeps the exchange going for ever, and a driver
//! that needs a deadline has to impose it.

use crate::decode::{
    decode_field, decode_hour, field_value, hour_value, resolve_from_baseline,
    resolve_with_century, year_from_baseline, year_in_century, MAX_CURRENT_YEAR,
};
use crate::registers::{
    field_register, is_updating, register_of, update_in_progress, Sample, FIXED_FIELDS,
    REG_STATUS_A, REG_STATUS_B,
};
use crate::time::Time;
use vstd::prelude::*;

verus! {

/// What is fixed when a reader is made: the year that the caller takes to be
/// the present one, and the index of the device's century register, zero
/// where it has none.
pub struct ReadRTC {
    current_year: u16,
    century_register: u8,
}

/// How far one read of the clock has come.
#[derive(Debug, PartialEq, Eq, Clone, Copy)]
pub enum Progress {
    /// Waiting for status register A to show that no update is in progress.
    /// `previous` is the last complete sample, if there is one.
    Polling { previous: Option<Sample> },
    /// Reading the time registers; `position` is the next field to read.
    Sampling { previous: Option<Sample>, current: Sample, position: u8 },
    /// Two consecutive samples agreed; waiting for status register B.
    Settled { sample: Sample },
    /// The time is known.
    Finished { time: Time },
}

impl ReadRTC {
    /// What every reader satisfies: where the century has to come from
    /// `current_year`, that year leaves room for the years of its century.
    #[verifier::type_invariant]
    pub closed spec fn well_formed(self) -> bool {
        self.century_register == 0 ==> self.current_year <= MAX_CURRENT_YEAR
    }

    /// The year that the caller takes to be the present one.
    pub closed spec fn current_year(self) -> u16 {
        self.current_year
    }

    /// The index of the century register, zero where the device has none.
    pub closed spec fn century_register(self) -> u8 {
        self.century_register
    }

    /// Whether the device has a century register.
    pub open spec fn has_century(self) -> bool {
        self.century_register() != 0
    }

    /// How many registers make up one sample.
    pub open spec fn field_count(self) -> int {
        if self.has_century() {
            FIXED_FIELDS + 1
        } else {
            FIXED_FIELDS as int
        }
    }

    /// A reader for a device whose century register has the given index, or
    /// none if that is zero. Without a century register `current_year` decides
    /// the century, and must leave room for it in 16 bits.
    #[must_use]
    pub fn new(current_year: u16, century_register: u8) -> (r: ReadRTC)
        requires
            century_register == 0 ==> current_year <= MAX_CURRENT_YEAR,
        ensures
            r.current_year() == current_year,
            r.century_register() == century_register,
            r.well_formed(),
    {
        ReadRTC { current_year, century_register }
    }

    /// The time that a settled sample stands for under the mode bits of status
    /// register B.
    pub open spec fn decoded(self, sample: Sample, status_b: u8) -> Time {
        let year = field_value(sample.year, status_b);
        let century: u8 = if self.has_century() {
            field_value(sample.century, status_b) as u8
        } else {
            sample.century
        };
        let full_year = if self.has_century() {
            year_in_century(year, century as int)
        } else {
            year_from_baseline(year, self.current_year() as int)
        };
        Time {
            century,
            year: full_year as u16,
            month: field_value(sample.month, status_b) as u8,
            day: field_value(sample.day, status_b) as u8,
            hour: hour_value(sample.hour, status_b) as u8,
            minute: field_value(sample.minute, status_b) as u8,
            second: field_value(sample.second, status_b) as u8,
        }
    }

    /// Decodes a settled sample under the mode bits of status register B.
    pub fn decode(&self, sample: Sample, status_b: u8) -> (t: Time)
        ensures
            t == self.decoded(sample, status_b),
            t.second == field_value(sample.second, status_b),
            t.minute == field_value(sample.minute, status_b),
            t.hour == hour_value(sample.hour, status_b),
            t.day == field_value(sample.day, status_b),
            t.month == field_value(sample.month, status_b),
            self.has_century() ==> t.century == field_value(sample.century, status_b),
            !self.has_century() ==> t.century == sample.century,
            self.has_century() ==> t.year == year_in_century(
                field_value(sample.year, status_b),
                field_value(sample.century, status_b),
            ),
            !self.has_century() ==> t.year == year_from_baseline(
                field_value(sample.year, status_b),
                self.current_year() as int,
            ),
    {
        proof {
            use_type_invariant(self);
        }
        let year: u8 = decode_field(sample.year, status_b);
        let century: u8 = if self.century_register != 0 {
            decode_field(sample.century, status_b)
        } else {
            sample.century
        };
        let full_year: u16 = if self.century_register != 0 {
            resolve_with_century(year, century)
        } else {
            resolve_from_baseline(year, self.current_year)
        };
        Time {
            century,
            year: full_year,
            month: decode_field(sample.month, status_b),
            day: decode_field(sample.day, status_b),
            hour: decode_hour(sample.hour, status_b),
            minute: decode_field(sample.minute, status_b),
            second: decode_field(sample.second, status_b),
        }
    }

    /// The state in which every read begins: nothing sampled, waiting for the
    /// device not to be updating.
    pub open spec fn initial() -> Progress {
        Progress::Polling { previous: None }
    }

    /// The register that the driver must select and read next, or nothing
    /// once the time is known.
    pub open spec fn wanted(self, progress: Progress) -> Option<u8> {
        match progress {
            Progress::Polling { .. } => Some(REG_STATUS_A),
            Progress::Sampling { position, .. } => Some(
                field_register(position, self.century_register()),
            ),
            Progress::Settled { .. } => Some(REG_STATUS_B),
            Progress::Finished { .. } => None,
        }
    }

    /// Where a complete sample leads: to the mode bits if it repeats the one
    /// before it, else to another round with this sample to compare against.
    pub open spec fn after_sample(previous: Option<Sample>, sample: Sample) -> Progress {
        if previous == Some(sample) {
            Progress::Settled { sample }
        } else {
            Progress::Polling { previous: Some(sample) }
        }
    }

    /// The state after the device answered the wanted register with `byte`.
    pub open spec fn next(self, progress: Progress, byte: u8) -> Progress {
        match progress {
            Progress::Polling { previous } => if update_in_progress(byte) {
                progress
            } else {
                Progress::Sampling { previous, current: Sample::blank(), position: 0 }
            },
            Progress::Sampling { previous, current, position } => {
                let sample = current.with_field(position, byte);
                if position + 1 < self.field_count() {
                    Progress::Sampling { previous, current: sample, position: (position + 1) as u8 }
                } else {
                    Self::after_sample(previous, sample)
                }
            },
            Progress::Settled { sample } => Progress::Finished {
                time: self.decoded(sample, byte),
            },
            Progress::Finished { .. } => progress,
        }
    }

    /// Begins a read.
    pub fn start(&self) -> (progress: Progress)
        ensures
            progress == Self::initial(),
            self.wanted(progress) == Some(REG_STATUS_A),
    {
        Progress::Polling { previous: None }
    }

    /// The register that the driver must select and read next, or nothing
    /// once the time is known.
    pub fn request(&self, progress: &Progress) -> (register: Option<u8>)
        ensures
            register == self.wanted(*progress),
            register is None <==> progress is Finished,
    {
        match progress {
            Progress::Polling { .. } => Some(REG_STATUS_A),
            Progress::Sampling { position, .. } => Some(
                register_of(*position, self.century_register),
            ),
            Progress::Settled { .. } => Some(REG_STATUS_B),
            Progress::Finished { .. } => None,
        }
    }

    /// Takes the byte that the device returned for the wanted register.
    pub fn advance(&self, progress: Progress, byte: u8) -> (r: Progress)
        ensures
            r == self.next(progress, byte),
    {
        match progress {
            Progress::Polling { previous } => {
                if is_updating(byte) {
                    progress
                } else {
                    Progress::Sampling { previous, current: Sample::empty(), position: 0 }
                }
            },
            Progress::Sampling { previous, current, position } => {
                let sample = current.filled(position, byte);
                let last: u8 = if self.century_register != 0 {
                    FIXED_FIELDS
                } else {
                    FIXED_FIELDS - 1
                };
                if position < last {
                    Progress::Sampling { previous, current: sample, position: position + 1 }
                } else {
                    Self::settle(previous, sample)
                }
            },
            Progress::Settled { sample } => Progress::Finished { time: self.decode(sample, byte) },
            Progress::Finished { .. } => progress,
        }
    }

    /// Compares a complete sample with the one before it.
    fn settle(previous: Option<Sample>, sample: Sample) -> (r: Progress)
        ensures
            r == Self::after_sample(previous, sample),
    {
        match previous {
            Some(earlier) => {
                if earlier == sample {
                    Progress::Settled { sample }
                } else {
                    Progress::Polling { previous: Some(sample) }
                }
            },
            None => Progress::Polling { previous: Some(sample) },
        }
    }
}

impl Progress {
    /// The time that the read produced, once it has finished.
    pub open spec fn outcome(self) -> Option<Time> {
        match self {
            Progress::Finished { time } => Some(time),
            _ => None,
        }
    }

    /// The time that the read produced, once it has finished.
    pub fn time(&self) -> (r: Option<Time>)
        ensures
            r == self.outcome(),
            r is Some <==> self is Finished,
    {
        match self {
            Progress::Finished { time } => Some(*time),
            _ => None,
        }
    }
}

} // verus!
