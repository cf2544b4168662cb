//! The civil time value that a read of the clock produces, and its order.

use core::cmp::Ordering;
use vstd::prelude::*;

verus! {

/// A point in civil time, without time zone.
///
/// The fields are declared from the most to the least significant, so that
/// the derived total order is the chronological one that
/// [`Time::precedes`] defines. The order is meaningful for values that a
/// completed read returned.
#[derive(Debug, PartialEq, Eq, Ord, Clone, Copy, Structural)]
pub struct Time {
    /// The century as the device reported it, or zero without a century register.
    pub century: u8,
    /// The full year.
    pub year: u16,
    pub month: u8,
    pub day: u8,
    /// The hour on a 24-hour clock.
    pub hour: u8,
    pub minute: u8,
    pub second: u8,
}

impl Time {
    /// Whether `self` comes strictly before `other`: the lexicographic order on
    /// (century, year, month, day, hour, minute, second).
    pub open spec fn precedes(self, other: Time) -> bool {
        if self.century != other.century {
            self.century < other.century
        } else if self.year != other.year {
            self.year < other.year
        } else if self.month != other.month {
            self.month < other.month
        } else if self.day != other.day {
            self.day < other.day
        } else if self.hour != other.hour {
            self.hour < other.hour
        } else if self.minute != other.minute {
            self.minute < other.minute
        } else {
            self.second < other.second
        }
    }

    /// How `self` stands to `other` in the order of [`Time::precedes`].
    pub open spec fn ordering(self, other: Time) -> Ordering {
        if self.precedes(other) {
            Ordering::Less
        } else if other.precedes(self) {
            Ordering::Greater
        } else {
            Ordering::Equal
        }
    }

    /// Compares two times chronologically.
    pub fn cmp(&self, other: &Time) -> (r: Ordering)
        ensures
            r == self.ordering(*other),
            (r == Ordering::Less) <==> self.precedes(*other),
            (r == Ordering::Equal) <==> *self == *other,
            (r == Ordering::Greater) <==> other.precedes(*self),
    {
        if self.century != other.century {
            Self::by_field(self.century < other.century)
        } else if self.year != other.year {
            Self::by_field(self.year < other.year)
        } else if self.month != other.month {
            Self::by_field(self.month < other.month)
        } else if self.day != other.day {
            Self::by_field(self.day < other.day)
        } else if self.hour != other.hour {
            Self::by_field(self.hour < other.hour)
        } else if self.minute != other.minute {
            Self::by_field(self.minute < other.minute)
        } else if self.second != other.second {
            Self::by_field(self.second < other.second)
        } else {
            Ordering::Equal
        }
    }

    /// The verdict of the first field in which two times differ.
    fn by_field(smaller: bool) -> (r: Ordering)
        ensures
            r == (if smaller {
                Ordering::Less
            } else {
                Ordering::Greater
            }),
    {
        if smaller {
            Ordering::Less
        } else {
            Ordering::Greater
        }
    }

    /// Of two times exactly one holds: the first precedes the second, they are
    /// equal, or the second precedes the first.
    pub proof fn lemma_trichotomy(a: Time, b: Time)
        ensures
            a.precedes(b) || a == b || b.precedes(a),
            !(a.precedes(b) && a == b),
            !(a.precedes(b) && b.precedes(a)),
            !(a == b && b.precedes(a)),
            (a.ordering(b) == Ordering::Less) <==> a.precedes(b),
            (a.ordering(b) == Ordering::Equal) <==> a == b,
            (a.ordering(b) == Ordering::Greater) <==> b.precedes(a),
    {
    }

    /// The order is transitive.
    pub proof fn lemma_precedes_transitive(a: Time, b: Time, c: Time)
        requires
            a.precedes(b),
            b.precedes(c),
        ensures
            a.precedes(c),
    {
    }

    /// Swapping the arguments reverses the verdict.
    pub proof fn lemma_ordering_antisymmetric(a: Time, b: Time)
        ensures
            a.ordering(b) == Ordering::Less <==> b.ordering(a) == Ordering::Greater,
            a.ordering(b) == Ordering::Equal <==> b.ordering(a) == Ordering::Equal,
    {
    }
}

impl PartialOrd for Time {
    fn partial_cmp(&self, other: &Time) -> (r: Option<Ordering>) {
        Some(self.cmp(other))
    }
}

impl vstd::std_specs::cmp::PartialOrdSpecImpl for Time {
    open spec fn obeys_partial_cmp_spec() -> bool {
        true
    }

    open spec fn partial_cmp_spec(&self, other: &Time) -> Option<Ordering> {
        Some(self.ordering(*other))
    }
}

impl Default for Time {
    /// Midnight on the first instant of the order: every field zero.
    fn default() -> (t: Time)
        ensures
            t == (Time { century: 0, year: 0, month: 0, day: 0, hour: 0, minute: 0, second: 0 }),
    {
        Time { century: 0, year: 0, month: 0, day: 0, hour: 0, minute: 0, second: 0 }
    }
}

} // verus!
