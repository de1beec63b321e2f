use std::cmp::Ordering;
use vstd::prelude::*;
use vstd::std_specs::cmp::PartialOrdSpecImpl;

verus! {

/// The calendar day on which an account was registered.
///
/// Dates are ordered by year, then month, then day. No calendar rule is
/// enforced: any three numbers form a date.
#[derive(Clone, Copy, Debug, PartialEq, Eq, Structural)]
pub struct RegDate {
    pub year: u16,
    pub month: u8,
    pub day: u8,
}

impl RegDate {
    /// The date with the given year, month and day.
    pub fn new(year: u16, month: u8, day: u8) -> (date: Self)
        ensures
            date == (RegDate { year, month, day }),
    {
        RegDate { year, month, day }
    }

    /// `self` lies strictly before `other`: an earlier year, or the same year
    /// and an earlier month, or the same year and month and an earlier day.
    pub open spec fn is_before(self, other: RegDate) -> bool {
        self.year < other.year || (self.year == other.year && (self.month < other.month || (
        self.month == other.month && self.day < other.day)))
    }

    /// `self` is `other` or lies after it.
    pub open spec fn is_on_or_after(self, other: RegDate) -> bool {
        !self.is_before(other)
    }

    /// How `self` stands to `other` in the order of dates.
    pub open spec fn order(self, other: RegDate) -> Ordering {
        if self.is_before(other) {
            Ordering::Less
        } else if other.is_before(self) {
            Ordering::Greater
        } else {
            Ordering::Equal
        }
    }
}

impl PartialOrdSpecImpl for RegDate {
    open spec fn obeys_partial_cmp_spec() -> bool {
        true
    }

    open spec fn partial_cmp_spec(&self, other: &RegDate) -> Option<Ordering> {
        Some(self.order(*other))
    }
}

impl PartialOrd for RegDate {
    fn partial_cmp(&self, other: &RegDate) -> (r: Option<Ordering>) {
        if self.year > other.year {
            Some(Ordering::Greater)
        } else if self.year < other.year {
            Some(Ordering::Less)
        } else if self.month > other.month {
            Some(Ordering::Greater)
        } else if self.month < other.month {
            Some(Ordering::Less)
        } else if self.day > other.day {
            Some(Ordering::Greater)
        } else if self.day < other.day {
            Some(Ordering::Less)
        } else {
            Some(Ordering::Equal)
        }
    }
}

impl Default for RegDate {
    /// The first of October 2020.
    fn default() -> (date: Self)
        ensures
            date == (RegDate { year: 2020, month: 10, day: 1 }),
    {
        RegDate { year: 2020, month: 10, day: 1 }
    }
}

/// The order of dates is total: of two different dates exactly one lies
/// before the other, and no date lies before itself.
pub proof fn lemma_order_total(a: RegDate, b: RegDate)
    ensures
        a == b <==> a.order(b) == Ordering::Equal,
        a.is_before(b) ==> !b.is_before(a),
        a.order(b) == Ordering::Less <==> b.order(a) == Ordering::Greater,
{
}

/// The order of dates is transitive.
pub proof fn lemma_order_transitive(a: RegDate, b: RegDate, c: RegDate)
    requires
        a.is_before(b),
        b.is_before(c),
    ensures
        a.is_before(c),
{
}

} // verus!
