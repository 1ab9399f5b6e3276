//! A month and a day of the month in one number.

use vstd::prelude::*;

verus! {

/// Month and day of month, packed as `(month << 9) | (day << 4)`.
#[derive(Clone, Copy, Debug, PartialEq, PartialOrd)]
pub struct MonthDay(pub u32);

/// The month as it is stored: 0 in place of a number above 12.
pub open spec fn clamped_month(month: u32) -> u32 {
    if month > 12 {
        0
    } else {
        month
    }
}

/// The day as it is stored: 0 in place of a number above 31.
pub open spec fn clamped_day(day: u32) -> u32 {
    if day > 31 {
        0
    } else {
        day
    }
}

impl MonthDay {
    /// The month that the number holds.
    pub open spec fn spec_month(self) -> u32 {
        self.0 >> 9
    }

    /// The day that the number holds.
    pub open spec fn spec_day(self) -> u32 {
        (self.0 >> 4) & 0b1_1111
    }

    /// The month as it is stored.
    fn clamp_month(month: u32) -> (r: u32)
        ensures
            r == clamped_month(month),
    {
        if month > 12 {
            0
        } else {
            month
        }
    }

    /// The day as it is stored.
    fn clamp_day(day: u32) -> (r: u32)
        ensures
            r == clamped_day(day),
    {
        if day > 31 {
            0
        } else {
            day
        }
    }

    /// The month and the day in one number. A month above 12 and a day
    /// above 31 are stored as 0.
    pub fn new(month: u32, day: u32) -> (r: MonthDay)
        ensures
            r.0 == (clamped_month(month) << 9) | (clamped_day(day) << 4),
            r.spec_month() == clamped_month(month),
            r.spec_day() == clamped_day(day),
    {
        let month = MonthDay::clamp_month(month);
        let day = MonthDay::clamp_day(day);
        assert(((month << 9) | (day << 4)) >> 9 == month && (((month << 9) | (day << 4)) >> 4)
            & 0b1_1111 == day) by (bit_vector)
            requires
                month <= 12,
                day <= 31,
        ;
        MonthDay((month << 9) | (day << 4))
    }

    /// The month.
    pub fn month(&self) -> (r: u32)
        ensures
            r == self.spec_month(),
    {
        let MonthDay(mdf) = *self;
        mdf >> 9
    }

    /// This number with the month replaced. A month above 12 is stored as
    /// 0.
    pub fn with_month(&self, month: u32) -> (r: MonthDay)
        ensures
            r.0 == (self.0 & 0b1_1111_1111) | (clamped_month(month) << 9),
            r.spec_month() == clamped_month(month),
            r.spec_day() == self.spec_day(),
    {
        let month = MonthDay::clamp_month(month);
        let MonthDay(mdf) = *self;
        assert(((mdf & 0b1_1111_1111) | (month << 9)) >> 9 == month && (((mdf & 0b1_1111_1111) | (
        month << 9)) >> 4) & 0b1_1111 == (mdf >> 4) & 0b1_1111) by (bit_vector)
            requires
                month <= 12,
        ;
        MonthDay((mdf & 0b1_1111_1111) | (month << 9))
    }

    /// The day of the month.
    pub fn day(&self) -> (r: u32)
        ensures
            r == self.spec_day(),
    {
        let MonthDay(mdf) = *self;
        (mdf >> 4) & 0b1_1111
    }

    /// This number with the day replaced. A day above 31 is stored as 0.
    pub fn with_day(&self, day: u32) -> (r: MonthDay)
        ensures
            r.0 == (self.0 & !0b1_1111_0000u32) | (clamped_day(day) << 4),
            r.spec_day() == clamped_day(day),
            r.spec_month() == self.spec_month(),
    {
        let day = MonthDay::clamp_day(day);
        let MonthDay(mdf) = *self;
        assert((((mdf & !0b1_1111_0000u32) | (day << 4)) >> 4) & 0b1_1111 == day && ((mdf
            & !0b1_1111_0000u32) | (day << 4)) >> 9 == mdf >> 9) by (bit_vector)
            requires
                day <= 31,
        ;
        MonthDay((mdf & !0b1_1111_0000u32) | (day << 4))
    }
}

} // verus!
