//! Which form a relative date takes, by its distance in calendar days.

use vstd::prelude::*;

verus! {

/// The form of a relative date.
#[derive(Debug, Clone, Copy, PartialEq, Eq, Structural)]
pub enum RelativeDateKind {
    /// Same day: the locale's time.
    Time,
    /// One day ago: "Yesterday".
    Yesterday,
    /// Two to six days ago, and any future day: the short weekday.
    Weekday,
    /// A week or more ago: the short month and the day.
    MonthDay,
}

/// The form for a date `diff_days` calendar days before today.
pub open spec fn relative_kind_spec(diff_days: i64) -> RelativeDateKind {
    if diff_days == 0 {
        RelativeDateKind::Time
    } else if diff_days == 1 {
        RelativeDateKind::Yesterday
    } else if diff_days < 7 {
        RelativeDateKind::Weekday
    } else {
        RelativeDateKind::MonthDay
    }
}

/// The form for a date `diff_days` calendar days before today.
pub fn relative_date_kind(diff_days: i64) -> (res: RelativeDateKind)
    ensures
        res == relative_kind_spec(diff_days),
{
    if diff_days == 0 {
        RelativeDateKind::Time
    } else if diff_days == 1 {
        RelativeDateKind::Yesterday
    } else if diff_days < 7 {
        RelativeDateKind::Weekday
    } else {
        RelativeDateKind::MonthDay
    }
}

/// Law: older dates never take a more detailed form: the forms go Time,
/// Yesterday, Weekday, MonthDay as the distance grows from 0.
pub proof fn law_forms_by_distance(a: i64, b: i64)
    requires
        0 <= a <= b,
    ensures
        relative_kind_spec(b) == RelativeDateKind::Time ==> relative_kind_spec(a) == RelativeDateKind::Time,
        relative_kind_spec(a) == RelativeDateKind::MonthDay ==> relative_kind_spec(b) == RelativeDateKind::MonthDay,
{
}

/// Law: each form belongs to exactly its distances: the same day shows
/// the time, exactly one day before today shows "Yesterday", two to six
/// days before (and any future day) the weekday, and a week or more before
/// the month and day.
pub proof fn law_form_of_each_distance(diff_days: i64)
    ensures
        (relative_kind_spec(diff_days) == RelativeDateKind::Time) == (diff_days == 0),
        (relative_kind_spec(diff_days) == RelativeDateKind::Yesterday) == (diff_days == 1),
        (relative_kind_spec(diff_days) == RelativeDateKind::Weekday) == (diff_days < 0 || (2 <= diff_days
            && diff_days <= 6)),
        (relative_kind_spec(diff_days) == RelativeDateKind::MonthDay) == (diff_days >= 7),
{
}

} // verus!
