//! Daily operation: whether a DCA plan is due on a date given as text.

use vstd::prelude::*;
use crate::dca::{
    date_of, due_status, iso_format, parse_date, parsed_date, today_local, valid_date, CalendarDate,
    DcaPlanTerms,
};

verus! {

/// Whether the plan invests on the date given as `%Y-%m-%d` text
/// (`今日应投` or `未到日期`). Text that does not parse stands for today's
/// local date.
pub fn check_is_due(plan: &DcaPlanTerms, date_str: &str) -> (r: String)
    ensures
        match parsed_date(date_str@, iso_format()) {
            Some(t) => r@ == due_status(plan@, date_of(t)),
            None => exists|d: CalendarDate| valid_date(d) && r@ == due_status(plan@, d),
        },
{
    let date = match parse_date(date_str, "%Y-%m-%d") {
        Some(d) => d,
        None => today_local(),
    };
    crate::dca::check_is_due(plan, &date)
}

} // verus!
