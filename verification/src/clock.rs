//! The local wall clock.

use vstd::prelude::*;
use crate::dca::{valid_date, CalendarDate};
use crate::text::decimal;

verus! {

/// The clock formats the library uses: a date, a time of day, or both.
pub open spec fn clock_format(format: Seq<char>) -> bool {
    format == "%Y-%m-%d"@ || format == "%H:%M:%S"@ || format == "%Y-%m-%d %H:%M:%S"@
}

/// The decimal digits of `n`, zero-padded to at least `width` digits.
pub open spec fn zero_padded(n: nat, width: nat) -> Seq<char> {
    let d = decimal(n);
    if d.len() >= width {
        d
    } else {
        Seq::new((width - d.len()) as nat, |i: int| '0') + d
    }
}

/// A year as chrono's `%Y` writes it: zero-padded to 4 digits, with a sign
/// before years outside 0 to 9999.
pub open spec fn year_text(y: int) -> Seq<char> {
    if 0 <= y <= 9999 {
        zero_padded(y as nat, 4)
    } else if y > 0 {
        seq!['+'] + zero_padded(y as nat, 4)
    } else {
        seq!['-'] + zero_padded((-y) as nat, 4)
    }
}

/// A date as `%Y-%m-%d` writes it.
pub open spec fn date_text(d: CalendarDate) -> Seq<char> {
    year_text(d.year as int) + seq!['-'] + zero_padded(d.month as nat, 2) + seq!['-'] + zero_padded(d.day as nat, 2)
}

/// A time of day as `%H:%M:%S` writes it.
pub open spec fn time_text(h: nat, m: nat, s: nat) -> Seq<char> {
    zero_padded(h, 2) + seq![':'] + zero_padded(m, 2) + seq![':'] + zero_padded(s, 2)
}

/// A time of day: hour below 24, minute below 60, second up to 60 (a leap
/// second).
pub open spec fn valid_time(h: nat, m: nat, s: nat) -> bool {
    h < 24 && m < 60 && s <= 60
}

/// The text is a valid date written as `%Y-%m-%d`.
pub open spec fn is_date_text(t: Seq<char>) -> bool {
    exists|d: CalendarDate| valid_date(d) && t == #[trigger] date_text(d)
}

/// The text is a valid time of day written as `%H:%M:%S`.
pub open spec fn is_time_text(t: Seq<char>) -> bool {
    exists|h: nat, m: nat, s: nat| valid_time(h, m, s) && t == #[trigger] time_text(h, m, s)
}

/// The text is a valid date and time written as `%Y-%m-%d %H:%M:%S`.
pub open spec fn is_date_time_text(t: Seq<char>) -> bool {
    exists|d: CalendarDate, h: nat, m: nat, s: nat|
        valid_date(d) && valid_time(h, m, s) && t == #[trigger] date_text(d) + seq![' '] + #[trigger] time_text(h, m, s)
}

/// Calls `chrono::Local::now` and formats the local time with `format`.
/// Claimed: the text is some valid date and time of day written as chrono's
/// format table documents (`%Y` zero-padded to 4 digits, signed outside
/// years 0 to 9999; `%m`, `%d`, `%H`, `%M`, `%S` zero-padded to 2 digits).
/// Which date and time it is, is not stated: it is the machine's clock and
/// time zone. The formats admitted are ones chrono formats without error.
#[verifier::external_body]
pub(crate) fn local_now_text(format: &str) -> (r: String)
    requires
        clock_format(format@),
    ensures
        format@ == "%Y-%m-%d"@ ==> is_date_text(r@),
        format@ == "%H:%M:%S"@ ==> is_time_text(r@),
        format@ == "%Y-%m-%d %H:%M:%S"@ ==> is_date_time_text(r@),
{
    chrono::Local::now().format(format).to_string()
}

/// A date text has only digits and signs: `0` to `9`, `+` and `-`.
pub proof fn lemma_date_text_chars(d: CalendarDate)
    ensures
        forall|i: int|
            0 <= i < date_text(d).len() ==> ('0' <= #[trigger] date_text(d)[i] <= '9' || date_text(d)[i] == '-'
                || date_text(d)[i] == '+'),
{
    let y = d.year as int;
    let ya: nat = if y >= 0 { y as nat } else { (-y) as nat };
    crate::text::lemma_decimal_digits(ya);
    crate::text::lemma_decimal_digits(d.month as nat);
    crate::text::lemma_decimal_digits(d.day as nat);
    let t = date_text(d);
    assert forall|i: int| 0 <= i < t.len() implies ('0' <= #[trigger] t[i] <= '9' || t[i] == '-' || t[i] == '+') by {
        let yt = year_text(y);
        let mt = zero_padded(d.month as nat, 2);
        let dt = zero_padded(d.day as nat, 2);
        assert(t == yt + seq!['-'] + mt + seq!['-'] + dt);
        assert(forall|j: int| 0 <= j < zero_padded(ya, 4).len() ==> '0' <= #[trigger] zero_padded(ya, 4)[j] <= '9');
        assert(forall|j: int| 0 <= j < yt.len() ==> ('0' <= #[trigger] yt[j] <= '9' || yt[j] == '-' || yt[j] == '+'));
        assert(forall|j: int| 0 <= j < mt.len() ==> '0' <= #[trigger] mt[j] <= '9');
        assert(forall|j: int| 0 <= j < dt.len() ==> '0' <= #[trigger] dt[j] <= '9');
    }
}

} // verus!
