//! The booking and channel forms of an asset: which entries are refused and with what
//! message, and how many of the coming days are booked.

use vstd::prelude::*;
use crate::dates::{parse_ymd, parsed_ymd};
use crate::numbers::{parse_u32, parse_unsigned_spec};
use crate::text::{blank, chars_of, is_blank, string_of, trim_chars, trim_spec};

verus! {

/// Why a booking form is refused.
#[derive(Clone, Copy, Debug, PartialEq, Eq, Structural)]
pub enum BookingFormError {
    MissingFields,
    InvalidStartDate,
    InvalidEndDate,
    EndNotAfterStart,
    InvalidRate,
}

/// The outcome of the booking form: the first and last day of the stay, or why it is
/// refused. Fields are checked in order: all filled in, start date, end date, end after
/// start, nightly rate. A stay starts at 15:00 on its first day and ends at 10:00 on its
/// last, so it ends after it starts exactly when the last day follows the first.
pub open spec fn booking_form_spec(guest: Seq<char>, start: Seq<char>, end: Seq<char>, rate_is_number: bool) -> Result<(i32, i32), BookingFormError> {
    if blank(guest) || blank(start) || blank(end) {
        Err(BookingFormError::MissingFields)
    } else if parsed_ymd(start) is None {
        Err(BookingFormError::InvalidStartDate)
    } else if parsed_ymd(end) is None {
        Err(BookingFormError::InvalidEndDate)
    } else if parsed_ymd(end).unwrap() <= parsed_ymd(start).unwrap() {
        Err(BookingFormError::EndNotAfterStart)
    } else if !rate_is_number {
        Err(BookingFormError::InvalidRate)
    } else {
        Ok((parsed_ymd(start).unwrap(), parsed_ymd(end).unwrap()))
    }
}

/// What the booking form's dates and rate give once both dates were read (`None` for a date
/// that did not read): the first and last day, or the first refusal in the form's order.
pub open spec fn booking_dates_spec(start: Option<i32>, end: Option<i32>, rate_is_number: bool) -> Result<(i32, i32), BookingFormError> {
    match (start, end) {
        (None, _) => Err(BookingFormError::InvalidStartDate),
        (Some(_), None) => Err(BookingFormError::InvalidEndDate),
        (Some(first), Some(last)) => if last <= first {
            Err(BookingFormError::EndNotAfterStart)
        } else if !rate_is_number {
            Err(BookingFormError::InvalidRate)
        } else {
            Ok((first, last))
        },
    }
}

/// Checks the booking form's dates, as day numbers read from its date fields, and whether
/// its nightly rate read as a number.
pub fn check_booking_dates(start: Option<i32>, end: Option<i32>, rate_is_number: bool) -> (r: Result<(i32, i32), BookingFormError>)
    ensures
        r == booking_dates_spec(start, end, rate_is_number),
{
    let first = match start {
        Some(d) => d,
        None => return Err(BookingFormError::InvalidStartDate),
    };
    let last = match end {
        Some(d) => d,
        None => return Err(BookingFormError::InvalidEndDate),
    };
    if last <= first {
        return Err(BookingFormError::EndNotAfterStart);
    }
    if !rate_is_number {
        return Err(BookingFormError::InvalidRate);
    }
    Ok((first, last))
}

/// Checks the booking form: guest name, start and end dates as typed (`YYYY-MM-DD`), and
/// whether the nightly rate read as a number.
pub fn validate_booking_form(guest: &str, start: &str, end: &str, rate_is_number: bool) -> (r: Result<(i32, i32), BookingFormError>)
    ensures
        r == booking_form_spec(guest@, start@, end@, rate_is_number),
{
    if is_blank(guest) || is_blank(start) || is_blank(end) {
        return Err(BookingFormError::MissingFields);
    }
    check_booking_dates(parse_ymd(start), parse_ymd(end), rate_is_number)
}

/// The message that a refused booking form shows.
pub open spec fn booking_error_text(e: BookingFormError) -> Seq<char> {
    match e {
        BookingFormError::MissingFields => "All fields are required"@,
        BookingFormError::InvalidStartDate => "Invalid start date (YYYY-MM-DD)"@,
        BookingFormError::InvalidEndDate => "Invalid end date (YYYY-MM-DD)"@,
        BookingFormError::EndNotAfterStart => "End date must be after start date"@,
        BookingFormError::InvalidRate => "Invalid nightly rate"@,
    }
}

/// The message that a refused booking form shows.
pub fn booking_error_message(e: BookingFormError) -> (s: &'static str)
    ensures
        s@ == booking_error_text(e),
{
    match e {
        BookingFormError::MissingFields => "All fields are required",
        BookingFormError::InvalidStartDate => "Invalid start date (YYYY-MM-DD)",
        BookingFormError::InvalidEndDate => "Invalid end date (YYYY-MM-DD)",
        BookingFormError::EndNotAfterStart => "End date must be after start date",
        BookingFormError::InvalidRate => "Invalid nightly rate",
    }
}

/// The warning shown when a new booking overlaps others, if it does.
pub fn overlap_warning(overlapping: usize) -> (w: Option<&'static str>)
    ensures
        overlapping > 0 ==> (w matches Some(s) && s@ == "Warning: this booking overlaps an existing reservation."@),
        overlapping == 0 ==> w is None,
{
    if overlapping > 0 {
        Some("Warning: this booking overlaps an existing reservation.")
    } else {
        None
    }
}

/// How a decimal field of the channel form read: left empty, a number of at least zero, a
/// negative number, or not a number.
#[derive(Clone, Copy, Debug, PartialEq, Eq, Structural)]
pub enum NumberEntry {
    Empty,
    NonNegative,
    Negative,
    Invalid,
}

/// Why the channel form is refused.
#[derive(Clone, Copy, Debug, PartialEq, Eq, Structural)]
pub enum ChannelFormError {
    NegativeRate,
    InvalidRate,
    NegativeCommission,
    InvalidCommission,
    InvalidMinimumNights,
    InvalidMaximumNights,
    MinimumExceedsMaximum,
}

/// A night-count field: nothing when blank, otherwise its trimmed text read as a `u32`.
pub open spec fn nights_field(s: Seq<char>) -> Option<Option<u32>> {
    if blank(s) {
        Some(None)
    } else {
        match parse_unsigned_spec(trim_spec(s), u32::MAX as nat) {
            Some(n) => Some(Some(n as u32)),
            None => None,
        }
    }
}

/// The outcome of the channel form: the minimum and maximum stay, or why it is refused.
/// Fields are checked in order: nightly rate, commission, minimum nights, maximum nights,
/// and then that the minimum does not exceed the maximum.
pub open spec fn channel_form_spec(rate: NumberEntry, commission: NumberEntry, min_text: Seq<char>, max_text: Seq<char>) -> Result<(Option<u32>, Option<u32>), ChannelFormError> {
    if rate == NumberEntry::Negative {
        Err(ChannelFormError::NegativeRate)
    } else if rate == NumberEntry::Invalid {
        Err(ChannelFormError::InvalidRate)
    } else if commission == NumberEntry::Negative {
        Err(ChannelFormError::NegativeCommission)
    } else if commission == NumberEntry::Invalid {
        Err(ChannelFormError::InvalidCommission)
    } else if nights_field(min_text) is None {
        Err(ChannelFormError::InvalidMinimumNights)
    } else if nights_field(max_text) is None {
        Err(ChannelFormError::InvalidMaximumNights)
    } else {
        let min = nights_field(min_text).unwrap();
        let max = nights_field(max_text).unwrap();
        if min is Some && max is Some && min.unwrap() > max.unwrap() {
            Err(ChannelFormError::MinimumExceedsMaximum)
        } else {
            Ok((min, max))
        }
    }
}

fn read_nights(s: &str) -> (r: Option<Option<u32>>)
    ensures
        r == nights_field(s@),
{
    if is_blank(s) {
        return Some(None);
    }
    let t = string_of(&trim_chars(&chars_of(s)));
    match parse_u32(t.as_str()) {
        Some(n) => Some(Some(n)),
        None => None,
    }
}

/// Checks the channel form, given how its rate and commission fields read and the text of
/// its night limits.
pub fn validate_channel_form(rate: NumberEntry, commission: NumberEntry, min_text: &str, max_text: &str) -> (r: Result<(Option<u32>, Option<u32>), ChannelFormError>)
    ensures
        r == channel_form_spec(rate, commission, min_text@, max_text@),
{
    match rate {
        NumberEntry::Negative => return Err(ChannelFormError::NegativeRate),
        NumberEntry::Invalid => return Err(ChannelFormError::InvalidRate),
        _ => {},
    }
    match commission {
        NumberEntry::Negative => return Err(ChannelFormError::NegativeCommission),
        NumberEntry::Invalid => return Err(ChannelFormError::InvalidCommission),
        _ => {},
    }
    let min = match read_nights(min_text) {
        Some(m) => m,
        None => return Err(ChannelFormError::InvalidMinimumNights),
    };
    let max = match read_nights(max_text) {
        Some(m) => m,
        None => return Err(ChannelFormError::InvalidMaximumNights),
    };
    match (min, max) {
        (Some(a), Some(b)) => {
            if a > b {
                return Err(ChannelFormError::MinimumExceedsMaximum);
            }
        },
        _ => {},
    }
    Ok((min, max))
}

/// The message that a refused channel form shows.
pub open spec fn channel_error_text(e: ChannelFormError) -> Seq<char> {
    match e {
        ChannelFormError::NegativeRate => "Nightly rate must be positive"@,
        ChannelFormError::InvalidRate => "Invalid nightly rate"@,
        ChannelFormError::NegativeCommission => "Commission must be positive"@,
        ChannelFormError::InvalidCommission => "Invalid commission"@,
        ChannelFormError::InvalidMinimumNights => "Invalid minimum nights"@,
        ChannelFormError::InvalidMaximumNights => "Invalid maximum nights"@,
        ChannelFormError::MinimumExceedsMaximum => "Minimum nights cannot exceed maximum nights"@,
    }
}

/// The message that a refused channel form shows.
pub fn channel_error_message(e: ChannelFormError) -> (s: &'static str)
    ensures
        s@ == channel_error_text(e),
{
    match e {
        ChannelFormError::NegativeRate => "Nightly rate must be positive",
        ChannelFormError::InvalidRate => "Invalid nightly rate",
        ChannelFormError::NegativeCommission => "Commission must be positive",
        ChannelFormError::InvalidCommission => "Invalid commission",
        ChannelFormError::InvalidMinimumNights => "Invalid minimum nights",
        ChannelFormError::InvalidMaximumNights => "Invalid maximum nights",
        ChannelFormError::MinimumExceedsMaximum => "Minimum nights cannot exceed maximum nights",
    }
}

/// Microseconds in a day.
pub const MICROS_PER_DAY: i64 = 86_400_000_000;

/// The day number (days since the start of the common era) of the Unix epoch, 1970-01-01.
pub const EPOCH_DAY: i64 = 719_163;

/// A point in time as the booking statistics read it: microseconds since the Unix epoch,
/// and the number of its calendar day (UTC).

#[derive(Clone, Copy, Debug, PartialEq, Eq, Structural)]
pub struct Moment {
    pub stamp: i64,
    pub day: i64,
}

/// A booking as the statistics read it.
#[derive(Clone, Copy, Debug, PartialEq, Eq, Structural)]
pub struct BookingSpan {
    pub start: Moment,
    pub end: Moment,
    pub cancelled: bool,
}

/// Whether a moment's day is the UTC calendar day of its timestamp.
pub open spec fn consistent(m: Moment) -> bool {
    m.day == (m.stamp as int) / (MICROS_PER_DAY as int) + EPOCH_DAY
}

proof fn lemma_day_monotone(a: Moment, b: Moment)
    requires
        consistent(a),
        consistent(b),
        a.stamp <= b.stamp,
    ensures
        a.day <= b.day,
{
    let d = MICROS_PER_DAY as int;
    let x = a.stamp as int;
    let y = b.stamp as int;
    assert(x / d <= y / d) by (nonlinear_arith)
        requires
            x <= y,
            d > 0,
    ;
}

/// The later of two moments (the second when they are equal).
pub open spec fn later(a: Moment, b: Moment) -> Moment {
    if a.stamp > b.stamp {
        a
    } else {
        b
    }
}

/// The earlier of two moments (the second when they are equal).
pub open spec fn earlier(a: Moment, b: Moment) -> Moment {
    if a.stamp < b.stamp {
        a
    } else {
        b
    }
}

/// The days that a booking holds within the window from `now` to `window_end`: the
/// difference of the calendar days of its clipped start and end, or none when the clipped
/// span is empty or the booking is cancelled.
pub open spec fn booked_in_window(b: BookingSpan, now: Moment, window_end: Moment) -> int {
    let s = later(b.start, now);
    let e = earlier(b.end, window_end);
    if b.cancelled || e.stamp <= s.stamp {
        0
    } else {
        e.day - s.day
    }
}

/// The days booked within the window, over all bookings.
pub open spec fn booked_days_spec(bookings: Seq<BookingSpan>, now: Moment, window_end: Moment) -> int
    decreases bookings.len(),
{
    if bookings.len() == 0 {
        0
    } else {
        booked_days_spec(bookings.drop_last(), now, window_end) + booked_in_window(
            bookings.last(),
            now,
            window_end,
        )
    }
}

proof fn lemma_booked_prefix_bounded(bookings: Seq<BookingSpan>, n: int, now: Moment, window_end: Moment)
    requires
        0 <= n <= bookings.len(),
        consistent(now),
        consistent(window_end),
        forall|k: int|
            0 <= k < bookings.len() ==> consistent(#[trigger] bookings[k].start) && consistent(
                bookings[k].end,
            ),
    ensures
        booked_days_spec(bookings.take(n), now, window_end) <= booked_days_spec(bookings, now, window_end),
    decreases bookings.len() - n,
{
    if n < bookings.len() {
        let m = bookings.len() - 1;
        assert(bookings.drop_last() =~= bookings.take(m));
        let b = bookings.last();
        assert(consistent(bookings[m].start));
        let s = later(b.start, now);
        let e = earlier(b.end, window_end);
        if e.stamp > s.stamp {
            lemma_day_monotone(s, e);
        }
        lemma_booked_prefix_bounded(bookings.drop_last(), n, now, window_end);
        assert(bookings.drop_last().take(n) =~= bookings.take(n));
    } else {
        assert(bookings.take(n) =~= bookings);
    }
}

/// The number of days booked in the year ahead (`window_end` is a year after `now`), and the
/// number of the 365 days left unbooked (none when bookings fill them).
pub fn booked_and_unbooked_days(bookings: &Vec<BookingSpan>, now: Moment, window_end: Moment) -> (r: (u32, u32))
    requires
        consistent(now),
        consistent(window_end),
        now.stamp <= window_end.stamp,
        window_end.day - now.day <= 366,
        forall|k: int|
            0 <= k < bookings.len() ==> consistent(#[trigger] bookings@[k].start) && consistent(
                bookings@[k].end,
            ),
        booked_days_spec(bookings@, now, window_end) <= u32::MAX,
    ensures
        r.0 == booked_days_spec(bookings@, now, window_end),
        r.1 == if r.0 >= 365 { 0 } else { 365 - r.0 },
{
    let mut total: u64 = 0;
    let mut i: usize = 0;
    assert(bookings@.take(0) =~= Seq::<BookingSpan>::empty());
    while i < bookings.len()
        invariant
            0 <= i <= bookings.len(),
            consistent(now),
            consistent(window_end),
            now.stamp <= window_end.stamp,
            window_end.day - now.day <= 366,
            forall|k: int|
                0 <= k < bookings.len() ==> consistent(#[trigger] bookings@[k].start) && consistent(
                    bookings@[k].end,
                ),
            total == booked_days_spec(bookings@.take(i as int), now, window_end),
            booked_days_spec(bookings@, now, window_end) <= u32::MAX,
            total <= u32::MAX,
        decreases bookings.len() - i,
    {
        let b = bookings[i];
        assert(bookings@.take(i + 1).drop_last() =~= bookings@.take(i as int));
        let s = if b.start.stamp > now.stamp { b.start } else { now };
        let e = if b.end.stamp < window_end.stamp { b.end } else { window_end };
        proof {
            lemma_booked_prefix_bounded(bookings@, i + 1, now, window_end);
            assert(consistent(bookings@[i as int].start) && consistent(bookings@[i as int].end));
        }
        if !b.cancelled && e.stamp > s.stamp {
            proof {
                lemma_day_monotone(s, e);
                lemma_day_monotone(now, s);
                lemma_day_monotone(e, window_end);
            }
            total = total + (e.day - s.day) as u64;
        }
        i = i + 1;
    }
    assert(bookings@.take(bookings.len() as int) =~= bookings@);
    let booked = total as u32;
    let unbooked = if booked >= 365 { 0 } else { 365 - booked };
    (booked, unbooked)
}


/// Microseconds in an hour.
pub const MICROS_PER_HOUR: i64 = 3_600_000_000;

/// The hour (UTC) at which a stay starts on its first day.
pub const CHECK_IN_HOUR: i64 = 15;

/// The hour (UTC) at which a stay ends on its last day.
pub const CHECK_OUT_HOUR: i64 = 10;

/// The moment at `hour` o'clock (UTC) on day `day` (days since the start of the common era).
pub open spec fn moment_at(day: int, hour: int) -> Moment {
    Moment {
        stamp: ((day - EPOCH_DAY) * MICROS_PER_DAY + hour * MICROS_PER_HOUR) as i64,
        day: day as i64,
    }
}

/// When a stay from day `first` to day `last` starts and ends: at check-in time on its first
/// day, and at check-out time on its last. Day numbers are those of chrono's calendar, which
/// keeps them within some hundred million days of the epoch.
pub fn stay_moments(first: i32, last: i32) -> (r: (Moment, Moment))
    requires
        -100_000_000 <= first - EPOCH_DAY <= 100_000_000,
        -100_000_000 <= last - EPOCH_DAY <= 100_000_000,
    ensures
        r.0 == moment_at(first as int, CHECK_IN_HOUR as int),
        r.1 == moment_at(last as int, CHECK_OUT_HOUR as int),
        consistent(r.0),
        consistent(r.1),
        r.0.stamp < r.1.stamp <==> first < last,
{
    let f: i64 = first as i64 - EPOCH_DAY;
    let l: i64 = last as i64 - EPOCH_DAY;
    assert(-100_000_000 * 86_400_000_000 <= f * 86_400_000_000 <= 100_000_000 * 86_400_000_000) by (nonlinear_arith)
        requires
            -100_000_000 <= f <= 100_000_000,
    ;
    assert(-100_000_000 * 86_400_000_000 <= l * 86_400_000_000 <= 100_000_000 * 86_400_000_000) by (nonlinear_arith)
        requires
            -100_000_000 <= l <= 100_000_000,
    ;
    let start: i64 = f * MICROS_PER_DAY + CHECK_IN_HOUR * MICROS_PER_HOUR;
    let end: i64 = l * MICROS_PER_DAY + CHECK_OUT_HOUR * MICROS_PER_HOUR;
    proof {
        lemma_day_of_hour(f as int, 15);
        lemma_day_of_hour(l as int, 10);
        if first < last {
            assert(f * 86_400_000_000 + 86_400_000_000 <= l * 86_400_000_000) by (nonlinear_arith)
                requires
                    f < l,
            ;
        } else {
            assert(l * 86_400_000_000 <= f * 86_400_000_000) by (nonlinear_arith)
                requires
                    l <= f,
            ;
        }
    }
    (Moment { stamp: start, day: first as i64 }, Moment { stamp: end, day: last as i64 })
}

proof fn lemma_day_of_hour(k: int, h: int)
    requires
        0 <= h < 24,
    ensures
        (k * 86_400_000_000 + h * 3_600_000_000) / 86_400_000_000 == k,
{
    assert((k * 86_400_000_000 + h * 3_600_000_000) / 86_400_000_000 == k) by (nonlinear_arith)
        requires
            0 <= h < 24,
    ;
}

} // verus!
