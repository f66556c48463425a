use vstd::prelude::*;
use chrono::Timelike;
use crate::text::{digit, digit_char, push_char};

verus! {

/// `n` written with exactly two decimal digits (`n` below one hundred).
pub open spec fn two_digits(n: u32) -> Seq<char> {
    seq![digit_char((n / 10) as int), digit_char((n % 10) as int)]
}

/// The clock text `HH:MM` of a time of day, as strftime's `%H:%M` writes it.
pub open spec fn clock_text_of(hour: u32, minute: u32) -> Seq<char> {
    two_digits(hour) + seq![':'] + two_digits(minute)
}

/// The hour and minute of the current local time.
///
/// Trusted: calls `chrono::Local::now` and reads its `hour` and `minute`
/// (chrono's `Timelike`), which chrono documents as lying in 0..=23 and
/// 0..=59. Which time comes back depends on the clock and the time zone,
/// so nothing more is stated.
#[verifier::external_body]
fn local_hour_minute() -> (t: (u32, u32))
    ensures
        t.0 < 24,
        t.1 < 60,
{
    let now = chrono::Local::now();
    (now.hour(), now.minute())
}

/// Appends `n` as two decimal digits.
fn push_two_digits(s: &mut String, n: u32)
    requires
        n < 100,
    ensures
        final(s)@ == old(s)@ + two_digits(n),
{
    push_char(s, digit(n / 10));
    push_char(s, digit(n % 10));
}

/// The clock text `HH:MM` for a time of day.
pub fn clock_text(hour: u32, minute: u32) -> (t: String)
    requires
        hour < 24,
        minute < 60,
    ensures
        t@ == clock_text_of(hour, minute),
{
    let mut t = String::new();
    push_two_digits(&mut t, hour);
    push_char(&mut t, ':');
    push_two_digits(&mut t, minute);
    t
}

/// The current local time as `HH:MM`.
pub fn current() -> (t: String)
    ensures
        exists|hour: u32, minute: u32|
            hour < 24 && minute < 60 && t@ == #[trigger] clock_text_of(hour, minute),
{
    let (hour, minute) = local_hour_minute();
    clock_text(hour, minute)
}

/// The clock text is always five characters: two digits, a colon, two
/// digits; the first two read back as the hour, the last two as the minute.
pub proof fn lemma_clock_text_shape(hour: u32, minute: u32)
    requires
        hour < 24,
        minute < 60,
    ensures
        clock_text_of(hour, minute).len() == 5,
        clock_text_of(hour, minute)[2] == ':',
        forall|i: int|
            0 <= i < 5 && i != 2 ==> 48 <= (#[trigger] clock_text_of(hour, minute)[i] as u32) <= 57,
        ((clock_text_of(hour, minute)[0] as u32) - 48) * 10 + ((clock_text_of(hour, minute)[1] as u32)
            - 48) == hour,
        ((clock_text_of(hour, minute)[3] as u32) - 48) * 10 + ((clock_text_of(hour, minute)[4] as u32)
            - 48) == minute,
{
    let t = clock_text_of(hour, minute);
    assert(t[0] == digit_char((hour / 10) as int));
    assert(t[1] == digit_char((hour % 10) as int));
    assert(t[3] == digit_char((minute / 10) as int));
    assert(t[4] == digit_char((minute % 10) as int));
}

} // verus!
