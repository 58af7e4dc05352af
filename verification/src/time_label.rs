//! The label of a clock button.

use crate::text;
use crate::text::same_str;
use vstd::prelude::*;
use vstd::string::*;

verus! {

/// The parts of a point in time that a clock shows, in the language of the
/// locale.
pub struct TimeFields {
    pub hour24: String,
    pub hour12: String,
    pub minute: String,
    pub half: String,
    pub weekday: String,
    pub day: String,
    pub month: String,
}

/// The label of a clock: hours to 24 where the format says so, else hours to
/// 12 with the half of the day; then weekday, day and month.
pub open spec fn clock_label(
    format: Seq<char>,
    hour24: Seq<char>,
    hour12: Seq<char>,
    minute: Seq<char>,
    half: Seq<char>,
    weekday: Seq<char>,
    day: Seq<char>,
    month: Seq<char>,
) -> Seq<char> {
    let date = "    "@ + weekday + " "@ + day + " "@ + month;
    if format == "24hr"@ {
        hour24 + ":"@ + minute + date
    } else {
        hour12 + ":"@ + minute + " "@ + half + date
    }
}

/// The label of a clock, from the parts that it shows.
pub fn assemble_label(format: &str, fields: &TimeFields) -> (r: String)
    ensures
        r@ == clock_label(
            format@,
            fields.hour24@,
            fields.hour12@,
            fields.minute@,
            fields.half@,
            fields.weekday@,
            fields.day@,
            fields.month@,
        ),
{
    let mut label: String;
    if same_str(format, "24hr") {
        label = fields.hour24.clone();
        label.append(":");
        label.append(fields.minute.as_str());
    } else {
        label = fields.hour12.clone();
        label.append(":");
        label.append(fields.minute.as_str());
        label.append(" ");
        label.append(fields.half.as_str());
    }
    label.append("    ");
    label.append(fields.weekday.as_str());
    label.append(" ");
    label.append(fields.day.as_str());
    label.append(" ");
    label.append(fields.month.as_str());
    proof {
        assert(label@ =~= clock_label(
            format@,
            fields.hour24@,
            fields.hour12@,
            fields.minute@,
            fields.half@,
            fields.weekday@,
            fields.day@,
            fields.month@,
        ));
    }
    label
}

/// The `chrono` crate knows a locale of this name.
pub uninterp spec fn is_locale(name: Seq<char>) -> bool;

/// Calls `chrono::Locale::try_from`. The locale `POSIX` is always known; which
/// others are is left to the name.
#[verifier::external_body]
fn locale_exists(name: &str) -> (r: bool)
    ensures
        r == is_locale(name@),
        name@ == "POSIX"@ ==> r,
{
    chrono::Locale::try_from(name).is_ok()
}

/// The patterns of the parts of a clock.
pub open spec fn is_clock_pattern(pattern: Seq<char>) -> bool {
    ||| pattern == "%H"@
    ||| pattern == "%-l"@
    ||| pattern == "%M"@
    ||| pattern == "%p"@
    ||| pattern == "%a"@
    ||| pattern == "%-e"@
    ||| pattern == "%b"@
}

/// The seconds since midnight where the clocks are `offset` seconds ahead of
/// UTC.
pub open spec fn second_of_day(secs: i64, offset: i32) -> int {
    (secs + offset) % 86_400
}

/// A number below 100 with two digits.
pub open spec fn two_digits(n: int) -> Seq<char> {
    seq![text::digit_char((n / 10) as nat), text::digit_char((n % 10) as nat)]
}

/// The hour to 12 that an hour to 24 is called.
pub open spec fn hour_to_12(hour: int) -> int {
    if hour % 12 == 0 {
        12
    } else {
        hour % 12
    }
}

/// The point in time lies between the beginning of the year -262143 and the
/// end of the year 262142 UTC, and the offset is less than a day.
pub open spec fn in_range(secs: i64, offset: i32) -> bool {
    -8_334_601_228_800 <= secs <= 8_210_266_876_799 && -86_400 < offset < 86_400
}

/// What the `chrono` crate writes for a pattern, at a point in time, where the
/// clocks are `offset` seconds ahead of UTC, in a locale.
pub uninterp spec fn formatted_time(
    secs: i64,
    offset: i32,
    locale: Seq<char>,
    pattern: Seq<char>,
) -> Option<Seq<char>>;

/// Calls `chrono::DateTime::format_localized` on the point in time that
/// `chrono::DateTime::from_timestamp` and `chrono::FixedOffset::east_opt`
/// give. There is a text exactly for known locales, points in time within the
/// range of `chrono::DateTime` and offsets of less than a day. Hours and
/// minutes are numbers of the local time: the hour to 24 and the minute with
/// two digits, the hour to 12 without padding. The day, the names of weekdays
/// and months and the halves of the day are left to the name.
#[verifier::external_body]
fn format_time(secs: i64, offset: i32, locale: &str, pattern: &str) -> (r: Option<String>)
    requires
        is_clock_pattern(pattern@),
    ensures
        text::opt_text(r) == formatted_time(secs, offset, locale@, pattern@),
        r is Some == (in_range(secs, offset) && is_locale(locale@)),
        r is Some && pattern@ == "%H"@ ==> r->0@ == two_digits(second_of_day(secs, offset) / 3600),
        r is Some && pattern@ == "%M"@ ==> r->0@ == two_digits(
            second_of_day(secs, offset) % 3600 / 60,
        ),
        r is Some && pattern@ == "%-l"@ ==> r->0@ == text::decimal(
            hour_to_12(second_of_day(secs, offset) / 3600) as nat,
        ),
{
    let known = chrono::Locale::try_from(locale).ok()?;
    let zone = chrono::FixedOffset::east_opt(offset)?;
    let time = chrono::DateTime::from_timestamp(secs, 0)?;
    Some(time.with_timezone(&zone).format_localized(pattern, known).to_string())
}

/// The locale that is used: the one given where it is known, else `POSIX`.
pub open spec fn effective_locale(locale: Seq<char>) -> Seq<char> {
    if is_locale(locale) {
        locale
    } else {
        "POSIX"@
    }
}

/// The label of a clock at a point in time.
pub open spec fn time_text(format: Seq<char>, locale: Seq<char>, secs: i64, offset: i32) -> Seq<
    char,
> {
    let l = effective_locale(locale);
    clock_label(
        format,
        formatted_time(secs, offset, l, "%H"@)->0,
        formatted_time(secs, offset, l, "%-l"@)->0,
        formatted_time(secs, offset, l, "%M"@)->0,
        formatted_time(secs, offset, l, "%p"@)->0,
        formatted_time(secs, offset, l, "%a"@)->0,
        formatted_time(secs, offset, l, "%-e"@)->0,
        formatted_time(secs, offset, l, "%b"@)->0,
    )
}

/// What the label of a clock begins with: hours and minutes of the local time.
pub open spec fn clock_head(format: Seq<char>, secs: i64, offset: i32) -> Seq<char> {
    let hour = second_of_day(secs, offset) / 3600;
    let minute = two_digits(second_of_day(secs, offset) % 3600 / 60);
    if format == "24hr"@ {
        two_digits(hour) + ":"@ + minute
    } else {
        text::decimal(hour_to_12(hour) as nat) + ":"@ + minute
    }
}

/// The label of a clock `secs` seconds after the beginning of 1970 UTC, where
/// the clocks are `offset` seconds ahead of UTC. There is one exactly for the
/// points in time and offsets in range.
pub fn time_label(format: &str, locale: &str, secs: i64, offset: i32) -> (r: Option<String>)
    ensures
        r is Some <==> in_range(secs, offset),
        r matches Some(label) ==> label@ == time_text(format@, locale@, secs, offset),
        r matches Some(label) ==> text::begins_with(label@, clock_head(format@, secs, offset)),
{
    let mut chosen = locale;
    if !locale_exists(locale) {
        chosen = "POSIX";
        if !locale_exists(chosen) {
            return None;
        }
    }
    let hour24 = format_time(secs, offset, chosen, "%H")?;
    let hour12 = format_time(secs, offset, chosen, "%-l")?;
    let minute = format_time(secs, offset, chosen, "%M")?;
    let half = format_time(secs, offset, chosen, "%p")?;
    let weekday = format_time(secs, offset, chosen, "%a")?;
    let day = format_time(secs, offset, chosen, "%-e")?;
    let month = format_time(secs, offset, chosen, "%b")?;
    let fields = TimeFields { hour24, hour12, minute, half, weekday, day, month };
    let label = assemble_label(format, &fields);
    proof {
        let head = clock_head(format@, secs, offset);
        assert(label@.subrange(0, head.len() as int) =~= head);
    }
    Some(label)
}

/// The label of a clock ends with the date: weekday, day and month, behind four
/// spaces. In front of that stands the time, by 24 hours where the format says
/// so, else by 12 with the half of the day.
pub proof fn labels_show_time_and_date(
    format: Seq<char>,
    hour24: Seq<char>,
    hour12: Seq<char>,
    minute: Seq<char>,
    half: Seq<char>,
    weekday: Seq<char>,
    day: Seq<char>,
    month: Seq<char>,
)
    ensures
        ({
            let label = clock_label(format, hour24, hour12, minute, half, weekday, day, month);
            let date = "    "@ + weekday + " "@ + day + " "@ + month;
            &&& text::ends_in(label, date)
            &&& format == "24hr"@ ==> text::begins_with(label, hour24 + ":"@ + minute)
                && label.len() == hour24.len() + 1 + minute.len() + date.len()
            &&& format != "24hr"@ ==> text::begins_with(
                label,
                hour12 + ":"@ + minute + " "@ + half,
            ) && label.len() == hour12.len() + 1 + minute.len() + 1 + half.len() + date.len()
        }),
{
    let label = clock_label(format, hour24, hour12, minute, half, weekday, day, month);
    let date = "    "@ + weekday + " "@ + day + " "@ + month;
    reveal_strlit(":");
    reveal_strlit(" ");
    if format == "24hr"@ {
        let time = hour24 + ":"@ + minute;
        text::parts_occur(time, date, Seq::empty());
        text::parts_occur(Seq::empty(), time, date);
        assert(label =~= time + date);
    } else {
        let time = hour12 + ":"@ + minute + " "@ + half;
        text::parts_occur(time, date, Seq::empty());
        text::parts_occur(Seq::empty(), time, date);
        assert(label =~= time + date);
    }
}

/// The parts of a label are those of its point in time, each by its pattern, in
/// the language of the locale, or in that of `POSIX` where it is not known.
pub proof fn labels_speak_the_language(format: Seq<char>, locale: Seq<char>, secs: i64, offset: i32)
    ensures
        ({
            let l = if is_locale(locale) {
                locale
            } else {
                "POSIX"@
            };
            let part = |pattern: Seq<char>| formatted_time(secs, offset, l, pattern)->0;
            let label = time_text(format, locale, secs, offset);
            let date = "    "@ + part("%a"@) + " "@ + part("%-e"@) + " "@ + part("%b"@);
            &&& text::ends_in(label, date)
            &&& format == "24hr"@ ==> label == part("%H"@) + ":"@ + part("%M"@) + date
            &&& format != "24hr"@ ==> label == part("%-l"@) + ":"@ + part("%M"@) + " "@ + part(
                "%p"@,
            ) + date
        }),
{
    let l = if is_locale(locale) {
        locale
    } else {
        "POSIX"@
    };
    labels_show_time_and_date(
        format,
        formatted_time(secs, offset, l, "%H"@)->0,
        formatted_time(secs, offset, l, "%-l"@)->0,
        formatted_time(secs, offset, l, "%M"@)->0,
        formatted_time(secs, offset, l, "%p"@)->0,
        formatted_time(secs, offset, l, "%a"@)->0,
        formatted_time(secs, offset, l, "%-e"@)->0,
        formatted_time(secs, offset, l, "%b"@)->0,
    );
}

/// The hour by 12 runs from 1 to 12 and is the hour by 24 up to twelve hours.
pub proof fn hours_run_to_twelve(hour: int)
    requires
        0 <= hour < 24,
    ensures
        1 <= hour_to_12(hour) <= 12,
        hour_to_12(hour) == hour || hour_to_12(hour) == hour - 12 || (hour == 0 && hour_to_12(hour)
            == 12),
{
}

/// The seconds since midnight are those of a day, are those of the time ahead of
/// UTC up to whole days, and go by one with each second until midnight.
pub proof fn days_begin_at_midnight(secs: i64, offset: i32)
    ensures
        0 <= second_of_day(secs, offset) < 86_400,
        (secs + offset - second_of_day(secs, offset)) % 86_400 == 0,
{
}

/// What a label begins with denotes the hour and the minute: the hour by 24 with
/// two digits, that by 12 without a zero in front, the minute with two digits.
#[verifier::rlimit(50)]
pub proof fn labels_begin_with_the_hour(format: Seq<char>, secs: i64, offset: i32)
    ensures
        ({
            let head = clock_head(format, secs, offset);
            let second = second_of_day(secs, offset);
            let minute = head.skip(head.len() - 2);
            let hour = head.take(head.len() - 3);
            &&& head.len() >= 4
            &&& head[head.len() - 3] == ':'
            &&& text::digits_value(minute) == second / 60 % 60
            &&& format == "24hr"@ ==> hour.len() == 2 && text::digits_value(hour) == second / 3600
            &&& format != "24hr"@ ==> text::digits_value(hour) == hour_to_12(second / 3600)
        }),
{
    let head = clock_head(format, secs, offset);
    let second = second_of_day(secs, offset);
    let m = second % 3600 / 60;
    let h = second / 3600;
    let minute = two_digits(m);
    reveal_strlit(":");
    lemma_two_digits(m);
    lemma_two_digits(h);
    text::decimal_denotes(hour_to_12(h) as nat);
    assert(second / 60 % 60 == m);
    let hour = if format == "24hr"@ {
        two_digits(h)
    } else {
        text::decimal(hour_to_12(h) as nat)
    };
    assert(head == hour + ":"@ + minute);
    assert(head.skip(head.len() - 2) =~= minute);
    assert(head.take(head.len() - 3) =~= hour);
}

/// A number below 100 with two digits denotes that number.
pub proof fn lemma_two_digits(n: int)
    requires
        0 <= n < 100,
    ensures
        two_digits(n).len() == 2,
        text::all_digits(two_digits(n)),
        text::digits_value(two_digits(n)) == n,
{
    let tens = seq![text::digit_char((n / 10) as nat)];
    text::digits_count_by_tens(Seq::empty(), 0, (n / 10) as nat);
    text::digits_count_by_tens(tens, 0, (n % 10) as nat);
    assert(Seq::<char>::empty().push(text::digit_char((n / 10) as nat)) =~= tens);
    assert(two_digits(n) =~= tens.push(text::digit_char((n % 10) as nat)));
}

} // verus!
