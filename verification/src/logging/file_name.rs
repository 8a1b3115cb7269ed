//! The names of log files.
use vstd::prelude::*;

verus! {

/// A moment of the calendar, in UTC.
#[derive(Debug, Clone, Copy, PartialEq, Eq, Structural)]
pub struct UtcDateTime {
    pub year: i32,
    pub month: u8,
    pub day: u8,
    pub hour: u8,
    pub minute: u8,
    pub second: u8,
}

/// Whether a year has a 29th of February.
pub open spec fn leap_year(year: int) -> bool {
    year % 4 == 0 && (year % 100 != 0 || year % 400 == 0)
}

/// The number of days of a month.
pub open spec fn days_in_month(year: int, month: int) -> int {
    if month == 2 {
        if leap_year(year) {
            29
        } else {
            28
        }
    } else if month == 4 || month == 6 || month == 9 || month == 11 {
        30
    } else {
        31
    }
}

/// The character of a decimal digit.
pub open spec fn digit(d: int) -> char {
    (48 + d) as char
}

/// The last two decimal digits of a number.
pub open spec fn two_digits(n: int) -> Seq<char> {
    seq![digit(n / 10 % 10), digit(n % 10)]
}

/// A year of the calendar in four digits, after a minus sign where it is negative.
pub open spec fn year_text(year: int) -> Seq<char> {
    if year < 0 {
        seq!['-'] + two_digits(-year / 100) + two_digits(-year)
    } else {
        two_digits(year / 100) + two_digits(year)
    }
}

impl UtcDateTime {
    /// Whether this is a moment of the calendar from the year -9999 to the year 9999.
    pub open spec fn valid(self) -> bool {
        &&& -9999 <= self.year <= 9999
        &&& 1 <= self.month <= 12
        &&& 1 <= self.day <= days_in_month(self.year as int, self.month as int)
        &&& self.hour < 24
        &&& self.minute < 60
        &&& self.second < 60
    }

    /// The name of a log file that is opened at this moment.
    pub open spec fn log_file_name(self) -> Seq<char> {
        "mountpoint-s3-"@ + year_text(self.year as int) + seq!['-'] + two_digits(self.month as int)
            + seq!['-'] + two_digits(self.day as int) + seq!['T'] + two_digits(self.hour as int)
            + seq!['-'] + two_digits(self.minute as int) + seq!['-'] + two_digits(
            self.second as int,
        ) + "Z.log"@
    }
}

/// Two numbers below a hundred that have the same two digits are the same.
proof fn lemma_two_digits_injective(a: int, b: int)
    requires
        0 <= a < 100,
        0 <= b < 100,
        two_digits(a) == two_digits(b),
    ensures
        a == b,
{
    assert(two_digits(a)[0] == two_digits(b)[0]);
    assert(two_digits(a)[1] == two_digits(b)[1]);
}

/// The last two digits of a number do not depend on its hundreds.
proof fn lemma_two_digits_of_remainder(n: int)
    requires
        0 <= n < 10000,
    ensures
        two_digits(n) == two_digits(n % 100),
        0 <= n / 100 < 100,
        n == n / 100 * 100 + n % 100,
{
    assert(n / 10 % 10 == n % 100 / 10 % 10);
}

/// Log files that are opened at different moments, to the second, have different names.
pub proof fn law_log_file_names_are_distinct(a: UtcDateTime, b: UtcDateTime)
    requires
        a.valid(),
        b.valid(),
        a.log_file_name() == b.log_file_name(),
    ensures
        a == b,
{
    reveal_strlit("mountpoint-s3-");
    reveal_strlit("Z.log");
    let x = a.log_file_name();
    let y = b.log_file_name();
    let n = x.len();
    assert(y.len() == n);
    assert(a.year < 0 <==> b.year < 0);
    let s: int = if a.year < 0 {
        15
    } else {
        14
    };
    let ya: int = if a.year < 0 {
        -a.year
    } else {
        a.year as int
    };
    let yb: int = if b.year < 0 {
        -b.year
    } else {
        b.year as int
    };
    assert(x.subrange(s, s + 2) == two_digits(ya / 100));
    assert(y.subrange(s, s + 2) == two_digits(yb / 100));
    assert(x.subrange(s + 2, s + 4) == two_digits(ya));
    assert(y.subrange(s + 2, s + 4) == two_digits(yb));
    assert(x.subrange(s + 5, s + 7) == two_digits(a.month as int));
    assert(y.subrange(s + 5, s + 7) == two_digits(b.month as int));
    assert(x.subrange(s + 8, s + 10) == two_digits(a.day as int));
    assert(y.subrange(s + 8, s + 10) == two_digits(b.day as int));
    assert(x.subrange(s + 11, s + 13) == two_digits(a.hour as int));
    assert(y.subrange(s + 11, s + 13) == two_digits(b.hour as int));
    assert(x.subrange(s + 14, s + 16) == two_digits(a.minute as int));
    assert(y.subrange(s + 14, s + 16) == two_digits(b.minute as int));
    assert(x.subrange(s + 17, s + 19) == two_digits(a.second as int));
    assert(y.subrange(s + 17, s + 19) == two_digits(b.second as int));
    lemma_two_digits_of_remainder(ya);
    lemma_two_digits_of_remainder(yb);
    lemma_two_digits_injective(ya / 100, yb / 100);
    lemma_two_digits_injective(ya % 100, yb % 100);
    lemma_two_digits_injective(a.month as int, b.month as int);
    lemma_two_digits_injective(a.day as int, b.day as int);
    lemma_two_digits_injective(a.hour as int, b.hour as int);
    lemma_two_digits_injective(a.minute as int, b.minute as int);
    lemma_two_digits_injective(a.second as int, b.second as int);
}

/// The number that decimal digits write.
pub open spec fn number(digits: Seq<char>) -> int
    decreases digits.len(),
{
    if digits.len() == 0 {
        0
    } else {
        10 * number(digits.drop_last()) + (digits.last() as int - '0' as int)
    }
}

/// Two digits write the remainder of a number by a hundred.
proof fn lemma_two_digits_are_a_number(n: int)
    requires
        0 <= n,
    ensures
        number(two_digits(n)) == n % 100,
{
    reveal_with_fuel(number, 3);
    let d = two_digits(n);
    assert(d.drop_last() =~= seq![digit(n / 10 % 10)]);
    assert(d.drop_last().drop_last() =~= Seq::<char>::empty());
    assert(n % 100 == 10 * (n / 10 % 10) + n % 10);
}

/// The moment at which a log file was opened can be read in its name: after `mountpoint-s3-` stand
/// the year in four digits, behind a minus sign where it is negative, and the month, day, hour,
/// minute and second in two digits each, then `Z.log`, and nothing else.
pub proof fn law_log_file_name_reads_back(moment: UtcDateTime)
    requires
        moment.valid(),
    ensures
        ({
            let name = moment.log_file_name();
            let s: int = if moment.year < 0 {
                15
            } else {
                14
            };
            &&& name.len() == s + 24
            &&& name.subrange(0, 14) == "mountpoint-s3-"@
            &&& moment.year < 0 ==> name[14] == '-'
            &&& number(name.subrange(s, s + 4)) == (if moment.year < 0 {
                -moment.year
            } else {
                moment.year as int
            })
            &&& name[s + 4] == '-'
            &&& number(name.subrange(s + 5, s + 7)) == moment.month
            &&& name[s + 7] == '-'
            &&& number(name.subrange(s + 8, s + 10)) == moment.day
            &&& name[s + 10] == 'T'
            &&& number(name.subrange(s + 11, s + 13)) == moment.hour
            &&& name[s + 13] == '-'
            &&& number(name.subrange(s + 14, s + 16)) == moment.minute
            &&& name[s + 16] == '-'
            &&& number(name.subrange(s + 17, s + 19)) == moment.second
            &&& name.subrange(s + 19, s + 24) == "Z.log"@
            &&& forall|i: int|
                s <= i < s + 4 || s + 5 <= i < s + 7 || s + 8 <= i < s + 10 || s + 11 <= i < s + 13
                    || s + 14 <= i < s + 16 || s + 17 <= i < s + 19 ==> '0' <= #[trigger] name[i]
                    <= '9'
        }),
{
    reveal_strlit("mountpoint-s3-");
    reveal_strlit("Z.log");
    let name = moment.log_file_name();
    let s: int = if moment.year < 0 {
        15
    } else {
        14
    };
    let year: int = if moment.year < 0 {
        -moment.year
    } else {
        moment.year as int
    };
    assert(name.subrange(0, 14) =~= "mountpoint-s3-"@);
    assert(name.subrange(s + 19, s + 24) =~= "Z.log"@);
    let y = name.subrange(s, s + 4);
    assert(y =~= two_digits(year / 100) + two_digits(year));
    assert(number(y) == year) by {
        reveal_with_fuel(number, 3);
        lemma_two_digits_are_a_number(year / 100);
        lemma_two_digits_are_a_number(year);
        assert(y.drop_last().drop_last() =~= two_digits(year / 100));
        assert(year % 100 == 10 * (year / 10 % 10) + year % 10);
    }
    assert(name.subrange(s + 5, s + 7) =~= two_digits(moment.month as int));
    assert(name.subrange(s + 8, s + 10) =~= two_digits(moment.day as int));
    assert(name.subrange(s + 11, s + 13) =~= two_digits(moment.hour as int));
    assert(name.subrange(s + 14, s + 16) =~= two_digits(moment.minute as int));
    assert(name.subrange(s + 17, s + 19) =~= two_digits(moment.second as int));
    lemma_two_digits_are_a_number(moment.month as int);
    lemma_two_digits_are_a_number(moment.day as int);
    lemma_two_digits_are_a_number(moment.hour as int);
    lemma_two_digits_are_a_number(moment.minute as int);
    lemma_two_digits_are_a_number(moment.second as int);
}

/// Log files are named at exactly the moments of the calendar: every month has 28 days, February a
/// 29th in leap years, the other months a 29th and a 30th, and seven of them a 31st.
pub proof fn law_moments_of_the_calendar(moment: UtcDateTime)
    ensures
        ({
            let UtcDateTime { year, month, day, hour, minute, second } = moment;
            moment.valid() <==> {
                &&& -9999 <= year <= 9999
                &&& 1 <= month <= 12
                &&& hour <= 23 && minute <= 59 && second <= 59
                &&& {
                    ||| 1 <= day <= 28
                    ||| day == 29 && (month != 2 || year % 400 == 0 || (year % 4 == 0 && year % 100
                        != 0))
                    ||| day == 30 && month != 2
                    ||| day == 31 && set![1u8, 3, 5, 7, 8, 10, 12].contains(month)
                }
            }
        }),
{
}

/// The format of the names of log files, as the `time` crate describes formats.
pub const LOG_FILE_NAME_FORMAT: &'static str =
    "mountpoint-s3-[year]-[month]-[day]T[hour]-[minute]-[second]Z.log";

/// `time::OffsetDateTime::format` on a moment in UTC and the format of the names of log files: the
/// components are written as decimal numbers, the year in four digits and the others in two,
/// and the text around them as it is. A moment that is not of the calendar cannot be built, and
/// nothing comes back.
#[verifier::external_body]
fn format_utc(moment: UtcDateTime, format: &str) -> (r: Option<String>)
    requires
        format@ == LOG_FILE_NAME_FORMAT@,
    ensures
        r is Some <==> moment.valid(),
        r matches Some(text) ==> text@ == moment.log_file_name(),
{
    let month = time::Month::try_from(moment.month).ok()?;
    let date = time::Date::from_calendar_date(moment.year, month, moment.day).ok()?;
    let time = date.with_hms(moment.hour, moment.minute, moment.second).ok()?;
    let items = time::format_description::parse_borrowed::<1>(format).ok()?;
    time.assume_utc().format(&items).ok()
}

/// The name of the log file that is opened at `moment`, or nothing where `moment` is not of the
/// calendar.
pub fn log_file_name(moment: UtcDateTime) -> (r: Option<String>)
    ensures
        r is Some <==> moment.valid(),
        r matches Some(text) ==> text@ == moment.log_file_name(),
{
    format_utc(moment, LOG_FILE_NAME_FORMAT)
}

} // verus!
