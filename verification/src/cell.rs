//! Values of replicated rows.
use vstd::prelude::*;

use crate::text::{
    decimal, digit_char, hex, hex_limit, law_decimal_stands_for_its_number, law_digit_characters,
    law_hex_stands_for_its_number, positional, signed_number,
};

verus! {

/// How dates are written.
pub const DATE_FORMAT: &'static str = "%Y-%m-%d";

/// How times of day are written.
pub const TIME_FORMAT: &'static str = "%H:%M:%S%.f";

/// How timestamps are written.
pub const TIMESTAMP_FORMAT: &'static str = "%Y-%m-%d %H:%M:%S%.f";

/// How timestamps with a zone are written.
pub const TIMESTAMPTZ_FORMAT_HH_MM: &'static str = "%Y-%m-%d %H:%M:%S%.f%:z";

/// Values that can be compared by content.
pub trait SameValue: Sized {
    /// Whether the two values compare equal.
    spec fn same(&self, other: &Self) -> bool;

    /// Returns whether the two values compare equal.
    fn is_same(&self, other: &Self) -> (r: bool)
        ensures
            r == self.same(other),
    ;
}

impl SameValue for bool {
    open spec fn same(&self, other: &Self) -> bool {
        *self == *other
    }

    fn is_same(&self, other: &Self) -> (r: bool) {
        *self == *other
    }
}

impl SameValue for u8 {
    open spec fn same(&self, other: &Self) -> bool {
        *self == *other
    }

    fn is_same(&self, other: &Self) -> (r: bool) {
        *self == *other
    }
}

impl SameValue for i16 {
    open spec fn same(&self, other: &Self) -> bool {
        *self == *other
    }

    fn is_same(&self, other: &Self) -> (r: bool) {
        *self == *other
    }
}

impl SameValue for i32 {
    open spec fn same(&self, other: &Self) -> bool {
        *self == *other
    }

    fn is_same(&self, other: &Self) -> (r: bool) {
        *self == *other
    }
}

impl SameValue for u32 {
    open spec fn same(&self, other: &Self) -> bool {
        *self == *other
    }

    fn is_same(&self, other: &Self) -> (r: bool) {
        *self == *other
    }
}

impl SameValue for i64 {
    open spec fn same(&self, other: &Self) -> bool {
        *self == *other
    }

    fn is_same(&self, other: &Self) -> (r: bool) {
        *self == *other
    }
}

impl SameValue for String {
    open spec fn same(&self, other: &Self) -> bool {
        self@ == other@
    }

    fn is_same(&self, other: &Self) -> (r: bool) {
        *self == *other
    }
}

impl<T: SameValue> SameValue for Option<T> {
    open spec fn same(&self, other: &Self) -> bool {
        match (self, other) {
            (Some(a), Some(b)) => a.same(b),
            (None, None) => true,
            _ => false,
        }
    }

    fn is_same(&self, other: &Self) -> (r: bool) {
        match (self, other) {
            (Some(a), Some(b)) => a.is_same(b),
            (None, None) => true,
            _ => false,
        }
    }
}

impl<T: SameValue> SameValue for Vec<T> {
    open spec fn same(&self, other: &Self) -> bool {
        self@.len() == other@.len() && forall|i: int|
            0 <= i < self@.len() ==> (#[trigger] self@[i]).same(&other@[i])
    }

    fn is_same(&self, other: &Self) -> (r: bool) {
        if self.len() != other.len() {
            return false;
        }
        let mut i: usize = 0;
        while i < self.len()
            invariant
                i <= self@.len(),
                self@.len() == other@.len(),
                forall|j: int| 0 <= j < i ==> (#[trigger] self@[j]).same(&other@[j]),
            decreases self@.len() - i,
        {
            if !self[i].is_same(&other[i]) {
                proof {
                    assert(!self@[i as int].same(&other@[i as int]));
                }
                return false;
            }
            i = i + 1;
        }
        true
    }
}

/// A floating-point value, as far as the pipeline looks at it.
#[derive(Debug)]
pub enum Float {
    /// A finite value, by its shortest JSON text.
    Finite(String),
    /// Not a number.
    Nan,
    /// Positive infinity.
    Infinity,
    /// Negative infinity.
    NegInfinity,
}

/// Whether a finite value's text is that of one of the two zeros.
pub open spec fn zero_text(s: Seq<char>) -> bool {
    s == "0.0"@ || s == "-0.0"@
}

fn is_zero_text(s: &String) -> (r: bool)
    ensures
        r == zero_text(s@),
{
    *s == "0.0".to_owned() || *s == "-0.0".to_owned()
}

impl SameValue for Float {
    /// NaN equals nothing, and the two zeros are equal.
    open spec fn same(&self, other: &Self) -> bool {
        match (self, other) {
            (Float::Finite(a), Float::Finite(b)) => a@ == b@ || (zero_text(a@) && zero_text(b@)),
            (Float::Infinity, Float::Infinity) => true,
            (Float::NegInfinity, Float::NegInfinity) => true,
            _ => false,
        }
    }

    fn is_same(&self, other: &Self) -> (r: bool) {
        match (self, other) {
            (Float::Finite(a), Float::Finite(b)) => *a == *b || (is_zero_text(a)
                && is_zero_text(b)),
            (Float::Infinity, Float::Infinity) => true,
            (Float::NegInfinity, Float::NegInfinity) => true,
            _ => false,
        }
    }
}

/// A Postgres `numeric` value.
#[derive(Debug)]
pub enum PgNumeric {
    /// Not a number.
    NaN,
    /// Positive infinity.
    PositiveInfinity,
    /// Negative infinity.
    NegativeInfinity,
    /// A finite value, by its decimal text.
    Value(String),
}

impl SameValue for PgNumeric {
    open spec fn same(&self, other: &Self) -> bool {
        match (self, other) {
            (PgNumeric::Value(a), PgNumeric::Value(b)) => a@ == b@,
            (PgNumeric::NaN, PgNumeric::NaN) => true,
            (PgNumeric::PositiveInfinity, PgNumeric::PositiveInfinity) => true,
            (PgNumeric::NegativeInfinity, PgNumeric::NegativeInfinity) => true,
            _ => false,
        }
    }

    fn is_same(&self, other: &Self) -> (r: bool) {
        match (self, other) {
            (PgNumeric::Value(a), PgNumeric::Value(b)) => *a == *b,
            (PgNumeric::NaN, PgNumeric::NaN) => true,
            (PgNumeric::PositiveInfinity, PgNumeric::PositiveInfinity) => true,
            (PgNumeric::NegativeInfinity, PgNumeric::NegativeInfinity) => true,
            _ => false,
        }
    }
}

/// Number of days of a month of the proleptic Gregorian calendar.
pub open spec fn days_in_month(year: int, month: int) -> int {
    if month == 2 {
        if year % 4 == 0 && (year % 100 != 0 || year % 400 == 0) {
            29
        } else {
            28
        }
    } else if month == 4 || month == 6 || month == 9 || month == 11 {
        30
    } else {
        31
    }
}

/// Whether the numbers name a day that can be represented.
pub open spec fn valid_date(year: int, month: int, day: int) -> bool {
    -262143 <= year <= 262142 && 1 <= month <= 12 && 1 <= day <= days_in_month(year, month)
}

/// Whether the numbers name a time of day; a leap second has `nano` of a second or more.
pub open spec fn valid_time(hour: int, minute: int, second: int, nano: int) -> bool {
    0 <= hour < 24 && 0 <= minute < 60 && 0 <= second < 60 && 0 <= nano < 2_000_000_000 && (nano
        < 1_000_000_000 || second == 59)
}

/// Decimal text of `n`, cut and zero-padded to `width` digits.
pub open spec fn digits(n: nat, width: nat) -> Seq<char>
    decreases width,
{
    if width == 0 {
        Seq::empty()
    } else {
        digits(n / 10, (width - 1) as nat).push(digit_char((n % 10) as int))
    }
}

/// A year's text: four digits, or more with a sign before them where four do not do.
pub open spec fn year_text(year: int) -> Seq<char> {
    if 0 <= year <= 9999 {
        digits(year as nat, 4)
    } else if -9999 <= year && year < 0 {
        "-"@ + digits((-year) as nat, 4)
    } else if year < 0 {
        "-"@ + decimal((-year) as nat)
    } else {
        "+"@ + decimal(year as nat)
    }
}

/// A date's text: year, month and day with hyphens between them.
pub open spec fn date_text(date: (int, int, int)) -> Seq<char> {
    year_text(date.0) + "-"@ + digits(date.1 as nat, 2) + "-"@ + digits(date.2 as nat, 2)
}

/// The text of a fraction of a second: none, milliseconds, microseconds or nanoseconds, as many
/// digits as it takes.
pub open spec fn fraction_text(nano: nat) -> Seq<char> {
    if nano == 0 {
        Seq::empty()
    } else if nano % 1_000_000 == 0 {
        "."@ + digits(nano / 1_000_000, 3)
    } else if nano % 1_000 == 0 {
        "."@ + digits(nano / 1_000, 6)
    } else {
        "."@ + digits(nano, 9)
    }
}

/// A time's text: hour, minute and second with colons between them, and the fraction. A leap second
/// is the sixtieth of its minute.
pub open spec fn time_text(time: (int, int, int, int)) -> Seq<char> {
    digits(time.0 as nat, 2) + ":"@ + digits(time.1 as nat, 2) + ":"@ + digits(
        (time.2 + time.3 / 1_000_000_000) as nat,
        2,
    ) + fraction_text((time.3 % 1_000_000_000) as nat)
}

/// `chrono::NaiveDate::format`: under the date format it writes the date's text. chrono has every
/// valid date.
#[verifier::external_body]
fn format_naive_date(year: i32, month: u32, day: u32, format: &str) -> (r: String)
    requires
        valid_date(year as int, month as int, day as int),
        format@ == DATE_FORMAT@,
    ensures
        r@ == date_text((year as int, month as int, day as int)),
{
    chrono::NaiveDate::from_ymd_opt(year, month, day).unwrap().format(format).to_string()
}

/// `chrono::NaiveTime::format`: under the time format it writes the time's text. chrono has every
/// valid time of day.
#[verifier::external_body]
fn format_naive_time(hour: u32, minute: u32, second: u32, nano: u32, format: &str) -> (r: String)
    requires
        valid_time(hour as int, minute as int, second as int, nano as int),
        format@ == TIME_FORMAT@,
    ensures
        r@ == time_text((hour as int, minute as int, second as int, nano as int)),
{
    chrono::NaiveTime::from_hms_nano_opt(hour, minute, second, nano)
        .unwrap()
        .format(format)
        .to_string()
}

/// `chrono::NaiveDateTime::format`: under the timestamp format it writes the texts of date and time
/// with a blank between them.
#[verifier::external_body]
fn format_naive_timestamp(
    date: (i32, u32, u32),
    time: (u32, u32, u32, u32),
    format: &str,
) -> (r: String)
    requires
        valid_date(date.0 as int, date.1 as int, date.2 as int),
        valid_time(time.0 as int, time.1 as int, time.2 as int, time.3 as int),
        format@ == TIMESTAMP_FORMAT@,
    ensures
        r@ == date_text((date.0 as int, date.1 as int, date.2 as int)) + " "@ + time_text(
            (time.0 as int, time.1 as int, time.2 as int, time.3 as int),
        ),
{
    let date = chrono::NaiveDate::from_ymd_opt(date.0, date.1, date.2).unwrap();
    let time = chrono::NaiveTime::from_hms_nano_opt(time.0, time.1, time.2, time.3).unwrap();
    chrono::NaiveDateTime::new(date, time).format(format).to_string()
}

/// `chrono::DateTime::<chrono::Utc>::format`: under the format of timestamps with a zone it writes
/// the texts of the UTC date and time with a blank between them, and UTC's offset.
#[verifier::external_body]
fn format_utc_timestamp(
    date: (i32, u32, u32),
    time: (u32, u32, u32, u32),
    format: &str,
) -> (r: String)
    requires
        valid_date(date.0 as int, date.1 as int, date.2 as int),
        valid_time(time.0 as int, time.1 as int, time.2 as int, time.3 as int),
        format@ == TIMESTAMPTZ_FORMAT_HH_MM@,
    ensures
        r@ == date_text((date.0 as int, date.1 as int, date.2 as int)) + " "@ + time_text(
            (time.0 as int, time.1 as int, time.2 as int, time.3 as int),
        ) + "+00:00"@,
{
    let date = chrono::NaiveDate::from_ymd_opt(date.0, date.1, date.2).unwrap();
    let time = chrono::NaiveTime::from_hms_nano_opt(time.0, time.1, time.2, time.3).unwrap();
    chrono::NaiveDateTime::new(date, time).and_utc().format(format).to_string()
}

/// A calendar date.
#[derive(Clone, Copy, Debug, PartialEq, Eq, Structural)]
pub struct Date {
    year: i32,
    month: u32,
    day: u32,
}

impl Date {
    #[verifier::type_invariant]
    spec fn wf(self) -> bool {
        valid_date(self.year as int, self.month as int, self.day as int)
    }

    /// Year, month and day.
    pub closed spec fn ymd(&self) -> (int, int, int) {
        (self.year as int, self.month as int, self.day as int)
    }

    /// Returns the date of the given year, month and day, if there is one.
    pub fn from_ymd_opt(year: i32, month: u32, day: u32) -> (r: Option<Self>)
        ensures
            r is Some <==> valid_date(year as int, month as int, day as int),
            r matches Some(d) ==> d.ymd() == (year as int, month as int, day as int),
    {
        if year < -262143 || year > 262142 || month < 1 || month > 12 || day < 1 {
            return None;
        }
        let y: u32 = (year + 400_000) as u32;
        let days: u32 = if month == 2 {
            if y % 4 == 0 && (y % 100 != 0 || y % 400 == 0) {
                29
            } else {
                28
            }
        } else if month == 4 || month == 6 || month == 9 || month == 11 {
            30
        } else {
            31
        };
        if day > days {
            return None;
        }
        Some(Date { year, month, day })
    }

    /// The first of January 1970.
    pub closed spec fn epoch_spec() -> Self {
        Date { year: 1970, month: 1, day: 1 }
    }

    /// Returns the first of January 1970.
    pub fn epoch() -> (r: Self)
        ensures
            r == Self::epoch_spec(),
            r.ymd() == (1970int, 1int, 1int),
    {
        Date { year: 1970, month: 1, day: 1 }
    }

    /// The date's text.
    pub open spec fn text(&self) -> Seq<char> {
        date_text(self.ymd())
    }

    /// Returns the date's text.
    pub fn to_text(&self) -> (r: String)
        ensures
            r@ == self.text(),
    {
        proof {
            use_type_invariant(self);
        }
        format_naive_date(self.year, self.month, self.day, DATE_FORMAT)
    }
}

impl SameValue for Date {
    open spec fn same(&self, other: &Self) -> bool {
        *self == *other
    }

    fn is_same(&self, other: &Self) -> (r: bool) {
        *self == *other
    }
}

/// A time of day.
#[derive(Clone, Copy, Debug, PartialEq, Eq, Structural)]
pub struct Time {
    hour: u32,
    minute: u32,
    second: u32,
    nano: u32,
}

impl Time {
    #[verifier::type_invariant]
    spec fn wf(self) -> bool {
        valid_time(self.hour as int, self.minute as int, self.second as int, self.nano as int)
    }

    /// Hour, minute, second and nanosecond.
    pub closed spec fn hmsn(&self) -> (int, int, int, int) {
        (self.hour as int, self.minute as int, self.second as int, self.nano as int)
    }

    /// Returns the time of the given hour, minute, second and nanosecond, if there is one.
    pub fn from_hms_nano_opt(hour: u32, minute: u32, second: u32, nano: u32) -> (r: Option<Self>)
        ensures
            r is Some <==> valid_time(hour as int, minute as int, second as int, nano as int),
            r matches Some(t) ==> t.hmsn() == (
                hour as int,
                minute as int,
                second as int,
                nano as int,
            ),
    {
        if hour >= 24 || minute >= 60 || second >= 60 || nano >= 2_000_000_000 || (nano
            >= 1_000_000_000 && second != 59) {
            return None;
        }
        Some(Time { hour, minute, second, nano })
    }

    /// Midnight.
    pub closed spec fn midnight_spec() -> Self {
        Time { hour: 0, minute: 0, second: 0, nano: 0 }
    }

    /// Returns midnight.
    pub fn midnight() -> (r: Self)
        ensures
            r == Self::midnight_spec(),
            r.hmsn() == (0int, 0int, 0int, 0int),
    {
        Time { hour: 0, minute: 0, second: 0, nano: 0 }
    }

    /// The time's text.
    pub open spec fn text(&self) -> Seq<char> {
        time_text(self.hmsn())
    }

    /// Returns the time's text.
    pub fn to_text(&self) -> (r: String)
        ensures
            r@ == self.text(),
    {
        proof {
            use_type_invariant(self);
        }
        format_naive_time(self.hour, self.minute, self.second, self.nano, TIME_FORMAT)
    }
}

impl SameValue for Time {
    open spec fn same(&self, other: &Self) -> bool {
        *self == *other
    }

    fn is_same(&self, other: &Self) -> (r: bool) {
        *self == *other
    }
}

/// A date and a time of day.
#[derive(Clone, Copy, Debug, PartialEq, Eq, Structural)]
pub struct Timestamp {
    /// The date.
    pub date: Date,
    /// The time of day.
    pub time: Time,
}

impl Timestamp {
    /// The text of the timestamp when it has no zone.
    pub open spec fn text(&self) -> Seq<char> {
        date_text(self.date.ymd()) + " "@ + time_text(self.time.hmsn())
    }

    /// The text of the timestamp when it is a UTC instant.
    pub open spec fn utc_text(&self) -> Seq<char> {
        date_text(self.date.ymd()) + " "@ + time_text(self.time.hmsn()) + "+00:00"@
    }

    /// Returns the text of the timestamp when it has no zone.
    pub fn to_text(&self) -> (r: String)
        ensures
            r@ == self.text(),
    {
        let d = self.date;
        let t = self.time;
        proof {
            use_type_invariant(&d);
            use_type_invariant(&t);
        }
        format_naive_timestamp(
            (d.year, d.month, d.day),
            (t.hour, t.minute, t.second, t.nano),
            TIMESTAMP_FORMAT,
        )
    }

    /// Returns the text of the timestamp when it is a UTC instant.
    pub fn to_utc_text(&self) -> (r: String)
        ensures
            r@ == self.utc_text(),
    {
        let d = self.date;
        let t = self.time;
        proof {
            use_type_invariant(&d);
            use_type_invariant(&t);
        }
        format_utc_timestamp(
            (d.year, d.month, d.day),
            (t.hour, t.minute, t.second, t.nano),
            TIMESTAMPTZ_FORMAT_HH_MM,
        )
    }
}

impl SameValue for Timestamp {
    open spec fn same(&self, other: &Self) -> bool {
        *self == *other
    }

    fn is_same(&self, other: &Self) -> (r: bool) {
        *self == *other
    }
}

/// A UUID, by its 128 bits.
#[derive(Clone, Copy, Debug, PartialEq, Eq, Structural)]
pub struct Uuid(pub u128);

/// Hyphenated lower-case text of a UUID.
pub open spec fn uuid_text(bits: nat) -> Seq<char> {
    let h = hex(bits, 32);
    h.subrange(0, 8) + "-"@ + h.subrange(8, 12) + "-"@ + h.subrange(12, 16) + "-"@ + h.subrange(
        16,
        20,
    ) + "-"@ + h.subrange(20, 32)
}

/// `uuid::Uuid`'s `Display`: the thirty-two lower-case hexadecimal digits in groups of eight,
/// four, four, four and twelve, with hyphens between them.
#[verifier::external_body]
fn display_uuid(bits: u128) -> (r: String)
    ensures
        r@ == uuid_text(bits as nat),
{
    uuid::Uuid::from_u128(bits).to_string()
}

impl Uuid {
    /// Returns the UUID's text.
    pub fn to_text(&self) -> (r: String)
        ensures
            r@ == uuid_text(self.0 as nat),
    {
        display_uuid(self.0)
    }
}

impl SameValue for Uuid {
    open spec fn same(&self, other: &Self) -> bool {
        *self == *other
    }

    fn is_same(&self, other: &Self) -> (r: bool) {
        *self == *other
    }
}

/// An array value; `None` stands for a NULL element.
#[derive(Debug)]
pub enum ArrayCell {
    Bool(Vec<Option<bool>>),
    String(Vec<Option<String>>),
    I16(Vec<Option<i16>>),
    I32(Vec<Option<i32>>),
    U32(Vec<Option<u32>>),
    I64(Vec<Option<i64>>),
    F32(Vec<Option<Float>>),
    F64(Vec<Option<Float>>),
    Numeric(Vec<Option<PgNumeric>>),
    Date(Vec<Option<Date>>),
    Time(Vec<Option<Time>>),
    Timestamp(Vec<Option<Timestamp>>),
    TimestampTz(Vec<Option<Timestamp>>),
    Uuid(Vec<Option<Uuid>>),
    /// JSON documents, each by its compact text.
    Json(Vec<Option<String>>),
    Bytes(Vec<Option<Vec<u8>>>),
}

impl SameValue for ArrayCell {
    open spec fn same(&self, other: &Self) -> bool {
        match (self, other) {
            (ArrayCell::Bool(a), ArrayCell::Bool(b)) => a.same(b),
            (ArrayCell::String(a), ArrayCell::String(b)) => a.same(b),
            (ArrayCell::I16(a), ArrayCell::I16(b)) => a.same(b),
            (ArrayCell::I32(a), ArrayCell::I32(b)) => a.same(b),
            (ArrayCell::U32(a), ArrayCell::U32(b)) => a.same(b),
            (ArrayCell::I64(a), ArrayCell::I64(b)) => a.same(b),
            (ArrayCell::F32(a), ArrayCell::F32(b)) => a.same(b),
            (ArrayCell::F64(a), ArrayCell::F64(b)) => a.same(b),
            (ArrayCell::Numeric(a), ArrayCell::Numeric(b)) => a.same(b),
            (ArrayCell::Date(a), ArrayCell::Date(b)) => a.same(b),
            (ArrayCell::Time(a), ArrayCell::Time(b)) => a.same(b),
            (ArrayCell::Timestamp(a), ArrayCell::Timestamp(b)) => a.same(b),
            (ArrayCell::TimestampTz(a), ArrayCell::TimestampTz(b)) => a.same(b),
            (ArrayCell::Uuid(a), ArrayCell::Uuid(b)) => a.same(b),
            (ArrayCell::Json(a), ArrayCell::Json(b)) => a.same(b),
            (ArrayCell::Bytes(a), ArrayCell::Bytes(b)) => a.same(b),
            _ => false,
        }
    }

    fn is_same(&self, other: &Self) -> (r: bool) {
        match (self, other) {
            (ArrayCell::Bool(a), ArrayCell::Bool(b)) => a.is_same(b),
            (ArrayCell::String(a), ArrayCell::String(b)) => a.is_same(b),
            (ArrayCell::I16(a), ArrayCell::I16(b)) => a.is_same(b),
            (ArrayCell::I32(a), ArrayCell::I32(b)) => a.is_same(b),
            (ArrayCell::U32(a), ArrayCell::U32(b)) => a.is_same(b),
            (ArrayCell::I64(a), ArrayCell::I64(b)) => a.is_same(b),
            (ArrayCell::F32(a), ArrayCell::F32(b)) => a.is_same(b),
            (ArrayCell::F64(a), ArrayCell::F64(b)) => a.is_same(b),
            (ArrayCell::Numeric(a), ArrayCell::Numeric(b)) => a.is_same(b),
            (ArrayCell::Date(a), ArrayCell::Date(b)) => a.is_same(b),
            (ArrayCell::Time(a), ArrayCell::Time(b)) => a.is_same(b),
            (ArrayCell::Timestamp(a), ArrayCell::Timestamp(b)) => a.is_same(b),
            (ArrayCell::TimestampTz(a), ArrayCell::TimestampTz(b)) => a.is_same(b),
            (ArrayCell::Uuid(a), ArrayCell::Uuid(b)) => a.is_same(b),
            (ArrayCell::Json(a), ArrayCell::Json(b)) => a.is_same(b),
            (ArrayCell::Bytes(a), ArrayCell::Bytes(b)) => a.is_same(b),
            _ => false,
        }
    }
}

/// A value of a row.
#[derive(Debug)]
pub enum Cell {
    Null,
    Bool(bool),
    String(String),
    I16(i16),
    I32(i32),
    U32(u32),
    I64(i64),
    F32(Float),
    F64(Float),
    Numeric(PgNumeric),
    Date(Date),
    Time(Time),
    Timestamp(Timestamp),
    /// An instant, by its UTC date and time.
    TimestampTz(Timestamp),
    Uuid(Uuid),
    /// A JSON document, by its compact text.
    Json(String),
    Bytes(Vec<u8>),
    Array(ArrayCell),
}

impl SameValue for Cell {
    open spec fn same(&self, other: &Self) -> bool {
        match (self, other) {
            (Cell::Null, Cell::Null) => true,
            (Cell::Bool(a), Cell::Bool(b)) => a.same(b),
            (Cell::String(a), Cell::String(b)) => a.same(b),
            (Cell::I16(a), Cell::I16(b)) => a.same(b),
            (Cell::I32(a), Cell::I32(b)) => a.same(b),
            (Cell::U32(a), Cell::U32(b)) => a.same(b),
            (Cell::I64(a), Cell::I64(b)) => a.same(b),
            (Cell::F32(a), Cell::F32(b)) => a.same(b),
            (Cell::F64(a), Cell::F64(b)) => a.same(b),
            (Cell::Numeric(a), Cell::Numeric(b)) => a.same(b),
            (Cell::Date(a), Cell::Date(b)) => a.same(b),
            (Cell::Time(a), Cell::Time(b)) => a.same(b),
            (Cell::Timestamp(a), Cell::Timestamp(b)) => a.same(b),
            (Cell::TimestampTz(a), Cell::TimestampTz(b)) => a.same(b),
            (Cell::Uuid(a), Cell::Uuid(b)) => a.same(b),
            (Cell::Json(a), Cell::Json(b)) => a.same(b),
            (Cell::Bytes(a), Cell::Bytes(b)) => a.same(b),
            (Cell::Array(a), Cell::Array(b)) => a.same(b),
            _ => false,
        }
    }

    fn is_same(&self, other: &Self) -> (r: bool) {
        match (self, other) {
            (Cell::Null, Cell::Null) => true,
            (Cell::Bool(a), Cell::Bool(b)) => a.is_same(b),
            (Cell::String(a), Cell::String(b)) => a.is_same(b),
            (Cell::I16(a), Cell::I16(b)) => a.is_same(b),
            (Cell::I32(a), Cell::I32(b)) => a.is_same(b),
            (Cell::U32(a), Cell::U32(b)) => a.is_same(b),
            (Cell::I64(a), Cell::I64(b)) => a.is_same(b),
            (Cell::F32(a), Cell::F32(b)) => a.is_same(b),
            (Cell::F64(a), Cell::F64(b)) => a.is_same(b),
            (Cell::Numeric(a), Cell::Numeric(b)) => a.is_same(b),
            (Cell::Date(a), Cell::Date(b)) => a.is_same(b),
            (Cell::Time(a), Cell::Time(b)) => a.is_same(b),
            (Cell::Timestamp(a), Cell::Timestamp(b)) => a.is_same(b),
            (Cell::TimestampTz(a), Cell::TimestampTz(b)) => a.is_same(b),
            (Cell::Uuid(a), Cell::Uuid(b)) => a.is_same(b),
            (Cell::Json(a), Cell::Json(b)) => a.is_same(b),
            (Cell::Bytes(a), Cell::Bytes(b)) => a.is_same(b),
            (Cell::Array(a), Cell::Array(b)) => a.is_same(b),
            _ => false,
        }
    }
}

/// Element type of an array value.
#[derive(Clone, Copy, Debug, PartialEq, Eq, Structural)]
pub enum ArrayKind {
    Bool,
    String,
    I16,
    I32,
    U32,
    I64,
    F32,
    F64,
    Numeric,
    Date,
    Time,
    Timestamp,
    TimestampTz,
    Uuid,
    Json,
    Bytes,
}

impl ArrayCell {
    /// Element type and number of elements.
    pub open spec fn shape(self) -> (ArrayKind, nat) {
        match self {
            ArrayCell::Bool(v) => (ArrayKind::Bool, v@.len()),
            ArrayCell::String(v) => (ArrayKind::String, v@.len()),
            ArrayCell::I16(v) => (ArrayKind::I16, v@.len()),
            ArrayCell::I32(v) => (ArrayKind::I32, v@.len()),
            ArrayCell::U32(v) => (ArrayKind::U32, v@.len()),
            ArrayCell::I64(v) => (ArrayKind::I64, v@.len()),
            ArrayCell::F32(v) => (ArrayKind::F32, v@.len()),
            ArrayCell::F64(v) => (ArrayKind::F64, v@.len()),
            ArrayCell::Numeric(v) => (ArrayKind::Numeric, v@.len()),
            ArrayCell::Date(v) => (ArrayKind::Date, v@.len()),
            ArrayCell::Time(v) => (ArrayKind::Time, v@.len()),
            ArrayCell::Timestamp(v) => (ArrayKind::Timestamp, v@.len()),
            ArrayCell::TimestampTz(v) => (ArrayKind::TimestampTz, v@.len()),
            ArrayCell::Uuid(v) => (ArrayKind::Uuid, v@.len()),
            ArrayCell::Json(v) => (ArrayKind::Json, v@.len()),
            ArrayCell::Bytes(v) => (ArrayKind::Bytes, v@.len()),
        }
    }
}

/// What a floating-point value is.
pub enum FloatModel {
    Finite(Seq<char>),
    Nan,
    Infinity,
    NegInfinity,
}

impl View for Float {
    type V = FloatModel;

    open spec fn view(&self) -> FloatModel {
        match *self {
            Float::Finite(s) => FloatModel::Finite(s@),
            Float::Nan => FloatModel::Nan,
            Float::Infinity => FloatModel::Infinity,
            Float::NegInfinity => FloatModel::NegInfinity,
        }
    }
}

/// What a cell holds: texts by their characters, empty arrays by their element type, every other
/// value by itself.
pub enum CellModel {
    /// A text value.
    Text(Seq<char>),
    /// A single-precision value.
    F32(FloatModel),
    /// A double-precision value.
    F64(FloatModel),
    /// An array without elements.
    EmptyArray(ArrayKind),
    /// Any other value.
    Value(Cell),
}

impl View for Cell {
    type V = CellModel;

    open spec fn view(&self) -> CellModel {
        match *self {
            Cell::String(s) => CellModel::Text(s@),
            Cell::F32(f) => CellModel::F32(f@),
            Cell::F64(f) => CellModel::F64(f@),
            Cell::Array(a) => if a.shape().1 == 0 {
                CellModel::EmptyArray(a.shape().0)
            } else {
                CellModel::Value(*self)
            },
            _ => CellModel::Value(*self),
        }
    }
}

/// What the cells of a row hold.
pub open spec fn models(cells: Seq<Cell>) -> Seq<CellModel> {
    Seq::new(cells.len(), |i: int| cells[i]@)
}

/// A row of a table.
#[derive(Debug)]
pub struct TableRow {
    /// One value per column.
    pub values: Vec<Cell>,
}

impl View for TableRow {
    type V = Seq<CellModel>;

    open spec fn view(&self) -> Seq<CellModel> {
        models(self.values@)
    }
}

impl TableRow {
    /// Creates a row.
    pub fn new(values: Vec<Cell>) -> (r: Self)
        ensures
            r.values == values,
    {
        TableRow { values }
    }

    /// Returns the values in column order.
    pub fn values(&self) -> (r: &[Cell])
        ensures
            r@ == self.values@,
    {
        self.values.as_slice()
    }
}

/// The first day is the first of January 1970, and midnight is the start of a day.
pub proof fn law_the_first_day_and_hour()
    ensures
        Date::epoch_spec().ymd() == (1970int, 1int, 1int),
        Time::midnight_spec().hmsn() == (0int, 0int, 0int, 0int),
{
}

/// Two cells of different kinds are never equal.
pub proof fn law_cells_of_different_kinds_differ(a: Cell, b: Cell)
    requires
        a.same(&b),
    ensures
        a is Null <==> b is Null,
        a is Bool <==> b is Bool,
        a is String <==> b is String,
        a is I16 <==> b is I16,
        a is I32 <==> b is I32,
        a is U32 <==> b is U32,
        a is I64 <==> b is I64,
        a is F32 <==> b is F32,
        a is F64 <==> b is F64,
        a is Numeric <==> b is Numeric,
        a is Date <==> b is Date,
        a is Time <==> b is Time,
        a is Timestamp <==> b is Timestamp,
        a is TimestampTz <==> b is TimestampTz,
        a is Uuid <==> b is Uuid,
        a is Json <==> b is Json,
        a is Bytes <==> b is Bytes,
        a is Array <==> b is Array,
{
}

/// Two cells of one scalar kind are equal if and only if their values are.
pub proof fn law_scalar_cells_are_compared_by_value()
    ensures
        Cell::Null.same(&Cell::Null),
        forall|a: bool, b: bool|
            #[trigger] Cell::Bool(a).same(&Cell::Bool(b)) <==> a == b,
        forall|a: String, b: String|
            #[trigger] Cell::String(a).same(&Cell::String(b)) <==> a@ == b@,
        forall|a: i16, b: i16|
            #[trigger] Cell::I16(a).same(&Cell::I16(b)) <==> a == b,
        forall|a: i32, b: i32|
            #[trigger] Cell::I32(a).same(&Cell::I32(b)) <==> a == b,
        forall|a: u32, b: u32|
            #[trigger] Cell::U32(a).same(&Cell::U32(b)) <==> a == b,
        forall|a: i64, b: i64|
            #[trigger] Cell::I64(a).same(&Cell::I64(b)) <==> a == b,
        forall|a: Date, b: Date|
            #[trigger] Cell::Date(a).same(&Cell::Date(b)) <==> a.ymd() == b.ymd(),
        forall|a: Time, b: Time|
            #[trigger] Cell::Time(a).same(&Cell::Time(b)) <==> a.hmsn() == b.hmsn(),
        forall|a: Timestamp, b: Timestamp|
            #[trigger] Cell::Timestamp(a).same(&Cell::Timestamp(b))
                <==> a.date.ymd() == b.date.ymd() && a.time.hmsn() == b.time.hmsn(),
        forall|a: Timestamp, b: Timestamp|
            #[trigger] Cell::TimestampTz(a).same(&Cell::TimestampTz(b))
                <==> a.date.ymd() == b.date.ymd() && a.time.hmsn() == b.time.hmsn(),
        forall|a: Uuid, b: Uuid|
            #[trigger] Cell::Uuid(a).same(&Cell::Uuid(b)) <==> a.0 == b.0,
        forall|a: String, b: String|
            #[trigger] Cell::Json(a).same(&Cell::Json(b)) <==> a@ == b@,
        forall|a: Vec<u8>, b: Vec<u8>|
            #[trigger] Cell::Bytes(a).same(&Cell::Bytes(b)) <==> a@ == b@,
{
    assert forall|a: Vec<u8>, b: Vec<u8>|
        #[trigger] Cell::Bytes(a).same(&Cell::Bytes(b)) <==> a@ == b@ by {
        if Cell::Bytes(a).same(&Cell::Bytes(b)) {
            assert forall|i: int| 0 <= i < a@.len() implies a@[i] == b@[i] by {
                assert(a@[i].same(&b@[i]));
            }
            assert(a@ =~= b@);
        }
    }
}

/// Numbers compare as the source compares them: NaN of a floating-point column equals nothing, the
/// two zeros are equal, and a numeric NaN equals itself.
pub proof fn law_special_numbers_are_compared(a: Float, x: String, y: String)
    ensures
        !Float::Nan.same(&a),
        !a.same(&Float::Nan),
        Float::Infinity.same(&a) <==> a is Infinity,
        Float::NegInfinity.same(&a) <==> a is NegInfinity,
        x@ == y@ ==> Float::Finite(x).same(&Float::Finite(y)),
        x@ == "0.0"@ && y@ == "-0.0"@ ==> Float::Finite(x).same(&Float::Finite(y))
            && Float::Finite(y).same(&Float::Finite(x)),
        x@ != y@ && x@ != "0.0"@ && x@ != "-0.0"@ ==> !Float::Finite(x).same(&Float::Finite(y))
            && !Float::Finite(y).same(&Float::Finite(x)),
        Cell::F32(a).same(&Cell::F32(a)) <==> !(a is Nan),
        Cell::F64(a).same(&Cell::F64(a)) <==> !(a is Nan),
        PgNumeric::NaN.same(&PgNumeric::NaN),
        PgNumeric::Value(x).same(&PgNumeric::Value(y)) <==> x@ == y@,
        Cell::Numeric(PgNumeric::Value(x)).same(&Cell::Numeric(PgNumeric::Value(y))) <==> x@ == y@,
        !PgNumeric::PositiveInfinity.same(&PgNumeric::NegativeInfinity),
        !PgNumeric::NegativeInfinity.same(&PgNumeric::PositiveInfinity),
        PgNumeric::PositiveInfinity.same(&PgNumeric::PositiveInfinity),
        PgNumeric::NegativeInfinity.same(&PgNumeric::NegativeInfinity),
        !PgNumeric::Value(x).same(&PgNumeric::NaN),
        !PgNumeric::NaN.same(&PgNumeric::Value(x)),
{
}

/// Two arrays are equal only if they have the same element type and the same number of elements,
/// with equal elements at every place; a NULL element equals only a NULL element.
pub proof fn law_arrays_are_compared_by_element<T: SameValue>(a: Vec<Option<T>>, b: Vec<Option<T>>)
    ensures
        a.same(&b) ==> a@.len() == b@.len(),
        a.same(&b) ==> forall|i: int|
            0 <= i < a@.len() ==> {
                &&& (#[trigger] a@[i]) is Some <==> b@[i] is Some
                &&& a@[i] is Some ==> a@[i]->Some_0.same(&b@[i]->Some_0)
            },
        a@.len() == b@.len() && (forall|i: int|
            0 <= i < a@.len() ==> (#[trigger] a@[i]) is None && b@[i] is None) ==> a.same(&b),
        a@.len() == b@.len() && (forall|i: int|
            0 <= i < a@.len() ==> (#[trigger] a@[i]) is Some && b@[i] is Some
                && a@[i]->Some_0.same(&b@[i]->Some_0)) ==> a.same(&b),
        forall|i: int|
            0 <= i < a@.len() && i < b@.len() && (#[trigger] a@[i]) is None && b@[i] is Some
                ==> !a.same(&b) && !b.same(&a),
{
    if a.same(&b) {
        assert forall|i: int| 0 <= i < a@.len() implies {
            &&& (#[trigger] a@[i]) is Some <==> b@[i] is Some
            &&& a@[i] is Some ==> a@[i]->Some_0.same(&b@[i]->Some_0)
        } by {
            assert(a@[i].same(&b@[i]));
        }
    }
    assert forall|i: int|
        0 <= i < a@.len() && i < b@.len() && (#[trigger] a@[i]) is None
            && b@[i] is Some implies !a.same(&b) && !b.same(&a) by {
        assert(!a@[i].same(&b@[i]));
        assert(!b@[i].same(&a@[i]));
    }
}

/// Array cells are compared within their element type.
pub proof fn law_array_cells_are_compared_within_their_type(a: ArrayCell, b: ArrayCell)
    ensures
        a.same(&b) ==> a.shape() == b.shape(),
        Cell::Array(a).same(&Cell::Array(b)) <==> a.same(&b),
        a matches ArrayCell::I32(x) ==> (b matches ArrayCell::I32(y) ==> (a.same(&b) <==> x.same(
            &y,
        ))),
        a matches ArrayCell::I64(x) ==> (b matches ArrayCell::I64(y) ==> (a.same(&b) <==> x.same(
            &y,
        ))),
        a matches ArrayCell::I16(x) ==> (b matches ArrayCell::I16(y) ==> (a.same(&b) <==> x.same(
            &y,
        ))),
        a matches ArrayCell::U32(x) ==> (b matches ArrayCell::U32(y) ==> (a.same(&b) <==> x.same(
            &y,
        ))),
        a matches ArrayCell::Bool(x) ==> (b matches ArrayCell::Bool(y) ==> (a.same(&b) <==> x.same(
            &y,
        ))),
        a matches ArrayCell::String(x) ==> (b matches ArrayCell::String(y) ==> (a.same(&b)
            <==> x.same(&y))),
        a matches ArrayCell::F32(x) ==> (b matches ArrayCell::F32(y) ==> (a.same(&b) <==> x.same(
            &y,
        ))),
        a matches ArrayCell::F64(x) ==> (b matches ArrayCell::F64(y) ==> (a.same(&b) <==> x.same(
            &y,
        ))),
        a matches ArrayCell::Numeric(x) ==> (b matches ArrayCell::Numeric(y) ==> (a.same(&b)
            <==> x.same(&y))),
        a matches ArrayCell::Date(x) ==> (b matches ArrayCell::Date(y) ==> (a.same(&b) <==> x.same(
            &y,
        ))),
        a matches ArrayCell::Time(x) ==> (b matches ArrayCell::Time(y) ==> (a.same(&b) <==> x.same(
            &y,
        ))),
        a matches ArrayCell::Timestamp(x) ==> (b matches ArrayCell::Timestamp(y) ==> (a.same(&b)
            <==> x.same(&y))),
        a matches ArrayCell::TimestampTz(x) ==> (b matches ArrayCell::TimestampTz(y) ==> (a.same(&b)
            <==> x.same(&y))),
        a matches ArrayCell::Uuid(x) ==> (b matches ArrayCell::Uuid(y) ==> (a.same(&b) <==> x.same(
            &y,
        ))),
        a matches ArrayCell::Json(x) ==> (b matches ArrayCell::Json(y) ==> (a.same(&b) <==> x.same(
            &y,
        ))),
        a matches ArrayCell::Bytes(x) ==> (b matches ArrayCell::Bytes(y) ==> (a.same(&b) <==> x.same(
            &y,
        ))),
{
}

/// A month has 28 to 31 days; February has its 29th day in every fourth year, but of the centuries
/// only in every fourth.
pub proof fn law_the_calendar_is_gregorian(year: int)
    ensures
        forall|month: int, day: int|
            #[trigger] valid_date(year, month, day) ==> 1 <= month <= 12 && 1 <= day <= 31
                && -262143 <= year <= 262142,
        -262143 <= year <= 262142 ==> {
            &&& valid_date(year, 1, 31) && !valid_date(year, 1, 32)
            &&& valid_date(year, 2, 28) && !valid_date(year, 2, 30)
            &&& valid_date(year, 3, 31) && !valid_date(year, 3, 32)
            &&& valid_date(year, 4, 30) && !valid_date(year, 4, 31)
            &&& valid_date(year, 5, 31) && !valid_date(year, 5, 32)
            &&& valid_date(year, 6, 30) && !valid_date(year, 6, 31)
            &&& valid_date(year, 7, 31) && !valid_date(year, 7, 32)
            &&& valid_date(year, 8, 31) && !valid_date(year, 8, 32)
            &&& valid_date(year, 9, 30) && !valid_date(year, 9, 31)
            &&& valid_date(year, 10, 31) && !valid_date(year, 10, 32)
            &&& valid_date(year, 11, 30) && !valid_date(year, 11, 31)
            &&& valid_date(year, 12, 31) && !valid_date(year, 12, 32)
            &&& year % 4 != 0 ==> !valid_date(year, 2, 29)
            &&& year % 4 == 0 && year % 100 != 0 ==> valid_date(year, 2, 29)
            &&& year % 100 == 0 && year % 400 != 0 ==> !valid_date(year, 2, 29)
            &&& year % 400 == 0 ==> valid_date(year, 2, 29)
        },
{
}

/// A row holds what its values hold, in order. A text cell holds its characters and a number its
/// value.
pub proof fn law_rows_hold_their_values(row: TableRow)
    ensures
        row@.len() == row.values@.len(),
        forall|i: int| 0 <= i < row@.len() ==> #[trigger] row@[i] == row.values@[i]@,
        forall|i: int|
            0 <= i < row@.len() ==> (#[trigger] row.values@[i] matches Cell::String(s) ==> row@[i]
                == CellModel::Text(s@)),
        forall|i: int|
            0 <= i < row@.len() ==> (#[trigger] row.values@[i] matches Cell::I64(n) ==> row@[i]
                == CellModel::Value(Cell::I64(n))),
        forall|i: int|
            0 <= i < row@.len() ==> (#[trigger] row.values@[i] is Null <==> row@[i]
                == CellModel::Value(Cell::Null)),
{
}

/// A day has 24 hours of 60 minutes of 60 seconds; only the last second of a minute can be a leap
/// second.
pub proof fn law_times_of_day(hour: int, minute: int, second: int, nano: int)
    ensures
        valid_time(hour, minute, second, nano) ==> 0 <= hour <= 23 && 0 <= minute <= 59 && 0
            <= second <= 59 && 0 <= nano <= 1_999_999_999,
        0 <= hour <= 23 && 0 <= minute <= 59 && 0 <= second <= 59 && 0 <= nano <= 999_999_999
            ==> valid_time(hour, minute, second, nano),
        nano >= 1_000_000_000 && second != 59 ==> !valid_time(hour, minute, second, nano),
{
}

/// Dates and times are made if and only if their numbers name some, and then have those numbers.
pub proof fn law_dates_and_times_are_what_they_were_made_of(
    ymd: (i32, u32, u32),
    hmsn: (u32, u32, u32, u32),
    date: Option<Date>,
    time: Option<Time>,
)
    requires
        call_ensures(Date::from_ymd_opt, (ymd.0, ymd.1, ymd.2), date),
        call_ensures(Time::from_hms_nano_opt, (hmsn.0, hmsn.1, hmsn.2, hmsn.3), time),
    ensures
        date is Some <==> valid_date(ymd.0 as int, ymd.1 as int, ymd.2 as int),
        date matches Some(d) ==> d.ymd() == (ymd.0 as int, ymd.1 as int, ymd.2 as int),
        time is Some <==> valid_time(hmsn.0 as int, hmsn.1 as int, hmsn.2 as int, hmsn.3 as int),
        time matches Some(t) ==> t.hmsn() == (
            hmsn.0 as int,
            hmsn.1 as int,
            hmsn.2 as int,
            hmsn.3 as int,
        ),
{
}

/// Ten to the power of `width`: what `width` decimal digits can hold.
pub open spec fn digit_limit(width: nat) -> nat
    decreases width,
{
    if width == 0 {
        1
    } else {
        10 * digit_limit((width - 1) as nat)
    }
}

/// Zero-padded digits stand for their number.
pub proof fn law_digits_stand_for_their_number(n: nat, width: nat)
    requires
        n < digit_limit(width),
    ensures
        digits(n, width).len() == width,
        positional(digits(n, width), 10) == n,
    decreases width,
{
    if width > 0 {
        let w = (width - 1) as nat;
        law_digits_stand_for_their_number(n / 10, w);
        law_digit_characters((n % 10) as int);
        assert(digits(n, width).drop_last() =~= digits(n / 10, w));
    }
}

/// A written date reads back: behind the year stand a hyphen, two digits of the month, another hyphen
/// and two digits of the day. Years of more than four digits have a sign.
pub proof fn law_dates_read_back(date: (int, int, int))
    requires
        valid_date(date.0, date.1, date.2),
    ensures
        ({
            let s = date_text(date);
            let n = s.len() as int;
            &&& n >= 10
            &&& positional(s.subrange(n - 2, n), 10) == date.2
            &&& s[n - 3] == '-'
            &&& positional(s.subrange(n - 5, n - 3), 10) == date.1
            &&& s[n - 6] == '-'
            &&& date.0 <= 9999 ==> signed_number(s.take(n - 6)) == date.0
            &&& date.0 > 9999 ==> s[0] == '+' && positional(s.subrange(1, n - 6), 10) == date.0
            &&& 0 <= date.0 <= 9999 <==> n == 10
        }),
{
    reveal_strlit("-");
    reveal_strlit("+");
    reveal_with_fuel(digit_limit, 5);
    let y = year_text(date.0);
    let m = digits(date.1 as nat, 2);
    let d = digits(date.2 as nat, 2);
    law_digits_stand_for_their_number(date.1 as nat, 2);
    law_digits_stand_for_their_number(date.2 as nat, 2);
    let s = date_text(date);
    let n = s.len() as int;
    if 0 <= date.0 <= 9999 {
        law_digits_stand_for_their_number(date.0 as nat, 4);
        reveal_with_fuel(digits, 5);
        law_digit_characters((date.0 / 1000) % 10);
        assert(y[0] == digit_char(((date.0 as nat) / 10 / 10 / 10 % 10) as int));
        law_digit_characters(((date.0 as nat) / 10 / 10 / 10 % 10) as int);
        assert(y[0] != '-');
    } else if -9999 <= date.0 && date.0 < 0 {
        law_digits_stand_for_their_number((-date.0) as nat, 4);
        assert(y.skip(1) =~= digits((-date.0) as nat, 4));
    } else if date.0 < 0 {
        law_decimal_stands_for_its_number((-date.0) as nat);
        assert(y.skip(1) =~= decimal((-date.0) as nat));
        reveal_with_fuel(decimal, 6);
    } else {
        law_decimal_stands_for_its_number(date.0 as nat);
        assert(y.skip(1) =~= decimal(date.0 as nat));
        reveal_with_fuel(decimal, 6);
    }
    assert(s.subrange(n - 2, n) =~= d);
    assert(s.subrange(n - 5, n - 3) =~= m);
    assert(s.take(n - 6) =~= y);
    assert(s.subrange(1, n - 6) =~= y.skip(1));
}

/// A written time of day reads back: two digits each of the hour, the minute and the second, with colons
/// between them. A fraction stands behind a point in three, six or nine digits, the fewest that hold it.
pub proof fn law_times_read_back(time: (int, int, int, int))
    requires
        valid_time(time.0, time.1, time.2, time.3),
    ensures
        ({
            let s = time_text(time);
            let nano = time.3 % 1_000_000_000;
            &&& positional(s.subrange(0, 2), 10) == time.0
            &&& s[2] == ':'
            &&& positional(s.subrange(3, 5), 10) == time.1
            &&& s[5] == ':'
            &&& time.3 < 1_000_000_000 ==> positional(s.subrange(6, 8), 10) == time.2
            &&& time.3 >= 1_000_000_000 ==> positional(s.subrange(6, 8), 10) == 60
            &&& nano == 0 <==> s.len() == 8
            &&& nano != 0 ==> s[8] == '.'
            &&& nano != 0 && nano % 1_000_000 == 0 ==> s.len() == 12 && positional(s.skip(9), 10)
                * 1_000_000 == nano
            &&& nano % 1_000_000 != 0 && nano % 1_000 == 0 ==> s.len() == 15 && positional(
                s.skip(9),
                10,
            ) * 1_000 == nano
            &&& nano % 1_000 != 0 ==> s.len() == 18 && positional(s.skip(9), 10) == nano
        }),
{
    reveal_strlit(":");
    reveal_strlit(".");
    reveal_with_fuel(digit_limit, 10);
    let nano = (time.3 % 1_000_000_000) as nat;
    let second = (time.2 + time.3 / 1_000_000_000) as nat;
    law_digits_stand_for_their_number(time.0 as nat, 2);
    law_digits_stand_for_their_number(time.1 as nat, 2);
    law_digits_stand_for_their_number(second, 2);
    let s = time_text(time);
    let f = fraction_text(nano);
    assert(s.subrange(0, 2) =~= digits(time.0 as nat, 2));
    assert(s.subrange(3, 5) =~= digits(time.1 as nat, 2));
    assert(s.subrange(6, 8) =~= digits(second, 2));
    if nano == 0 {
    } else if nano % 1_000_000 == 0 {
        law_digits_stand_for_their_number(nano / 1_000_000, 3);
        assert(s.skip(9) =~= digits(nano / 1_000_000, 3));
    } else if nano % 1_000 == 0 {
        law_digits_stand_for_their_number(nano / 1_000, 6);
        assert(s.skip(9) =~= digits(nano / 1_000, 6));
    } else {
        law_digits_stand_for_their_number(nano, 9);
        assert(s.skip(9) =~= digits(nano, 9));
    }
}

/// A written UUID reads back: its hexadecimal digits stand in groups of eight, four, four, four and
/// twelve, with hyphens between them.
pub proof fn law_uuids_read_back(bits: u128)
    ensures
        ({
            let s = uuid_text(bits as nat);
            &&& s.len() == 36
            &&& s[8] == '-' && s[13] == '-' && s[18] == '-' && s[23] == '-'
            &&& positional(
                s.subrange(0, 8) + s.subrange(9, 13) + s.subrange(14, 18) + s.subrange(19, 23)
                    + s.subrange(24, 36),
                16,
            ) == bits
        }),
{
    reveal_strlit("-");
    reveal_with_fuel(hex_limit, 33);
    law_hex_stands_for_its_number(bits as nat, 32);
    let s = uuid_text(bits as nat);
    assert(s.subrange(0, 8) + s.subrange(9, 13) + s.subrange(14, 18) + s.subrange(19, 23)
        + s.subrange(24, 36) =~= hex(bits as nat, 32));
}

/// A moment's text is that of its date and that of its time with a space between them; one in universal
/// time ends with its offset of zero.
pub proof fn law_moments_are_dates_and_times(moment: Timestamp)
    ensures
        moment.text() == moment.date.text() + " "@ + moment.time.text(),
        moment.utc_text() == moment.text() + "+00:00"@,
        moment.date.text() == date_text(moment.date.ymd()),
        moment.time.text() == time_text(moment.time.hmsn()),
{
}

} // verus!
