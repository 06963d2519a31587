//! ULIDs: their 128-bit values, and what their timestamps say about the
//! calendar.

use vstd::prelude::*;
use vstd::utf8::encode_utf8;
use crate::clock::whole_seconds;
use jiff::tz::TimeZone;
use jiff::Timestamp;
use ulid::Ulid;

verus! {

/// The value of one character of Crockford's base 32, in either case: the ten
/// digits, then the letters without `I`, `L`, `O` and `U`.
pub open spec fn crockford_digit(b: u8) -> Option<u8> {
    let c = if 'a' as u8 <= b && b <= 'z' as u8 {
        (b - 32) as u8
    } else {
        b
    };
    if '0' as u8 <= c && c <= '9' as u8 {
        Some((c - '0' as u8) as u8)
    } else if 'A' as u8 <= c && c <= 'H' as u8 {
        Some((c - 'A' as u8 + 10) as u8)
    } else if c == 'J' as u8 || c == 'K' as u8 {
        Some((c - 'J' as u8 + 18) as u8)
    } else if c == 'M' as u8 || c == 'N' as u8 {
        Some((c - 'M' as u8 + 20) as u8)
    } else if 'P' as u8 <= c && c <= 'T' as u8 {
        Some((c - 'P' as u8 + 22) as u8)
    } else if 'V' as u8 <= c && c <= 'Z' as u8 {
        Some((c - 'V' as u8 + 27) as u8)
    } else {
        None
    }
}

/// The number that the characters write in base 32, most significant first, kept
/// to its low 128 bits.
pub open spec fn base32_number(bytes: Seq<u8>) -> nat
    decreases bytes.len(),
{
    if bytes.len() == 0 {
        0
    } else {
        ((base32_number(bytes.drop_last()) * 32 + crockford_digit(bytes.last()).unwrap()) as int
            % 0x1_0000_0000_0000_0000_0000_0000_0000_0000int) as nat
    }
}

/// The value of a ULID's text: 26 characters of Crockford's base 32. Any other
/// text has none.
pub open spec fn ulid_value(text: Seq<char>) -> Option<u128> {
    let bytes = encode_utf8(text);
    if bytes.len() == 26 && forall|i: int|
        0 <= i < bytes.len() ==> crockford_digit(#[trigger] bytes[i]) is Some {
        Some(base32_number(bytes) as u128)
    } else {
        None
    }
}

/// `Ulid::from_string` accepts a text of exactly 26 bytes, each a character of
/// Crockford's base 32 in either case, and reads them as one number, five bits per
/// character, of which the low 128 bits are kept.
#[verifier::external_body]
fn parse_ulid(text: &str) -> (value: Option<u128>)
    ensures
        value == ulid_value(text@),
{
    Ulid::from_string(text).ok().map(|ulid| ulid.0)
}

/// The month (1 to 12), the day of the month (1 to 31) and the weekday (Monday
/// is 0, Sunday is 6) of an instant in UTC, given as milliseconds since the Unix
/// epoch, where the calendar reaches that far.
pub uninterp spec fn utc_day(millis: int) -> Option<(i8, i8, i8)>;

/// `Timestamp::from_millisecond` refuses what lies outside its range;
/// `Timestamp::to_zoned` with `TimeZone::UTC`, then `Zoned::month`, `Zoned::day`
/// and `Zoned::weekday` with `Weekday::to_monday_zero_offset` give the calendar
/// day. All of it depends on the number alone and is named `utc_day`.
#[verifier::external_body]
fn utc_day_of(millis: i64) -> (day: Option<(i8, i8, i8)>)
    ensures
        day == utc_day(millis as int),
{
    let zoned = Timestamp::from_millisecond(millis).ok()?.to_zoned(TimeZone::UTC);
    Some((zoned.month(), zoned.day(), zoned.weekday().to_monday_zero_offset()))
}

/// Why a list of ULIDs could not be worked through.
#[derive(Clone, Copy, Debug, PartialEq, Eq, Structural)]
pub enum UlidError {
    /// A text is no ULID.
    ParseULIDError,
    /// A ULID's timestamp lies beyond the calendar.
    ParseTimestampError,
}

/// The milliseconds since the Unix epoch that a ULID carries in its high 48 bits.
pub open spec fn timestamp_millis(value: u128) -> int {
    (value / 0x1_0000_0000_0000_0000_0000) as int
}

/// The values of the texts where every one of them is a ULID.
pub open spec fn ulid_values(texts: Seq<Seq<char>>) -> Option<Seq<u128>>
    decreases texts.len(),
{
    if texts.len() == 0 {
        Some(Seq::empty())
    } else {
        match (ulid_values(texts.drop_last()), ulid_value(texts.last())) {
            (Some(values), Some(value)) => Some(values.push(value)),
            _ => None,
        }
    }
}

/// The texts of a list of strings.
pub open spec fn texts_of(list: Seq<String>) -> Seq<Seq<char>> {
    Seq::new(list.len(), |i: int| list[i]@)
}

/// Reads every text as a ULID and hands back the values, last first. Each value
/// is also the 128-bit value of the UUID that the ULID converts to.
pub fn ulids_to_uuids(ulids: &Vec<String>) -> (uuids: Result<Vec<u128>, UlidError>)
    ensures
        match ulid_values(texts_of(ulids@)) {
            Some(values) => uuids matches Ok(list) && list@ == values.reverse(),
            None => uuids == Err::<Vec<u128>, UlidError>(UlidError::ParseULIDError),
        },
{
    let n = ulids.len();
    let mut values: Vec<u128> = Vec::new();
    let mut i: usize = 0;
    while i < n
        invariant
            n == ulids.len(),
            i <= n,
            ulid_values(texts_of(ulids@).take(i as int)) == Some(values@),
        decreases n - i,
    {
        let ghost texts = texts_of(ulids@);
        assert(texts.take(i + 1).drop_last() == texts.take(i as int));
        assert(texts.take(i + 1).last() == ulids@[i as int]@);
        match parse_ulid(ulids[i].as_str()) {
            Some(value) => values.push(value),
            None => {
                proof {
                    lemma_no_values_later(texts, i + 1);
                }
                return Err(UlidError::ParseULIDError);
            },
        }
        i += 1;
    }
    assert(texts_of(ulids@).take(n as int) == texts_of(ulids@));
    let ghost forward = values@;
    let mut k: usize = 0;
    let len = values.len();
    let mut turned: Vec<u128> = Vec::new();
    while k < len
        invariant
            len == values.len(),
            k <= len,
            values@ == forward,
            turned@.len() == k,
            forall|j: int| 0 <= j < k ==> turned@[j] == forward[len - 1 - j],
        decreases len - k,
    {
        turned.push(values[len - 1 - k]);
        k += 1;
    }
    assert(turned@ =~= forward.reverse());
    Ok(turned)
}

/// Where a beginning of the texts has no values, the whole has none.
pub proof fn lemma_no_values_later(texts: Seq<Seq<char>>, k: int)
    requires
        0 <= k <= texts.len(),
        ulid_values(texts.take(k)) is None,
    ensures
        ulid_values(texts) is None,
    decreases texts.len() - k,
{
    if k < texts.len() {
        assert(texts.take(k + 1).drop_last() == texts.take(k));
        lemma_no_values_later(texts, k + 1);
    } else {
        assert(texts.take(k) == texts);
    }
}


/// What one ULID says of itself.
#[derive(Clone, Copy, Debug, PartialEq, Eq, Structural)]
pub struct Marks {
    /// Its day is the 24th of December.
    pub christmas_eve: bool,
    /// Its weekday is the one asked for.
    pub weekday: bool,
    /// Its instant lies a second or more after now.
    pub in_the_future: bool,
    /// Its lowest bit is set.
    pub lsb_is_one: bool,
}

/// How many ULIDs of a list bear each mark.
#[derive(Clone, Copy, Debug, PartialEq, Eq, Structural)]
pub struct DateTally {
    pub christmas_eve: u64,
    pub weekday: u64,
    pub in_the_future: u64,
    pub lsb_is_one: u64,
}

/// A tally as contracts see it.
pub struct TallyModel {
    pub christmas_eve: nat,
    pub weekday: nat,
    pub in_the_future: nat,
    pub lsb_is_one: nat,
}

impl View for DateTally {
    type V = TallyModel;

    open spec fn view(&self) -> TallyModel {
        TallyModel {
            christmas_eve: self.christmas_eve as nat,
            weekday: self.weekday as nat,
            in_the_future: self.in_the_future as nat,
            lsb_is_one: self.lsb_is_one as nat,
        }
    }
}

impl TallyModel {
    /// The tally with one more ULID counted.
    pub open spec fn with(self, marks: Marks) -> TallyModel {
        TallyModel {
            christmas_eve: self.christmas_eve + if marks.christmas_eve { 1nat } else { 0nat },
            weekday: self.weekday + if marks.weekday { 1nat } else { 0nat },
            in_the_future: self.in_the_future + if marks.in_the_future { 1nat } else { 0nat },
            lsb_is_one: self.lsb_is_one + if marks.lsb_is_one { 1nat } else { 0nat },
        }
    }

    /// No mark is counted more often than `count` times.
    pub open spec fn within(self, count: nat) -> bool {
        self.christmas_eve <= count && self.weekday <= count && self.in_the_future <= count
            && self.lsb_is_one <= count
    }
}

/// The instant `millis` milliseconds after the epoch lies in the future of the
/// instant `now_nanos` nanoseconds after the epoch: the whole seconds from the one
/// to the other are negative.
pub open spec fn is_future(millis: int, now_nanos: int) -> bool {
    whole_seconds(now_nanos - millis * 1_000_000) < 0
}

/// The marks of a ULID with the given value whose timestamp falls on the given
/// calendar day.
pub open spec fn marks_on(value: u128, day: (i8, i8, i8), weekday: i8, now_nanos: int) -> Marks {
    Marks {
        christmas_eve: day.0 == 12 && day.1 == 24,
        weekday: day.2 == weekday,
        in_the_future: is_future(timestamp_millis(value), now_nanos),
        lsb_is_one: value % 2 == 1,
    }
}

/// The marks of a text: those of its value on the day of its timestamp, where it
/// is a ULID whose timestamp the calendar reaches.
pub open spec fn marks_of(text: Seq<char>, weekday: i8, now_nanos: int) -> Result<Marks, UlidError> {
    match ulid_value(text) {
        None => Err(UlidError::ParseULIDError),
        Some(value) => match utc_day(timestamp_millis(value)) {
            None => Err(UlidError::ParseTimestampError),
            Some(day) => Ok(marks_on(value, day, weekday, now_nanos)),
        },
    }
}

/// The tally of a list of texts, or the error of the first text that has one.
pub open spec fn tally_of(texts: Seq<Seq<char>>, weekday: i8, now_nanos: int) -> Result<
    TallyModel,
    UlidError,
>
    decreases texts.len(),
{
    if texts.len() == 0 {
        Ok(TallyModel { christmas_eve: 0, weekday: 0, in_the_future: 0, lsb_is_one: 0 })
    } else {
        match tally_of(texts.drop_last(), weekday, now_nanos) {
            Err(e) => Err(e),
            Ok(tally) => match marks_of(texts.last(), weekday, now_nanos) {
                Err(e) => Err(e),
                Ok(marks) => Ok(tally.with(marks)),
            },
        }
    }
}

/// Where a beginning of the texts has an error, the whole has the same.
pub proof fn lemma_first_error_stays(texts: Seq<Seq<char>>, weekday: i8, now_nanos: int, k: int)
    requires
        0 <= k <= texts.len(),
        tally_of(texts.take(k), weekday, now_nanos) is Err,
    ensures
        tally_of(texts, weekday, now_nanos) == tally_of(texts.take(k), weekday, now_nanos),
    decreases texts.len() - k,
{
    if k < texts.len() {
        assert(texts.take(k + 1).drop_last() == texts.take(k));
        lemma_first_error_stays(texts, weekday, now_nanos, k + 1);
    } else {
        assert(texts.take(k) == texts);
    }
}

/// The milliseconds since the Unix epoch that a ULID carries.
pub fn timestamp_ms(value: u128) -> (millis: u64)
    ensures
        millis == timestamp_millis(value),
        millis < 0x1_0000_0000_0000,
{
    let high: u128 = value >> 80;
    assert(high == value / 0x1_0000_0000_0000_0000_0000 && high < 0x1_0000_0000_0000) by (bit_vector)
        requires
            high == value >> 80,
    ;
    high as u64
}

/// Marks a ULID with the given value whose timestamp falls on the given day.
pub fn mark(value: u128, day: (i8, i8, i8), weekday: i8, now_nanos: i128) -> (marks: Marks)
    ensures
        marks == marks_on(value, day, weekday, now_nanos as int),
{
    let millis = timestamp_ms(value) as i128;
    let low: u128 = value & 1;
    assert(low == value % 2) by (bit_vector)
        requires
            low == value & 1,
    ;
    let in_the_future = match (millis * 1_000_000).checked_sub(now_nanos) {
        Some(ahead) => ahead >= 1_000_000_000,
        None => now_nanos < 0,
    };
    Marks {
        christmas_eve: day.0 == 12 && day.1 == 24,
        weekday: day.2 == weekday,
        in_the_future,
        lsb_is_one: low == 1,
    }
}

/// Reads a text as a ULID and marks it.
pub fn read_marks(text: &str, weekday: i8, now_nanos: i128) -> (marks: Result<Marks, UlidError>)
    ensures
        marks == marks_of(text@, weekday, now_nanos as int),
{
    let value = match parse_ulid(text) {
        Some(value) => value,
        None => {
            return Err(UlidError::ParseULIDError);
        },
    };
    match utc_day_of(timestamp_ms(value) as i64) {
        Some(day) => Ok(mark(value, day, weekday, now_nanos)),
        None => Err(UlidError::ParseTimestampError),
    }
}

/// Counts in a tally one more ULID.
pub fn count(tally: DateTally, marks: Marks) -> (next: DateTally)
    requires
        tally@.within((u64::MAX - 1) as nat),
    ensures
        next@ == tally@.with(marks),
{
    DateTally {
        christmas_eve: tally.christmas_eve + if marks.christmas_eve { 1 } else { 0 },
        weekday: tally.weekday + if marks.weekday { 1 } else { 0 },
        in_the_future: tally.in_the_future + if marks.in_the_future { 1 } else { 0 },
        lsb_is_one: tally.lsb_is_one + if marks.lsb_is_one { 1 } else { 0 },
    }
}

/// Works through a list of ULIDs and counts how many fall on Christmas Eve, how
/// many on the given weekday (Monday is 0), how many lie in the future of
/// `now_nanos` (nanoseconds since the Unix epoch), and how many have their lowest
/// bit set. The first text that is no ULID, or whose timestamp the calendar does
/// not reach, ends the work with its error.
pub fn ulid_to_dates(weekday: i8, ulids: &Vec<String>, now_nanos: i128) -> (tally: Result<
    DateTally,
    UlidError,
>)
    ensures
        match tally_of(texts_of(ulids@), weekday, now_nanos as int) {
            Ok(model) => tally matches Ok(counted) && counted@ == model,
            Err(e) => tally == Err::<DateTally, UlidError>(e),
        },
{
    let n = ulids.len();
    let mut counted = DateTally { christmas_eve: 0, weekday: 0, in_the_future: 0, lsb_is_one: 0 };
    let mut i: usize = 0;
    while i < n
        invariant
            n == ulids.len(),
            i <= n,
            counted@.within(i as nat),
            tally_of(texts_of(ulids@).take(i as int), weekday, now_nanos as int) == Ok::<
                TallyModel,
                UlidError,
            >(counted@),
        decreases n - i,
    {
        let ghost texts = texts_of(ulids@);
        assert(texts.take(i + 1).drop_last() == texts.take(i as int));
        assert(texts.take(i + 1).last() == ulids@[i as int]@);
        match read_marks(ulids[i].as_str(), weekday, now_nanos) {
            Ok(marks) => {
                counted = count(counted, marks);
            },
            Err(e) => {
                proof {
                    lemma_first_error_stays(texts, weekday, now_nanos as int, i + 1);
                }
                return Err(e);
            },
        }
        i += 1;
    }
    assert(texts_of(ulids@).take(n as int) == texts_of(ulids@));
    Ok(counted)
}

} // verus!
