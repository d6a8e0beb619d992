//! What a MIME decoder hands over, as plain values: the headers of a message
//! and the leaves of its part tree in depth-first order.

use crate::text::{eq_ignore_ascii_case, same_ignoring_ascii_case, str_eq};
use vstd::prelude::*;

verus! {

/// A calendar date and time of day as a decoder read it from a header, in
/// the header's own time zone.
pub struct DateTime {
    year: u16,
    month: u8,
    day: u8,
    hour: u8,
    minute: u8,
    second: u8,
}

/// The fields of a [`DateTime`].
pub struct DateTimeView {
    pub year: int,
    pub month: int,
    pub day: int,
    pub hour: int,
    pub minute: int,
    pub second: int,
}

/// Whether the fields name a date and time that can be written with four
/// digits for the year and two for each other field.
pub open spec fn is_date_time(v: DateTimeView) -> bool {
    0 <= v.year <= 9999 && 1 <= v.month <= 12 && 1 <= v.day <= 31 && 0 <= v.hour <= 23 && 0
        <= v.minute <= 59 && 0 <= v.second <= 59
}

/// The decimal digit for `n`.
pub open spec fn digit(n: int) -> char {
    (48 + n) as char
}

/// `n` written with two digits.
pub open spec fn two_digits(n: int) -> Seq<char> {
    seq![digit(n / 10), digit(n % 10)]
}

/// `n` written with four digits.
pub open spec fn four_digits(n: int) -> Seq<char> {
    seq![digit(n / 1000), digit(n / 100 % 10), digit(n / 10 % 10), digit(n % 10)]
}

/// The date and time as `YYYY-MM-DD HH:MM:SS`.
pub open spec fn formatted(v: DateTimeView) -> Seq<char> {
    four_digits(v.year) + seq!['-'] + two_digits(v.month) + seq!['-'] + two_digits(v.day) + seq![
        ' ',
    ] + two_digits(v.hour) + seq![':'] + two_digits(v.minute) + seq![':'] + two_digits(v.second)
}

fn push_two_digits(out: &mut String, n: u8)
    requires
        n <= 99,
    ensures
        final(out)@ == old(out)@ + two_digits(n as int),
{
    out.push((48 + n / 10) as char);
    out.push((48 + n % 10) as char);
    assert(out@ =~= old(out)@ + two_digits(n as int));
}

impl View for DateTime {
    type V = DateTimeView;

    closed spec fn view(&self) -> DateTimeView {
        DateTimeView {
            year: self.year as int,
            month: self.month as int,
            day: self.day as int,
            hour: self.hour as int,
            minute: self.minute as int,
            second: self.second as int,
        }
    }
}

impl DateTime {
    #[verifier::type_invariant]
    spec fn well_formed(&self) -> bool {
        is_date_time(self@)
    }

    /// The date and time with these fields, where they are in range.
    pub fn new(year: u16, month: u8, day: u8, hour: u8, minute: u8, second: u8) -> (r: Option<
        DateTime,
    >)
        ensures
            r is Some <==> is_date_time(
                DateTimeView {
                    year: year as int,
                    month: month as int,
                    day: day as int,
                    hour: hour as int,
                    minute: minute as int,
                    second: second as int,
                },
            ),
            r is Some ==> r->0@ == (DateTimeView {
                year: year as int,
                month: month as int,
                day: day as int,
                hour: hour as int,
                minute: minute as int,
                second: second as int,
            }),
    {
        if year <= 9999 && 1 <= month && month <= 12 && 1 <= day && day <= 31 && hour <= 23
            && minute <= 59 && second <= 59 {
            Some(DateTime { year, month, day, hour, minute, second })
        } else {
            None
        }
    }

    /// Writes the date and time as `YYYY-MM-DD HH:MM:SS`.
    pub fn format(&self) -> (text: String)
        ensures
            text@ == formatted(self@),
            text@.len() == 19,
    {
        proof {
            use_type_invariant(self);
        }
        let mut out = String::new();
        let century: u8 = (self.year / 100) as u8;
        let years: u8 = (self.year % 100) as u8;
        push_two_digits(&mut out, century);
        push_two_digits(&mut out, years);
        assert(out@ =~= four_digits(self.year as int)) by {
            let y = self.year as int;
            assert(y / 100 / 10 == y / 1000);
            assert(y / 100 % 10 == y / 100 % 10);
            assert(y % 100 / 10 == y / 10 % 10);
            assert(y % 100 % 10 == y % 10);
        }
        out.push('-');
        push_two_digits(&mut out, self.month);
        out.push('-');
        push_two_digits(&mut out, self.day);
        out.push(' ');
        push_two_digits(&mut out, self.hour);
        out.push(':');
        push_two_digits(&mut out, self.minute);
        out.push(':');
        push_two_digits(&mut out, self.second);
        assert(out@ =~= formatted(self@));
        out
    }
}

/// The date header of a message.
pub enum MimeDate {
    /// The message has no date header.
    Missing,
    /// The header holds this date and time.
    Parsed(DateTime),
    /// The header could not be turned into a date; the text says why.
    Invalid(String),
}

/// One address of an address list.
pub struct Address {
    /// The address as the decoder renders it, `Display Name <address>` or the
    /// bare address; `None` where the decoder has no rendering for it.
    pub text: Option<String>,
}

/// The content type of a part.
pub struct ContentType {
    pub media_type: String,
    pub subtype: String,
    /// The `charset` parameter, where the header has one.
    pub charset: Option<String>,
}

/// Whether a type or subtype matches a pattern: `*` matches anything, any
/// other pattern matches without regard to ASCII case.
pub open spec fn matches_pattern(value: Seq<char>, pattern: Seq<char>) -> bool {
    pattern == "*"@ || same_ignoring_ascii_case(value, pattern)
}

impl ContentType {
    /// Whether the content type is of the given type and subtype.
    pub open spec fn is_of_type(&self, media_type: Seq<char>, subtype: Seq<char>) -> bool {
        matches_pattern(self.media_type@, media_type) && matches_pattern(self.subtype@, subtype)
    }

    /// Tests the content type against a type and a subtype, each of which
    /// may be the wildcard `*`.
    pub fn is_type(&self, media_type: &str, subtype: &str) -> (r: bool)
        ensures
            r == self.is_of_type(media_type@, subtype@),
    {
        if str_eq(media_type, "*") || eq_ignore_ascii_case(self.media_type.as_str(), media_type) {
            str_eq(subtype, "*") || eq_ignore_ascii_case(self.subtype.as_str(), subtype)
        } else {
            false
        }
    }

    /// The type and subtype with a slash between them.
    pub open spec fn full_name(&self) -> Seq<char> {
        self.media_type@ + "/"@ + self.subtype@
    }

    /// The type and subtype as one text, such as `image/png`.
    pub fn mime_type(&self) -> (name: String)
        ensures
            name@ == self.full_name(),
    {
        let mut out = self.media_type.clone();
        out.append("/");
        out.append(self.subtype.as_str());
        out
    }
}

/// One leaf of the part tree.
pub struct MimePart {
    /// Whether the part's disposition marks it as an attachment.
    pub is_attachment: bool,
    pub content_id: Option<String>,
    pub filename: Option<String>,
    pub content_type: Option<ContentType>,
    /// The payload with its transfer encoding undone; `None` where the part
    /// has no content.
    pub content: Option<Vec<u8>>,
}

/// A decoded message: its headers and the leaves of its part tree in
/// depth-first order.
pub struct MimeMessage {
    pub from: Option<Vec<Address>>,
    pub to: Option<Vec<Address>>,
    pub cc: Option<Vec<Address>>,
    pub bcc: Option<Vec<Address>>,
    pub subject: Option<String>,
    pub date: MimeDate,
    pub parts: Vec<MimePart>,
}

} // verus!
