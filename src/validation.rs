use vstd::prelude::*;

use crate::commit::Timestamp;
use crate::error::RetconError;

verus! {

/// Whether `c` is a Unicode white-space character (the `White_Space` property,
/// as `char::is_whitespace` defines it).
pub open spec fn is_space_char(c: char) -> bool {
    ('\t' <= c && c <= '\r') || c == ' ' || c == '\u{85}' || c == '\u{a0}' || c == '\u{1680}'
        || ('\u{2000}' <= c && c <= '\u{200a}') || c == '\u{2028}' || c == '\u{2029}'
        || c == '\u{202f}' || c == '\u{205f}' || c == '\u{3000}'
}

/// Executable form of [`is_space_char`].
pub fn is_space(c: char) -> (r: bool)
    ensures
        r == is_space_char(c),
{
    ('\t' <= c && c <= '\r') || c == ' ' || c == '\u{85}' || c == '\u{a0}' || c == '\u{1680}'
        || ('\u{2000}' <= c && c <= '\u{200a}') || c == '\u{2028}' || c == '\u{2029}'
        || c == '\u{202f}' || c == '\u{205f}' || c == '\u{3000}'
}

/// The address splits at position `at` into a local part and a domain that
/// satisfy the email rules.
pub open spec fn email_split_ok(s: Seq<char>, at: int) -> bool {
    &&& 0 < at < s.len() - 1
    &&& s[at] == '@'
    &&& forall|j: int| 0 <= j < s.len() && j != at ==> s[j] != '@'
    &&& exists|d: int| at + 1 <= d < s.len() && s[d] == '.'
    &&& s[at + 1] != '.'
    &&& s[s.len() - 1] != '.'
}

/// A well-formed email address: exactly one `@`, with a non-empty local part
/// and a non-empty domain; the domain holds a `.` and neither starts nor ends
/// with one; no white space anywhere.
pub open spec fn is_valid_email(s: Seq<char>) -> bool {
    &&& exists|at: int| email_split_ok(s, at)
    &&& forall|k: int| 0 <= k < s.len() ==> !is_space_char(#[trigger] s[k])
}

/// Checks the shape of an email address (see [`is_valid_email`]).
pub fn validate_email(email: &str) -> (r: Result<(), RetconError>)
    ensures
        r is Ok <==> is_valid_email(email@),
        r matches Err(e) ==> e matches RetconError::InvalidEmail(m) && m@ == email@,
{
    let n = email.unicode_len();
    let mut first: usize = n;
    let mut second: usize = n;
    let mut space = false;
    let mut i: usize = 0;
    while i < n
        invariant
            n == email@.len(),
            i <= n,
            first == n || (first < i && email@[first as int] == '@'),
            forall|j: int| 0 <= j < i && j < first ==> email@[j] != '@',
            second == n || (first < second < i && email@[second as int] == '@'),
            second == n ==> forall|j: int| first < j < i ==> email@[j] != '@',
            space <==> exists|k: int| 0 <= k < i && is_space_char(email@[k]),
        decreases n - i,
    {
        let c = email.get_char(i);
        if c == '@' {
            if first == n {
                first = i;
            } else if second == n {
                second = i;
            }
        }
        if is_space(c) {
            space = true;
        }
        i = i + 1;
    }
    let ghost s = email@;
    if space {
        proof {
            let k = choose|k: int| 0 <= k < n && is_space_char(s[k]);
            assert(!(forall|k: int| 0 <= k < s.len() ==> !is_space_char(#[trigger] s[k])));
        }
        return Err(RetconError::InvalidEmail(String::from_str(email)));
    }
    if first == n || second != n || first == 0 || first + 1 >= n {
        proof {
            assert forall|at: int| !email_split_ok(s, at) by {
                if email_split_ok(s, at) {
                    if first == n {
                        assert(s[at] != '@');
                    } else if second != n {
                        assert(s[first as int] == '@' && s[second as int] == '@');
                    } else {
                        assert(at == first) by {
                            if at < first {
                                assert(s[at] != '@');
                            } else if at > first {
                                assert(s[at] != '@');
                            }
                        }
                    }
                }
            }
        }
        return Err(RetconError::InvalidEmail(String::from_str(email)));
    }
    let mut dot = false;
    let mut j: usize = first + 1;
    while j < n
        invariant
            first + 1 <= j <= n,
            n == email@.len(),
            dot <==> exists|d: int| first + 1 <= d < j && email@[d] == '.',
        decreases n - j,
    {
        if email.get_char(j) == '.' {
            dot = true;
        }
        j = j + 1;
    }
    let start_dot = email.get_char(first + 1) == '.';
    let end_dot = email.get_char(n - 1) == '.';
    proof {
        assert forall|at: int| email_split_ok(s, at) implies at == first by {
            if at < first {
                assert(s[at] == '@');
            } else if at > first {
                assert(s[first as int] == '@');
            }
        }
    }
    if !dot || start_dot || end_dot {
        return Err(RetconError::InvalidEmail(String::from_str(email)));
    }
    assert(email_split_ok(s, first as int));
    Ok(())
}

/// `s` without its leading white space.
pub open spec fn trim_start_seq(s: Seq<char>) -> Seq<char>
    decreases s.len(),
{
    if s.len() > 0 && is_space_char(s[0]) {
        trim_start_seq(s.drop_first())
    } else {
        s
    }
}

/// `s` without its trailing white space.
pub open spec fn trim_end_seq(s: Seq<char>) -> Seq<char>
    decreases s.len(),
{
    if s.len() > 0 && is_space_char(s[s.len() - 1]) {
        trim_end_seq(s.drop_last())
    } else {
        s
    }
}

/// `s` without white space at either end.
pub open spec fn trim_seq(s: Seq<char>) -> Seq<char> {
    trim_end_seq(trim_start_seq(s))
}

/// `s` without white space at either end (see [`trim_seq`]).
pub fn trim_spaces(s: &str) -> (r: &str)
    ensures
        r@ == trim_seq(s@),
{
    let n = s.unicode_len();
    let mut a: usize = 0;
    assert(s@.subrange(0, n as int) =~= s@);
    while a < n && is_space(s.get_char(a))
        invariant
            n == s@.len(),
            a <= n,
            trim_start_seq(s@) == trim_start_seq(s@.subrange(a as int, n as int)),
        decreases n - a,
    {
        assert(s@.subrange(a as int, n as int).drop_first() =~= s@.subrange(a + 1, n as int));
        a = a + 1;
    }
    assert(trim_start_seq(s@) == s@.subrange(a as int, n as int));
    let mut b: usize = n;
    while b > a && is_space(s.get_char(b - 1))
        invariant
            n == s@.len(),
            a <= b <= n,
            trim_seq(s@) == trim_end_seq(s@.subrange(a as int, b as int)),
        decreases b,
    {
        assert(s@.subrange(a as int, b as int).drop_last() =~= s@.subrange(a as int, b - 1));
        b = b - 1;
    }
    s.substring_char(a, b)
}

/// What chrono's `DateTime::parse_from_str` yields for a text and a format:
/// the instant in seconds since the epoch and the offset east of UTC in seconds.
pub uninterp spec fn offset_datetime_parse(s: Seq<char>, fmt: Seq<char>) -> Option<(i64, i32)>;

/// What chrono's `NaiveDateTime::parse_from_str` yields for a text and a
/// format, read as UTC: seconds since the epoch.
pub uninterp spec fn naive_datetime_parse(s: Seq<char>, fmt: Seq<char>) -> Option<i64>;

/// How chrono formats the instant `seconds` shown at offset `offset` with
/// the format `fmt`.
pub uninterp spec fn datetime_format(seconds: i64, offset: i32, fmt: Seq<char>) -> Seq<char>;

/// Relies on chrono's `DateTime::<FixedOffset>::parse_from_str`: the result
/// depends on the two texts alone, and a `FixedOffset` always lies strictly
/// within one day of UTC.
#[verifier::external_body]
fn parse_offset_datetime(s: &str, fmt: &str) -> (r: Option<(i64, i32)>)
    ensures
        r == offset_datetime_parse(s@, fmt@),
        r matches Some(p) ==> -86_400 < p.1 < 86_400,
{
    match chrono::DateTime::parse_from_str(s, fmt) {
        Ok(d) => Some((d.timestamp(), d.offset().local_minus_utc())),
        Err(_) => None,
    }
}

/// Relies on chrono's `NaiveDateTime::parse_from_str`, the result taken as UTC:
/// it depends on the two texts alone.
#[verifier::external_body]
fn parse_naive_datetime(s: &str, fmt: &str) -> (r: Option<i64>)
    ensures
        r == naive_datetime_parse(s@, fmt@),
{
    match chrono::NaiveDateTime::parse_from_str(s, fmt) {
        Ok(d) => Some(d.and_utc().timestamp()),
        Err(_) => None,
    }
}

/// Relies on chrono's `DateTime::format`, on the instant shown at a fixed
/// offset: the text depends on the arguments alone. An instant or an offset
/// that chrono cannot represent gives the empty text.
#[verifier::external_body]
fn format_datetime(seconds: i64, offset: i32, fmt: &str) -> (r: String)
    requires
        fmt@ == FULL_FORMAT@ || fmt@ == MINUTE_FORMAT@,
    ensures
        r@ == datetime_format(seconds, offset, fmt@),
{
    match (chrono::FixedOffset::east_opt(offset), chrono::DateTime::from_timestamp(seconds, 0)) {
        (Some(o), Some(d)) => d.with_timezone(&o).format(fmt).to_string(),
        _ => String::new(),
    }
}

/// The canonical date format, with seconds and offset.
pub const FULL_FORMAT: &'static str = "%Y-%m-%d %H:%M:%S %z";

/// The full format with no space before the offset.
pub const COMPACT_OFFSET_FORMAT: &'static str = "%Y-%m-%d %H:%M:%S%z";

/// Date and time to the second, without offset.
pub const SECOND_FORMAT: &'static str = "%Y-%m-%d %H:%M:%S";

/// Date and time to the minute, without offset.
pub const MINUTE_FORMAT: &'static str = "%Y-%m-%d %H:%M";

/// The time of day given to a bare date.
pub const MIDNIGHT: &'static str = " 00:00:00";

/// The timestamp a date text stands for, trying the accepted shapes in order
/// on the trimmed text: full with offset (with or without a space before it),
/// then without offset (UTC), then without seconds, then a bare date at
/// midnight UTC.
pub open spec fn date_value(s: Seq<char>) -> Option<Timestamp> {
    let t = trim_seq(s);
    if let Some(p) = offset_datetime_parse(t, FULL_FORMAT@) {
        Some(Timestamp { seconds: p.0, offset_seconds: p.1 })
    } else if let Some(p) = offset_datetime_parse(t, COMPACT_OFFSET_FORMAT@) {
        Some(Timestamp { seconds: p.0, offset_seconds: p.1 })
    } else if let Some(secs) = naive_datetime_parse(t, SECOND_FORMAT@) {
        Some(Timestamp { seconds: secs, offset_seconds: 0 })
    } else if let Some(secs) = naive_datetime_parse(t, MINUTE_FORMAT@) {
        Some(Timestamp { seconds: secs, offset_seconds: 0 })
    } else if let Some(secs) = naive_datetime_parse(t + MIDNIGHT@, SECOND_FORMAT@) {
        Some(Timestamp { seconds: secs, offset_seconds: 0 })
    } else {
        None
    }
}

/// Parses a date text (see [`date_value`]).
pub fn validate_date(date_str: &str) -> (r: Result<Timestamp, RetconError>)
    ensures
        r matches Ok(t) ==> date_value(date_str@) == Some(t) && t.wf(),
        r is Err ==> date_value(date_str@) is None,
        r matches Err(e) ==> e matches RetconError::InvalidDate(m) && m@ == trim_seq(date_str@),
{
    let t = trim_spaces(date_str);
    if let Some(p) = parse_offset_datetime(t, FULL_FORMAT) {
        return Ok(Timestamp { seconds: p.0, offset_seconds: p.1 });
    }
    if let Some(p) = parse_offset_datetime(t, COMPACT_OFFSET_FORMAT) {
        return Ok(Timestamp { seconds: p.0, offset_seconds: p.1 });
    }
    if let Some(secs) = parse_naive_datetime(t, SECOND_FORMAT) {
        return Ok(Timestamp { seconds: secs, offset_seconds: 0 });
    }
    if let Some(secs) = parse_naive_datetime(t, MINUTE_FORMAT) {
        return Ok(Timestamp { seconds: secs, offset_seconds: 0 });
    }
    let mut day = String::from_str(t);
    day.append(MIDNIGHT);
    if let Some(secs) = parse_naive_datetime(day.as_str(), SECOND_FORMAT) {
        return Ok(Timestamp { seconds: secs, offset_seconds: 0 });
    }
    Err(RetconError::InvalidDate(String::from_str(t)))
}

/// The canonical text of a timestamp, as offered for editing.
pub fn format_date_for_edit(dt: &Timestamp) -> (r: String)
    ensures
        r@ == datetime_format(dt.seconds, dt.offset_seconds, FULL_FORMAT@),
{
    format_datetime(dt.seconds, dt.offset_seconds, FULL_FORMAT)
}

impl crate::commit::CommitData {
    /// The author date to the minute.
    pub fn format_author_date(&self) -> (r: String)
        ensures
            r@ == datetime_format(self.author_date.seconds, self.author_date.offset_seconds, MINUTE_FORMAT@),
    {
        format_date_short(&self.author_date)
    }

    /// The author date in the canonical format.
    pub fn format_author_date_full(&self) -> (r: String)
        ensures
            r@ == datetime_format(self.author_date.seconds, self.author_date.offset_seconds, FULL_FORMAT@),
    {
        format_date_for_edit(&self.author_date)
    }

    /// The committer date in the canonical format.
    pub fn format_committer_date_full(&self) -> (r: String)
        ensures
            r@ == datetime_format(
                self.committer_date.seconds,
                self.committer_date.offset_seconds,
                FULL_FORMAT@,
            ),
    {
        format_date_for_edit(&self.committer_date)
    }
}

/// The timestamp to the minute, as shown in the table.
pub fn format_date_short(dt: &Timestamp) -> (r: String)
    ensures
        r@ == datetime_format(dt.seconds, dt.offset_seconds, MINUTE_FORMAT@),
{
    format_datetime(dt.seconds, dt.offset_seconds, MINUTE_FORMAT)
}

} // verus!
