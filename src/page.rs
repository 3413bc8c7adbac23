//! Page rows: the metadata that a content page's TOML front matter gives.
use chrono::{FixedOffset, Local, NaiveDate, TimeZone};
use toml_edit::DocumentMut;
use vstd::prelude::*;
use vstd::string::StringExecFns;
use crate::builder::PageSource;

verus! {

/// Why a page row cannot be made.
#[derive(Debug, Clone, Copy, PartialEq, Eq, Structural)]
pub enum PageError {
    /// The front matter is not a TOML document.
    Toml,
    /// A date or time in the front matter does not exist.
    Datetime,
}

/// A calendar date as written in TOML.
#[derive(Debug, Clone, Copy, PartialEq, Eq, Structural)]
pub struct TomlDate {
    pub year: u16,
    pub month: u8,
    pub day: u8,
}

/// A time of day as written in TOML; missing seconds and fractions are 0.
#[derive(Debug, Clone, Copy, PartialEq, Eq, Structural)]
pub struct TomlTime {
    pub hour: u8,
    pub minute: u8,
    pub second: Option<u8>,
    pub nanosecond: Option<u32>,
}

/// A TOML date-time value; any of its parts may be absent.
#[derive(Debug, Clone, Copy, PartialEq, Eq, Structural)]
pub struct TomlDatetime {
    pub date: Option<TomlDate>,
    pub time: Option<TomlTime>,
    /// Offset from UTC in minutes; `Some(0)` for `Z`.
    pub offset_minutes: Option<i16>,
}

/// A date and time without offset.
#[derive(Debug, Clone, Copy, PartialEq, Eq, Structural)]
pub struct DateTimeParts {
    pub year: i32,
    pub month: u32,
    pub day: u32,
    pub hour: u32,
    pub minute: u32,
    pub second: u32,
    pub nanosecond: u32,
}

/// The front matter `text` parses as a TOML document.
pub uninterp spec fn toml_valid_of(text: Seq<char>) -> bool;

/// The string stored under the top-level `key` of the TOML document `text`.
pub uninterp spec fn toml_str_of(text: Seq<char>, key: Seq<char>) -> Option<Seq<char>>;

/// The boolean stored under the top-level `key` of the TOML document `text`.
pub uninterp spec fn toml_bool_of(text: Seq<char>, key: Seq<char>) -> Option<bool>;

/// The date-time stored under the top-level `key` of the TOML document `text`.
pub uninterp spec fn toml_datetime_of(text: Seq<char>, key: Seq<char>) -> Option<TomlDatetime>;

/// An instant: seconds and nanoseconds since 1970-01-01T00:00:00Z.
#[derive(Debug, Clone, Copy, PartialEq, Eq, Structural)]
pub struct Timestamp {
    pub seconds: i64,
    pub nanos: u32,
}

/// The instant at which the local date-time `local` falls at a fixed offset
/// of `offset_minutes` from UTC, or `None` where `local` is no valid
/// date-time.
pub uninterp spec fn instant_at_offset_of(local: DateTimeParts, offset_minutes: int) -> Option<
    Timestamp,
>;

/// Relies on `toml_edit::DocumentMut::from_str`: whether the text parses.
#[verifier::external_body]
fn toml_valid(text: &str) -> (r: bool)
    ensures
        r == toml_valid_of(text@),
{
    text.parse::<DocumentMut>().is_ok()
}

/// Relies on toml_edit: the document's `get(key)` and `Item::as_str`.
#[verifier::external_body]
fn toml_str(text: &str, key: &str) -> (r: Option<String>)
    ensures
        r matches Some(s) ==> toml_str_of(text@, key@) == Some(s@),
        r is None ==> toml_str_of(text@, key@) is None,
{
    let doc = text.parse::<DocumentMut>().ok()?;
    doc.get(key).and_then(|item| item.as_str()).map(String::from)
}

/// Relies on toml_edit: the document's `get(key)` and `Item::as_bool`.
#[verifier::external_body]
fn toml_bool(text: &str, key: &str) -> (r: Option<bool>)
    ensures
        r == toml_bool_of(text@, key@),
{
    let doc = text.parse::<DocumentMut>().ok()?;
    doc.get(key).and_then(|item| item.as_bool())
}

/// Relies on toml_edit: the document's `get(key)` and `Item::as_datetime`,
/// with the parts of the value copied out.
#[verifier::external_body]
fn toml_datetime(text: &str, key: &str) -> (r: Option<TomlDatetime>)
    ensures
        r == toml_datetime_of(text@, key@),
{
    let doc = text.parse::<DocumentMut>().ok()?;
    let value = doc.get(key)?.as_datetime()?;
    let date = value.date.map(|d| TomlDate { year: d.year, month: d.month, day: d.day });
    let time = value.time.map(|t| TomlTime { hour: t.hour, minute: t.minute, second: t.second, nanosecond: t.nanosecond });
    let offset_minutes = value.offset.map(|o| match o {
        toml_edit::Offset::Z => 0,
        toml_edit::Offset::Custom { minutes } => minutes,
    });
    Some(TomlDatetime { date, time, offset_minutes })
}

/// Relies on chrono: `NaiveDate::from_ymd_opt`, `and_hms_nano_opt`,
/// `FixedOffset::east_opt` and `from_local_datetime`; depends on the inputs
/// alone.
#[verifier::external_body]
fn instant_at_offset(local: DateTimeParts, offset_minutes: i16) -> (r: Option<Timestamp>)
    ensures
        r == instant_at_offset_of(local, offset_minutes as int),
{
    let naive = NaiveDate::from_ymd_opt(local.year, local.month, local.day)?
        .and_hms_nano_opt(local.hour, local.minute, local.second, local.nanosecond)?;
    let offset = FixedOffset::east_opt(i32::from(offset_minutes) * 60)?;
    let at = offset.from_local_datetime(&naive).single()?;
    Some(Timestamp { seconds: at.timestamp(), nanos: at.timestamp_subsec_nanos() })
}

/// Relies on chrono's `Local` time zone: the instant at which `local` falls
/// in the machine's zone. It depends on that zone, so nothing is stated of
/// the result.
#[verifier::external_body]
fn instant_in_local_zone(local: DateTimeParts) -> (r: Option<Timestamp>)
{
    let naive = NaiveDate::from_ymd_opt(local.year, local.month, local.day)?
        .and_hms_nano_opt(local.hour, local.minute, local.second, local.nanosecond)?;
    let at = Local.from_local_datetime(&naive).single()?;
    Some(Timestamp { seconds: at.timestamp(), nanos: at.timestamp_subsec_nanos() })
}

/// The local date-time that a TOML value stands for: its missing date or
/// time taken from `now`, missing seconds and fractions 0.
pub open spec fn local_parts_of(value: TomlDatetime, now: DateTimeParts) -> DateTimeParts {
    let (year, month, day) = match value.date {
        Some(d) => (d.year as i32, d.month as u32, d.day as u32),
        None => (now.year, now.month, now.day),
    };
    let (hour, minute, second, nanosecond) = match value.time {
        Some(t) => (
            t.hour as u32,
            t.minute as u32,
            match t.second {
                Some(s) => s as u32,
                None => 0u32,
            },
            match t.nanosecond {
                Some(n) => n,
                None => 0u32,
            },
        ),
        None => (now.hour, now.minute, now.second, now.nanosecond),
    };
    DateTimeParts { year, month, day, hour, minute, second, nanosecond }
}

/// The local date-time that a TOML value stands for (see `local_parts_of`).
pub fn local_parts(value: TomlDatetime, now: DateTimeParts) -> (r: DateTimeParts)
    ensures
        r == local_parts_of(value, now),
{
    let (year, month, day) = match value.date {
        Some(d) => (d.year as i32, d.month as u32, d.day as u32),
        None => (now.year, now.month, now.day),
    };
    let (hour, minute, second, nanosecond) = match value.time {
        Some(t) => (
            t.hour as u32,
            t.minute as u32,
            match t.second {
                Some(s) => s as u32,
                None => 0u32,
            },
            match t.nanosecond {
                Some(n) => n,
                None => 0u32,
            },
        ),
        None => (now.hour, now.minute, now.second, now.nanosecond),
    };
    DateTimeParts { year, month, day, hour, minute, second, nanosecond }
}

/// The instant a TOML date-time stands for, given the local date and time
/// `now`: at its own offset where it has one, else in the machine's zone.
pub fn convert_datetime(value: TomlDatetime, now: DateTimeParts) -> (r: Result<Timestamp, PageError>)
    ensures
        value.offset_minutes matches Some(m) ==> match instant_at_offset_of(
            local_parts_of(value, now),
            m as int,
        ) {
            Some(t) => r == Ok::<Timestamp, PageError>(t),
            None => r == Err::<Timestamp, PageError>(PageError::Datetime),
        },
        value.offset_minutes is None ==> r is Ok || r == Err::<Timestamp, PageError>(
            PageError::Datetime,
        ),
{
    let local = local_parts(value, now);
    let instant = match value.offset_minutes {
        Some(m) => instant_at_offset(local, m),
        None => instant_in_local_zone(local),
    };
    match instant {
        Some(t) => Ok(t),
        None => Err(PageError::Datetime),
    }
}

/// A stored page row.
#[derive(Debug, Clone)]
pub struct Page {
    pub input_file_id: String,
    pub front_matter: Option<String>,
    pub offset: i64,
    pub date: Option<Timestamp>,
    pub description: Option<String>,
    pub excerpt: Option<String>,
    pub draft: bool,
    pub expiry_date: Option<Timestamp>,
    pub keywords: Option<String>,
    pub template: Option<String>,
    pub publish_date: Option<Timestamp>,
    pub summary: Option<String>,
    pub title: Option<String>,
}

/// A page row to insert: the front matter of a content page, where its body
/// starts, and the metadata that the front matter gives.
#[derive(Debug)]
pub struct NewPage {
    pub input_file_id: String,
    pub front_matter: Option<String>,
    pub offset: i64,
    pub date: Option<Timestamp>,
    pub description: Option<String>,
    pub excerpt: Option<String>,
    pub draft: bool,
    pub expiry_date: Option<Timestamp>,
    pub keywords: Option<String>,
    pub template: Option<String>,
    pub publish_date: Option<Timestamp>,
    pub summary: Option<String>,
    pub title: Option<String>,
}

/// `f` is the string under `key` in the TOML text `t`, if any.
pub open spec fn str_field(t: Seq<char>, key: Seq<char>, f: Option<String>) -> bool {
    match toml_str_of(t, key) {
        Some(v) => f matches Some(x) && x@ == v,
        None => f is None,
    }
}

/// `f` is the instant of the date-time under `key` in the TOML text `t`, if any.
pub open spec fn date_field(
    t: Seq<char>,
    key: Seq<char>,
    now: DateTimeParts,
    f: Option<Timestamp>,
) -> bool {
    match toml_datetime_of(t, key) {
        None => f is None,
        Some(v) => match v.offset_minutes {
            Some(m) => f is Some && instant_at_offset_of(local_parts_of(v, now), m as int) == f,
            None => f is Some,
        },
    }
}

/// The date-time under `key`, if any, has an offset and denotes an instant.
pub open spec fn date_converts(t: Seq<char>, key: Seq<char>, now: DateTimeParts) -> bool {
    toml_datetime_of(t, key) matches Some(v) ==> (v.offset_minutes matches Some(m)
        && instant_at_offset_of(local_parts_of(v, now), m as int) is Some)
}

/// The metadata of page `p` is what its front matter `t` gives.
pub open spec fn fields_of(t: Seq<char>, now: DateTimeParts, p: NewPage) -> bool {
    &&& date_field(t, "date"@, now, p.date)
    &&& str_field(t, "description"@, p.description)
    &&& str_field(t, "excerpt"@, p.excerpt)
    &&& p.draft == (toml_bool_of(t, "draft"@) == Some(true))
    &&& date_field(t, "expiry_date"@, now, p.expiry_date)
    &&& str_field(t, "keywords"@, p.keywords)
    &&& str_field(t, "template"@, p.template)
    &&& date_field(t, "publish_date"@, now, p.publish_date)
    &&& str_field(t, "summary"@, p.summary)
    &&& str_field(t, "title"@, p.title)
}

/// A page without metadata: every field unset, `draft` false.
pub open spec fn no_fields(p: NewPage) -> bool {
    &&& p.date is None && p.description is None && p.excerpt is None && !p.draft
    &&& p.expiry_date is None && p.keywords is None && p.template is None
    &&& p.publish_date is None && p.summary is None && p.title is None
}

fn date_value(t: &str, key: &str, now: DateTimeParts) -> (r: Result<Option<Timestamp>, PageError>)
    ensures
        r matches Ok(f) ==> date_field(t@, key@, now, f),
        date_converts(t@, key@, now) ==> r is Ok,
        r is Err ==> r == Err::<Option<Timestamp>, PageError>(PageError::Datetime),
{
    match toml_datetime(t, key) {
        Some(v) => match convert_datetime(v, now) {
            Ok(at) => Ok(Some(at)),
            Err(e) => Err(e),
        },
        None => Ok(None),
    }
}

/// Builds the page row of a content page from its front matter and body
/// offset, reading dates given without offset in the machine's zone and
/// filling their missing parts from `now`.
pub fn new_page(input_file_id: &str, source: &PageSource, now: DateTimeParts) -> (r: Result<
    NewPage,
    PageError,
>)
    requires
        source.offset <= i64::MAX,
    ensures
        r matches Ok(p) ==> {
            &&& p.input_file_id@ == input_file_id@
            &&& p.offset == source.offset
            &&& (source.front_matter matches Some(f) ==> p.front_matter matches Some(g) && g@ == f@)
            &&& (source.front_matter is None ==> p.front_matter is None && no_fields(p))
            &&& (source.front_matter matches Some(f) ==> fields_of(f@, now, p))
        },
        source.front_matter is None ==> r is Ok,
        source.front_matter matches Some(f) ==> {
            &&& !toml_valid_of(f@) ==> r == Err::<NewPage, PageError>(PageError::Toml)
            &&& (toml_valid_of(f@) && date_converts(f@, "date"@, now) && date_converts(
                f@,
                "expiry_date"@,
                now,
            ) && date_converts(f@, "publish_date"@, now)) ==> r is Ok
            &&& toml_valid_of(f@) && r is Err ==> r == Err::<NewPage, PageError>(
                PageError::Datetime,
            )
        },
{
    let id = String::from_str(input_file_id);
    let t = match &source.front_matter {
        None => {
            return Ok(
                NewPage {
                    input_file_id: id,
                    front_matter: None,
                    offset: source.offset as i64,
                    date: None,
                    description: None,
                    excerpt: None,
                    draft: false,
                    expiry_date: None,
                    keywords: None,
                    template: None,
                    publish_date: None,
                    summary: None,
                    title: None,
                },
            );
        },
        Some(t) => t.as_str(),
    };
    if !toml_valid(t) {
        return Err(PageError::Toml);
    }
    let date = match date_value(t, "date", now) {
        Ok(d) => d,
        Err(e) => return Err(e),
    };
    let expiry_date = match date_value(t, "expiry_date", now) {
        Ok(d) => d,
        Err(e) => return Err(e),
    };
    let publish_date = match date_value(t, "publish_date", now) {
        Ok(d) => d,
        Err(e) => return Err(e),
    };
    let draft = match toml_bool(t, "draft") {
        Some(b) => b,
        None => false,
    };
    Ok(
        NewPage {
            input_file_id: id,
            front_matter: Some(String::from_str(t)),
            offset: source.offset as i64,
            date,
            description: toml_str(t, "description"),
            excerpt: toml_str(t, "excerpt"),
            draft,
            expiry_date,
            keywords: toml_str(t, "keywords"),
            template: toml_str(t, "template"),
            publish_date,
            summary: toml_str(t, "summary"),
            title: toml_str(t, "title"),
        },
    )
}

} // verus!
