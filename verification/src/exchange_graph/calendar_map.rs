//! Graph events as JSCalendar events.

use vstd::prelude::*;
use vstd::string::*;

use crate::exchange::moment;
use crate::exchange::moment::Moment;
use crate::exchange::tz;
use crate::exchange_graph::error::{malformed, GraphError, GraphErrorView};
use crate::json::{Json, JsonObject, JsonView, NumberView};
use crate::text;

verus! {

/// The colour that Graph's name for a calendar colour stands for.
pub open spec fn color_hex(v: Seq<char>) -> Option<Seq<char>> {
    if v == "lightBlue"@ {
        Some("#A6CEE3"@)
    } else if v == "lightGreen"@ {
        Some("#B2DF8A"@)
    } else if v == "lightOrange"@ {
        Some("#FDBF6F"@)
    } else if v == "lightGray"@ {
        Some("#CCCCCC"@)
    } else if v == "lightYellow"@ {
        Some("#FFFF99"@)
    } else if v == "lightTeal"@ {
        Some("#A0E7E5"@)
    } else if v == "lightPink"@ {
        Some("#FB9A99"@)
    } else if v == "lightBrown"@ {
        Some("#B15928"@)
    } else if v == "lightRed"@ {
        Some("#FB9A99"@)
    } else {
        None
    }
}

/// See [`color_hex`].
pub fn graph_calendar_color_to_hex(value: &str) -> (r: Option<&'static str>)
    ensures
        text::opt_str(r) == color_hex(value@),
{
    if text::same(value, "lightBlue") {
        Some("#A6CEE3")
    } else if text::same(value, "lightGreen") {
        Some("#B2DF8A")
    } else if text::same(value, "lightOrange") {
        Some("#FDBF6F")
    } else if text::same(value, "lightGray") {
        Some("#CCCCCC")
    } else if text::same(value, "lightYellow") {
        Some("#FFFF99")
    } else if text::same(value, "lightTeal") {
        Some("#A0E7E5")
    } else if text::same(value, "lightPink") {
        Some("#FB9A99")
    } else if text::same(value, "lightBrown") {
        Some("#B15928")
    } else if text::same(value, "lightRed") {
        Some("#FB9A99")
    } else {
        None
    }
}

/// The IANA name of a zone given by its Windows or its IANA name.
pub fn windows_or_iana_to_iana(value: &str) -> (r: Option<String>)
    ensures
        text::opt_text(r) == tz::iana_name(value@),
{
    tz::resolve_to_iana(value)
}

/// A UTC date and time as clocks in a zone show it.
pub open spec fn shifted(utc: Seq<char>, zone: Seq<char>) -> Option<Seq<char>> {
    if !moment::is_zone(zone) {
        None
    } else {
        match moment::moment_parse(utc, "%Y-%m-%dT%H:%M:%S"@) {
            None => None,
            Some(m) => match moment::zone_local(zone, m) {
                None => None,
                Some(l) => moment::moment_text(l, "%Y-%m-%dT%H:%M:%S"@),
            },
        }
    }
}

/// See [`shifted`].
fn utc_naive_to_local(utc_naive: &str, iana: &str) -> (r: Option<String>)
    ensures
        text::opt_text(r) == shifted(utc_naive@, iana@),
{
    if !moment::zone_known(iana) {
        return None;
    }
    match moment::parse_moment(utc_naive, "%Y-%m-%dT%H:%M:%S") {
        None => None,
        Some(m) => match moment::local_in_zone(iana, m) {
            None => None,
            Some(l) => moment::write_moment(l, "%Y-%m-%dT%H:%M:%S"),
        },
    }
}

/// The part an event plays in a series.
#[derive(Debug, Clone, Copy, PartialEq, Eq, Structural)]
pub enum EventType {
    SingleInstance,
    SeriesMaster,
    Occurrence,
    Exception,
}

/// An event in the form in which it is stored.
pub struct ConvertedEvent {
    pub uid: String,
    pub data: Json,
    pub is_draft: bool,
    pub use_default_alerts: bool,
    pub series_master_id: Option<String>,
    pub event_type: EventType,
    pub original_start: Option<String>,
}

/// The view of a [`ConvertedEvent`].
pub struct EventView {
    pub uid: Seq<char>,
    pub data: JsonView,
    pub is_draft: bool,
    pub use_default_alerts: bool,
    pub series_master_id: Option<Seq<char>>,
    pub event_type: EventType,
    pub original_start: Option<Seq<char>>,
}

impl View for ConvertedEvent {
    type V = EventView;

    open spec fn view(&self) -> EventView {
        EventView {
            uid: self.uid@,
            data: self.data@,
            is_draft: self.is_draft,
            use_default_alerts: self.use_default_alerts,
            series_master_id: text::opt_text(self.series_master_id),
            event_type: self.event_type,
            original_start: text::opt_text(self.original_start),
        }
    }
}

/// The part that an event's `type` says it plays.
pub open spec fn event_type_of(g: JsonView) -> EventType {
    match g.text_at("type"@) {
        Some(t) => if t == "seriesMaster"@ {
            EventType::SeriesMaster
        } else if t == "occurrence"@ {
            EventType::Occurrence
        } else if t == "exception"@ {
            EventType::Exception
        } else {
            EventType::SingleInstance
        },
        None => EventType::SingleInstance,
    }
}

/// See [`event_type_of`].
pub fn classify_event_type(value: &Json) -> (r: EventType)
    ensures
        r == event_type_of(value@),
{
    match value.str_at("type") {
        Some(t) => if text::same(t, "seriesMaster") {
            EventType::SeriesMaster
        } else if text::same(t, "occurrence") {
            EventType::Occurrence
        } else if text::same(t, "exception") {
            EventType::Exception
        } else {
            EventType::SingleInstance
        },
        None => EventType::SingleInstance,
    }
}

/// The role of an attendee of a given type.
pub open spec fn role_of(t: Seq<char>) -> Seq<char> {
    if t == "optional"@ {
        "optional"@
    } else if t == "resource"@ {
        "informational"@
    } else {
        "required"@
    }
}

fn attendee_type_to_role(t: &str) -> (r: &'static str)
    ensures
        r@ == role_of(t@),
{
    if text::same(t, "optional") {
        "optional"
    } else if text::same(t, "resource") {
        "informational"
    } else {
        "required"
    }
}

/// The participation status for an attendee's response.
pub open spec fn status_of(r: Seq<char>) -> Option<Seq<char>> {
    if r == "accepted"@ || r == "organizer"@ {
        Some("accepted"@)
    } else if r == "declined"@ {
        Some("declined"@)
    } else if r == "tentativelyAccepted"@ {
        Some("tentative"@)
    } else if r == "notResponded"@ || r == "none"@ {
        Some("needs-action"@)
    } else {
        None
    }
}

fn attendee_response_to_status(r: &str) -> (s: Option<&'static str>)
    ensures
        text::opt_str(s) == status_of(r@),
{
    if text::same(r, "accepted") || text::same(r, "organizer") {
        Some("accepted")
    } else if text::same(r, "declined") {
        Some("declined")
    } else if text::same(r, "tentativelyAccepted") {
        Some("tentative")
    } else if text::same(r, "notResponded") || text::same(r, "none") {
        Some("needs-action")
    } else {
        None
    }
}

/// How many decimal digits a number has.
pub open spec fn width_of(n: nat) -> nat {
    text::decimal_text(n).len()
}

/// See [`width_of`].
fn pad_width(n: usize) -> (r: usize)
    ensures
        r == width_of(n as nat),
{
    let mut digits: usize = 1;
    let mut k: usize = n;
    while k >= 10
        invariant
            digits + text::decimal_text(k as nat).len() == text::decimal_text(n as nat).len() + 1,
            1 <= digits,
            digits + k <= n + 1,
        decreases k,
    {
        digits += 1;
        k /= 10;
    }
    digits
}

/// The JSCalendar privacy for a sensitivity.
pub open spec fn privacy_of(v: Seq<char>) -> Seq<char> {
    if v == "private"@ {
        "private"@
    } else if v == "confidential"@ {
        "secret"@
    } else {
        "public"@
    }
}

fn privacy_for(value: &str) -> (r: &'static str)
    ensures
        r@ == privacy_of(value@),
{
    if text::same(value, "private") {
        "private"
    } else if text::same(value, "confidential") {
        "secret"
    } else {
        "public"
    }
}

/// The priority for an importance: 1 is the highest, 9 the lowest.
pub open spec fn priority_of(v: Seq<char>) -> int {
    if v == "high"@ {
        1
    } else if v == "low"@ {
        9
    } else {
        5
    }
}

fn priority_for(value: &str) -> (r: i64)
    ensures
        r == priority_of(value@),
{
    if text::same(value, "high") {
        1
    } else if text::same(value, "low") {
        9
    } else {
        5
    }
}

/// Whether the time of an event counts as free or busy.
pub open spec fn free_busy_of(v: Seq<char>) -> Seq<char> {
    if v == "free"@ {
        "free"@
    } else {
        "busy"@
    }
}

fn free_busy_for(value: &str) -> (r: &'static str)
    ensures
        r@ == free_busy_of(value@),
{
    if text::same(value, "free") {
        "free"
    } else {
        "busy"
    }
}

/// Division that rounds toward zero.
pub open spec fn toward_zero(a: int, b: int) -> int {
    if a >= 0 {
        a / b
    } else {
        -((-a) / b)
    }
}

/// The number of days from 1970-01-01 to a date of the Gregorian calendar. Years
/// are counted from March, so that a leap day ends the year it belongs to; a
/// month or day out of range counts on from there.
pub open spec fn civil_days(y: int, m: int, d: int) -> int {
    let march_year = if m <= 2 {
        y - 1
    } else {
        y
    };
    let era = march_year / 400;
    let year_of_era = march_year - era * 400;
    let month = if m > 2 {
        m - 3
    } else {
        m + 9
    };
    let day_of_year = toward_zero(153 * month + 2, 5) + d - 1;
    era * 146097 + year_of_era * 365 + year_of_era / 4 - year_of_era / 100 + day_of_year - 719468
}

/// See [`civil_days`].
pub fn days_from_civil(y: i64, m: i64, d: i64) -> (r: i128)
    ensures
        r == civil_days(y as int, m as int, d as int),
        -0x100_0000_0000_0000_0000_0000 <= r <= 0x100_0000_0000_0000_0000_0000,
{
    let year: i128 = if m <= 2 {
        y as i128 - 1
    } else {
        y as i128
    };
    let era: i128 = if year >= 0 {
        (year as u128 / 400) as i128
    } else {
        -(((399 - year) as u128 / 400) as i128)
    };
    assert(era == (year as int) / 400);
    let yoe: u128 = (year - era * 400) as u128;
    let month: i128 = if m > 2 {
        m as i128 - 3
    } else {
        m as i128 + 9
    };
    let scaled: i128 = 153 * month + 2;
    let days_before: i128 = if scaled >= 0 {
        (scaled as u128 / 5) as i128
    } else {
        -(((-scaled) as u128 / 5) as i128)
    };
    let doy: i128 = days_before + d as i128 - 1;
    let doe: i128 = (yoe * 365 + yoe / 4 - yoe / 100) as i128 + doy;
    era * 146097 + doe - 719468
}

/// The seconds from 1970-01-01T00:00:00 to a date and time written as
/// `y-m-dTh:m:s`; the seconds may be left out, and a fraction or a trailing `Z`
/// is passed over.
pub open spec fn naive_seconds(s: Seq<char>) -> Option<int> {
    match text::split_first(s, 'T') {
        None => None,
        Some((date, time)) => {
            let dp = text::pieces(date, '-');
            let tp = text::pieces(text::trimmed_end(text::until(time, '.'), 'Z'), ':');
            if dp.len() < 3 || tp.len() < 2 {
                None
            } else {
                match (
                    text::i64_value(dp[0]),
                    text::i64_value(dp[1]),
                    text::i64_value(dp[2]),
                    text::i64_value(tp[0]),
                    text::i64_value(tp[1]),
                    text::i64_value(
                        if tp.len() > 2 {
                            tp[2]
                        } else {
                            "0"@
                        },
                    ),
                ) {
                    (Some(y), Some(mo), Some(d), Some(h), Some(mi), Some(sec)) => Some(
                        civil_days(y, mo, d) * 86400 + h * 3600 + mi * 60 + sec,
                    ),
                    _ => None,
                }
            }
        },
    }
}

/// See [`naive_seconds`].
fn parse_naive_seconds(s: &str) -> (r: Option<i128>)
    ensures
        match r {
            Some(v) => naive_seconds(s@) == Some(v as int) && -0x10_0000_0000_0000_0000_0000_0000_0000 <= v
                <= 0x10_0000_0000_0000_0000_0000_0000_0000,
            None => naive_seconds(s@) is None,
        },
{
    let (date, time) = match text::split_once(s, 'T') {
        Some(parts) => parts,
        None => {
            return None;
        },
    };
    let dp = text::split(date.as_str(), '-');
    let clock = text::trim_end(text::text_until(time.as_str(), '.').as_str(), 'Z');
    let tp = text::split(clock.as_str(), ':');
    let ghost ds = text::texts(dp@);
    let ghost ts = text::texts(tp@);
    assert(ds.len() == dp.len() && ts.len() == tp.len());
    if dp.len() < 3 || tp.len() < 2 {
        return None;
    }
    assert(ds[0] == dp@[0]@ && ds[1] == dp@[1]@ && ds[2] == dp@[2]@);
    assert(ts[0] == tp@[0]@ && ts[1] == tp@[1]@);
    let second = if tp.len() > 2 {
        assert(ts[2] == tp@[2]@);
        text::parse_i64(tp[2].as_str())
    } else {
        text::parse_i64("0")
    };
    match (
        text::parse_i64(dp[0].as_str()),
        text::parse_i64(dp[1].as_str()),
        text::parse_i64(dp[2].as_str()),
        text::parse_i64(tp[0].as_str()),
        text::parse_i64(tp[1].as_str()),
        second,
    ) {
        (Some(y), Some(mo), Some(d), Some(h), Some(mi), Some(sec)) => {
            let days: i128 = days_from_civil(y, mo, d);
            Some(days * 86400 + h as i128 * 3600 + mi as i128 * 60 + sec as i128)
        },
        _ => None,
    }
}

/// A span of so many seconds, as an ISO 8601 duration in hours, minutes and
/// seconds.
pub open spec fn duration_text(total: nat) -> Seq<char> {
    let h = total / 3600;
    let m = (total % 3600) / 60;
    let s = total % 60;
    "PT"@ + (if h > 0 {
        text::decimal_text(h) + "H"@
    } else {
        Seq::empty()
    }) + (if m > 0 || (h > 0 && s > 0) {
        text::decimal_text(m) + "M"@
    } else {
        Seq::empty()
    }) + (if s > 0 || (h == 0 && m == 0) {
        text::decimal_text(s) + "S"@
    } else {
        Seq::empty()
    })
}

/// The duration from one date and time to a later one.
pub open spec fn duration_between(start: Seq<char>, end: Seq<char>) -> Option<Seq<char>> {
    match (naive_seconds(start), naive_seconds(end)) {
        (Some(s), Some(e)) => if e <= s {
            None
        } else {
            Some(duration_text((e - s) as nat))
        },
        _ => None,
    }
}

/// See [`duration_between`].
pub fn duration_iso8601(start: &str, end: &str) -> (r: Option<String>)
    ensures
        text::opt_text(r) == duration_between(start@, end@),
{
    let s: i128 = match parse_naive_seconds(start) {
        Some(v) => v,
        None => {
            return None;
        },
    };
    let e: i128 = match parse_naive_seconds(end) {
        Some(v) => v,
        None => {
            return None;
        },
    };
    if e <= s {
        return None;
    }
    let total: u128 = (e - s) as u128;
    let hours: u128 = total / 3600;
    let minutes: u128 = (total % 3600) / 60;
    let seconds: u128 = total % 60;
    let mut out = "PT".to_owned();
    let ghost none = Seq::<char>::empty();
    if hours > 0 {
        out.append(text::joined(text::decimal(hours).as_str(), "H").as_str());
    } else {
        assert(out@ =~= out@ + none);
    }
    let ghost first = out@;
    if minutes > 0 || (hours > 0 && seconds > 0) {
        out.append(text::joined(text::decimal(minutes).as_str(), "M").as_str());
    } else {
        assert(out@ =~= first + none);
    }
    let ghost second = out@;
    if seconds > 0 || (hours == 0 && minutes == 0) {
        out.append(text::joined(text::decimal(seconds).as_str(), "S").as_str());
    } else {
        assert(out@ =~= second + none);
    }
    Some(out)
}

/// A time stamp without its fraction of a second, its trailing `Z` kept.
pub open spec fn whole_seconds_utc(raw: Seq<char>) -> Seq<char> {
    let base = text::until(text::trimmed_end(raw, 'Z'), '.');
    if raw.len() > 0 && raw.last() == 'Z' {
        base + "Z"@
    } else {
        base
    }
}

/// See [`whole_seconds_utc`].
fn strip_fractional_utc(raw: &str) -> (r: String)
    ensures
        r@ == whole_seconds_utc(raw@),
{
    let n: usize = raw.unicode_len();
    let trailing_z = n > 0 && raw.get_char(n - 1) == 'Z';
    let base = text::text_until(text::trim_end(raw, 'Z').as_str(), '.');
    if trailing_z {
        text::joined(base.as_str(), "Z")
    } else {
        base
    }
}

/// The members of an object.
pub type Members = Map<Seq<char>, JsonView>;

/// Members with a key bound where there is a value for it.
pub open spec fn put(m: Members, k: Seq<char>, v: Option<JsonView>) -> Members {
    match v {
        Some(x) => m.insert(k, x),
        None => m,
    }
}

/// A string value for an optional text.
pub open spec fn str_value(t: Option<Seq<char>>) -> Option<JsonView> {
    match t {
        Some(s) => Some(JsonView::Str(s)),
        None => None,
    }
}

/// A text, where it is not empty.
pub open spec fn nonempty(t: Option<Seq<char>>) -> Option<Seq<char>> {
    match t {
        Some(s) => if s.len() > 0 {
            Some(s)
        } else {
            None
        },
        None => None,
    }
}

fn put_text(o: &mut JsonObject, key: &str, value: Option<&str>)
    ensures
        final(o)@ == put(old(o)@, key@, str_value(text::opt_str(value))),
{
    match value {
        Some(v) => {
            o.insert(key.to_owned(), Json::text(v));
        },
        None => {},
    }
}

fn put_value(o: &mut JsonObject, key: &str, value: Option<Json>)
    ensures
        final(o)@ == put(
            old(o)@,
            key@,
            match value {
                Some(v) => Some(v@),
                None => None,
            },
        ),
{
    match value {
        Some(v) => {
            o.insert(key.to_owned(), v);
        },
        None => {},
    }
}

fn when_nonempty<'a>(t: Option<&'a str>) -> (r: Option<&'a str>)
    ensures
        text::opt_str(r) == nonempty(text::opt_str(t)),
{
    match t {
        Some(s) => if s.is_empty() {
            None
        } else {
            Some(s)
        },
        None => None,
    }
}

/// The object that binds each of some names to true.
pub open spec fn flags(names: Seq<Seq<char>>) -> Members {
    Map::new(|k: Seq<char>| names.contains(k), |k: Seq<char>| JsonView::Bool(true))
}

/// The members of a participant object.
pub open spec fn participant(
    email: JsonView,
    roles: Seq<Seq<char>>,
    status: Option<Seq<char>>,
    expect_reply: Option<bool>,
) -> Members {
    let m = put(Map::empty(), "@type"@, Some(JsonView::Str("Participant"@)));
    let m = put(
        m,
        "calendarAddress"@,
        match email.text_at("address"@) {
            Some(a) => Some(JsonView::Str("mailto:"@ + a)),
            None => None,
        },
    );
    let m = put(m, "email"@, str_value(email.text_at("address"@)));
    let m = put(m, "name"@, str_value(nonempty(email.text_at("name"@))));
    let m = put(m, "roles"@, Some(JsonView::Object(flags(roles))));
    let m = put(m, "participationStatus"@, str_value(status));
    put(
        m,
        "expectReply"@,
        match expect_reply {
            Some(b) => Some(JsonView::Bool(b)),
            None => None,
        },
    )
}

/// The texts of borrowed strings.
pub open spec fn strs(v: Seq<&str>) -> Seq<Seq<char>> {
    Seq::new(v.len(), |i: int| v[i]@)
}

/// See [`participant`].
fn build_participant(
    email: &Json,
    roles: &Vec<&str>,
    participation_status: Option<&str>,
    expect_reply: Option<bool>,
) -> (r: Json)
    ensures
        r@ == JsonView::Object(
            participant(email@, strs(roles@), text::opt_str(participation_status), expect_reply),
        ),
{
    let mut map = JsonObject::new();
    put_text(&mut map, "@type", Some("Participant"));
    let address = email.str_at("address");
    match address {
        Some(a) => {
            map.insert("calendarAddress".to_owned(), Json::Str(text::joined("mailto:", a)));
        },
        None => {},
    }
    put_text(&mut map, "email", address);
    put_text(&mut map, "name", when_nonempty(email.str_at("name")));
    let mut role_map = JsonObject::new();
    let mut i: usize = 0;
    while i < roles.len()
        invariant
            i <= roles.len(),
            role_map@ == flags(strs(roles@).take(i as int)),
        decreases roles.len() - i,
    {
        role_map.insert(roles[i].to_owned(), Json::Bool(true));
        proof {
            let a = strs(roles@).take(i as int);
            let b = strs(roles@).take(i + 1);
            assert(b =~= a.push(roles@[i as int]@));
            assert forall|k: Seq<char>| b.contains(k) <==> (a.contains(k) || k == roles@[i as int]@) by {
                if a.contains(k) {
                    let j = choose|j: int| 0 <= j < a.len() && a[j] == k;
                    assert(b[j] == k);
                }
                if k == roles@[i as int]@ {
                    assert(b[i as int] == k);
                }
                if b.contains(k) {
                    let j = choose|j: int| 0 <= j < b.len() && b[j] == k;
                    if j < i {
                        assert(a[j] == k);
                    }
                }
            }
            assert(role_map@ =~= flags(b));
        }
        i += 1;
    }
    assert(strs(roles@).take(roles@.len() as int) =~= strs(roles@));
    map.insert("roles".to_owned(), Json::Object(role_map));
    put_text(&mut map, "participationStatus", participation_status);
    put_value(
        &mut map,
        "expectReply",
        match expect_reply {
            Some(b) => Some(Json::Bool(b)),
            None => None,
        },
    );
    Json::Object(map)
}

/// The key of the entry in place `n`, counted from one, of a list whose longest
/// number has `width` digits.
pub open spec fn numbered(prefix: Seq<char>, n: nat, width: nat) -> Seq<char> {
    prefix + text::padded_text(n, width)
}

/// The participants that the first `n` attendees add to `base`.
pub open spec fn with_attendees(base: Members, attendees: Seq<JsonView>, n: nat) -> Members
    decreases n,
{
    if n == 0 || n > attendees.len() {
        base
    } else {
        let before = with_attendees(base, attendees, (n - 1) as nat);
        let a = attendees[n - 1];
        put(
            before,
            numbered("att-"@, n, width_of(attendees.len())),
            match a.field("emailAddress"@) {
                Some(email) => Some(JsonView::Object(attendee(a, email))),
                None => None,
            },
        )
    }
}

/// The participant for an attendee.
pub open spec fn attendee(a: JsonView, email: JsonView) -> Members {
    participant(
        email,
        seq![
            match a.text_at("type"@) {
                Some(t) => role_of(t),
                None => "required"@,
            },
        ],
        match a.field("status"@) {
            Some(s) => match s.text_at("response"@) {
                Some(r) => status_of(r),
                None => None,
            },
            None => None,
        },
        Some(true),
    )
}

fn build_attendee(att: &Json, email: &Json) -> (r: Json)
    ensures
        r@ == JsonView::Object(attendee(att@, email@)),
{
    let role = match att.str_at("type") {
        Some(t) => attendee_type_to_role(t),
        None => "required",
    };
    let status = match att.get("status") {
        Some(s) => match s.str_at("response") {
            Some(r) => attendee_response_to_status(r),
            None => None,
        },
        None => None,
    };
    let mut roles: Vec<&str> = Vec::new();
    roles.push(role);
    assert(strs(roles@) =~= seq![role@]);
    build_participant(email, &roles, status, Some(true))
}

/// The address of the organizer of an event.
pub open spec fn organizer_email(g: JsonView) -> Option<JsonView> {
    match g.field("organizer"@) {
        Some(o) => o.field("emailAddress"@),
        None => None,
    }
}

/// The participants of an event.
pub open spec fn participants(g: JsonView) -> Members {
    let base = put(
        Map::empty(),
        "organizer"@,
        match organizer_email(g) {
            Some(org) => Some(JsonView::Object(participant(org, seq!["owner"@, "chair"@], None, None))),
            None => None,
        },
    );
    match g.array_at("attendees"@) {
        Some(a) => with_attendees(base, a, a.len()),
        None => base,
    }
}

/// Whether an event has a participant: an organizer, or an attendee with an
/// address.
pub open spec fn has_participants(g: JsonView) -> bool {
    organizer_email(g) is Some || (g.array_at("attendees"@) matches Some(a) && exists|i: int|
        0 <= i < a.len() && (#[trigger] a[i]).field("emailAddress"@) is Some)
}

fn organizer_of<'a>(g: &'a Json) -> (r: Option<&'a Json>)
    ensures
        match r {
            Some(v) => organizer_email(g@) == Some(v@),
            None => organizer_email(g@) is None,
        },
{
    match g.get("organizer") {
        Some(o) => o.get("emailAddress"),
        None => None,
    }
}

fn build_participants(g: &Json) -> (r: Option<Json>)
    ensures
        match r {
            Some(v) => has_participants(g@) && v@ == JsonView::Object(participants(g@)),
            None => !has_participants(g@),
        },
{
    let mut map = JsonObject::new();
    let mut any = false;
    match organizer_of(g) {
        Some(org) => {
            let mut roles: Vec<&str> = Vec::new();
            roles.push("owner");
            roles.push("chair");
            assert(strs(roles@) =~= seq!["owner"@, "chair"@]);
            let p = build_participant(org, &roles, None, None);
            map.insert("organizer".to_owned(), p);
            any = true;
        },
        None => {},
    }
    let ghost base = map@;
    match g.array_at("attendees") {
        Some(attendees) => {
            let ghost all = crate::json::views(attendees@);
            let width: usize = pad_width(attendees.len());
            let mut i: usize = 0;
            while i < attendees.len()
                invariant
                    i <= attendees.len(),
                    all == crate::json::views(attendees@),
                    width == width_of(all.len()),
                    map@ == with_attendees(base, all, i as nat),
                    any == (organizer_email(g@) is Some || exists|j: int|
                        0 <= j < i && (#[trigger] all[j]).field("emailAddress"@) is Some),
                decreases attendees.len() - i,
            {
                let att = &attendees[i];
                assert(all[i as int] == att@);
                match att.get("emailAddress") {
                    Some(email) => {
                        let p = build_attendee(att, email);
                        let key = text::joined("att-", text::padded((i + 1) as u128, width).as_str());
                        map.insert(key, p);
                        any = true;
                        assert(all[i as int].field("emailAddress"@) is Some);
                    },
                    None => {},
                }
                i += 1;
            }
        },
        None => {},
    }
    if any {
        Some(Json::Object(map))
    } else {
        None
    }
}

/// A list of texts with one more, where there is one that is not empty.
pub open spec fn with_part(parts: Seq<Seq<char>>, t: Option<Seq<char>>) -> Seq<Seq<char>> {
    match nonempty(t) {
        Some(s) => parts.push(s),
        None => parts,
    }
}

/// A postal address in one line.
pub open spec fn address_line(a: JsonView) -> Seq<char> {
    let p = with_part(Seq::empty(), a.text_at("street"@));
    let p = with_part(p, a.text_at("city"@));
    let p = with_part(p, a.text_at("state"@));
    let p = with_part(p, a.text_at("postalCode"@));
    let p = with_part(p, a.text_at("countryOrRegion"@));
    text::join_text(p, ", "@)
}

fn push_part(parts: &mut Vec<String>, a: &Json, key: &str)
    ensures
        text::texts(final(parts)@) == with_part(text::texts(old(parts)@), a@.text_at(key@)),
{
    match when_nonempty(a.str_at(key)) {
        Some(s) => {
            let ghost was = text::texts(parts@);
            parts.push(s.to_owned());
            assert(text::texts(parts@) =~= was.push(s@));
        },
        None => {},
    }
}

/// The name of a location: its display name and its address, as far as it has
/// them and they differ.
pub open spec fn location_name(loc: JsonView) -> Option<Seq<char>> {
    let shown = nonempty(loc.text_at("displayName"@));
    let address = match loc.field("address"@) {
        Some(a) => nonempty(Some(address_line(a))),
        None => None,
    };
    match (shown, address) {
        (Some(d), Some(a)) => if d != a {
            Some(d + ", "@ + a)
        } else {
            Some(d)
        },
        (Some(d), None) => Some(d),
        (None, Some(a)) => Some(a),
        (None, None) => None,
    }
}

/// The members of a location object.
pub open spec fn location(loc: JsonView) -> Members {
    put(
        put(Map::empty(), "@type"@, Some(JsonView::Str("Location"@))),
        "name"@,
        str_value(location_name(loc)),
    )
}

fn build_location(loc: &Json) -> (r: Json)
    ensures
        r@ == JsonView::Object(location(loc@)),
{
    let shown = when_nonempty(loc.str_at("displayName"));
    let line: Option<String> = match loc.get("address") {
        Some(a) => {
            let mut parts: Vec<String> = Vec::new();
            assert(text::texts(parts@) =~= Seq::<Seq<char>>::empty());
            push_part(&mut parts, a, "street");
            push_part(&mut parts, a, "city");
            push_part(&mut parts, a, "state");
            push_part(&mut parts, a, "postalCode");
            push_part(&mut parts, a, "countryOrRegion");
            let joined = text::join(&parts, ", ");
            if joined.as_str().is_empty() {
                None
            } else {
                Some(joined)
            }
        },
        None => None,
    };
    let name: Option<String> = match (shown, &line) {
        (Some(d), Some(a)) => if !text::same(d, a.as_str()) {
            Some(text::joined3(d, ", ", a.as_str()))
        } else {
            Some(d.to_owned())
        },
        (Some(d), None) => Some(d.to_owned()),
        (None, Some(a)) => Some(a.clone()),
        (None, None) => None,
    };
    let mut object = JsonObject::new();
    put_text(&mut object, "@type", Some("Location"));
    put_text(&mut object, "name", text::borrowed(&name));
    Json::Object(object)
}

/// The first `n` of some locations, each under its numbered key.
pub open spec fn locations(locs: Seq<JsonView>, n: nat) -> Members
    decreases n,
{
    if n == 0 || n > locs.len() {
        Map::empty()
    } else {
        locations(locs, (n - 1) as nat).insert(
            numbered("loc-"@, n, width_of(locs.len())),
            JsonView::Object(location(locs[n - 1])),
        )
    }
}

fn build_locations(g: &Json) -> (r: Option<Json>)
    ensures
        match r {
            Some(v) => g@.array_at("locations"@) matches Some(l) && l.len() > 0 && v@ == JsonView::Object(
                locations(l, l.len()),
            ),
            None => g@.array_at("locations"@) matches Some(l) ==> l.len() == 0,
        },
{
    match g.array_at("locations") {
        Some(locs) => {
            if locs.len() == 0 {
                return None;
            }
            let ghost all = crate::json::views(locs@);
            let width: usize = pad_width(locs.len());
            let mut map = JsonObject::new();
            let mut i: usize = 0;
            while i < locs.len()
                invariant
                    i <= locs.len(),
                    all == crate::json::views(locs@),
                    width == width_of(all.len()),
                    map@ == locations(all, i as nat),
                decreases locs.len() - i,
            {
                let l = build_location(&locs[i]);
                assert(all[i as int] == locs@[i as int]@);
                let key = text::joined("loc-", text::padded((i + 1) as u128, width).as_str());
                map.insert(key, l);
                i += 1;
            }
            Some(Json::Object(map))
        },
        None => None,
    }
}

/// The texts among some values.
pub open spec fn texts_among(cats: Seq<JsonView>) -> Set<Seq<char>> {
    Set::new(|k: Seq<char>| cats.contains(JsonView::Str(k)))
}

/// The keywords for a list of categories.
pub open spec fn keywords(cats: Seq<JsonView>) -> Members {
    Map::new(|k: Seq<char>| texts_among(cats).contains(k), |k: Seq<char>| JsonView::Bool(true))
}

/// The `keywords` of an event: its categories, where it has one that is a text.
pub open spec fn keywords_of(g: JsonView) -> Option<JsonView> {
    match g.array_at("categories"@) {
        Some(c) => if exists|i: int| 0 <= i < c.len() && #[trigger] c[i] is Str {
            Some(JsonView::Object(keywords(c)))
        } else {
            None
        },
        None => None,
    }
}

fn build_keywords(g: &Json) -> (r: Option<Json>)
    ensures
        keywords_of(g@) == match r {
            Some(v) => Some(v@),
            None => None,
        },
{
    match g.array_at("categories") {
        Some(cats) => {
            let ghost all = crate::json::views(cats@);
            let mut map = JsonObject::new();
            let mut any = false;
            let mut i: usize = 0;
            assert(map@ =~= keywords(all.take(0)));
            while i < cats.len()
                invariant
                    i <= cats.len(),
                    all == crate::json::views(cats@),
                    map@ == keywords(all.take(i as int)),
                    any == exists|j: int| 0 <= j < i && #[trigger] all[j] is Str,
                decreases cats.len() - i,
            {
                let ghost a = all.take(i as int);
                let ghost b = all.take(i + 1);
                let ghost x = all[i as int];
                proof {
                    assert(x == cats@[i as int]@);
                    assert(b =~= a.push(x));
                    assert forall|v: JsonView| b.contains(v) <==> (a.contains(v) || v == x) by {
                        if a.contains(v) {
                            let j = choose|j: int| 0 <= j < a.len() && a[j] == v;
                            assert(b[j] == v);
                        }
                        if v == x {
                            assert(b[i as int] == v);
                        }
                        if b.contains(v) {
                            let j = choose|j: int| 0 <= j < b.len() && b[j] == v;
                            if j < i {
                                assert(a[j] == v);
                            }
                        }
                    }
                }
                match cats[i].as_str() {
                    Some(c) => {
                        map.insert(c.to_owned(), Json::Bool(true));
                        any = true;
                        assert(all[i as int] is Str);
                    },
                    None => {},
                }
                assert(map@ =~= keywords(b));
                i += 1;
            }
            assert(all.take(all.len() as int) =~= all);
            if any {
                Some(Json::Object(map))
            } else {
                None
            }
        },
        None => None,
    }
}

/// The first of two optional texts that is there.
pub open spec fn either(a: Option<Seq<char>>, b: Option<Seq<char>>) -> Option<Seq<char>> {
    match a {
        Some(t) => Some(t),
        None => b,
    }
}

/// The IANA zone for an optional name.
pub open spec fn zone_of(name: Option<Seq<char>>) -> Option<Seq<char>> {
    match name {
        Some(n) => tz::iana_name(n),
        None => None,
    }
}

fn zone_for(name: Option<&str>) -> (r: Option<String>)
    ensures
        text::opt_text(r) == zone_of(text::opt_str(name)),
{
    match name {
        Some(n) => windows_or_iana_to_iana(n),
        None => None,
    }
}

/// A text within the `start` of an event.
pub open spec fn start_text(g: JsonView, k: Seq<char>) -> Option<Seq<char>> {
    match g.field("start"@) {
        Some(s) => s.text_at(k),
        None => None,
    }
}

fn start_str<'a>(g: &'a Json, key: &str) -> (r: Option<&'a str>)
    ensures
        text::opt_str(r) == start_text(g@, key@),
{
    match g.get("start") {
        Some(s) => s.str_at(key),
        None => None,
    }
}

/// The zone that an event was entered in: the one it names itself, else the one
/// of its start, else the calendar's.
pub open spec fn entered_zone(g: JsonView, fallback: Option<Seq<char>>) -> Option<Seq<char>> {
    either(
        zone_of(g.text_at("originalStartTimeZone"@)),
        either(zone_of(start_text(g, "timeZone"@)), zone_of(fallback)),
    )
}

fn find_entered_zone(g: &Json, fallback: Option<&str>) -> (r: Option<String>)
    ensures
        text::opt_text(r) == entered_zone(g@, text::opt_str(fallback)),
{
    match zone_for(g.str_at("originalStartTimeZone")) {
        Some(z) => Some(z),
        None => match zone_for(start_str(g, "timeZone")) {
            Some(z) => Some(z),
            None => zone_for(fallback),
        },
    }
}

/// The zone that an event's times are shown in; none for UTC.
pub open spec fn display_zone(g: JsonView, fallback: Option<Seq<char>>) -> Option<Seq<char>> {
    match entered_zone(g, fallback) {
        Some(z) => if z != "Etc/UTC"@ {
            Some(z)
        } else {
            None
        },
        None => None,
    }
}

/// The zone that a series recurs in: the one its recurrence range names, else
/// the one it was entered in.
pub open spec fn recurrence_zone(g: JsonView, fallback: Option<Seq<char>>) -> Option<Seq<char>> {
    either(
        zone_of(
            match g.field("recurrence"@) {
                Some(r) => match r.field("range"@) {
                    Some(range) => range.text_at("recurrenceTimeZone"@),
                    None => None,
                },
                None => None,
            },
        ),
        entered_zone(g, fallback),
    )
}

fn find_recurrence_zone(g: &Json, fallback: Option<&str>) -> (r: Option<String>)
    ensures
        text::opt_text(r) == recurrence_zone(g@, text::opt_str(fallback)),
{
    let named = match g.get("recurrence") {
        Some(r) => match r.get("range") {
            Some(range) => range.str_at("recurrenceTimeZone"),
            None => None,
        },
        None => None,
    };
    match zone_for(named) {
        Some(z) => Some(z),
        None => find_entered_zone(g, fallback),
    }
}

/// A `Malformed` error: a text, another in quotes, a third.
pub open spec fn malformed_quoting(a: Seq<char>, q: Seq<char>, b: Seq<char>) -> GraphErrorView {
    GraphErrorView::Malformed(a + text::debug_text(q) + b)
}

fn quoting_error(a: &str, q: &str, b: &str) -> (r: GraphError)
    ensures
        r@ == malformed_quoting(a@, q@, b@),
{
    GraphError::Malformed(text::joined3(a, text::quoted(q).as_str(), b))
}

/// The date and time that a series begins at, as clocks in the zone it recurs in
/// show them.
pub open spec fn series_local_time(g: JsonView, fallback: Option<Seq<char>>) -> Result<
    Moment,
    GraphErrorView,
> {
    match recurrence_zone(g, fallback) {
        None => Err(
            GraphErrorView::Malformed(
                "series master with cancelledOccurrences has no supported recurrence time zone"@,
            ),
        ),
        Some(zone) => if !moment::is_zone(zone) {
            Err(malformed_quoting("series master recurrence time zone "@, zone, " is not IANA"@))
        } else {
            match nonempty(start_text(g, "dateTime"@)) {
                None => Err(
                    GraphErrorView::Malformed(
                        "series master with cancelledOccurrences has no start.dateTime"@,
                    ),
                ),
                Some(start) => match start_instant(g, start, zone) {
                    Err(e) => Err(e),
                    Ok(at) => match moment::zone_local(zone, at) {
                        Some(l) => Ok(l),
                        None => Err(
                            malformed_quoting("series master start.dateTime "@, start, " is out of range"@),
                        ),
                    },
                },
            }
        },
    }
}

/// The instant at which a series begins: its start, read with the offset that it
/// carries, else in the zone that the start names, else in the zone it recurs in.
pub open spec fn start_instant(g: JsonView, start: Seq<char>, zone: Seq<char>) -> Result<
    Moment,
    GraphErrorView,
> {
    match moment::instant_parse(start) {
        Some(at) => Ok(at),
        None => match moment::moment_parse(start, "%Y-%m-%dT%H:%M:%S%.f"@) {
            None => Err(
                malformed_quoting("series master start.dateTime "@, start, " is not an ISO local date-time"@),
            ),
            Some(naive) => {
                let source = match zone_of(start_text(g, "timeZone"@)) {
                    Some(z) => z,
                    None => zone,
                };
                if !moment::is_zone(source) {
                    Err(malformed_quoting("series master start time zone "@, source, " is not IANA"@))
                } else {
                    match moment::zone_instant(source, naive) {
                        Some(at) => Ok(at),
                        None => Err(
                            malformed_quoting(
                                "series master start.dateTime "@,
                                start,
                                " is ambiguous or nonexistent in "@ + source,
                            ),
                        ),
                    }
                }
            },
        },
    }
}

fn find_start_instant(g: &Json, start: &str, zone: &str) -> (r: Result<Moment, GraphError>)
    ensures
        match r {
            Ok(m) => start_instant(g@, start@, zone@) == Ok::<Moment, GraphErrorView>(m),
            Err(e) => start_instant(g@, start@, zone@) == Err::<Moment, GraphErrorView>(e@),
        },
{
    match moment::parse_instant(start) {
        Some(at) => Ok(at),
        None => match moment::parse_moment(start, "%Y-%m-%dT%H:%M:%S%.f") {
            None => Err(quoting_error("series master start.dateTime ", start, " is not an ISO local date-time")),
            Some(naive) => {
                let source = match zone_for(start_str(g, "timeZone")) {
                    Some(z) => z,
                    None => zone.to_owned(),
                };
                if !moment::zone_known(source.as_str()) {
                    return Err(quoting_error("series master start time zone ", source.as_str(), " is not IANA"));
                }
                match moment::instant_in_zone(source.as_str(), naive) {
                    Some(at) => Ok(at),
                    None => Err(
                        quoting_error(
                            "series master start.dateTime ",
                            start,
                            text::joined(" is ambiguous or nonexistent in ", source.as_str()).as_str(),
                        ),
                    ),
                }
            },
        },
    }
}

/// See [`series_local_time`].
fn master_recurrence_local_time(graph_event: &Json, fallback_calendar_tz: Option<&str>) -> (r: Result<
    Moment,
    GraphError,
>)
    ensures
        match r {
            Ok(m) => series_local_time(graph_event@, text::opt_str(fallback_calendar_tz)) == Ok::<
                Moment,
                GraphErrorView,
            >(m),
            Err(e) => series_local_time(graph_event@, text::opt_str(fallback_calendar_tz)) == Err::<
                Moment,
                GraphErrorView,
            >(e@),
        },
{
    let zone = match find_recurrence_zone(graph_event, fallback_calendar_tz) {
        Some(z) => z,
        None => {
            return Err(
                malformed("series master with cancelledOccurrences has no supported recurrence time zone"),
            );
        },
    };
    if !moment::zone_known(zone.as_str()) {
        return Err(quoting_error("series master recurrence time zone ", zone.as_str(), " is not IANA"));
    }
    let start = match when_nonempty(start_str(graph_event, "dateTime")) {
        Some(s) => s,
        None => {
            return Err(malformed("series master with cancelledOccurrences has no start.dateTime"));
        },
    };
    match find_start_instant(graph_event, start, zone.as_str()) {
        Err(e) => Err(e),
        Ok(at) => match moment::local_in_zone(zone.as_str(), at) {
            Some(l) => Ok(l),
            None => Err(quoting_error("series master start.dateTime ", start, " is out of range")),
        },
    }
}

/// The time of day of a moment, as `h:m:s` with two digits each. A leap second
/// counts as the sixtieth.
pub open spec fn clock_text(m: Moment) -> Seq<char> {
    let day = m.seconds as int % 86400;
    let extra: int = if m.nanos >= 1_000_000_000 {
        1
    } else {
        0
    };
    text::padded_text((day / 3600) as nat, 2) + ":"@ + text::padded_text(((day % 3600) / 60) as nat, 2) + ":"@
        + text::padded_text((day % 60 + extra) as nat, 2)
}

fn write_clock(m: Moment) -> (r: String)
    ensures
        r@ == clock_text(m),
{
    let shifted: i128 = m.seconds as i128 + 86400 * 200_000_000_000_000;
    let day: u128 = shifted as u128 % 86400;
    assert(day == (m.seconds as int) % 86400);
    let extra: u128 = if m.nanos >= 1_000_000_000 {
        1
    } else {
        0
    };
    let mut out = text::padded(day / 3600, 2);
    out.append(":");
    out.append(text::padded((day % 3600) / 60, 2).as_str());
    out.append(":");
    out.append(text::padded(day % 60 + extra, 2).as_str());
    out
}

/// The date in the name of a cancelled occurrence.
///
/// Graph names an occurrence `OID.{series master id}.{start date}`; every name of
/// another shape is refused.
pub open spec fn named_date(g: JsonView, id: Seq<char>) -> Result<Seq<char>, GraphErrorView> {
    if event_type_of(g) != EventType::SeriesMaster {
        Err(
            GraphErrorView::Malformed("cancelledOccurrences is present on a non-series-master event"@),
        )
    } else {
        match nonempty(g.text_at("id"@)) {
            None => Err(
                GraphErrorView::Malformed("series master with cancelledOccurrences has no non-empty id"@),
            ),
            Some(master) => if !text::begins(id, "OID."@) {
                Err(malformed_quoting("cancelled occurrence id "@, id, " does not start with OID."@))
            } else {
                match text::split_last(id.skip("OID."@.len() as int), '.') {
                    None => Err(
                        malformed_quoting("cancelled occurrence id "@, id, " has no start-date suffix"@),
                    ),
                    Some((encoded, date)) => if encoded != master {
                        Err(
                            malformed_quoting(
                                "cancelled occurrence id "@,
                                id,
                                " belongs to series "@ + text::debug_text(encoded) + (", not "@
                                    + text::debug_text(master)),
                            ),
                        )
                    } else {
                        Ok(date)
                    },
                }
            },
        }
    }
}

/// See [`named_date`].
pub fn occurrence_date(graph_event: &Json, occurrence_id: &str) -> (r: Result<String, GraphError>)
    ensures
        match r {
            Ok(d) => named_date(graph_event@, occurrence_id@) == Ok::<Seq<char>, GraphErrorView>(d@),
            Err(e) => named_date(graph_event@, occurrence_id@) == Err::<Seq<char>, GraphErrorView>(e@),
        },
{
    if classify_event_type(graph_event) != EventType::SeriesMaster {
        return Err(malformed("cancelledOccurrences is present on a non-series-master event"));
    }
    let master_id = match when_nonempty(graph_event.str_at("id")) {
        Some(id) => id,
        None => {
            return Err(malformed("series master with cancelledOccurrences has no non-empty id"));
        },
    };
    let encoded = match text::strip_prefix(occurrence_id, "OID.") {
        Some(rest) => rest,
        None => {
            return Err(
                quoting_error("cancelled occurrence id ", occurrence_id, " does not start with OID."),
            );
        },
    };
    let (encoded_master, raw_date) = match text::rsplit_once(encoded.as_str(), '.') {
        Some(parts) => parts,
        None => {
            return Err(
                quoting_error("cancelled occurrence id ", occurrence_id, " has no start-date suffix"),
            );
        },
    };
    if !text::same(encoded_master.as_str(), master_id) {
        let not = text::joined(", not ", text::quoted(master_id).as_str());
        return Err(
            quoting_error(
                "cancelled occurrence id ",
                occurrence_id,
                text::joined3(
                    " belongs to series ",
                    text::quoted(encoded_master.as_str()).as_str(),
                    not.as_str(),
                ).as_str(),
            ),
        );
    }
    Ok(raw_date)
}

/// A date with the time of day of a moment, or with midnight.
pub open spec fn key_text(day: Seq<char>, clock: Option<Moment>) -> Seq<char> {
    day + "T"@ + match clock {
        Some(m) => clock_text(m),
        None => "00:00:00"@,
    }
}

/// See [`key_text`].
pub fn occurrence_key(day: &str, clock: Option<Moment>) -> (r: String)
    ensures
        r@ == key_text(day@, clock),
{
    match clock {
        Some(m) => text::joined3(day, "T", write_clock(m).as_str()),
        None => text::joined3(day, "T", "00:00:00"),
    }
}

/// A date that a text of the form `y-m-d` gives, written anew.
pub open spec fn tidy_date(text: Seq<char>) -> Option<Seq<char>> {
    match moment::date_parse(text, "%Y-%m-%d"@) {
        Some(day) => moment::date_text(day, "%Y-%m-%d"@),
        None => None,
    }
}

fn rewrite_date(raw: &str) -> (r: Option<String>)
    ensures
        text::opt_text(r) == tidy_date(raw@),
{
    match moment::parse_date(raw, "%Y-%m-%d") {
        Some(day) => moment::write_date(day, "%Y-%m-%d"),
        None => None,
    }
}

/// The key under which a cancelled occurrence is excluded from its series: the
/// local date and time at which it would have begun. The date is that of the zone
/// the series recurs in, and the time of day is the master's.
pub open spec fn cancelled_key(
    g: JsonView,
    id: Seq<char>,
    all_day: bool,
    fallback: Option<Seq<char>>,
) -> Result<Seq<char>, GraphErrorView> {
    match named_date(g, id) {
        Err(e) => Err(e),
        Ok(date) => match tidy_date(date) {
            None => Err(
                malformed_quoting(
                    "cancelled occurrence id "@,
                    id,
                    " has invalid start date "@ + text::debug_text(date),
                ),
            ),
            Some(day) => if all_day {
                Ok(key_text(day, None))
            } else {
                match series_local_time(g, fallback) {
                    Err(e) => Err(e),
                    Ok(m) => Ok(key_text(day, Some(m))),
                }
            },
        },
    }
}

/// See [`cancelled_key`].
fn cancelled_occurrence_key(
    graph_event: &Json,
    occurrence_id: &str,
    is_all_day: bool,
    fallback_calendar_tz: Option<&str>,
) -> (r: Result<String, GraphError>)
    ensures
        match r {
            Ok(k) => cancelled_key(
                graph_event@,
                occurrence_id@,
                is_all_day,
                text::opt_str(fallback_calendar_tz),
            ) == Ok::<Seq<char>, GraphErrorView>(k@),
            Err(e) => cancelled_key(
                graph_event@,
                occurrence_id@,
                is_all_day,
                text::opt_str(fallback_calendar_tz),
            ) == Err::<Seq<char>, GraphErrorView>(e@),
        },
{
    let raw_date = match occurrence_date(graph_event, occurrence_id) {
        Ok(d) => d,
        Err(e) => {
            return Err(e);
        },
    };
    let day = match rewrite_date(raw_date.as_str()) {
        Some(d) => d,
        None => {
            return Err(
                quoting_error(
                    "cancelled occurrence id ",
                    occurrence_id,
                    text::joined(
                        " has invalid start date ",
                        text::quoted(raw_date.as_str()).as_str(),
                    ).as_str(),
                ),
            );
        },
    };
    if is_all_day {
        return Ok(occurrence_key(day.as_str(), None));
    }
    match master_recurrence_local_time(graph_event, fallback_calendar_tz) {
        Err(e) => Err(e),
        Ok(m) => Ok(occurrence_key(day.as_str(), Some(m))),
    }
}

/// The uid of an event.
pub open spec fn event_uid(g: JsonView) -> Option<Seq<char>> {
    either(g.text_at("iCalUId"@), g.text_at("id"@))
}

/// Whether an event lasts whole days.
pub open spec fn all_day(g: JsonView) -> bool {
    g.bool_at("isAllDay"@) == Some(true)
}

/// A date and time of an event, without a fraction of a second.
pub open spec fn local_datetime(slot: Option<JsonView>) -> Option<Seq<char>> {
    match slot {
        Some(s) => match s.text_at("dateTime"@) {
            Some(t) => Some(text::until(t, '.')),
            None => None,
        },
        None => None,
    }
}

fn extract_local_datetime(slot: Option<&Json>) -> (r: Option<String>)
    ensures
        text::opt_text(r) == local_datetime(
            match slot {
                Some(s) => Some(s@),
                None => None,
            },
        ),
{
    match slot {
        Some(s) => match s.str_at("dateTime") {
            Some(t) => Some(text::text_until(t, '.')),
            None => None,
        },
        None => None,
    }
}

/// The `start` of a card, given what it is in the zone it is shown in, as far as it
/// can be moved there: that, unless the event lasts whole days.
pub open spec fn start_in_zone(start: Seq<char>, moved: Option<Seq<char>>, all_day: bool) -> Seq<char> {
    match moved {
        Some(t) => if all_day {
            start
        } else {
            t
        },
        None => start,
    }
}

/// See [`start_in_zone`].
pub fn shown_start(start: &str, moved: Option<String>, all_day: bool) -> (r: String)
    ensures
        r@ == start_in_zone(start@, text::opt_text(moved), all_day),
{
    match moved {
        Some(t) => if all_day {
            start.to_owned()
        } else {
            t
        },
        None => start.to_owned(),
    }
}

/// The `start` of a card: in the zone it is shown in, as far as it can be moved
/// there.
pub open spec fn card_start(g: JsonView, fallback: Option<Seq<char>>) -> Option<Seq<char>> {
    match local_datetime(g.field("start"@)) {
        None => None,
        Some(start) => Some(
            start_in_zone(
                start,
                match display_zone(g, fallback) {
                    Some(zone) => shifted(start, zone),
                    None => None,
                },
                all_day(g),
            ),
        ),
    }
}

/// The `duration` of a card.
pub open spec fn card_duration(g: JsonView) -> Option<Seq<char>> {
    match (local_datetime(g.field("start"@)), local_datetime(g.field("end"@))) {
        (Some(s), Some(e)) => duration_between(s, e),
        _ => None,
    }
}

/// The alert of an event with a reminder.
pub open spec fn alerts_of(g: JsonView) -> Option<JsonView> {
    if g.bool_at("isReminderOn"@) != Some(true) {
        None
    } else {
        match g.field("reminderMinutesBeforeStart"@) {
            Some(JsonView::Number(n)) => match crate::json::signed_of(n) {
                Some(mins) => Some(
                    JsonView::Object(
                        Map::<Seq<char>, JsonView>::empty().insert(
                            "alert-1"@,
                            JsonView::Object(alert(mins as int)),
                        ),
                    ),
                ),
                None => None,
            },
            _ => None,
        }
    }
}

/// The alert so many minutes before the start.
pub open spec fn alert(mins: int) -> Members {
    let minutes = if mins < 0 {
        -mins
    } else {
        mins
    };
    let trigger = Map::<Seq<char>, JsonView>::empty().insert("@type"@, JsonView::Str("OffsetTrigger"@)).insert(
        "relativeTo"@,
        JsonView::Str("start"@),
    ).insert("offset"@, JsonView::Str("-PT"@ + text::decimal_text(minutes as nat) + "M"@));
    Map::<Seq<char>, JsonView>::empty().insert("@type"@, JsonView::Str("Alert"@)).insert(
        "trigger"@,
        JsonView::Object(trigger),
    )
}

fn build_alerts(g: &Json) -> (r: Option<Json>)
    ensures
        alerts_of(g@) == match r {
            Some(v) => Some(v@),
            None => None,
        },
{
    match g.bool_at("isReminderOn") {
        Some(true) => {},
        _ => {
            return None;
        },
    }
    let mins: i64 = match g.get("reminderMinutesBeforeStart") {
        Some(v) => match v.as_i64() {
            Some(m) => m,
            None => {
                return None;
            },
        },
        None => {
            return None;
        },
    };
    let minutes: u128 = if mins < 0 {
        (-(mins as i128)) as u128
    } else {
        mins as u128
    };
    let mut trigger = JsonObject::new();
    trigger.insert("@type".to_owned(), Json::text("OffsetTrigger"));
    trigger.insert("relativeTo".to_owned(), Json::text("start"));
    trigger.insert(
        "offset".to_owned(),
        Json::Str(text::joined3("-PT", text::decimal(minutes).as_str(), "M")),
    );
    let mut alert = JsonObject::new();
    alert.insert("@type".to_owned(), Json::text("Alert"));
    alert.insert("trigger".to_owned(), Json::Object(trigger));
    let mut alerts = JsonObject::new();
    alerts.insert("alert-1".to_owned(), Json::Object(alert));
    Some(Json::Object(alerts))
}

/// The overrides that exclude the first `n` of some cancelled occurrences.
pub open spec fn overrides(
    g: JsonView,
    ids: Seq<JsonView>,
    fallback: Option<Seq<char>>,
    n: nat,
) -> Result<Members, GraphErrorView>
    decreases n,
{
    if n == 0 || n > ids.len() {
        Ok(Map::empty())
    } else {
        match overrides(g, ids, fallback, (n - 1) as nat) {
            Err(e) => Err(e),
            Ok(m) => match ids[n - 1].as_text() {
                None => Err(
                    GraphErrorView::Malformed("event.cancelledOccurrences contains a non-string value"@),
                ),
                Some(id) => match cancelled_key(g, id, all_day(g), fallback) {
                    Err(e) => Err(e),
                    Ok(k) => Ok(
                        m.insert(
                            k,
                            JsonView::Object(
                                Map::<Seq<char>, JsonView>::empty().insert("excluded"@, JsonView::Bool(true)),
                            ),
                        ),
                    ),
                },
            },
        }
    }
}

/// A failed prefix fails the whole.
proof fn lemma_overrides_stuck(g: JsonView, ids: Seq<JsonView>, fallback: Option<Seq<char>>, n: nat, k: nat)
    requires
        n <= k <= ids.len(),
        overrides(g, ids, fallback, n) is Err,
    ensures
        overrides(g, ids, fallback, k) == overrides(g, ids, fallback, n),
    decreases k,
{
    if n < k {
        lemma_overrides_stuck(g, ids, fallback, n, (k - 1) as nat);
    }
}

/// The `recurrenceOverrides` of an event.
pub open spec fn overrides_of(g: JsonView, fallback: Option<Seq<char>>) -> Result<
    Option<JsonView>,
    GraphErrorView,
> {
    match g.field("cancelledOccurrences"@) {
        None => Ok(None),
        Some(JsonView::Null) => Ok(None),
        Some(JsonView::Array(ids)) => match overrides(g, ids, fallback, ids.len()) {
            Err(e) => Err(e),
            Ok(m) => if ids.len() > 0 {
                Ok(Some(JsonView::Object(m)))
            } else {
                Ok(None)
            },
        },
        Some(_) => Err(GraphErrorView::Malformed("event.cancelledOccurrences is not an array"@)),
    }
}

fn build_overrides(g: &Json, is_all_day: bool, fallback: Option<&str>) -> (r: Result<Option<Json>, GraphError>)
    requires
        is_all_day == all_day(g@),
    ensures
        match r {
            Ok(Some(v)) => overrides_of(g@, text::opt_str(fallback)) == Ok::<Option<JsonView>, GraphErrorView>(
                Some(v@),
            ),
            Ok(None) => overrides_of(g@, text::opt_str(fallback)) == Ok::<Option<JsonView>, GraphErrorView>(
                None,
            ),
            Err(e) => overrides_of(g@, text::opt_str(fallback)) == Err::<Option<JsonView>, GraphErrorView>(
                e@,
            ),
        },
{
    let cancels = match g.get("cancelledOccurrences") {
        None => {
            return Ok(None);
        },
        Some(v) => if v.is_null() {
            return Ok(None);
        } else {
            v
        },
    };
    match cancels {
        Json::Array(ids) => {
            let ghost all = crate::json::views(ids@);
            assert(cancels@->Array_0 =~= all);
            let ghost fb = text::opt_str(fallback);
            let mut map = JsonObject::new();
            let mut i: usize = 0;
            while i < ids.len()
                invariant
                    i <= ids.len(),
                    all == crate::json::views(ids@),
                    fb == text::opt_str(fallback),
                    is_all_day == all_day(g@),
                    g@.field("cancelledOccurrences"@) == Some(JsonView::Array(all)),
                    overrides(g@, all, fb, i as nat) == Ok::<Members, GraphErrorView>(map@),
                decreases ids.len() - i,
            {
                assert(all[i as int] == ids@[i as int]@);
                match ids[i].as_str() {
                    None => {
                        proof {
                            lemma_overrides_stuck(g@, all, fb, (i + 1) as nat, all.len());
                        }
                        return Err(malformed("event.cancelledOccurrences contains a non-string value"));
                    },
                    Some(id) => match cancelled_occurrence_key(g, id, is_all_day, fallback) {
                        Err(e) => {
                            proof {
                                lemma_overrides_stuck(g@, all, fb, (i + 1) as nat, all.len());
                            }
                            return Err(e);
                        },
                        Ok(key) => {
                            let mut excluded = JsonObject::new();
                            excluded.insert("excluded".to_owned(), Json::Bool(true));
                            map.insert(key, Json::Object(excluded));
                        },
                    },
                }
                i += 1;
            }
            if ids.len() > 0 {
                Ok(Some(Json::Object(map)))
            } else {
                Ok(None)
            }
        },
        _ => Err(malformed("event.cancelledOccurrences is not an array")),
    }
}

/// Whether an event recurs.
pub open spec fn recurs(g: JsonView) -> bool {
    g.field("recurrence"@) matches Some(r) && r !is Null
}

/// What an event is about: its uid, title and description.
pub open spec fn card_subject(g: JsonView, uid: Seq<char>) -> Members {
    let m = put(Map::empty(), "@type"@, Some(JsonView::Str("Event"@)));
    let m = put(m, "uid"@, Some(JsonView::Str(uid)));
    let m = put(m, "title"@, str_value(nonempty(g.text_at("subject"@))));
    put(
        m,
        "description"@,
        str_value(
            nonempty(
                match g.field("body"@) {
                    Some(b) => b.text_at("content"@),
                    None => None,
                },
            ),
        ),
    )
}

/// When an event is: start, duration and zone, or that it lasts whole days.
pub open spec fn card_time(m: Members, g: JsonView, fallback: Option<Seq<char>>) -> Members {
    let m = put(m, "start"@, str_value(card_start(g, fallback)));
    let m = put(m, "duration"@, str_value(card_duration(g)));
    if all_day(g) {
        m.insert("showWithoutTime"@, JsonView::Bool(true))
    } else {
        m.insert(
            "timeZone"@,
            JsonView::Str(
                match display_zone(g, fallback) {
                    Some(z) => z,
                    None => "Etc/UTC"@,
                },
            ),
        )
    }
}

/// How an event counts: status, privacy, priority, whether its time is free, and
/// its keywords.
pub open spec fn card_standing(m: Members, g: JsonView) -> Members {
    let m = m.insert(
        "status"@,
        JsonView::Str(
            if g.bool_at("isCancelled"@) == Some(true) {
                "cancelled"@
            } else {
                "confirmed"@
            },
        ),
    );
    let m = put(
        m,
        "privacy"@,
        match g.text_at("sensitivity"@) {
            Some(t) => Some(JsonView::Str(privacy_of(t))),
            None => None,
        },
    );
    let m = put(
        m,
        "priority"@,
        match g.text_at("importance"@) {
            Some(t) => Some(JsonView::Number(NumberView::Integer(priority_of(t)))),
            None => None,
        },
    );
    let m = put(
        m,
        "freeBusyStatus"@,
        match g.text_at("showAs"@) {
            Some(t) => Some(JsonView::Str(free_busy_of(t))),
            None => None,
        },
    );
    put(m, "keywords"@, keywords_of(g))
}

/// Where an event is.
pub open spec fn card_place(m: Members, g: JsonView) -> Members {
    put(
        m,
        "locations"@,
        match g.array_at("locations"@) {
            Some(l) => if l.len() > 0 {
                Some(JsonView::Object(locations(l, l.len())))
            } else {
                None
            },
            None => None,
        },
    )
}

/// Who takes part in an event.
pub open spec fn card_people(m: Members, g: JsonView) -> Members {
    let m = put(
        m,
        "organizerCalendarAddress"@,
        match organizer_email(g) {
            Some(o) => match nonempty(o.text_at("address"@)) {
                Some(a) => Some(JsonView::Str("mailto:"@ + a)),
                None => None,
            },
            None => None,
        },
    );
    put(
        m,
        "participants"@,
        if has_participants(g) {
            Some(JsonView::Object(participants(g)))
        } else {
            None
        },
    )
}

/// When an event was made and changed, and its alert.
pub open spec fn card_stamps(m: Members, g: JsonView) -> Members {
    let m = put(
        m,
        "created"@,
        match g.text_at("createdDateTime"@) {
            Some(t) => Some(JsonView::Str(whole_seconds_utc(t))),
            None => None,
        },
    );
    let m = put(
        m,
        "updated"@,
        match g.text_at("lastModifiedDateTime"@) {
            Some(t) => Some(JsonView::Str(whole_seconds_utc(t))),
            None => None,
        },
    );
    put(m, "alerts"@, alerts_of(g))
}

/// The members of the JSCalendar event for a Graph event, given the rule that
/// its recurrence amounts to and the overrides of its series.
pub open spec fn event_card(
    g: JsonView,
    uid: Seq<char>,
    fallback: Option<Seq<char>>,
    rule: Option<JsonView>,
    excluded: Option<JsonView>,
) -> Members {
    let m = card_place(card_standing(card_time(card_subject(g, uid), g, fallback), g), g);
    let m = put(m, "recurrenceRule"@, rule);
    put(card_stamps(card_people(m, g), g), "recurrenceOverrides"@, excluded)
}

fn write_subject(graph_event: &Json, uid: &str) -> (card: JsonObject)
    ensures
        card@ == card_subject(graph_event@, uid@),
{
    let mut card = JsonObject::new();
    put_text(&mut card, "@type", Some("Event"));
    put_text(&mut card, "uid", Some(uid));
    put_text(&mut card, "title", when_nonempty(graph_event.str_at("subject")));
    let content = match graph_event.get("body") {
        Some(b) => b.str_at("content"),
        None => None,
    };
    put_text(&mut card, "description", when_nonempty(content));
    card
}

fn write_time(card: &mut JsonObject, graph_event: &Json, fallback_calendar_tz: Option<&str>)
    ensures
        final(card)@ == card_time(old(card)@, graph_event@, text::opt_str(fallback_calendar_tz)),
{
    let is_all_day = is_true(graph_event.bool_at("isAllDay"));
    let start_dt = extract_local_datetime(graph_event.get("start"));
    let end_dt = extract_local_datetime(graph_event.get("end"));
    let display_tz: Option<String> = match find_entered_zone(graph_event, fallback_calendar_tz) {
        Some(z) => if text::same(z.as_str(), "Etc/UTC") {
            None
        } else {
            Some(z)
        },
        None => None,
    };
    let start: Option<String> = match &start_dt {
        Some(s) => {
            let moved = match &display_tz {
                Some(zone) => utc_naive_to_local(s.as_str(), zone.as_str()),
                None => None,
            };
            Some(shown_start(s.as_str(), moved, is_all_day))
        },
        None => None,
    };
    put_text(card, "start", text::borrowed(&start));
    let duration: Option<String> = match (&start_dt, &end_dt) {
        (Some(s), Some(e)) => duration_iso8601(s.as_str(), e.as_str()),
        _ => None,
    };
    put_text(card, "duration", text::borrowed(&duration));
    if is_all_day {
        card.insert("showWithoutTime".to_owned(), Json::Bool(true));
    } else {
        let label = match display_tz {
            Some(z) => z,
            None => "Etc/UTC".to_owned(),
        };
        card.insert("timeZone".to_owned(), Json::Str(label));
    }
}

fn write_standing(card: &mut JsonObject, graph_event: &Json)
    ensures
        final(card)@ == card_standing(old(card)@, graph_event@),
{
    if is_true(graph_event.bool_at("isCancelled")) {
        card.insert("status".to_owned(), Json::text("cancelled"));
    } else {
        card.insert("status".to_owned(), Json::text("confirmed"));
    }
    match graph_event.str_at("sensitivity") {
        Some(t) => {
            put_text(card, "privacy", Some(privacy_for(t)));
        },
        None => {},
    }
    match graph_event.str_at("importance") {
        Some(t) => {
            card.insert("priority".to_owned(), Json::signed(priority_for(t)));
        },
        None => {},
    }
    match graph_event.str_at("showAs") {
        Some(t) => {
            put_text(card, "freeBusyStatus", Some(free_busy_for(t)));
        },
        None => {},
    }
    put_value(card, "keywords", build_keywords(graph_event));
}

fn write_people(card: &mut JsonObject, graph_event: &Json)
    ensures
        final(card)@ == card_people(old(card)@, graph_event@),
{
    match organizer_of(graph_event) {
        Some(org) => match when_nonempty(org.str_at("address")) {
            Some(a) => {
                card.insert("organizerCalendarAddress".to_owned(), Json::Str(text::joined("mailto:", a)));
            },
            None => {},
        },
        None => {},
    }
    put_value(card, "participants", build_participants(graph_event));
}

fn write_stamps(card: &mut JsonObject, graph_event: &Json)
    ensures
        final(card)@ == card_stamps(old(card)@, graph_event@),
{
    match graph_event.str_at("createdDateTime") {
        Some(t) => {
            put_text(card, "created", Some(strip_fractional_utc(t).as_str()));
        },
        None => {},
    }
    match graph_event.str_at("lastModifiedDateTime") {
        Some(t) => {
            put_text(card, "updated", Some(strip_fractional_utc(t).as_str()));
        },
        None => {},
    }
    put_value(card, "alerts", build_alerts(graph_event));
}

/// What a Graph event is converted to. `rule` is what its recurrence amounts to
/// as a JSCalendar rule; it counts only where the event recurs.
pub open spec fn converted(
    g: JsonView,
    fallback: Option<Seq<char>>,
    rule: Result<Members, GraphErrorView>,
) -> Result<EventView, GraphErrorView> {
    match event_uid(g) {
        None => Err(GraphErrorView::Malformed("event has neither iCalUId nor id"@)),
        Some(uid) => if recurs(g) && rule is Err {
            Err(rule->Err_0)
        } else {
            match overrides_of(g, fallback) {
                Err(e) => Err(e),
                Ok(excluded) => Ok(
                    EventView {
                        uid,
                        data: JsonView::Object(
                            event_card(
                                g,
                                uid,
                                fallback,
                                if recurs(g) {
                                    Some(JsonView::Object(rule->Ok_0))
                                } else {
                                    None
                                },
                                excluded,
                            ),
                        ),
                        is_draft: g.bool_at("isDraft"@) == Some(true),
                        use_default_alerts: false,
                        series_master_id: g.text_at("seriesMasterId"@),
                        event_type: event_type_of(g),
                        original_start: g.text_at("originalStart"@),
                    },
                ),
            }
        },
    }
}

/// The views of the two outcomes of a rule conversion.
pub open spec fn rule_view(rule: Result<JsonObject, GraphError>) -> Result<Members, GraphErrorView> {
    match rule {
        Ok(o) => Ok(o@),
        Err(e) => Err(e@),
    }
}

fn is_true(b: Option<bool>) -> (r: bool)
    ensures
        r == (b == Some(true)),
{
    match b {
        Some(true) => true,
        _ => false,
    }
}

/// Converts a Graph event; see [`converted`].
pub fn convert_event(
    graph_event: &Json,
    fallback_calendar_tz: Option<&str>,
    rule: Result<JsonObject, GraphError>,
) -> (r: Result<ConvertedEvent, GraphError>)
    ensures
        match r {
            Ok(e) => converted(graph_event@, text::opt_str(fallback_calendar_tz), rule_view(rule)) == Ok::<
                EventView,
                GraphErrorView,
            >(e@),
            Err(e) => converted(graph_event@, text::opt_str(fallback_calendar_tz), rule_view(rule)) == Err::<
                EventView,
                GraphErrorView,
            >(e@),
        },
{
    let uid = match graph_event.str_at("iCalUId") {
        Some(u) => u.to_owned(),
        None => match graph_event.str_at("id") {
            Some(u) => u.to_owned(),
            None => {
                return Err(malformed("event has neither iCalUId nor id"));
            },
        },
    };
    let event_type = classify_event_type(graph_event);
    let is_all_day = is_true(graph_event.bool_at("isAllDay"));
    let mut card = write_subject(graph_event, uid.as_str());
    write_time(&mut card, graph_event, fallback_calendar_tz);
    write_standing(&mut card, graph_event);
    put_value(&mut card, "locations", build_locations(graph_event));
    let recurring = match graph_event.get("recurrence") {
        Some(r) => !r.is_null(),
        None => false,
    };
    if recurring {
        match rule {
            Ok(o) => {
                card.insert("recurrenceRule".to_owned(), Json::Object(o));
            },
            Err(e) => {
                return Err(e);
            },
        }
    }
    write_people(&mut card, graph_event);
    write_stamps(&mut card, graph_event);
    match build_overrides(graph_event, is_all_day, fallback_calendar_tz) {
        Err(e) => {
            return Err(e);
        },
        Ok(excluded) => {
            put_value(&mut card, "recurrenceOverrides", excluded);
        },
    }
    Ok(
        ConvertedEvent {
            uid,
            data: Json::Object(card),
            is_draft: is_true(graph_event.bool_at("isDraft")),
            use_default_alerts: false,
            series_master_id: text::owned(graph_event.str_at("seriesMasterId")),
            event_type,
            original_start: text::owned(graph_event.str_at("originalStart")),
        },
    )
}

/// Whether a year of the Gregorian calendar has a leap day.
pub open spec fn leap_year(y: int) -> bool {
    y % 4 == 0 && (y % 100 != 0 || y % 400 == 0)
}

/// The number of days of a month.
pub open spec fn month_length(y: int, m: int) -> int {
    if m == 2 {
        if leap_year(y) {
            29
        } else {
            28
        }
    } else if m == 4 || m == 6 || m == 9 || m == 11 {
        30
    } else {
        31
    }
}

/// The days of the whole years before a year, counted from March.
spec fn march_years(y: int) -> int {
    let era = y / 400;
    let r = y - era * 400;
    era * 146097 + r * 365 + r / 4 - r / 100
}

proof fn lemma_march_year_length(y: int)
    ensures
        march_years(y) - march_years(y - 1) == if leap_year(y) {
            366int
        } else {
            365int
        },
{
    let q = y / 400;
    let r = y - q * 400;
    assert(0 <= r < 400);
    lemma_remainders(q, r);
    if r == 0 {
        assert((y - 1) / 400 == q - 1) by {
            assert(y - 1 == 400 * (q - 1) + 399);
        }
        assert(march_years(y - 1) == (q - 1) * 146097 + 399 * 365 + 99 - 3);
    } else {
        assert((y - 1) / 400 == q);
        let t = r - 1;
        assert(march_years(y - 1) == q * 146097 + t * 365 + t / 4 - t / 100);
        assert(r / 4 - t / 4 == if r % 4 == 0 {
            1int
        } else {
            0int
        });
        assert(r / 100 - t / 100 == if r % 100 == 0 {
            1int
        } else {
            0int
        });
        assert(r % 100 == 0 ==> r % 4 == 0);
    }
}

proof fn lemma_remainders(q: int, r: int)
    requires
        0 <= r < 400,
    ensures
        (q * 400 + r) % 4 == r % 4,
        (q * 400 + r) % 100 == r % 100,
        (q * 400 + r) % 400 == r,
{
    vstd::arithmetic::div_mod::lemma_mod_multiples_vanish(100 * q, r, 4);
    vstd::arithmetic::div_mod::lemma_mod_multiples_vanish(4 * q, r, 100);
    vstd::arithmetic::div_mod::lemma_mod_multiples_vanish(q, r, 400);
    assert(4 * (100 * q) + r == q * 400 + r);
    assert(100 * (4 * q) + r == q * 400 + r);
    assert(400 * q + r == q * 400 + r);
    assert(r % 400 == r);
}

/// Days are numbered one by one from 1970-01-01: that day has number 0, and the
/// day after any day of the Gregorian calendar has the next number.
pub proof fn days_are_numbered_one_by_one(y: int, m: int, d: int)
    requires
        1 <= m <= 12,
        1 <= d <= month_length(y, m),
    ensures
        civil_days(1970, 1, 1) == 0,
        d < month_length(y, m) ==> civil_days(y, m, d + 1) == civil_days(y, m, d) + 1,
        d == month_length(y, m) && m < 12 ==> civil_days(y, m + 1, 1) == civil_days(y, m, d) + 1,
        d == month_length(y, m) && m == 12 ==> civil_days(y + 1, 1, 1) == civil_days(y, m, d) + 1,
{
    lemma_march_year_length(y);
    assert(civil_days(1970, 1, 1) == 0) by {
        assert(1969int / 400 == 4);
        assert(369int / 4 == 92);
        assert(369int / 100 == 3);
        assert((153 * 10 + 2int) / 5 == 306);
    }
    assert(2int / 5 == 0 && 155int / 5 == 31 && 308int / 5 == 61 && 461int / 5 == 92 && 614int / 5 == 122
        && 767int / 5 == 153 && 920int / 5 == 184 && 1073int / 5 == 214 && 1226int / 5 == 245 && 1379int / 5
        == 275 && 1532int / 5 == 306 && 1685int / 5 == 337);
}

proof fn lemma_padded_step(n: nat, w: nat)
    requires
        w >= 1,
        text::decimal_text(n).len() <= w + 1,
    ensures
        text::decimal_text(n / 10).len() <= w,
        text::padded_text(n, w + 1) == text::padded_text(n / 10, w).push(text::digit(n % 10)),
{
    if n < 10 {
        assert(text::padded_text(n, w + 1) =~= text::padded_text(n / 10, w).push(text::digit(n % 10))) by {
            assert(text::decimal_text(0) =~= seq!['0']);
        }
    } else {
        assert(text::padded_text(n, w + 1) =~= text::padded_text(n / 10, w).push(text::digit(n % 10)));
    }
}

proof fn lemma_before_push(a: Seq<char>, b: Seq<char>, x: char, y: char)
    requires
        a.len() == b.len(),
        crate::json::before(a, b) || (a == b && x < y),
    ensures
        crate::json::before(a.push(x), b.push(y)),
    decreases a.len(),
{
    if a.len() > 0 {
        assert(a.push(x).drop_first() =~= a.drop_first().push(x));
        assert(b.push(y).drop_first() =~= b.drop_first().push(y));
        if a[0] == b[0] {
            lemma_before_push(a.drop_first(), b.drop_first(), x, y);
        }
    }
}

proof fn lemma_padded_ordered(i: nat, j: nat, w: nat)
    requires
        i < j,
        w >= 1,
        text::decimal_text(i).len() <= w,
        text::decimal_text(j).len() <= w,
    ensures
        crate::json::before(text::padded_text(i, w), text::padded_text(j, w)),
        text::padded_text(i, w).len() == w,
        text::padded_text(j, w).len() == w,
    decreases w,
{
    if w == 1 {
        assert(i < 10 && j < 10) by {
            lemma_decimal_long(i);
            lemma_decimal_long(j);
        }
        assert(text::padded_text(i, 1) =~= seq![text::digit(i)]);
        assert(text::padded_text(j, 1) =~= seq![text::digit(j)]);
    } else {
        let v = (w - 1) as nat;
        lemma_padded_step(i, v);
        lemma_padded_step(j, v);
        if i / 10 < j / 10 {
            lemma_padded_ordered(i / 10, j / 10, v);
        }
        lemma_before_push(
            text::padded_text(i / 10, v),
            text::padded_text(j / 10, v),
            text::digit(i % 10),
            text::digit(j % 10),
        );
    }
}

proof fn lemma_decimal_long(n: nat)
    ensures
        text::decimal_text(n).len() >= 1,
        n >= 10 ==> text::decimal_text(n).len() >= 2,
    decreases n,
{
    if n >= 10 {
        lemma_decimal_long(n / 10);
    }
}

proof fn lemma_decimal_grows(i: nat, j: nat)
    requires
        i <= j,
    ensures
        text::decimal_text(i).len() <= text::decimal_text(j).len(),
    decreases j,
{
    lemma_decimal_long(j);
    if i >= 10 {
        lemma_decimal_grows(i / 10, j / 10);
    }
}

proof fn lemma_before_prefix(p: Seq<char>, a: Seq<char>, b: Seq<char>)
    requires
        crate::json::before(a, b),
    ensures
        crate::json::before(p + a, p + b),
    decreases p.len(),
{
    if p.len() == 0 {
        assert(p + a =~= a);
        assert(p + b =~= b);
    } else {
        lemma_before_prefix(p.drop_first(), a, b);
        assert((p + a).drop_first() =~= p.drop_first() + a);
        assert((p + b).drop_first() =~= p.drop_first() + b);
    }
}

/// Numbered keys sort as the entries they number are listed: of two entries of a
/// list of `n`, the earlier has the key that comes first.
pub proof fn numbered_keys_keep_the_order(prefix: Seq<char>, i: nat, j: nat, n: nat)
    requires
        1 <= i < j <= n,
    ensures
        crate::json::before(numbered(prefix, i, width_of(n)), numbered(prefix, j, width_of(n))),
{
    lemma_decimal_long(n);
    lemma_decimal_grows(i, n);
    lemma_decimal_grows(j, n);
    lemma_padded_ordered(i, j, width_of(n));
    lemma_before_prefix(
        prefix,
        text::padded_text(i, width_of(n)),
        text::padded_text(j, width_of(n)),
    );
}

proof fn lemma_overrides_hold(g: JsonView, ids: Seq<JsonView>, fallback: Option<Seq<char>>, n: nat, i: int)
    requires
        0 <= i < n <= ids.len(),
        overrides(g, ids, fallback, n) is Ok,
    ensures
        ids[i] is Str,
        cancelled_key(g, ids[i]->Str_0, all_day(g), fallback) matches Ok(k)
            && overrides(g, ids, fallback, n)->Ok_0.dom().contains(k)
            && overrides(g, ids, fallback, n)->Ok_0[k] == excluded_marker(),
    decreases n,
{
    if i < n - 1 {
        lemma_overrides_hold(g, ids, fallback, (n - 1) as nat, i);
    }
}

/// What an override says of an occurrence that does not take place.
pub open spec fn excluded_marker() -> JsonView {
    JsonView::Object(Map::<Seq<char>, JsonView>::empty().insert("excluded"@, JsonView::Bool(true)))
}

/// No cancelled occurrence comes back: where a series is converted, each of its
/// cancelled occurrences has a key, and the card excludes it under that key.
pub proof fn cancelled_occurrences_stay_cancelled(
    g: JsonView,
    fallback: Option<Seq<char>>,
    rule: Result<Members, GraphErrorView>,
    ids: Seq<JsonView>,
    i: int,
)
    requires
        g.field("cancelledOccurrences"@) == Some(JsonView::Array(ids)),
        0 <= i < ids.len(),
        converted(g, fallback, rule) is Ok,
    ensures
        ids[i] is Str,
        ({
            let key = cancelled_key(g, ids[i]->Str_0, all_day(g), fallback);
            let shown = converted(g, fallback, rule)->Ok_0.data.field("recurrenceOverrides"@);
            &&& key is Ok
            &&& shown matches Some(o) && o.field(key->Ok_0) == Some(excluded_marker())
        }),
{
    lemma_overrides_hold(g, ids, fallback, ids.len(), i);
}

} // verus!
