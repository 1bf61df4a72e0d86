//! The usage report of the account: how much of each limit is used, and
//! when it resets.

use crate::json::{member, text_member, Json, JsonView};
use crate::text::{
    contains, contains_str, decimal, ends_with, lowercase, parse_i64, parsed_i64, push_decimal,
    push_range, push_signed_decimal, push_str, signed_decimal, split_once, split_once_chars,
    string_of, to_chars, trim, trim_chars, trim_end_matches, trim_end_matches_chars,
};
use vstd::prelude::*;

verus! {

/// How much of the account's allowance is used.
#[derive(Debug)]
pub struct UsageSummary {
    pub used: i64,
    pub limit: i64,
    pub reset: Option<String>,
}

/// How much of one limit is used.
#[derive(Debug)]
pub struct UsageRow {
    pub label: String,
    pub used: i64,
    pub limit: i64,
    pub reset: Option<String>,
}

impl Clone for UsageRow {
    fn clone(&self) -> (r: Self)
        ensures
            r == *self,
    {
        UsageRow {
            label: self.label.clone(),
            used: self.used,
            limit: self.limit,
            reset: match &self.reset {
                Some(t) => Some(t.clone()),
                None => None,
            },
        }
    }
}

/// The text of an optional string.
pub open spec fn opt_text(o: Option<String>) -> Option<Seq<char>> {
    match o {
        Some(s) => Some(s@),
        None => None,
    }
}

// ---------------------------------------------------------------------------
// Numbers and durations
// ---------------------------------------------------------------------------

/// The whole number that a value holds: a number as it is (one above
/// `i64::MAX` wrapped around), a string as the number it writes.
pub open spec fn to_i64_spec(v: JsonView) -> Option<i64> {
    match v {
        JsonView::Int(i) => Some(i),
        JsonView::UInt(u) => Some(u as i64),
        JsonView::Text(t) => parsed_i64(trim(t)),
        _ => None,
    }
}

/// The whole number that the member with this key holds.
pub open spec fn member_i64(v: JsonView, key: Seq<char>) -> Option<i64> {
    match member(v, key) {
        Some(m) => to_i64_spec(m),
        None => None,
    }
}

/// The whole number that a value holds.
pub fn to_i64(value: &Json) -> (r: Option<i64>)
    ensures
        r == to_i64_spec(value@),
{
    match value {
        Json::Int(i) => Some(*i),
        Json::UInt(u) => Some(#[verifier::truncate] (*u as i64)),
        Json::Text(t) => {
            let v = to_chars(t.as_str());
            let trimmed = string_of(&trim_chars(&v));
            parse_i64(trimmed.as_str())
        },
        _ => None,
    }
}

fn get_i64(value: &Json, key: &str) -> (r: Option<i64>)
    ensures
        r == member_i64(value@, key@),
{
    match value.get(key) {
        Some(m) => to_i64(m),
        None => None,
    }
}

/// A duration in days, hours and minutes, such as `1d 2h 3m`. A part that
/// is zero is left out; a duration of less than a minute, or a negative
/// one, is `0m`.
pub open spec fn format_duration_spec(seconds: int) -> Seq<char> {
    let s = if seconds < 0 {
        0
    } else {
        seconds
    };
    let days = s / 86_400;
    let hours = (s % 86_400) / 3_600;
    let minutes = (s % 3_600) / 60;
    (if days > 0 {
        decimal(days as nat) + seq!['d']
    } else {
        Seq::empty()
    }) + (if hours > 0 {
        (if days > 0 {
            seq![' ']
        } else {
            Seq::empty()
        }) + decimal(hours as nat) + seq!['h']
    } else {
        Seq::empty()
    }) + (if minutes > 0 || (days == 0 && hours == 0) {
        (if days > 0 || hours > 0 {
            seq![' ']
        } else {
            Seq::empty()
        }) + decimal(minutes as nat) + seq!['m']
    } else {
        Seq::empty()
    })
}

/// A duration in days, hours and minutes.
pub fn format_duration(seconds: i64) -> (r: String)
    ensures
        r@ == format_duration_spec(seconds as int),
{
    format_wide_duration(seconds as i128)
}

fn format_wide_duration(seconds: i128) -> (r: String)
    requires
        seconds <= 0xffff_ffff_ffff_ffff_ffff,
    ensures
        r@ == format_duration_spec(seconds as int),
{
    let s: i128 = if seconds < 0 {
        0
    } else {
        seconds
    };
    let days = s / 86_400;
    let hours = (s % 86_400) / 3_600;
    let minutes = (s % 3_600) / 60;
    let mut out: Vec<char> = Vec::new();
    if days > 0 {
        push_decimal(&mut out, days as u128);
        out.push('d');
    }
    let ghost with_days = out@;
    if hours > 0 {
        if days > 0 {
            out.push(' ');
        }
        push_decimal(&mut out, hours as u128);
        out.push('h');
    }
    let ghost with_hours = out@;
    if minutes > 0 || (days == 0 && hours == 0) {
        if days > 0 || hours > 0 {
            out.push(' ');
        }
        push_decimal(&mut out, minutes as u128);
        out.push('m');
    }
    proof {
        assert(with_days =~= (if days > 0 {
            decimal(days as nat) + seq!['d']
        } else {
            Seq::<char>::empty()
        }));
        assert(with_hours =~= with_days + (if hours > 0 {
            (if days > 0 {
                seq![' ']
            } else {
                Seq::<char>::empty()
            }) + decimal(hours as nat) + seq!['h']
        } else {
            Seq::<char>::empty()
        }));
        assert(out@ =~= with_hours + (if minutes > 0 || (days == 0 && hours == 0) {
            (if days > 0 || hours > 0 {
                seq![' ']
            } else {
                Seq::<char>::empty()
            }) + decimal(minutes as nat) + seq!['m']
        } else {
            Seq::<char>::empty()
        }));
    }
    string_of(&out)
}

// ---------------------------------------------------------------------------
// Time stamps
// ---------------------------------------------------------------------------

/// A time stamp in UTC with at most six digits of a fraction of a second;
/// every other text as it is.
pub open spec fn normalize_rfc3339_spec(value: Seq<char>) -> Seq<char> {
    if ends_with(value, seq!['Z']) {
        match split_once(trim_end_matches(value, seq!['Z']), '.') {
            Some((base, frac)) => base + seq!['.'] + frac.take(
                if frac.len() < 6 {
                    frac.len() as int
                } else {
                    6
                },
            ) + seq!['Z'],
            None => value,
        }
    } else {
        value
    }
}

/// Cuts the fraction of a second of a UTC time stamp to six digits.
pub fn normalize_rfc3339(value: &str) -> (r: String)
    ensures
        r@ == normalize_rfc3339_spec(value@),
{
    let v = to_chars(value);
    let mut z: Vec<char> = Vec::new();
    z.push('Z');
    assert(z@ =~= seq!['Z']);
    if v.len() > 0 && v[v.len() - 1] == 'Z' {
        assert(v@.subrange(v.len() - 1, v.len() as int) =~= seq!['Z']);
        let stem = trim_end_matches_chars(&v, &z);
        match split_once_chars(&stem, '.') {
            Some((base, frac)) => {
                let n: usize = if frac.len() < 6 {
                    frac.len()
                } else {
                    6
                };
                let mut out = base;
                out.push('.');
                push_range(&mut out, &frac, 0, n);
                out.push('Z');
                assert(frac@.subrange(0, n as int) == frac@.take(n as int));
                assert(out@ =~= normalize_rfc3339_spec(value@));
                string_of(&out)
            },
            None => string_of(&v),
        }
    } else {
        proof {
            if v.len() > 0 {
                assert(v@.subrange(v.len() - 1, v.len() as int)[0] == v@[v.len() - 1]);
            }
        }
        string_of(&v)
    }
}

/// The instant that an RFC 3339 time stamp names, as `chrono` reads it:
/// whole seconds since the epoch and the nanoseconds beyond them.
pub uninterp spec fn rfc3339_instant(text: Seq<char>) -> Option<(i64, u32)>;

/// `DateTime::parse_from_rfc3339` reads a time stamp; `timestamp` and
/// `timestamp_subsec_nanos` give its seconds and nanoseconds. What they
/// return depends on the text alone.
#[verifier::external_body]
pub(crate) fn parse_rfc3339(text: &str) -> (r: Option<(i64, u32)>)
    ensures
        r == rfc3339_instant(text@),
{
    chrono::DateTime::parse_from_rfc3339(text).ok().map(
        |d| (d.timestamp(), d.timestamp_subsec_nanos()),
    )
}

/// Whole seconds from `now` until `then`, rounded toward zero.
pub open spec fn seconds_until(then: (i64, u32), now: (i64, u32)) -> int {
    let nanos = (then.0 - now.0) * 1_000_000_000 + (then.1 - now.1);
    if nanos >= 0 {
        nanos / 1_000_000_000
    } else {
        -((-nanos) / 1_000_000_000)
    }
}

/// The keys under which a reset time is looked for, in order.
pub open spec fn reset_time_keys() -> Seq<Seq<char>> {
    seq!["reset_at"@, "resetAt"@, "reset_time"@, "resetTime"@]
}

/// The keys under which a time to the reset is looked for, in order.
pub open spec fn reset_span_keys() -> Seq<Seq<char>> {
    seq!["reset_in"@, "resetIn"@, "ttl"@, "window"@]
}

/// What a hint says that resets in `seconds`.
pub open spec fn resets_in(seconds: int) -> Seq<char> {
    "resets in "@ + format_duration_spec(seconds)
}

/// The hint of the first reset time, from key `from` on, that is a time
/// stamp: how long it is until then, or that it has passed.
pub open spec fn reset_time_hint(v: JsonView, now: (i64, u32), from: int) -> Option<Seq<char>>
    decreases reset_time_keys().len() - from,
{
    if from < 0 || from >= reset_time_keys().len() {
        None
    } else {
        match text_member(v, reset_time_keys()[from]) {
            Some(t) => match rfc3339_instant(normalize_rfc3339_spec(t)) {
                Some(then) => if seconds_until(then, now) > 0 {
                    Some(resets_in(seconds_until(then, now)))
                } else {
                    Some("reset"@)
                },
                None => reset_time_hint(v, now, from + 1),
            },
            None => reset_time_hint(v, now, from + 1),
        }
    }
}

/// The hint of the first time to the reset, from key `from` on, that is a
/// positive number of seconds.
pub open spec fn reset_span_hint(v: JsonView, from: int) -> Option<Seq<char>>
    decreases reset_span_keys().len() - from,
{
    if from < 0 || from >= reset_span_keys().len() {
        None
    } else {
        match member_i64(v, reset_span_keys()[from]) {
            Some(s) => if s > 0 {
                Some(resets_in(s as int))
            } else {
                reset_span_hint(v, from + 1)
            },
            None => reset_span_hint(v, from + 1),
        }
    }
}

/// When a limit resets, as its object tells: by a time stamp, or else by a
/// number of seconds.
pub open spec fn reset_hint_spec(v: JsonView, now: (i64, u32)) -> Option<Seq<char>> {
    match reset_time_hint(v, now, 0) {
        Some(h) => Some(h),
        None => reset_span_hint(v, 0),
    }
}

fn resets_in_text(seconds: i128) -> (r: String)
    requires
        seconds <= 0xffff_ffff_ffff_ffff_ffff,
    ensures
        r@ == resets_in(seconds as int),
{
    let mut out = to_chars("resets in ");
    push_str(&mut out, format_wide_duration(seconds).as_str());
    string_of(&out)
}

fn whole_seconds_until(then: (i64, u32), now: (i64, u32)) -> (r: i128)
    ensures
        r == seconds_until(then, now),
{
    let nanos: i128 = (then.0 as i128 - now.0 as i128) * 1_000_000_000 + (then.1 as i128
        - now.1 as i128);
    if nanos >= 0 {
        nanos / 1_000_000_000
    } else {
        -((-nanos) / 1_000_000_000)
    }
}

fn time_hint_at(value: &Json, key: &str, now: (i64, u32)) -> (r: Option<String>)
    ensures
        opt_text(r) == (match text_member(value@, key@) {
            Some(t) => match rfc3339_instant(normalize_rfc3339_spec(t)) {
                Some(then) => if seconds_until(then, now) > 0 {
                    Some(resets_in(seconds_until(then, now)))
                } else {
                    Some("reset"@)
                },
                None => None,
            },
            None => None,
        }),
{
    match value.text_at(key) {
        Some(t) => {
            let normalized = normalize_rfc3339(t);
            match parse_rfc3339(normalized.as_str()) {
                Some(then) => {
                    let seconds = whole_seconds_until(then, now);
                    if seconds > 0 {
                        assert(seconds <= 0xffff_ffff_ffff_ffff_ffff) by {
                            assert(then.0 - now.0 <= 0xffff_ffff_ffff_ffff);
                        }
                        Some(resets_in_text(seconds))
                    } else {
                        Some(string_of(&to_chars("reset")))
                    }
                },
                None => None,
            }
        },
        None => None,
    }
}

fn span_hint_at(value: &Json, key: &str) -> (r: Option<String>)
    ensures
        opt_text(r) == (match member_i64(value@, key@) {
            Some(s) => if s > 0 {
                Some(resets_in(s as int))
            } else {
                None
            },
            None => None,
        }),
{
    match get_i64(value, key) {
        Some(s) => if s > 0 {
            Some(resets_in_text(s as i128))
        } else {
            None
        },
        None => None,
    }
}

/// When a limit resets, as its object tells, seen from the time that the
/// clock shows.
pub fn reset_hint(value: &Json) -> (r: Option<String>)
    ensures
        exists|now: (i64, u32)| opt_text(r) == #[trigger] reset_hint_spec(value@, now),
{
    let now = crate::clock::utc_now();
    reset_hint_at(value, now)
}

/// When a limit resets, as its object tells; `now` is the time in whole
/// seconds since the epoch and the nanoseconds beyond them.
pub fn reset_hint_at(value: &Json, now: (i64, u32)) -> (r: Option<String>)
    ensures
        opt_text(r) == reset_hint_spec(value@, now),
{
    reveal_with_fuel(reset_time_hint, 5);
    reveal_with_fuel(reset_span_hint, 5);
    match time_hint_at(value, "reset_at", now) {
        Some(h) => {
            return Some(h);
        },
        None => {},
    }
    match time_hint_at(value, "resetAt", now) {
        Some(h) => {
            return Some(h);
        },
        None => {},
    }
    match time_hint_at(value, "reset_time", now) {
        Some(h) => {
            return Some(h);
        },
        None => {},
    }
    match time_hint_at(value, "resetTime", now) {
        Some(h) => {
            return Some(h);
        },
        None => {},
    }
    match span_hint_at(value, "reset_in") {
        Some(h) => {
            return Some(h);
        },
        None => {},
    }
    match span_hint_at(value, "resetIn") {
        Some(h) => {
            return Some(h);
        },
        None => {},
    }
    match span_hint_at(value, "ttl") {
        Some(h) => {
            return Some(h);
        },
        None => {},
    }
    span_hint_at(value, "window")
}

// ---------------------------------------------------------------------------
// The report
// ---------------------------------------------------------------------------

/// What is used of a limit: the number under `used`, or else what is left
/// of the limit when the number under `remaining` is taken off.
pub open spec fn used_spec(v: JsonView) -> Option<i64> {
    match member_i64(v, "used"@) {
        Some(u) => Some(u),
        None => match (member_i64(v, "limit"@), member_i64(v, "remaining"@)) {
            (Some(limit), Some(remaining)) => Some(limit.wrapping_sub(remaining)),
            _ => None,
        },
    }
}

fn used_of(value: &Json) -> (r: Option<i64>)
    ensures
        r == used_spec(value@),
{
    match get_i64(value, "used") {
        Some(u) => Some(u),
        None => match (get_i64(value, "limit"), get_i64(value, "remaining")) {
            (Some(limit), Some(remaining)) => Some(limit.wrapping_sub(remaining)),
            _ => None,
        },
    }
}

/// The account's allowance, from the `usage` object of the report. It needs
/// a limit; what is used counts as nothing where the report does not tell.
pub fn usage_summary(payload: &Json, now: (i64, u32)) -> (r: Option<UsageSummary>)
    ensures
        match member(payload@, "usage"@) {
            Some(JsonView::Object(members)) => {
                let usage = JsonView::Object(members);
                match member_i64(usage, "limit"@) {
                    Some(limit) => r matches Some(s) && s.limit == limit && s.used == (match used_spec(
                        usage,
                    ) {
                        Some(u) => u,
                        None => 0,
                    }) && opt_text(s.reset) == reset_hint_spec(usage, now),
                    None => r is None,
                }
            },
            _ => r is None,
        },
{
    let usage = match payload.get("usage") {
        Some(u) => u,
        None => {
            return None;
        },
    };
    if usage.as_object().is_none() {
        return None;
    }
    let limit = match get_i64(usage, "limit") {
        Some(l) => l,
        None => {
            return None;
        },
    };
    let used = match used_of(usage) {
        Some(u) => u,
        None => 0,
    };
    Some(UsageSummary { used, limit, reset: reset_hint_at(usage, now) })
}

/// The first of `name`, `title` and `scope`, looked for in the item and
/// then in its detail, that is a string with more than whitespace, trimmed.
pub open spec fn named_label(item: JsonView, detail: JsonView, from: int) -> Option<Seq<char>>
    decreases 3 - from,
{
    let keys = seq!["name"@, "title"@, "scope"@];
    if from < 0 || from >= 3 {
        None
    } else {
        let in_item = match text_member(item, keys[from]) {
            Some(t) => if trim(t).len() > 0 {
                Some(trim(t))
            } else {
                None
            },
            None => None,
        };
        let in_detail = match text_member(detail, keys[from]) {
            Some(t) => if trim(t).len() > 0 {
                Some(trim(t))
            } else {
                None
            },
            None => None,
        };
        match in_item {
            Some(l) => Some(l),
            None => match in_detail {
                Some(l) => Some(l),
                None => named_label(item, detail, from + 1),
            },
        }
    }
}

/// The first of three optional values that is there.
pub open spec fn first_of<T>(a: Option<T>, b: Option<T>, c: Option<T>) -> Option<T> {
    match a {
        Some(x) => Some(x),
        None => match b {
            Some(x) => Some(x),
            None => c,
        },
    }
}

/// The label of a window of `duration` units of time.
pub open spec fn window_label(duration: i64, unit: Seq<char>) -> Seq<char> {
    if contains(unit, "MINUTE"@) {
        if duration >= 60 && duration % 60 == 0 {
            signed_decimal(duration / 60) + "h limit"@
        } else {
            signed_decimal(duration as int) + "m limit"@
        }
    } else if contains(unit, "HOUR"@) {
        signed_decimal(duration as int) + "h limit"@
    } else if contains(unit, "DAY"@) {
        signed_decimal(duration as int) + "d limit"@
    } else {
        signed_decimal(duration as int) + "s limit"@
    }
}

/// The label of a limit: its name where it has one, else its window, else
/// its number in the list.
pub open spec fn limit_label_spec(
    item: JsonView,
    detail: JsonView,
    window: JsonView,
    idx: nat,
) -> Seq<char> {
    match named_label(item, detail, 0) {
        Some(l) => l,
        None => match first_of(
            member_i64(window, "duration"@),
            member_i64(item, "duration"@),
            member_i64(detail, "duration"@),
        ) {
            Some(duration) => window_label(
                duration,
                match first_of(
                    text_member(window, "timeUnit"@),
                    text_member(item, "timeUnit"@),
                    text_member(detail, "timeUnit"@),
                ) {
                    Some(u) => u,
                    None => Seq::empty(),
                },
            ),
            None => "Limit #"@ + decimal(idx + 1),
        },
    }
}

fn trimmed_text_at(value: &Json, key: &str) -> (r: Option<String>)
    ensures
        opt_text(r) == (match text_member(value@, key@) {
            Some(t) => if trim(t).len() > 0 {
                Some(trim(t))
            } else {
                None
            },
            None => None,
        }),
{
    match value.text_at(key) {
        Some(t) => {
            let v = trim_chars(&to_chars(t));
            if v.len() > 0 {
                Some(string_of(&v))
            } else {
                None
            }
        },
        None => None,
    }
}

fn label_at(item: &Json, detail: &Json, key: &str) -> (r: Option<String>)
    ensures
        opt_text(r) == (match (match text_member(item@, key@) {
            Some(t) => if trim(t).len() > 0 {
                Some(trim(t))
            } else {
                None
            },
            None => None,
        }) {
            Some(l) => Some(l),
            None => match text_member(detail@, key@) {
                Some(t) => if trim(t).len() > 0 {
                    Some(trim(t))
                } else {
                    None
                },
                None => None,
            },
        }),
{
    match trimmed_text_at(item, key) {
        Some(l) => Some(l),
        None => trimmed_text_at(detail, key),
    }
}

fn suffixed(n: i64, suffix: &str) -> (r: String)
    ensures
        r@ == signed_decimal(n as int) + suffix@,
{
    let mut out: Vec<char> = Vec::new();
    push_signed_decimal(&mut out, n);
    assert(out@ =~= signed_decimal(n as int));
    push_str(&mut out, suffix);
    string_of(&out)
}

/// The label of a limit.
pub fn limit_label(item: &Json, detail: &Json, window: &Json, idx: usize) -> (r: String)
    ensures
        r@ == limit_label_spec(item@, detail@, window@, idx as nat),
{
    reveal_with_fuel(named_label, 4);
    match label_at(item, detail, "name") {
        Some(l) => {
            return l;
        },
        None => {},
    }
    match label_at(item, detail, "title") {
        Some(l) => {
            return l;
        },
        None => {},
    }
    match label_at(item, detail, "scope") {
        Some(l) => {
            return l;
        },
        None => {},
    }
    let duration = match get_i64(window, "duration") {
        Some(d) => Some(d),
        None => match get_i64(item, "duration") {
            Some(d) => Some(d),
            None => get_i64(detail, "duration"),
        },
    };
    let unit_text = match window.text_at("timeUnit") {
        Some(u) => Some(u),
        None => match item.text_at("timeUnit") {
            Some(u) => Some(u),
            None => detail.text_at("timeUnit"),
        },
    };
    let unit = match unit_text {
        Some(u) => to_chars(u),
        None => Vec::new(),
    };
    match duration {
        Some(d) => {
            if contains_str(&unit, "MINUTE") {
                if d >= 60 && d % 60 == 0 {
                    suffixed(d / 60, "h limit")
                } else {
                    suffixed(d, "m limit")
                }
            } else if contains_str(&unit, "HOUR") {
                suffixed(d, "h limit")
            } else if contains_str(&unit, "DAY") {
                suffixed(d, "d limit")
            } else {
                suffixed(d, "s limit")
            }
        },
        None => {
            let mut out = to_chars("Limit #");
            push_decimal(&mut out, idx as u128 + 1);
            string_of(&out)
        },
    }
}

/// When a limit resets, as its detail tells, or else the item, or else
/// the window.
pub open spec fn row_reset_spec(
    detail: JsonView,
    item: JsonView,
    window: JsonView,
    now: (i64, u32),
) -> Option<Seq<char>> {
    first_of(reset_hint_spec(detail, now), reset_hint_spec(item, now), reset_hint_spec(window, now))
}

/// One limit of the report. It needs a limit in its detail; what is used
/// counts as nothing where the detail does not tell.
pub fn usage_row_from_maps(label: String, detail: &Json, item: &Json, window: &Json, now: (
    i64,
    u32,
)) -> (r: Option<UsageRow>)
    ensures
        match member_i64(detail@, "limit"@) {
            Some(limit) => r matches Some(row) && row.label == label && row.limit == limit
                && row.used == (match used_spec(detail@) {
                Some(u) => u,
                None => 0,
            }) && opt_text(row.reset) == row_reset_spec(detail@, item@, window@, now),
            None => r is None,
        },
{
    let limit = match get_i64(detail, "limit") {
        Some(l) => l,
        None => {
            return None;
        },
    };
    let used = match used_of(detail) {
        Some(u) => u,
        None => 0,
    };
    let reset = match reset_hint_at(detail, now) {
        Some(h) => Some(h),
        None => match reset_hint_at(item, now) {
            Some(h) => Some(h),
            None => reset_hint_at(window, now),
        },
    };
    Some(UsageRow { label, used, limit, reset })
}

/// The detail of a limit: its `detail` where that is an object, else the
/// limit itself.
pub open spec fn detail_of(item: JsonView) -> JsonView {
    match member(item, "detail"@) {
        Some(JsonView::Object(m)) => JsonView::Object(m),
        _ => item,
    }
}

/// The window of a limit: its `window` where that is an object, else an
/// object without members.
pub open spec fn window_of(item: JsonView) -> JsonView {
    match member(item, "window"@) {
        Some(JsonView::Object(m)) => JsonView::Object(m),
        _ => JsonView::Object(Seq::empty()),
    }
}

/// Whether the `idx`-th item of the report's limits makes a row: it is an
/// object, and its detail has a limit.
pub open spec fn makes_row(item: JsonView) -> bool {
    item is Object && member_i64(detail_of(item), "limit"@) is Some
}

/// Whether a row is the row of the given item, the `idx`-th of the list.
pub open spec fn is_row_of(row: UsageRow, item: JsonView, idx: nat, now: (i64, u32)) -> bool {
    &&& row.label@ == limit_label_spec(item, detail_of(item), window_of(item), idx)
    &&& Some(row.limit) == member_i64(detail_of(item), "limit"@)
    &&& row.used == (match used_spec(detail_of(item)) {
        Some(u) => u,
        None => 0,
    })
    &&& opt_text(row.reset) == row_reset_spec(detail_of(item), item, window_of(item), now)
}

/// The indices below `n` of the items that make a row, in order.
pub open spec fn row_indices(items: Seq<JsonView>, n: int) -> Seq<int>
    decreases n,
{
    if n <= 0 {
        Seq::empty()
    } else if n <= items.len() && makes_row(items[n - 1]) {
        row_indices(items, n - 1).push(n - 1)
    } else {
        row_indices(items, n - 1)
    }
}

/// The limits of the report: one row for each item of `limits` that is an
/// object whose detail has a limit, in order.
pub fn usage_limits(payload: &Json, now: (i64, u32)) -> (r: Vec<UsageRow>)
    ensures
        match member(payload@, "limits"@) {
            Some(JsonView::Array(items)) => {
                let picked = row_indices(items, items.len() as int);
                &&& r@.len() == picked.len()
                &&& forall|k: int| 0 <= k < picked.len() ==> 0 <= #[trigger] picked[k] < items.len()
                &&& forall|k: int|
                    0 <= k < r@.len() ==> is_row_of(
                        #[trigger] r@[k],
                        items[picked[k]],
                        picked[k] as nat,
                        now,
                    )
            },
            _ => r@.len() == 0,
        },
{
    let mut rows: Vec<UsageRow> = Vec::new();
    let list = match payload.get("limits") {
        Some(l) => l,
        None => {
            return rows;
        },
    };
    let items = match list.as_array() {
        Some(i) => i,
        None => {
            return rows;
        },
    };
    let ghost iv = Json::items_view(items@);
    let empty_window = Json::Object(Vec::new());
    assert(empty_window@ == JsonView::Object(Seq::empty())) by {
        assert(Json::members_view(Seq::<(String, Json)>::empty()) =~= Seq::empty());
    }
    let mut idx: usize = 0;
    while idx < items.len()
        invariant
            idx <= items.len(),
            iv == Json::items_view(items@),
            empty_window@ == JsonView::Object(Seq::empty()),
            rows@.len() == row_indices(iv, idx as int).len(),
            forall|k: int|
                0 <= k < rows@.len() ==> 0 <= #[trigger] row_indices(iv, idx as int)[k] < idx,
            forall|k: int|
                0 <= k < rows@.len() ==> is_row_of(
                    #[trigger] rows@[k],
                    iv[row_indices(iv, idx as int)[k]],
                    row_indices(iv, idx as int)[k] as nat,
                    now,
                ),
        decreases items.len() - idx,
    {
        let item = &items[idx];
        assert(iv[idx as int] == item@);
        let ghost before = rows@;
        let ghost picked = row_indices(iv, idx as int);
        let ghost next = row_indices(iv, idx + 1);
        if item.as_object().is_some() {
            let detail = match item.get("detail") {
                Some(d) => if d.as_object().is_some() {
                    d
                } else {
                    item
                },
                None => item,
            };
            let window = match item.get("window") {
                Some(w) => if w.as_object().is_some() {
                    w
                } else {
                    &empty_window
                },
                None => &empty_window,
            };
            assert(detail@ == detail_of(item@));
            assert(window@ == window_of(item@));
            let label = limit_label(item, detail, window, idx);
            match usage_row_from_maps(label, detail, item, window, now) {
                Some(row) => {
                    assert(is_row_of(row, iv[idx as int], idx as nat, now));
                    rows.push(row);
                    assert(makes_row(iv[idx as int]));
                    assert(next == picked.push(idx as int));
                    assert forall|k: int| 0 <= k < rows@.len() implies 0 <= #[trigger] next[k] < idx
                        + 1 by {
                        if k < before.len() {
                            assert(next[k] == picked[k]);
                        } else {
                            assert(next[k] == idx);
                        }
                    }
                    assert forall|k: int| 0 <= k < rows@.len() implies is_row_of(
                        #[trigger] rows@[k],
                        iv[next[k]],
                        next[k] as nat,
                        now,
                    ) by {
                        if k < before.len() {
                            assert(rows@[k] == before[k]);
                            assert(next[k] == picked[k]);
                        } else {
                            assert(next[k] == idx);
                        }
                    }
                },
                None => {
                    assert(!makes_row(iv[idx as int]));
                    assert(next == picked);
                },
            }
        } else {
            assert(!makes_row(iv[idx as int]));
            assert(next == picked);
        }
        idx += 1;
    }
    rows
}

/// Whether a label names the five-hour limit.
pub open spec fn names_five_hours(label: Seq<char>) -> bool {
    contains(lowercase(label), "5h"@) || contains(lowercase(label), "5 h"@)
}

/// The first row whose label names the five-hour limit.
pub fn find_five_hour_limit(rows: &Vec<UsageRow>) -> (r: Option<UsageRow>)
    ensures
        match r {
            Some(row) => exists|k: int|
                0 <= k < rows@.len() && rows@[k] == row && names_five_hours(rows@[k].label@)
                    && forall|j: int| 0 <= j < k ==> !names_five_hours(#[trigger] rows@[j].label@),
            None => forall|j: int| 0 <= j < rows@.len() ==> !names_five_hours(
                #[trigger] rows@[j].label@,
            ),
        },
{
    let mut i: usize = 0;
    while i < rows.len()
        invariant
            i <= rows.len(),
            forall|j: int| 0 <= j < i ==> !names_five_hours(#[trigger] rows@[j].label@),
        decreases rows.len() - i,
    {
        let lower = rows[i].label.as_str().to_lowercase();
        let l = to_chars(lower.as_str());
        if contains_str(&l, "5h") || contains_str(&l, "5 h") {
            return Some(rows[i].clone());
        }
        i += 1;
    }
    None
}

} // verus!
