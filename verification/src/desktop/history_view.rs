//! The history list as the desktop window shows it: texts cut down for
//! display, the rows of the list, and relative times ("5分钟前") with a
//! cache keyed by the minute.

use vstd::prelude::*;
use chrono::TimeZone;
use crate::shared::models::{ClipboardItem, ClipboardItemView, ContentType};
use crate::shared::database::{
    trunc_div, time_keys, visible_mask, records_at, search_mask, search_pattern, visible_count, MAX_PATTERN_BYTES,
};
use crate::shared::ordering::is_ordered_selection;
use crate::shared::state::AppState;
use crate::text::{
    chars_of, string_from_chars, push_str_chars, push_dec_digits, dec_digits, char_utf8_len, char_len_utf8,
    utf8_len, utf8_len_of,
};

verus! {

/// How many leading characters of `s` fit in `max` bytes of UTF-8.
pub open spec fn fit_len(s: Seq<char>, max: int) -> nat
    decreases s.len(),
{
    if s.len() == 0 {
        0
    } else if char_utf8_len(s[0]) > max {
        0
    } else {
        1 + fit_len(s.drop_first(), max - char_utf8_len(s[0]))
    }
}

/// The position of the last line feed in `s`, if any.
pub open spec fn last_newline(s: Seq<char>) -> Option<int>
    decreases s.len(),
{
    if s.len() == 0 {
        None
    } else if s.last() == '\n' {
        Some(s.len() - 1)
    } else {
        last_newline(s.drop_last())
    }
}

/// `s` as shown when at most `max_bytes` of UTF-8 fit: `s` itself when it
/// fits; else the longest prefix that fits, cut back to its last line feed
/// and followed by a line feed and `...`, or, without a line feed,
/// followed by `...`.
pub open spec fn display_text(s: Seq<char>, max_bytes: nat) -> Seq<char> {
    if utf8_len(s) <= max_bytes {
        s
    } else {
        let p = s.take(fit_len(s, max_bytes as int) as int);
        match last_newline(p) {
            Some(k) => p.take(k) + "\n..."@,
            None => p + "..."@,
        }
    }
}

/// `text` as shown in at most `max_bytes` of UTF-8 (see
/// [`display_text`]).
pub fn truncate_for_display(text: &str, max_bytes: usize) -> (r: String)
    ensures
        r@ == display_text(text@, max_bytes as nat),
{
    let cs = chars_of(text);
    match utf8_len_of(cs.as_slice()) {
        Some(total) => {
            if total <= max_bytes {
                return text.to_owned();
            }
        },
        None => {},
    }
    let n: usize = cs.len();
    let mut i: usize = 0;
    let mut acc: usize = 0;
    assert(cs@.skip(0) =~= cs@);
    loop
        invariant
            n == cs@.len(),
            cs@ == text@,
            i <= n,
            acc <= max_bytes,
            fit_len(cs@, max_bytes as int) == i + fit_len(cs@.skip(i as int), max_bytes - acc),
        ensures
            i <= n,
            n == cs@.len(),
            cs@ == text@,
            fit_len(cs@, max_bytes as int) == i,
        decreases n - i,
    {
        if i >= n {
            assert(cs@.skip(i as int) =~= Seq::<char>::empty());
            break;
        }
        let w = char_len_utf8(cs[i]);
        assert(cs@.skip(i as int)[0] == cs@[i as int]);
        assert(cs@.skip(i as int).drop_first() =~= cs@.skip(i + 1));
        if w > max_bytes - acc {
            assert(fit_len(cs@.skip(i as int), max_bytes - acc) == 0);
            break;
        }
        acc = acc + w;
        i = i + 1;
    }
    assert(fit_len(cs@, max_bytes as int) == i);
    let ghost p = cs@.take(i as int);
    let mut k: usize = i;
    assert(p.take(k as int) =~= p);
    while k > 0 && cs[k - 1] != '\n'
        invariant
            k <= i <= n,
            n == cs@.len(),
            p == cs@.take(i as int),
            last_newline(p) == last_newline(p.take(k as int)),
        decreases k,
    {
        assert(p.take(k as int).drop_last() =~= p.take(k - 1));
        k = k - 1;
    }
    let mut out: Vec<char> = Vec::new();
    if k > 0 {
        assert(p.take(k as int).last() == '\n');
        assert(last_newline(p) == Some((k - 1) as int));
        let mut j: usize = 0;
        while j < k - 1
            invariant
                j <= k - 1,
                k <= i <= n,
                n == cs@.len(),
                out@ == cs@.take(j as int),
            decreases k - 1 - j,
        {
            out.push(cs[j]);
            assert(cs@.take(j + 1) =~= cs@.take(j as int).push(cs@[j as int]));
            j = j + 1;
        }
        push_str_chars(&mut out, "\n...");
        assert(out@ =~= p.take(k - 1) + "\n..."@);
    } else {
        assert(p.take(0) =~= Seq::<char>::empty());
        assert(last_newline(p).is_none());
        let mut j: usize = 0;
        while j < i
            invariant
                j <= i <= n,
                n == cs@.len(),
                out@ == cs@.take(j as int),
            decreases i - j,
        {
            out.push(cs[j]);
            assert(cs@.take(j + 1) =~= cs@.take(j as int).push(cs@[j as int]));
            j = j + 1;
        }
        push_str_chars(&mut out, "...");
    }
    string_from_chars(out.as_slice())
}

/// A record of the shown list as the shell keeps it, to find the record
/// behind a row: its identifier, kind, full text (empty for images), and
/// its identifier again for images (0 for texts).
#[derive(Debug, Clone)]
pub struct ClipboardEntry {
    pub id: i64,
    pub content_type: ContentType,
    pub text: String,
    pub image_id: i64,
}

/// A row of the shown list: identifier, whether it is an image, the text
/// shown (cut down; empty for images), whether its picture counts as
/// loaded, the image's identifier (0 for texts), and its size figures
/// (0 when unknown); numbers as the list takes them, in 32 bits.
#[derive(Debug, Clone)]
pub struct EntryRow {
    pub id: i32,
    pub is_image: bool,
    pub text: String,
    pub image_loaded: bool,
    pub image_id: i32,
    pub width: i32,
    pub height: i32,
    pub file_size: i32,
}

/// The most UTF-8 bytes of a text shown in a row.
pub const DISPLAY_BYTES: usize = 2000;

/// The text of an optional text, empty when absent.
pub open spec fn text_or_empty(t: Option<Seq<char>>) -> Seq<char> {
    match t {
        Some(s) => s,
        None => Seq::empty(),
    }
}

/// Whether `e` is the kept entry for record `it`.
pub open spec fn entry_of(e: ClipboardEntry, it: ClipboardItemView) -> bool {
    &&& e.id == it.id
    &&& e.content_type == it.content_type
    &&& e.text@ == text_or_empty(it.content_text)
    &&& e.image_id == if it.content_type == ContentType::Image {
        it.id
    } else {
        0
    }
}

/// Whether `r` is the row for record `it`, texts counting as loaded when
/// `texts_loaded`.
pub open spec fn row_of(r: EntryRow, it: ClipboardItemView, texts_loaded: bool) -> bool {
    let is_image = it.content_type == ContentType::Image;
    &&& r.id == it.id as i32
    &&& r.is_image == is_image
    &&& r.text@ == if is_image {
        Seq::empty()
    } else {
        match it.content_text {
            Some(t) => display_text(t, DISPLAY_BYTES as nat),
            None => Seq::empty(),
        }
    }
    &&& r.image_loaded == (!is_image && texts_loaded)
    &&& r.image_id == if is_image {
        it.id as i32
    } else {
        0i32
    }
    &&& r.width == match it.width {
        Some(w) => w,
        None => 0i32,
    }
    &&& r.height == match it.height {
        Some(h) => h,
        None => 0i32,
    }
    &&& r.file_size == match it.file_size {
        Some(f) => f as i32,
        None => 0i32,
    }
}

/// The kept entries and the rows for `history`, in order.
pub fn history_rows(history: &Vec<ClipboardItem>, texts_loaded: bool) -> (r: (Vec<ClipboardEntry>, Vec<EntryRow>))
    ensures
        r.0@.len() == history@.len(),
        r.1@.len() == history@.len(),
        forall|i: int| 0 <= i < history@.len() ==> entry_of(#[trigger] r.0@[i], history@[i]@),
        forall|i: int| 0 <= i < history@.len() ==> row_of(#[trigger] r.1@[i], history@[i]@, texts_loaded),
{
    let mut entries: Vec<ClipboardEntry> = Vec::new();
    let mut rows: Vec<EntryRow> = Vec::new();
    let mut i: usize = 0;
    while i < history.len()
        invariant
            i <= history@.len(),
            entries@.len() == i,
            rows@.len() == i,
            forall|k: int| 0 <= k < i ==> entry_of(#[trigger] entries@[k], history@[k]@),
            forall|k: int| 0 <= k < i ==> row_of(#[trigger] rows@[k], history@[k]@, texts_loaded),
        decreases history.len() - i,
    {
        let item = &history[i];
        let is_image = item.content_type == ContentType::Image;
        let full: String = match &item.content_text {
            Some(t) => t.clone(),
            None => String::new(),
        };
        let shown: String = if is_image {
            String::new()
        } else {
            match &item.content_text {
                Some(t) => truncate_for_display(t.as_str(), DISPLAY_BYTES),
                None => String::new(),
            }
        };
        entries.push(ClipboardEntry {
            id: item.id,
            content_type: item.content_type,
            text: full,
            image_id: if is_image { item.id } else { 0 },
        });
        rows.push(EntryRow {
            id: item.id as i32,
            is_image,
            text: shown,
            image_loaded: !is_image && texts_loaded,
            image_id: if is_image { item.id as i32 } else { 0 },
            width: match item.width {
                Some(w) => w,
                None => 0,
            },
            height: match item.height {
                Some(h) => h,
                None => 0,
            },
            file_size: match item.file_size {
                Some(f) => f as i32,
                None => 0,
            },
        });
        i = i + 1;
    }
    (entries, rows)
}

/// The relative time shown for a record stamped `created_ms` at `now_ms`
/// (both in milliseconds), by whole minutes, hours and days passed
/// (rounded toward zero): `刚刚` under a minute (or in the future),
/// `<n>分钟前` under an hour, `<n>小时前` under a day, `<n>天前` under 30
/// days; none from 30 days on, when the date is shown instead.
pub open spec fn relative_label(created_ms: i64, now_ms: i64) -> Option<Seq<char>> {
    let diff = now_ms - created_ms;
    let minutes = trunc_div(diff, 60_000);
    let hours = trunc_div(diff, 3_600_000);
    let days = trunc_div(diff, 86_400_000);
    if minutes < 1 {
        Some("刚刚"@)
    } else if minutes < 60 {
        Some(dec_digits(minutes as nat) + "分钟前"@)
    } else if hours < 24 {
        Some(dec_digits(hours as nat) + "小时前"@)
    } else if days < 30 {
        Some(dec_digits(days as nat) + "天前"@)
    } else {
        None
    }
}

/// How old a record is decides the unit of its label: under a minute (or
/// in the future) `刚刚`; from one minute the whole minutes, from one hour
/// the whole hours (1 to 23), from one day the whole days (1 to 29), each
/// rounded down; from 30 days no relative label.
pub proof fn law_relative_label_units(created_ms: i64, now_ms: i64)
    ensures
        ({
            let age = now_ms - created_ms;
            &&& age < 60_000 ==> relative_label(created_ms, now_ms) == Some("刚刚"@)
            &&& 60_000 <= age < 3_600_000 ==> relative_label(created_ms, now_ms) == Some(
                dec_digits((age / 60_000) as nat) + "分钟前"@,
            ) && 1 <= age / 60_000 <= 59
            &&& 3_600_000 <= age < 86_400_000 ==> relative_label(created_ms, now_ms) == Some(
                dec_digits((age / 3_600_000) as nat) + "小时前"@,
            ) && 1 <= age / 3_600_000 <= 23
            &&& 86_400_000 <= age < 2_592_000_000 ==> relative_label(created_ms, now_ms) == Some(
                dec_digits((age / 86_400_000) as nat) + "天前"@,
            ) && 1 <= age / 86_400_000 <= 29
            &&& age >= 2_592_000_000 ==> relative_label(created_ms, now_ms) is None
        }),
{
    let age: int = now_ms - created_ms;
    if age >= 0 {
        assert(age < 60_000 ==> age / 60_000 < 1) by (nonlinear_arith)
            requires age >= 0;
        assert(60_000 <= age < 3_600_000 ==> 1 <= age / 60_000 <= 59) by (nonlinear_arith)
            requires age >= 0;
        assert(age >= 3_600_000 ==> age / 60_000 >= 60) by (nonlinear_arith)
            requires age >= 0;
        assert(3_600_000 <= age < 86_400_000 ==> 1 <= age / 3_600_000 <= 23) by (nonlinear_arith)
            requires age >= 0;
        assert(age >= 86_400_000 ==> age / 3_600_000 >= 24) by (nonlinear_arith)
            requires age >= 0;
        assert(86_400_000 <= age < 2_592_000_000 ==> 1 <= age / 86_400_000 <= 29) by (nonlinear_arith)
            requires age >= 0;
        assert(age >= 2_592_000_000 ==> age / 86_400_000 >= 30) by (nonlinear_arith)
            requires age >= 0;
    } else {
        assert(-((-age) / 60_000) < 1) by (nonlinear_arith)
            requires age < 0;
    }
}

/// `a / b` rounded toward zero, for `b > 0`.
fn trunc_div_i128(a: i128, b: i128) -> (r: i128)
    requires
        b > 0,
        -0x1_0000_0000_0000_0000_0000 <= a <= 0x1_0000_0000_0000_0000_0000,
    ensures
        r == trunc_div(a as int, b as int),
{
    if a >= 0 {
        a / b
    } else {
        -((-a) / b)
    }
}

/// The relative time shown for a record (see [`relative_label`]).
pub fn relative_time_label(created_ms: i64, now_ms: i64) -> (r: Option<String>)
    ensures
        match (r, relative_label(created_ms, now_ms)) {
            (Some(a), Some(b)) => a@ == b,
            (None, None) => true,
            _ => false,
        },
{
    let diff: i128 = now_ms as i128 - created_ms as i128;
    let minutes = trunc_div_i128(diff, 60_000);
    let hours = trunc_div_i128(diff, 3_600_000);
    let days = trunc_div_i128(diff, 86_400_000);
    let mut out: Vec<char> = Vec::new();
    if minutes < 1 {
        return Some("刚刚".to_owned());
    } else if minutes < 60 {
        push_dec_digits(minutes as u64, &mut out);
        push_str_chars(&mut out, "分钟前");
    } else if hours < 24 {
        push_dec_digits(hours as u64, &mut out);
        push_str_chars(&mut out, "小时前");
    } else if days < 30 {
        push_dec_digits(days as u64, &mut out);
        push_str_chars(&mut out, "天前");
    } else {
        return None;
    }
    Some(string_from_chars(out.as_slice()))
}

/// Whether chrono takes `ms` milliseconds since the epoch as a date and
/// time (`DateTime::from_timestamp_millis` accepts it): from chrono's first
/// instant, the start of 1 January of year -262143 (`MIN_UTC`), to its last,
/// the end of 31 December 262142 (`MAX_UTC`).
pub open spec fn chrono_millis_in_range(ms: i64) -> bool {
    -8_334_601_228_800_000 <= ms <= 8_210_266_876_799_999
}

/// The machine's offset from UTC at `ms` milliseconds since the epoch, in
/// seconds east, or `None` when the time is out of range.
///
/// Calls `chrono::Local::timestamp_millis_opt` and reads the offset of the
/// local date and time (`FixedOffset::local_minus_utc`). Whether there is
/// one depends, as chrono's source shows, on `ms` alone (through
/// `DateTime::from_timestamp_millis`; see [`chrono_millis_in_range`]). The
/// offset itself depends on the machine's time zone, so nothing is named
/// for it; the contract claims only the range that `FixedOffset` keeps, less
/// than a day either way.
#[verifier::external_body]
fn local_offset_secs(ms: i64) -> (r: Option<i32>)
    ensures
        (r is Some) == chrono_millis_in_range(ms),
        r matches Some(o) ==> -86_400 < o < 86_400,
{
    chrono::Local.timestamp_millis_opt(ms).single().map(|dt| dt.offset().local_minus_utc())
}

/// The month and day, as chrono writes them with `%m-%d`, of the date and
/// time `ms` milliseconds after the epoch read on a clock at UTC, or `None`
/// when chrono has no such date.
pub uninterp spec fn chrono_month_day(ms: i64) -> Option<Seq<char>>;

/// Whether `c` is one of the digits `0` to `9`.
pub open spec fn is_digit(c: char) -> bool {
    '0' <= c <= '9'
}

/// The value of the two digits `a` and `b`.
pub open spec fn two_digit_value(a: char, b: char) -> int {
    10 * (a as int - '0' as int) + (b as int - '0' as int)
}

/// Whether `s` is a month and day as `MM-DD`: two digits for a month from
/// 01 to 12, a `-`, two digits for a day from 01 to 31.
pub open spec fn is_month_day(s: Seq<char>) -> bool {
    &&& s.len() == 5
    &&& is_digit(s[0]) && is_digit(s[1]) && s[2] == '-' && is_digit(s[3]) && is_digit(s[4])
    &&& 1 <= two_digit_value(s[0], s[1]) <= 12
    &&& 1 <= two_digit_value(s[3], s[4]) <= 31
}

/// The month and day of the date at `ms` milliseconds after the epoch, read
/// at UTC, as `MM-DD`.
///
/// Calls `chrono::DateTime::from_timestamp_millis` and formats the date and
/// time with `%m-%d`. The result depends on `ms` alone and is named
/// [`chrono_month_day`]; there is one exactly when `ms` is in chrono's range,
/// and it has the shape that chrono documents for `%m` (the month, 01 to 12)
/// and `%d` (the day of the month, 01 to 31).
#[verifier::external_body]
fn month_day_at(ms: i64) -> (r: Option<String>)
    ensures
        chrono_month_day(ms) == (match r {
            Some(s) => Some(s@),
            None => None,
        }),
        (r is Some) == chrono_millis_in_range(ms),
        r matches Some(s) ==> is_month_day(s@),
{
    chrono::DateTime::from_timestamp_millis(ms).map(|dt| dt.naive_utc().format("%m-%d").to_string())
}

/// The date shown for a record stamped `created_ms` on a clock `offset_secs`
/// seconds east of UTC: the month and day at `created_ms` moved by the
/// offset, or empty where that lies past chrono's range.
pub open spec fn local_date_shown(created_ms: i64, offset_secs: int) -> Seq<char> {
    let local = created_ms + offset_secs * 1000;
    if i64::MIN <= local <= i64::MAX && chrono_millis_in_range(local as i64) {
        match chrono_month_day(local as i64) {
            Some(d) => d,
            None => Seq::empty(),
        }
    } else {
        Seq::empty()
    }
}

/// Whether `shown` is the time shown for a record stamped `created_ms` at
/// `now_ms` on a clock `offset_secs` seconds east of UTC: empty for a
/// stamp out of the calendar's range (see [`chrono_millis_in_range`]);
/// otherwise the relative time while there is one, or else the local date
/// (see [`local_date_shown`]).
pub open spec fn shown_time_at(created_ms: i64, now_ms: i64, offset_secs: int, shown: Seq<char>) -> bool {
    if !chrono_millis_in_range(created_ms) {
        shown.len() == 0
    } else {
        match relative_label(created_ms, now_ms) {
            Some(l) => shown == l,
            None => shown == local_date_shown(created_ms, offset_secs),
        }
    }
}

/// Whether `shown` is the time shown for a record stamped `created_ms` at
/// `now_ms` on some clock less than a day off UTC (see [`shown_time_at`]).
pub open spec fn shown_time(created_ms: i64, now_ms: i64, shown: Seq<char>) -> bool {
    exists|off: int| -86_400 < off < 86_400 && shown_time_at(created_ms, now_ms, off, shown)
}

/// The time shown for a record stamped `created_ms` at `now_ms` on a clock
/// `offset_secs` seconds east of UTC (see [`shown_time_at`]). Only within
/// a day of chrono's first and last instants can the local date fall
/// outside chrono's range; it is empty there.
pub fn format_timestamp_at(created_ms: i64, now_ms: i64, offset_secs: i32) -> (r: String)
    requires
        -86_400 < offset_secs < 86_400,
        chrono_millis_in_range(created_ms),
    ensures
        shown_time_at(created_ms, now_ms, offset_secs as int, r@),
{
    match relative_time_label(created_ms, now_ms) {
        Some(l) => l,
        None => {
            let local: i64 = created_ms + offset_secs as i64 * 1000;
            match month_day_at(local) {
                Some(d) => d,
                None => String::new(),
            }
        },
    }
}

/// The time shown for a record stamped `created_ms` at `now_ms`: empty
/// when the stamp is out of the calendar's range; otherwise the relative
/// time (see [`relative_label`]), or from 30 days on the local `MM-DD`
/// under the machine's offset from UTC at that time.
pub fn format_timestamp_inner(created_ms: i64, now_ms: i64) -> (r: String)
    ensures
        shown_time(created_ms, now_ms, r@),
{
    match local_offset_secs(created_ms) {
        None => {
            let r = String::new();
            assert(shown_time_at(created_ms, now_ms, 0, r@));
            r
        },
        Some(off) => {
            let r = format_timestamp_at(created_ms, now_ms, off);
            assert(shown_time_at(created_ms, now_ms, off as int, r@));
            r
        },
    }
}

/// `a / b` rounded down, for `b > 0`.
pub open spec fn floor_div(a: int, b: int) -> int {
    a / b
}

/// The minute that the cache keys on: the whole seconds since the epoch
/// (rounded down) divided by 60, rounded toward zero.
pub open spec fn minute_bucket(now_ms: i64) -> int {
    trunc_div(floor_div(now_ms as int, 1000), 60)
}

/// Shown times already worked out, keyed by record, stamp and minute.
pub struct TimestampCache {
    pub entries: Vec<(i64, i64, i64, String)>,
}

/// Whether entry `e` is kept under record `id`, stamp `created` and minute
/// `bucket`.
pub open spec fn keyed(e: (i64, i64, i64, String), id: i64, created: i64, bucket: int) -> bool {
    e.0 == id && e.1 == created && e.2 as int == bucket
}

/// Whether `entries` holds a value under record `id`, stamp `created` and
/// minute `bucket`.
pub open spec fn cache_has(entries: Seq<(i64, i64, i64, String)>, id: i64, created: i64, bucket: int) -> bool {
    exists|i: int| 0 <= i < entries.len() && keyed(entries[i], id, created, bucket)
}

impl TimestampCache {
    /// The cache's invariant: no key twice.
    pub open spec fn wf(&self) -> bool {
        forall|i: int, j: int|
            0 <= i < j < self.entries@.len() ==> (self.entries@[i].0, self.entries@[i].1, self.entries@[i].2) != (
            self.entries@[j].0,
            self.entries@[j].1,
            self.entries@[j].2,
        )
    }

    /// The value kept under record `id`, stamp `created` and minute
    /// `bucket`, if any.
    pub open spec fn lookup(&self, id: i64, created: i64, bucket: int) -> Option<Seq<char>> {
        if cache_has(self.entries@, id, created, bucket) {
            let i = choose|i: int| 0 <= i < self.entries@.len() && keyed(self.entries@[i], id, created, bucket);
            Some(self.entries@[i].3@)
        } else {
            None
        }
    }

    /// An empty cache.
    pub fn new() -> (r: Self)
        ensures
            r.wf(),
            r.entries@.len() == 0,
    {
        TimestampCache { entries: Vec::new() }
    }

    /// The time shown for record `id` stamped `created_ms`, at `now_ms`:
    /// the value kept for this record, stamp and minute (see
    /// [`minute_bucket`]) if there is one; otherwise it is worked out (see
    /// [`format_timestamp_inner`]) and kept.
    pub fn format_timestamp_cached(&mut self, id: i64, created_ms: i64, now_ms: i64) -> (r: String)
        requires
            old(self).wf(),
        ensures
            final(self).wf(),
            ({
                let b = minute_bucket(now_ms);
                match old(self).lookup(id, created_ms, b) {
                    Some(v) => r@ == v && final(self).entries@ == old(self).entries@,
                    None => shown_time(created_ms, now_ms, r@) && final(self).lookup(id, created_ms, b) == Some(r@)
                        && final(self).entries@.len() == old(
                        self,
                    ).entries@.len() + 1 && final(self).entries@.take(old(self).entries@.len() as int) == old(
                        self,
                    ).entries@,
                }
            }),
    {
        let secs: i64 = if now_ms >= 0 {
            now_ms / 1000
        } else {
            -((-(now_ms as i128) + 999) / 1000) as i64
        };
        assert(secs == floor_div(now_ms as int, 1000)) by (nonlinear_arith)
            requires
                now_ms >= 0 ==> secs == now_ms / 1000,
                now_ms < 0 ==> secs == -((-(now_ms as int) + 999) / 1000),
        ;
        let bucket: i64 = secs / 60;
        assert(bucket as int == minute_bucket(now_ms));
        let ghost b = minute_bucket(now_ms);
        let mut i: usize = 0;
        while i < self.entries.len()
            invariant
                i <= self.entries@.len(),
                self.entries@ == old(self).entries@,
                old(self).wf(),
                bucket as int == b,
                b == minute_bucket(now_ms),
                forall|k: int| 0 <= k < i ==> !keyed(self.entries@[k], id, created_ms, b),
            decreases self.entries.len() - i,
        {
            if self.entries[i].0 == id && self.entries[i].1 == created_ms && self.entries[i].2 == bucket {
                assert(keyed(old(self).entries@[i as int], id, created_ms, b));
                assert(cache_has(old(self).entries@, id, created_ms, b));
                let ghost j = choose|j: int|
                    0 <= j < old(self).entries@.len() && keyed(old(self).entries@[j], id, created_ms, b);
                assert(j == i as int);
                assert(old(self).lookup(id, created_ms, b) == Some(old(self).entries@[i as int].3@));
                let r = self.entries[i].3.clone();
                assert(r@ == old(self).entries@[i as int].3@);
                return r;
            }
            i = i + 1;
        }
        assert(!cache_has(old(self).entries@, id, created_ms, b));
        let v = format_timestamp_inner(created_ms, now_ms);
        let ghost before = self.entries@;
        self.entries.push((id, created_ms, bucket, v.clone()));
        assert(self.entries@.take(before.len() as int) =~= before);
        assert(keyed(self.entries@[before.len() as int], id, created_ms, b));
        assert(cache_has(self.entries@, id, created_ms, b));
        let ghost j = choose|j: int| 0 <= j < self.entries@.len() && keyed(self.entries@[j], id, created_ms, b);
        assert(j == before.len());
        v
    }
}

/// The records the list shows for search text `query`: the shown history
/// when the query is empty, the matching records otherwise (empty when the
/// store refuses the query); and whether there are any.
pub fn history_for_query(state: &AppState, query: &str, ascending: bool) -> (r: (Vec<ClipboardItem>, bool))
    requires
        state.wf(),
    ensures
        r.1 == (r.0@.len() > 0),
        query@.len() == 0 ==> exists|sel: Seq<usize>|
            is_ordered_selection(
                time_keys(state.db@.items),
                visible_mask(state.db@.items),
                state.max_history_size as int,
                ascending,
                sel,
            ) && r.0@.map_values(|c: ClipboardItem| c@) == records_at(state.db@.items, sel),
        query@.len() > 0 && utf8_len(search_pattern(query@)) > MAX_PATTERN_BYTES && visible_count(state.db@.items) > 0
            ==> r.0@.len() == 0,
        query@.len() > 0 && !(utf8_len(search_pattern(query@)) > MAX_PATTERN_BYTES && visible_count(state.db@.items)
            > 0) ==> exists|sel: Seq<usize>|
            is_ordered_selection(
                time_keys(state.db@.items),
                search_mask(state.db@.items, search_pattern(query@)),
                state.max_history_size as int,
                ascending,
                sel,
            ) && r.0@.map_values(|c: ClipboardItem| c@) == records_at(state.db@.items, sel),
{
    let history = if query.is_empty() {
        state.get_history(ascending)
    } else {
        state.search_history(query, ascending)
    };
    let any = history.len() > 0;
    (history, any)
}

} // verus!
