//! The desktop shell's settings kept in the store: reading the saved
//! theme, placement mode and switches, and saving the window's size as the
//! user changes it.

use vstd::prelude::*;
use crate::shared::state::AppState;
use crate::text::{str_eq, chars_of, push_dec_text, dec_text, string_from_chars};

verus! {

/// Whether every character of `s` is a decimal digit.
pub open spec fn all_digits(s: Seq<char>) -> bool {
    forall|i: int| 0 <= i < s.len() ==> '0' <= #[trigger] s[i] && s[i] <= '9'
}

/// The number the decimal digits `s` stand for.
pub open spec fn digits_value(s: Seq<char>) -> int
    decreases s.len(),
{
    if s.len() == 0 {
        0
    } else {
        digits_value(s.drop_last()) * 10 + (s.last() as int - '0' as int)
    }
}

/// What `str::parse::<i32>` gives for `s`: an optional `+` or `-` and at
/// least one decimal digit, and nothing else, standing for a number in
/// range.
pub open spec fn parsed_i32(s: Seq<char>) -> Option<i32> {
    let neg = s.len() > 0 && s[0] == '-';
    let body = if s.len() > 0 && (s[0] == '-' || s[0] == '+') {
        s.drop_first()
    } else {
        s
    };
    if body.len() == 0 || !all_digits(body) {
        None
    } else {
        let v = if neg {
            -digits_value(body)
        } else {
            digits_value(body)
        };
        if i32::MIN <= v <= i32::MAX {
            Some(v as i32)
        } else {
            None
        }
    }
}

/// A prefix of digits stands for no more than the whole.
proof fn lemma_digits_prefix(s: Seq<char>, j: int)
    requires
        all_digits(s),
        0 <= j <= s.len(),
    ensures
        0 <= digits_value(s.take(j)) <= digits_value(s),
    decreases s.len() - j,
{
    if j < s.len() {
        lemma_digits_prefix(s, j + 1);
        assert(s.take(j + 1).drop_last() =~= s.take(j));
        assert(s.take(j + 1).last() == s[j]);
        assert(all_digits(s.take(j + 1)));
        lemma_digits_nonneg(s.take(j));
    } else {
        assert(s.take(j) =~= s);
        lemma_digits_nonneg(s);
    }
}

/// Digits stand for a number that is not negative.
proof fn lemma_digits_nonneg(s: Seq<char>)
    requires
        forall|i: int| 0 <= i < s.len() ==> '0' <= #[trigger] s[i] && s[i] <= '9',
    ensures
        digits_value(s) >= 0,
    decreases s.len(),
{
    if s.len() > 0 {
        lemma_digits_nonneg(s.drop_last());
        assert(s.last() == s[s.len() - 1]);
    }
}

/// Parses `s` as an `i32` (see [`parsed_i32`]).
pub fn parse_i32(s: &str) -> (r: Option<i32>)
    ensures
        r == parsed_i32(s@),
{
    let cs = chars_of(s);
    let n: usize = cs.len();
    let neg = n > 0 && cs[0] == '-';
    let start: usize = if n > 0 && (cs[0] == '-' || cs[0] == '+') { 1 } else { 0 };
    let ghost body = if s@.len() > 0 && (s@[0] == '-' || s@[0] == '+') {
        s@.drop_first()
    } else {
        s@
    };
    assert(body =~= cs@.skip(start as int));
    if start >= n {
        return None;
    }
    let mut acc: i64 = 0;
    let mut i: usize = start;
    while i < n
        invariant
            cs@ == s@,
            n == cs@.len(),
            start <= i <= n,
            body == cs@.skip(start as int),
            body == (if s@.len() > 0 && (s@[0] == '-' || s@[0] == '+') {
                s@.drop_first()
            } else {
                s@
            }),
            neg == (s@.len() > 0 && s@[0] == '-'),
            all_digits(body.take(i - start)),
            acc == digits_value(body.take(i - start)),
            0 <= acc <= 2147483648,
        decreases n - i,
    {
        let c = cs[i];
        assert(body.take(i + 1 - start).drop_last() =~= body.take(i - start));
        assert(body.take(i + 1 - start).last() == c);
        assert(body[i - start] == c);
        if c < '0' || c > '9' {
            assert(!all_digits(body));
            return None;
        }
        let d: i64 = (c as u32 - '0' as u32) as i64;
        assert(d == c as int - '0' as int);
        acc = acc * 10 + d;
        assert(all_digits(body.take(i + 1 - start)));
        assert(acc == digits_value(body.take(i + 1 - start)));
        if acc > 2147483648 {
            proof {
                if all_digits(body) {
                    lemma_digits_prefix(body, i + 1 - start);
                }
            }
            return None;
        }
        i = i + 1;
    }
    assert(body.take(i - start) =~= body);
    if neg {
        Some((-acc) as i32)
    } else if acc > 2147483647 {
        None
    } else {
        Some(acc as i32)
    }
}

/// What a saved switch reads as: `true` or `1` on, `false` or `0` off,
/// anything else not set.
pub open spec fn flag_of(v: Seq<char>) -> Option<bool> {
    if v == "true"@ || v == "1"@ {
        Some(true)
    } else if v == "false"@ || v == "0"@ {
        Some(false)
    } else {
        None
    }
}

/// Reads a saved switch (see [`flag_of`]).
pub fn parse_flag(v: &str) -> (r: Option<bool>)
    ensures
        r == flag_of(v@),
{
    if str_eq(v, "true") || str_eq(v, "1") {
        Some(true)
    } else if str_eq(v, "false") || str_eq(v, "0") {
        Some(false)
    } else {
        None
    }
}

/// What the saved theme reads as: `dark` is dark, `light` is light,
/// anything else not set.
pub open spec fn dark_mode_of(v: Seq<char>) -> Option<bool> {
    if v == "dark"@ {
        Some(true)
    } else if v == "light"@ {
        Some(false)
    } else {
        None
    }
}

/// Reads the saved theme (see [`dark_mode_of`]).
pub fn parse_theme(v: &str) -> (r: Option<bool>)
    ensures
        r == dark_mode_of(v@),
{
    if str_eq(v, "dark") {
        Some(true)
    } else if str_eq(v, "light") {
        Some(false)
    } else {
        None
    }
}

/// The smallest and largest window sizes that are saved.
pub const MIN_WIDTH: i32 = 200;
pub const MAX_WIDTH: i32 = 600;
pub const MIN_HEIGHT: i32 = 300;
pub const MAX_HEIGHT: i32 = 800;

/// Whether a window size is one that is saved.
pub open spec fn size_in_range(w: i32, h: i32) -> bool {
    MIN_WIDTH <= w <= MAX_WIDTH && MIN_HEIGHT <= h <= MAX_HEIGHT
}

/// The size last saved, or -1 by -1 when the next size seen must be saved.
#[derive(Debug, Clone, Copy)]
pub struct SizeWatch {
    pub last_width: i32,
    pub last_height: i32,
}

impl SizeWatch {
    /// A watch that saves the first size it sees.
    pub fn new() -> (r: Self)
        ensures
            r.last_width == -1 && r.last_height == -1,
    {
        SizeWatch { last_width: -1, last_height: -1 }
    }

    /// One look at the window: while it is hidden nothing is saved and the
    /// next size seen will be; a size out of range (as when minimised) is
    /// passed over; a size in range that differs from the last one is
    /// returned for saving and remembered.
    pub fn observe(&mut self, visible: bool, width: i32, height: i32) -> (r: Option<(i32, i32)>)
        ensures
            !visible ==> r is None && final(self).last_width == -1 && final(self).last_height == -1,
            visible && !size_in_range(width, height) ==> r is None && *final(self) == *old(self),
            visible && size_in_range(width, height) && (width != old(self).last_width || height != old(
                self,
            ).last_height) ==> r == Some((width, height)) && final(self).last_width == width
                && final(self).last_height == height,
            visible && size_in_range(width, height) && width == old(self).last_width && height == old(
                self,
            ).last_height ==> r is None && *final(self) == *old(self),
    {
        if !visible {
            self.last_width = -1;
            self.last_height = -1;
            return None;
        }
        if width < MIN_WIDTH || height < MIN_HEIGHT || width > MAX_WIDTH || height > MAX_HEIGHT {
            return None;
        }
        if width != self.last_width || height != self.last_height {
            self.last_width = width;
            self.last_height = height;
            Some((width, height))
        } else {
            None
        }
    }
}

/// The decimal text of `n`.
fn int_text(n: i32) -> (r: String)
    ensures
        r@ == dec_text(n as int),
{
    let mut out: Vec<char> = Vec::new();
    push_dec_text(n as i64, &mut out);
    string_from_chars(out.as_slice())
}

/// Saves the window's size at time `now` as the settings `window-width`
/// and `window-height`, in decimal.
pub fn save_window_size(state: &mut AppState, width: i32, height: i32, now: i64)
    requires
        old(state).wf(),
    ensures
        final(state).wf(),
        final(state).db@ == old(state).db@.set_config("window-width"@, dec_text(width as int), now).set_config(
            "window-height"@,
            dec_text(height as int),
            now,
        ),
        final(state).max_history_size == old(state).max_history_size,
        final(state).is_window_visible == old(state).is_window_visible,
        final(state).device_id == old(state).device_id,
{
    let w = int_text(width);
    let h = int_text(height);
    let _ = state.set_config("window-width", w.as_str(), now);
    let _ = state.set_config("window-height", h.as_str(), now);
}

/// The default window width and height.
pub const DEFAULT_WIDTH: i32 = 280;
pub const DEFAULT_HEIGHT: i32 = 396;

/// Saves the default window size (280 by 396) at time `now`.
pub fn reset_window_size(state: &mut AppState, now: i64)
    requires
        old(state).wf(),
    ensures
        final(state).wf(),
        final(state).db@ == old(state).db@.set_config("window-width"@, "280"@, now).set_config(
            "window-height"@,
            "396"@,
            now,
        ),
        final(state).max_history_size == old(state).max_history_size,
        final(state).is_window_visible == old(state).is_window_visible,
        final(state).device_id == old(state).device_id,
{
    let _ = state.set_config("window-width", "280", now);
    let _ = state.set_config("window-height", "396", now);
}

/// Saves whether the window is pinned at time `now` as the setting
/// `pinned` (`true` or `false`).
pub fn save_pinned(state: &mut AppState, pinned: bool, now: i64)
    requires
        old(state).wf(),
    ensures
        final(state).wf(),
        final(state).db@ == old(state).db@.set_config(
            "pinned"@,
            if pinned {
                "true"@
            } else {
                "false"@
            },
            now,
        ),
        final(state).max_history_size == old(state).max_history_size,
        final(state).is_window_visible == old(state).is_window_visible,
        final(state).device_id == old(state).device_id,
{
    let value = if pinned { "true" } else { "false" };
    let _ = state.set_config("pinned", value, now);
}

} // verus!
