//! What the desktop window's list actions do: favorite folders (listing,
//! reordering, creating, deleting, filing texts), selecting several rows,
//! and guarding against copying one row twice at once.

use vstd::prelude::*;
use crate::shared::state::AppState;
use crate::shared::models::{ClipboardItem, ClipboardItemView, ContentType, FavoriteFolder, FavoriteFolderView, opt_str};
use crate::shared::database::{DbView, StoreError, ItemRowView, move_item, filing_count, visible_item};
use crate::desktop::history_view::ClipboardEntry;
use crate::text::{str_trim, trim_white};

verus! {

/// A row of the favorite folder list: identifier, name, and how many
/// records are filed in it; numbers as the list takes them, in 32 bits.
#[derive(Debug, Clone)]
pub struct FavoriteRow {
    pub id: i32,
    pub name: String,
    pub count: i32,
}

/// Whether `r` is the row of folder `f` holding `count` records.
pub open spec fn folder_row(r: FavoriteRow, f: FavoriteFolderView, count: nat) -> bool {
    r.id == f.id as i32 && r.name@ == f.name && r.count == count as usize as i32
}

/// The rows of the favorite folder list, in the folders' order.
pub fn favorite_rows(state: &AppState) -> (r: Vec<FavoriteRow>)
    ensures
        r@.len() == state.db@.folders.len(),
        forall|i: int|
            0 <= i < r@.len() ==> folder_row(
                #[trigger] r@[i],
                state.db@.folders[i],
                filing_count(state.db@.folder_items, state.db@.folders[i].id),
            ),
{
    let with_counts = state.get_favorite_folders_with_count();
    let mut out: Vec<FavoriteRow> = Vec::new();
    let mut i: usize = 0;
    while i < with_counts.len()
        invariant
            i <= with_counts@.len(),
            with_counts@.len() == state.db@.folders.len(),
            forall|k: int| 0 <= k < with_counts@.len() ==> (#[trigger] with_counts@[k]).0@ == state.db@.folders[k]
                && with_counts@[k].1 == filing_count(state.db@.folder_items, state.db@.folders[k].id) as usize,
            out@.len() == i,
            forall|k: int|
                0 <= k < i ==> folder_row(
                    #[trigger] out@[k],
                    state.db@.folders[k],
                    filing_count(state.db@.folder_items, state.db@.folders[k].id),
                ),
        decreases with_counts.len() - i,
    {
        let f = &with_counts[i].0;
        let c = with_counts[i].1;
        out.push(FavoriteRow { id: f.id as i32, name: f.name.clone(), count: c as i32 });
        i = i + 1;
    }
    out
}

/// Moves row `old_index` of the folder list to `new_index` (counted before
/// the move), as dragging in the list does; out-of-range positions leave the
/// rows as they are.
pub fn reorder_favorite_rows(rows: Vec<FavoriteRow>, old_index: usize, new_index: usize) -> (r: Vec<FavoriteRow>)
    ensures
        old_index < rows@.len() && new_index <= rows@.len() ==> r@ == move_item(
            rows@,
            old_index as int,
            new_index as int,
        ),
        !(old_index < rows@.len() && new_index <= rows@.len()) ==> r@ == rows@,
{
    let mut items = rows;
    let count = items.len();
    if old_index < count && new_index <= count {
        let ghost before = items@;
        let moved = items.remove(old_index);
        let at = if new_index > old_index { new_index - 1 } else { new_index };
        items.insert(at, moved);
        assert(items@ =~= move_item(before, old_index as int, new_index as int));
    }
    items
}

/// Adds `added` to the count shown in row `index`, when there is one.
pub fn bump_favorite_count(rows: &mut Vec<FavoriteRow>, index: usize, added: i32)
    requires
        index < old(rows)@.len() ==> i32::MIN <= old(rows)@[index as int].count + added <= i32::MAX,
    ensures
        final(rows)@.len() == old(rows)@.len(),
        forall|i: int|
            0 <= i < old(rows)@.len() && i != index ==> (#[trigger] final(rows)@[i]) == old(rows)@[i],
        index < old(rows)@.len() ==> final(rows)@[index as int].count == old(rows)@[index as int].count + added
            && final(rows)@[index as int].id == old(rows)@[index as int].id && final(rows)@[index as int].name
            == old(rows)@[index as int].name,
{
    if index < rows.len() {
        let c = rows[index].count;
        rows[index].count = c + added;
    }
}

/// What filing `text` in folder `folder_index` does to the store at time
/// `now`: the text is added to the history (or restamped), then the
/// record it got (or -1 when that failed) is filed in the folder; answers
/// whether a new filing was made.
pub open spec fn file_text(v: DbView, folder_index: int, text: Seq<char>, now: i64) -> (bool, DbView) {
    let (r1, v1) = v.insert_text(text, now);
    let id = match r1 {
        Ok(id) => id,
        Err(_) => -1i64,
    };
    let (r2, v2) = v1.add_to_folder(folder_index, id, now);
    (r2 == Ok::<bool, StoreError>(true), v2)
}

/// Whether folder `folder_index` of `v` can take one more filing.
pub open spec fn can_file(v: DbView, folder_index: int) -> bool {
    folder_index < v.folders.len() ==> !v.filing_order_exhausted(v.folders[folder_index].id)
}

/// Files `text` in folder `folder_index` at time `now` (see
/// [`file_text`]) and returns whether a new filing was made.
pub fn add_text_to_favorite(state: &mut AppState, folder_index: usize, text: &str, now: i64) -> (r: bool)
    requires
        old(state).wf(),
        can_file(old(state).db@, folder_index as int),
    ensures
        final(state).wf(),
        (r, final(state).db@) == file_text(old(state).db@, folder_index as int, text@, now),
        final(state).max_history_size == old(state).max_history_size,
        final(state).is_window_visible == old(state).is_window_visible,
        final(state).device_id == old(state).device_id,
{
    proof {
        let v1 = old(state).db@.insert_text(text@, now).1;
        assert(v1.folders == old(state).db@.folders && v1.folder_items == old(state).db@.folder_items);
    }
    let item_id = state.add_item(text, now);
    state.add_item_to_favorite_folder(folder_index, item_id, now)
}

/// What filing the non-empty texts of `texts` in folder `folder_index`
/// does to the store at time `now`, one after another as [`file_text`]
/// does, except that a folder whose filing numbers are used up takes no
/// more; and how many new filings were made.
pub open spec fn file_texts(v: DbView, folder_index: int, texts: Seq<Seq<char>>, now: i64) -> (nat, DbView)
    decreases texts.len(),
{
    if texts.len() == 0 {
        (0, v)
    } else if texts[0].len() == 0 {
        file_texts(v, folder_index, texts.drop_first(), now)
    } else {
        let (r1, v1) = v.insert_text(texts[0], now);
        let id = match r1 {
            Ok(id) => id,
            Err(_) => -1i64,
        };
        let (ok, v2) = if can_file(v1, folder_index) {
            let (r2, v2) = v1.add_to_folder(folder_index, id, now);
            (r2 == Ok::<bool, StoreError>(true), v2)
        } else {
            (false, v1)
        };
        let (n, v3) = file_texts(v2, folder_index, texts.drop_first(), now);
        (n + if ok {
            1nat
        } else {
            0nat
        }, v3)
    }
}

/// Files the non-empty texts of `texts` in folder `folder_index` at time
/// `now` (see [`file_texts`]) and returns how many new filings were made.
pub fn add_texts_to_favorite(state: &mut AppState, folder_index: usize, texts: &Vec<String>, now: i64) -> (r: i32)
    requires
        old(state).wf(),
        texts@.len() <= i32::MAX,
    ensures
        final(state).wf(),
        ({
            let (n, v) = file_texts(old(state).db@, folder_index as int, texts@.map_values(|t: String| t@), now);
            r as nat == n && final(state).db@ == v
        }),
        final(state).max_history_size == old(state).max_history_size,
        final(state).is_window_visible == old(state).is_window_visible,
        final(state).device_id == old(state).device_id,
{
    let ghost ts = texts@.map_values(|t: String| t@);
    let mut added: i32 = 0;
    let mut i: usize = 0;
    assert(ts.skip(0) =~= ts);
    while i < texts.len()
        invariant
            i <= texts@.len(),
            texts@.len() <= i32::MAX,
            ts == texts@.map_values(|t: String| t@),
            0 <= added <= i,
            state.wf(),
            ({
                let (n0, v0) = file_texts(old(state).db@, folder_index as int, ts, now);
                let (n1, v1) = file_texts(state.db@, folder_index as int, ts.skip(i as int), now);
                v0 == v1 && n0 == n1 + added
            }),
            state.max_history_size == old(state).max_history_size,
            state.is_window_visible == old(state).is_window_visible,
            state.device_id == old(state).device_id,
        decreases texts.len() - i,
    {
        let t = &texts[i];
        assert(ts.skip(i as int)[0] == t@);
        assert(ts.skip(i as int).drop_first() =~= ts.skip(i + 1));
        if !t.as_str().is_empty() {
            let item_id = state.add_item(t.as_str(), now);
            let ok = if folder_index < state.db.folders.len() {
                let fid = state.db.folders[folder_index].id;
                if state.db.filing_order_exhausted(fid) {
                    false
                } else {
                    state.add_item_to_favorite_folder(folder_index, item_id, now)
                }
            } else {
                state.add_item_to_favorite_folder(folder_index, item_id, now)
            };
            if ok {
                added = added + 1;
            }
        }
        i = i + 1;
    }
    assert(ts.skip(i as int) =~= Seq::<Seq<char>>::empty());
    added
}

/// Creates a folder named `name` without surrounding white space at time
/// `now`; a name that is blank is refused (nothing changes, `false`).
pub fn create_favorite_folder(state: &mut AppState, name: &str, now: i64) -> (r: bool)
    requires
        old(state).wf(),
        !old(state).db@.folder_order_exhausted(),
    ensures
        final(state).wf(),
        r == (trim_white(name@).len() > 0),
        r ==> final(state).db@ == old(state).db@.insert_folder(trim_white(name@), now).1,
        !r ==> final(state).db@ == old(state).db@,
        final(state).max_history_size == old(state).max_history_size,
        final(state).is_window_visible == old(state).is_window_visible,
        final(state).device_id == old(state).device_id,
{
    let trimmed = str_trim(name);
    if trimmed.as_str().is_empty() {
        return false;
    }
    let _ = state.insert_favorite_folder(trimmed.as_str(), now);
    true
}

/// Deletes the folder at position `index` of the list; an index past the
/// end changes nothing. Returns whether a folder was deleted.
pub fn delete_favorite_folder_at(state: &mut AppState, index: usize) -> (r: bool)
    requires
        old(state).wf(),
    ensures
        final(state).wf(),
        r == (index < old(state).db@.folders.len()),
        r ==> final(state).db@ == old(state).db@.delete_folder(old(state).db@.folders[index as int].id),
        !r ==> final(state).db@ == old(state).db@,
        final(state).max_history_size == old(state).max_history_size,
        final(state).is_window_visible == old(state).is_window_visible,
        final(state).device_id == old(state).device_id,
{
    let folders = state.get_favorite_folders();
    if index < folders.len() {
        let id = folders[index].id;
        assert(folders@.map_values(|f: FavoriteFolder| f@)[index as int] == folders@[index as int]@);
        state.delete_favorite_folder(id)
    } else {
        false
    }
}

/// The texts of `items` that have one, in order.
pub open spec fn texts_of(items: Seq<ClipboardItemView>) -> Seq<Seq<char>>
    decreases items.len(),
{
    if items.len() == 0 {
        Seq::empty()
    } else {
        let rest = texts_of(items.drop_last());
        match items.last().content_text {
            Some(t) => rest.push(t),
            None => rest,
        }
    }
}

/// The texts of the records of a folder, in order (records without text
/// are left out).
pub fn folder_texts(items: &Vec<ClipboardItem>) -> (r: Vec<String>)
    ensures
        r@.map_values(|t: String| t@) == texts_of(items@.map_values(|c: ClipboardItem| c@)),
{
    let ghost iv = items@.map_values(|c: ClipboardItem| c@);
    let mut out: Vec<String> = Vec::new();
    let mut i: usize = 0;
    while i < items.len()
        invariant
            i <= items@.len(),
            iv == items@.map_values(|c: ClipboardItem| c@),
            out@.map_values(|t: String| t@) == texts_of(iv.take(i as int)),
        decreases items.len() - i,
    {
        assert(iv.take(i + 1).drop_last() =~= iv.take(i as int));
        assert(iv.take(i + 1).last() == items@[i as int]@);
        match &items[i].content_text {
            Some(t) => {
                let ghost before = out@.map_values(|t: String| t@);
                out.push(t.clone());
                assert(out@.map_values(|t: String| t@) =~= before.push(t@));
            },
            None => {},
        }
        i = i + 1;
    }
    assert(iv.take(i as int) =~= iv);
    out
}

/// The number of rows marked in `states`.
pub open spec fn marked_count(states: Seq<bool>) -> nat
    decreases states.len(),
{
    if states.len() == 0 {
        0
    } else {
        marked_count(states.drop_last()) + if states.last() {
            1nat
        } else {
            0nat
        }
    }
}

/// Entering the selection of several rows from row `index` of a list of
/// `len` rows: only that row is marked (none when it is past the end), and
/// the count shown is 1.
pub fn select_only(len: usize, index: usize) -> (r: (Vec<bool>, i32))
    ensures
        r.0@.len() == len,
        forall|i: int| 0 <= i < len ==> r.0@[i] == (i == index),
        r.1 == 1,
{
    let mut states: Vec<bool> = Vec::new();
    let mut i: usize = 0;
    while i < len
        invariant
            i <= len,
            states@.len() == i,
            forall|k: int| 0 <= k < i ==> states@[k] == (k == index),
        decreases len - i,
    {
        states.push(i == index);
        i = i + 1;
    }
    (states, 1)
}

/// Flips the mark of row `index` (when there is one). Returns the marks,
/// their number, and whether the selection goes on: when no row is marked
/// any more it ends, with no marks and a count of 0.
pub fn toggle_selection(states: Vec<bool>, index: usize) -> (r: (Vec<bool>, i32, bool))
    requires
        states@.len() <= i32::MAX,
    ensures
        ({
            let flipped = if index < states@.len() {
                states@.update(index as int, !states@[index as int])
            } else {
                states@
            };
            if marked_count(flipped) > 0 {
                r.0@ == flipped && r.1 == marked_count(flipped) && r.2
            } else {
                r.0@.len() == 0 && r.1 == 0 && !r.2
            }
        }),
{
    let mut s = states;
    if index < s.len() {
        let v = s[index];
        s.set(index, !v);
    }
    let mut count: i32 = 0;
    let mut i: usize = 0;
    while i < s.len()
        invariant
            i <= s@.len(),
            s@.len() <= i32::MAX,
            count == marked_count(s@.take(i as int)),
            count <= i,
        decreases s.len() - i,
    {
        assert(s@.take(i + 1).drop_last() =~= s@.take(i as int));
        if s[i] {
            count = count + 1;
        }
        i = i + 1;
    }
    assert(s@.take(i as int) =~= s@);
    if count == 0 {
        (Vec::new(), 0, false)
    } else {
        (s, count, true)
    }
}

/// The record being copied, or -1 when none is: a second copy of a row
/// does not start while one runs.
pub struct CopyGuard {
    pub copying: i64,
}

impl CopyGuard {
    /// Nothing is being copied.
    pub fn new() -> (r: Self)
        ensures
            r.copying == -1,
    {
        CopyGuard { copying: -1 }
    }

    /// Starts copying record `id` unless a copy runs; returns whether it
    /// started.
    pub fn try_begin(&mut self, id: i64) -> (r: bool)
        ensures
            r == (old(self).copying == -1),
            r ==> final(self).copying == id,
            !r ==> final(self).copying == old(self).copying,
    {
        if self.copying == -1 {
            self.copying = id;
            true
        } else {
            false
        }
    }

    /// The copy has ended.
    pub fn finish(&mut self)
        ensures
            final(self).copying == -1,
    {
        self.copying = -1;
    }
}

/// The text behind row `index` of the shown list: the text of the record
/// the row stands for, when the row exists and the record is there and has
/// text.
pub fn entry_text(state: &AppState, entries: &Vec<ClipboardEntry>, index: usize) -> (r: Option<String>)
    requires
        state.wf(),
    ensures
        index >= entries@.len() ==> r is None,
        index < entries@.len() ==> opt_str(r) == match visible_item(state.db@.items, entries@[index as int].id) {
            Some(it) => it.content_text,
            None => None,
        },
{
    if index >= entries.len() {
        return None;
    }
    match state.get_item(entries[index].id) {
        Some(item) => item.content_text,
        None => None,
    }
}

/// What copying row `index` puts on the clipboard.
pub enum CopyTarget {
    /// The text of the record.
    Text(String),
    /// The image of the record with this identifier.
    Image(i64),
}

/// What copying row `index` of the shown list puts on the clipboard: the
/// image of an image row, the text of a text row's record; nothing for a
/// row past the end or a record without text.
pub fn copy_target(state: &AppState, entries: &Vec<ClipboardEntry>, index: usize) -> (r: Option<CopyTarget>)
    requires
        state.wf(),
    ensures
        index >= entries@.len() ==> r is None,
        index < entries@.len() && entries@[index as int].content_type == ContentType::Image ==> (r matches Some(
            CopyTarget::Image(id),
        ) && id == entries@[index as int].id),
        index < entries@.len() && entries@[index as int].content_type != ContentType::Image ==> match (
            r,
            visible_item(state.db@.items, entries@[index as int].id),
        ) {
            (Some(CopyTarget::Text(t)), Some(it)) => it.content_text == Some(t@),
            (None, Some(it)) => it.content_text is None,
            (None, None) => true,
            _ => false,
        },
{
    if index >= entries.len() {
        return None;
    }
    if entries[index].content_type == ContentType::Image {
        return Some(CopyTarget::Image(entries[index].id));
    }
    match state.get_item(entries[index].id) {
        Some(item) => match item.content_text {
            Some(t) => Some(CopyTarget::Text(t)),
            None => None,
        },
        None => None,
    }
}

/// The texts of the marked rows of the shown list that have one, in order
/// (marks past the end of the list count for nothing).
pub open spec fn selected_texts_of(
    items: Seq<ItemRowView>,
    entries: Seq<ClipboardEntry>,
    marks: Seq<bool>,
) -> Seq<Seq<char>>
    decreases marks.len(),
{
    if marks.len() == 0 {
        Seq::empty()
    } else {
        let rest = selected_texts_of(items, entries, marks.drop_last());
        let i = marks.len() - 1;
        if marks.last() && i < entries.len() {
            match visible_item(items, entries[i].id) {
                Some(it) => match it.content_text {
                    Some(t) => rest.push(t),
                    None => rest,
                },
                None => rest,
            }
        } else {
            rest
        }
    }
}

/// The texts of the marked rows (see [`selected_texts_of`]).
pub fn selected_texts(state: &AppState, entries: &Vec<ClipboardEntry>, marks: &Vec<bool>) -> (r: Vec<String>)
    requires
        state.wf(),
    ensures
        r@.map_values(|t: String| t@) == selected_texts_of(state.db@.items, entries@, marks@),
{
    let mut out: Vec<String> = Vec::new();
    let mut i: usize = 0;
    while i < marks.len()
        invariant
            state.wf(),
            i <= marks@.len(),
            out@.map_values(|t: String| t@) == selected_texts_of(state.db@.items, entries@, marks@.take(i as int)),
        decreases marks.len() - i,
    {
        assert(marks@.take(i + 1).drop_last() =~= marks@.take(i as int));
        assert(marks@.take(i + 1).last() == marks@[i as int]);
        if marks[i] && i < entries.len() {
            let ghost before = out@.map_values(|t: String| t@);
            match state.get_item(entries[i].id) {
                Some(item) => match item.content_text {
                    Some(t) => {
                        out.push(t);
                        assert(out@.map_values(|t: String| t@) =~= before.push(out@[out@.len() - 1]@));
                    },
                    None => {},
                },
                None => {},
            }
        }
        i = i + 1;
    }
    assert(marks@.take(i as int) =~= marks@);
    out
}

/// Filing dragged text in folder `folder_index` at time `now`: nothing for
/// empty text; in the selection of several rows (when it holds texts) all
/// selected texts are filed, otherwise the dragged text alone. Returns how
/// many new filings were made, or `None` when nothing was tried.
pub fn add_to_favorite(
    state: &mut AppState,
    folder_index: usize,
    text: &str,
    multi_select: bool,
    selected: &Vec<String>,
    now: i64,
) -> (r: Option<i32>)
    requires
        old(state).wf(),
        selected@.len() <= i32::MAX,
        can_file(old(state).db@, folder_index as int),
    ensures
        final(state).wf(),
        text@.len() == 0 ==> r is None && final(state).db@ == old(state).db@,
        text@.len() > 0 && multi_select && selected@.len() > 0 ==> ({
            let (n, v) = file_texts(old(state).db@, folder_index as int, selected@.map_values(|t: String| t@), now);
            (r matches Some(k) && k as nat == n) && final(state).db@ == v
        }),
        text@.len() > 0 && !(multi_select && selected@.len() > 0) ==> ({
            let (ok, v) = file_text(old(state).db@, folder_index as int, text@, now);
            r == Some(if ok {
                1i32
            } else {
                0i32
            }) && final(state).db@ == v
        }),
        final(state).max_history_size == old(state).max_history_size,
        final(state).is_window_visible == old(state).is_window_visible,
        final(state).device_id == old(state).device_id,
{
    if text.is_empty() {
        return None;
    }
    if multi_select && selected.len() > 0 {
        return Some(add_texts_to_favorite(state, folder_index, selected, now));
    }
    if add_text_to_favorite(state, folder_index, text, now) {
        Some(1)
    } else {
        Some(0)
    }
}

/// Whether a refresh of the list runs; a second one does not start while
/// one runs.
pub struct RefreshGuard {
    pub in_progress: bool,
}

impl RefreshGuard {
    /// No refresh runs.
    pub fn new() -> (r: Self)
        ensures
            !r.in_progress,
    {
        RefreshGuard { in_progress: false }
    }

    /// Starts a refresh unless one runs; returns whether it started.
    pub fn try_begin(&mut self) -> (r: bool)
        ensures
            r == !old(self).in_progress,
            final(self).in_progress,
    {
        if self.in_progress {
            false
        } else {
            self.in_progress = true;
            true
        }
    }

    /// The refresh has ended.
    pub fn finish(&mut self)
        ensures
            !final(self).in_progress,
    {
        self.in_progress = false;
    }
}

} // verus!
