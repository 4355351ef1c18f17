//! The application state shared by the desktop shell and the HTTP API: the
//! store, how much history is shown, whether the window is visible, and this
//! device's identifier. Store failures are turned into empty answers here.

use vstd::prelude::*;
use crate::shared::models::{ClipboardItem, FavoriteFolder, opt_str, opt_bytes};
use crate::shared::database::{
    Database, DbView, StoreError, visible_item, visible_count, time_keys, visible_mask, records_at, search_mask,
    search_pattern, MAX_PATTERN_BYTES, config_lookup, image_data_of, thumbnail_of, filing_count, filing_keys,
    filing_mask, filed_records, kept_on_clear,
};
use crate::shared::ordering::is_ordered_selection;
use crate::shared::mock_data::{TWO_DAYS_MS, mock_entries};
use crate::text::{utf8_len, split_white};
use vstd::string::StringExecFns;

verus! {

/// The application state.
pub struct AppState {
    pub db: Database,
    pub max_history_size: usize,
    pub is_window_visible: bool,
    pub device_id: String,
}

impl AppState {
    /// The state's invariant: that of its store.
    pub open spec fn wf(&self) -> bool {
        self.db@.wf()
    }

    /// A state over `db`, showing at most `max_history_size` records, with
    /// the window hidden.
    pub fn new(db: Database, max_history_size: usize, device_id: String) -> (r: Self)
        requires
            db@.wf(),
        ensures
            r.wf(),
            r.db@ == db@,
            r.max_history_size == max_history_size,
            !r.is_window_visible,
            r.device_id@ == device_id@,
    {
        AppState { db, max_history_size, is_window_visible: false, device_id }
    }

    /// Adds `text` to the history at time `now`; `None` when the store fails.
    pub fn push_clipboard(&mut self, text: String, now: i64) -> (r: Option<i64>)
        requires
            old(self).wf(),
        ensures
            final(self).wf(),
            final(self).db@ == old(self).db@.insert_text(text@, now).1,
            r == ok_of(old(self).db@.insert_text(text@, now).0),
            final(self).max_history_size == old(self).max_history_size,
            final(self).is_window_visible == old(self).is_window_visible,
            final(self).device_id == old(self).device_id,
    {
        self.db.insert_text(text.as_str(), now).ok()
    }

    /// Adds an image and its thumbnail at time `now`; `None` when the store
    /// fails.
    pub fn push_image(
        &mut self,
        data: &[u8],
        thumbnail: &[u8],
        mime_type: &str,
        width: i32,
        height: i32,
        now: i64,
    ) -> (r: Option<i64>)
        requires
            old(self).wf(),
            data@.len() <= i64::MAX,
        ensures
            final(self).wf(),
            final(self).db@ == old(self).db@.insert_image(data@, thumbnail@, mime_type@, width, height, now).1,
            r == ok_of(old(self).db@.insert_image(data@, thumbnail@, mime_type@, width, height, now).0),
            final(self).max_history_size == old(self).max_history_size,
            final(self).is_window_visible == old(self).is_window_visible,
            final(self).device_id == old(self).device_id,
    {
        self.db.insert_image(data, thumbnail, mime_type, width, height, now).ok()
    }

    /// The bytes and media type of an image record.
    pub fn get_image_data(&self, id: i64) -> (r: Option<(Vec<u8>, String)>)
        requires
            self.wf(),
        ensures
            match (r, image_data_of(self.db@.items, id)) {
                (Some((b, m)), Some((vb, vm))) => b@ == vb && m@ == vm,
                (None, None) => true,
                _ => false,
            },
    {
        match self.db.get_image_data(id) {
            Ok(o) => o,
            Err(_) => None,
        }
    }

    /// The thumbnail of an image record.
    pub fn get_thumbnail_data(&self, id: i64) -> (r: Option<Vec<u8>>)
        requires
            self.wf(),
        ensures
            opt_bytes(r) == thumbnail_of(self.db@.items, id),
    {
        match self.db.get_thumbnail_data(id) {
            Ok(o) => o,
            Err(_) => None,
        }
    }

    /// The shown history: the newest (or oldest) `max_history_size` records
    /// not deleted.
    pub fn get_history(&self, ascending: bool) -> (r: Vec<ClipboardItem>)
        requires
            self.wf(),
        ensures
            exists|sel: Seq<usize>|
                is_ordered_selection(
                    time_keys(self.db@.items),
                    visible_mask(self.db@.items),
                    self.max_history_size as int,
                    ascending,
                    sel,
                ) && r@.map_values(|c: ClipboardItem| c@) == records_at(self.db@.items, sel),
    {
        match self.db.get_history(self.max_history_size, ascending) {
            Ok(v) => v,
            Err(_) => Vec::new(),
        }
    }

    /// The shown history restricted to records matching `query`; empty when
    /// the store refuses the query.
    pub fn search_history(&self, query: &str, ascending: bool) -> (r: Vec<ClipboardItem>)
        requires
            self.wf(),
        ensures
            utf8_len(search_pattern(query@)) > MAX_PATTERN_BYTES && visible_count(self.db@.items) > 0 ==> r@.len()
                == 0,
            !(utf8_len(search_pattern(query@)) > MAX_PATTERN_BYTES && visible_count(self.db@.items) > 0)
                ==> exists|sel: Seq<usize>|
                is_ordered_selection(
                    time_keys(self.db@.items),
                    search_mask(self.db@.items, search_pattern(query@)),
                    self.max_history_size as int,
                    ascending,
                    sel,
                ) && r@.map_values(|c: ClipboardItem| c@) == records_at(self.db@.items, sel),
    {
        match self.db.search_history(query, self.max_history_size, ascending) {
            Ok(v) => v,
            Err(_) => Vec::new(),
        }
    }

    /// The record with identifier `id`, unless absent or deleted.
    pub fn get_item(&self, id: i64) -> (r: Option<ClipboardItem>)
        requires
            self.wf(),
        ensures
            match (r, visible_item(self.db@.items, id)) {
                (Some(a), Some(b)) => a@ == b,
                (None, None) => true,
                _ => false,
            },
    {
        match self.db.get_item(id) {
            Ok(o) => o,
            Err(_) => None,
        }
    }

    /// Deletes the record with identifier `id`; always reports success.
    pub fn delete_item(&mut self, id: i64) -> (r: bool)
        requires
            old(self).wf(),
        ensures
            final(self).wf(),
            r,
            final(self).db@ == old(self).db@.update_item(id, |x: crate::shared::database::ItemRowView| crate::shared::database::ItemRowView { is_deleted: true, ..x }),
            final(self).max_history_size == old(self).max_history_size,
            final(self).is_window_visible == old(self).is_window_visible,
            final(self).device_id == old(self).device_id,
    {
        self.db.delete(id).is_ok()
    }

    /// Flips the favorite mark of record `id` and returns the new mark;
    /// `false` when there is no such record.
    pub fn toggle_favorite(&mut self, id: i64) -> (r: bool)
        requires
            old(self).wf(),
        ensures
            final(self).wf(),
            r == (crate::shared::database::has_id(old(self).db@.items, id) && !old(self).db@.items[crate::shared::database::id_pos(old(self).db@.items, id)].is_favorite),
            final(self).db@ == old(self).db@.update_item(id, |x: crate::shared::database::ItemRowView| crate::shared::database::ItemRowView { is_favorite: !x.is_favorite, ..x }),
            final(self).max_history_size == old(self).max_history_size,
            final(self).is_window_visible == old(self).is_window_visible,
            final(self).device_id == old(self).device_id,
    {
        match self.db.toggle_favorite(id) {
            Ok(b) => b,
            Err(_) => false,
        }
    }

    /// Stamps record `id` with time `now`; always reports success.
    pub fn update_item_created_at(&mut self, id: i64, now: i64) -> (r: bool)
        requires
            old(self).wf(),
        ensures
            final(self).wf(),
            r,
            final(self).db@ == old(self).db@.update_item(id, |x: crate::shared::database::ItemRowView| crate::shared::database::ItemRowView { created_at: now, ..x }),
            final(self).max_history_size == old(self).max_history_size,
            final(self).is_window_visible == old(self).is_window_visible,
            final(self).device_id == old(self).device_id,
    {
        self.db.update_item_created_at(id, now).is_ok()
    }

    /// Removes every record that is not a favorite and returns how many were
    /// removed.
    pub fn clear_history(&mut self) -> (r: usize)
        requires
            old(self).wf(),
        ensures
            final(self).wf(),
            final(self).db@ == (DbView { items: kept_on_clear(old(self).db@.items), ..old(self).db@ }),
            r == old(self).db@.items.len() - final(self).db@.items.len(),
            final(self).max_history_size == old(self).max_history_size,
            final(self).is_window_visible == old(self).is_window_visible,
            final(self).device_id == old(self).device_id,
    {
        match self.db.clear_non_favorites() {
            Ok(n) => n,
            Err(_) => 0,
        }
    }

    /// The number of records not deleted.
    pub fn count(&self) -> (r: usize)
        requires
            self.wf(),
        ensures
            r == visible_count(self.db@.items),
    {
        match self.db.count() {
            Ok(n) => n,
            Err(_) => 0,
        }
    }

    /// The value of setting `key`, if set.
    pub fn get_config(&self, key: &str) -> (r: Option<String>)
        requires
            self.wf(),
        ensures
            opt_str(r) == config_lookup(self.db@.config, key@),
    {
        match self.db.get_config(key) {
            Ok(o) => o,
            Err(_) => None,
        }
    }

    /// Sets setting `key` to `value` at time `now`; always reports success.
    pub fn set_config(&mut self, key: &str, value: &str, now: i64) -> (r: bool)
        requires
            old(self).wf(),
        ensures
            final(self).wf(),
            r,
            final(self).db@ == old(self).db@.set_config(key@, value@, now),
            final(self).max_history_size == old(self).max_history_size,
            final(self).is_window_visible == old(self).is_window_visible,
            final(self).device_id == old(self).device_id,
    {
        self.db.set_config(key, value, now).is_ok()
    }

    /// Records whether the window is visible.
    pub fn set_window_visible(&mut self, visible: bool)
        ensures
            final(self).is_window_visible == visible,
            final(self).db == old(self).db,
            final(self).max_history_size == old(self).max_history_size,
            final(self).device_id == old(self).device_id,
    {
        self.is_window_visible = visible;
    }

    /// Whether the window is visible.
    pub fn is_window_visible(&self) -> (r: bool)
        ensures
            r == self.is_window_visible,
    {
        self.is_window_visible
    }

    /// This device's identifier.
    pub fn get_device_id(&self) -> (r: &str)
        ensures
            r@ == self.device_id@,
    {
        self.device_id.as_str()
    }

    /// All folders, in sort order.
    pub fn get_favorite_folders(&self) -> (r: Vec<FavoriteFolder>)
        ensures
            r@.map_values(|f: FavoriteFolder| f@) == self.db@.folders,
    {
        match self.db.get_favorite_folders() {
            Ok(v) => v,
            Err(_) => Vec::new(),
        }
    }

    /// Creates a folder named `name` at time `now`; `None` when the store
    /// fails.
    pub fn insert_favorite_folder(&mut self, name: &str, now: i64) -> (r: Option<i64>)
        requires
            old(self).wf(),
            !old(self).db@.folder_order_exhausted(),
        ensures
            final(self).wf(),
            final(self).db@ == old(self).db@.insert_folder(name@, now).1,
            r == ok_of(old(self).db@.insert_folder(name@, now).0),
            final(self).max_history_size == old(self).max_history_size,
            final(self).is_window_visible == old(self).is_window_visible,
            final(self).device_id == old(self).device_id,
    {
        self.db.insert_favorite_folder(name, now).ok()
    }

    /// Renames folder `id`; always reports success.
    pub fn rename_favorite_folder(&mut self, id: i64, name: &str) -> (r: bool)
        requires
            old(self).wf(),
        ensures
            final(self).wf(),
            r,
            final(self).db@ == old(self).db@.rename_folder(id, name@),
            final(self).max_history_size == old(self).max_history_size,
            final(self).is_window_visible == old(self).is_window_visible,
            final(self).device_id == old(self).device_id,
    {
        self.db.rename_favorite_folder(id, name).is_ok()
    }

    /// Removes folder `id`; always reports success.
    pub fn delete_favorite_folder(&mut self, id: i64) -> (r: bool)
        requires
            old(self).wf(),
        ensures
            final(self).wf(),
            r,
            final(self).db@ == old(self).db@.delete_folder(id),
            final(self).max_history_size == old(self).max_history_size,
            final(self).is_window_visible == old(self).is_window_visible,
            final(self).device_id == old(self).device_id,
    {
        self.db.delete_favorite_folder(id).is_ok()
    }

    /// Moves a folder; always reports success.
    pub fn reorder_favorite_folders(&mut self, old_index: usize, new_index: usize) -> (r: bool)
        requires
            old(self).wf(),
        ensures
            final(self).wf(),
            r,
            final(self).db@ == old(self).db@.reorder_folders(old_index as int, new_index as int),
            final(self).max_history_size == old(self).max_history_size,
            final(self).is_window_visible == old(self).is_window_visible,
            final(self).device_id == old(self).device_id,
    {
        self.db.reorder_favorite_folders(old_index, new_index).is_ok()
    }

    /// Files record `item_id` in the folder at position `folder_index`;
    /// reports whether a new filing was made (`false` when the record was
    /// filed there already or the store failed).
    pub fn add_item_to_favorite_folder(&mut self, folder_index: usize, item_id: i64, now: i64) -> (r: bool)
        requires
            old(self).wf(),
            folder_index < old(self).db@.folders.len() ==> !old(self).db@.filing_order_exhausted(
                old(self).db@.folders[folder_index as int].id,
            ),
        ensures
            final(self).wf(),
            final(self).db@ == old(self).db@.add_to_folder(folder_index as int, item_id, now).1,
            r == (old(self).db@.add_to_folder(folder_index as int, item_id, now).0 == Ok::<bool, StoreError>(true)),
            final(self).max_history_size == old(self).max_history_size,
            final(self).is_window_visible == old(self).is_window_visible,
            final(self).device_id == old(self).device_id,
    {
        match self.db.add_item_to_favorite_folder(folder_index, item_id, now) {
            Ok(added) => added,
            Err(_) => false,
        }
    }

    /// The number of records filed in folder `folder_id`.
    pub fn get_favorite_folder_item_count(&self, folder_id: i64) -> (r: usize)
        ensures
            r == filing_count(self.db@.folder_items, folder_id) as usize,
    {
        match self.db.get_favorite_folder_item_count(folder_id) {
            Ok(n) => n,
            Err(_) => 0,
        }
    }

    /// The records filed in the folder at position `folder_index`, most
    /// recently filed first; empty when there is no such folder.
    pub fn get_favorite_folder_items(&self, folder_index: usize) -> (r: Vec<ClipboardItem>)
        requires
            self.wf(),
        ensures
            folder_index >= self.db@.folders.len() ==> r@.len() == 0,
            folder_index < self.db@.folders.len() ==> exists|sel: Seq<usize>|
                is_ordered_selection(
                    filing_keys(self.db@.folder_items),
                    filing_mask(self.db@.items, self.db@.folder_items, self.db@.folders[folder_index as int].id),
                    usize::MAX as int,
                    false,
                    sel,
                ) && r@.map_values(|c: ClipboardItem| c@) == filed_records(self.db@.items, self.db@.folder_items, sel),
            forall|k: int| 0 <= k < r@.len() ==> visible_item(self.db@.items, (#[trigger] r@[k])@.id) == Some(r@[k]@),
    {
        match self.db.get_favorite_folder_items(folder_index) {
            Ok(v) => v,
            Err(_) => Vec::new(),
        }
    }

    /// Creates the default folders when there are none.
    pub fn init_default_favorite_folders(&mut self, now: i64) -> (r: Result<(), StoreError>)
        requires
            old(self).wf(),
        ensures
            final(self).wf(),
            old(self).db@.folders.len() > 0 ==> r is Ok && final(self).db@ == old(self).db@,
            old(self).db@.folders.len() == 0 ==> (r, final(self).db@) == old(self).db@.insert_folders(
                crate::shared::database::default_folder_names(),
                now,
            ),
            final(self).max_history_size == old(self).max_history_size,
            final(self).is_window_visible == old(self).is_window_visible,
            final(self).device_id == old(self).device_id,
    {
        self.db.init_default_favorite_folders(now)
    }

    /// All folders with the number of records filed in each.
    pub fn get_favorite_folders_with_count(&self) -> (r: Vec<(FavoriteFolder, usize)>)
        ensures
            r@.len() == self.db@.folders.len(),
            forall|i: int| 0 <= i < r@.len() ==> (#[trigger] r@[i]).0@ == self.db@.folders[i] && r@[i].1
                == filing_count(self.db@.folder_items, self.db@.folders[i].id) as usize,
    {
        let folders = self.get_favorite_folders();
        let mut out: Vec<(FavoriteFolder, usize)> = Vec::new();
        let mut i: usize = 0;
        let ghost fv = folders@.map_values(|f: FavoriteFolder| f@);
        while i < folders.len()
            invariant
                i <= folders@.len(),
                fv == folders@.map_values(|f: FavoriteFolder| f@),
                fv == self.db@.folders,
                out@.len() == i,
                forall|k: int| 0 <= k < i ==> (#[trigger] out@[k]).0@ == self.db@.folders[k] && out@[k].1
                    == filing_count(self.db@.folder_items, self.db@.folders[k].id) as usize,
            decreases folders.len() - i,
        {
            let f = &folders[i];
            assert(fv[i as int] == f@);
            let c = self.get_favorite_folder_item_count(f.id);
            let copy = FavoriteFolder { id: f.id, name: f.name.clone(), sort_order: f.sort_order, created_at: f.created_at };
            out.push((copy, c));
            i = i + 1;
        }
        out
    }

    /// Adds `text` to the history at time `now` and returns its identifier,
    /// or -1 when the store fails.
    pub fn add_item(&mut self, text: &str, now: i64) -> (r: i64)
        requires
            old(self).wf(),
        ensures
            final(self).wf(),
            final(self).db@ == old(self).db@.insert_text(text@, now).1,
            r == match old(self).db@.insert_text(text@, now).0 {
                Ok(id) => id,
                Err(_) => -1i64,
            },
            final(self).max_history_size == old(self).max_history_size,
            final(self).is_window_visible == old(self).is_window_visible,
            final(self).device_id == old(self).device_id,
    {
        match self.db.insert_text(text, now) {
            Ok(id) => id,
            Err(_) => -1,
        }
    }

    /// Adds `count` sample records made at `now` from the words of
    /// `article` (see [`Database::insert_mock_data`]); returns how many were
    /// added, or 0 when the store fails.
    pub fn add_mock_data(&mut self, count: usize, now: i64, article: &str) -> (r: usize)
        requires
            old(self).wf(),
            visible_count(old(self).db@.items) + count < usize::MAX,
            now >= i64::MIN + TWO_DAYS_MS,
        ensures
            final(self).wf(),
            ({
                let (sr, sv) = old(self).db@.add_new_texts(
                    mock_entries(visible_count(old(self).db@.items), count as nat, now, split_white(article@)),
                );
                &&& final(self).db@ == sv
                &&& r as nat == match sr {
                    Ok(n) => n,
                    Err(_) => 0,
                }
            }),
            final(self).max_history_size == old(self).max_history_size,
            final(self).is_window_visible == old(self).is_window_visible,
            final(self).device_id == old(self).device_id,
    {
        match self.db.insert_mock_data(count, now, article) {
            Ok(n) => n,
            Err(_) => 0,
        }
    }

    /// Imports what was read from another clipboard manager's database:
    /// `entries` (text and date), `total` entries read, and `read_error`
    /// (empty when reading succeeded). Returns the number imported, the
    /// number read, and an error text (empty on success); see
    /// [`import_outcome`].
    pub fn import_from_ditto(
        &mut self,
        entries: Vec<(String, i64)>,
        total: usize,
        read_error: String,
        now: i64,
    ) -> (r: (usize, usize, String))
        requires
            old(self).wf(),
        ensures
            final(self).wf(),
            ({
                let es = entries@.map_values(|e: (String, i64)| (e.0@, e.1));
                let (sr, sv) = old(self).db@.import_entries(es, now);
                let imports = read_error@.len() == 0 && es.len() > 0;
                &&& final(self).db@ == if imports { sv } else { old(self).db@ }
                &&& (r.0 as int, r.1 as int, r.2@) == import_outcome(es.len(), total as int, read_error@, sr)
            }),
            final(self).max_history_size == old(self).max_history_size,
            final(self).is_window_visible == old(self).is_window_visible,
            final(self).device_id == old(self).device_id,
    {
        if !read_error.as_str().is_empty() {
            return (0, total, read_error);
        }
        if entries.len() == 0 {
            return (0, 0, "Ditto 数据库中无文本条目".to_owned());
        }
        match self.db.import_ditto_entries(entries.as_slice(), now) {
            Ok(imported) => (imported, total, String::new()),
            Err(e) => {
                let msg = "导入失败: ".to_owned().concat(e.message().as_str());
                (0, total, msg)
            },
        }
    }
}

/// What an import answers, given how many entries were read (`n`), the
/// count reported by the read (`total`), its error text, and the store's
/// result: a read error is passed on with nothing imported; no entries
/// gives zero counts and a notice; otherwise the number imported and
/// `total`, with `导入失败: ` and the store's message when the store failed.
pub open spec fn import_outcome(n: nat, total: int, read_error: Seq<char>, sr: Result<nat, StoreError>) -> (int, int, Seq<char>) {
    if read_error.len() > 0 {
        (0, total, read_error)
    } else if n == 0 {
        (0, 0, "Ditto 数据库中无文本条目"@)
    } else {
        match sr {
            Ok(k) => (k as int, total, Seq::empty()),
            Err(e) => (0, total, "导入失败: "@ + e.message_text()),
        }
    }
}

/// The success value of a result, if any.
pub open spec fn ok_of<T>(r: Result<T, StoreError>) -> Option<T> {
    match r {
        Ok(v) => Some(v),
        Err(_) => None,
    }
}

} // verus!
