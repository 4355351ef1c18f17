//! The standalone application's state: its store, how much history is
//! shown, whether the window is visible, and this device's identifier.
//! Store failures are turned into empty answers here.

use vstd::prelude::*;
use crate::shared::database::{
    DbView, visible_item, visible_count, time_keys, visible_mask, records_at, kept_on_clear, has_id, id_pos,
    ItemRowView,
};
use crate::shared::ordering::is_ordered_selection;
use crate::shared::state::ok_of;
use crate::standalone::store::{
    Database, ClipboardItem, ImageAdded, item_matches, path_of, first_chars, HISTORY_TEXT_CHARS, cleared_files,
};

verus! {

/// The standalone application's state.
pub struct AppState {
    pub db: Database,
    pub max_history_size: usize,
    pub is_window_visible: bool,
    pub device_id: String,
}

impl AppState {
    /// The state's invariant: that of its store.
    pub open spec fn wf(&self) -> bool {
        self.db.wf()
    }

    /// A state over `db` showing at most `max_history_size` records, with
    /// the window hidden.
    pub fn new(db: Database, max_history_size: usize, device_id: String) -> (r: Self)
        requires
            db.wf(),
        ensures
            r.wf(),
            r.db == db,
            r.max_history_size == max_history_size,
            !r.is_window_visible,
            r.device_id == device_id,
    {
        AppState { db, max_history_size, is_window_visible: false, device_id }
    }

    /// Adds `text` to the history at time `now`; `None` when the store
    /// fails.
    pub fn push_clipboard(&mut self, text: String, now: i64) -> (r: Option<i64>)
        requires
            old(self).wf(),
        ensures
            final(self).wf(),
            final(self).db.records() == old(self).db.records().insert_text(text@, now).1,
            final(self).db.paths() == old(self).db.paths(),
            r == ok_of(old(self).db.records().insert_text(text@, now).0),
            final(self).max_history_size == old(self).max_history_size,
            final(self).is_window_visible == old(self).is_window_visible,
            final(self).device_id == old(self).device_id,
    {
        self.db.insert_text(text.as_str(), now).ok()
    }

    /// Adds an image at time `now` (see [`Database::insert_image`]): the
    /// file to write, if any, and the record and its path, `None` when the
    /// store fails.
    pub fn push_image(&mut self, data: &[u8], mime_type: &str, width: i32, height: i32, now: i64) -> (r: (
        Option<String>,
        Option<(i64, String)>,
    ))
        requires
            old(self).wf(),
            data@.len() <= i64::MAX,
        ensures
            final(self).wf(),
            exists|added: ImageAdded|
                {
                    &&& #[trigger] old(self).db.image_outcome(data@, mime_type@, width, height, now, added, final(self).db)
                    &&& r.0 == added.file_name
                    &&& r.1 == match added.result {
                        Ok(x) => Some(x),
                        Err(_) => None,
                    }
                },
            final(self).max_history_size == old(self).max_history_size,
            final(self).is_window_visible == old(self).is_window_visible,
            final(self).device_id == old(self).device_id,
    {
        let added = self.db.insert_image(data, mime_type, width, height, now);
        let ghost a = added;
        assert(old(self).db.image_outcome(data@, mime_type@, width, height, now, a, self.db));
        let ImageAdded { file_name, result } = added;
        let out = (file_name, match result {
            Ok(x) => Some(x),
            Err(_) => None,
        });
        assert(out.0 == a.file_name);
        assert(out.1 == match a.result {
            Ok(x) => Some(x),
            Err(_) => None::<(i64, String)>,
        });
        out
    }

    /// The shown history: the newest `max_history_size` records not
    /// deleted, with text cut to 2000 characters; empty when the store fails.
    pub fn get_history(&self) -> (r: Vec<ClipboardItem>)
        requires
            self.wf(),
        ensures
            exists|sel: Seq<usize>|
                is_ordered_selection(
                    time_keys(self.db.records().items),
                    visible_mask(self.db.records().items),
                    self.max_history_size as int,
                    false,
                    sel,
                ) && r@.len() == sel.len() && forall|i: int| 0 <= i < sel.len() ==> {
                    let rec = records_at(self.db.records().items, sel)[i];
                    item_matches(
                        #[trigger] r@[i],
                        rec,
                        path_of(self.db.paths(), rec.id),
                        first_chars(rec.content_text, HISTORY_TEXT_CHARS as nat),
                    )
                },
    {
        match self.db.get_history(self.max_history_size) {
            Ok(v) => v,
            Err(_) => Vec::new(),
        }
    }

    /// The record with identifier `id`, unless absent or deleted.
    pub fn get_item(&self, id: i64) -> (r: Option<ClipboardItem>)
        requires
            self.wf(),
        ensures
            match (r, visible_item(self.db.records().items, id)) {
                (Some(a), Some(b)) => item_matches(a, b, path_of(self.db.paths(), id), b.content_text),
                (None, None) => true,
                _ => false,
            },
    {
        match self.db.get_item(id) {
            Ok(o) => o,
            Err(_) => None,
        }
    }

    /// Deletes record `id`; always reports success.
    pub fn delete_item(&mut self, id: i64) -> (r: bool)
        requires
            old(self).wf(),
        ensures
            final(self).wf(),
            r,
            final(self).db.records() == old(self).db.records().update_item(id, |x: ItemRowView| ItemRowView { is_deleted: true, ..x }),
            final(self).db.paths() == old(self).db.paths(),
            final(self).max_history_size == old(self).max_history_size,
            final(self).is_window_visible == old(self).is_window_visible,
            final(self).device_id == old(self).device_id,
    {
        self.db.delete(id).is_ok()
    }

    /// Flips the favorite mark of record `id` and returns the new mark;
    /// `false` when there is no such record.
    pub fn toggle_favorite(&mut self, id: i64) -> (r: bool)
        requires
            old(self).wf(),
        ensures
            final(self).wf(),
            r == (has_id(old(self).db.records().items, id) && !old(self).db.records().items[id_pos(old(self).db.records().items, id)].is_favorite),
            final(self).db.records() == old(self).db.records().update_item(id, |x: ItemRowView| ItemRowView { is_favorite: !x.is_favorite, ..x }),
            final(self).db.paths() == old(self).db.paths(),
            final(self).max_history_size == old(self).max_history_size,
            final(self).is_window_visible == old(self).is_window_visible,
            final(self).device_id == old(self).device_id,
    {
        match self.db.toggle_favorite(id) {
            Ok(b) => b,
            Err(_) => false,
        }
    }

    /// Removes every record that is not a favorite; returns how many were
    /// removed and the image files to delete.
    pub fn clear_history(&mut self) -> (r: (usize, Vec<String>))
        requires
            old(self).wf(),
        ensures
            final(self).wf(),
            final(self).db.records() == (DbView { items: kept_on_clear(old(self).db.records().items), ..old(self).db.records() }),
            final(self).db.paths() == old(self).db.paths(),
            r.0 as int == old(self).db.records().items.len() - final(self).db.records().items.len(),
            r.1@.map_values(|f: String| f@) == cleared_files(old(self).db.records().items, old(self).db.paths()),
            final(self).max_history_size == old(self).max_history_size,
            final(self).is_window_visible == old(self).is_window_visible,
            final(self).device_id == old(self).device_id,
    {
        match self.db.clear_non_favorites() {
            Ok(x) => x,
            Err(_) => (0, Vec::new()),
        }
    }

    /// The number of records not deleted.
    pub fn count(&self) -> (r: usize)
        ensures
            r == visible_count(self.db.records().items),
    {
        match self.db.count() {
            Ok(n) => n,
            Err(_) => 0,
        }
    }

    /// Records whether the window is visible.
    pub fn set_window_visible(&mut self, visible: bool)
        ensures
            final(self).is_window_visible == visible,
            final(self).db == old(self).db,
            final(self).max_history_size == old(self).max_history_size,
            final(self).device_id == old(self).device_id,
    {
        self.is_window_visible = visible;
    }

    /// Whether the window is visible.
    pub fn is_window_visible(&self) -> (r: bool)
        ensures
            r == self.is_window_visible,
    {
        self.is_window_visible
    }

    /// This device's identifier.
    pub fn get_device_id(&self) -> (r: &str)
        ensures
            r@ == self.device_id@,
    {
        self.device_id.as_str()
    }
}

} // verus!
