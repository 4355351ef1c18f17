//! The clipboard history store.
//!
//! The store holds four tables: clipboard records (de-duplicated by content
//! fingerprint, deleted softly), settings, favorite folders, and the records
//! filed in each folder. Identifiers are handed out in increasing order and
//! never reused. Every operation is stated over the store's view
//! ([`DbView`]); the point in time that an operation stamps is a parameter.

use vstd::prelude::*;
use vstd::utf8::encode_utf8;
use crate::shared::models::{
    ContentType, ClipboardItem, ClipboardItemView, FavoriteFolder, FavoriteFolderView, opt_str, opt_bytes,
    clone_opt_string, clone_opt_bytes,
};
use crate::shared::hashing::{content_hash_of, compute_hash};
use crate::shared::like::{like_match, like_matches};
use crate::shared::store_laws::law_folder_lists_only_visible;
use crate::shared::ordering::{is_ordered_selection, select_ordered};
use crate::text::{is_blank, str_is_blank, dec_text, push_dec_text, chars_of, utf8_len, utf8_len_of};

verus! {

/// Why a store operation failed.
#[derive(Debug, Clone, Copy, PartialEq, Eq, Structural)]
pub enum StoreError {
    /// A lookup that needs a row found none.
    NoSuchRow,
    /// An insert would give two records the same fingerprint.
    UniqueViolation,
    /// No identifier is left for a new row.
    TableFull,
    /// A search pattern is longer than the store accepts.
    PatternTooComplex,
}

impl StoreError {
    /// The text that describes the failure, as SQLite words it.
    pub open spec fn message_text(self) -> Seq<char> {
        match self {
            StoreError::NoSuchRow => "Query returned no rows"@,
            StoreError::UniqueViolation => "UNIQUE constraint failed: clipboard_items.content_hash"@,
            StoreError::TableFull => "database or disk is full"@,
            StoreError::PatternTooComplex => "LIKE or GLOB pattern too complex"@,
        }
    }

    /// The text that describes the failure (see [`StoreError::message_text`]).
    pub fn message(&self) -> (r: String)
        ensures
            r@ == self.message_text(),
    {
        match self {
            StoreError::NoSuchRow => "Query returned no rows".to_owned(),
            StoreError::UniqueViolation => "UNIQUE constraint failed: clipboard_items.content_hash".to_owned(),
            StoreError::TableFull => "database or disk is full".to_owned(),
            StoreError::PatternTooComplex => "LIKE or GLOB pattern too complex".to_owned(),
        }
    }
}

/// A clipboard record as stored.
pub struct ItemRow {
    pub id: i64,
    pub content_type: ContentType,
    pub content_text: Option<String>,
    pub content_blob: Option<Vec<u8>>,
    pub thumbnail_blob: Option<Vec<u8>>,
    pub content_hash: String,
    pub mime_type: Option<String>,
    pub file_size: Option<i64>,
    pub width: Option<i32>,
    pub height: Option<i32>,
    pub source_ip: Option<String>,
    pub created_at: i64,
    pub is_favorite: bool,
    pub is_deleted: bool,
}

/// The mathematical content of an [`ItemRow`].
pub struct ItemRowView {
    pub id: i64,
    pub content_type: ContentType,
    pub content_text: Option<Seq<char>>,
    pub content_blob: Option<Seq<u8>>,
    pub thumbnail_blob: Option<Seq<u8>>,
    pub content_hash: Seq<char>,
    pub mime_type: Option<Seq<char>>,
    pub file_size: Option<i64>,
    pub width: Option<i32>,
    pub height: Option<i32>,
    pub source_ip: Option<Seq<char>>,
    pub created_at: i64,
    pub is_favorite: bool,
    pub is_deleted: bool,
}

impl View for ItemRow {
    type V = ItemRowView;

    open spec fn view(&self) -> ItemRowView {
        ItemRowView {
            id: self.id,
            content_type: self.content_type,
            content_text: opt_str(self.content_text),
            content_blob: opt_bytes(self.content_blob),
            thumbnail_blob: opt_bytes(self.thumbnail_blob),
            content_hash: self.content_hash@,
            mime_type: opt_str(self.mime_type),
            file_size: self.file_size,
            width: self.width,
            height: self.height,
            source_ip: opt_str(self.source_ip),
            created_at: self.created_at,
            is_favorite: self.is_favorite,
            is_deleted: self.is_deleted,
        }
    }
}

/// A setting as stored.
pub struct ConfigRow {
    pub key: String,
    pub value: String,
    pub updated_at: i64,
}

/// The mathematical content of a [`ConfigRow`].
pub struct ConfigRowView {
    pub key: Seq<char>,
    pub value: Seq<char>,
    pub updated_at: i64,
}

impl View for ConfigRow {
    type V = ConfigRowView;

    open spec fn view(&self) -> ConfigRowView {
        ConfigRowView { key: self.key@, value: self.value@, updated_at: self.updated_at }
    }
}

/// A favorite folder as stored.
pub struct FolderRow {
    pub id: i64,
    pub name: String,
    pub sort_order: i32,
    pub created_at: i64,
}

impl View for FolderRow {
    type V = FavoriteFolderView;

    open spec fn view(&self) -> FavoriteFolderView {
        FavoriteFolderView {
            id: self.id,
            name: self.name@,
            sort_order: self.sort_order,
            created_at: self.created_at,
        }
    }
}

/// A record filed in a favorite folder.
#[derive(Clone, Copy)]
pub struct FolderItemRow {
    pub id: i64,
    pub folder_id: i64,
    pub item_id: i64,
    pub added_at: i64,
    pub sort_order: i32,
}

/// The clipboard history store.
pub struct Database {
    /// Clipboard records, in increasing identifier order.
    pub items: Vec<ItemRow>,
    /// The largest identifier ever handed to a clipboard record.
    pub item_seq: i64,
    /// Settings.
    pub config: Vec<ConfigRow>,
    /// Favorite folders, in increasing sort order.
    pub folders: Vec<FolderRow>,
    /// The largest identifier ever handed to a folder.
    pub folder_seq: i64,
    /// Records filed in folders.
    pub folder_items: Vec<FolderItemRow>,
    /// The largest identifier ever handed to a filing.
    pub folder_item_seq: i64,
}

/// The mathematical content of a [`Database`].
pub struct DbView {
    pub items: Seq<ItemRowView>,
    pub item_seq: i64,
    pub config: Seq<ConfigRowView>,
    pub folders: Seq<FavoriteFolderView>,
    pub folder_seq: i64,
    pub folder_items: Seq<FolderItemRow>,
    pub folder_item_seq: i64,
}

impl View for Database {
    type V = DbView;

    open spec fn view(&self) -> DbView {
        DbView {
            items: self.items@.map_values(|r: ItemRow| r@),
            item_seq: self.item_seq,
            config: self.config@.map_values(|r: ConfigRow| r@),
            folders: self.folders@.map_values(|r: FolderRow| r@),
            folder_seq: self.folder_seq,
            folder_items: self.folder_items@,
            folder_item_seq: self.folder_item_seq,
        }
    }
}

/// The fingerprint of a text: that of its UTF-8 bytes.
pub open spec fn text_hash(text: Seq<char>) -> Seq<char> {
    content_hash_of(encode_utf8(text))
}

/// The record handed out for a stored row.
pub open spec fn item_of(r: ItemRowView) -> ClipboardItemView {
    ClipboardItemView {
        id: r.id,
        content_type: r.content_type,
        content_text: r.content_text,
        content_hash: r.content_hash,
        mime_type: r.mime_type,
        file_size: r.file_size,
        width: r.width,
        height: r.height,
        source_ip: r.source_ip,
        created_at: r.created_at,
        is_favorite: r.is_favorite,
    }
}

/// Whether some record has fingerprint `h`.
pub open spec fn has_hash(items: Seq<ItemRowView>, h: Seq<char>) -> bool {
    exists|i: int| 0 <= i < items.len() && items[i].content_hash == h
}

/// The position of the record with fingerprint `h`.
pub open spec fn hash_pos(items: Seq<ItemRowView>, h: Seq<char>) -> int {
    choose|i: int| 0 <= i < items.len() && items[i].content_hash == h
}

/// Whether some record has identifier `id`.
pub open spec fn has_id(items: Seq<ItemRowView>, id: i64) -> bool {
    exists|i: int| 0 <= i < items.len() && items[i].id == id
}

/// The position of the record with identifier `id`.
pub open spec fn id_pos(items: Seq<ItemRowView>, id: i64) -> int {
    choose|i: int| 0 <= i < items.len() && items[i].id == id
}

/// The record with identifier `id` that has not been deleted, if any.
pub open spec fn visible_item(items: Seq<ItemRowView>, id: i64) -> Option<ClipboardItemView> {
    if has_id(items, id) && !items[id_pos(items, id)].is_deleted {
        Some(item_of(items[id_pos(items, id)]))
    } else {
        None
    }
}

/// The number of records that have not been deleted.
pub open spec fn visible_count(items: Seq<ItemRowView>) -> nat
    decreases items.len(),
{
    if items.len() == 0 {
        0
    } else {
        visible_count(items.drop_last()) + if items.last().is_deleted {
            0nat
        } else {
            1nat
        }
    }
}

/// A new text record.
pub open spec fn new_text_row(id: i64, text: Seq<char>, h: Seq<char>, now: i64) -> ItemRowView {
    ItemRowView {
        id,
        content_type: ContentType::Text,
        content_text: Some(text),
        content_blob: None,
        thumbnail_blob: None,
        content_hash: h,
        mime_type: None,
        file_size: None,
        width: None,
        height: None,
        source_ip: None,
        created_at: now,
        is_favorite: false,
        is_deleted: false,
    }
}

/// A new image record.
pub open spec fn new_image_row(
    id: i64,
    data: Seq<u8>,
    thumbnail: Seq<u8>,
    h: Seq<char>,
    mime: Seq<char>,
    width: i32,
    height: i32,
    now: i64,
) -> ItemRowView {
    ItemRowView {
        id,
        content_type: ContentType::Image,
        content_text: None,
        content_blob: Some(data),
        thumbnail_blob: Some(thumbnail),
        content_hash: h,
        mime_type: Some(mime),
        file_size: Some(data.len() as i64),
        width: Some(width),
        height: Some(height),
        source_ip: None,
        created_at: now,
        is_favorite: false,
        is_deleted: false,
    }
}

/// The value of setting `key`, if set.
pub open spec fn config_lookup(config: Seq<ConfigRowView>, key: Seq<char>) -> Option<Seq<char>> {
    if exists|i: int| 0 <= i < config.len() && config[i].key == key {
        Some(config[choose|i: int| 0 <= i < config.len() && config[i].key == key].value)
    } else {
        None
    }
}

impl DbView {
    /// The store's invariant: identifiers increase along the table and never
    /// exceed the counter that hands them out, fingerprints are unique,
    /// setting keys are unique, folders are in strictly increasing sort
    /// order with unique identifiers, and a record is filed at most once in
    /// a folder.
    pub open spec fn wf(self) -> bool {
        &&& 0 <= self.item_seq
        &&& forall|i: int| 0 <= i < self.items.len() ==> 1 <= #[trigger] self.items[i].id <= self.item_seq
        &&& forall|i: int, j: int| 0 <= i < j < self.items.len() ==> self.items[i].id < self.items[j].id
        &&& forall|i: int, j: int|
            0 <= i < self.items.len() && 0 <= j < self.items.len() && i != j
                ==> self.items[i].content_hash != self.items[j].content_hash
        &&& forall|i: int, j: int|
            0 <= i < self.config.len() && 0 <= j < self.config.len() && i != j
                ==> self.config[i].key != self.config[j].key
        &&& 0 <= self.folder_seq
        &&& forall|i: int| 0 <= i < self.folders.len() ==> 1 <= #[trigger] self.folders[i].id <= self.folder_seq
            && 0 <= self.folders[i].sort_order
        &&& forall|i: int, j: int|
            0 <= i < self.folders.len() && 0 <= j < self.folders.len() && i != j
                ==> self.folders[i].id != self.folders[j].id
        &&& forall|i: int, j: int| 0 <= i < j < self.folders.len() ==> self.folders[i].sort_order < self.folders[j].sort_order
        &&& 0 <= self.folder_item_seq
        &&& forall|i: int| 0 <= i < self.folder_items.len() ==> 1 <= #[trigger] self.folder_items[i].id <= self.folder_item_seq
        &&& forall|i: int, j: int|
            0 <= i < self.folder_items.len() && 0 <= j < self.folder_items.len() && i != j
                ==> self.folder_items[i].id != self.folder_items[j].id
                && (self.folder_items[i].folder_id != self.folder_items[j].folder_id
                || self.folder_items[i].item_id != self.folder_items[j].item_id)
    }

    /// An empty store.
    pub open spec fn empty() -> DbView {
        DbView {
            items: Seq::empty(),
            item_seq: 0,
            config: Seq::empty(),
            folders: Seq::empty(),
            folder_seq: 0,
            folder_items: Seq::empty(),
            folder_item_seq: 0,
        }
    }

    /// Adds `text` to the history at time `now`: a text already held (by
    /// fingerprint) is stamped `now`, shown again if it was deleted, and
    /// keeps its identifier; new text gets
    /// the next identifier. Fails when the fingerprint belongs to an image
    /// or no identifier is left.
    pub open spec fn insert_text(self, text: Seq<char>, now: i64) -> (Result<i64, StoreError>, DbView) {
        let h = text_hash(text);
        if has_hash(self.items, h) {
            let i = hash_pos(self.items, h);
            if self.items[i].content_type == ContentType::Text {
                (
                    Ok(self.items[i].id),
                    DbView {
                        items: self.items.update(i, ItemRowView { created_at: now, is_deleted: false, ..self.items[i] }),
                        ..self
                    },
                )
            } else {
                (Err(StoreError::UniqueViolation), self)
            }
        } else if self.item_seq == i64::MAX {
            (Err(StoreError::TableFull), self)
        } else {
            let id = (self.item_seq + 1) as i64;
            (
                Ok(id),
                DbView { items: self.items.push(new_text_row(id, text, h, now)), item_seq: id, ..self },
            )
        }
    }

    /// Adds an image at time `now`: an image already held (by fingerprint of
    /// its bytes) keeps its identifier and is left as it is; a new image gets
    /// the next identifier. Fails when the fingerprint belongs to a text or
    /// no identifier is left.
    pub open spec fn insert_image(
        self,
        data: Seq<u8>,
        thumbnail: Seq<u8>,
        mime: Seq<char>,
        width: i32,
        height: i32,
        now: i64,
    ) -> (Result<i64, StoreError>, DbView) {
        let h = content_hash_of(data);
        if has_hash(self.items, h) {
            let i = hash_pos(self.items, h);
            if self.items[i].content_type == ContentType::Image {
                (Ok(self.items[i].id), self)
            } else {
                (Err(StoreError::UniqueViolation), self)
            }
        } else if self.item_seq == i64::MAX {
            (Err(StoreError::TableFull), self)
        } else {
            let id = (self.item_seq + 1) as i64;
            (
                Ok(id),
                DbView {
                    items: self.items.push(new_image_row(id, data, thumbnail, h, mime, width, height, now)),
                    item_seq: id,
                    ..self
                },
            )
        }
    }

    /// The store after applying `f` to the record with identifier `id`, or
    /// unchanged when there is none.
    pub open spec fn update_item(self, id: i64, f: spec_fn(ItemRowView) -> ItemRowView) -> DbView {
        if has_id(self.items, id) {
            let i = id_pos(self.items, id);
            DbView { items: self.items.update(i, f(self.items[i])), ..self }
        } else {
            self
        }
    }

    /// Whether the last folder already has the largest sort order, so that
    /// no folder can be placed after it.
    pub open spec fn folder_order_exhausted(self) -> bool {
        self.folders.len() > 0 && self.folders.last().sort_order == i32::MAX
    }

    /// Creates a folder named `name` at time `now`, placed after all
    /// others, and returns its identifier; fails when no identifier is left.
    pub open spec fn insert_folder(self, name: Seq<char>, now: i64) -> (Result<i64, StoreError>, DbView) {
        if self.folder_seq == i64::MAX {
            (Err(StoreError::TableFull), self)
        } else {
            let id = (self.folder_seq + 1) as i64;
            let order: i32 = if self.folders.len() == 0 {
                0
            } else {
                (self.folders.last().sort_order + 1) as i32
            };
            (
                Ok(id),
                DbView {
                    folders: self.folders.push(FavoriteFolderView { id, name, sort_order: order, created_at: now }),
                    folder_seq: id,
                    ..self
                },
            )
        }
    }

    /// Creates folders named `names`, in order, stopping at the first
    /// failure.
    pub open spec fn insert_folders(self, names: Seq<Seq<char>>, now: i64) -> (Result<(), StoreError>, DbView)
        decreases names.len(),
    {
        if names.len() == 0 {
            (Ok(()), self)
        } else {
            let (r, v) = self.insert_folder(names[0], now);
            match r {
                Err(e) => (Err(e), v),
                Ok(_) => v.insert_folders(names.drop_first(), now),
            }
        }
    }

    /// Whether some folder has identifier `id`.
    pub open spec fn has_folder(self, id: i64) -> bool {
        exists|i: int| 0 <= i < self.folders.len() && self.folders[i].id == id
    }

    /// The position of the folder with identifier `id`.
    pub open spec fn folder_pos(self, id: i64) -> int {
        choose|i: int| 0 <= i < self.folders.len() && self.folders[i].id == id
    }

    /// Renames the folder with identifier `id`; absent folders are ignored.
    pub open spec fn rename_folder(self, id: i64, name: Seq<char>) -> DbView {
        if self.has_folder(id) {
            let i = self.folder_pos(id);
            DbView { folders: self.folders.update(i, FavoriteFolderView { name, ..self.folders[i] }), ..self }
        } else {
            self
        }
    }

    /// Removes the folder with identifier `id`; absent folders are ignored.
    /// What was filed in it stays filed under its identifier.
    pub open spec fn delete_folder(self, id: i64) -> DbView {
        if self.has_folder(id) {
            DbView { folders: self.folders.remove(self.folder_pos(id)), ..self }
        } else {
            self
        }
    }

    /// Moves the folder at position `old_index` to `new_index` (counted
    /// before the move) and renumbers the sort orders from zero; indices out
    /// of range leave the folders as they are.
    pub open spec fn reorder_folders(self, old_index: int, new_index: int) -> DbView {
        if old_index >= self.folders.len() || new_index > self.folders.len() || old_index < 0 || new_index < 0 {
            self
        } else {
            let moved = move_item(self.folders, old_index, new_index);
            DbView {
                folders: Seq::new(
                    moved.len(),
                    |i: int| FavoriteFolderView { sort_order: i as i32, ..moved[i] },
                ),
                ..self
            }
        }
    }

    /// The largest sort order among the records filed in folder
    /// `folder_id`, or -1 when there are none.
    pub open spec fn max_filing_order(self, folder_id: i64) -> int {
        max_order_in(self.folder_items, folder_id)
    }

    /// Whether a record is filed in folder `folder_id` with the largest sort
    /// order, so that no record can be filed after it.
    pub open spec fn filing_order_exhausted(self, folder_id: i64) -> bool {
        self.max_filing_order(folder_id) == i32::MAX
    }

    /// Files record `item_id` in the folder at position `folder_index` at
    /// time `now`, after what is filed there already. Answers whether a new
    /// filing was made: filing a record twice changes nothing and answers
    /// `false`. Fails when there is no such folder or no identifier is left.
    pub open spec fn add_to_folder(self, folder_index: int, item_id: i64, now: i64) -> (Result<bool, StoreError>, DbView) {
        if folder_index < 0 || folder_index >= self.folders.len() {
            (Err(StoreError::NoSuchRow), self)
        } else {
            let fid = self.folders[folder_index].id;
            if exists|j: int| 0 <= j < self.folder_items.len() && self.folder_items[j].folder_id == fid
                && self.folder_items[j].item_id == item_id {
                (Ok(false), self)
            } else if self.folder_item_seq == i64::MAX {
                (Err(StoreError::TableFull), self)
            } else {
                let id = (self.folder_item_seq + 1) as i64;
                let row = FolderItemRow {
                    id,
                    folder_id: fid,
                    item_id,
                    added_at: now,
                    sort_order: (self.max_filing_order(fid) + 1) as i32,
                };
                (Ok(true), DbView { folder_items: self.folder_items.push(row), folder_item_seq: id, ..self })
            }
        }
    }

    /// Adds `t` as a new text record stamped `at`, unless a text with the
    /// same fingerprint is held already (then nothing changes). Answers
    /// whether a record was added; fails as [`DbView::insert_text`] does
    /// when the fingerprint belongs to an image or no identifier is left.
    pub open spec fn add_new_text(self, t: Seq<char>, at: i64) -> (Result<bool, StoreError>, DbView) {
        let h = text_hash(t);
        if has_hash(self.items, h) && self.items[hash_pos(self.items, h)].content_type == ContentType::Text {
            (Ok(false), self)
        } else {
            let (r, v) = self.insert_text(t, at);
            match r {
                Err(e) => (Err(e), v),
                Ok(_) => (Ok(true), v),
            }
        }
    }

    /// Adds each text of `entries`, stamped with its time, in order as
    /// [`DbView::add_new_text`] does; stops at the first failure, keeping
    /// what was added before it. Returns how many were added.
    pub open spec fn add_new_texts(self, entries: Seq<(Seq<char>, i64)>) -> (Result<nat, StoreError>, DbView)
        decreases entries.len(),
    {
        if entries.len() == 0 {
            (Ok(0), self)
        } else {
            let (r, v) = self.add_new_text(entries[0].0, entries[0].1);
            match r {
                Err(e) => (Err(e), v),
                Ok(added) => {
                    let (r2, v2) = v.add_new_texts(entries.drop_first());
                    (add_to_count(r2, if added { 1 } else { 0 }), v2)
                },
            }
        }
    }

    /// Imports entries of another clipboard manager, each a text and its
    /// date, in order: a text already held as text is skipped, any other is
    /// added as a new record stamped [`ditto_time`]. Returns how many were
    /// added.
    pub open spec fn import_entries(self, entries: Seq<(Seq<char>, i64)>, now: i64) -> (Result<nat, StoreError>, DbView) {
        self.add_new_texts(ditto_stamped(entries, now))
    }

    /// Sets a setting, replacing any earlier value of the key.
    pub open spec fn set_config(self, key: Seq<char>, value: Seq<char>, now: i64) -> DbView {
        let row = ConfigRowView { key, value, updated_at: now };
        if exists|i: int| 0 <= i < self.config.len() && self.config[i].key == key {
            let i = choose|i: int| 0 <= i < self.config.len() && self.config[i].key == key;
            DbView { config: self.config.update(i, row), ..self }
        } else {
            DbView { config: self.config.push(row), ..self }
        }
    }
}

/// Replacing a record by one with the same identifier and fingerprint keeps
/// the invariant.
pub proof fn lemma_wf_update_item(v: DbView, i: int, row: ItemRowView)
    requires
        v.wf(),
        0 <= i < v.items.len(),
        row.id == v.items[i].id,
        row.content_hash == v.items[i].content_hash,
    ensures
        (DbView { items: v.items.update(i, row), ..v }).wf(),
{
    let w = DbView { items: v.items.update(i, row), ..v };
    assert forall|a: int| 0 <= a < w.items.len() implies 1 <= #[trigger] w.items[a].id <= w.item_seq by {
        assert(w.items[a].id == v.items[a].id);
    }
    assert forall|a: int, b: int| 0 <= a < b < w.items.len() implies w.items[a].id < w.items[b].id by {
        assert(w.items[a].id == v.items[a].id && w.items[b].id == v.items[b].id);
    }
    assert forall|a: int, b: int|
        0 <= a < w.items.len() && 0 <= b < w.items.len() && a != b implies w.items[a].content_hash
        != w.items[b].content_hash by {
        assert(w.items[a].content_hash == v.items[a].content_hash);
        assert(w.items[b].content_hash == v.items[b].content_hash);
    }
}

/// Appending a record with the next identifier and a fresh fingerprint keeps
/// the invariant.
pub proof fn lemma_wf_push_item(v: DbView, row: ItemRowView)
    requires
        v.wf(),
        v.item_seq < i64::MAX,
        row.id == v.item_seq + 1,
        !has_hash(v.items, row.content_hash),
    ensures
        (DbView { items: v.items.push(row), item_seq: row.id, ..v }).wf(),
{
    let w = DbView { items: v.items.push(row), item_seq: row.id, ..v };
    assert forall|a: int| 0 <= a < w.items.len() implies 1 <= #[trigger] w.items[a].id <= w.item_seq by {
        if a < v.items.len() {
            assert(w.items[a] == v.items[a]);
        }
    }
    assert forall|a: int, b: int| 0 <= a < b < w.items.len() implies w.items[a].id < w.items[b].id by {
        assert(w.items[a] == v.items[a]);
        if b < v.items.len() {
            assert(w.items[b] == v.items[b]);
        } else {
            assert(1 <= v.items[a].id <= v.item_seq);
        }
    }
    assert forall|a: int, b: int|
        0 <= a < w.items.len() && 0 <= b < w.items.len() && a != b implies w.items[a].content_hash
        != w.items[b].content_hash by {
        if a < v.items.len() && b < v.items.len() {
            assert(w.items[a] == v.items[a] && w.items[b] == v.items[b]);
        } else if a < v.items.len() {
            assert(w.items[a] == v.items[a]);
        } else {
            assert(w.items[b] == v.items[b]);
        }
    }
}

/// Two elements kept by a filter keep their relative order: each pair of
/// positions of the result comes from a pair of increasing positions of the
/// source.
pub proof fn lemma_filter_keeps_order<A>(s: Seq<A>, p: spec_fn(A) -> bool)
    ensures
        forall|a: int, b: int|
            #![trigger s.filter(p)[a], s.filter(p)[b]]
            0 <= a < b < s.filter(p).len() ==> exists|pa: int, pb: int|
                #![trigger s[pa], s[pb]]
                0 <= pa < pb < s.len() && s[pa] == s.filter(p)[a] && s[pb] == s.filter(p)[b],
        forall|a: int| #![trigger s.filter(p)[a]]
            0 <= a < s.filter(p).len() ==> exists|pa: int| #![trigger s[pa]] 0 <= pa < s.len() && s[pa] == s.filter(p)[a],
    decreases s.len(),
{
    reveal(Seq::filter);
    if s.len() > 0 {
        let t = s.drop_last();
        lemma_filter_keeps_order(t, p);
        assert forall|a: int| #![trigger s.filter(p)[a]] 0 <= a < s.filter(p).len() implies exists|pa: int| #![trigger s[pa]] 0 <= pa < s.len() && s[pa] == s.filter(p)[a] by {
            if a < t.filter(p).len() {
                let pa = choose|pa: int| #![trigger t[pa]] 0 <= pa < t.len() && t[pa] == t.filter(p)[a];
                assert(s[pa] == t[pa]);
            } else {
                assert(s[s.len() - 1] == s.filter(p)[a]);
            }
        }
        assert forall|a: int, b: int| #![trigger s.filter(p)[a], s.filter(p)[b]] 0 <= a < b < s.filter(p).len() implies exists|pa: int, pb: int| #![trigger s[pa], s[pb]]
            0 <= pa < pb < s.len() && s[pa] == s.filter(p)[a] && s[pb] == s.filter(p)[b] by {
            if b < t.filter(p).len() {
                let (pa, pb) = choose|pa: int, pb: int| #![trigger t[pa], t[pb]] 0 <= pa < pb < t.len() && t[pa] == t.filter(p)[a] && t[pb] == t.filter(p)[b];
                assert(s[pa] == t[pa] && s[pb] == t[pb]);
            } else {
                assert(s.filter(p) == t.filter(p).push(s.last()));
                let pa = choose|pa: int| #![trigger t[pa]] 0 <= pa < t.len() && t[pa] == t.filter(p)[a];
                assert(s[pa] == t[pa]);
                assert(s[s.len() - 1] == s.filter(p)[b]);
            }
        }
    }
}

/// The image record with identifier `id`, unless it is absent, deleted or
/// not an image.
pub open spec fn image_row(items: Seq<ItemRowView>, id: i64) -> Option<ItemRowView> {
    if has_id(items, id) && items[id_pos(items, id)].content_type == ContentType::Image
        && !items[id_pos(items, id)].is_deleted {
        Some(items[id_pos(items, id)])
    } else {
        None
    }
}

/// The bytes and media type of an image record, when it has both.
pub open spec fn image_data_of(items: Seq<ItemRowView>, id: i64) -> Option<(Seq<u8>, Seq<char>)> {
    match image_row(items, id) {
        Some(r) => match (r.content_blob, r.mime_type) {
            (Some(b), Some(m)) => Some((b, m)),
            _ => None,
        },
        None => None,
    }
}

/// The thumbnail of an image record, when it has one.
pub open spec fn thumbnail_of(items: Seq<ItemRowView>, id: i64) -> Option<Seq<u8>> {
    match image_row(items, id) {
        Some(r) => r.thumbnail_blob,
        None => None,
    }
}

/// The keys by which the history is ordered: the records' times.
pub open spec fn time_keys(items: Seq<ItemRowView>) -> Seq<i64> {
    items.map_values(|r: ItemRowView| r.created_at)
}

/// Which records are shown: those not deleted.
pub open spec fn visible_mask(items: Seq<ItemRowView>) -> Seq<bool> {
    items.map_values(|r: ItemRowView| !r.is_deleted)
}

/// The records at the positions listed in `sel`.
pub open spec fn records_at(items: Seq<ItemRowView>, sel: Seq<usize>) -> Seq<ClipboardItemView> {
    sel.map_values(|k: usize| item_of(items[k as int]))
}

/// The largest pattern, in UTF-8 bytes, that search accepts.
pub const MAX_PATTERN_BYTES: usize = 50000;

/// `a / b` rounded toward zero, for `b > 0`.
pub open spec fn trunc_div(a: int, b: int) -> int {
    if a >= 0 {
        a / b
    } else {
        -((-a) / b)
    }
}

/// The search pattern for `query`: it matches text that holds the query
/// anywhere.
pub open spec fn search_pattern(query: Seq<char>) -> Seq<char> {
    seq!['%'] + query + seq!['%']
}

/// Whether a record matches search pattern `pat`: its text, or, for an
/// image, its size as `WxH`, its width, its height, or its size in KiB with
/// or without the `KB` suffix.
pub open spec fn row_matches(r: ItemRowView, pat: Seq<char>) -> bool {
    ||| (r.content_text matches Some(t) && like_match(pat, t))
    ||| (r.width matches Some(w) && r.height matches Some(h) && like_match(
        pat,
        dec_text(w as int) + seq!['x'] + dec_text(h as int),
    ))
    ||| (r.width matches Some(w) && like_match(pat, dec_text(w as int)))
    ||| (r.height matches Some(h) && like_match(pat, dec_text(h as int)))
    ||| (r.file_size matches Some(f) && like_match(pat, dec_text(trunc_div(f as int, 1024)) + seq!['K', 'B']))
    ||| (r.file_size matches Some(f) && like_match(pat, dec_text(trunc_div(f as int, 1024))))
}

/// Which records a search with pattern `pat` shows.
pub open spec fn search_mask(items: Seq<ItemRowView>, pat: Seq<char>) -> Seq<bool> {
    items.map_values(|r: ItemRowView| !r.is_deleted && row_matches(r, pat))
}

/// The text of an integer, as a character vector.
fn dec_chars(n: i64) -> (r: Vec<char>)
    ensures
        r@ == dec_text(n as int),
{
    let mut v: Vec<char> = Vec::new();
    push_dec_text(n, &mut v);
    assert(v@ =~= dec_text(n as int));
    v
}

/// `f / 1024` rounded toward zero.
fn kib_of(f: i64) -> (r: i64)
    ensures
        r as int == trunc_div(f as int, 1024),
{
    if f >= 0 {
        f / 1024
    } else {
        let m: i128 = -(f as i128);
        (-(m / 1024)) as i64
    }
}

/// Whether `row` matches search pattern `pat`.
pub fn row_matches_exec(row: &ItemRow, pat: &Vec<char>) -> (r: bool)
    ensures
        r == row_matches(row@, pat@),
{
    if let Some(t) = &row.content_text {
        let tc = chars_of(t.as_str());
        if like_matches(pat.as_slice(), tc.as_slice()) {
            return true;
        }
    }
    if let (Some(w), Some(h)) = (row.width, row.height) {
        let mut v = dec_chars(w as i64);
        v.push('x');
        let hv = dec_chars(h as i64);
        let mut k: usize = 0;
        let ghost base = v@;
        while k < hv.len()
            invariant
                k <= hv@.len(),
                v@ == base + hv@.take(k as int),
            decreases hv.len() - k,
        {
            v.push(hv[k]);
            assert(hv@.take(k + 1) =~= hv@.take(k as int).push(hv@[k as int]));
            k = k + 1;
        }
        assert(hv@.take(k as int) =~= hv@);
        assert(v@ =~= dec_text(w as int) + seq!['x'] + dec_text(h as int));
        if like_matches(pat.as_slice(), v.as_slice()) {
            return true;
        }
    }
    if let Some(w) = row.width {
        let v = dec_chars(w as i64);
        if like_matches(pat.as_slice(), v.as_slice()) {
            return true;
        }
    }
    if let Some(h) = row.height {
        let v = dec_chars(h as i64);
        if like_matches(pat.as_slice(), v.as_slice()) {
            return true;
        }
    }
    if let Some(f) = row.file_size {
        let kib = kib_of(f);
        let mut v = dec_chars(kib);
        let plain = dec_chars(kib);
        v.push('K');
        v.push('B');
        assert(v@ =~= dec_text(trunc_div(f as int, 1024)) + seq!['K', 'B']);
        if like_matches(pat.as_slice(), v.as_slice()) {
            return true;
        }
        if like_matches(pat.as_slice(), plain.as_slice()) {
            return true;
        }
    }
    false
}

/// `s` with the element at `from` taken out and put back in at `to`, where
/// `to` counts positions before the element was taken out.
pub open spec fn move_item<A>(s: Seq<A>, from: int, to: int) -> Seq<A> {
    let x = s[from];
    let at = if to > from {
        to - 1
    } else {
        to
    };
    s.remove(from).insert(at, x)
}

/// The largest sort order among the filings of folder `folder_id`, or -1.
pub open spec fn max_order_in(fis: Seq<FolderItemRow>, folder_id: i64) -> int
    decreases fis.len(),
{
    if fis.len() == 0 {
        -1
    } else {
        let rest = max_order_in(fis.drop_last(), folder_id);
        if fis.last().folder_id == folder_id && fis.last().sort_order > rest {
            fis.last().sort_order as int
        } else {
            rest
        }
    }
}

/// The number of filings of folder `folder_id`.
pub open spec fn filing_count(fis: Seq<FolderItemRow>, folder_id: i64) -> nat
    decreases fis.len(),
{
    if fis.len() == 0 {
        0
    } else {
        filing_count(fis.drop_last(), folder_id) + if fis.last().folder_id == folder_id {
            1nat
        } else {
            0nat
        }
    }
}

/// The names of the folders created for a store that has none.
pub open spec fn default_folder_names() -> Seq<Seq<char>> {
    seq![
        "工作"@,
        "代码片段"@,
        "常用链接"@,
        "笔记"@,
        "阅读清单"@,
        "灵感记录"@,
        "项目参考"@,
        "工具脚本"@,
        "API 文档"@,
        "设计素材"@,
        "临时暂存"@,
        "学习资料"@,
    ]
}

/// The keys by which a folder's contents are ordered: filing times.
pub open spec fn filing_keys(fis: Seq<FolderItemRow>) -> Seq<i64> {
    fis.map_values(|f: FolderItemRow| f.added_at)
}

/// Which filings a folder's contents show: those of folder `folder_id`
/// whose record exists and has not been deleted.
pub open spec fn filing_mask(items: Seq<ItemRowView>, fis: Seq<FolderItemRow>, folder_id: i64) -> Seq<bool> {
    fis.map_values(|f: FolderItemRow| f.folder_id == folder_id && visible_item(items, f.item_id) is Some)
}

/// The records of the filings listed in `sel`.
pub open spec fn filed_records(items: Seq<ItemRowView>, fis: Seq<FolderItemRow>, sel: Seq<usize>) -> Seq<ClipboardItemView> {
    sel.map_values(|k: usize| item_of(items[id_pos(items, fis[k as int].item_id)]))
}

/// Changing the folders in a way that keeps their identifiers unique and
/// within the counter, their sort orders non-negative and strictly
/// increasing, keeps the invariant.
pub proof fn lemma_wf_folders(v: DbView, folders: Seq<FavoriteFolderView>, seq: i64)
    requires
        v.wf(),
        v.folder_seq <= seq,
        forall|i: int| 0 <= i < folders.len() ==> 1 <= #[trigger] folders[i].id <= seq && 0 <= folders[i].sort_order,
        forall|i: int, j: int| 0 <= i < folders.len() && 0 <= j < folders.len() && i != j ==> folders[i].id != folders[j].id,
        forall|i: int, j: int| 0 <= i < j < folders.len() ==> folders[i].sort_order < folders[j].sort_order,
    ensures
        (DbView { folders, folder_seq: seq, ..v }).wf(),
{
}

/// In a sequence of non-negative, strictly increasing sort orders, the order
/// at position `a` is at least `a`.
pub proof fn lemma_sorted_orders_at_least_index(fs: Seq<FavoriteFolderView>, a: int)
    requires
        0 <= a < fs.len(),
        forall|i: int| 0 <= i < fs.len() ==> 0 <= #[trigger] fs[i].sort_order,
        forall|i: int, j: int| 0 <= i < j < fs.len() ==> fs[i].sort_order < fs[j].sort_order,
    ensures
        fs[a].sort_order >= a,
    decreases a,
{
    if a > 0 {
        lemma_sorted_orders_at_least_index(fs, a - 1);
    }
}

/// Position `a` of a moved sequence holds the source's element at
/// `move_source`.
pub proof fn lemma_move_item_index<A>(s: Seq<A>, from: int, to: int, a: int)
    requires
        0 <= from < s.len(),
        0 <= to <= s.len(),
        0 <= a < s.len(),
    ensures
        move_item(s, from, to).len() == s.len(),
        ({
            let at = if to > from { to - 1 } else { to };
            &&& 0 <= move_source(s.len() as int, from, at, a) < s.len()
            &&& move_item(s, from, to)[a] == s[move_source(s.len() as int, from, at, a)]
        }),
{
}

/// The source position of position `a` after moving `from` to `at`.
pub open spec fn move_source(n: int, from: int, at: int, a: int) -> int {
    if a == at {
        from
    } else {
        let r = if a < at { a } else { a - 1 };
        if r < from { r } else { r + 1 }
    }
}

/// Distinct positions of a moved sequence come from distinct positions of the
/// source.
pub proof fn lemma_move_item_injective<A>(s: Seq<A>, from: int, to: int, a: int, b: int)
    requires
        0 <= from < s.len(),
        0 <= to <= s.len(),
        0 <= a < s.len(),
        0 <= b < s.len(),
        a != b,
    ensures
        ({
            let at = if to > from { to - 1 } else { to };
            &&& move_item(s, from, to)[a] == s[move_source(s.len() as int, from, at, a)]
            &&& move_item(s, from, to)[b] == s[move_source(s.len() as int, from, at, b)]
            &&& move_source(s.len() as int, from, at, a) != move_source(s.len() as int, from, at, b)
            &&& 0 <= move_source(s.len() as int, from, at, a) < s.len()
            &&& 0 <= move_source(s.len() as int, from, at, b) < s.len()
        }),
{
}

/// The time given to an imported entry stamped `date`: seconds (below
/// 10^12) become milliseconds, milliseconds stay, and a date that is not
/// positive is replaced by `now`.
pub open spec fn ditto_time(date: i64, now: i64) -> i64 {
    if date > 0 {
        if date < 1_000_000_000_000 {
            (date * 1000) as i64
        } else {
            date
        }
    } else {
        now
    }
}

/// Entries of another clipboard manager with each date replaced by the time
/// that the store gives it.
pub open spec fn ditto_stamped(entries: Seq<(Seq<char>, i64)>, now: i64) -> Seq<(Seq<char>, i64)> {
    entries.map_values(|e: (Seq<char>, i64)| (e.0, ditto_time(e.1, now)))
}

/// A count result with `k` added on success.
pub open spec fn add_to_count(r: Result<nat, StoreError>, k: nat) -> Result<nat, StoreError> {
    match r {
        Ok(n) => Ok(n + k),
        Err(e) => Err(e),
    }
}

/// The time given to an imported entry stamped `date`.
pub fn ditto_time_exec(date: i64, now: i64) -> (r: i64)
    ensures
        r == ditto_time(date, now),
{
    if date > 0 {
        if date < 1_000_000_000_000 {
            date * 1000
        } else {
            date
        }
    } else {
        now
    }
}

/// The records that survive clearing the history: the favorites, in order.
pub open spec fn kept_on_clear(items: Seq<ItemRowView>) -> Seq<ItemRowView> {
    items.filter(|x: ItemRowView| x.is_favorite)
}


/// The record handed out for `row`.
pub fn item_to_record(row: &ItemRow) -> (r: ClipboardItem)
    ensures
        r@ == item_of(row@),
{
    ClipboardItem {
        id: row.id,
        content_type: row.content_type,
        content_text: clone_opt_string(&row.content_text),
        content_hash: row.content_hash.clone(),
        mime_type: clone_opt_string(&row.mime_type),
        file_size: row.file_size,
        width: row.width,
        height: row.height,
        source_ip: clone_opt_string(&row.source_ip),
        created_at: row.created_at,
        is_favorite: row.is_favorite,
    }
}

impl Database {
    /// The fingerprint of `content`: the lower-case hex of its SHA-256.
    pub fn compute_hash(content: &[u8]) -> (r: String)
        ensures
            r@ == content_hash_of(content@),
    {
        compute_hash(content)
    }

    /// Whether the record identifiers lie in `1..=item_seq` and increase.
    fn items_ordered(&self) -> (r: bool)
        ensures
            r == ({
                &&& forall|i: int| 0 <= i < self@.items.len() ==> 1 <= #[trigger] self@.items[i].id <= self@.item_seq
                &&& forall|i: int, j: int| 0 <= i < j < self@.items.len() ==> self@.items[i].id < self@.items[j].id
            }),
    {
        let mut k: usize = 0;
        while k < self.items.len()
            invariant
                k <= self@.items.len(),
                forall|i: int| 0 <= i < k ==> 1 <= #[trigger] self@.items[i].id <= self@.item_seq,
                forall|i: int, j: int| 0 <= i < j < k ==> self@.items[i].id < self@.items[j].id,
            decreases self.items.len() - k,
        {
            let id = self.items[k].id;
            assert(self@.items[k as int].id == id);
            if id < 1 || id > self.item_seq {
                return false;
            }
            if k > 0 && self.items[k - 1].id >= id {
                assert(self@.items[k - 1].id >= self@.items[k as int].id);
                return false;
            }
            k = k + 1;
        }
        true
    }

    /// Whether no two records share a fingerprint.
    fn hashes_unique(&self) -> (r: bool)
        ensures
            r == forall|i: int, j: int|
                0 <= i < self@.items.len() && 0 <= j < self@.items.len() && i != j
                    ==> self@.items[i].content_hash != self@.items[j].content_hash,
    {
        let n = self.items.len();
        let mut a: usize = 0;
        while a < n
            invariant
                n == self@.items.len(),
                a <= n,
                forall|i: int, j: int|
                    0 <= i < a && 0 <= j < n && i != j ==> self@.items[i].content_hash != self@.items[j].content_hash,
            decreases n - a,
        {
            let mut b: usize = 0;
            while b < n
                invariant
                    n == self@.items.len(),
                    a < n,
                    b <= n,
                    forall|i: int, j: int|
                        0 <= i < a && 0 <= j < n && i != j ==> self@.items[i].content_hash != self@.items[j].content_hash,
                    forall|j: int| 0 <= j < b && j != a ==> self@.items[a as int].content_hash != self@.items[j].content_hash,
                decreases n - b,
            {
                if b != a && self.items[a].content_hash == self.items[b].content_hash {
                    assert(self@.items[a as int].content_hash == self@.items[b as int].content_hash);
                    return false;
                }
                b = b + 1;
            }
            a = a + 1;
        }
        true
    }

    /// Whether no two settings share a key.
    fn config_keys_unique(&self) -> (r: bool)
        ensures
            r == forall|i: int, j: int|
                0 <= i < self@.config.len() && 0 <= j < self@.config.len() && i != j ==> self@.config[i].key
                    != self@.config[j].key,
    {
        let n = self.config.len();
        let mut a: usize = 0;
        while a < n
            invariant
                n == self@.config.len(),
                a <= n,
                forall|i: int, j: int|
                    0 <= i < a && 0 <= j < n && i != j ==> self@.config[i].key != self@.config[j].key,
            decreases n - a,
        {
            let mut b: usize = 0;
            while b < n
                invariant
                    n == self@.config.len(),
                    a < n,
                    b <= n,
                    forall|i: int, j: int|
                        0 <= i < a && 0 <= j < n && i != j ==> self@.config[i].key != self@.config[j].key,
                    forall|j: int| 0 <= j < b && j != a ==> self@.config[a as int].key != self@.config[j].key,
                decreases n - b,
            {
                if b != a && self.config[a].key == self.config[b].key {
                    assert(self@.config[a as int].key == self@.config[b as int].key);
                    return false;
                }
                b = b + 1;
            }
            a = a + 1;
        }
        true
    }

    /// Whether the folders are well formed: identifiers in
    /// `1..=folder_seq` and distinct, sort orders not negative and
    /// increasing.
    fn folders_ordered(&self) -> (r: bool)
        ensures
            r == ({
                &&& forall|i: int| 0 <= i < self@.folders.len() ==> 1 <= #[trigger] self@.folders[i].id <= self@.folder_seq
                    && 0 <= self@.folders[i].sort_order
                &&& forall|i: int, j: int|
                    0 <= i < self@.folders.len() && 0 <= j < self@.folders.len() && i != j ==> self@.folders[i].id
                        != self@.folders[j].id
                &&& forall|i: int, j: int| 0 <= i < j < self@.folders.len() ==> self@.folders[i].sort_order
                    < self@.folders[j].sort_order
            }),
    {
        let n = self.folders.len();
        let mut k: usize = 0;
        while k < n
            invariant
                n == self@.folders.len(),
                k <= n,
                forall|i: int| 0 <= i < k ==> 1 <= #[trigger] self@.folders[i].id <= self@.folder_seq && 0
                    <= self@.folders[i].sort_order,
                forall|i: int, j: int| 0 <= i < j < k ==> self@.folders[i].sort_order < self@.folders[j].sort_order,
            decreases n - k,
        {
            let f = &self.folders[k];
            assert(self@.folders[k as int].id == f.id && self@.folders[k as int].sort_order == f.sort_order);
            if f.id < 1 || f.id > self.folder_seq || f.sort_order < 0 {
                return false;
            }
            if k > 0 && self.folders[k - 1].sort_order >= f.sort_order {
                assert(self@.folders[k - 1].sort_order >= self@.folders[k as int].sort_order);
                return false;
            }
            assert(k > 0 ==> self@.folders[k - 1].sort_order < self@.folders[k as int].sort_order);
            k = k + 1;
        }
        let mut a: usize = 0;
        while a < n
            invariant
                n == self@.folders.len(),
                a <= n,
                forall|i: int| 0 <= i < n ==> 1 <= #[trigger] self@.folders[i].id <= self@.folder_seq && 0
                    <= self@.folders[i].sort_order,
                forall|i: int, j: int| 0 <= i < j < n ==> self@.folders[i].sort_order < self@.folders[j].sort_order,
                forall|i: int, j: int| 0 <= i < a && 0 <= j < n && i != j ==> self@.folders[i].id != self@.folders[j].id,
            decreases n - a,
        {
            let mut b: usize = 0;
            while b < n
                invariant
                    n == self@.folders.len(),
                    a < n,
                    b <= n,
                    forall|i: int, j: int|
                        0 <= i < a && 0 <= j < n && i != j ==> self@.folders[i].id != self@.folders[j].id,
                    forall|j: int| 0 <= j < b && j != a ==> self@.folders[a as int].id != self@.folders[j].id,
                decreases n - b,
            {
                if b != a && self.folders[a].id == self.folders[b].id {
                    assert(self@.folders[a as int].id == self@.folders[b as int].id);
                    return false;
                }
                b = b + 1;
            }
            a = a + 1;
        }
        true
    }

    /// Whether the filings are well formed: identifiers in
    /// `1..=folder_item_seq`, and no two share an identifier or file the
    /// same record in the same folder.
    fn filings_unique(&self) -> (r: bool)
        ensures
            r == ({
                &&& forall|i: int| 0 <= i < self@.folder_items.len() ==> 1 <= #[trigger] self@.folder_items[i].id
                    <= self@.folder_item_seq
                &&& forall|i: int, j: int|
                    0 <= i < self@.folder_items.len() && 0 <= j < self@.folder_items.len() && i != j
                        ==> self@.folder_items[i].id != self@.folder_items[j].id && (self@.folder_items[i].folder_id
                        != self@.folder_items[j].folder_id || self@.folder_items[i].item_id
                        != self@.folder_items[j].item_id)
            }),
    {
        let n = self.folder_items.len();
        let mut k: usize = 0;
        while k < n
            invariant
                n == self@.folder_items.len(),
                k <= n,
                forall|i: int| 0 <= i < k ==> 1 <= #[trigger] self@.folder_items[i].id <= self@.folder_item_seq,
            decreases n - k,
        {
            if self.folder_items[k].id < 1 || self.folder_items[k].id > self.folder_item_seq {
                assert(self@.folder_items[k as int].id == self.folder_items[k as int].id);
                return false;
            }
            k = k + 1;
        }
        let mut a: usize = 0;
        while a < n
            invariant
                n == self@.folder_items.len(),
                a <= n,
                forall|i: int| 0 <= i < n ==> 1 <= #[trigger] self@.folder_items[i].id <= self@.folder_item_seq,
                forall|i: int, j: int|
                    0 <= i < a && 0 <= j < n && i != j ==> self@.folder_items[i].id != self@.folder_items[j].id && (
                    self@.folder_items[i].folder_id != self@.folder_items[j].folder_id
                        || self@.folder_items[i].item_id != self@.folder_items[j].item_id),
            decreases n - a,
        {
            let mut b: usize = 0;
            while b < n
                invariant
                    n == self@.folder_items.len(),
                    a < n,
                    b <= n,
                    forall|i: int, j: int|
                        0 <= i < a && 0 <= j < n && i != j ==> self@.folder_items[i].id != self@.folder_items[j].id && (
                        self@.folder_items[i].folder_id != self@.folder_items[j].folder_id
                            || self@.folder_items[i].item_id != self@.folder_items[j].item_id),
                    forall|j: int|
                        0 <= j < b && j != a ==> self@.folder_items[a as int].id != self@.folder_items[j].id && (
                        self@.folder_items[a as int].folder_id != self@.folder_items[j].folder_id
                            || self@.folder_items[a as int].item_id != self@.folder_items[j].item_id),
                decreases n - b,
            {
                if b != a {
                    let x = &self.folder_items[a];
                    let y = &self.folder_items[b];
                    if x.id == y.id || (x.folder_id == y.folder_id && x.item_id == y.item_id) {
                        assert(self@.folder_items[a as int] == *x && self@.folder_items[b as int] == *y);
                        return false;
                    }
                }
                b = b + 1;
            }
            a = a + 1;
        }
        true
    }

    /// Whether the store's invariant holds (see [`DbView::wf`]); a store
    /// read back from disk is used only when it does.
    pub fn check_wf(&self) -> (r: bool)
        ensures
            r == self@.wf(),
    {
        self.item_seq >= 0 && self.items_ordered() && self.hashes_unique() && self.config_keys_unique()
            && self.folder_seq >= 0 && self.folders_ordered() && self.folder_item_seq >= 0 && self.filings_unique()
    }

    /// An empty store.
    pub fn new() -> (r: Self)
        ensures
            r@ == DbView::empty(),
            r@.wf(),
    {
        let r = Database {
            items: Vec::new(),
            item_seq: 0,
            config: Vec::new(),
            folders: Vec::new(),
            folder_seq: 0,
            folder_items: Vec::new(),
            folder_item_seq: 0,
        };
        assert(r@.items =~= Seq::empty());
        assert(r@.config =~= Seq::empty());
        assert(r@.folders =~= Seq::empty());
        r
    }

    /// The position of the record with fingerprint `h`, if any.
    pub fn find_hash(&self, h: &String) -> (r: Option<usize>)
        ensures
            r matches Some(i) ==> i < self@.items.len() && self@.items[i as int].content_hash == h@,
            r is None ==> !has_hash(self@.items, h@),
    {
        let mut i: usize = 0;
        while i < self.items.len()
            invariant
                i <= self.items@.len(),
                forall|k: int| 0 <= k < i ==> self@.items[k].content_hash != h@,
            decreases self.items.len() - i,
        {
            if self.items[i].content_hash == *h {
                return Some(i);
            }
            i = i + 1;
        }
        None
    }

    /// The position of the record with identifier `id`, if any.
    pub fn find_id(&self, id: i64) -> (r: Option<usize>)
        ensures
            r matches Some(i) ==> i < self@.items.len() && self@.items[i as int].id == id,
            r is None ==> !has_id(self@.items, id),
    {
        let mut i: usize = 0;
        while i < self.items.len()
            invariant
                i <= self.items@.len(),
                forall|k: int| 0 <= k < i ==> self@.items[k].id != id,
            decreases self.items.len() - i,
        {
            if self.items[i].id == id {
                return Some(i);
            }
            i = i + 1;
        }
        None
    }

    /// Adds `text` to the history at time `now` (see [`DbView::insert_text`])
    /// and returns the record's identifier.
    pub fn insert_text(&mut self, text: &str, now: i64) -> (r: Result<i64, StoreError>)
        requires
            old(self)@.wf(),
        ensures
            final(self)@.wf(),
            (r, final(self)@) == old(self)@.insert_text(text@, now),
    {
        let hash = compute_hash(text.as_bytes());
        let ghost h = text_hash(text@);
        assert(hash@ == h);
        match self.find_hash(&hash) {
            Some(i) => {
                assert(self@.items[hash_pos(self@.items, h) as int].content_hash == h);
                assert(hash_pos(self@.items, h) == i);
                if self.items[i].content_type == ContentType::Text {
                    self.items[i].created_at = now;
                    self.items[i].is_deleted = false;
                    let ghost prev = old(self)@.items[i as int];
                    let ghost row = ItemRowView { created_at: now, is_deleted: false, ..prev };
                    assert(self@.items =~= old(self)@.items.update(i as int, row));
                    proof {
                        lemma_wf_update_item(old(self)@, i as int, row);
                    }
                    Ok(self.items[i].id)
                } else {
                    Err(StoreError::UniqueViolation)
                }
            },
            None => {
                if self.item_seq == i64::MAX {
                    return Err(StoreError::TableFull);
                }
                let id = self.item_seq + 1;
                let row = ItemRow {
                    id,
                    content_type: ContentType::Text,
                    content_text: Some(text.to_owned()),
                    content_blob: None,
                    thumbnail_blob: None,
                    content_hash: hash,
                    mime_type: None,
                    file_size: None,
                    width: None,
                    height: None,
                    source_ip: None,
                    created_at: now,
                    is_favorite: false,
                    is_deleted: false,
                };
                self.items.push(row);
                self.item_seq = id;
                assert(self@.items =~= old(self)@.items.push(new_text_row(id, text@, h, now)));
                proof {
                    lemma_wf_push_item(old(self)@, new_text_row(id, text@, h, now));
                }
                Ok(id)
            },
        }
    }

    /// Adds an image at time `now` (see [`DbView::insert_image`]) and
    /// returns the record's identifier.
    pub fn insert_image(
        &mut self,
        image_data: &[u8],
        thumbnail_data: &[u8],
        mime_type: &str,
        width: i32,
        height: i32,
        now: i64,
    ) -> (r: Result<i64, StoreError>)
        requires
            old(self)@.wf(),
            image_data@.len() <= i64::MAX,
        ensures
            final(self)@.wf(),
            (r, final(self)@) == old(self)@.insert_image(
                image_data@,
                thumbnail_data@,
                mime_type@,
                width,
                height,
                now,
            ),
    {
        let hash = compute_hash(image_data);
        let ghost h = content_hash_of(image_data@);
        match self.find_hash(&hash) {
            Some(i) => {
                assert(self@.items[hash_pos(self@.items, h) as int].content_hash == h);
                if self.items[i].content_type == ContentType::Image {
                    Ok(self.items[i].id)
                } else {
                    Err(StoreError::UniqueViolation)
                }
            },
            None => {
                if self.item_seq == i64::MAX {
                    return Err(StoreError::TableFull);
                }
                let id = self.item_seq + 1;
                let data = vstd::slice::slice_to_vec(image_data);
                let thumb = vstd::slice::slice_to_vec(thumbnail_data);
                let row = ItemRow {
                    id,
                    content_type: ContentType::Image,
                    content_text: None,
                    content_blob: Some(data),
                    thumbnail_blob: Some(thumb),
                    content_hash: hash,
                    mime_type: Some(mime_type.to_owned()),
                    file_size: Some(image_data.len() as i64),
                    width: Some(width),
                    height: Some(height),
                    source_ip: None,
                    created_at: now,
                    is_favorite: false,
                    is_deleted: false,
                };
                self.items.push(row);
                self.item_seq = id;
                assert(self@.items =~= old(self)@.items.push(
                    new_image_row(id, image_data@, thumbnail_data@, h, mime_type@, width, height, now),
                ));
                proof {
                    lemma_wf_push_item(
                        old(self)@,
                        new_image_row(id, image_data@, thumbnail_data@, h, mime_type@, width, height, now),
                    );
                }
                Ok(id)
            },
        }
    }

    /// The record with identifier `id`, unless it is absent or deleted.
    pub fn get_item(&self, id: i64) -> (r: Result<Option<ClipboardItem>, StoreError>)
        requires
            self@.wf(),
        ensures
            r matches Ok(o) && match (o, visible_item(self@.items, id)) {
                (Some(a), Some(b)) => a@ == b,
                (None, None) => true,
                _ => false,
            },
    {
        match self.find_id(id) {
            Some(i) => {
                assert(id_pos(self@.items, id) == i);
                if self.items[i].is_deleted {
                    Ok(None)
                } else {
                    Ok(Some(item_to_record(&self.items[i])))
                }
            },
            None => Ok(None),
        }
    }

    /// Marks the record with identifier `id` as deleted; absent records are
    /// ignored.
    pub fn delete(&mut self, id: i64) -> (r: Result<(), StoreError>)
        requires
            old(self)@.wf(),
        ensures
            final(self)@.wf(),
            r is Ok,
            final(self)@ == old(self)@.update_item(id, |x: ItemRowView| ItemRowView { is_deleted: true, ..x }),
    {
        if let Some(i) = self.find_id(id) {
            assert(id_pos(self@.items, id) == i);
            self.items[i].is_deleted = true;
            let ghost prev = old(self)@.items[i as int];
            assert(self@.items =~= old(self)@.items.update(i as int, ItemRowView { is_deleted: true, ..prev }));
            proof {
                lemma_wf_update_item(old(self)@, i as int, ItemRowView { is_deleted: true, ..prev });
            }
        }
        Ok(())
    }

    /// Flips the favorite mark of the record with identifier `id` (deleted
    /// or not) and returns the new mark; fails when there is no such record.
    pub fn toggle_favorite(&mut self, id: i64) -> (r: Result<bool, StoreError>)
        requires
            old(self)@.wf(),
        ensures
            final(self)@.wf(),
            has_id(old(self)@.items, id) ==> r == Ok::<bool, StoreError>(
                !old(self)@.items[id_pos(old(self)@.items, id)].is_favorite,
            ),
            !has_id(old(self)@.items, id) ==> r == Err::<bool, StoreError>(StoreError::NoSuchRow),
            final(self)@ == old(self)@.update_item(id, |x: ItemRowView| ItemRowView { is_favorite: !x.is_favorite, ..x }),
    {
        match self.find_id(id) {
            Some(i) => {
                assert(id_pos(self@.items, id) == i);
                let v = !self.items[i].is_favorite;
                self.items[i].is_favorite = v;
                let ghost prev = old(self)@.items[i as int];
                assert(self@.items =~= old(self)@.items.update(i as int, ItemRowView { is_favorite: v, ..prev }));
                proof {
                    lemma_wf_update_item(old(self)@, i as int, ItemRowView { is_favorite: v, ..prev });
                }
            proof {
                lemma_wf_update_item(old(self)@, i as int, ItemRowView { is_favorite: v, ..prev });
            }
                Ok(v)
            },
            None => Err(StoreError::NoSuchRow),
        }
    }

    /// Stamps the record with identifier `id` with time `now`; absent
    /// records are ignored.
    pub fn update_item_created_at(&mut self, id: i64, now: i64) -> (r: Result<(), StoreError>)
        requires
            old(self)@.wf(),
        ensures
            final(self)@.wf(),
            r is Ok,
            final(self)@ == old(self)@.update_item(id, |x: ItemRowView| ItemRowView { created_at: now, ..x }),
    {
        if let Some(i) = self.find_id(id) {
            assert(id_pos(self@.items, id) == i);
            self.items[i].created_at = now;
            let ghost prev = old(self)@.items[i as int];
            assert(self@.items =~= old(self)@.items.update(i as int, ItemRowView { created_at: now, ..prev }));
            proof {
                lemma_wf_update_item(old(self)@, i as int, ItemRowView { created_at: now, ..prev });
            }
        }
        Ok(())
    }

    /// The number of records that have not been deleted.
    pub fn count(&self) -> (r: Result<usize, StoreError>)
        ensures
            r matches Ok(n) && n as int == visible_count(self@.items),
            visible_count(self@.items) <= self@.items.len(),
    {
        let mut n: usize = 0;
        let mut i: usize = 0;
        while i < self.items.len()
            invariant
                i <= self.items@.len(),
                n == visible_count(self@.items.take(i as int)),
                n <= i,
            decreases self.items.len() - i,
        {
            assert(self@.items.take(i + 1).drop_last() =~= self@.items.take(i as int));
            if !self.items[i].is_deleted {
                n = n + 1;
            }
            i = i + 1;
        }
        assert(self@.items.take(i as int) =~= self@.items);
        Ok(n)
    }

    /// Removes every record that is not a favorite, deleted or not, and
    /// returns how many were removed.
    pub fn clear_non_favorites(&mut self) -> (r: Result<usize, StoreError>)
        requires
            old(self)@.wf(),
        ensures
            final(self)@.wf(),
            final(self)@ == (DbView { items: kept_on_clear(old(self)@.items), ..old(self)@ }),
            r matches Ok(n) && n as int == old(self)@.items.len() - final(self)@.items.len(),
            final(self)@.items.len() <= old(self)@.items.len(),
    {
        let ghost orig = self@.items;
        let ghost orig_rows = self.items@;
        let mut items: Vec<ItemRow> = Vec::new();
        std::mem::swap(&mut items, &mut self.items);
        let n = items.len();
        let mut rev: Vec<ItemRow> = Vec::new();
        while items.len() > 0
            invariant
                items@.len() + rev@.len() == n,
                n == orig_rows.len(),
                forall|k: int| 0 <= k < items@.len() ==> items@[k] == orig_rows[k],
                forall|k: int| 0 <= k < rev@.len() ==> rev@[k] == orig_rows[n - 1 - k],
            decreases items.len(),
        {
            let row = items.pop().unwrap();
            rev.push(row);
        }
        let mut kept: Vec<ItemRow> = Vec::new();
        let mut removed: usize = 0;
        while rev.len() > 0
            invariant
                rev@.len() <= n,
                n == orig_rows.len(),
                orig == orig_rows.map_values(|r: ItemRow| r@),
                forall|k: int| 0 <= k < rev@.len() ==> rev@[k] == orig_rows[n - 1 - k],
                kept@.map_values(|r: ItemRow| r@) == orig.take(n - rev@.len()).filter(|x: ItemRowView| x.is_favorite),
                removed + kept@.len() == n - rev@.len(),
            decreases rev.len(),
        {
            let j = n - rev.len();
            let row = rev.pop().unwrap();
            assert(row == orig_rows[j as int]);
            reveal(Seq::filter);
            assert(orig.take(j + 1).drop_last() =~= orig.take(j as int));
            assert(orig.take(j + 1).last() == row@);
            if row.is_favorite {
                kept.push(row);
                assert(kept@.map_values(|r: ItemRow| r@) =~= orig.take(j as int).filter(|x: ItemRowView| x.is_favorite).push(row@));
            } else {
                removed = removed + 1;
            }
        }
        assert(orig.take(n as int) =~= orig);
        self.items = kept;
        proof {
            let v = old(self)@;
            let w = self@;
            assert(w.items == v.items.filter(|x: ItemRowView| x.is_favorite));
            lemma_filter_keeps_order(v.items, |x: ItemRowView| x.is_favorite);
            assert forall|a: int| 0 <= a < w.items.len() implies 1 <= #[trigger] w.items[a].id <= w.item_seq by {
                    let pa = choose|pa: int| #![trigger v.items[pa]] 0 <= pa < v.items.len() && v.items[pa] == w.items[a];
            }
            assert forall|a: int, b: int| 0 <= a < b < w.items.len() implies w.items[a].id < w.items[b].id by {
                let (pa, pb) = choose|pa: int, pb: int| #![trigger v.items[pa], v.items[pb]] 0 <= pa < pb < v.items.len() && v.items[pa] == w.items[a] && v.items[pb] == w.items[b];
            }
            assert forall|a: int, b: int|
                0 <= a < w.items.len() && 0 <= b < w.items.len() && a != b implies w.items[a].content_hash
                != w.items[b].content_hash by {
                if a < b {
                    let (pa, pb) = choose|pa: int, pb: int| #![trigger v.items[pa], v.items[pb]] 0 <= pa < pb < v.items.len() && v.items[pa] == w.items[a] && v.items[pb] == w.items[b];
                } else {
                    let (pa, pb) = choose|pa: int, pb: int| #![trigger v.items[pa], v.items[pb]] 0 <= pa < pb < v.items.len() && v.items[pa] == w.items[b] && v.items[pb] == w.items[a];
                }
            }
        }
        proof {
            old(self)@.items.lemma_filter_len(|x: ItemRowView| x.is_favorite);
        }
        Ok(removed)
    }

    /// The value of setting `key`, if set.
    pub fn get_config(&self, key: &str) -> (r: Result<Option<String>, StoreError>)
        requires
            self@.wf(),
        ensures
            r matches Ok(o) && opt_str(o) == config_lookup(self@.config, key@),
    {
        let k = key.to_owned();
        let mut i: usize = 0;
        while i < self.config.len()
            invariant
                i <= self.config@.len(),
                k@ == key@,
                self@.wf(),
                forall|j: int| 0 <= j < i ==> self@.config[j].key != key@,
            decreases self.config.len() - i,
        {
            if self.config[i].key == k {
                assert(self@.config[i as int].key == key@);
                let ghost c = choose|j: int| 0 <= j < self@.config.len() && self@.config[j].key == key@;
                assert(c == i);
                return Ok(Some(self.config[i].value.clone()));
            }
            i = i + 1;
        }
        Ok(None)
    }

    /// Sets setting `key` to `value` at time `now`, replacing any earlier
    /// value.
    pub fn set_config(&mut self, key: &str, value: &str, now: i64) -> (r: Result<(), StoreError>)
        requires
            old(self)@.wf(),
        ensures
            final(self)@.wf(),
            r is Ok,
            final(self)@ == old(self)@.set_config(key@, value@, now),
    {
        let k = key.to_owned();
        let row = ConfigRow { key: key.to_owned(), value: value.to_owned(), updated_at: now };
        let ghost rv = ConfigRowView { key: key@, value: value@, updated_at: now };
        let found = self.find_config(&k);
        let ghost pre = self.config@;
        let ghost v = self@;
        match found {
            Some(i) => {
                assert(v.config[i as int].key == key@);
                let ghost c = choose|j: int| 0 <= j < v.config.len() && v.config[j].key == key@;
                assert(c == i);
                self.config.set(i, row);
                assert(self@.config =~= v.config.update(i as int, rv));
                proof {
                    let w = self@;
                    assert forall|a: int, b: int|
                        0 <= a < w.config.len() && 0 <= b < w.config.len() && a != b implies w.config[a].key
                        != w.config[b].key by {
                        assert(w.config[a].key == v.config[a].key);
                        assert(w.config[b].key == v.config[b].key);
                    }
                    assert(w.items == v.items);
                    assert(w.folders == v.folders);
                    assert(w.folder_items == v.folder_items);
                    assert(w.wf());
                }
            },
            None => {
                self.config.push(row);
                assert(self@.config =~= v.config.push(rv));
                proof {
                    let w = self@;
                    assert forall|a: int, b: int|
                        0 <= a < w.config.len() && 0 <= b < w.config.len() && a != b implies w.config[a].key
                        != w.config[b].key by {
                        if a < v.config.len() {
                            assert(w.config[a] == v.config[a]);
                        }
                        if b < v.config.len() {
                            assert(w.config[b] == v.config[b]);
                        }
                    }
                    assert(w.items == v.items);
                    assert(w.folders == v.folders);
                    assert(w.folder_items == v.folder_items);
                    assert(w.wf());
                }
            },
        }
        Ok(())
    }

    /// The position of setting `key`, if set.
    pub fn find_config(&self, key: &String) -> (r: Option<usize>)
        ensures
            r matches Some(i) ==> i < self@.config.len() && self@.config[i as int].key == key@,
            r is None ==> forall|j: int| 0 <= j < self@.config.len() ==> self@.config[j].key != key@,
    {
        let mut i: usize = 0;
        while i < self.config.len()
            invariant
                i <= self.config@.len(),
                forall|j: int| 0 <= j < i ==> self@.config[j].key != key@,
            decreases self.config.len() - i,
        {
            if self.config[i].key == *key {
                return Some(i);
            }
            i = i + 1;
        }
        None
    }

    /// The bytes and media type of the image record with identifier `id`,
    /// unless it is absent, deleted, not an image, or lacks either.
    pub fn get_image_data(&self, id: i64) -> (r: Result<Option<(Vec<u8>, String)>, StoreError>)
        requires
            self@.wf(),
        ensures
            r matches Ok(o) && match (o, image_data_of(self@.items, id)) {
                (Some((b, m)), Some((vb, vm))) => b@ == vb && m@ == vm,
                (None, None) => true,
                _ => false,
            },
    {
        match self.find_id(id) {
            Some(i) => {
                assert(id_pos(self@.items, id) == i);
                let row = &self.items[i];
                if row.content_type != ContentType::Image || row.is_deleted {
                    return Ok(None);
                }
                match (&row.content_blob, &row.mime_type) {
                    (Some(b), Some(m)) => Ok(Some((vstd::slice::slice_to_vec(b.as_slice()), m.clone()))),
                    _ => Ok(None),
                }
            },
            None => Ok(None),
        }
    }

    /// The thumbnail of the image record with identifier `id`, unless it is
    /// absent, deleted, not an image, or has none.
    pub fn get_thumbnail_data(&self, id: i64) -> (r: Result<Option<Vec<u8>>, StoreError>)
        requires
            self@.wf(),
        ensures
            r matches Ok(o) && opt_bytes(o) == thumbnail_of(self@.items, id),
    {
        match self.find_id(id) {
            Some(i) => {
                assert(id_pos(self@.items, id) == i);
                let row = &self.items[i];
                if row.content_type != ContentType::Image || row.is_deleted {
                    return Ok(None);
                }
                Ok(clone_opt_bytes(&row.thumbnail_blob))
            },
            None => Ok(None),
        }
    }

    /// Hands out the records at the positions listed in `sel`.
    fn records_at_exec(&self, sel: &Vec<usize>) -> (r: Vec<ClipboardItem>)
        requires
            forall|i: int| 0 <= i < sel@.len() ==> (#[trigger] sel@[i]) < self@.items.len(),
        ensures
            r@.map_values(|c: ClipboardItem| c@) == records_at(self@.items, sel@),
    {
        let mut out: Vec<ClipboardItem> = Vec::new();
        let mut i: usize = 0;
        while i < sel.len()
            invariant
                i <= sel@.len(),
                forall|k: int| 0 <= k < sel@.len() ==> (#[trigger] sel@[k]) < self@.items.len(),
                out@.map_values(|c: ClipboardItem| c@) == records_at(self@.items, sel@.take(i as int)),
            decreases sel.len() - i,
        {
            let rec = item_to_record(&self.items[sel[i]]);
            let ghost prev = out@;
            out.push(rec);
            assert(sel@.take(i + 1) =~= sel@.take(i as int).push(sel@[i as int]));
            assert(out@ == prev.push(rec));
            assert(out@.map_values(|c: ClipboardItem| c@) =~= prev.map_values(|c: ClipboardItem| c@).push(rec@));
            assert(records_at(self@.items, sel@.take(i + 1)) =~= records_at(self@.items, sel@.take(i as int)).push(item_of(self@.items[sel@[i as int] as int])));
            i = i + 1;
        }
        assert(sel@.take(i as int) =~= sel@);
        out
    }

    /// The times of all records, in table order.
    fn time_keys_exec(&self) -> (r: Vec<i64>)
        ensures
            r@ == time_keys(self@.items),
    {
        let mut keys: Vec<i64> = Vec::new();
        let mut i: usize = 0;
        while i < self.items.len()
            invariant
                i <= self.items@.len(),
                keys@ == time_keys(self@.items).take(i as int),
            decreases self.items.len() - i,
        {
            keys.push(self.items[i].created_at);
            assert(time_keys(self@.items).take(i + 1) =~= time_keys(self@.items).take(i as int).push(self.items@[i as int].created_at));
            i = i + 1;
        }
        assert(time_keys(self@.items).take(i as int) =~= time_keys(self@.items));
        keys
    }

    /// The newest (or, with `ascending`, the oldest) `limit` records that
    /// have not been deleted, ordered by time; records with equal times may
    /// come in any order.
    pub fn get_history(&self, limit: usize, ascending: bool) -> (r: Result<Vec<ClipboardItem>, StoreError>)
        requires
            self@.wf(),
        ensures
            r matches Ok(v) && exists|sel: Seq<usize>|
                is_ordered_selection(time_keys(self@.items), visible_mask(self@.items), limit as int, ascending, sel)
                    && v@.map_values(|c: ClipboardItem| c@) == records_at(self@.items, sel),
    {
        let keys = self.time_keys_exec();
        let mut mask: Vec<bool> = Vec::new();
        let mut i: usize = 0;
        while i < self.items.len()
            invariant
                i <= self.items@.len(),
                mask@ == visible_mask(self@.items).take(i as int),
            decreases self.items.len() - i,
        {
            mask.push(!self.items[i].is_deleted);
            assert(visible_mask(self@.items).take(i + 1) =~= visible_mask(self@.items).take(i as int).push(!self.items@[i as int].is_deleted));
            i = i + 1;
        }
        assert(visible_mask(self@.items).take(i as int) =~= visible_mask(self@.items));
        let sel = select_ordered(&keys, &mask, limit, ascending);
        let out = self.records_at_exec(&sel);
        Ok(out)
    }

    /// Like [`Database::get_history`], restricted to records that match
    /// `query` (see [`row_matches`] and [`search_pattern`]). Fails when the
    /// pattern is longer than [`MAX_PATTERN_BYTES`] and some record is
    /// shown at all.
    pub fn search_history(&self, query: &str, limit: usize, ascending: bool) -> (r: Result<Vec<ClipboardItem>, StoreError>)
        requires
            self@.wf(),
        ensures
            utf8_len(search_pattern(query@)) > MAX_PATTERN_BYTES && visible_count(self@.items) > 0
                ==> r == Err::<Vec<ClipboardItem>, StoreError>(StoreError::PatternTooComplex),
            !(utf8_len(search_pattern(query@)) > MAX_PATTERN_BYTES && visible_count(self@.items) > 0)
                ==> (r matches Ok(v) && exists|sel: Seq<usize>|
                is_ordered_selection(
                    time_keys(self@.items),
                    search_mask(self@.items, search_pattern(query@)),
                    limit as int,
                    ascending,
                    sel,
                ) && v@.map_values(|c: ClipboardItem| c@) == records_at(self@.items, sel)),
    {
        let q = chars_of(query);
        let mut pat: Vec<char> = Vec::new();
        pat.push('%');
        let mut k: usize = 0;
        while k < q.len()
            invariant
                k <= q@.len(),
                pat@ == seq!['%'] + q@.take(k as int),
            decreases q.len() - k,
        {
            pat.push(q[k]);
            assert(q@.take(k + 1) =~= q@.take(k as int).push(q@[k as int]));
            k = k + 1;
        }
        pat.push('%');
        assert(q@.take(k as int) =~= q@);
        assert(pat@ =~= search_pattern(query@));
        let too_long = match utf8_len_of(pat.as_slice()) {
            Some(b) => b > MAX_PATTERN_BYTES,
            None => true,
        };
        if too_long {
            let visible = self.count();
            if let Ok(c) = visible {
                if c > 0 {
                    return Err(StoreError::PatternTooComplex);
                }
            }
        }
        let keys = self.time_keys_exec();
        let mut mask: Vec<bool> = Vec::new();
        let mut i: usize = 0;
        while i < self.items.len()
            invariant
                i <= self.items@.len(),
                pat@ == search_pattern(query@),
                mask@ == search_mask(self@.items, pat@).take(i as int),
            decreases self.items.len() - i,
        {
            let m = !self.items[i].is_deleted && row_matches_exec(&self.items[i], &pat);
            mask.push(m);
            assert(search_mask(self@.items, pat@).take(i + 1) =~= search_mask(self@.items, pat@).take(i as int).push(m));
            i = i + 1;
        }
        assert(search_mask(self@.items, pat@).take(i as int) =~= search_mask(self@.items, pat@));
        let sel = select_ordered(&keys, &mask, limit, ascending);
        let out = self.records_at_exec(&sel);
        Ok(out)
    }

    /// All folders, in sort order.
    pub fn get_favorite_folders(&self) -> (r: Result<Vec<FavoriteFolder>, StoreError>)
        ensures
            r matches Ok(v) && v@.map_values(|f: FavoriteFolder| f@) == self@.folders,
    {
        let mut out: Vec<FavoriteFolder> = Vec::new();
        let mut i: usize = 0;
        while i < self.folders.len()
            invariant
                i <= self.folders@.len(),
                out@.map_values(|f: FavoriteFolder| f@) == self@.folders.take(i as int),
            decreases self.folders.len() - i,
        {
            let f = &self.folders[i];
            let rec = FavoriteFolder { id: f.id, name: f.name.clone(), sort_order: f.sort_order, created_at: f.created_at };
            let ghost prev = out@;
            out.push(rec);
            assert(out@.map_values(|f: FavoriteFolder| f@) =~= prev.map_values(|f: FavoriteFolder| f@).push(rec@));
            assert(self@.folders.take(i + 1) =~= self@.folders.take(i as int).push(self@.folders[i as int]));
            i = i + 1;
        }
        assert(self@.folders.take(i as int) =~= self@.folders);
        Ok(out)
    }

    /// The number of folders.
    pub fn get_favorite_folder_count(&self) -> (r: Result<usize, StoreError>)
        ensures
            r == Ok::<usize, StoreError>(self@.folders.len() as usize),
    {
        Ok(self.folders.len())
    }

    /// Whether no folder can be placed after the last one (see
    /// [`DbView::folder_order_exhausted`]).
    pub fn folder_order_exhausted(&self) -> (r: bool)
        ensures
            r == self@.folder_order_exhausted(),
    {
        self.folders.len() > 0 && self.folders[self.folders.len() - 1].sort_order == i32::MAX
    }

    /// Creates a folder named `name` at time `now` (see
    /// [`DbView::insert_folder`]).
    pub fn insert_favorite_folder(&mut self, name: &str, now: i64) -> (r: Result<i64, StoreError>)
        requires
            old(self)@.wf(),
            !old(self)@.folder_order_exhausted(),
        ensures
            final(self)@.wf(),
            (r, final(self)@) == old(self)@.insert_folder(name@, now),
    {
        let order: i32 = if self.folders.len() == 0 {
            0
        } else {
            self.folders[self.folders.len() - 1].sort_order + 1
        };
        if self.folder_seq == i64::MAX {
            return Err(StoreError::TableFull);
        }
        let id = self.folder_seq + 1;
        let ghost v = self@;
        self.folders.push(FolderRow { id, name: name.to_owned(), sort_order: order, created_at: now });
        self.folder_seq = id;
        let ghost nf = FavoriteFolderView { id, name: name@, sort_order: order, created_at: now };
        assert(self@.folders =~= v.folders.push(nf));
        proof {
            let fs = v.folders.push(nf);
            if v.folders.len() > 0 {
                assert(v.folders[v.folders.len() - 1].id >= 1);
            }
            assert forall|i: int| 0 <= i < fs.len() implies 1 <= #[trigger] fs[i].id <= id && 0 <= fs[i].sort_order by {
                if i < v.folders.len() {
                    assert(fs[i] == v.folders[i]);
                    assert(v.folders[i].id >= 1);
                }
            }
            assert forall|i: int, j: int| 0 <= i < fs.len() && 0 <= j < fs.len() && i != j implies fs[i].id != fs[j].id by {
                if i < v.folders.len() {
                    assert(fs[i] == v.folders[i]);
                }
                if j < v.folders.len() {
                    assert(fs[j] == v.folders[j]);
                }
            }
            assert forall|i: int, j: int| 0 <= i < j < fs.len() implies fs[i].sort_order < fs[j].sort_order by {
                assert(fs[i] == v.folders[i]);
                if j < v.folders.len() {
                    assert(fs[j] == v.folders[j]);
                } else if i < v.folders.len() - 1 {
                    assert(v.folders[i].sort_order < v.folders[v.folders.len() - 1].sort_order);
                }
            }
            lemma_wf_folders(v, fs, id);
        }
        Ok(id)
    }

    /// The position of the folder with identifier `id`, if any.
    fn find_folder(&self, id: i64) -> (r: Option<usize>)
        ensures
            r matches Some(i) ==> i < self@.folders.len() && self@.folders[i as int].id == id,
            r is None ==> !self@.has_folder(id),
    {
        let mut i: usize = 0;
        while i < self.folders.len()
            invariant
                i <= self.folders@.len(),
                forall|k: int| 0 <= k < i ==> self@.folders[k].id != id,
            decreases self.folders.len() - i,
        {
            if self.folders[i].id == id {
                return Some(i);
            }
            i = i + 1;
        }
        None
    }

    /// Renames the folder with identifier `id`; absent folders are ignored.
    pub fn rename_favorite_folder(&mut self, id: i64, name: &str) -> (r: Result<(), StoreError>)
        requires
            old(self)@.wf(),
        ensures
            final(self)@.wf(),
            r is Ok,
            final(self)@ == old(self)@.rename_folder(id, name@),
    {
        if let Some(i) = self.find_folder(id) {
            let ghost v = self@;
            assert(v.folder_pos(id) == i);
            self.folders[i].name = name.to_owned();
            let ghost nf = FavoriteFolderView { name: name@, ..v.folders[i as int] };
            assert(self@.folders =~= v.folders.update(i as int, nf));
            proof {
                let fs = v.folders.update(i as int, nf);
                assert forall|a: int| 0 <= a < fs.len() implies 1 <= #[trigger] fs[a].id <= v.folder_seq && 0 <= fs[a].sort_order by {
                    assert(fs[a].id == v.folders[a].id && fs[a].sort_order == v.folders[a].sort_order);
                }
                assert forall|a: int, b: int| 0 <= a < fs.len() && 0 <= b < fs.len() && a != b implies fs[a].id != fs[b].id by {
                    assert(fs[a].id == v.folders[a].id && fs[b].id == v.folders[b].id);
                }
                assert forall|a: int, b: int| 0 <= a < b < fs.len() implies fs[a].sort_order < fs[b].sort_order by {
                    assert(fs[a].sort_order == v.folders[a].sort_order && fs[b].sort_order == v.folders[b].sort_order);
                }
                lemma_wf_folders(v, fs, v.folder_seq);
            }
        }
        Ok(())
    }

    /// Removes the folder with identifier `id`; absent folders are ignored.
    pub fn delete_favorite_folder(&mut self, id: i64) -> (r: Result<(), StoreError>)
        requires
            old(self)@.wf(),
        ensures
            final(self)@.wf(),
            r is Ok,
            final(self)@ == old(self)@.delete_folder(id),
    {
        if let Some(i) = self.find_folder(id) {
            let ghost v = self@;
            assert(v.folder_pos(id) == i);
            self.folders.remove(i);
            assert(self@.folders =~= v.folders.remove(i as int));
            proof {
                let fs = v.folders.remove(i as int);
                assert forall|a: int| 0 <= a < fs.len() implies 1 <= #[trigger] fs[a].id <= v.folder_seq && 0 <= fs[a].sort_order by {
                    if a < i {
                        assert(fs[a] == v.folders[a]);
                    } else {
                        assert(fs[a] == v.folders[a + 1]);
                    }
                }
                assert forall|a: int, b: int| 0 <= a < fs.len() && 0 <= b < fs.len() && a != b implies fs[a].id != fs[b].id by {
                    let pa = if a < i { a } else { a + 1 };
                    let pb = if b < i { b } else { b + 1 };
                    assert(fs[a] == v.folders[pa] && fs[b] == v.folders[pb]);
                }
                assert forall|a: int, b: int| 0 <= a < b < fs.len() implies fs[a].sort_order < fs[b].sort_order by {
                    let pa = if a < i { a } else { a + 1 };
                    let pb = if b < i { b } else { b + 1 };
                    assert(fs[a] == v.folders[pa] && fs[b] == v.folders[pb]);
                }
                lemma_wf_folders(v, fs, v.folder_seq);
            }
        }
        Ok(())
    }

    /// Moves the folder at position `old_index` to `new_index` and renumbers
    /// the sort orders (see [`DbView::reorder_folders`]).
    pub fn reorder_favorite_folders(&mut self, old_index: usize, new_index: usize) -> (r: Result<(), StoreError>)
        requires
            old(self)@.wf(),
        ensures
            final(self)@.wf(),
            r is Ok,
            final(self)@ == old(self)@.reorder_folders(old_index as int, new_index as int),
    {
        let n = self.folders.len();
        if old_index >= n || new_index > n {
            return Ok(());
        }
        let ghost v = self@;
        let moved = self.folders.remove(old_index);
        let at = if new_index > old_index { new_index - 1 } else { new_index };
        self.folders.insert(at, moved);
        let ghost mv = move_item(v.folders, old_index as int, new_index as int);
        assert(self@.folders =~= mv);
        proof {
            // the folders' sort orders bound their number
            if n > 0 {
                assert forall|a: int| 0 <= a < n implies 0 <= #[trigger] v.folders[a].sort_order by {
                    assert(v.folders[a].id >= 1);
                }
                assert forall|a: int| 0 <= a < n implies v.folders[a].sort_order >= a by {
                    lemma_sorted_orders_at_least_index(v.folders, a);
                }
                assert(v.folders[n - 1].sort_order >= n - 1);
            }
        }
        let mut i: usize = 0;
        while i < n
            invariant
                i <= n,
                n == mv.len(),
                n <= i32::MAX as int + 1,
                self.folders@.len() == n,
                forall|k: int| 0 <= k < i ==> self@.folders[k] == (FavoriteFolderView { sort_order: k as i32, ..mv[k] }),
                forall|k: int| i <= k < n ==> self@.folders[k] == mv[k],
                self.folder_seq == old(self).folder_seq,
                self.items@ == old(self).items@,
                self.item_seq == old(self).item_seq,
                self.config@ == old(self).config@,
                self.folder_items@ == old(self).folder_items@,
                self.folder_item_seq == old(self).folder_item_seq,
            decreases n - i,
        {
            let ghost pre = self.folders@;
            let ghost prev = self@.folders;
            self.folders[i].sort_order = i as i32;
            assert(self.folders@ == pre.update(i as int, FolderRow { sort_order: i as i32, ..pre[i as int] }));
            assert(self@.folders[i as int] == (FavoriteFolderView { sort_order: i as i32, ..mv[i as int] }));
            assert forall|k: int| 0 <= k < n && k != i implies self@.folders[k] == prev[k] by {
                assert(self.folders@[k] == pre[k]);
            }
            assert forall|k: int| 0 <= k < i + 1 implies self@.folders[k] == (FavoriteFolderView { sort_order: k as i32, ..mv[k] }) by {
                if k < i {
                    assert(prev[k] == (FavoriteFolderView { sort_order: k as i32, ..mv[k] }));
                }
            }
            i = i + 1;
        }
        let ghost fs = Seq::new(mv.len(), |k: int| FavoriteFolderView { sort_order: k as i32, ..mv[k] });
        assert(self@.folders =~= fs);
        proof {
            assert forall|a: int| 0 <= a < fs.len() implies 1 <= #[trigger] fs[a].id <= v.folder_seq && 0 <= fs[a].sort_order by {
                lemma_move_item_index(v.folders, old_index as int, new_index as int, a);
            }
            assert forall|a: int, b: int| 0 <= a < fs.len() && 0 <= b < fs.len() && a != b implies fs[a].id != fs[b].id by {
                lemma_move_item_injective(v.folders, old_index as int, new_index as int, a, b);
            }
            lemma_wf_folders(v, fs, v.folder_seq);
        }
        Ok(())
    }

    /// Creates the default folders ([`default_folder_names`]) when there are
    /// no folders; otherwise changes nothing.
    pub fn init_default_favorite_folders(&mut self, now: i64) -> (r: Result<(), StoreError>)
        requires
            old(self)@.wf(),
        ensures
            final(self)@.wf(),
            old(self)@.folders.len() > 0 ==> r is Ok && final(self)@ == old(self)@,
            old(self)@.folders.len() == 0 ==> (r, final(self)@) == old(self)@.insert_folders(default_folder_names(), now),
    {
        if self.folders.len() > 0 {
            return Ok(());
        }
        let names: [&str; 12] = [
            "工作",
            "代码片段",
            "常用链接",
            "笔记",
            "阅读清单",
            "灵感记录",
            "项目参考",
            "工具脚本",
            "API 文档",
            "设计素材",
            "临时暂存",
            "学习资料",
        ];
        let ghost spec_names = default_folder_names();
        assert(names@.map_values(|x: &str| x@) =~= spec_names);
        assert(spec_names.skip(0) =~= spec_names);
        let mut k: usize = 0;
        while k < 12
            invariant
                k <= 12,
                self@.wf(),
                self@.folders.len() == k,
                k > 0 ==> self@.folders.last().sort_order == k - 1,
                names@.map_values(|x: &str| x@) == spec_names,
                spec_names.len() == 12,
                spec_names == default_folder_names(),
                old(self)@.folders.len() == 0,
                old(self)@.insert_folders(spec_names, now) == self@.insert_folders(spec_names.skip(k as int), now),
            decreases 12 - k,
        {
            let ghost cur = self@;
            assert(spec_names.skip(k as int)[0] == names@[k as int]@);
            assert(spec_names.skip(k as int).drop_first() =~= spec_names.skip(k + 1));
            let r = self.insert_favorite_folder(names[k], now);
            match r {
                Ok(_) => {
                    assert(cur.insert_folders(spec_names.skip(k as int), now) == self@.insert_folders(spec_names.skip(k + 1), now));
                },
                Err(e) => {
                    assert(cur.insert_folders(spec_names.skip(k as int), now) == (Err::<(), StoreError>(e), self@));
                    assert(old(self)@.insert_folders(spec_names, now) == (Err::<(), StoreError>(e), self@));
                    assert(spec_names == default_folder_names());
                    return Err(e);
                },
            }
            k = k + 1;
        }
        assert(spec_names.skip(12) =~= Seq::<Seq<char>>::empty());
        Ok(())
    }

    /// Whether no record can be filed after what folder `folder_id` holds
    /// (see [`DbView::filing_order_exhausted`]).
    pub fn filing_order_exhausted(&self, folder_id: i64) -> (r: bool)
        ensures
            r == self@.filing_order_exhausted(folder_id),
    {
        self.max_filing_order(folder_id) == i32::MAX as i64
    }

    /// The largest sort order among the filings of folder `folder_id`, or -1.
    fn max_filing_order(&self, folder_id: i64) -> (r: i64)
        ensures
            r as int == self@.max_filing_order(folder_id),
            -1 <= r <= i32::MAX,
    {
        let mut m: i64 = -1;
        let mut i: usize = 0;
        while i < self.folder_items.len()
            invariant
                i <= self.folder_items@.len(),
                m as int == max_order_in(self@.folder_items.take(i as int), folder_id),
                -1 <= m <= i32::MAX,
            decreases self.folder_items.len() - i,
        {
            let f = self.folder_items[i];
            assert(self@.folder_items.take(i + 1).drop_last() =~= self@.folder_items.take(i as int));
            if f.folder_id == folder_id && (f.sort_order as i64) > m {
                m = f.sort_order as i64;
            }
            i = i + 1;
        }
        assert(self@.folder_items.take(i as int) =~= self@.folder_items);
        m
    }

    /// Files record `item_id` in the folder at position `folder_index` at
    /// time `now` (see [`DbView::add_to_folder`]); answers whether a new
    /// filing was made.
    pub fn add_item_to_favorite_folder(&mut self, folder_index: usize, item_id: i64, now: i64) -> (r: Result<bool, StoreError>)
        requires
            old(self)@.wf(),
            folder_index < old(self)@.folders.len() ==> !old(self)@.filing_order_exhausted(
                old(self)@.folders[folder_index as int].id,
            ),
        ensures
            final(self)@.wf(),
            (r, final(self)@) == old(self)@.add_to_folder(folder_index as int, item_id, now),
    {
        if folder_index >= self.folders.len() {
            return Err(StoreError::NoSuchRow);
        }
        let fid = self.folders[folder_index].id;
        let max_order = self.max_filing_order(fid);
        let mut i: usize = 0;
        while i < self.folder_items.len()
            invariant
                i <= self.folder_items@.len(),
                forall|j: int| 0 <= j < i ==> !(self@.folder_items[j].folder_id == fid && self@.folder_items[j].item_id == item_id),
                self@ == old(self)@,
                old(self)@.wf(),
                fid == old(self)@.folders[folder_index as int].id,
                folder_index < old(self)@.folders.len(),
            decreases self.folder_items.len() - i,
        {
            if self.folder_items[i].folder_id == fid && self.folder_items[i].item_id == item_id {
                assert(self@.folder_items[i as int].folder_id == fid && self@.folder_items[i as int].item_id == item_id);
                return Ok(false);
            }
            i = i + 1;
        }
        if self.folder_item_seq == i64::MAX {
            return Err(StoreError::TableFull);
        }
        let id = self.folder_item_seq + 1;
        let row = FolderItemRow { id, folder_id: fid, item_id, added_at: now, sort_order: (max_order + 1) as i32 };
        let ghost v = self@;
        self.folder_items.push(row);
        self.folder_item_seq = id;
        proof {
            let w = self@;
            assert(w.folder_items == v.folder_items.push(row));
            assert forall|a: int| 0 <= a < w.folder_items.len() implies 1 <= #[trigger] w.folder_items[a].id <= w.folder_item_seq by {
                if a < v.folder_items.len() {
                    assert(w.folder_items[a] == v.folder_items[a]);
                }
            }
            assert forall|a: int, b: int|
                0 <= a < w.folder_items.len() && 0 <= b < w.folder_items.len() && a != b implies w.folder_items[a].id
                != w.folder_items[b].id && (w.folder_items[a].folder_id != w.folder_items[b].folder_id
                || w.folder_items[a].item_id != w.folder_items[b].item_id) by {
                if a < v.folder_items.len() {
                    assert(w.folder_items[a] == v.folder_items[a]);
                    assert(1 <= v.folder_items[a].id <= v.folder_item_seq);
                }
                if b < v.folder_items.len() {
                    assert(w.folder_items[b] == v.folder_items[b]);
                    assert(1 <= v.folder_items[b].id <= v.folder_item_seq);
                }
            }
        }
        Ok(true)
    }

    /// The number of records filed in folder `folder_id`.
    pub fn get_favorite_folder_item_count(&self, folder_id: i64) -> (r: Result<usize, StoreError>)
        ensures
            r == Ok::<usize, StoreError>(filing_count(self@.folder_items, folder_id) as usize),
    {
        let mut n: usize = 0;
        let mut i: usize = 0;
        while i < self.folder_items.len()
            invariant
                i <= self.folder_items@.len(),
                n == filing_count(self@.folder_items.take(i as int), folder_id),
                n <= i,
            decreases self.folder_items.len() - i,
        {
            assert(self@.folder_items.take(i + 1).drop_last() =~= self@.folder_items.take(i as int));
            if self.folder_items[i].folder_id == folder_id {
                n = n + 1;
            }
            i = i + 1;
        }
        assert(self@.folder_items.take(i as int) =~= self@.folder_items);
        Ok(n)
    }

    /// The records filed in the folder at position `folder_index` that exist
    /// and have not been deleted, most recently filed first (records filed
    /// at the same time in any order); fails when there is no such folder.
    pub fn get_favorite_folder_items(&self, folder_index: usize) -> (r: Result<Vec<ClipboardItem>, StoreError>)
        requires
            self@.wf(),
        ensures
            folder_index >= self@.folders.len() ==> r == Err::<Vec<ClipboardItem>, StoreError>(StoreError::NoSuchRow),
            folder_index < self@.folders.len() ==> (r matches Ok(v) && exists|sel: Seq<usize>|
                is_ordered_selection(
                    filing_keys(self@.folder_items),
                    filing_mask(self@.items, self@.folder_items, self@.folders[folder_index as int].id),
                    usize::MAX as int,
                    false,
                    sel,
                ) && v@.map_values(|c: ClipboardItem| c@) == filed_records(self@.items, self@.folder_items, sel)),
            r matches Ok(v) ==> forall|k: int|
                0 <= k < v@.len() ==> visible_item(self@.items, (#[trigger] v@[k])@.id) == Some(v@[k]@),
    {
        if folder_index >= self.folders.len() {
            return Err(StoreError::NoSuchRow);
        }
        let fid = self.folders[folder_index].id;
        let mut keys: Vec<i64> = Vec::new();
        let mut mask: Vec<bool> = Vec::new();
        let mut i: usize = 0;
        while i < self.folder_items.len()
            invariant
                i <= self.folder_items@.len(),
                self@.wf(),
                keys@ == filing_keys(self@.folder_items).take(i as int),
                mask@ == filing_mask(self@.items, self@.folder_items, fid).take(i as int),
            decreases self.folder_items.len() - i,
        {
            let f = self.folder_items[i];
            keys.push(f.added_at);
            let mut m = false;
            if f.folder_id == fid {
                if let Some(p) = self.find_id(f.item_id) {
                    assert(id_pos(self@.items, f.item_id) == p);
                    m = !self.items[p].is_deleted;
                }
            }
            mask.push(m);
            assert(filing_keys(self@.folder_items).take(i + 1) =~= filing_keys(self@.folder_items).take(i as int).push(f.added_at));
            assert(filing_mask(self@.items, self@.folder_items, fid).take(i + 1) =~= filing_mask(self@.items, self@.folder_items, fid).take(i as int).push(m));
            i = i + 1;
        }
        assert(filing_keys(self@.folder_items).take(i as int) =~= filing_keys(self@.folder_items));
        assert(filing_mask(self@.items, self@.folder_items, fid).take(i as int) =~= filing_mask(self@.items, self@.folder_items, fid));
        let sel = select_ordered(&keys, &mask, usize::MAX, false);
        let mut out: Vec<ClipboardItem> = Vec::new();
        let mut j: usize = 0;
        while j < sel.len()
            invariant
                j <= sel@.len(),
                self@.wf(),
                is_ordered_selection(keys@, mask@, usize::MAX as int, false, sel@),
                keys@.len() == self@.folder_items.len(),
                mask@ == filing_mask(self@.items, self@.folder_items, fid),
                out@.map_values(|c: ClipboardItem| c@) == filed_records(self@.items, self@.folder_items, sel@.take(j as int)),
            decreases sel.len() - j,
        {
            let k = sel[j];
            assert(mask@[k as int]);
            let item_id = self.folder_items[k].item_id;
            let p = self.find_id(item_id).unwrap();
            assert(id_pos(self@.items, item_id) == p);
            let rec = item_to_record(&self.items[p]);
            let ghost prev = out@;
            out.push(rec);
            assert(out@.map_values(|c: ClipboardItem| c@) =~= prev.map_values(|c: ClipboardItem| c@).push(rec@));
            assert(sel@.take(j + 1) =~= sel@.take(j as int).push(k));
            assert(filed_records(self@.items, self@.folder_items, sel@.take(j + 1)) =~= filed_records(self@.items, self@.folder_items, sel@.take(j as int)).push(rec@));
            j = j + 1;
        }
        assert(sel@.take(j as int) =~= sel@);
        proof {
            law_folder_lists_only_visible(self@, fid, usize::MAX as int, sel@);
            assert forall|k: int| 0 <= k < out@.len() implies visible_item(self@.items, (#[trigger] out@[k])@.id)
                == Some(out@[k]@) by {
                assert(out@.map_values(|c: ClipboardItem| c@)[k] == out@[k]@);
                assert(filed_records(self@.items, self@.folder_items, sel@)[k] == out@[k]@);
            }
        }
        Ok(out)
    }

    /// Adds `text` as a new record stamped `at` unless a text with its
    /// fingerprint is held (see [`DbView::add_new_text`]).
    pub fn add_new_text(&mut self, text: &str, at: i64) -> (r: Result<bool, StoreError>)
        requires
            old(self)@.wf(),
        ensures
            final(self)@.wf(),
            (r, final(self)@) == old(self)@.add_new_text(text@, at),
    {
        let hash = compute_hash(text.as_bytes());
        let found = self.find_hash(&hash);
        let skip = match found {
            Some(p) => {
                assert(hash_pos(self@.items, hash@) == p);
                self.items[p].content_type == ContentType::Text
            },
            None => false,
        };
        if skip {
            Ok(false)
        } else {
            match self.insert_text(text, at) {
                Err(e) => Err(e),
                Ok(_) => Ok(true),
            }
        }
    }

    /// Imports entries of another clipboard manager (see
    /// [`DbView::import_entries`]) and returns how many were added.
    pub fn import_ditto_entries(&mut self, ditto_entries: &[(String, i64)], now: i64) -> (r: Result<usize, StoreError>)
        requires
            old(self)@.wf(),
        ensures
            final(self)@.wf(),
            ({
                let (sr, sv) = old(self)@.import_entries(
                    ditto_entries@.map_values(|e: (String, i64)| (e.0@, e.1)),
                    now,
                );
                &&& final(self)@ == sv
                &&& match (r, sr) {
                    (Ok(a), Ok(b)) => a as nat == b,
                    (Err(a), Err(b)) => a == b,
                    _ => false,
                }
            }),
    {
        let ghost es = ditto_stamped(ditto_entries@.map_values(|e: (String, i64)| (e.0@, e.1)), now);
        let mut imported: usize = 0;
        let mut i: usize = 0;
        assert(es.skip(0) =~= es);
        while i < ditto_entries.len()
            invariant
                i <= ditto_entries@.len(),
                es == ditto_stamped(ditto_entries@.map_values(|e: (String, i64)| (e.0@, e.1)), now),
                self@.wf(),
                imported <= i,
                ({
                    let (r0, v0) = old(self)@.add_new_texts(es);
                    let (r1, v1) = self@.add_new_texts(es.skip(i as int));
                    v0 == v1 && r0 == add_to_count(r1, imported as nat)
                }),
            decreases ditto_entries.len() - i,
        {
            let text = &ditto_entries[i].0;
            let date = ditto_entries[i].1;
            let created_at = ditto_time_exec(date, now);
            assert(es.skip(i as int)[0] == (text@, created_at));
            assert(es.skip(i as int).drop_first() =~= es.skip(i + 1));
            match self.add_new_text(text.as_str(), created_at) {
                Err(e) => {
                    return Err(e);
                },
                Ok(added) => {
                    if added {
                        imported = imported + 1;
                    }
                },
            }
            i = i + 1;
        }
        assert(es.skip(i as int) =~= Seq::<(Seq<char>, i64)>::empty());
        Ok(imported)
    }
}

/// The rows read from another clipboard manager that are kept for import:
/// those whose text is not blank, in order.
pub open spec fn ditto_rows_kept(rows: Seq<(Seq<char>, i64)>) -> Seq<(Seq<char>, i64)> {
    rows.filter(|e: (Seq<char>, i64)| !is_blank(e.0))
}

/// Keeps the rows whose text is not blank (see [`ditto_rows_kept`]).
pub fn keep_ditto_rows(rows: Vec<(String, i64)>) -> (r: Vec<(String, i64)>)
    ensures
        r@.map_values(|e: (String, i64)| (e.0@, e.1)) == ditto_rows_kept(
            rows@.map_values(|e: (String, i64)| (e.0@, e.1)),
        ),
{
    let ghost rv = rows@.map_values(|e: (String, i64)| (e.0@, e.1));
    let mut out: Vec<(String, i64)> = Vec::new();
    let mut i: usize = 0;
    while i < rows.len()
        invariant
            i <= rows@.len(),
            rv == rows@.map_values(|e: (String, i64)| (e.0@, e.1)),
            out@.map_values(|e: (String, i64)| (e.0@, e.1)) == ditto_rows_kept(rv.take(i as int)),
        decreases rows.len() - i,
    {
        let ghost before = out@.map_values(|e: (String, i64)| (e.0@, e.1));
        let blank = str_is_blank(rows[i].0.as_str());
        assert(rv.take(i + 1).drop_last() =~= rv.take(i as int));
        assert(rv.take(i + 1).last() == rv[i as int]);
        proof {
            reveal(Seq::filter);
        }
        if !blank {
            let e = (rows[i].0.clone(), rows[i].1);
            out.push(e);
            assert(out@.map_values(|e: (String, i64)| (e.0@, e.1)) =~= before.push(rv[i as int]));
        }
        i = i + 1;
    }
    assert(rv.take(i as int) =~= rv);
    out
}

} // verus!
