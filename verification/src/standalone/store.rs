//! The clipboard history store of the standalone application: the shared
//! store (records, fingerprints, settings) with images kept as files under
//! `images/` rather than inside the records, and text cut to 2000
//! characters in the history list. The caller writes and removes the
//! files this store names.

use vstd::prelude::*;
use crate::shared::database::{
    Database as RecordStore, DbView, StoreError, visible_item, has_hash, hash_pos, has_id, id_pos, time_keys,
    visible_mask, records_at, kept_on_clear, config_lookup, visible_count, ItemRowView,
};
use crate::shared::models::{
    ClipboardItem as Record, ClipboardItemView as RecordView, ContentType as Kind, opt_str, clone_opt_string,
};
use crate::shared::hashing::content_hash_of;
use crate::shared::ordering::is_ordered_selection;
use crate::shared::discovery::prefix_chars;
use crate::text::{chars_of, string_from_chars, push_str_chars, str_eq};

verus! {

/// The kind of a clipboard record.
#[derive(Debug, Clone, Copy, PartialEq, Eq, Structural)]
pub enum ContentType {
    Text,
    Image,
}

/// A clipboard record as the standalone store hands it out: an image's
/// file is named by `content_path`, relative to the data directory.
#[derive(Debug, Clone)]
pub struct ClipboardItem {
    pub id: i64,
    pub content_type: ContentType,
    pub content_text: Option<String>,
    pub content_path: Option<String>,
    pub content_hash: String,
    pub mime_type: Option<String>,
    pub file_size: Option<i64>,
    pub width: Option<i32>,
    pub height: Option<i32>,
    pub source_ip: Option<String>,
    pub created_at: i64,
    pub is_favorite: bool,
}

/// The kind in this store's terms.
pub open spec fn kind_of(k: Kind) -> ContentType {
    match k {
        Kind::Text => ContentType::Text,
        Kind::Image => ContentType::Image,
    }
}

/// The file recorded for record `id`, if any.
pub open spec fn path_of(paths: Seq<(i64, Seq<char>)>, id: i64) -> Option<Seq<char>>
    decreases paths.len(),
{
    if paths.len() == 0 {
        None
    } else if paths[0].0 == id {
        Some(paths[0].1)
    } else {
        path_of(paths.drop_first(), id)
    }
}

/// At most the first `n` characters of an optional text.
pub open spec fn first_chars(t: Option<Seq<char>>, n: nat) -> Option<Seq<char>> {
    match t {
        Some(s) => Some(prefix_chars(s, n)),
        None => None,
    }
}

/// Whether `item` is record `r` with file `path` and text `text`.
pub open spec fn item_matches(item: ClipboardItem, r: RecordView, path: Option<Seq<char>>, text: Option<Seq<char>>) -> bool {
    &&& item.id == r.id
    &&& item.content_type == kind_of(r.content_type)
    &&& opt_str(item.content_text) == text
    &&& opt_str(item.content_path) == path
    &&& item.content_hash@ == r.content_hash
    &&& opt_str(item.mime_type) == r.mime_type
    &&& item.file_size == r.file_size
    &&& item.width == r.width
    &&& item.height == r.height
    &&& opt_str(item.source_ip) == r.source_ip
    &&& item.created_at == r.created_at
    &&& item.is_favorite == r.is_favorite
}

/// The most characters of text a history entry carries.
pub const HISTORY_TEXT_CHARS: usize = 2000;

/// The standalone store: the records and settings, and the file of each
/// image record.
pub struct Database {
    pub store: RecordStore,
    pub image_paths: Vec<(i64, String)>,
}

/// The file extension for an image of type `mime`.
pub open spec fn extension_of(mime: Seq<char>) -> Seq<char> {
    if mime == "image/png"@ {
        "png"@
    } else if mime == "image/jpeg"@ || mime == "image/jpg"@ {
        "jpg"@
    } else if mime == "image/gif"@ {
        "gif"@
    } else if mime == "image/webp"@ {
        "webp"@
    } else {
        "bin"@
    }
}

/// The file extension for an image of type `mime` (see [`extension_of`]).
pub fn extension_for(mime: &str) -> (r: &'static str)
    ensures
        r@ == extension_of(mime@),
{
    if str_eq(mime, "image/png") {
        "png"
    } else if str_eq(mime, "image/jpeg") || str_eq(mime, "image/jpg") {
        "jpg"
    } else if str_eq(mime, "image/gif") {
        "gif"
    } else if str_eq(mime, "image/webp") {
        "webp"
    } else {
        "bin"
    }
}

/// The file name of an image with fingerprint `hash` and type `mime`: the
/// fingerprint's first 16 characters and the extension.
pub open spec fn image_file_name(hash: Seq<char>, mime: Seq<char>) -> Seq<char> {
    prefix_chars(hash, 16) + "."@ + extension_of(mime)
}

/// The files of the records of `items` that clearing removes: the images
/// that are not favorites and have a file, in order.
pub open spec fn cleared_files(items: Seq<ItemRowView>, paths: Seq<(i64, Seq<char>)>) -> Seq<Seq<char>>
    decreases items.len(),
{
    if items.len() == 0 {
        Seq::empty()
    } else {
        let rest = cleared_files(items.drop_last(), paths);
        let r = items.last();
        if !r.is_favorite && r.content_type == Kind::Image && path_of(paths, r.id) is Some {
            rest.push(path_of(paths, r.id)->0)
        } else {
            rest
        }
    }
}

/// What adding an image answers: the file to write under `images/` (when
/// one is written), and the record's identifier with the image's path, or
/// the store's failure.
pub struct ImageAdded {
    pub file_name: Option<String>,
    pub result: Result<(i64, String), StoreError>,
}

impl Database {
    /// The store's view.
    pub open spec fn records(&self) -> DbView {
        self.store@
    }

    /// The image files, by record.
    pub open spec fn paths(&self) -> Seq<(i64, Seq<char>)> {
        self.image_paths@.map_values(|p: (i64, String)| (p.0, p.1@))
    }

    /// The store's invariant: that of the records.
    pub open spec fn wf(&self) -> bool {
        self.store@.wf()
    }

    /// An empty store.
    pub fn new() -> (r: Self)
        ensures
            r.wf(),
            r.records() == DbView::empty(),
            r.paths().len() == 0,
    {
        Database { store: RecordStore::new(), image_paths: Vec::new() }
    }

    /// The fingerprint of `content`: the lower-case hex of its SHA-256.
    pub fn compute_hash(content: &[u8]) -> (r: String)
        ensures
            r@ == content_hash_of(content@),
    {
        crate::shared::hashing::compute_hash(content)
    }

    /// The file recorded for record `id`.
    fn find_path(&self, id: i64) -> (r: Option<String>)
        ensures
            opt_str(r) == path_of(self.paths(), id),
    {
        let ghost ps = self.paths();
        let mut i: usize = 0;
        assert(ps.skip(0) =~= ps);
        while i < self.image_paths.len()
            invariant
                i <= self.image_paths@.len(),
                ps == self.paths(),
                path_of(ps.skip(i as int), id) == path_of(ps, id),
            decreases self.image_paths.len() - i,
        {
            assert(ps.skip(i as int)[0] == (self.image_paths@[i as int].0, self.image_paths@[i as int].1@));
            assert(ps.skip(i as int).drop_first() =~= ps.skip(i + 1));
            if self.image_paths[i].0 == id {
                return Some(self.image_paths[i].1.clone());
            }
            i = i + 1;
        }
        assert(ps.skip(i as int) =~= Seq::<(i64, Seq<char>)>::empty());
        None
    }

    /// The record `r` with its file and with text cut to `limit`
    /// characters when a limit is given.
    fn to_item(&self, r: &Record, limit: Option<usize>) -> (out: ClipboardItem)
        ensures
            item_matches(
                out,
                r@,
                path_of(self.paths(), r.id),
                match limit {
                    Some(n) => first_chars(r@.content_text, n as nat),
                    None => r@.content_text,
                },
            ),
    {
        let text = match (&r.content_text, limit) {
            (Some(t), Some(n)) => {
                let cs = chars_of(t.as_str());
                let k: usize = if cs.len() <= n { cs.len() } else { n };
                let s = string_from_chars(vstd::slice::slice_subrange(cs.as_slice(), 0, k));
                assert(s@ =~= prefix_chars(t@, n as nat));
                Some(s)
            },
            _ => clone_opt_string(&r.content_text),
        };
        ClipboardItem {
            id: r.id,
            content_type: match r.content_type {
                Kind::Text => ContentType::Text,
                Kind::Image => ContentType::Image,
            },
            content_text: text,
            content_path: self.find_path(r.id),
            content_hash: r.content_hash.clone(),
            mime_type: clone_opt_string(&r.mime_type),
            file_size: r.file_size,
            width: r.width,
            height: r.height,
            source_ip: clone_opt_string(&r.source_ip),
            created_at: r.created_at,
            is_favorite: r.is_favorite,
        }
    }

    /// Adds `text` at time `now` as the shared store does (see
    /// [`DbView::insert_text`]).
    pub fn insert_text(&mut self, text: &str, now: i64) -> (r: Result<i64, StoreError>)
        requires
            old(self).wf(),
        ensures
            final(self).wf(),
            (r, final(self).records()) == old(self).records().insert_text(text@, now),
            final(self).paths() == old(self).paths(),
    {
        self.store.insert_text(text, now)
    }

    /// What adding an image to `self` at time `now` answers (`r`) and leaves
    /// (`after`); see [`Database::insert_image`].
    pub open spec fn image_outcome(
        self,
        image_data: Seq<u8>,
        mime_type: Seq<char>,
        width: i32,
        height: i32,
        now: i64,
        r: ImageAdded,
        after: Database,
    ) -> bool {
        ({
                let v = self.records();
                let h = content_hash_of(image_data);
                let name = image_file_name(h, mime_type);
                let existing = has_hash(v.items, h) && v.items[hash_pos(v.items, h)].content_type == Kind::Image;
                if existing && path_of(self.paths(), v.items[hash_pos(v.items, h)].id) is Some {
                    let id = v.items[hash_pos(v.items, h)].id;
                    &&& r.file_name is None
                    &&& r.result matches Ok((rid, p)) && rid == id && Some(p@) == path_of(self.paths(), id)
                    &&& after.records() == v
                    &&& after.paths() == self.paths()
                } else if existing {
                    &&& r.file_name matches Some(n) && n@ == name
                    &&& r.result == Err::<(i64, String), StoreError>(StoreError::UniqueViolation)
                    &&& after.records() == v
                    &&& after.paths() == self.paths()
                } else {
                    let (sr, sv) = v.insert_image(image_data, Seq::empty(), mime_type, width, height, now);
                    &&& r.file_name matches Some(n) && n@ == name
                    &&& after.records() == sv
                    &&& match sr {
                        Ok(id) => r.result matches Ok((rid, p)) && rid == id && p@ == "images/"@ + name
                            && after.paths() == self.paths().push((id, "images/"@ + name)),
                        Err(e) => r.result == Err::<(i64, String), StoreError>(e) && after.paths() == self.paths(),
                    }
                }
            })
    }

    /// Adds an image at time `now`. An image already held (by fingerprint)
    /// with a file answers that record and file, and nothing is written.
    /// Otherwise its file name is answered for writing (see
    /// [`image_file_name`]) and a record is added whose file is
    /// `images/<name>`; this fails when the fingerprint belongs to a text,
    /// to an image without a file, or no identifier is left.
    pub fn insert_image(&mut self, image_data: &[u8], mime_type: &str, width: i32, height: i32, now: i64) -> (r: ImageAdded)
        requires
            old(self).wf(),
            image_data@.len() <= i64::MAX,
        ensures
            final(self).wf(),
            old(self).image_outcome(image_data@, mime_type@, width, height, now, r, *final(self)),
    {
        let hash = Self::compute_hash(image_data);
        let found = self.store.find_hash(&hash);
        let existing_id: Option<i64> = match found {
            Some(i) => {
                assert(hash_pos(self.store@.items, hash@) == i);
                if self.store.items[i].content_type == Kind::Image {
                    Some(self.store.items[i].id)
                } else {
                    None
                }
            },
            None => None,
        };
        match existing_id {
            Some(id) => {
                match self.find_path(id) {
                    Some(p) => {
                        return ImageAdded { file_name: None, result: Ok((id, p)) };
                    },
                    None => {},
                }
            },
            None => {},
        }
        let hc = chars_of(hash.as_str());
        let k: usize = if hc.len() <= 16 { hc.len() } else { 16 };
        let mut name: Vec<char> = Vec::new();
        let mut j: usize = 0;
        while j < k
            invariant
                j <= k <= hc@.len(),
                name@ == hc@.take(j as int),
            decreases k - j,
        {
            name.push(hc[j]);
            assert(hc@.take(j + 1) =~= hc@.take(j as int).push(hc@[j as int]));
            j = j + 1;
        }
        assert(name@ =~= prefix_chars(hash@, 16));
        push_str_chars(&mut name, ".");
        push_str_chars(&mut name, extension_for(mime_type));
        let file_name = string_from_chars(name.as_slice());
        if existing_id.is_some() {
            return ImageAdded { file_name: Some(file_name), result: Err(StoreError::UniqueViolation) };
        }
        let mut path: Vec<char> = Vec::new();
        push_str_chars(&mut path, "images/");
        push_str_chars(&mut path, file_name.as_str());
        let content_path = string_from_chars(path.as_slice());
        let empty: Vec<u8> = Vec::new();
        match self.store.insert_image(image_data, empty.as_slice(), mime_type, width, height, now) {
            Ok(id) => {
                let ghost before = self.paths();
                self.image_paths.push((id, content_path.clone()));
                assert(self.paths() =~= before.push((id, content_path@)));
                ImageAdded { file_name: Some(file_name), result: Ok((id, content_path)) }
            },
            Err(e) => ImageAdded { file_name: Some(file_name), result: Err(e) },
        }
    }

    /// The latest `limit` records not deleted, newest first, with text cut
    /// to 2000 characters.
    pub fn get_history(&self, limit: usize) -> (r: Result<Vec<ClipboardItem>, StoreError>)
        requires
            self.wf(),
        ensures
            r matches Ok(v) && exists|sel: Seq<usize>|
                is_ordered_selection(time_keys(self.records().items), visible_mask(self.records().items), limit as int, false, sel)
                    && v@.len() == sel.len() && forall|i: int| 0 <= i < sel.len() ==> {
                    let rec = records_at(self.records().items, sel)[i];
                    item_matches(
                        #[trigger] v@[i],
                        rec,
                        path_of(self.paths(), rec.id),
                        first_chars(rec.content_text, HISTORY_TEXT_CHARS as nat),
                    )
                },
    {
        let records = match self.store.get_history(limit, false) {
            Ok(v) => v,
            Err(e) => {
                return Err(e);
            },
        };
        let ghost sel = choose|sel: Seq<usize>|
            is_ordered_selection(time_keys(self.records().items), visible_mask(self.records().items), limit as int, false, sel)
                && records@.map_values(|c: Record| c@) == records_at(self.records().items, sel);
        let mut out: Vec<ClipboardItem> = Vec::new();
        let mut i: usize = 0;
        while i < records.len()
            invariant
                i <= records@.len(),
                records@.map_values(|c: Record| c@) == records_at(self.records().items, sel),
                out@.len() == i,
                forall|k: int| 0 <= k < i ==> {
                    let rec = records_at(self.records().items, sel)[k];
                    item_matches(
                        #[trigger] out@[k],
                        rec,
                        path_of(self.paths(), rec.id),
                        first_chars(rec.content_text, HISTORY_TEXT_CHARS as nat),
                    )
                },
            decreases records.len() - i,
        {
            assert(records@.map_values(|c: Record| c@)[i as int] == records@[i as int]@);
            let item = self.to_item(&records[i], Some(HISTORY_TEXT_CHARS));
            out.push(item);
            i = i + 1;
        }
        assert(records@.map_values(|c: Record| c@).len() == sel.len());
        Ok(out)
    }

    /// The record with identifier `id` and its full text, unless absent or
    /// deleted.
    pub fn get_item(&self, id: i64) -> (r: Result<Option<ClipboardItem>, StoreError>)
        requires
            self.wf(),
        ensures
            r matches Ok(o) && match (o, visible_item(self.records().items, id)) {
                (Some(a), Some(b)) => item_matches(a, b, path_of(self.paths(), id), b.content_text),
                (None, None) => true,
                _ => false,
            },
    {
        match self.store.get_item(id) {
            Ok(Some(rec)) => {
                let item = self.to_item(&rec, None);
                Ok(Some(item))
            },
            Ok(None) => Ok(None),
            Err(e) => Err(e),
        }
    }

    /// Marks record `id` deleted.
    pub fn delete(&mut self, id: i64) -> (r: Result<(), StoreError>)
        requires
            old(self).wf(),
        ensures
            final(self).wf(),
            r is Ok,
            final(self).records() == old(self).records().update_item(id, |x: ItemRowView| ItemRowView { is_deleted: true, ..x }),
            final(self).paths() == old(self).paths(),
    {
        self.store.delete(id)
    }

    /// Flips the favorite mark of record `id` (deleted or not) and returns
    /// the new mark; fails when there is no such record.
    pub fn toggle_favorite(&mut self, id: i64) -> (r: Result<bool, StoreError>)
        requires
            old(self).wf(),
        ensures
            final(self).wf(),
            has_id(old(self).records().items, id) ==> r == Ok::<bool, StoreError>(
                !old(self).records().items[id_pos(old(self).records().items, id)].is_favorite,
            ),
            !has_id(old(self).records().items, id) ==> r == Err::<bool, StoreError>(StoreError::NoSuchRow),
            final(self).records() == old(self).records().update_item(id, |x: ItemRowView| ItemRowView { is_favorite: !x.is_favorite, ..x }),
            final(self).paths() == old(self).paths(),
    {
        self.store.toggle_favorite(id)
    }

    /// Removes every record that is not a favorite and returns how many
    /// were removed, with the files of the removed images (those that have
    /// one, in the records' order) for the caller to delete.
    pub fn clear_non_favorites(&mut self) -> (r: Result<(usize, Vec<String>), StoreError>)
        requires
            old(self).wf(),
        ensures
            final(self).wf(),
            final(self).records() == (DbView { items: kept_on_clear(old(self).records().items), ..old(self).records() }),
            final(self).paths() == old(self).paths(),
            r matches Ok((n, files)) && n as int == old(self).records().items.len() - final(self).records().items.len()
                && files@.map_values(|f: String| f@) == cleared_files(old(self).records().items, old(self).paths()),
    {
        let ghost items = self.records().items;
        let mut files: Vec<String> = Vec::new();
        let mut i: usize = 0;
        while i < self.store.items.len()
            invariant
                i <= self.store.items@.len(),
                items == self.records().items,
                files@.map_values(|f: String| f@) == cleared_files(items.take(i as int), self.paths()),
            decreases self.store.items.len() - i,
        {
            assert(items.take(i + 1).drop_last() =~= items.take(i as int));
            assert(items.take(i + 1).last() == items[i as int]);
            if !self.store.items[i].is_favorite && self.store.items[i].content_type == Kind::Image {
                match self.find_path(self.store.items[i].id) {
                    Some(p) => {
                        let ghost before = files@.map_values(|f: String| f@);
                        files.push(p);
                        assert(files@.map_values(|f: String| f@) =~= before.push(p@));
                    },
                    None => {},
                }
            }
            i = i + 1;
        }
        assert(items.take(i as int) =~= items);
        match self.store.clear_non_favorites() {
            Ok(n) => Ok((n, files)),
            Err(e) => Err(e),
        }
    }

    /// The number of records not deleted.
    pub fn count(&self) -> (r: Result<usize, StoreError>)
        ensures
            r matches Ok(n) && n as int == visible_count(self.records().items),
    {
        self.store.count()
    }

    /// The value of setting `key`, if set.
    pub fn get_config(&self, key: &str) -> (r: Result<Option<String>, StoreError>)
        requires
            self.wf(),
        ensures
            r matches Ok(o) && opt_str(o) == config_lookup(self.records().config, key@),
    {
        self.store.get_config(key)
    }

    /// Sets setting `key` to `value` at time `now`.
    pub fn set_config(&mut self, key: &str, value: &str, now: i64) -> (r: Result<(), StoreError>)
        requires
            old(self).wf(),
        ensures
            final(self).wf(),
            r is Ok,
            final(self).records() == old(self).records().set_config(key@, value@, now),
            final(self).paths() == old(self).paths(),
    {
        self.store.set_config(key, value, now)
    }
}

} // verus!
