//! Properties of the history store that relate its operations.

use vstd::prelude::*;
use crate::shared::models::ContentType;
use crate::shared::database::{
    DbView, ItemRowView, kept_on_clear, config_lookup, visible_item, has_hash, hash_pos, has_id, id_pos, text_hash,
    search_mask, search_pattern, row_matches, time_keys, filing_keys, filing_mask, filed_records,
};
use crate::shared::like::{like_match, fold_text, law_like_ignores_case, law_like_surrounded_matches};
use crate::shared::ordering::is_ordered_selection;

verus! {

/// Reading a setting gives back the value last written to it, and writing
/// one setting leaves every other setting as it was.
pub proof fn law_config_read_after_write(v: DbView, key: Seq<char>, value: Seq<char>, now: i64, other: Seq<char>)
    requires
        v.wf(),
    ensures
        config_lookup(v.set_config(key, value, now).config, key) == Some(value),
        other != key ==> config_lookup(v.set_config(key, value, now).config, other) == config_lookup(v.config, other),
{
    let w = v.set_config(key, value, now);
    let row = crate::shared::database::ConfigRowView { key, value, updated_at: now };
    if exists|i: int| 0 <= i < v.config.len() && v.config[i].key == key {
        let i = choose|i: int| 0 <= i < v.config.len() && v.config[i].key == key;
        assert(w.config[i].key == key);
        let c = choose|j: int| 0 <= j < w.config.len() && w.config[j].key == key;
        assert(c == i) by {
            if c != i {
                assert(v.config[c].key == key);
            }
        }
        if other != key {
            if exists|j: int| 0 <= j < v.config.len() && v.config[j].key == other {
                let j = choose|j: int| 0 <= j < v.config.len() && v.config[j].key == other;
                assert(w.config[j].key == other);
                let cj = choose|k: int| 0 <= k < w.config.len() && w.config[k].key == other;
                assert(cj == j) by {
                    if cj != j {
                        assert(w.config[cj] == v.config[cj]);
                    }
                }
            } else {
                assert forall|k: int| 0 <= k < w.config.len() implies w.config[k].key != other by {
                    if k != i {
                        assert(w.config[k] == v.config[k]);
                    }
                }
            }
        }
    } else {
        let n = v.config.len() as int;
        assert(w.config[n].key == key);
        let c = choose|j: int| 0 <= j < w.config.len() && w.config[j].key == key;
        assert(c == n) by {
            if c != n {
                assert(w.config[c] == v.config[c]);
            }
        }
        if other != key {
            if exists|j: int| 0 <= j < v.config.len() && v.config[j].key == other {
                let j = choose|j: int| 0 <= j < v.config.len() && v.config[j].key == other;
                assert(w.config[j].key == other);
                let cj = choose|k: int| 0 <= k < w.config.len() && w.config[k].key == other;
                assert(cj == j) by {
                    if cj != j && cj < n {
                        assert(w.config[cj] == v.config[cj]);
                    }
                }
                assert(w.config[cj] == v.config[cj]);
            } else {
                assert forall|k: int| 0 <= k < w.config.len() implies w.config[k].key != other by {
                    if k < n {
                        assert(w.config[k] == v.config[k]);
                    }
                }
            }
        }
    }
}

/// Adding the same text twice gives the same identifier both times, and the
/// second addition adds no record.
pub proof fn law_insert_text_idempotent(v: DbView, text: Seq<char>, now1: i64, now2: i64)
    requires
        v.wf(),
    ensures
        ({
            let (r1, v1) = v.insert_text(text, now1);
            let (r2, v2) = v1.insert_text(text, now2);
            r1 is Ok ==> r2 == r1 && v2.items.len() == v1.items.len()
        }),
{
    let h = text_hash(text);
    let (r1, v1) = v.insert_text(text, now1);
    if r1 is Ok {
        if has_hash(v.items, h) {
            let i = hash_pos(v.items, h);
            assert(v1.items[i].content_hash == h);
            assert(has_hash(v1.items, h));
            let j = hash_pos(v1.items, h);
            assert(j == i) by {
                if j != i {
                    assert(v1.items[j].content_hash == v.items[j].content_hash);
                }
            }
        } else {
            let n = v.items.len() as int;
            assert(v1.items[n].content_hash == h);
            assert(has_hash(v1.items, h));
            let j = hash_pos(v1.items, h);
            assert(j == n) by {
                if j != n {
                    assert(v1.items[j] == v.items[j]);
                }
            }
        }
    }
}

/// Every copy of text is recorded: when adding it succeeds, the record it
/// names is shown (also when it had been deleted before), stamped with the
/// time of the copy, and carries the text's fingerprint.
pub proof fn law_every_copy_is_recorded(v: DbView, text: Seq<char>, now: i64)
    requires
        v.wf(),
    ensures
        ({
            let (r, w) = v.insert_text(text, now);
            r matches Ok(id) ==> visible_item(w.items, id) matches Some(item) && item.created_at == now
                && item.content_hash == text_hash(text) && item.content_type == ContentType::Text
        }),
{
    let h = text_hash(text);
    let (r, w) = v.insert_text(text, now);
    if let Ok(id) = r {
        if has_hash(v.items, h) {
            let i = hash_pos(v.items, h);
            assert(w.items[i].id == id);
            assert(has_id(w.items, id));
            let p = id_pos(w.items, id);
            assert(p == i) by {
                if p != i {
                    assert(w.items[p] == v.items[p]);
                }
            }
        } else {
            let n = v.items.len() as int;
            assert(w.items[n].id == id);
            assert(has_id(w.items, id));
            let p = id_pos(w.items, id);
            assert(p == n) by {
                if p != n {
                    assert(w.items[p] == v.items[p]);
                    assert(v.items[p].id <= v.item_seq);
                }
            }
        }
    }
}

/// Adding text that the store does not hold yet creates a record that reads
/// back with that text and the time of the addition.
pub proof fn law_insert_text_then_read(v: DbView, text: Seq<char>, now: i64)
    requires
        v.wf(),
        !has_hash(v.items, text_hash(text)),
    ensures
        ({
            let (r, w) = v.insert_text(text, now);
            r matches Ok(id) ==> visible_item(w.items, id) matches Some(item) && item.content_text == Some(text)
                && item.created_at == now && item.content_type == ContentType::Text && !item.is_favorite
        }),
{
    let (r, w) = v.insert_text(text, now);
    if let Ok(id) = r {
        let n = v.items.len() as int;
        assert(w.items[n].id == id);
        assert(has_id(w.items, id));
        let p = id_pos(w.items, id);
        assert(p == n) by {
            if p != n {
                assert(w.items[p] == v.items[p]);
                assert(v.items[p].id <= v.item_seq);
            }
        }
    }
}

/// Deleting a record hides it: reading it afterwards finds nothing.
pub proof fn law_delete_hides(v: DbView, id: i64)
    requires
        v.wf(),
    ensures
        visible_item(v.update_item(id, |x: ItemRowView| ItemRowView { is_deleted: true, ..x }).items, id) is None,
{
    let w = v.update_item(id, |x: ItemRowView| ItemRowView { is_deleted: true, ..x });
    if has_id(v.items, id) {
        let i = id_pos(v.items, id);
        assert(w.items[i].id == id);
        let p = id_pos(w.items, id);
        assert(p == i) by {
            if p != i {
                assert(w.items[p] == v.items[p]);
            }
        }
    } else {
        assert(w == v);
    }
}

/// Flipping a record's favorite mark twice leaves the store as it was.
pub proof fn law_toggle_favorite_twice(v: DbView, id: i64)
    requires
        v.wf(),
    ensures
        v.update_item(id, |x: ItemRowView| ItemRowView { is_favorite: !x.is_favorite, ..x }).update_item(
            id,
            |x: ItemRowView| ItemRowView { is_favorite: !x.is_favorite, ..x },
        ) == v,
{
    let f = |x: ItemRowView| ItemRowView { is_favorite: !x.is_favorite, ..x };
    let w = v.update_item(id, f);
    if has_id(v.items, id) {
        let i = id_pos(v.items, id);
        assert(w.items[i].id == id);
        let p = id_pos(w.items, id);
        assert(p == i) by {
            if p != i {
                assert(w.items[p] == v.items[p]);
            }
        }
        assert(w.update_item(id, f).items =~= v.items);
    }
}

/// Clearing the history keeps exactly the favorites: every record left is a
/// favorite, and every favorite is left.
pub proof fn law_clear_keeps_favorites(v: DbView)
    ensures
        forall|i: int| 0 <= i < kept_on_clear(v.items).len() ==> (#[trigger] kept_on_clear(v.items)[i]).is_favorite,
        forall|i: int| 0 <= i < v.items.len() && (#[trigger] v.items[i]).is_favorite ==> kept_on_clear(v.items).contains(v.items[i]),
{
    assert forall|i: int| 0 <= i < kept_on_clear(v.items).len() implies (#[trigger] kept_on_clear(v.items)[i]).is_favorite by {
        v.items.lemma_filter_pred(|x: ItemRowView| x.is_favorite, i);
    }
    assert forall|i: int| 0 <= i < v.items.len() && (#[trigger] v.items[i]).is_favorite implies kept_on_clear(v.items).contains(v.items[i]) by {
        v.items.lemma_filter_contains(|x: ItemRowView| x.is_favorite, i);
    }
}

/// Moving a folder keeps the set of folders and numbers their sort orders
/// by position.
pub proof fn law_reorder_renumbers(v: DbView, old_index: int, new_index: int)
    requires
        v.wf(),
    ensures
        v.reorder_folders(old_index, new_index).folders.len() == v.folders.len(),
        0 <= old_index < v.folders.len() && 0 <= new_index <= v.folders.len() ==> forall|i: int|
            0 <= i < v.folders.len() ==> (#[trigger] v.reorder_folders(old_index, new_index).folders[i]).sort_order == i,
        0 <= old_index < v.folders.len() && 0 <= new_index <= v.folders.len() ==> v.reorder_folders(
            old_index,
            new_index,
        ).folders[if new_index > old_index { new_index - 1 } else { new_index }].id == v.folders[old_index].id,
{
    if 0 <= old_index < v.folders.len() && 0 <= new_index <= v.folders.len() {
        let n = v.folders.len();
        assert forall|a: int| 0 <= a < n implies 0 <= #[trigger] v.folders[a].sort_order by {
            assert(v.folders[a].id >= 1);
        }
        assert forall|a: int| 0 <= a < n implies v.folders[a].sort_order >= a by {
            crate::shared::database::lemma_sorted_orders_at_least_index(v.folders, a);
        }
        assert(v.folders[n - 1].sort_order >= n - 1);
    }
}

/// Filing a record in a folder twice changes nothing the second time, and
/// the second filing answers that no new filing was made.
pub proof fn law_add_to_folder_idempotent(v: DbView, folder_index: int, item_id: i64, now1: i64, now2: i64)
    requires
        v.wf(),
    ensures
        ({
            let (r1, v1) = v.add_to_folder(folder_index, item_id, now1);
            let (r2, v2) = v1.add_to_folder(folder_index, item_id, now2);
            r1 is Ok ==> r2 == Ok::<bool, crate::shared::database::StoreError>(false) && v2 == v1
        }),
{
    let (r1, v1) = v.add_to_folder(folder_index, item_id, now1);
    if r1 is Ok {
        let fid = v.folders[folder_index].id;
        if !(exists|j: int| 0 <= j < v.folder_items.len() && v.folder_items[j].folder_id == fid
            && v.folder_items[j].item_id == item_id) {
            let n = v.folder_items.len() as int;
            assert(v1.folder_items[n].folder_id == fid && v1.folder_items[n].item_id == item_id);
        } else {
            let j = choose|j: int| 0 <= j < v.folder_items.len() && v.folder_items[j].folder_id == fid
                && v.folder_items[j].item_id == item_id;
            assert(v1.folder_items[j].folder_id == fid);
        }
    }
}

/// Whether the store holds `t` as a text record.
pub open spec fn text_held(v: DbView, t: Seq<char>) -> bool {
    exists|j: int| 0 <= j < v.items.len() && v.items[j].content_hash == text_hash(t) && v.items[j].content_type
        == ContentType::Text
}

/// Under the invariant, holding a text is what adding new text tests.
proof fn lemma_held_is_tested(v: DbView, t: Seq<char>)
    requires
        v.wf(),
    ensures
        text_held(v, t) == (has_hash(v.items, text_hash(t)) && v.items[hash_pos(v.items, text_hash(t))].content_type
            == ContentType::Text),
{
    let h = text_hash(t);
    if text_held(v, t) {
        let j = choose|j: int| 0 <= j < v.items.len() && v.items[j].content_hash == h && v.items[j].content_type
            == ContentType::Text;
        assert(has_hash(v.items, h));
        let p = hash_pos(v.items, h);
        assert(p == j);
    }
}

/// Adding text keeps the invariant, keeps every text held, and holds the
/// text added when it succeeds.
proof fn lemma_insert_text_holds(v: DbView, t: Seq<char>, now: i64)
    requires
        v.wf(),
    ensures
        v.insert_text(t, now).1.wf(),
        v.insert_text(t, now).0 is Ok ==> text_held(v.insert_text(t, now).1, t),
        forall|u: Seq<char>| text_held(v, u) ==> #[trigger] text_held(v.insert_text(t, now).1, u),
{
    let h = text_hash(t);
    let (r, w) = v.insert_text(t, now);
    if has_hash(v.items, h) {
        let i = hash_pos(v.items, h);
        if v.items[i].content_type == ContentType::Text {
            crate::shared::database::lemma_wf_update_item(
                v,
                i,
                ItemRowView { created_at: now, is_deleted: false, ..v.items[i] },
            );
            assert forall|u: Seq<char>| text_held(v, u) implies #[trigger] text_held(w, u) by {
                let j = choose|j: int| 0 <= j < v.items.len() && v.items[j].content_hash == text_hash(u)
                    && v.items[j].content_type == ContentType::Text;
                assert(w.items[j].content_hash == v.items[j].content_hash);
            }
            assert(w.items[i].content_hash == h && w.items[i].content_type == ContentType::Text);
        }
    } else if v.item_seq != i64::MAX {
        let id = (v.item_seq + 1) as i64;
        crate::shared::database::lemma_wf_push_item(v, crate::shared::database::new_text_row(id, t, h, now));
        assert forall|u: Seq<char>| text_held(v, u) implies #[trigger] text_held(w, u) by {
            let j = choose|j: int| 0 <= j < v.items.len() && v.items[j].content_hash == text_hash(u)
                && v.items[j].content_type == ContentType::Text;
            assert(w.items[j] == v.items[j]);
        }
        assert(w.items[v.items.len() as int].content_hash == h && w.items[v.items.len() as int].content_type
            == ContentType::Text);
    }
}

/// Adding a new text keeps the invariant and every text held, and holds
/// the text when it succeeds.
proof fn lemma_add_new_text_holds(v: DbView, t: Seq<char>, at: i64)
    requires
        v.wf(),
    ensures
        v.add_new_text(t, at).1.wf(),
        v.add_new_text(t, at).0 is Ok ==> text_held(v.add_new_text(t, at).1, t),
        forall|u: Seq<char>| text_held(v, u) ==> #[trigger] text_held(v.add_new_text(t, at).1, u),
{
    lemma_held_is_tested(v, t);
    lemma_insert_text_holds(v, t, at);
}

/// Adding new texts keeps the invariant and every text held, and when it
/// succeeds every text of the entries is held.
proof fn lemma_add_new_texts_holds(v: DbView, es: Seq<(Seq<char>, i64)>)
    requires
        v.wf(),
    ensures
        v.add_new_texts(es).1.wf(),
        v.add_new_texts(es).0 is Ok ==> forall|k: int| 0 <= k < es.len() ==> text_held(v.add_new_texts(es).1, #[trigger] es[k].0),
        forall|u: Seq<char>| text_held(v, u) ==> #[trigger] text_held(v.add_new_texts(es).1, u),
    decreases es.len(),
{
    if es.len() > 0 {
        lemma_add_new_text_holds(v, es[0].0, es[0].1);
        let (r, v1) = v.add_new_text(es[0].0, es[0].1);
        if r is Ok {
            lemma_add_new_texts_holds(v1, es.drop_first());
            let (r2, v2) = v1.add_new_texts(es.drop_first());
            if r2 is Ok {
                assert forall|k: int| 0 <= k < es.len() implies text_held(v2, #[trigger] es[k].0) by {
                    if k > 0 {
                        assert(es[k] == es.drop_first()[k - 1]);
                    }
                }
            }
        }
    }
}

/// When every text of the entries is held, adding them adds nothing.
proof fn lemma_held_texts_add_nothing(v: DbView, es: Seq<(Seq<char>, i64)>)
    requires
        v.wf(),
        forall|k: int| 0 <= k < es.len() ==> text_held(v, #[trigger] es[k].0),
    ensures
        v.add_new_texts(es) == (Ok::<nat, crate::shared::database::StoreError>(0), v),
    decreases es.len(),
{
    if es.len() > 0 {
        lemma_held_is_tested(v, es[0].0);
        assert(text_held(v, es[0].0));
        assert forall|k: int| 0 <= k < es.drop_first().len() implies text_held(v, #[trigger] es.drop_first()[k].0) by {
            assert(es.drop_first()[k] == es[k + 1]);
        }
        lemma_held_texts_add_nothing(v, es.drop_first());
    }
}

/// Importing the same entries again after a successful import adds nothing
/// and changes nothing: every text imported, or found already, is held.
pub proof fn law_import_twice(v: DbView, entries: Seq<(Seq<char>, i64)>, now: i64)
    requires
        v.wf(),
    ensures
        ({
            let (r1, v1) = v.import_entries(entries, now);
            r1 is Ok ==> v1.import_entries(entries, now) == (Ok::<nat, crate::shared::database::StoreError>(0), v1)
        }),
{
    let es = crate::shared::database::ditto_stamped(entries, now);
    lemma_add_new_texts_holds(v, es);
    let (r1, v1) = v.add_new_texts(es);
    if r1 is Ok {
        lemma_held_texts_add_nothing(v1, es);
    }
}

/// Search ignores ASCII case: two queries that differ only in the case of
/// ASCII letters pick out the same records.
pub proof fn law_search_ignores_case(items: Seq<ItemRowView>, q1: Seq<char>, q2: Seq<char>)
    requires
        fold_text(q1) == fold_text(q2),
    ensures
        search_mask(items, search_pattern(q1)) == search_mask(items, search_pattern(q2)),
{
    let p1 = search_pattern(q1);
    let p2 = search_pattern(q2);
    assert(fold_text(p1) =~= seq!['%'] + fold_text(q1) + seq!['%']);
    assert(fold_text(p2) =~= seq!['%'] + fold_text(q2) + seq!['%']);
    assert forall|t: Seq<char>| like_match(p1, t) == like_match(p2, t) by {
        law_like_ignores_case(p1, t);
        law_like_ignores_case(p2, t);
    }
    assert(search_mask(items, p1) =~= search_mask(items, p2)) by {
        assert forall|i: int| 0 <= i < items.len() implies row_matches(items[i], p1) == row_matches(items[i], p2) by {
        }
    }
}

/// A record whose text is the query, up to the case of ASCII letters, is
/// always found: it is among the records a search shows unless the limit
/// is reached.
pub proof fn law_search_finds_its_text(
    items: Seq<ItemRowView>,
    q: Seq<char>,
    limit: int,
    ascending: bool,
    sel: Seq<usize>,
    i: int,
)
    requires
        is_ordered_selection(time_keys(items), search_mask(items, search_pattern(q)), limit, ascending, sel),
        0 <= i < items.len(),
        !items[i].is_deleted,
        items[i].content_text matches Some(t) && fold_text(t) == fold_text(q),
        sel.len() < limit,
    ensures
        sel.contains(i as usize),
{
    let t = items[i].content_text->0;
    law_like_surrounded_matches(t);
    law_search_ignores_case(items, t, q);
    assert(search_mask(items, search_pattern(t))[i]);
    assert(search_mask(items, search_pattern(q))[i]);
}

/// A folder lists only records that exist and have not been deleted: each
/// record listed is what reading its identifier gives.
pub proof fn law_folder_lists_only_visible(v: DbView, folder_id: i64, limit: int, sel: Seq<usize>)
    requires
        is_ordered_selection(filing_keys(v.folder_items), filing_mask(v.items, v.folder_items, folder_id), limit, false, sel),
    ensures
        forall|k: int|
            0 <= k < sel.len() ==> visible_item(v.items, #[trigger] filed_records(v.items, v.folder_items, sel)[k].id)
                == Some(filed_records(v.items, v.folder_items, sel)[k]),
{
    assert forall|k: int| 0 <= k < sel.len() implies visible_item(
        v.items,
        #[trigger] filed_records(v.items, v.folder_items, sel)[k].id,
    ) == Some(filed_records(v.items, v.folder_items, sel)[k]) by {
        let f = v.folder_items[sel[k] as int];
        assert(filing_mask(v.items, v.folder_items, folder_id)[sel[k] as int]);
        assert(visible_item(v.items, f.item_id) is Some);
        let p = id_pos(v.items, f.item_id);
        assert(v.items[p].id == f.item_id);
    }
}

/// A deleted record leaves every folder: after `delete(id)` no folder
/// lists it.
pub proof fn law_deleted_record_leaves_folders(v: DbView, id: i64, folder_id: i64, limit: int, sel: Seq<usize>)
    requires
        v.wf(),
        ({
            let w = v.update_item(id, |x: ItemRowView| ItemRowView { is_deleted: true, ..x });
            is_ordered_selection(filing_keys(w.folder_items), filing_mask(w.items, w.folder_items, folder_id), limit, false, sel)
        }),
    ensures
        ({
            let w = v.update_item(id, |x: ItemRowView| ItemRowView { is_deleted: true, ..x });
            forall|k: int| 0 <= k < sel.len() ==> (#[trigger] filed_records(w.items, w.folder_items, sel)[k]).id != id
        }),
{
    let w = v.update_item(id, |x: ItemRowView| ItemRowView { is_deleted: true, ..x });
    law_delete_hides(v, id);
    law_folder_lists_only_visible(w, folder_id, limit, sel);
    assert forall|k: int| 0 <= k < sel.len() implies (#[trigger] filed_records(w.items, w.folder_items, sel)[k]).id != id by {
        let r = filed_records(w.items, w.folder_items, sel)[k];
        assert(visible_item(w.items, r.id) == Some(r));
    }
}

} // verus!
