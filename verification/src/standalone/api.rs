//! The standalone application's HTTP API: the same endpoints as the shared
//! API, over the standalone state. Its server hands the copy endpoint no
//! body, so a copy request adds empty text.

use vstd::prelude::*;
use crate::shared::api::{Route, route, route_of, json_bool};
use crate::shared::database::{DbView, kept_on_clear, time_keys, visible_mask, records_at};
use crate::shared::ordering::is_ordered_selection;
use crate::standalone::state::AppState;
use crate::standalone::store::{ClipboardItem, item_matches, path_of, first_chars, HISTORY_TEXT_CHARS, cleared_files};
use crate::text::{text_from_utf8_lossy, utf8_lossy};

pub use crate::shared::api::ApiServer;

verus! {

/// Serialises a boolean to JSON (see [`json_bool`]).
fn visible_json(b: bool) -> (r: Vec<u8>)
    ensures
        r@ == json_bool(b),
{
    if b {
        vec![116u8, 114u8, 117u8, 101u8]
    } else {
        vec![102u8, 97u8, 108u8, 115u8, 101u8]
    }
}

/// The body of a reply.
pub enum ReplyBody {
    /// History records, to be sent as JSON.
    History(Vec<ClipboardItem>),
    /// JSON bytes.
    Json(Vec<u8>),
    /// Plain text.
    Text(String),
}

/// A reply, and text to put on the system clipboard when the request
/// pushed some.
pub struct ApiReply {
    pub status: u16,
    pub body: ReplyBody,
    pub set_clipboard: Option<String>,
}

/// The shown history (`GET /clipboard/history`), sent as JSON.
pub fn handle_get_history(state: &AppState) -> (r: Vec<ClipboardItem>)
    requires
        state.wf(),
    ensures
        exists|sel: Seq<usize>|
            is_ordered_selection(
                time_keys(state.db.records().items),
                visible_mask(state.db.records().items),
                state.max_history_size as int,
                false,
                sel,
            ) && r@.len() == sel.len() && forall|i: int| 0 <= i < sel.len() ==> {
                let rec = records_at(state.db.records().items, sel)[i];
                item_matches(
                    #[trigger] r@[i],
                    rec,
                    path_of(state.db.paths(), rec.id),
                    first_chars(rec.content_text, HISTORY_TEXT_CHARS as nat),
                )
            },
{
    state.get_history()
}

/// Takes pushed text (`POST /clipboard/copy`): the body, read as UTF-8
/// with ill-formed sequences replaced, goes into the history at time
/// `now`; the text is returned for the system clipboard.
pub fn handle_copy(state: &mut AppState, body: &[u8], now: i64) -> (r: Result<String, String>)
    requires
        old(state).wf(),
    ensures
        final(state).wf(),
        r matches Ok(t) && t@ == utf8_lossy(body@),
        final(state).db.records() == old(state).db.records().insert_text(utf8_lossy(body@), now).1,
        final(state).db.paths() == old(state).db.paths(),
        final(state).max_history_size == old(state).max_history_size,
        final(state).is_window_visible == old(state).is_window_visible,
        final(state).device_id == old(state).device_id,
{
    let text = text_from_utf8_lossy(body);
    let _ = state.push_clipboard(text.clone(), now);
    Ok(text)
}

/// Shows the window (`POST /window/show`).
pub fn handle_window_show(state: &mut AppState) -> (r: Result<(), String>)
    ensures
        r is Ok,
        final(state).is_window_visible,
        final(state).db == old(state).db,
        final(state).max_history_size == old(state).max_history_size,
        final(state).device_id == old(state).device_id,
{
    state.set_window_visible(true);
    Ok(())
}

/// Hides the window (`POST /window/hide`).
pub fn handle_window_hide(state: &mut AppState) -> (r: Result<(), String>)
    ensures
        r is Ok,
        !final(state).is_window_visible,
        final(state).db == old(state).db,
        final(state).max_history_size == old(state).max_history_size,
        final(state).device_id == old(state).device_id,
{
    state.set_window_visible(false);
    Ok(())
}

/// Whether the window is visible, as JSON (`GET /window/visible`).
pub fn handle_get_visible(state: &AppState) -> (r: Vec<u8>)
    ensures
        r@ == json_bool(state.is_window_visible),
{
    visible_json(state.is_window_visible())
}

/// Clears the history but for the favorites (`POST /clipboard/clear`);
/// returns the image files to delete.
pub fn handle_clear(state: &mut AppState) -> (r: Vec<String>)
    requires
        old(state).wf(),
    ensures
        final(state).wf(),
        final(state).db.records() == (DbView { items: kept_on_clear(old(state).db.records().items), ..old(state).db.records() }),
        r@.map_values(|f: String| f@) == cleared_files(old(state).db.records().items, old(state).db.paths()),
        final(state).max_history_size == old(state).max_history_size,
        final(state).is_window_visible == old(state).is_window_visible,
        final(state).device_id == old(state).device_id,
{
    let (_, files) = state.clear_history();
    files
}

/// A plain-text reply.
fn text_reply(status: u16, text: &str) -> (r: ApiReply)
    ensures
        r.status == status,
        r.body matches ReplyBody::Text(t) && t@ == text@,
        r.set_clipboard is None,
{
    ApiReply { status, body: ReplyBody::Text(text.to_owned()), set_clipboard: None }
}

/// Answers a request over the standalone state at time `now`, returning
/// also the image files to delete: the history as JSON; `OK` for the
/// actions, where copying adds empty text (the server reads no body); the
/// visibility as JSON; `Not Found` (404) for any other method or path.
pub fn handle_request(method: &str, path: &str, state: &mut AppState, now: i64) -> (r: (ApiReply, Vec<String>))
    requires
        old(state).wf(),
    ensures
        final(state).wf(),
        final(state).max_history_size == old(state).max_history_size,
        final(state).device_id == old(state).device_id,
        route_of(method@, path@) != Route::Clear ==> r.1@.len() == 0,
        match route_of(method@, path@) {
            Route::GetHistory => r.0.status == 200 && r.0.body is History && r.0.set_clipboard is None
                && *final(state) == *old(state),
            Route::Copy => r.0.status == 200 && (r.0.body matches ReplyBody::Text(t) && t@ == "OK"@) && (
            r.0.set_clipboard matches Some(t) && t@ == utf8_lossy(Seq::empty())) && final(state).db.records()
                == old(state).db.records().insert_text(utf8_lossy(Seq::empty()), now).1
                && final(state).is_window_visible == old(state).is_window_visible,
            Route::Clear => r.0.status == 200 && (r.0.body matches ReplyBody::Text(t) && t@ == "OK"@)
                && final(state).db.records() == (DbView {
                items: kept_on_clear(old(state).db.records().items),
                ..old(state).db.records()
            }) && r.1@.map_values(|f: String| f@) == cleared_files(
                old(state).db.records().items,
                old(state).db.paths(),
            ),
            Route::GetVisible => r.0.status == 200 && (r.0.body matches ReplyBody::Json(j) && j@ == json_bool(
                old(state).is_window_visible,
            )) && *final(state) == *old(state),
            Route::Show => r.0.status == 200 && (r.0.body matches ReplyBody::Text(t) && t@ == "OK"@)
                && final(state).is_window_visible && final(state).db == old(state).db,
            Route::Hide => r.0.status == 200 && (r.0.body matches ReplyBody::Text(t) && t@ == "OK"@)
                && !final(state).is_window_visible && final(state).db == old(state).db,
            Route::NotFound => r.0.status == 404 && (r.0.body matches ReplyBody::Text(t) && t@ == "Not Found"@)
                && *final(state) == *old(state),
        },
{
    match route(method, path) {
        Route::GetHistory => {
            let h = handle_get_history(state);
            (ApiReply { status: 200, body: ReplyBody::History(h), set_clipboard: None }, Vec::new())
        },
        Route::Copy => {
            let empty: Vec<u8> = Vec::new();
            assert(empty@ =~= Seq::<u8>::empty());
            match handle_copy(state, empty.as_slice(), now) {
                Ok(text) => (
                    ApiReply { status: 200, body: ReplyBody::Text("OK".to_owned()), set_clipboard: Some(text) },
                    Vec::new(),
                ),
                Err(e) => (text_reply(400, e.as_str()), Vec::new()),
            }
        },
        Route::Clear => {
            let files = handle_clear(state);
            (text_reply(200, "OK"), files)
        },
        Route::GetVisible => {
            let j = handle_get_visible(state);
            (ApiReply { status: 200, body: ReplyBody::Json(j), set_clipboard: None }, Vec::new())
        },
        Route::Show => {
            let _ = handle_window_show(state);
            (text_reply(200, "OK"), Vec::new())
        },
        Route::Hide => {
            let _ = handle_window_hide(state);
            (text_reply(200, "OK"), Vec::new())
        },
        Route::NotFound => (text_reply(404, "Not Found"), Vec::new()),
    }
}

} // verus!
