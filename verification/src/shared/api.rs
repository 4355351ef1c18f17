//! The HTTP API through which other devices read the history, push text,
//! and show or hide the window: request routing and the handlers, over the
//! shared state or over callbacks supplied by a mobile shell. Serving the
//! requests is left to the caller, which hands each request's method, path
//! and body in and sends the reply out.

use vstd::prelude::*;
use crate::shared::models::{ClipboardItem, PasteBridgeError};
use crate::shared::state::AppState;
use crate::shared::database::{DbView, kept_on_clear, time_keys, visible_mask, records_at};
use crate::shared::ordering::is_ordered_selection;
use crate::text::{str_eq, text_from_utf8_lossy, utf8_lossy};

verus! {

/// What a mobile shell supplies to answer the API in place of the shared
/// state. The handlers below state their results as answers of these
/// methods (`call_ensures`), whatever an implementation answers.
pub trait ClipboardApiCallback {
    /// The JSON of the latest history records.
    fn get_history_json(&self) -> Vec<u8>;

    /// Takes text pushed by another device: into the history and onto the
    /// system clipboard.
    fn on_remote_copy(&self, text: String) -> Result<(), PasteBridgeError>;

    /// Records that another device asked to show or hide the window.
    fn set_window_visible(&self, visible: bool);

    /// Whether the window is visible.
    fn is_window_visible(&self) -> bool;
}

/// The JSON text of a boolean, as bytes.
pub open spec fn json_bool(b: bool) -> Seq<u8> {
    if b {
        seq![116u8, 114u8, 117u8, 101u8]
    } else {
        seq![102u8, 97u8, 108u8, 115u8, 101u8]
    }
}

/// Serialises a boolean to JSON.
///
/// Calls `serde_json::to_vec` on the boolean (an empty vector should it
/// fail); the contract claims the bytes of `true` or `false`, which is what
/// serde_json's formatter writes for a boolean.
#[verifier::external_body]
fn bool_to_json(b: bool) -> (r: Vec<u8>)
    ensures
        r@ == json_bool(b),
{
    serde_json::to_vec(&b).unwrap_or_default()
}

/// An endpoint of the API.
#[derive(Debug, Clone, Copy, PartialEq, Eq, Structural)]
pub enum Route {
    /// `GET /clipboard/history`
    GetHistory,
    /// `POST /clipboard/copy`
    Copy,
    /// `POST /clipboard/clear`
    Clear,
    /// `GET /window/visible`
    GetVisible,
    /// `POST /window/show`
    Show,
    /// `POST /window/hide`
    Hide,
    /// Anything else.
    NotFound,
}

/// The endpoint that a request with `method` and `path` reaches; both must
/// match exactly.
pub open spec fn route_of(method: Seq<char>, path: Seq<char>) -> Route {
    if method == "GET"@ && path == "/clipboard/history"@ {
        Route::GetHistory
    } else if method == "POST"@ && path == "/clipboard/copy"@ {
        Route::Copy
    } else if method == "POST"@ && path == "/clipboard/clear"@ {
        Route::Clear
    } else if method == "GET"@ && path == "/window/visible"@ {
        Route::GetVisible
    } else if method == "POST"@ && path == "/window/show"@ {
        Route::Show
    } else if method == "POST"@ && path == "/window/hide"@ {
        Route::Hide
    } else {
        Route::NotFound
    }
}

/// The endpoint that a request reaches (see [`route_of`]).
pub fn route(method: &str, path: &str) -> (r: Route)
    ensures
        r == route_of(method@, path@),
{
    if str_eq(method, "GET") && str_eq(path, "/clipboard/history") {
        Route::GetHistory
    } else if str_eq(method, "POST") && str_eq(path, "/clipboard/copy") {
        Route::Copy
    } else if str_eq(method, "POST") && str_eq(path, "/clipboard/clear") {
        Route::Clear
    } else if str_eq(method, "GET") && str_eq(path, "/window/visible") {
        Route::GetVisible
    } else if str_eq(method, "POST") && str_eq(path, "/window/show") {
        Route::Show
    } else if str_eq(method, "POST") && str_eq(path, "/window/hide") {
        Route::Hide
    } else {
        Route::NotFound
    }
}

/// The body of a reply.
pub enum ReplyBody {
    /// History records, to be sent as JSON.
    History(Vec<ClipboardItem>),
    /// JSON bytes.
    Json(Vec<u8>),
    /// Plain text.
    Text(String),
}

/// A reply to an API request, and text to put on the system clipboard when
/// the request pushed some.
pub struct ApiReply {
    pub status: u16,
    pub body: ReplyBody,
    pub set_clipboard: Option<String>,
}

/// Whether `r` is a plain-text reply with `status` and text `text`, that
/// asks nothing of the clipboard.
pub open spec fn is_text_reply(r: &ApiReply, status: u16, text: Seq<char>) -> bool {
    &&& r.status == status
    &&& r.body matches ReplyBody::Text(t) && t@ == text
    &&& r.set_clipboard is None
}

/// A plain-text reply.
fn text_reply(status: u16, text: &str) -> (r: ApiReply)
    ensures
        is_text_reply(&r, status, text@),
{
    ApiReply { status, body: ReplyBody::Text(text.to_owned()), set_clipboard: None }
}

/// The latest history, newest first (`GET /clipboard/history`); it is sent
/// as JSON.
pub fn handle_get_history(state: &AppState) -> (r: Vec<ClipboardItem>)
    requires
        state.wf(),
    ensures
        exists|sel: Seq<usize>|
            is_ordered_selection(
                time_keys(state.db@.items),
                visible_mask(state.db@.items),
                state.max_history_size as int,
                false,
                sel,
            ) && r@.map_values(|c: ClipboardItem| c@) == records_at(state.db@.items, sel),
{
    state.get_history(false)
}

/// Takes text pushed by another device (`POST /clipboard/copy`): the body,
/// read as UTF-8 with ill-formed sequences replaced, goes into the history
/// at time `now`. Returns the text, which the caller puts on the system
/// clipboard.
pub fn handle_copy(state: &mut AppState, body: &[u8], now: i64) -> (r: Result<String, String>)
    requires
        old(state).wf(),
    ensures
        final(state).wf(),
        r matches Ok(t) && t@ == utf8_lossy(body@),
        final(state).db@ == old(state).db@.insert_text(utf8_lossy(body@), now).1,
        final(state).max_history_size == old(state).max_history_size,
        final(state).is_window_visible == old(state).is_window_visible,
        final(state).device_id == old(state).device_id,
{
    let text = text_from_utf8_lossy(body);
    let _ = state.push_clipboard(text.clone(), now);
    Ok(text)
}

/// Shows the window (`POST /window/show`).
pub fn handle_window_show(state: &mut AppState) -> (r: Result<(), String>)
    ensures
        r is Ok,
        final(state).is_window_visible,
        final(state).db == old(state).db,
        final(state).max_history_size == old(state).max_history_size,
        final(state).device_id == old(state).device_id,
{
    state.set_window_visible(true);
    Ok(())
}

/// Hides the window (`POST /window/hide`).
pub fn handle_window_hide(state: &mut AppState) -> (r: Result<(), String>)
    ensures
        r is Ok,
        !final(state).is_window_visible,
        final(state).db == old(state).db,
        final(state).max_history_size == old(state).max_history_size,
        final(state).device_id == old(state).device_id,
{
    state.set_window_visible(false);
    Ok(())
}

/// Whether the window is visible, as JSON (`GET /window/visible`).
pub fn handle_get_visible(state: &AppState) -> (r: Vec<u8>)
    ensures
        r@ == json_bool(state.is_window_visible),
{
    let visible = state.is_window_visible();
    bool_to_json(visible)
}

/// Clears the history but for the favorites (`POST /clipboard/clear`).
pub fn handle_clear(state: &mut AppState) -> (r: Result<(), String>)
    requires
        old(state).wf(),
    ensures
        r is Ok,
        final(state).wf(),
        final(state).db@ == (DbView { items: kept_on_clear(old(state).db@.items), ..old(state).db@ }),
        final(state).max_history_size == old(state).max_history_size,
        final(state).is_window_visible == old(state).is_window_visible,
        final(state).device_id == old(state).device_id,
{
    let _ = state.clear_history();
    Ok(())
}

/// The JSON of the latest history, as the callbacks give it.
pub fn handle_get_history_cb<C: ClipboardApiCallback>(cb: &C) -> (r: Vec<u8>)
    ensures
        call_ensures(C::get_history_json, (cb,), r),
{
    cb.get_history_json()
}

/// Hands the body, read as UTF-8 with ill-formed sequences replaced, to the
/// callbacks as pushed text and answers what they answer.
pub fn handle_copy_cb<C: ClipboardApiCallback>(cb: &C, body: &[u8]) -> (r: Result<(), PasteBridgeError>)
    ensures
        exists|text: String| text@ == utf8_lossy(body@) && call_ensures(C::on_remote_copy, (cb, text), r),
{
    let text = text_from_utf8_lossy(body);
    cb.on_remote_copy(text)
}

/// Tells the callbacks to show the window.
pub fn handle_window_show_cb<C: ClipboardApiCallback>(cb: &C) -> (r: Result<(), PasteBridgeError>)
    ensures
        r is Ok,
        call_ensures(C::set_window_visible, (cb, true), ()),
{
    cb.set_window_visible(true);
    Ok(())
}

/// Tells the callbacks to hide the window.
pub fn handle_window_hide_cb<C: ClipboardApiCallback>(cb: &C) -> (r: Result<(), PasteBridgeError>)
    ensures
        r is Ok,
        call_ensures(C::set_window_visible, (cb, false), ()),
{
    cb.set_window_visible(false);
    Ok(())
}

/// Whether the callbacks report the window visible, as JSON.
pub fn handle_get_visible_cb<C: ClipboardApiCallback>(cb: &C) -> (r: Vec<u8>)
    ensures
        exists|v: bool| call_ensures(C::is_window_visible, (cb,), v) && r@ == json_bool(v),
{
    let visible = cb.is_window_visible();
    bool_to_json(visible)
}

/// Clearing is not offered to other devices through the callbacks: nothing
/// is done and success is answered.
pub fn handle_clear_cb<C: ClipboardApiCallback>(_cb: &C) -> (r: Result<(), PasteBridgeError>)
    ensures
        r is Ok,
{
    Ok(())
}

/// Answers a request over the shared state at time `now`: the history as
/// JSON, `OK` for the actions (with pushed text for the clipboard), the
/// visibility as JSON, and `Not Found` (404) for any other method or path.
pub fn handle_request(method: &str, path: &str, body: &[u8], state: &mut AppState, now: i64) -> (r: ApiReply)
    requires
        old(state).wf(),
    ensures
        final(state).wf(),
        final(state).max_history_size == old(state).max_history_size,
        final(state).device_id == old(state).device_id,
        match route_of(method@, path@) {
            Route::GetHistory => r.status == 200 && r.set_clipboard is None && *final(state) == *old(state) && (
            r.body matches ReplyBody::History(h) && exists|sel: Seq<usize>|
                is_ordered_selection(
                    time_keys(old(state).db@.items),
                    visible_mask(old(state).db@.items),
                    old(state).max_history_size as int,
                    false,
                    sel,
                ) && h@.map_values(|c: ClipboardItem| c@) == records_at(old(state).db@.items, sel)),
            Route::Copy => r.status == 200 && (r.body matches ReplyBody::Text(t) && t@ == "OK"@) && (
            r.set_clipboard matches Some(t) && t@ == utf8_lossy(body@)) && final(state).db@ == old(
                state,
            ).db@.insert_text(utf8_lossy(body@), now).1 && final(state).is_window_visible == old(
                state,
            ).is_window_visible,
            Route::Clear => is_text_reply(&r, 200, "OK"@) && final(state).db@ == (DbView {
                items: kept_on_clear(old(state).db@.items),
                ..old(state).db@
            }) && final(state).is_window_visible == old(state).is_window_visible,
            Route::GetVisible => r.status == 200 && r.set_clipboard is None && *final(state) == *old(state) && (
            r.body matches ReplyBody::Json(j) && j@ == json_bool(old(state).is_window_visible)),
            Route::Show => is_text_reply(&r, 200, "OK"@) && final(state).db == old(state).db
                && final(state).is_window_visible,
            Route::Hide => is_text_reply(&r, 200, "OK"@) && final(state).db == old(state).db
                && !final(state).is_window_visible,
            Route::NotFound => is_text_reply(&r, 404, "Not Found"@) && *final(state) == *old(state),
        },
{
    match route(method, path) {
        Route::GetHistory => {
            let h = handle_get_history(state);
            ApiReply { status: 200, body: ReplyBody::History(h), set_clipboard: None }
        },
        Route::Copy => {
            match handle_copy(state, body, now) {
                Ok(text) => ApiReply { status: 200, body: ReplyBody::Text("OK".to_owned()), set_clipboard: Some(text) },
                Err(e) => text_reply(400, "Error: ".to_owned().concat(e.as_str()).as_str()),
            }
        },
        Route::Clear => {
            let _ = handle_clear(state);
            text_reply(200, "OK")
        },
        Route::GetVisible => {
            let j = handle_get_visible(state);
            ApiReply { status: 200, body: ReplyBody::Json(j), set_clipboard: None }
        },
        Route::Show => {
            match handle_window_show(state) {
                Ok(_) => text_reply(200, "OK"),
                Err(e) => text_reply(400, "Error: ".to_owned().concat(e.as_str()).as_str()),
            }
        },
        Route::Hide => {
            match handle_window_hide(state) {
                Ok(_) => text_reply(200, "OK"),
                Err(e) => text_reply(400, "Error: ".to_owned().concat(e.as_str()).as_str()),
            }
        },
        Route::NotFound => text_reply(404, "Not Found"),
    }
}

/// Answers a request through the callbacks: the history JSON they give,
/// `OK` for the actions (or `Error: ` and their message with status 400
/// when they refuse pushed text), the visibility as JSON, and `Not Found`
/// (404) for any other method or path.
pub fn handle_request_cb<C: ClipboardApiCallback>(method: &str, path: &str, body: &[u8], cb: &C) -> (r: ApiReply)
    ensures
        r.set_clipboard is None,
        match route_of(method@, path@) {
            Route::GetHistory => r.status == 200 && (r.body matches ReplyBody::Json(j) && call_ensures(
                C::get_history_json,
                (cb,),
                j,
            )),
            Route::Copy => exists|text: String, a: Result<(), PasteBridgeError>|
                text@ == utf8_lossy(body@) && call_ensures(C::on_remote_copy, (cb, text), a) && match a {
                    Ok(_) => is_text_reply(&r, 200, "OK"@),
                    Err(e) => is_text_reply(&r, 400, "Error: "@ + error_message(e)),
                },
            Route::Clear => is_text_reply(&r, 200, "OK"@),
            Route::GetVisible => r.status == 200 && (r.body matches ReplyBody::Json(j) && exists|v: bool|
                call_ensures(C::is_window_visible, (cb,), v) && j@ == json_bool(v)),
            Route::Show => is_text_reply(&r, 200, "OK"@) && call_ensures(C::set_window_visible, (cb, true), ()),
            Route::Hide => is_text_reply(&r, 200, "OK"@) && call_ensures(C::set_window_visible, (cb, false), ()),
            Route::NotFound => is_text_reply(&r, 404, "Not Found"@),
        },
{
    match route(method, path) {
        Route::GetHistory => {
            let j = handle_get_history_cb(cb);
            ApiReply { status: 200, body: ReplyBody::Json(j), set_clipboard: None }
        },
        Route::Copy => {
            match handle_copy_cb(cb, body) {
                Ok(_) => text_reply(200, "OK"),
                Err(e) => error_reply(&e),
            }
        },
        Route::Clear => {
            let _ = handle_clear_cb(cb);
            text_reply(200, "OK")
        },
        Route::GetVisible => {
            let j = handle_get_visible_cb(cb);
            ApiReply { status: 200, body: ReplyBody::Json(j), set_clipboard: None }
        },
        Route::Show => {
            match handle_window_show_cb(cb) {
                Ok(_) => text_reply(200, "OK"),
                Err(e) => error_reply(&e),
            }
        },
        Route::Hide => {
            match handle_window_hide_cb(cb) {
                Ok(_) => text_reply(200, "OK"),
                Err(e) => error_reply(&e),
            }
        },
        Route::NotFound => text_reply(404, "Not Found"),
    }
}

/// The message of a bridge error.
pub open spec fn error_message(e: PasteBridgeError) -> Seq<char> {
    match e {
        PasteBridgeError::Generic { message } => message@,
    }
}

/// The reply for a refusal by the callbacks: `Error: ` and its message,
/// status 400.
pub fn error_reply(e: &PasteBridgeError) -> (r: ApiReply)
    ensures
        r.status == 400,
        r.set_clipboard is None,
        r.body matches ReplyBody::Text(t) && t@ == "Error: "@ + match e {
            PasteBridgeError::Generic { message } => message@,
        },
{
    let msg = "Error: ".to_owned().concat(e.to_string().as_str());
    ApiReply { status: 400, body: ReplyBody::Text(msg), set_clipboard: None }
}

#[verifier::external_type_specification]
#[verifier::external_body]
#[verifier::reject_recursive_types(T)]
pub struct ExSender<T>(std::sync::mpsc::Sender<T>);

/// Sends the stop signal down a channel, ignoring a closed receiver.
///
/// Calls `std::sync::mpsc::Sender::send`; nothing is claimed of it.
#[verifier::external_body]
fn send_stop(tx: std::sync::mpsc::Sender<()>) {
    let _ = tx.send(());
}

/// The API server's settings: the port it listens on and, while it runs,
/// the channel that tells its request loop to stop.
pub struct ApiServer {
    port: u16,
    shutdown_tx: Option<std::sync::mpsc::Sender<()>>,
}

impl ApiServer {
    /// The port the server listens on.
    pub closed spec fn port_of(&self) -> u16 {
        self.port
    }

    /// Whether a stop channel is held.
    pub closed spec fn can_signal_stop(&self) -> bool {
        self.shutdown_tx is Some
    }

    /// A server for `port` that has not started.
    pub fn new(port: u16) -> (r: Self)
        ensures
            r.port_of() == port,
            !r.can_signal_stop(),
    {
        ApiServer { port, shutdown_tx: None }
    }

    /// The port the server listens on.
    pub fn port(&self) -> (r: u16)
        ensures
            r == self.port_of(),
    {
        self.port
    }

    /// Keeps `tx` as the channel that stops the request loop.
    pub fn attach_stop_channel(&mut self, tx: std::sync::mpsc::Sender<()>)
        ensures
            final(self).port_of() == old(self).port_of(),
            final(self).can_signal_stop(),
    {
        self.shutdown_tx = Some(tx);
    }

    /// Signals the request loop to stop, once: the stop channel is given up.
    pub fn stop(&mut self)
        ensures
            final(self).port_of() == old(self).port_of(),
            !final(self).can_signal_stop(),
    {
        let tx = self.shutdown_tx.take();
        match tx {
            Some(t) => send_stop(t),
            None => {},
        }
    }
}

} // verus!
