//! Syncing with another device over its HTTP API: pull its history into
//! ours (new texts only), then push our latest text to it. The addresses of
//! a peer are tried in turn until one answers. The requests themselves are
//! made by the caller; this module decides what to ask, what to keep of the
//! answers, and what to report.

use vstd::prelude::*;
use crate::shared::models::{ClipboardItem, ClipboardItemView, ContentType, opt_str};
use crate::shared::state::AppState;
use crate::shared::database::{DbView, time_keys, visible_mask, records_at, text_hash};
use crate::shared::hashing::compute_hash;
use crate::shared::ordering::is_ordered_selection;
use crate::shared::discovery::DiscoveredPeer;
use crate::text::{str_eq, string_from_chars, push_str_chars, push_dec_digits, dec_digits};

verus! {

/// The outcome of one sync, shown to the user.
#[derive(Debug, Clone)]
pub struct SyncReport {
    /// The peer synced with.
    pub peer_device_id: String,
    /// How many records the peer's history held.
    pub pulled_total: u64,
    /// How many of them were added here.
    pub pulled_added: u64,
    /// How many texts were pushed to the peer (0 or 1).
    pub pushed: u64,
    /// What went wrong, if anything.
    pub error: Option<String>,
}

/// Whether `r` holds exactly these values.
pub open spec fn report_is(
    r: SyncReport,
    peer: Seq<char>,
    total: u64,
    added: u64,
    pushed: u64,
    error: Option<Seq<char>>,
) -> bool {
    &&& r.peer_device_id@ == peer
    &&& r.pulled_total == total
    &&& r.pulled_added == added
    &&& r.pushed == pushed
    &&& match (r.error, error) {
        (None, None) => true,
        (Some(a), Some(b)) => a@ == b,
        _ => false,
    }
}

impl SyncReport {
    /// A report of a sync that succeeded.
    pub fn ok(peer_device_id: String, pulled_total: u64, pulled_added: u64, pushed: u64) -> (r: Self)
        ensures
            report_is(r, peer_device_id@, pulled_total, pulled_added, pushed, None),
    {
        SyncReport { peer_device_id, pulled_total, pulled_added, pushed, error: None }
    }

    /// A report of a sync that failed with `error` before anything was
    /// counted.
    pub fn failed(peer_device_id: String, error: Option<String>) -> (r: Self)
        ensures
            report_is(
                r,
                peer_device_id@,
                0,
                0,
                0,
                match error {
                    Some(e) => Some(e@),
                    None => None,
                },
            ),
    {
        SyncReport { peer_device_id, pulled_total: 0, pulled_added: 0, pushed: 0, error }
    }
}

/// The base URL of a peer's API at `addr` and `port`.
pub open spec fn base_url_of(addr: Seq<char>, port: u16) -> Seq<char> {
    "http://"@ + addr + ":"@ + dec_digits(port as nat)
}

/// The base URL of a peer's API (see [`base_url_of`]).
pub fn base_url(addr: &str, port: u16) -> (r: String)
    ensures
        r@ == base_url_of(addr@, port),
{
    let mut out: Vec<char> = Vec::new();
    push_str_chars(&mut out, "http://");
    push_str_chars(&mut out, addr);
    push_str_chars(&mut out, ":");
    push_dec_digits(port as u64, &mut out);
    assert(out@ =~= base_url_of(addr@, port));
    string_from_chars(out.as_slice())
}

/// `a` followed by `b`.
fn concat2(a: &str, b: &str) -> (r: String)
    ensures
        r@ == a@ + b@,
{
    let mut out: Vec<char> = Vec::new();
    push_str_chars(&mut out, a);
    push_str_chars(&mut out, b);
    string_from_chars(out.as_slice())
}

/// The URL of the peer's history under `base`.
pub fn history_url(base: &str) -> (r: String)
    ensures
        r@ == base@ + "/clipboard/history"@,
{
    concat2(base, "/clipboard/history")
}

/// The URL the peer takes pushed text at, under `base`.
pub fn copy_url(base: &str) -> (r: String)
    ensures
        r@ == base@ + "/clipboard/copy"@,
{
    concat2(base, "/clipboard/copy")
}

/// The error text of a request to `url` with `method` that failed with
/// `detail`: `<method> <url>: <detail>`.
pub fn request_error(method: &str, url: &str, detail: &str) -> (r: String)
    ensures
        r@ == method@ + " "@ + url@ + ": "@ + detail@,
{
    let mut out: Vec<char> = Vec::new();
    push_str_chars(&mut out, method);
    push_str_chars(&mut out, " ");
    push_str_chars(&mut out, url);
    push_str_chars(&mut out, ": ");
    push_str_chars(&mut out, detail);
    assert(out@ =~= method@ + " "@ + url@ + ": "@ + detail@);
    string_from_chars(out.as_slice())
}

/// The error text of a request to `url` with `method` answered with
/// `status`: `<method> <url> -> status <status>`.
pub fn status_error(method: &str, url: &str, status: u16) -> (r: String)
    ensures
        r@ == method@ + " "@ + url@ + " -> status "@ + dec_digits(status as nat),
{
    let mut out: Vec<char> = Vec::new();
    push_str_chars(&mut out, method);
    push_str_chars(&mut out, " ");
    push_str_chars(&mut out, url);
    push_str_chars(&mut out, " -> status ");
    push_dec_digits(status as u64, &mut out);
    assert(out@ =~= method@ + " "@ + url@ + " -> status "@ + dec_digits(status as nat));
    string_from_chars(out.as_slice())
}

/// The error text when the body of `url` could not be read.
pub fn body_error(url: &str, detail: &str) -> (r: String)
    ensures
        r@ == "read body from "@ + url@ + ": "@ + detail@,
{
    let mut out: Vec<char> = Vec::new();
    push_str_chars(&mut out, "read body from ");
    push_str_chars(&mut out, url);
    push_str_chars(&mut out, ": ");
    push_str_chars(&mut out, detail);
    assert(out@ =~= "read body from "@ + url@ + ": "@ + detail@);
    string_from_chars(out.as_slice())
}

/// The error text when the peer's history could not be decoded.
pub fn decode_error(detail: &str) -> (r: String)
    ensures
        r@ == "decode history: "@ + detail@,
{
    concat2("decode history: ", detail)
}

/// Checks the status of the answer to the history request: only 200 goes
/// on.
pub fn check_history_status(url: &str, status: u16) -> (r: Result<(), String>)
    ensures
        status == 200 ==> r is Ok,
        status != 200 ==> (r matches Err(e) && e@ == "GET"@ + " "@ + url@ + " -> status "@ + dec_digits(
            status as nat,
        )),
{
    if status == 200 {
        Ok(())
    } else {
        Err(status_error("GET", url, status))
    }
}

/// The text that the latest history record offers to push: the text of
/// the first text record of `history`, when it has a non-empty one.
pub open spec fn latest_text_of(history: Seq<ClipboardItemView>) -> Option<Seq<char>>
    decreases history.len(),
{
    if history.len() == 0 {
        None
    } else if history[0].content_type == ContentType::Text {
        match history[0].content_text {
            Some(t) if t.len() > 0 => Some(t),
            _ => None,
        }
    } else {
        latest_text_of(history.drop_first())
    }
}

/// The text to push from `history`, newest first (see [`latest_text_of`]).
pub fn latest_local_text(history: &Vec<ClipboardItem>) -> (r: Option<String>)
    ensures
        match (r, latest_text_of(history@.map_values(|c: ClipboardItem| c@))) {
            (Some(a), Some(b)) => a@ == b,
            (None, None) => true,
            _ => false,
        },
{
    let ghost hv = history@.map_values(|c: ClipboardItem| c@);
    let mut i: usize = 0;
    assert(hv.skip(0) =~= hv);
    while i < history.len()
        invariant
            i <= history@.len(),
            hv == history@.map_values(|c: ClipboardItem| c@),
            latest_text_of(hv.skip(i as int)) == latest_text_of(hv),
        decreases history.len() - i,
    {
        assert(hv.skip(i as int)[0] == history@[i as int]@);
        assert(hv.skip(i as int).drop_first() =~= hv.skip(i + 1));
        if history[i].content_type == ContentType::Text {
            return match &history[i].content_text {
                Some(t) => if t.as_str().is_empty() {
                    None
                } else {
                    Some(t.clone())
                },
                None => None,
            };
        }
        i = i + 1;
    }
    None
}

/// What pulling `items` from a peer does to the store `v` at time `now`,
/// and how many records it counts as added: each text record whose
/// fingerprint is not in `local` and whose text is not empty is added as
/// the clipboard would add it; other records are passed over.
pub open spec fn pull_into(v: DbView, local: Seq<Seq<char>>, items: Seq<ClipboardItemView>, now: i64) -> (DbView, nat)
    decreases items.len(),
{
    if items.len() == 0 {
        (v, 0)
    } else {
        let it = items[0];
        if it.content_type == ContentType::Text && !local.contains(it.content_hash) && (it.content_text matches Some(
            t,
        ) && t.len() > 0) {
            let v1 = v.insert_text(it.content_text->0, now).1;
            let (v2, n) = pull_into(v1, local, items.drop_first(), now);
            (v2, n + 1)
        } else {
            pull_into(v, local, items.drop_first(), now)
        }
    }
}

/// Whether `s` is among `v`.
fn contains_text(v: &Vec<String>, s: &String) -> (r: bool)
    ensures
        r == v@.map_values(|x: String| x@).contains(s@),
{
    let ghost vv = v@.map_values(|x: String| x@);
    let mut i: usize = 0;
    while i < v.len()
        invariant
            i <= v@.len(),
            vv == v@.map_values(|x: String| x@),
            forall|j: int| 0 <= j < i ==> vv[j] != s@,
        decreases v.len() - i,
    {
        if str_eq(v[i].as_str(), s.as_str()) {
            assert(vv[i as int] == s@);
            return true;
        }
        i = i + 1;
    }
    false
}

/// Adds the new texts of a peer's history `remote` to the store at time
/// `now` (see [`pull_into`]), judging what is new by the fingerprints of the
/// history shown here before the pull. Returns how many were added.
pub fn pull_remote_items(state: &mut AppState, remote: &Vec<ClipboardItem>, now: i64) -> (r: u64)
    requires
        old(state).wf(),
    ensures
        final(state).wf(),
        exists|sel: Seq<usize>|
            is_ordered_selection(
                time_keys(old(state).db@.items),
                visible_mask(old(state).db@.items),
                old(state).max_history_size as int,
                false,
                sel,
            ) && (final(state).db@, r as nat) == pull_into(
                old(state).db@,
                records_at(old(state).db@.items, sel).map_values(|c: ClipboardItemView| c.content_hash),
                remote@.map_values(|c: ClipboardItem| c@),
                now,
            ),
        final(state).max_history_size == old(state).max_history_size,
        final(state).is_window_visible == old(state).is_window_visible,
        final(state).device_id == old(state).device_id,
{
    let history = state.get_history(false);
    let mut hashes: Vec<String> = Vec::new();
    let mut k: usize = 0;
    while k < history.len()
        invariant
            k <= history@.len(),
            hashes@.len() == k,
            forall|j: int| 0 <= j < k ==> (#[trigger] hashes@[j])@ == history@[j].content_hash@,
        decreases history.len() - k,
    {
        hashes.push(history[k].content_hash.clone());
        k = k + 1;
    }
    let ghost local = hashes@.map_values(|x: String| x@);
    let ghost sel = choose|sel: Seq<usize>|
        is_ordered_selection(
            time_keys(state.db@.items),
            visible_mask(state.db@.items),
            state.max_history_size as int,
            false,
            sel,
        ) && history@.map_values(|c: ClipboardItem| c@) == records_at(state.db@.items, sel);
    assert(local =~= records_at(state.db@.items, sel).map_values(|c: ClipboardItemView| c.content_hash)) by {
        assert forall|j: int| 0 <= j < local.len() implies local[j] == records_at(state.db@.items, sel).map_values(
            |c: ClipboardItemView| c.content_hash,
        )[j] by {
            assert(history@.map_values(|c: ClipboardItem| c@)[j] == history@[j]@);
        }
    }
    let ghost items = remote@.map_values(|c: ClipboardItem| c@);
    let mut added: u64 = 0;
    let mut i: usize = 0;
    assert(items.skip(0) =~= items);
    while i < remote.len()
        invariant
            i <= remote@.len(),
            items == remote@.map_values(|c: ClipboardItem| c@),
            local == hashes@.map_values(|x: String| x@),
            state.wf(),
            added <= i,
            state.max_history_size == old(state).max_history_size,
            state.is_window_visible == old(state).is_window_visible,
            state.device_id == old(state).device_id,
            ({
                let (v0, n0) = pull_into(old(state).db@, local, items, now);
                let (v1, n1) = pull_into(state.db@, local, items.skip(i as int), now);
                v0 == v1 && n0 == n1 + added
            }),
        decreases remote.len() - i,
    {
        let it = &remote[i];
        assert(items.skip(i as int)[0] == it@);
        assert(items.skip(i as int).drop_first() =~= items.skip(i + 1));
        if it.content_type == ContentType::Text && !contains_text(&hashes, &it.content_hash) {
            match &it.content_text {
                Some(t) => {
                    if !t.as_str().is_empty() {
                        let _ = state.push_clipboard(t.clone(), now);
                        added = added + 1;
                    }
                },
                None => {},
            }
        }
        i = i + 1;
    }
    assert(items.skip(i as int) =~= Seq::<ClipboardItemView>::empty());
    added
}

/// Whether an item of the peer's history `remote` has fingerprint `h`.
pub open spec fn hash_on_peer(remote: Seq<ClipboardItemView>, h: Seq<char>) -> bool {
    exists|i: int| 0 <= i < remote.len() && remote[i].content_hash == h
}

/// The text to push to a peer whose history is `remote`: the latest text,
/// unless there is none, it is empty, or the peer holds its fingerprint
/// already.
pub open spec fn push_text_of(latest: Option<Seq<char>>, remote: Seq<ClipboardItemView>) -> Option<Seq<char>> {
    match latest {
        Some(t) => if t.len() > 0 && !hash_on_peer(remote, text_hash(t)) {
            Some(t)
        } else {
            None
        },
        None => None,
    }
}

/// The text to push to a peer whose history is `remote` (see
/// [`push_text_of`]).
pub fn push_payload(text: Option<String>, remote: &Vec<ClipboardItem>) -> (r: Option<String>)
    ensures
        opt_str(r) == push_text_of(opt_str(text), remote@.map_values(|c: ClipboardItem| c@)),
{
    let ghost rv = remote@.map_values(|c: ClipboardItem| c@);
    let ghost tv = opt_str(text);
    match text {
        Some(t) => {
            assert(tv == Some(t@));
            if t.as_str().is_empty() {
                return None;
            }
            let h = compute_hash(t.as_str().as_bytes());
            let mut i: usize = 0;
            while i < remote.len()
                invariant
                    i <= remote@.len(),
                    rv == remote@.map_values(|c: ClipboardItem| c@),
                    h@ == text_hash(t@),
                    tv == Some(t@),
                    tv == opt_str(text),
                    t@.len() > 0,
                    forall|k: int| 0 <= k < i ==> rv[k].content_hash != h@,
                decreases remote.len() - i,
            {
                assert(rv[i as int] == remote@[i as int]@);
                if str_eq(remote[i].content_hash.as_str(), h.as_str()) {
                    assert(rv[i as int].content_hash == text_hash(t@));
                    assert(hash_on_peer(rv, text_hash(t@)));
                    return None;
                }
                i = i + 1;
            }
            Some(t)
        },
        None => None,
    }
}

/// What pulling a peer's history gives: how many records it held, how many
/// were added here, and the text to push back (if any).
pub struct PullPlan {
    pub pulled_total: u64,
    pub pulled_added: u64,
    pub payload: Option<String>,
}

/// The pull half of a sync with a peer whose history is `remote`, at time
/// `now`: the latest local text is taken first (so that pulled texts are
/// not pushed back), then the peer's new texts are added (see
/// [`pull_into`]), and the text to push is chosen (see [`push_text_of`]).
pub fn sync_pull(state: &mut AppState, remote: &Vec<ClipboardItem>, now: i64) -> (r: PullPlan)
    requires
        old(state).wf(),
    ensures
        final(state).wf(),
        r.pulled_total == remote@.len(),
        exists|sel: Seq<usize>|
            is_ordered_selection(
                time_keys(old(state).db@.items),
                visible_mask(old(state).db@.items),
                old(state).max_history_size as int,
                false,
                sel,
            ) && opt_str(r.payload) == push_text_of(
                latest_text_of(records_at(old(state).db@.items, sel)),
                remote@.map_values(|c: ClipboardItem| c@),
            ),
        exists|sel: Seq<usize>|
            is_ordered_selection(
                time_keys(old(state).db@.items),
                visible_mask(old(state).db@.items),
                old(state).max_history_size as int,
                false,
                sel,
            ) && (final(state).db@, r.pulled_added as nat) == pull_into(
                old(state).db@,
                records_at(old(state).db@.items, sel).map_values(|c: ClipboardItemView| c.content_hash),
                remote@.map_values(|c: ClipboardItem| c@),
                now,
            ),
        final(state).max_history_size == old(state).max_history_size,
        final(state).is_window_visible == old(state).is_window_visible,
        final(state).device_id == old(state).device_id,
{
    let history = state.get_history(false);
    let latest = latest_local_text(&history);
    let ghost sel = choose|sel: Seq<usize>|
        is_ordered_selection(
            time_keys(state.db@.items),
            visible_mask(state.db@.items),
            state.max_history_size as int,
            false,
            sel,
        ) && history@.map_values(|c: ClipboardItem| c@) == records_at(state.db@.items, sel);
    let added = pull_remote_items(state, remote, now);
    let payload = push_payload(latest, remote);
    assert(opt_str(payload) == push_text_of(
        latest_text_of(records_at(old(state).db@.items, sel)),
        remote@.map_values(|c: ClipboardItem| c@),
    ));
    PullPlan { pulled_total: remote.len() as u64, pulled_added: added, payload }
}

/// The report of a sync with `peer_device_id` after its pull (`plan`) and
/// the answer to the push (how many texts it delivered, or why it failed).
pub fn finish_sync(peer_device_id: String, plan: &PullPlan, pushed: Result<usize, String>) -> (r: Result<
    SyncReport,
    String,
>)
    ensures
        match pushed {
            Ok(n) => r matches Ok(rep) && report_is(
                rep,
                peer_device_id@,
                plan.pulled_total,
                plan.pulled_added,
                n as u64,
                None,
            ),
            Err(e) => r matches Err(e2) && e2@ == e@,
        },
{
    match pushed {
        Ok(n) => Ok(SyncReport::ok(peer_device_id, plan.pulled_total, plan.pulled_added, n as u64)),
        Err(e) => Err(e),
    }
}

/// How many texts a push to `url` delivered, from the answer to the POST:
/// its status, or the transport error. Status 200 counts one; any other
/// status, or an error, fails with its description.
pub fn push_outcome(url: &str, answer: Result<u16, String>) -> (r: Result<usize, String>)
    ensures
        match answer {
            Ok(s) => if s == 200 {
                r == Ok::<usize, String>(1)
            } else {
                r matches Err(e) && e@ == "POST"@ + " "@ + url@ + " -> status "@ + dec_digits(s as nat)
            },
            Err(d) => r matches Err(e) && e@ == "POST"@ + " "@ + url@ + ": "@ + d@,
        },
{
    match answer {
        Ok(s) => if s == 200 {
            Ok(1)
        } else {
            Err(status_error("POST", url, s))
        },
        Err(d) => Err(request_error("POST", url, d.as_str())),
    }
}

/// What to do next in a sync with a peer: try the peer's API at a base URL,
/// or finish with a report.
pub enum SyncAction {
    Try(String),
    Finish(SyncReport),
}

/// Progress through a peer's addresses: the one being tried, and the error
/// of the last one that failed.
pub struct SyncLoop {
    pub index: usize,
    pub last_err: Option<String>,
}

/// Whether `a` tries the base URL of the peer's address `k`.
pub open spec fn tries(a: SyncAction, peer: DiscoveredPeer, k: int) -> bool {
    a matches SyncAction::Try(b) && 0 <= k < peer.addresses@.len() && b@ == base_url_of(
        peer.addresses@[k]@,
        peer.port,
    )
}

impl SyncLoop {
    /// Starts a sync with `peer`: its first address is tried; a peer with no
    /// address is reported at once (`peer has no address`).
    pub fn begin(peer: &DiscoveredPeer) -> (r: (SyncLoop, SyncAction))
        ensures
            r.0.index == 0,
            r.0.last_err is None,
            peer.addresses@.len() == 0 ==> (r.1 matches SyncAction::Finish(rep) && report_is(
                rep,
                peer.device_id@,
                0,
                0,
                0,
                Some("peer has no address"@),
            )),
            peer.addresses@.len() > 0 ==> tries(r.1, *peer, 0),
    {
        if peer.addresses.len() == 0 {
            let rep = SyncReport::failed(peer.device_id.clone(), Some("peer has no address".to_owned()));
            (SyncLoop { index: 0, last_err: None }, SyncAction::Finish(rep))
        } else {
            let b = base_url(peer.addresses[0].as_str(), peer.port);
            (SyncLoop { index: 0, last_err: None }, SyncAction::Try(b))
        }
    }

    /// Takes the result of trying the current address: a report ends the
    /// sync with it; an error is kept and the next address is tried, or,
    /// after the last, the sync ends with a report of that error.
    pub fn on_result(&mut self, peer: &DiscoveredPeer, result: Result<SyncReport, String>) -> (r: SyncAction)
        requires
            old(self).index < peer.addresses@.len(),
        ensures
            match result {
                Ok(rep) => r == SyncAction::Finish(rep),
                Err(e) => {
                    &&& final(self).index == old(self).index + 1
                    &&& final(self).last_err matches Some(l) && l@ == e@
                    &&& final(self).index < peer.addresses@.len() ==> tries(r, *peer, final(self).index as int)
                    &&& final(self).index == peer.addresses@.len() ==> (r matches SyncAction::Finish(rep)
                        && report_is(rep, peer.device_id@, 0, 0, 0, Some(e@)))
                },
            },
    {
        match result {
            Ok(rep) => SyncAction::Finish(rep),
            Err(e) => {
                let n: usize = peer.addresses.len();
                assert(self.index < n);
                self.index = self.index + 1;
                if self.index < peer.addresses.len() {
                    self.last_err = Some(e);
                    SyncAction::Try(base_url(peer.addresses[self.index].as_str(), peer.port))
                } else {
                    self.last_err = Some(e.clone());
                    SyncAction::Finish(SyncReport::failed(peer.device_id.clone(), Some(e)))
                }
            },
        }
    }
}

} // verus!
