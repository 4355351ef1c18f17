//! Finding other devices on the local network over mDNS: the names and
//! records this device announces, and the peers read from resolved
//! services. Talking to the network is left to the caller.

use vstd::prelude::*;
use crate::text::{
    str_eq, chars_of, string_from_chars, push_str_chars, push_dec_digits, dec_digits, ends_with, chars_end_with,
};

verus! {

/// The mDNS service type of the clipboard sync service.
pub const SERVICE_TYPE: &'static str = "_pastebridge._tcp.local.";

/// A device found on the network.
#[derive(Debug, Clone)]
pub struct DiscoveredPeer {
    /// The device's stable identifier (its `device_id` record, else the
    /// service's full name).
    pub device_id: String,
    /// The platform it runs on (`desktop`, `android`, `ios`; empty when not
    /// announced).
    pub platform: String,
    /// Its addresses, as text.
    pub addresses: Vec<String>,
    /// The port of its HTTP API.
    pub port: u16,
    /// The service's full mDNS name.
    pub fullname: String,
}

/// Whether `c` may stand in a DNS label: an ASCII letter or digit, or `-`.
pub open spec fn is_label_char(c: char) -> bool {
    ('a' <= c && c <= 'z') || ('A' <= c && c <= 'Z') || ('0' <= c && c <= '9') || c == '-'
}

/// `s` cut down to a DNS label: only its ASCII letters, digits and `-`, in
/// order, or `device` when none is left.
pub open spec fn label_of(s: Seq<char>) -> Seq<char> {
    let kept = s.filter(|c: char| is_label_char(c));
    if kept.len() == 0 {
        "device"@
    } else {
        kept
    }
}

/// Cuts `s` down to a DNS label (see [`label_of`]).
pub fn sanitize_label(s: &str) -> (r: String)
    ensures
        r@ == label_of(s@),
{
    let cs = chars_of(s);
    let mut out: Vec<char> = Vec::new();
    let mut i: usize = 0;
    while i < cs.len()
        invariant
            cs@ == s@,
            i <= cs@.len(),
            out@ == cs@.take(i as int).filter(|c: char| is_label_char(c)),
        decreases cs.len() - i,
    {
        let c = cs[i];
        assert(cs@.take(i + 1).drop_last() =~= cs@.take(i as int));
        assert(cs@.take(i + 1).last() == c);
        proof {
            reveal(Seq::filter);
        }
        if ('a' <= c && c <= 'z') || ('A' <= c && c <= 'Z') || ('0' <= c && c <= '9') || c == '-' {
            out.push(c);
        }
        i = i + 1;
    }
    assert(cs@.take(i as int) =~= cs@);
    if out.len() == 0 {
        "device".to_owned()
    } else {
        string_from_chars(out.as_slice())
    }
}

/// The first `n` characters of `s` (all of it when shorter).
pub open spec fn prefix_chars(s: Seq<char>, n: nat) -> Seq<char> {
    if s.len() <= n {
        s
    } else {
        s.take(n as int)
    }
}

/// The instance name announced for `device_id` on `port`:
/// `PasteBridge-<label of its first 8 characters>-<port>` (a DNS label
/// leaves little room, so only the start of the identifier is shown; the
/// whole identifier goes in the `device_id` text record).
pub open spec fn service_name_of(device_id: Seq<char>, port: u16) -> Seq<char> {
    "PasteBridge-"@ + label_of(prefix_chars(device_id, 8)) + "-"@ + dec_digits(port as nat)
}

/// The instance name announced for `device_id` on `port` (see
/// [`service_name_of`]).
pub fn service_name(device_id: &str, port: u16) -> (r: String)
    ensures
        r@ == service_name_of(device_id@, port),
{
    let cs = chars_of(device_id);
    let n: usize = if cs.len() <= 8 { cs.len() } else { 8 };
    let short = string_from_chars(vstd::slice::slice_subrange(cs.as_slice(), 0, n));
    assert(short@ =~= prefix_chars(device_id@, 8));
    let label = sanitize_label(short.as_str());
    let mut out: Vec<char> = Vec::new();
    push_str_chars(&mut out, "PasteBridge-");
    push_str_chars(&mut out, label.as_str());
    push_str_chars(&mut out, "-");
    push_dec_digits(port as u64, &mut out);
    assert(out@ =~= service_name_of(device_id@, port));
    string_from_chars(out.as_slice())
}

/// The host name announced: the computer's name if set and not empty, else
/// the host's name if set and not empty, else `pastebridge`; with `.local.`
/// appended unless it ends so already.
pub open spec fn host_name_of(computer_name: Option<Seq<char>>, host_name: Option<Seq<char>>) -> Seq<char> {
    let raw = match computer_name {
        Some(c) if c.len() > 0 => c,
        _ => match host_name {
            Some(h) if h.len() > 0 => h,
            _ => "pastebridge"@,
        },
    };
    if ends_with(raw, ".local."@) {
        raw
    } else {
        raw + ".local."@
    }
}

/// The host name announced, from the values of the `COMPUTERNAME` and
/// `HOSTNAME` settings of the environment (see [`host_name_of`]).
pub fn resolve_hostname(computer_name: Option<String>, host_name: Option<String>) -> (r: String)
    ensures
        r@ == host_name_of(
            match computer_name {
                Some(c) => Some(c@),
                None => None,
            },
            match host_name {
                Some(h) => Some(h@),
                None => None,
            },
        ),
        r@.len() > 0,
{
    let raw: Vec<char> = match computer_name {
        Some(c) if !c.as_str().is_empty() => chars_of(c.as_str()),
        _ => match host_name {
            Some(h) if !h.as_str().is_empty() => chars_of(h.as_str()),
            _ => chars_of("pastebridge"),
        },
    };
    let suffix = chars_of(".local.");
    proof {
        reveal_strlit(".local.");
        reveal_strlit("pastebridge");
    }
    if chars_end_with(&raw, &suffix) {
        string_from_chars(raw.as_slice())
    } else {
        let mut out = raw;
        push_str_chars(&mut out, ".local.");
        string_from_chars(out.as_slice())
    }
}

/// The address list given to the announcement: the addresses joined by
/// commas, or `0.0.0.0` when there are none.
pub open spec fn address_arg_of(addresses: Seq<Seq<char>>) -> Seq<char>
    decreases addresses.len(),
{
    if addresses.len() == 0 {
        "0.0.0.0"@
    } else {
        joined_by_commas(addresses)
    }
}

/// The texts of `ws` joined by commas.
pub open spec fn joined_by_commas(ws: Seq<Seq<char>>) -> Seq<char>
    decreases ws.len(),
{
    if ws.len() == 0 {
        Seq::empty()
    } else if ws.len() == 1 {
        ws[0]
    } else {
        joined_by_commas(ws.drop_last()) + seq![','] + ws.last()
    }
}

/// The address list given to the announcement (see [`address_arg_of`]).
pub fn address_arg(addresses: &[String]) -> (r: String)
    ensures
        r@ == address_arg_of(addresses@.map_values(|a: String| a@)),
{
    if addresses.len() == 0 {
        return "0.0.0.0".to_owned();
    }
    let ghost wv = addresses@.map_values(|a: String| a@);
    let mut out: Vec<char> = Vec::new();
    let mut i: usize = 0;
    while i < addresses.len()
        invariant
            wv == addresses@.map_values(|a: String| a@),
            i <= addresses@.len(),
            out@ == joined_by_commas(wv.take(i as int)),
        decreases addresses.len() - i,
    {
        if i > 0 {
            out.push(',');
        }
        push_str_chars(&mut out, addresses[i].as_str());
        assert(wv.take(i + 1).drop_last() =~= wv.take(i as int));
        if i == 0 {
            assert(out@ =~= joined_by_commas(wv.take(1)));
        } else {
            assert(out@ =~= joined_by_commas(wv.take(i + 1)));
        }
        i = i + 1;
    }
    assert(wv.take(i as int) =~= wv);
    string_from_chars(out.as_slice())
}

/// What this device announces: instance name, host name, address list,
/// port, and the text records (`device_id`, `platform`).
pub struct Registration {
    pub service_name: String,
    pub host: String,
    pub ip_arg: String,
    pub port: u16,
    pub properties: Vec<(String, String)>,
}

/// What this device announces for `device_id` on `platform` and `port`,
/// with its addresses and host name.
pub fn registration(device_id: &str, platform: &str, port: u16, addresses: &[String], host: String) -> (r: Registration)
    ensures
        r.service_name@ == service_name_of(device_id@, port),
        r.host@ == host@,
        r.ip_arg@ == address_arg_of(addresses@.map_values(|a: String| a@)),
        r.port == port,
        r.properties@.len() == 2,
        r.properties@[0].0@ == "device_id"@ && r.properties@[0].1@ == device_id@,
        r.properties@[1].0@ == "platform"@ && r.properties@[1].1@ == platform@,
{
    let mut properties: Vec<(String, String)> = Vec::new();
    properties.push(("device_id".to_owned(), device_id.to_owned()));
    properties.push(("platform".to_owned(), platform.to_owned()));
    Registration {
        service_name: service_name(device_id, port),
        host,
        ip_arg: address_arg(addresses),
        port,
        properties,
    }
}

/// `ws` with every text that occurred earlier left out: each distinct text
/// once, in the order of its first occurrence.
pub open spec fn distinct_texts(ws: Seq<Seq<char>>) -> Seq<Seq<char>>
    decreases ws.len(),
{
    if ws.len() == 0 {
        Seq::empty()
    } else {
        let d = distinct_texts(ws.drop_last());
        if d.contains(ws.last()) {
            d
        } else {
            d.push(ws.last())
        }
    }
}

/// The peer described by a resolved service: its full name and port, its
/// `device_id` and `platform` text records where present, and its
/// addresses as text, each distinct address once (see [`distinct_texts`]).
/// The identifier falls back to the full name, the platform to the empty
/// text.
pub fn peer_from_resolved(
    fullname: String,
    port: u16,
    device_id: Option<String>,
    platform: Option<String>,
    addresses: Vec<String>,
) -> (r: DiscoveredPeer)
    ensures
        r.fullname@ == fullname@,
        r.port == port,
        r.device_id@ == match device_id {
            Some(d) => d@,
            None => fullname@,
        },
        r.platform@ == match platform {
            Some(p) => p@,
            None => Seq::<char>::empty(),
        },
        r.addresses@.map_values(|a: String| a@) == distinct_texts(addresses@.map_values(|a: String| a@)),
{
    let id = match device_id {
        Some(d) => d,
        None => fullname.clone(),
    };
    let plat = match platform {
        Some(p) => p,
        None => String::new(),
    };
    let ghost av = addresses@.map_values(|a: String| a@);
    let mut unique: Vec<String> = Vec::new();
    let mut i: usize = 0;
    while i < addresses.len()
        invariant
            i <= addresses@.len(),
            av == addresses@.map_values(|a: String| a@),
            unique@.map_values(|a: String| a@) == distinct_texts(av.take(i as int)),
        decreases addresses.len() - i,
    {
        let ghost uv = unique@.map_values(|a: String| a@);
        assert(av.take(i + 1).drop_last() =~= av.take(i as int));
        assert(av.take(i + 1).last() == addresses@[i as int]@);
        let mut seen = false;
        let mut k: usize = 0;
        while k < unique.len()
            invariant
                k <= unique@.len(),
                uv == unique@.map_values(|a: String| a@),
                seen == exists|j: int| 0 <= j < k && uv[j] == addresses@[i as int]@,
                i < addresses@.len(),
            decreases unique.len() - k,
        {
            if str_eq(unique[k].as_str(), addresses[i].as_str()) {
                assert(uv[k as int] == addresses@[i as int]@);
                seen = true;
            }
            k = k + 1;
        }
        assert(seen == uv.contains(addresses@[i as int]@));
        if !seen {
            unique.push(addresses[i].clone());
            assert(unique@.map_values(|a: String| a@) =~= uv.push(addresses@[i as int]@));
        }
        i = i + 1;
    }
    assert(av.take(i as int) =~= av);
    DiscoveredPeer { device_id: id, platform: plat, addresses: unique, port, fullname }
}

} // verus!
