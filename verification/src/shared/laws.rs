//! Properties of discovery and sync that hold for all inputs.

use vstd::prelude::*;
use crate::shared::discovery::{label_of, is_label_char, host_name_of};
use crate::shared::sync_device::pull_into;
use crate::shared::database::DbView;
use crate::shared::models::ClipboardItemView;
use crate::text::{ends_with, is_white, trim_white, trim_start_white, trim_end_white, split_white, split_white_from, split_lines, contains_seq};
use crate::shared::device::{
    stored_id_of, guid_of_lines, fallback_id_of, law_fallback_id_is_v4, is_hex_char, device_id_of, device_id_needs_write,
};

verus! {

/// Every name cut down for the network is a valid DNS label: not empty,
/// and made of ASCII letters, digits and `-` only.
pub proof fn law_label_is_dns_label(s: Seq<char>)
    ensures
        label_of(s).len() > 0,
        forall|i: int| 0 <= i < label_of(s).len() ==> is_label_char(#[trigger] label_of(s)[i]),
{
    let kept = s.filter(|c: char| is_label_char(c));
    if kept.len() == 0 {
        reveal_strlit("device");
        assert("device"@ =~= seq!['d', 'e', 'v', 'i', 'c', 'e']);
    } else {
        assert forall|i: int| 0 <= i < kept.len() implies is_label_char(#[trigger] kept[i]) by {
            s.lemma_filter_pred(|c: char| is_label_char(c), i);
        }
    }
}

/// The host name announced always lies in the `.local.` domain.
pub proof fn law_host_name_is_local(computer_name: Option<Seq<char>>, host_name: Option<Seq<char>>)
    ensures
        ends_with(host_name_of(computer_name, host_name), ".local."@),
        host_name_of(computer_name, host_name).len() > 0,
{
    reveal_strlit(".local.");
    let raw = match computer_name {
        Some(c) if c.len() > 0 => c,
        _ => match host_name {
            Some(h) if h.len() > 0 => h,
            _ => "pastebridge"@,
        },
    };
    reveal_strlit("pastebridge");
    if !ends_with(raw, ".local."@) {
        let full = raw + ".local."@;
        assert(full.subrange(full.len() - 7, full.len() as int) =~= ".local."@);
    }
}

/// A sync adds no more records than the peer's history holds.
pub proof fn law_pull_adds_at_most_pulled(v: DbView, local: Seq<Seq<char>>, items: Seq<ClipboardItemView>, now: i64)
    ensures
        pull_into(v, local, items, now).1 <= items.len(),
    decreases items.len(),
{
    if items.len() > 0 {
        let it = items[0];
        if it.content_type == crate::shared::models::ContentType::Text && !local.contains(it.content_hash) && (
        it.content_text matches Some(t) && t.len() > 0) {
            let v1 = v.insert_text(it.content_text->0, now).1;
            law_pull_adds_at_most_pulled(v1, local, items.drop_first(), now);
        } else {
            law_pull_adds_at_most_pulled(v, local, items.drop_first(), now);
        }
    }
}

/// Whether no character of `s` is white space.
pub open spec fn no_white(s: Seq<char>) -> bool {
    forall|i: int| 0 <= i < s.len() ==> !is_white(#[trigger] s[i])
}

/// Trimming takes off leading white space only: what is left is a suffix,
/// and starts with a character that is not white space when not empty.
proof fn lemma_trim_start(s: Seq<char>)
    ensures
        trim_start_white(s).len() <= s.len(),
        trim_start_white(s) == s.skip(s.len() - trim_start_white(s).len()),
        trim_start_white(s).len() > 0 ==> !is_white(trim_start_white(s)[0]),
    decreases s.len(),
{
    if s.len() > 0 && is_white(s[0]) {
        lemma_trim_start(s.drop_first());
        let t = trim_start_white(s.drop_first());
        assert(s.drop_first().skip(s.drop_first().len() - t.len()) =~= s.skip(s.len() - t.len()));
    } else {
        assert(s.skip(0) =~= s);
    }
}

/// Trimming the end keeps a prefix, which ends with a character that is not
/// white space when not empty.
proof fn lemma_trim_end(s: Seq<char>)
    ensures
        trim_end_white(s).len() <= s.len(),
        trim_end_white(s) == s.take(trim_end_white(s).len() as int),
        trim_end_white(s).len() > 0 ==> !is_white(trim_end_white(s).last()),
    decreases s.len(),
{
    if s.len() > 0 && is_white(s.last()) {
        lemma_trim_end(s.drop_last());
        let t = trim_end_white(s.drop_last());
        assert(s.drop_last().take(t.len() as int) =~= s.take(t.len() as int));
    } else {
        assert(s.take(s.len() as int) =~= s);
    }
}

/// Text that neither starts nor ends with white space is its own trim.
proof fn lemma_trim_fixed(s: Seq<char>)
    requires
        s.len() > 0,
        !is_white(s[0]),
        !is_white(s.last()),
    ensures
        trim_white(s) == s,
{
}

/// Trimmed text, when not empty, neither starts nor ends with white space.
proof fn lemma_trim_ends(c: Seq<char>)
    ensures
        trim_white(c).len() > 0 ==> !is_white(trim_white(c)[0]) && !is_white(trim_white(c).last()),
{
    lemma_trim_start(c);
    let t = trim_start_white(c);
    lemma_trim_end(t);
    let u = trim_end_white(t);
    if u.len() > 0 {
        assert(u[0] == t[0]);
    }
}

/// Every word split off is non-empty and holds no white space.
proof fn lemma_words_have_no_white(rest: Seq<char>, done: Seq<Seq<char>>, cur: Seq<char>)
    requires
        forall|k: int| 0 <= k < done.len() ==> (#[trigger] done[k]).len() > 0 && no_white(done[k]),
        no_white(cur),
    ensures
        ({
            let ws = split_white_from(rest, done, cur);
            forall|k: int| 0 <= k < ws.len() ==> (#[trigger] ws[k]).len() > 0 && no_white(ws[k])
        }),
    decreases rest.len(),
{
    let flushed = if cur.len() > 0 { done.push(cur) } else { done };
    assert forall|k: int| 0 <= k < flushed.len() implies (#[trigger] flushed[k]).len() > 0 && no_white(flushed[k]) by {
        if k < done.len() {
            assert(flushed[k] == done[k]);
        }
    }
    if rest.len() == 0 {
        assert(split_white_from(rest, done, cur) == flushed);
    } else {
        if is_white(rest[0]) {
            assert(no_white(Seq::<char>::empty()));
            assert(split_white_from(rest, done, cur) == split_white_from(rest.drop_first(), flushed, Seq::empty()));
            lemma_words_have_no_white(rest.drop_first(), flushed, Seq::empty());
        } else {
            let c2 = cur.push(rest[0]);
            assert forall|i: int| 0 <= i < c2.len() implies !is_white(#[trigger] c2[i]) by {
                if i < cur.len() {
                    assert(c2[i] == cur[i]);
                }
            }
            assert(split_white_from(rest, done, cur) == split_white_from(rest.drop_first(), done, c2));
            lemma_words_have_no_white(rest.drop_first(), done, c2);
        }
    }
}

/// The GUID read from the registry output, when there is one, is a word.
proof fn lemma_guid_is_word(lines: Seq<Seq<char>>)
    ensures
        guid_of_lines(lines) matches Some(g) ==> g.len() > 0 && no_white(g),
    decreases lines.len(),
{
    if lines.len() > 0 {
        if contains_seq(lines[0], "MachineGuid"@) && split_white(lines[0]).len() >= 3 {
            lemma_words_have_no_white(lines[0], Seq::empty(), Seq::empty());
            let ws = split_white(lines[0]);
            assert(ws.last() == ws[ws.len() - 1]);
        } else {
            lemma_guid_is_word(lines.drop_first());
        }
    }
}

/// The identifier settled on reads back unchanged from the file it is kept
/// in, so a second start settles on the same identifier, whatever the
/// registry and the clock say then.
pub proof fn law_device_id_reads_back(
    content: Option<Seq<char>>,
    registry_output: Seq<char>,
    now: u128,
    random: u32,
    output2: Seq<char>,
    now2: u128,
    random2: u32,
)
    ensures
        ({
            let id = device_id_of(content, registry_output, now, random);
            id.len() > 0 && stored_id_of(id) == Some(id) && device_id_of(Some(id), output2, now2, random2) == id
        }),
{
    let id = device_id_of(content, registry_output, now, random);
    let stored = match content {
        Some(c) => stored_id_of(c),
        None => None,
    };
    if stored is Some {
        let c = content->0;
        lemma_trim_ends(c);
        lemma_trim_fixed(trim_white(c));
    } else {
        match guid_of_lines(split_lines(registry_output)) {
            Some(g) => {
                lemma_guid_is_word(split_lines(registry_output));
                assert(!is_white(g[0]) && !is_white(g.last()));
                lemma_trim_fixed(g);
            },
            None => {
                law_fallback_id_is_v4(now, random);
                let f = fallback_id_of(now, random);
                assert(is_hex_char(f[0]) && is_hex_char(f[35]));
                assert(f.last() == f[35]);
                lemma_trim_fixed(f);
            },
        }
    }
}

/// Two starts settle on the same identifier: after the first, the file is
/// written with the identifier where it was to be written, and the second
/// then reads it back, whatever the registry, the clock and chance say the
/// second time.
pub proof fn law_device_id_two_calls(
    content: Option<Seq<char>>,
    registry_output: Seq<char>,
    now: u128,
    random: u32,
    output2: Seq<char>,
    now2: u128,
    random2: u32,
)
    ensures
        ({
            let id = device_id_of(content, registry_output, now, random);
            let content2 = if device_id_needs_write(content) {
                Some(id)
            } else {
                content
            };
            device_id_of(content2, output2, now2, random2) == id
        }),
{
    law_device_id_reads_back(content, registry_output, now, random, output2, now2, random2);
}

} // verus!
