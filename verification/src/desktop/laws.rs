//! Properties of the desktop shell's decisions that span several steps.

use vstd::prelude::*;
use vstd::utf8::encode_utf8;
use crate::desktop::settings::{parsed_i32, all_digits, digits_value};
use crate::text::{dec_text, dec_digits, digit_char, utf8_len, char_utf8_len, lemma_utf8_len_add, lemma_utf8_len_first};
use crate::desktop::history_view::{display_text, fit_len, last_newline};
use crate::desktop::focus::{FocusState, HoverInput, HoverAction, hover_next, inside_of, on_edge_of};
use crate::desktop::clipboard_watch::{ClipboardWatch, watch_step};
use crate::desktop::peers::{names_of, other_than};
use crate::shared::discovery::DiscoveredPeer;

verus! {

/// Hovering gives focus back: when the mouse enters our window while
/// another window has focus, our window takes focus; when it then leaves,
/// away from the edges, while our window still has focus, focus goes back
/// to that other window.
pub proof fn law_hover_enter_then_leave(s: FocusState, enter: HoverInput, leave: HoverInput, app_hwnd: isize)
    requires
        app_hwnd != 0,
        !s.mouse_inside,
        inside_of(enter),
        !enter.left_button_pressed,
        enter.foreground != 0,
        enter.foreground != app_hwnd,
        !inside_of(leave),
        !on_edge_of(leave),
        leave.foreground == app_hwnd,
    ensures
        ({
            let (s1, a1) = hover_next(s, enter, app_hwnd);
            let (s2, a2) = hover_next(s1, leave, app_hwnd);
            a1 == HoverAction::Focus(app_hwnd) && s1.mouse_inside && a2 == HoverAction::Focus(enter.foreground)
                && !s2.mouse_inside
        }),
{
}

/// A second look at unchanged clipboard content reports nothing new and
/// changes nothing, unless the first look took the fingerprint of an image
/// the shell announced in place of the one on the clipboard.
pub proof fn law_second_look_is_quiet(w: ClipboardWatch, text: Option<Seq<char>>, image: Option<Seq<u8>>)
    requires
        !w.skip_next_image,
        image matches Some(b) ==> b.len() <= usize::MAX,
        text matches Some(t) ==> encode_utf8(t).len() <= usize::MAX,
    ensures
        ({
            let (w1, _, _) = watch_step(w, text, image);
            let (w2, new_image, new_text) = watch_step(w1, text, image);
            !new_image && !new_text && w2 == w1
        }),
{
}

/// Text the shell wrote itself, once announced, is not reported as new.
pub proof fn law_skipped_text_is_not_new(w: ClipboardWatch, text: Option<Seq<char>>, image: Option<Seq<u8>>)
    requires
        w.skip_next_text,
    ensures
        !watch_step(w, text, image).2,
        !watch_step(w, text, image).0.skip_next_text,
{
}

/// The decimal digits of `m` are digits and stand for `m`.
proof fn lemma_dec_digits_value(m: nat)
    ensures
        dec_digits(m).len() > 0,
        all_digits(dec_digits(m)),
        digits_value(dec_digits(m)) == m,
    decreases m,
{
    let d = (m % 10) as int;
    assert(digit_char(d) as int == 48 + d);
    if m >= 10 {
        lemma_dec_digits_value(m / 10);
        let s = dec_digits(m);
        assert(s == dec_digits(m / 10).push(digit_char(d)));
        assert(s.drop_last() =~= dec_digits(m / 10));
        assert(s.last() == digit_char(d));
        assert('0' as int == 48);
        assert((m / 10) as int * 10 + d == m);
        assert(digits_value(s) == digits_value(dec_digits(m / 10)) * 10 + (digit_char(d) as int - '0' as int));
        assert(digits_value(dec_digits(m / 10)) == m / 10);
        assert(digits_value(s) == m);
        assert forall|i: int| 0 <= i < s.len() implies '0' <= #[trigger] s[i] && s[i] <= '9' by {
            if i < s.len() - 1 {
                assert(s[i] == dec_digits(m / 10)[i]);
            }
        }
    } else {
        assert(dec_digits(m) =~= seq![digit_char(d)]);
        assert(dec_digits(m).drop_last() =~= Seq::<char>::empty());
        assert('0' as int == 48);
        assert(dec_digits(m).last() == digit_char(d));
        assert(d == m);
        assert(digits_value(dec_digits(m).drop_last()) == 0);
        assert(digits_value(dec_digits(m)) == m);
    }
}

/// A number saved in decimal reads back as the same number.
pub proof fn law_saved_number_reads_back(n: i32)
    ensures
        parsed_i32(dec_text(n as int)) == Some(n),
{
    if n < 0 {
        let m = (-(n as int)) as nat;
        lemma_dec_digits_value(m);
        let s = dec_text(n as int);
        assert(s == seq!['-'] + dec_digits(m));
        assert(s[0] == '-');
        assert(s.drop_first() =~= dec_digits(m));
    } else {
        let m = n as nat;
        lemma_dec_digits_value(m);
        let s = dec_text(n as int);
        assert(s == dec_digits(m));
        assert('0' <= s[0] && s[0] <= '9');
    }
}

/// The characters that fit are within the byte budget.
proof fn lemma_fit_len_fits(s: Seq<char>, max: int)
    requires
        max >= 0,
    ensures
        fit_len(s, max) <= s.len(),
        utf8_len(s.take(fit_len(s, max) as int)) <= max,
    decreases s.len(),
{
    if s.len() == 0 || char_utf8_len(s[0]) > max {
        assert(s.take(0) =~= Seq::<char>::empty());
    } else {
        let w = char_utf8_len(s[0]);
        let rest = s.drop_first();
        lemma_fit_len_fits(rest, max - w);
        let k = fit_len(rest, max - w);
        let t = s.take(k + 1int);
        assert(t.len() > 0);
        assert(t.drop_first() =~= rest.take(k as int));
        lemma_utf8_len_first(t);
    }
}

/// ASCII text takes one byte per character.
proof fn lemma_ascii_marker_len()
    ensures
        utf8_len("\n..."@) == 4,
        utf8_len("..."@) == 3,
{
    reveal_strlit("\n...");
    reveal_strlit("...");
    let d3 = seq!['.', '.', '.'];
    let d2 = seq!['.', '.'];
    let d1 = seq!['.'];
    let e = Seq::<char>::empty();
    let n4 = seq!['\n', '.', '.', '.'];
    let n3 = seq!['\n', '.', '.'];
    let n2 = seq!['\n', '.'];
    let n1 = seq!['\n'];
    assert("..."@ =~= d3);
    assert("\n..."@ =~= n4);
    assert(d3.drop_last() =~= d2);
    assert(d2.drop_last() =~= d1);
    assert(d1.drop_last() =~= e);
    assert(n4.drop_last() =~= n3);
    assert(n3.drop_last() =~= n2);
    assert(n2.drop_last() =~= n1);
    assert(n1.drop_last() =~= e);
    assert(char_utf8_len('.') == 1);
    assert(char_utf8_len('\n') == 1);
    assert(utf8_len(e) == 0);
    assert(d1.last() == '.' && d2.last() == '.' && d3.last() == '.');
    assert(n1.last() == '\n' && n2.last() == '.' && n3.last() == '.' && n4.last() == '.');
    assert(utf8_len(d1) == 1);
    assert(utf8_len(d2) == 2);
    assert(utf8_len(d3) == 3);
    assert(utf8_len(n1) == 1);
    assert(utf8_len(n2) == 2);
    assert(utf8_len(n3) == 3);
    assert(utf8_len(n4) == 4);
}

/// Text cut down for display takes at most the budget in UTF-8 bytes plus
/// the four bytes of the line feed and `...` that mark the cut.
pub proof fn law_display_text_fits(s: Seq<char>, max_bytes: nat)
    ensures
        utf8_len(display_text(s, max_bytes)) <= max_bytes + 4,
{
    if utf8_len(s) > max_bytes {
        let p = s.take(fit_len(s, max_bytes as int) as int);
        lemma_fit_len_fits(s, max_bytes as int);
        lemma_ascii_marker_len();
        match last_newline(p) {
            Some(k) => {
                lemma_last_newline_in_range(p);
                assert(p =~= p.take(k) + p.skip(k));
                lemma_utf8_len_add(p.take(k), p.skip(k));
                lemma_utf8_len_add(p.take(k), "\n..."@);
            },
            None => {
                lemma_utf8_len_add(p, "..."@);
            },
        }
    }
}

/// The last line feed lies within the text.
proof fn lemma_last_newline_in_range(s: Seq<char>)
    ensures
        last_newline(s) matches Some(k) ==> 0 <= k < s.len(),
    decreases s.len(),
{
    if s.len() > 0 && s.last() != '\n' {
        lemma_last_newline_in_range(s.drop_last());
    }
}

/// A device found once is listed, so finding it again adds nothing (see
/// [`crate::desktop::peers::PeerList::on_discovered`]); once lost it is no
/// longer listed.
pub proof fn law_found_device_is_listed(peers: Seq<DiscoveredPeer>, p: DiscoveredPeer)
    ensures
        names_of(peers.push(p)).contains(p.fullname@),
        !names_of(peers.filter(other_than(p.fullname@))).contains(p.fullname@),
{
    assert(names_of(peers.push(p))[peers.len() as int] == p.fullname@);
    let kept = peers.filter(other_than(p.fullname@));
    assert forall|k: int| 0 <= k < names_of(kept).len() implies names_of(kept)[k] != p.fullname@ by {
        peers.lemma_filter_pred(other_than(p.fullname@), k);
    }
}

} // verus!
