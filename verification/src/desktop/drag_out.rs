//! Dragging text out of the window to other applications with OLE
//! drag-and-drop: the answers given to the system during a drag, the data
//! handed over, and noticing when the mouse comes back into our window so
//! that the drag goes on inside it. The COM plumbing is the shell's.

use vstd::prelude::*;
use vstd::utf8::encode_utf8;
use crate::text::chars_of;

verus! {

/// Success.
pub const S_OK: i32 = 0;
/// Success, answering "no".
pub const S_FALSE: i32 = 1;
/// The method is not implemented.
pub const E_NOTIMPL: i32 = -2147467263;
/// The interface asked for is not offered.
pub const E_NOINTERFACE: i32 = -2147467262;
/// A null pointer was passed.
pub const E_UNEXPECTED: i32 = -2147418113;
/// The data format asked for is not offered.
pub const DV_E_FORMATETC: i32 = -2147221404;
/// The aspect asked for is not offered.
pub const DV_E_DVASPECT: i32 = -2147221403;
/// The canonical format is the one asked for.
pub const DATA_S_SAMEFORMATETC: i32 = 0x0004_0130;
/// Drop the data here.
pub const DRAGDROP_S_DROP: i32 = 0x0004_0100;
/// Cancel the drag.
pub const DRAGDROP_S_CANCEL: i32 = 0x0004_0101;
/// Use the default cursors.
pub const DRAGDROP_S_USEDEFAULTCURSORS: i32 = 0x0004_0102;
/// ANSI text.
pub const CF_TEXT: u16 = 1;
/// UTF-16 text.
pub const CF_UNICODETEXT: u16 = 13;
/// The content aspect.
pub const DVASPECT_CONTENT: u32 = 1;
/// The left mouse button in a key state.
pub const MK_LBUTTON: u32 = 0x0001;
/// The right mouse button in a key state.
pub const MK_RBUTTON: u32 = 0x0002;
/// The middle mouse button in a key state.
pub const MK_MBUTTON: u32 = 0x0010;

/// A COM interface identifier.
#[derive(Debug, Clone, Copy)]
pub struct Guid {
    pub data1: u32,
    pub data2: u16,
    pub data3: u16,
    pub data4: [u8; 8],
}

/// Whether two identifiers are the same, field by field.
pub open spec fn same_guid(a: Guid, b: Guid) -> bool {
    a.data1 == b.data1 && a.data2 == b.data2 && a.data3 == b.data3 && a.data4@ == b.data4@
}

/// Whether two identifiers are the same (see [`same_guid`]).
pub fn guid_eq(a: &Guid, b: &Guid) -> (r: bool)
    ensures
        r == same_guid(*a, *b),
{
    if a.data1 != b.data1 || a.data2 != b.data2 || a.data3 != b.data3 {
        return false;
    }
    let mut i: usize = 0;
    while i < 8
        invariant
            i <= 8,
            forall|k: int| 0 <= k < i ==> a.data4@[k] == b.data4@[k],
        decreases 8 - i,
    {
        if a.data4[i] != b.data4[i] {
            return false;
        }
        i = i + 1;
    }
    assert(a.data4@ =~= b.data4@);
    true
}

/// An identifier of the standard `{xxxxxxxx-0000-0000-C000-000000000046}`
/// form.
pub open spec fn ole_guid(data1: u32) -> Guid {
    Guid { data1, data2: 0, data3: 0, data4: [0xC0u8, 0, 0, 0, 0, 0, 0, 0x46u8] }
}

/// The identifier of `IUnknown`.
pub fn iid_iunknown() -> (r: Guid)
    ensures
        same_guid(r, ole_guid(0)),
{
    Guid { data1: 0, data2: 0, data3: 0, data4: [0xC0u8, 0, 0, 0, 0, 0, 0, 0x46u8] }
}

/// The identifier of `IDataObject`.
pub fn iid_idataobject() -> (r: Guid)
    ensures
        same_guid(r, ole_guid(0x10E)),
{
    Guid { data1: 0x10E, data2: 0, data3: 0, data4: [0xC0u8, 0, 0, 0, 0, 0, 0, 0x46u8] }
}

/// The identifier of `IDropSource`.
pub fn iid_idropsource() -> (r: Guid)
    ensures
        same_guid(r, ole_guid(0x121)),
{
    Guid { data1: 0x121, data2: 0, data3: 0, data4: [0xC0u8, 0, 0, 0, 0, 0, 0, 0x46u8] }
}

/// The answer to `QueryInterface` for `riid` on an object that offers
/// `IUnknown` and `own`: `S_OK` for those two, `E_NOINTERFACE` otherwise.
pub fn query_interface_answer(riid: &Guid, own: &Guid) -> (r: i32)
    ensures
        r == if same_guid(*riid, ole_guid(0)) || same_guid(*riid, *own) {
            S_OK
        } else {
            E_NOINTERFACE
        },
{
    let unknown = iid_iunknown();
    if guid_eq(riid, &unknown) || guid_eq(riid, own) {
        S_OK
    } else {
        E_NOINTERFACE
    }
}

/// The answer to `QueryGetData` for clipboard format `format`: text in
/// either form is offered.
pub fn query_get_data(format: u16) -> (r: i32)
    ensures
        r == if format == CF_UNICODETEXT || format == CF_TEXT {
            S_OK
        } else {
            S_FALSE
        },
{
    if format == CF_UNICODETEXT || format == CF_TEXT {
        S_OK
    } else {
        S_FALSE
    }
}

/// The refusal of `GetData` for `format` and `aspect`, if any: a format
/// other than text, then an aspect other than the content.
pub fn get_data_refusal(format: u16, aspect: u32) -> (r: Option<i32>)
    ensures
        r == get_data_refusal_spec(format, aspect),
{
    if format != CF_UNICODETEXT && format != CF_TEXT {
        Some(DV_E_FORMATETC)
    } else if aspect != DVASPECT_CONTENT {
        Some(DV_E_DVASPECT)
    } else {
        None
    }
}

/// The UTF-16 code units of `c`.
pub open spec fn utf16_of(c: char) -> Seq<u16> {
    if (c as u32) < 0x10000 {
        seq![(c as u32) as u16]
    } else {
        seq![
            (0xD800 + (((c as u32) - 0x10000) / 0x400)) as u16,
            (0xDC00 + (((c as u32) - 0x10000) % 0x400)) as u16,
        ]
    }
}

/// The UTF-16 code units of `s`.
pub open spec fn utf16_units(s: Seq<char>) -> Seq<u16>
    decreases s.len(),
{
    if s.len() == 0 {
        Seq::empty()
    } else {
        utf16_units(s.drop_last()) + utf16_of(s.last())
    }
}

/// The data handed over as UTF-16 text: the code units of `text` and a
/// terminating zero.
pub fn utf16_with_nul(text: &str) -> (r: Vec<u16>)
    ensures
        r@ == utf16_units(text@).push(0u16),
{
    let cs = chars_of(text);
    let mut out: Vec<u16> = Vec::new();
    let mut i: usize = 0;
    while i < cs.len()
        invariant
            cs@ == text@,
            i <= cs@.len(),
            out@ == utf16_units(cs@.take(i as int)),
        decreases cs.len() - i,
    {
        let c = cs[i];
        let v: u32 = c as u32;
        assert(cs@.take(i + 1).drop_last() =~= cs@.take(i as int));
        proof {
            vstd::utf8::char_is_scalar(c);
        }
        assert(v <= 0x10FFFF);
        let ghost before = out@;
        if v < 0x10000 {
            out.push(v as u16);
            assert(out@ =~= before + utf16_of(c));
        } else {
            let w = v - 0x10000;
            let hi: u16 = (0xD800 + w / 0x400) as u16;
            let lo: u16 = (0xDC00 + w % 0x400) as u16;
            out.push(hi);
            out.push(lo);
            assert(out@ =~= before + utf16_of(c));
        }
        assert(out@ =~= utf16_units(cs@.take(i + 1)));
        i = i + 1;
    }
    assert(cs@.take(i as int) =~= cs@);
    out.push(0);
    out
}

/// The data handed over as ANSI text: the UTF-8 bytes of `text` and a
/// terminating zero.
pub fn bytes_with_nul(text: &str) -> (r: Vec<u8>)
    ensures
        r@ == encode_utf8(text@).push(0u8),
{
    let b = text.as_bytes();
    let mut out = vstd::slice::slice_to_vec(b);
    out.push(0);
    out
}

/// Where the mouse is relative to our window during a drag: its position
/// in the window's client coordinates and the client area's size, when the
/// system could tell.
pub struct ReentryProbe {
    pub client_x: i32,
    pub client_y: i32,
    pub client_width: i32,
    pub client_height: i32,
}

/// Whether the mouse is in the client area.
pub open spec fn in_window(p: ReentryProbe) -> bool {
    p.client_x >= 0 && p.client_x < p.client_width && p.client_y >= 0 && p.client_y < p.client_height
}

/// The drag state shared with the shell: our window and whether the last
/// drag was cancelled because the mouse came back into it.
#[derive(Debug, Clone, Copy, PartialEq, Eq, Structural)]
pub struct DragState {
    pub app_hwnd: isize,
    pub reentry_cancelled: bool,
}

impl DragState {
    /// No window known, nothing cancelled.
    pub fn new() -> (r: Self)
        ensures
            r.app_hwnd == 0,
            !r.reentry_cancelled,
    {
        DragState { app_hwnd: 0, reentry_cancelled: false }
    }

    /// Sets our window, against which the mouse's return is checked.
    pub fn set_app_hwnd(&mut self, hwnd: isize)
        ensures
            final(self).app_hwnd == hwnd,
            final(self).reentry_cancelled == old(self).reentry_cancelled,
    {
        self.app_hwnd = hwnd;
    }

    /// Whether the last drag was cancelled because the mouse came back.
    pub fn was_reentry_cancelled(&self) -> (r: bool)
        ensures
            r == self.reentry_cancelled,
    {
        self.reentry_cancelled
    }

    /// Forgets that a drag was cancelled by the mouse's return.
    pub fn clear_reentry_flag(&mut self)
        ensures
            final(self).app_hwnd == old(self).app_hwnd,
            !final(self).reentry_cancelled,
    {
        self.reentry_cancelled = false;
    }

    /// The answer to `QueryContinueDrag`: Escape, the right or the middle
    /// button cancel; so does the mouse back in our window (when our window
    /// is known and `probe` could be taken), which is noted; a released
    /// left button drops; otherwise the drag goes on.
    pub fn query_continue_drag(&mut self, escape_pressed: i32, key_state: u32, probe: Option<ReentryProbe>) -> (r: i32)
        ensures
            final(self).app_hwnd == old(self).app_hwnd,
            ({
                let back = old(self).app_hwnd != 0 && (probe matches Some(p) && in_window(p));
                if escape_pressed != 0 || key_state & MK_RBUTTON != 0 || key_state & MK_MBUTTON != 0 {
                    r == DRAGDROP_S_CANCEL && final(self).reentry_cancelled == old(self).reentry_cancelled
                } else if back {
                    r == DRAGDROP_S_CANCEL && final(self).reentry_cancelled
                } else {
                    final(self).reentry_cancelled == old(self).reentry_cancelled && r == if key_state & MK_LBUTTON
                        == 0 {
                        DRAGDROP_S_DROP
                    } else {
                        S_OK
                    }
                }
            }),
    {
        if escape_pressed != 0 {
            return DRAGDROP_S_CANCEL;
        }
        if key_state & MK_RBUTTON != 0 {
            return DRAGDROP_S_CANCEL;
        }
        if key_state & MK_MBUTTON != 0 {
            return DRAGDROP_S_CANCEL;
        }
        if self.app_hwnd != 0 {
            match probe {
                Some(p) => {
                    if p.client_x >= 0 && p.client_x < p.client_width && p.client_y >= 0 && p.client_y
                        < p.client_height {
                        self.reentry_cancelled = true;
                        return DRAGDROP_S_CANCEL;
                    }
                },
                None => {},
            }
        }
        if key_state & MK_LBUTTON == 0 {
            return DRAGDROP_S_DROP;
        }
        S_OK
    }
}

/// The answer to `GiveFeedback`: the default cursors.
pub fn give_feedback(_effect: u32) -> (r: i32)
    ensures
        r == DRAGDROP_S_USEDEFAULTCURSORS,
{
    DRAGDROP_S_USEDEFAULTCURSORS
}

/// The message parameter of a mouse message at client position (`x`,
/// `y`): the low 16 bits of `y` above the low 16 bits of `x`.
pub fn mouse_lparam(x: i32, y: i32) -> (r: i64)
    ensures
        r == (((y as i64) & 0xFFFF) << 16) | ((x as i64) & 0xFFFF),
        0 <= r < 0x1_0000_0000,
{
    let hi: i64 = (y as i64) & 0xFFFF;
    let lo: i64 = (x as i64) & 0xFFFF;
    let r = (hi << 16) | lo;
    assert(0 <= r < 0x1_0000_0000) by (bit_vector)
        requires
            hi == (y as i64) & 0xFFFF,
            lo == (x as i64) & 0xFFFF,
            r == (hi << 16) | lo,
    ;
    r
}

/// The reference count after `AddRef`.
pub fn add_ref(count: u32) -> (r: u32)
    requires
        count < u32::MAX,
    ensures
        r == count + 1,
{
    count + 1
}

/// The reference count after `Release`, and whether the object is then
/// freed (at zero).
pub fn release(count: u32) -> (r: (u32, bool))
    requires
        count > 0,
    ensures
        r.0 == count - 1,
        r.1 == (count == 1),
{
    let c = count - 1;
    (c, c == 0)
}

/// Data is handed over in global memory.
pub const TYMED_HGLOBAL: u32 = 1;

/// A data format description (without its target device).
#[derive(Debug, Clone, Copy, PartialEq, Eq, Structural)]
pub struct FormatEtc {
    pub cf_format: u16,
    pub aspect: u32,
    pub lindex: i32,
    pub tymed: u32,
}

impl Default for FormatEtc {
    /// No format, the content aspect, all of the data, in global memory.
    fn default() -> (r: Self)
        ensures
            r == (FormatEtc { cf_format: 0, aspect: DVASPECT_CONTENT, lindex: -1i32, tymed: TYMED_HGLOBAL }),
    {
        FormatEtc { cf_format: 0, aspect: DVASPECT_CONTENT, lindex: -1, tymed: TYMED_HGLOBAL }
    }
}

/// The answer to `GetCanonicalFormatEtc`: the default description, which
/// is the same as any asked for.
pub fn canonical_format() -> (r: (FormatEtc, i32))
    ensures
        r.0 == (FormatEtc { cf_format: 0, aspect: DVASPECT_CONTENT, lindex: -1i32, tymed: TYMED_HGLOBAL }),
        r.1 == DATA_S_SAMEFORMATETC,
{
    (FormatEtc::default(), DATA_S_SAMEFORMATETC)
}

/// The little-endian bytes of UTF-16 code units.
pub open spec fn utf16_le_bytes(units: Seq<u16>) -> Seq<u8>
    decreases units.len(),
{
    if units.len() == 0 {
        Seq::empty()
    } else {
        let u = units.last();
        utf16_le_bytes(units.drop_last()) + seq![(u % 256) as u8, (u / 256) as u8]
    }
}

/// The bytes `GetData` hands over for `format` and `aspect`: the text in
/// UTF-16 (little-endian) with a terminating zero for Unicode text, its
/// UTF-8 bytes with a terminating zero for ANSI text; or the refusal (see
/// [`get_data_refusal`]).
pub fn get_data_payload(format: u16, aspect: u32, text: &str) -> (r: Result<Vec<u8>, i32>)
    ensures
        match get_data_refusal_spec(format, aspect) {
            Some(e) => r == Err::<Vec<u8>, i32>(e),
            None => r matches Ok(b) && b@ == if format == CF_UNICODETEXT {
                utf16_le_bytes(utf16_units(text@).push(0u16))
            } else {
                encode_utf8(text@).push(0u8)
            },
        },
{
    match get_data_refusal(format, aspect) {
        Some(e) => Err(e),
        None => {
            if format == CF_UNICODETEXT {
                let units = utf16_with_nul(text);
                let mut out: Vec<u8> = Vec::new();
                let mut i: usize = 0;
                while i < units.len()
                    invariant
                        i <= units@.len(),
                        out@ == utf16_le_bytes(units@.take(i as int)),
                    decreases units.len() - i,
                {
                    let u = units[i];
                    out.push((u % 256) as u8);
                    out.push((u / 256) as u8);
                    assert(units@.take(i + 1).drop_last() =~= units@.take(i as int));
                    assert(out@ =~= utf16_le_bytes(units@.take(i + 1)));
                    i = i + 1;
                }
                assert(units@.take(i as int) =~= units@);
                Ok(out)
            } else {
                Ok(bytes_with_nul(text))
            }
        },
    }
}

/// The refusal of `GetData`, as a specification (see [`get_data_refusal`]).
pub open spec fn get_data_refusal_spec(format: u16, aspect: u32) -> Option<i32> {
    if format != CF_UNICODETEXT && format != CF_TEXT {
        Some(DV_E_FORMATETC)
    } else if aspect != DVASPECT_CONTENT {
        Some(DV_E_DVASPECT)
    } else {
        None
    }
}

/// What one look at the mouse during a drag inside the window asks of the
/// shell.
#[derive(Debug, Clone, Copy, PartialEq, Eq, Structural)]
pub enum DragPoll {
    /// The drag has ended elsewhere, or there is no window: stop looking.
    Stop,
    /// The mouse left the window: end the drag inside it and start dragging
    /// the text out to other applications.
    StartOutsideDrag,
    /// The left button was released inside the window: end the drag.
    Released,
    /// The drag goes on: show the mouse position and look again.
    Continue,
}

/// One look at the mouse while text is dragged inside the window: whether
/// the drag still runs, the window (0: none), whether the mouse is outside
/// the window's client area, and whether the left button is down. Leaving
/// the window hands the drag to the system, with the return flag cleared
/// and the window recorded for [`DragState::query_continue_drag`].
pub fn drag_poll(state: &mut DragState, dragging: bool, hwnd: isize, outside: bool, left_button_down: bool) -> (r: DragPoll)
    ensures
        !dragging || hwnd == 0 ==> r == DragPoll::Stop && *final(state) == *old(state),
        dragging && hwnd != 0 && outside ==> r == DragPoll::StartOutsideDrag && final(state).app_hwnd == hwnd
            && !final(state).reentry_cancelled,
        dragging && hwnd != 0 && !outside ==> *final(state) == *old(state) && r == if left_button_down {
            DragPoll::Continue
        } else {
            DragPoll::Released
        },
{
    if !dragging || hwnd == 0 {
        return DragPoll::Stop;
    }
    if outside {
        state.clear_reentry_flag();
        state.set_app_hwnd(hwnd);
        return DragPoll::StartOutsideDrag;
    }
    if left_button_down {
        DragPoll::Continue
    } else {
        DragPoll::Released
    }
}

/// What the shell does once a drag out of the window has ended.
#[derive(Debug, Clone, Copy, PartialEq, Eq, Structural)]
pub enum AfterDrag {
    /// The mouse came back with the button still down: drag inside the
    /// window again.
    DragInside,
    /// The mouse came back but the button is up: nothing more.
    Nothing,
    /// The drop happened elsewhere: reset the window's mouse state.
    ResetMouse,
}

/// After the system's drag has returned: when it was cancelled by the
/// mouse's return the flag is cleared and, with the left button still down,
/// the drag goes on inside the window; otherwise the window's mouse state
/// is reset.
pub fn after_outside_drag(state: &mut DragState, left_button_down: bool) -> (r: AfterDrag)
    ensures
        final(state).app_hwnd == old(state).app_hwnd,
        !final(state).reentry_cancelled,
        old(state).reentry_cancelled ==> r == if left_button_down {
            AfterDrag::DragInside
        } else {
            AfterDrag::Nothing
        },
        !old(state).reentry_cancelled ==> r == AfterDrag::ResetMouse,
{
    if state.was_reentry_cancelled() {
        state.clear_reentry_flag();
        if left_button_down {
            AfterDrag::DragInside
        } else {
            AfterDrag::Nothing
        }
    } else {
        AfterDrag::ResetMouse
    }
}

} // verus!
