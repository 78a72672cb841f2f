//! Window placement for the app's window session: which windows are
//! dialogs or popups, the size and frame each gets when added and at every
//! relayout, and what a resize of the host surface tells each window.
use vstd::prelude::*;

verus! {

/// A rectangle in pixels.
#[derive(PartialEq, Eq, Debug, Clone, Copy, Structural)]
pub struct Rect {
    pub left: i32,
    pub top: i32,
    pub right: i32,
    pub bottom: i32,
}

/// The pixels an app window drew, as the host composes them.
pub struct WindowCanvas {
    pub width: u32,
    pub height: u32,
    pub stride: u32,
    pub pixels: Vec<u8>,
}

/// How a window is placed.
#[derive(PartialEq, Eq, Debug, Clone, Copy, Structural)]
pub enum WindowKind {
    /// The app's base window: the whole host frame.
    App,
    /// A dialog over a base window: the whole host frame too.
    Dialog,
    /// A popup (sub-window type) at its own position and size.
    Popup,
}

/// A window is a dialog when a base window exists and its type is a
/// dialog type (`TYPE_APPLICATION`, `TYPE_APPLICATION_ATTACHED_DIALOG`) or
/// it asks to dim what is behind it; a sub-window type otherwise makes a
/// popup.
pub open spec fn kind_spec(has_base: bool, wtype: i32, flags: i32) -> WindowKind {
    let is_dialog = has_base && (wtype == 2 || (flags & 2) != 0 || wtype == 1003);
    let is_popup = 1000 <= wtype && wtype < 2000 && !is_dialog;
    if is_dialog {
        WindowKind::Dialog
    } else if is_popup {
        WindowKind::Popup
    } else {
        WindowKind::App
    }
}

pub fn window_kind(has_base: bool, wtype: i32, flags: i32) -> (k: WindowKind)
    ensures
        k == kind_spec(has_base, wtype, flags),
{
    let is_dialog = has_base && (wtype == 2 || (flags & 2) != 0 || wtype == 1003);
    let is_popup = 1000 <= wtype && wtype < 2000 && !is_dialog;
    if is_dialog {
        WindowKind::Dialog
    } else if is_popup {
        WindowKind::Popup
    } else {
        WindowKind::App
    }
}

/// Where a new window goes.
pub struct Placement {
    pub kind: WindowKind,
    pub width: i32,
    pub height: i32,
    pub pos: (i32, i32),
    pub frame: Rect,
    pub layer_name: &'static str,
}

/// The size a popup gets when it asks for none.
pub const POPUP_WIDTH: i32 = 392;
pub const POPUP_HEIGHT: i32 = 192;

pub open spec fn side_spec(kind: WindowKind, requested: i32, host: i32, popup_default: i32) -> i32 {
    if kind == WindowKind::Dialog {
        host
    } else if requested > 0 {
        requested
    } else if kind == WindowKind::Popup {
        popup_default
    } else {
        host
    }
}

pub open spec fn placement_fits(kind: WindowKind, x: i32, y: i32, w: i32, h: i32) -> bool {
    kind == WindowKind::Popup ==> (x + w <= i32::MAX && y + h <= i32::MAX)
}

/// `addToDisplay`: a window of type `wtype` with `flags`, asking for
/// `req_w` x `req_h` at (`x`, `y`), on a host frame `host_w` x `host_h`;
/// `has_base` tells whether a base window is already there.
pub fn place_window(has_base: bool, wtype: i32, flags: i32, req_w: i32, req_h: i32, x: i32, y: i32, host_w: i32, host_h: i32) -> (p: Placement)
    requires
        placement_fits(
            kind_spec(has_base, wtype, flags), x, y,
            side_spec(kind_spec(has_base, wtype, flags), req_w, host_w, POPUP_WIDTH),
            side_spec(kind_spec(has_base, wtype, flags), req_h, host_h, POPUP_HEIGHT),
        ),
    ensures
        p.kind == kind_spec(has_base, wtype, flags),
        p.width == side_spec(p.kind, req_w, host_w, POPUP_WIDTH),
        p.height == side_spec(p.kind, req_h, host_h, POPUP_HEIGHT),
        p.frame == if p.kind == WindowKind::Popup {
            Rect { left: x, top: y, right: (x + p.width) as i32, bottom: (y + p.height) as i32 }
        } else {
            Rect { left: 0, top: 0, right: host_w, bottom: host_h }
        },
        p.pos == if p.kind == WindowKind::Dialog { (0i32, 0i32) } else { (x, y) },
        p.layer_name@ == match p.kind {
            WindowKind::Popup => "popup-window"@,
            WindowKind::Dialog => "dialog-window"@,
            WindowKind::App => "app-window"@,
        },
{
    let kind = window_kind(has_base, wtype, flags);
    let is_dialog = kind == WindowKind::Dialog;
    let is_popup = kind == WindowKind::Popup;
    let width = if is_dialog { host_w } else if req_w > 0 { req_w } else if is_popup { POPUP_WIDTH } else { host_w };
    let height = if is_dialog { host_h } else if req_h > 0 { req_h } else if is_popup { POPUP_HEIGHT } else { host_h };
    let frame = if is_popup {
        Rect { left: x, top: y, right: x + width, bottom: y + height }
    } else {
        Rect { left: 0, top: 0, right: host_w, bottom: host_h }
    };
    let layer_name = if is_popup { "popup-window" } else if is_dialog { "dialog-window" } else { "app-window" };
    Placement { kind, width, height, pos: if is_dialog { (0, 0) } else { (x, y) }, frame, layer_name }
}

/// The geometry the session keeps for a window.
#[derive(Debug, Clone, Copy)]
pub struct WindowGeom {
    pub wtype: i32,
    pub is_child: bool,
    pub pos: (i32, i32),
    pub size: (i32, i32),
    pub frame: Rect,
    pub relaid_out: bool,
}

/// The geometry after a relayout that carries layout attributes.
pub open spec fn relayout_attrs_spec(g: WindowGeom, has_base: bool, cur_wtype: i32, flags: i32, w: i32, h: i32, x: i32, y: i32, host_w: i32, host_h: i32) -> WindowGeom {
    let wtype = if cur_wtype != 0 { cur_wtype } else { g.wtype };
    let kind = kind_spec(has_base, wtype, flags);
    let display = Rect { left: 0, top: 0, right: host_w, bottom: host_h };
    let is_child = kind != WindowKind::App;
    if kind == WindowKind::Popup {
        let pw = if w > 0 { w } else { POPUP_WIDTH };
        let ph = if h > 0 { h } else { POPUP_HEIGHT };
        WindowGeom { wtype, is_child, pos: (x, y), size: (pw, ph), frame: Rect { left: x, top: y, right: (x + pw) as i32, bottom: (y + ph) as i32 }, ..g }
    } else {
        WindowGeom { wtype, is_child, pos: (0, 0), size: (host_w, host_h), frame: display, ..g }
    }
}

/// The geometry after a relayout without layout attributes: a child that
/// is not a full-frame dialog takes the requested size (and a child's frame
/// follows it) when both sides are given.
pub open spec fn relayout_plain_spec(g: WindowGeom, w: i32, h: i32) -> WindowGeom {
    if w > 0 && h > 0 {
        let is_dialog = g.is_child && g.pos == (0i32, 0i32);
        if is_dialog {
            g
        } else if g.is_child {
            WindowGeom { size: (w, h), frame: Rect { left: g.pos.0, top: g.pos.1, right: (g.pos.0 + w) as i32, bottom: (g.pos.1 + h) as i32 }, ..g }
        } else {
            WindowGeom { size: (w, h), ..g }
        }
    } else {
        g
    }
}

impl WindowGeom {
    /// The geometry of a newly placed window.
    pub fn placed(p: &Placement, wtype: i32) -> (g: WindowGeom)
        ensures
            g.wtype == wtype && g.is_child == (p.kind != WindowKind::App) && g.pos == p.pos
                && g.size == (p.width, p.height) && g.frame == p.frame && !g.relaid_out,
    {
        WindowGeom {
            wtype,
            is_child: p.kind != WindowKind::App,
            pos: p.pos,
            size: (p.width, p.height),
            frame: p.frame,
            relaid_out: false,
        }
    }

    /// `relayout` with layout attributes.
    pub fn relayout_with_attrs(&mut self, has_base: bool, cur_wtype: i32, flags: i32, w: i32, h: i32, x: i32, y: i32, host_w: i32, host_h: i32)
        requires
            x + (if w > 0 { w } else { POPUP_WIDTH }) <= i32::MAX,
            y + (if h > 0 { h } else { POPUP_HEIGHT }) <= i32::MAX,
        ensures
            *final(self) == relayout_attrs_spec(*old(self), has_base, cur_wtype, flags, w, h, x, y, host_w, host_h),
    {
        if cur_wtype != 0 {
            self.wtype = cur_wtype;
        }
        let kind = window_kind(has_base, self.wtype, flags);
        self.is_child = kind != WindowKind::App;
        if kind == WindowKind::Popup {
            let pw = if w > 0 { w } else { POPUP_WIDTH };
            let ph = if h > 0 { h } else { POPUP_HEIGHT };
            self.pos = (x, y);
            self.size = (pw, ph);
            self.frame = Rect { left: x, top: y, right: x + pw, bottom: y + ph };
        } else {
            self.pos = (0, 0);
            self.size = (host_w, host_h);
            self.frame = Rect { left: 0, top: 0, right: host_w, bottom: host_h };
        }
    }

    /// `relayout` without layout attributes, asking for `w` x `h`.
    pub fn relayout_plain(&mut self, w: i32, h: i32)
        requires
            old(self).is_child && w > 0 && h > 0 ==> old(self).pos.0 + w <= i32::MAX && old(self).pos.1 + h <= i32::MAX,
        ensures
            *final(self) == relayout_plain_spec(*old(self), w, h),
    {
        if w > 0 && h > 0 {
            let is_dialog = self.is_child && self.pos.0 == 0 && self.pos.1 == 0;
            if !is_dialog {
                self.size = (w, h);
                if self.is_child {
                    let (px, py) = self.pos;
                    self.frame = Rect { left: px, top: py, right: px + w, bottom: py + h };
                }
            }
        }
    }

    /// The result flags of a relayout: the first one tells the app its
    /// window is visible and in touch mode.
    pub fn relayout_flags(&mut self) -> (flags: i32)
        ensures
            flags == if old(self).relaid_out { 0i32 } else { 3i32 },
            *final(self) == (WindowGeom { relaid_out: true, ..*old(self) }),
    {
        let first = !self.relaid_out;
        self.relaid_out = true;
        if first {
            3
        } else {
            0
        }
    }
}

/// The frame a `resized` callback gives a window: a child keeps its own,
/// others get the host frame.
pub fn resized_frame(is_child: bool, win_frame: Rect, display_frame: Rect) -> (f: Rect)
    ensures
        f == if is_child { win_frame } else { display_frame },
{
    if is_child {
        win_frame
    } else {
        display_frame
    }
}

/// A compositor resize to `w` x `h` logical pixels at output scale
/// `scale`: the new physical size, or `None` when it is the current size
/// and nothing is to be told.
pub fn resized_size(current: (i32, i32), w: i32, h: i32, scale: i32) -> (r: Option<(i32, i32)>)
    requires
        i32::MIN <= w * scale <= i32::MAX,
        i32::MIN <= h * scale <= i32::MAX,
    ensures
        r == if current.0 == w * scale && current.1 == h * scale { None::<(i32, i32)> } else { Some(((w * scale) as i32, (h * scale) as i32)) },
{
    let pw = w * scale;
    let ph = h * scale;
    if current.0 == pw && current.1 == ph {
        None
    } else {
        Some((pw, ph))
    }
}

/// Relayout with attributes puts a window where `addToDisplay` would have:
/// the same kind gives the same size, position and frame.
pub proof fn law_relayout_matches_placement(g: WindowGeom, has_base: bool, wtype: i32, flags: i32, w: i32, h: i32, x: i32, y: i32, host_w: i32, host_h: i32)
    requires
        wtype != 0,
        x + side_spec(kind_spec(has_base, wtype, flags), w, host_w, POPUP_WIDTH) <= i32::MAX,
        y + side_spec(kind_spec(has_base, wtype, flags), h, host_h, POPUP_HEIGHT) <= i32::MAX,
    ensures
        ({
            let r = relayout_attrs_spec(g, has_base, wtype, flags, w, h, x, y, host_w, host_h);
            let k = kind_spec(has_base, wtype, flags);
            k != WindowKind::App ==> r.size == (side_spec(k, w, host_w, POPUP_WIDTH), side_spec(k, h, host_h, POPUP_HEIGHT))
        }),
{
}

} // verus!
