//! Two wrappers around terminal widgets: a gate that can refuse focus and
//! events, and a frame whose border shows whether the inside has focus.
use vstd::prelude::*;
use crate::text::{chars_of, push_str};

verus! {

/// A widget that takes focus and events only while enabled.
pub struct FocusGate<V> {
    pub inner: V,
    pub enabled: bool,
}

impl<V> FocusGate<V> {
    /// A gate, open at first.
    pub fn new(inner: V) -> (g: Self)
        ensures
            g.inner == inner,
            g.enabled,
    {
        FocusGate { inner, enabled: true }
    }

    /// Sets whether the inner widget gets focus and events.
    pub fn set_enabled(&mut self, enabled: bool)
        ensures
            final(self).enabled == enabled,
            final(self).inner == old(self).inner,
    {
        self.enabled = enabled;
    }

    /// Does the inner widget get focus and events?
    pub fn is_enabled(&self) -> (r: bool)
        ensures
            r == self.enabled,
    {
        self.enabled
    }
}

/// Space between the frame's corner and its title.
pub const TITLE_SPACING: usize = 3;

/// A widget drawn inside a one-character border with a centred title.
pub struct FocusFrame<V> {
    pub inner: V,
    pub title: String,
}

/// The border characters: corners (top-left, top-right, bottom-left,
/// bottom-right), then horizontal and vertical lines.
pub struct FrameGlyphs {
    pub top_left: &'static str,
    pub top_right: &'static str,
    pub bottom_left: &'static str,
    pub bottom_right: &'static str,
    pub horizontal: &'static str,
    pub vertical: &'static str,
}

/// Heavy lines for a focused frame, light ones otherwise.
pub fn frame_glyphs(focused: bool) -> (g: FrameGlyphs)
    ensures
        focused ==> g.top_left@ == "┏"@ && g.top_right@ == "┓"@ && g.bottom_left@ == "┗"@
            && g.bottom_right@ == "┛"@ && g.horizontal@ == "━"@ && g.vertical@ == "┃"@,
        !focused ==> g.top_left@ == "┌"@ && g.top_right@ == "┐"@ && g.bottom_left@ == "└"@
            && g.bottom_right@ == "┘"@ && g.horizontal@ == "─"@ && g.vertical@ == "│"@,
{
    if focused {
        FrameGlyphs { top_left: "┏", top_right: "┓", bottom_left: "┗", bottom_right: "┛", horizontal: "━", vertical: "┃" }
    } else {
        FrameGlyphs { top_left: "┌", top_right: "┐", bottom_left: "└", bottom_right: "┘", horizontal: "─", vertical: "│" }
    }
}

/// `a - b`, or 0 when `b` is larger.
pub open spec fn sat_sub(a: usize, b: usize) -> usize {
    if a >= b { (a - b) as usize } else { 0 }
}

/// The space left inside the border of a frame of the given size.
pub fn frame_inner_size(size: (usize, usize)) -> (r: (usize, usize))
    ensures
        r == (sat_sub(size.0, 2), sat_sub(size.1, 2)),
{
    (size.0.saturating_sub(2), size.1.saturating_sub(2))
}

/// Can a frame of this size be drawn at all?
pub fn frame_drawable(w: usize, h: usize) -> (r: bool)
    ensures
        r == (w >= 2 && h >= 2),
{
    w >= 2 && h >= 2
}

/// Where the title is drawn on the top line of a frame `w` wide, if it fits:
/// the label ` title ` is centred in the line less the spacing on each side.
pub open spec fn title_x(title_len: nat, w: nat) -> Option<nat> {
    if title_len == 0 || w < TITLE_SPACING * 2 + 2 {
        None
    } else {
        let label_w = title_len + 2;
        let max_w = w - TITLE_SPACING * 2;
        if label_w <= max_w {
            Some((TITLE_SPACING + (max_w - label_w) / 2) as nat)
        } else {
            None
        }
    }
}

impl<V> FocusFrame<V> {
    /// A frame with a title.
    pub fn new(inner: V, title: &str) -> (f: Self)
        ensures
            f.inner == inner,
            f.title@ == title@,
    {
        FocusFrame { inner, title: title.to_owned() }
    }

    /// The size the frame asks for around an inner widget that asks for
    /// `inner`: the inner size plus the border, and at least wide enough for
    /// the title with its spacing.
    pub fn required_size(&self, inner: (usize, usize)) -> (r: (usize, usize))
        requires
            inner.0 + 2 <= usize::MAX,
            inner.1 + 2 <= usize::MAX,
            self.title@.len() + 2 * TITLE_SPACING <= usize::MAX,
        ensures
            r.0 == if inner.0 + 2 >= self.title@.len() + 2 * TITLE_SPACING {
                inner.0 + 2
            } else {
                self.title@.len() + 2 * TITLE_SPACING
            },
            r.1 == inner.1 + 2,
    {
        let title_w = chars_of(self.title.as_str()).len() + 2 * TITLE_SPACING;
        let w = inner.0 + 2;
        (if w >= title_w { w } else { title_w }, inner.1 + 2)
    }

    /// The title as drawn: with a space on each side.
    pub fn label(&self) -> (s: String)
        ensures
            s@ == " "@ + self.title@ + " "@,
    {
        let mut s = String::new();
        push_str(&mut s, " ");
        push_str(&mut s, self.title.as_str());
        push_str(&mut s, " ");
        s
    }

    /// The column of the title on a frame `w` wide, if it is drawn.
    pub fn title_position(&self, w: usize) -> (r: Option<usize>)
        ensures
            match r {
                Some(x) => title_x(self.title@.len(), w as nat) == Some(x as nat),
                None => title_x(self.title@.len(), w as nat) is None,
            },
    {
        let n = chars_of(self.title.as_str()).len();
        if n == 0 || w < TITLE_SPACING * 2 + 2 {
            return None;
        }
        let max_w = w - TITLE_SPACING * 2;
        if n <= max_w - 2 {
            Some(TITLE_SPACING + (max_w - 2 - n) / 2)
        } else {
            None
        }
    }
}

} // verus!
