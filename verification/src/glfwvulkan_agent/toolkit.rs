//! The native layer under the backend.

use super::window::WindowEvent;
use vstd::prelude::*;

verus! {

/// A windowing toolkit: it brings native windows up, pumps their events and
/// presents them.
///
/// What a call does to the toolkit and to a window is the toolkit's own
/// affair. A toolkit may say what it is, in the five relations below; the
/// backend then says of its own functions which of these calls they make, on
/// which windows and in which order. A toolkit that leaves a relation as it
/// stands here says nothing of that call, and the backend holds for whatever
/// the call does.
pub trait Toolkit: Sized {
    /// The handle of a native window. Dropping it lets the window go.
    type Window;

    /// `create_window` with this title, width and height can turn the toolkit
    /// `before` into `after` and answer `native`.
    open spec fn opened(
        before: Self,
        title: Seq<char>,
        width: u32,
        height: u32,
        after: Self,
        native: Option<Self::Window>,
    ) -> bool {
        true
    }

    /// `poll_events` can turn the toolkit `before` into `after`.
    open spec fn pumped(before: Self, after: Self) -> bool {
        true
    }

    /// `flush_messages` on the toolkit `before` and the handle `window` can
    /// leave the toolkit `after` and the handle `left`, and hand out
    /// `events`.
    open spec fn flushed(
        before: Self,
        window: Self::Window,
        after: Self,
        left: Self::Window,
        events: Seq<WindowEvent>,
    ) -> bool {
        true
    }

    /// `swap_buffers` on the toolkit `before` and the handle `window` can
    /// leave the toolkit `after` and the handle `left`.
    open spec fn shown(before: Self, window: Self::Window, after: Self, left: Self::Window)
        -> bool {
        true
    }

    /// `make_current` on the toolkit `before` and the handle `window` can
    /// leave the toolkit `after` and the handle `left`.
    open spec fn targeted(before: Self, window: Self::Window, after: Self, left: Self::Window)
        -> bool {
        true
    }

    /// Brings a native window up, or says that it could not.
    fn create_window(&mut self, title: &str, width: u32, height: u32) -> (native: Option<
        Self::Window,
    >)
        ensures
            Self::opened(*old(self), title@, width, height, *final(self), native),
    ;

    /// Pumps the event queue once.
    fn poll_events(&mut self)
        ensures
            Self::pumped(*old(self), *final(self)),
    ;

    /// Hands out the events that are waiting for `window`, oldest first.
    fn flush_messages(&mut self, window: &mut Self::Window) -> (events: Vec<WindowEvent>)
        ensures
            Self::flushed(*old(self), *old(window), *final(self), *final(window), events@),
    ;

    /// Presents what was drawn into `window`.
    fn swap_buffers(&mut self, window: &mut Self::Window)
        ensures
            Self::shown(*old(self), *old(window), *final(self), *final(window)),
    ;

    /// Makes `window` the target of drawing.
    fn make_current(&mut self, window: &mut Self::Window)
        ensures
            Self::targeted(*old(self), *old(window), *final(self), *final(window)),
    ;
}

/// The handle of a window that exists in memory only.
pub struct HeadlessWindow {
    /// How often the window was presented.
    pub presented: u64,
    /// Whether the window was made the target of drawing.
    pub current: bool,
}

/// A toolkit without a screen, for exercising a backend. It brings up as many
/// windows as it was given room for, and reports no events of its own.
pub struct Headless {
    /// How many more windows can come up.
    pub room: usize,
}

impl Headless {
    /// A toolkit with room for `room` windows.
    pub fn new(room: usize) -> (toolkit: Self)
        ensures
            toolkit.room == room,
    {
        Headless { room }
    }
}

impl Toolkit for Headless {
    type Window = HeadlessWindow;

    /// A window comes up as long as there is room, and takes one place: a
    /// window that was never presented and is not the target of drawing.
    open spec fn opened(
        before: Self,
        title: Seq<char>,
        width: u32,
        height: u32,
        after: Self,
        native: Option<HeadlessWindow>,
    ) -> bool {
        if before.room == 0 {
            native is None && after == before
        } else {
            &&& after.room == before.room - 1
            &&& native == Some(HeadlessWindow { presented: 0, current: false })
        }
    }

    /// Pumping changes nothing.
    open spec fn pumped(before: Self, after: Self) -> bool {
        after == before
    }

    /// No event ever waits, and asking changes nothing.
    open spec fn flushed(
        before: Self,
        window: HeadlessWindow,
        after: Self,
        left: HeadlessWindow,
        events: Seq<WindowEvent>,
    ) -> bool {
        after == before && left == window && events.len() == 0
    }

    /// The window has been presented once more, counted up to `u64::MAX`.
    open spec fn shown(before: Self, window: HeadlessWindow, after: Self, left: HeadlessWindow)
        -> bool {
        &&& after == before
        &&& left.current == window.current
        &&& left.presented == if window.presented < u64::MAX {
            (window.presented + 1) as u64
        } else {
            window.presented
        }
    }

    /// The window is the target of drawing now.
    open spec fn targeted(before: Self, window: HeadlessWindow, after: Self, left: HeadlessWindow)
        -> bool {
        after == before && left.current && left.presented == window.presented
    }

    /// A window comes up as long as there is room, and takes one place.
    fn create_window(&mut self, title: &str, width: u32, height: u32) -> (native: Option<
        HeadlessWindow,
    >)
        ensures
            old(self).room == 0 ==> native is None && final(self).room == 0,
            old(self).room > 0 ==> final(self).room == old(self).room - 1 && native == Some(
                HeadlessWindow { presented: 0, current: false },
            ),
    {
        if self.room == 0 {
            None
        } else {
            self.room = self.room - 1;
            Some(HeadlessWindow { presented: 0, current: false })
        }
    }

    /// Nothing to pump.
    fn poll_events(&mut self)
        ensures
            final(self).room == old(self).room,
    {
    }

    /// No event ever waits.
    fn flush_messages(&mut self, window: &mut HeadlessWindow) -> (events: Vec<WindowEvent>)
        ensures
            events@.len() == 0,
            *final(window) == *old(window),
            final(self).room == old(self).room,
    {
        Vec::new()
    }

    /// Counts the presentation, up to `u64::MAX`.
    fn swap_buffers(&mut self, window: &mut HeadlessWindow)
        ensures
            old(window).presented < u64::MAX ==> final(window).presented == old(window).presented
                + 1,
            old(window).presented == u64::MAX ==> final(window).presented == u64::MAX,
            final(window).current == old(window).current,
            final(self).room == old(self).room,
    {
        if window.presented < u64::MAX {
            window.presented = window.presented + 1;
        }
    }

    /// Notes that the window was made the target of drawing.
    fn make_current(&mut self, window: &mut HeadlessWindow)
        ensures
            final(window).current,
            final(window).presented == old(window).presented,
            final(self).room == old(self).room,
    {
        window.current = true;
    }
}

} // verus!
