//! One window, and what the toolkit can tell it.

use vstd::prelude::*;

verus! {

/// What the toolkit reports of a window between two frames.
#[derive(Clone, Copy, Debug, PartialEq, Eq)]
pub enum WindowEvent {
    /// The framebuffer has the given width and height now.
    FramebufferSize(i32, i32),
    /// The user asked for the window to be closed.
    Close,
    /// Anything else: the window takes no notice.
    Other,
}

/// What a window is, apart from its native handle.
#[verifier::ext_equal]
pub struct WindowModel {
    pub id: usize,
    pub title: Seq<char>,
    pub width: u32,
    pub height: u32,
    /// The toolkit has reported the window closed: the next reaping removes it.
    pub closing: bool,
}

impl WindowModel {
    /// The window after one event. A size is stored as the toolkit gives it,
    /// brought into the unsigned range; a close request marks the window and
    /// does not remove it.
    pub open spec fn after(self, event: WindowEvent) -> WindowModel {
        match event {
            WindowEvent::FramebufferSize(w, h) => WindowModel {
                width: w as u32,
                height: h as u32,
                ..self
            },
            WindowEvent::Close => WindowModel { closing: true, ..self },
            WindowEvent::Other => self,
        }
    }

    /// The window after a run of events, first to last.
    pub open spec fn after_all(self, events: Seq<WindowEvent>) -> WindowModel
        decreases events.len(),
    {
        if events.len() == 0 {
            self
        } else {
            self.after_all(events.drop_last()).after(events.last())
        }
    }

    /// `later` is the same window as `self`, some events on: identity and
    /// title are kept, and a close request is not taken back.
    pub open spec fn carried_on(self, later: WindowModel) -> bool {
        &&& later.id == self.id
        &&& later.title == self.title
        &&& self.closing ==> later.closing
    }
}

/// A live window: its native handle, and what the registry keeps of it.
pub struct AurenWindow<H> {
    pub window: H,
    pub title: String,
    pub width: u32,
    pub height: u32,
    pub id: usize,
    pub closing: bool,
}

impl<H> AurenWindow<H> {
    pub open spec fn view(&self) -> WindowModel {
        WindowModel {
            id: self.id,
            title: self.title@,
            width: self.width,
            height: self.height,
            closing: self.closing,
        }
    }

    /// A window that nobody has asked to close.
    pub fn new(window: H, title: &str, width: u32, height: u32, id: usize) -> (w: Self)
        ensures
            w.window == window,
            w@ == (WindowModel { id, title: title@, width, height, closing: false }),
    {
        AurenWindow { window, title: title.to_owned(), width, height, id, closing: false }
    }

    /// Takes one event in.
    pub fn handle_event(&mut self, event: WindowEvent)
        ensures
            final(self)@ == old(self)@.after(event),
            final(self).window == old(self).window,
    {
        match event {
            WindowEvent::FramebufferSize(w, h) => {
                self.width = w as u32;
                self.height = h as u32;
            },
            WindowEvent::Close => {
                self.closing = true;
            },
            WindowEvent::Other => {},
        }
    }

    /// Takes a run of events in, first to last.
    pub fn handle_events(&mut self, events: &Vec<WindowEvent>)
        ensures
            final(self)@ == old(self)@.after_all(events@),
            final(self).window == old(self).window,
    {
        let mut k: usize = 0;
        while k < events.len()
            invariant
                k <= events.len(),
                self@ == old(self)@.after_all(events@.take(k as int)),
                self.window == old(self).window,
            decreases events.len() - k,
        {
            assert(events@.take(k + 1).drop_last() == events@.take(k as int));
            self.handle_event(events[k]);
            k += 1;
        }
        assert(events@.take(k as int) == events@);
    }

    /// Whether the window is marked for removal.
    pub fn should_close(&self) -> (flag: bool)
        ensures
            flag == self@.closing,
    {
        self.closing
    }
}

/// Events leave a window's identity and title alone and never take a close
/// request back.
pub proof fn lemma_events_carry_on(w: WindowModel, events: Seq<WindowEvent>)
    ensures
        w.carried_on(w.after_all(events)),
    decreases events.len(),
{
    if events.len() > 0 {
        lemma_events_carry_on(w, events.drop_last());
    }
}

/// Whatever `carried_on` allows, some run of events brings about: a poll can
/// leave a window in any state that keeps its identity, its title and its
/// mark, and in no other.
pub proof fn lemma_carried_on_by_events(w: WindowModel, later: WindowModel)
    requires
        w.carried_on(later),
    ensures
        exists|events: Seq<WindowEvent>| w.after_all(events) == later,
{
    let wide: u32 = later.width;
    let high: u32 = later.height;
    let width = wide as i32;
    let height = high as i32;
    assert(width as u32 == wide && height as u32 == high) by (bit_vector)
        requires
            width == wide as i32,
            height == high as i32,
    ;
    let size = WindowEvent::FramebufferSize(width, height);
    let events = if later.closing {
        seq![size, WindowEvent::Close]
    } else {
        seq![size]
    };
    assert(w.after_all(events) =~= later) by {
        reveal_with_fuel(WindowModel::after_all, 3);
        if later.closing {
            assert(events.drop_last() =~= seq![size]);
            assert(seq![size].drop_last() =~= Seq::<WindowEvent>::empty());
        } else {
            assert(events.drop_last() =~= Seq::<WindowEvent>::empty());
        }
    }
}

} // verus!
