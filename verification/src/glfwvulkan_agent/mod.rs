//! The backend that this crate provides: a window registry and the
//! termination rule, over any windowing toolkit.

pub mod device_manager;
pub mod swapchain;
pub mod toolkit;
pub mod window;
pub mod window_manager;

pub use toolkit::Toolkit;

use crate::error::Error;
use crate::interfaces::{termination_due, BackendModel, RHI};
use vstd::prelude::*;
use window::{WindowEvent, WindowModel};
use window_manager::{
    closing_ids, delivered, lemma_ids_after_destroy, lemma_ids_after_poll, lemma_ids_after_push,
    entry_passes, lemma_ids_after_reap, live_ids, other_than, polled, still_open, unique_ids,
    AurenWindowManager,
};

verus! {

/// A backend over the toolkit `T`. It keeps the windows, remembers which of
/// them is the primary one, and raises the termination flag at a frame start
/// that finds no window left or the primary one gone.
pub struct GLFWVulkanAgent<T: Toolkit> {
    window_handler: AurenWindowManager<T>,
    primary_window_id: Option<usize>,
    program_should_end: bool,
}

impl<T: Toolkit> GLFWVulkanAgent<T> {
    /// The window registry.
    pub closed spec fn registry(&self) -> AurenWindowManager<T> {
        self.window_handler
    }

    /// The live windows, oldest first.
    pub open spec fn windows(&self) -> Seq<WindowModel> {
        self.registry()@
    }

    /// The primary window, once one was named.
    pub closed spec fn primary(&self) -> Option<usize> {
        self.primary_window_id
    }

    /// The termination flag.
    pub closed spec fn terminating(&self) -> bool {
        self.program_should_end
    }

    /// The backend's invariant: identities are unique among live windows.
    pub open spec fn wf(&self) -> bool {
        unique_ids(self.windows())
    }

    /// What the framework can tell of a backend with these windows.
    pub open spec fn model(windows: Seq<WindowModel>, primary: Option<usize>, terminating: bool)
        -> BackendModel {
        BackendModel {
            windows: Map::new(
                |id: usize| live_ids(windows).contains(id),
                |id: usize| closing_ids(windows).contains(id),
            ),
            primary,
            terminating,
        }
    }

    /// What the model says of the identities is what the windows say.
    pub proof fn lemma_model_of(windows: Seq<WindowModel>, primary: Option<usize>, terminating: bool)
        ensures
            Self::model(windows, primary, terminating).live() == live_ids(windows),
            Self::model(windows, primary, terminating).closing() == closing_ids(windows),
            Self::model(windows, primary, terminating).survivors() == live_ids(
                windows,
            ).difference(closing_ids(windows)),
    {
        let m = Self::model(windows, primary, terminating);
        assert(m.live() =~= live_ids(windows));
        assert(m.closing() =~= closing_ids(windows));
        assert(m.survivors() =~= live_ids(windows).difference(closing_ids(windows)));
    }

    /// A backend without windows, with no primary window and the flag down.
    pub fn new(toolkit: T) -> (agent: Self)
        ensures
            agent.windows() == Seq::<WindowModel>::empty(),
            agent.registry().native() == toolkit,
            agent.primary() is None,
            !agent.terminating(),
            agent@ == BackendModel::fresh(),
            agent.wf(),
    {
        let agent = GLFWVulkanAgent {
            window_handler: AurenWindowManager::new(toolkit),
            primary_window_id: None,
            program_should_end: false,
        };
        proof {
            assert(live_ids(agent.windows()) =~= Set::<usize>::empty());
            assert(closing_ids(agent.windows()) =~= Set::<usize>::empty());
        }
        agent
    }

    /// The registry, to look at.
    pub fn window_handler(&self) -> (registry: &AurenWindowManager<T>)
        ensures
            *registry == self.registry(),
    {
        &self.window_handler
    }

    /// The primary window, once one was named.
    pub fn primary_window(&self) -> (primary: Option<usize>)
        ensures
            primary == self.primary(),
    {
        self.primary_window_id
    }

    /// How many windows are live.
    pub fn get_window_count(&self) -> (n: usize)
        ensures
            n == self.windows().len(),
    {
        self.window_handler.count()
    }

    /// The title of the window at `index`, counted from the oldest.
    pub fn get_window_title(&self, index: usize) -> (title: Option<&str>)
        ensures
            index < self.windows().len() ==> title is Some && title->0@ == self.windows()[index as int].title,
            index >= self.windows().len() ==> title is None,
    {
        self.window_handler.title_at(index)
    }

    /// Makes the window at `index`, counted from the oldest, the target of
    /// drawing. An index past the last window is passed over: nothing is
    /// done then.
    pub fn make_current(&mut self, index: usize)
        ensures
            old(self).registry().made_current(index, &final(self).registry()),
            final(self).windows() == old(self).windows(),
            final(self).primary() == old(self).primary(),
            final(self).terminating() == old(self).terminating(),
    {
        self.window_handler.make_current(index);
    }

    /// Presents every live window once, oldest first.
    pub fn swap_buffers(&mut self)
        ensures
            old(self).registry().presented(&final(self).registry()),
            final(self).windows() == old(self).windows(),
            final(self).primary() == old(self).primary(),
            final(self).terminating() == old(self).terminating(),
    {
        self.window_handler.swap_buffers();
    }

    /// Removes every window that is marked for removal, and lets their native
    /// handles go; the other windows keep theirs.
    pub fn cleanup_closed_windows(&mut self)
        ensures
            final(self).registry().entries() == old(self).registry().entries().filter(
                entry_passes(still_open()),
            ),
            final(self).windows() == old(self).windows().filter(still_open()),
            final(self).registry().native() == old(self).registry().native(),
            final(self).primary() == old(self).primary(),
            final(self).terminating() == old(self).terminating(),
            old(self).wf() ==> final(self).wf(),
    {
        self.window_handler.reap_closed();
    }

    /// Hands `event` to the window `id`, as if the toolkit had reported it,
    /// and says whether there is such a window. A close request takes effect
    /// at the next frame start.
    pub fn dispatch(&mut self, id: usize, event: WindowEvent) -> (reached: bool)
        ensures
            final(self).windows() == delivered(old(self).windows(), id, event),
            reached == old(self)@.live().contains(id),
            final(self)@.live() == old(self)@.live(),
            final(self).primary() == old(self).primary(),
            final(self).terminating() == old(self).terminating(),
            old(self).wf() ==> final(self).wf(),
    {
        let reached = self.window_handler.dispatch(id, event);
        proof {
            lemma_ids_after_poll(old(self).windows(), self.windows());
        }
        reached
    }
}

impl<T: Toolkit> RHI for GLFWVulkanAgent<T> {
    /// A window is created by the registry, with the title, the width and the
    /// height that were given; the primary window and the flag stay.
    open spec fn window_created(
        &self,
        title: Seq<char>,
        width: u32,
        height: u32,
        id: Option<usize>,
        later: &Self,
        r: Result<usize, Error>,
    ) -> bool {
        &&& later.primary() == self.primary()
        &&& later.terminating() == self.terminating()
        &&& self.registry().window_created(title, width, height, id, &later.registry(), r)
    }

    /// A window is destroyed by taking it out of the registry, which lets
    /// its native handle go; the other windows keep theirs, and the toolkit
    /// is not touched.
    open spec fn window_destroyed(&self, id: usize, later: &Self) -> bool {
        &&& later.primary() == self.primary()
        &&& later.terminating() == self.terminating()
        &&& later.registry().native() == self.registry().native()
        &&& later.registry().entries() == self.registry().entries().filter(
            entry_passes(other_than(id)),
        )
    }

    /// A frame is begun by reaping the windows that are marked as closed. If
    /// no window is left then, or the primary one is gone, the flag goes up
    /// and the toolkit is not touched; else the registry is updated once.
    open spec fn frame_begun(&self, later: &Self) -> bool {
        let reaped = self.registry().entries().filter(entry_passes(still_open()));
        &&& later.primary() == self.primary()
        &&& if termination_due(live_ids(self.windows().filter(still_open())), self.primary()) {
            &&& later.terminating()
            &&& later.registry().entries() == reaped
            &&& later.registry().native() == self.registry().native()
        } else {
            &&& later.terminating() == self.terminating()
            &&& exists|mid: AurenWindowManager<T>|
                {
                    &&& mid.entries() == reaped
                    &&& mid.native() == self.registry().native()
                    &&& #[trigger] mid.updated(&later.registry())
                }
        }
    }

    /// The primary window is named, and nothing else is done.
    open spec fn master_assigned(&self, id: usize, later: &Self) -> bool {
        &&& later.primary() == Some(id)
        &&& later.terminating() == self.terminating()
        &&& later.registry() == self.registry()
    }

    /// A frame is ended by presenting every live window once, oldest first;
    /// with the flag up, by doing nothing.
    open spec fn frame_ended(&self, later: &Self) -> bool {
        &&& later.primary() == self.primary()
        &&& later.terminating() == self.terminating()
        &&& if self.terminating() {
            later.registry() == self.registry()
        } else {
            self.registry().presented(&later.registry())
        }
    }

    /// The windows by their identities, the primary window and the flag.
    open spec fn view(&self) -> BackendModel {
        Self::model(self.windows(), self.primary(), self.terminating())
    }

    /// Creates a window through the registry. The new window is the
    /// youngest, it has the title and the size that were given, and it is not
    /// marked as closed.
    fn create_window(&mut self, title: &str, width: u32, height: u32, id: Option<usize>) -> (r:
        Result<usize, Error>)
        ensures
            match r {
                Ok(n) => final(self).windows() == old(self).windows().push(
                    WindowModel { id: n, title: title@, width, height, closing: false },
                ),
                Err(_) => final(self).windows() == old(self).windows(),
            },
            final(self).primary() == old(self).primary(),
            final(self).terminating() == old(self).terminating(),
            old(self).wf() ==> final(self).wf(),
    {
        let r = self.window_handler.create_window(title, width, height, id);
        proof {
            if let Ok(n) = r {
                lemma_ids_after_push(
                    old(self).windows(),
                    WindowModel { id: n, title: title@, width, height, closing: false },
                );
            }
        }
        r
    }

    /// Removes the window `id`; the others stay as they are, in their order.
    fn destroy_window(&mut self, id: usize)
        ensures
            final(self).windows() == old(self).windows().filter(other_than(id)),
            final(self).primary() == old(self).primary(),
            final(self).terminating() == old(self).terminating(),
            old(self).wf() ==> final(self).wf(),
    {
        self.window_handler.destroy_window(id);
        proof {
            lemma_ids_after_destroy(old(self).windows(), id);
        }
    }

    /// Reaps the windows that are marked as closed. If no window is left
    /// then, or the primary one is gone, the flag goes up and that is all:
    /// the toolkit is not polled. Else the toolkit is polled, and each window
    /// takes in the events that wait for it.
    fn start_frame(&mut self)
        ensures
            final(self).primary() == old(self).primary(),
            final(self).terminating() == (old(self).terminating() || termination_due(
                final(self)@.live(),
                final(self).primary(),
            )),
            termination_due(final(self)@.live(), final(self).primary()) ==> {
                &&& final(self).windows() == old(self).windows().filter(still_open())
                &&& final(self).registry().native() == old(self).registry().native()
            },
            polled(old(self).windows().filter(still_open()), final(self).windows()),
            old(self).wf() ==> final(self).wf(),
    {
        self.cleanup_closed_windows();
        let ghost reaped = self.windows();
        let ghost mid = self.registry();
        proof {
            lemma_ids_after_reap(old(self).windows());
            Self::lemma_model_of(old(self).windows(), old(self).primary(), old(self).terminating());
            Self::lemma_model_of(reaped, self.primary(), true);
            Self::lemma_model_of(reaped, self.primary(), self.terminating());
        }
        let count = self.get_window_count();
        if count == 0 {
            assert forall|id: usize| !live_ids(reaped).contains(id) by {}
            self.program_should_end = true;
            return ;
        }
        assert(live_ids(reaped).contains(reaped[0].id));
        let primary_lost = match self.primary_window_id {
            Some(id) => !self.window_handler.check_for_id(id),
            None => false,
        };
        if primary_lost {
            self.program_should_end = true;
            return ;
        }
        self.window_handler.update();
        proof {
            assert(mid.updated(&self.registry()));
            lemma_ids_after_poll(reaped, self.windows());
            Self::lemma_model_of(self.windows(), self.primary(), self.terminating());
        }
    }

    /// Presents every live window once, oldest first. With the flag up,
    /// nothing at all is done.
    fn end_frame(&mut self)
        ensures
            old(self).terminating() ==> *final(self) == *old(self),
            !old(self).terminating() ==> old(self).registry().presented(&final(self).registry()),
            final(self).windows() == old(self).windows(),
            final(self).primary() == old(self).primary(),
            final(self).terminating() == old(self).terminating(),
    {
        if self.program_should_end {
            return ;
        }
        self.swap_buffers();
    }

    /// The termination flag.
    fn should_close(&self) -> (flag: bool)
        ensures
            flag == self.terminating(),
    {
        self.program_should_end
    }

    /// Names `id` the primary window, whether or not such a window is live.
    fn assign_master(&mut self, id: usize)
        ensures
            final(self).windows() == old(self).windows(),
            final(self).primary() == Some(id),
            final(self).terminating() == old(self).terminating(),
    {
        self.primary_window_id = Some(id);
    }
}

} // verus!
