//! The window registry: which windows are live, and under which identities.

use super::toolkit::Toolkit;
use super::window::{lemma_events_carry_on, AurenWindow, WindowEvent, WindowModel};
use crate::error::Error;
use crate::interfaces::{is_first_gap, may_assign};
use vstd::prelude::*;
use vstd::seq_lib::seq_to_set_is_finite;
use vstd::set_lib::{lemma_int_range, lemma_len_subset, set_int_range};

verus! {

/// Some window of `windows` has the identity `id`.
pub open spec fn has_id(windows: Seq<WindowModel>, id: usize) -> bool {
    exists|i: int| 0 <= i < windows.len() && (#[trigger] windows[i]).id == id
}

/// The identities of `windows`.
pub open spec fn live_ids(windows: Seq<WindowModel>) -> Set<usize> {
    Set::new(|id: usize| has_id(windows, id))
}

/// The identities in `windows` that are marked for removal. (Where the
/// identities are unique, that is every identity whose window is marked.)
pub open spec fn closing_ids(windows: Seq<WindowModel>) -> Set<usize> {
    Set::new(
        |id: usize|
            has_id(windows, id) && forall|i: int|
                0 <= i < windows.len() && (#[trigger] windows[i]).id == id ==> windows[i].closing,
    )
}

/// No two windows share an identity.
pub open spec fn unique_ids(windows: Seq<WindowModel>) -> bool {
    forall|i: int, j: int|
        0 <= i < j < windows.len() ==> (#[trigger] windows[i]).id != (#[trigger] windows[j]).id
}

/// Holds of every window but those with the identity `id`.
pub open spec fn other_than(id: usize) -> spec_fn(WindowModel) -> bool {
    |w: WindowModel| w.id != id
}

/// Holds of the windows that are not marked for removal.
pub open spec fn still_open() -> spec_fn(WindowModel) -> bool {
    |w: WindowModel| !w.closing
}

/// `windows` once `event` has reached every window with the identity `id`.
pub open spec fn delivered(windows: Seq<WindowModel>, id: usize, event: WindowEvent) -> Seq<
    WindowModel,
> {
    windows.map_values(
        |w: WindowModel|
            if w.id == id {
                w.after(event)
            } else {
                w
            },
    )
}

/// `later` holds the windows of `earlier`, in their order, some events on.
pub open spec fn polled(earlier: Seq<WindowModel>, later: Seq<WindowModel>) -> bool {
    &&& later.len() == earlier.len()
    &&& forall|i: int| 0 <= i < earlier.len() ==> (#[trigger] earlier[i]).carried_on(later[i])
}

/// Holds of the entries whose window passes `keep`.
pub open spec fn entry_passes<H>(keep: spec_fn(WindowModel) -> bool) -> spec_fn(AurenWindow<H>)
    -> bool {
    |entry: AurenWindow<H>| keep(entry@)
}

/// `after` is `before` with one entry more at the end: the window `model`
/// with the native handle `native`.
pub open spec fn joined<H>(
    before: Seq<AurenWindow<H>>,
    native: H,
    model: WindowModel,
    after: Seq<AurenWindow<H>>,
) -> bool {
    &&& after.len() == before.len() + 1
    &&& after.drop_last() == before
    &&& after.last().window == native
    &&& after.last()@ == model
}

/// What a sweep of the registry takes away.
enum Sweep {
    /// The windows with this identity.
    Identity(usize),
    /// The windows that are marked for removal.
    Closed,
}

impl Sweep {
    /// Holds of the windows that the sweep leaves.
    spec fn keeps(self) -> spec_fn(WindowModel) -> bool {
        match self {
            Sweep::Identity(id) => other_than(id),
            Sweep::Closed => still_open(),
        }
    }

    /// Whether the sweep takes `window` away.
    fn takes<H>(&self, window: &AurenWindow<H>) -> (gone: bool)
        ensures
            gone == !(self.keeps())(window@),
    {
        match self {
            Sweep::Identity(id) => window.id == *id,
            Sweep::Closed => window.should_close(),
        }
    }
}

/// The registry of live windows, over the toolkit that brings them up.
pub struct AurenWindowManager<T: Toolkit> {
    toolkit: T,
    windows: Vec<AurenWindow<T::Window>>,
}

impl<T: Toolkit> AurenWindowManager<T> {
    /// The live windows with their native handles, oldest first.
    pub closed spec fn entries(&self) -> Seq<AurenWindow<T::Window>> {
        self.windows@
    }

    /// The toolkit under the registry.
    pub closed spec fn native(&self) -> T {
        self.toolkit
    }

    /// The live windows, oldest first.
    pub open spec fn view(&self) -> Seq<WindowModel> {
        self.entries().map_values(|w: AurenWindow<T::Window>| w@)
    }

    /// The registry's invariant: identities are unique among live windows.
    pub open spec fn wf(&self) -> bool {
        unique_ids(self@)
    }

    /// A registry without windows.
    pub fn new(toolkit: T) -> (manager: Self)
        ensures
            manager@ == Seq::<WindowModel>::empty(),
            manager.native() == toolkit,
            manager.wf(),
    {
        AurenWindowManager { toolkit, windows: Vec::new() }
    }

    /// How many windows are live.
    pub fn count(&self) -> (n: usize)
        ensures
            n == self@.len(),
    {
        self.windows.len()
    }

    /// Whether a live window has the identity `id`.
    pub fn check_for_id(&self, id: usize) -> (found: bool)
        ensures
            found == live_ids(self@).contains(id),
    {
        let mut i: usize = 0;
        while i < self.windows.len()
            invariant
                i <= self.windows.len(),
                forall|k: int| 0 <= k < i ==> (#[trigger] self@[k]).id != id,
            decreases self.windows.len() - i,
        {
            if self.windows[i].id == id {
                assert(self@[i as int].id == id);
                return true;
            }
            i += 1;
        }
        false
    }

    /// The identity that the next window gets when it asks for none: the
    /// smallest that no live window has.
    pub fn smallest_free_id(&self) -> (id: usize)
        ensures
            is_first_gap(live_ids(self@), id),
            id <= self@.len(),
    {
        let mut candidate: usize = 0;
        while self.check_for_id(candidate)
            invariant
                candidate <= self.windows.len(),
                forall|k: usize| k < candidate ==> live_ids(self@).contains(k),
            decreases self.windows.len() - candidate,
        {
            proof {
                assert forall|k: int| 0 <= k < candidate + 1 implies #[trigger] taken(
                    self@,
                    k,
                ) by {
                    assert(live_ids(self@).contains(k as usize));
                }
                lemma_run_fits(self@, candidate + 1);
            }
            candidate += 1;
        }
        candidate
    }

    /// The identity for a new window. A requested identity is taken as it is
    /// unless a live window has it; without one, the first gap is taken.
    pub fn resolve_id(&self, requested: Option<usize>) -> (r: Result<usize, Error>)
        ensures
            match r {
                Ok(id) => may_assign(live_ids(self@), requested, id),
                Err(e) => e == Error::DuplicateIdentity && requested is Some && live_ids(
                    self@,
                ).contains(requested->0),
            },
    {
        match requested {
            Some(wanted) => {
                if self.check_for_id(wanted) {
                    Err(Error::DuplicateIdentity)
                } else {
                    Ok(wanted)
                }
            },
            None => Ok(self.smallest_free_id()),
        }
    }

    /// Enters a window whose native part the toolkit was asked for: `native`
    /// is the toolkit's answer. A requested identity that is live is turned
    /// down first; then a window that did not come up; else the window joins
    /// the others, last, under the identity that `resolve_id` gives.
    pub fn adopt(
        &mut self,
        native: Option<T::Window>,
        title: &str,
        width: u32,
        height: u32,
        requested: Option<usize>,
    ) -> (r: Result<usize, Error>)
        ensures
            match r {
                Ok(id) => {
                    &&& native is Some
                    &&& may_assign(live_ids(old(self)@), requested, id)
                    &&& final(self)@ == old(self)@.push(
                        WindowModel { id, title: title@, width, height, closing: false },
                    )
                    &&& joined(
                        old(self).entries(),
                        native->0,
                        WindowModel { id, title: title@, width, height, closing: false },
                        final(self).entries(),
                    )
                },
                Err(Error::DuplicateIdentity) => {
                    &&& requested is Some
                    &&& live_ids(old(self)@).contains(requested->0)
                    &&& final(self).entries() == old(self).entries()
                },
                Err(Error::BackendCreationFailed) => {
                    &&& native is None
                    &&& !(requested is Some && live_ids(old(self)@).contains(requested->0))
                    &&& final(self).entries() == old(self).entries()
                },
            },
            final(self).native() == old(self).native(),
            old(self).wf() ==> final(self).wf(),
    {
        let id = match self.resolve_id(requested) {
            Ok(id) => id,
            Err(e) => {
                return Err(e);
            },
        };
        match native {
            None => Err(Error::BackendCreationFailed),
            Some(handle) => {
                let window = AurenWindow::new(handle, title, width, height, id);
                self.windows.push(window);
                proof {
                    assert(self@ =~= old(self)@.push(window@));
                    assert(self.entries().drop_last() =~= old(self).entries());
                    lemma_push_keeps_unique(old(self)@, window@);
                }
                Ok(id)
            },
        }
    }

    /// `later` and `r` are what `create_window` with these arguments makes of
    /// the registry. An identity that is asked for and live is turned down,
    /// and neither the toolkit nor a window is touched. Else the toolkit is
    /// asked once, for a window with this title, width and height; the call
    /// succeeds if and only if the window came up, and then the window has
    /// joined the others, last, with the handle that the toolkit gave.
    pub open spec fn window_created(
        &self,
        title: Seq<char>,
        width: u32,
        height: u32,
        id: Option<usize>,
        later: &Self,
        r: Result<usize, Error>,
    ) -> bool {
        if id is Some && live_ids(self@).contains(id->0) {
            &&& r == Err::<usize, Error>(Error::DuplicateIdentity)
            &&& later.native() == self.native()
            &&& later.entries() == self.entries()
        } else {
            exists|native: Option<T::Window>|
                {
                    &&& #[trigger] T::opened(
                        self.native(),
                        title,
                        width,
                        height,
                        later.native(),
                        native,
                    )
                    &&& match r {
                        Ok(n) => {
                            &&& native is Some
                            &&& may_assign(live_ids(self@), id, n)
                            &&& joined(
                                self.entries(),
                                native->0,
                                WindowModel { id: n, title, width, height, closing: false },
                                later.entries(),
                            )
                        },
                        Err(e) => {
                            &&& native is None
                            &&& e == Error::BackendCreationFailed
                            &&& later.entries() == self.entries()
                        },
                    }
                }
        }
    }

    /// Creates a window. An identity that is asked for and live is turned down
    /// before the toolkit is troubled; else the toolkit is asked for the
    /// native window, and `adopt` does the rest with its answer.
    pub fn create_window(&mut self, title: &str, width: u32, height: u32, id: Option<usize>) -> (r:
        Result<usize, Error>)
        ensures
            old(self).window_created(title@, width, height, id, final(self), r),
            match r {
                Ok(n) => {
                    &&& may_assign(live_ids(old(self)@), id, n)
                    &&& final(self)@ == old(self)@.push(
                        WindowModel { id: n, title: title@, width, height, closing: false },
                    )
                },
                Err(e) => {
                    &&& final(self)@ == old(self)@
                    &&& e == Error::DuplicateIdentity <==> (id is Some && live_ids(
                        old(self)@,
                    ).contains(id->0))
                },
            },
            old(self).wf() ==> final(self).wf(),
    {
        if let Some(wanted) = id {
            if self.check_for_id(wanted) {
                return Err(Error::DuplicateIdentity);
            }
        }
        let native = self.toolkit.create_window(title, width, height);
        let ghost asked = self.native();
        let r = self.adopt(native, title, width, height, id);
        proof {
            assert(T::opened(old(self).native(), title@, width, height, asked, native));
        }
        r
    }
}

impl<T: Toolkit> AurenWindowManager<T> {
    /// Takes away what `sweep` takes, and leaves the other windows as they
    /// are, handles and all, in their order.
    fn sweep(&mut self, sweep: Sweep)
        ensures
            final(self).entries() == old(self).entries().filter(entry_passes(sweep.keeps())),
            final(self)@ == old(self)@.filter(sweep.keeps()),
            final(self).native() == old(self).native(),
            old(self).wf() ==> final(self).wf(),
    {
        let ghost keep = entry_passes::<T::Window>(sweep.keeps());
        let ghost mut seen: int = 0;
        let mut i: usize = 0;
        while i < self.windows.len()
            invariant
                0 <= i <= seen <= old(self).entries().len(),
                self.entries().len() - i == old(self).entries().len() - seen,
                self.entries().take(i as int) == old(self).entries().take(seen).filter(keep),
                self.entries().skip(i as int) == old(self).entries().skip(seen),
                self.native() == old(self).native(),
                keep == entry_passes::<T::Window>(sweep.keeps()),
            decreases self.windows.len() - i,
        {
            proof {
                assert(self.entries()[i as int] == self.entries().skip(i as int)[0]);
                assert(old(self).entries().take(seen + 1) =~= old(self).entries().take(seen).push(
                    old(self).entries()[seen],
                ));
                old(self).entries().take(seen).lemma_filter_push(old(self).entries()[seen], keep);
            }
            if sweep.takes(&self.windows[i]) {
                let ghost before = self.entries();
                self.windows.remove(i);
                proof {
                    assert(self.entries() =~= before.remove(i as int));
                    assert(self.entries().take(i as int) =~= before.take(i as int));
                    assert(self.entries().skip(i as int) =~= before.skip(i as int).skip(1));
                    assert(old(self).entries().skip(seen + 1) =~= old(self).entries().skip(
                        seen,
                    ).skip(1));
                    seen = seen + 1;
                }
            } else {
                proof {
                    assert(self.entries().take(i + 1) =~= self.entries().take(i as int).push(
                        self.entries()[i as int],
                    ));
                    assert(self.entries().skip(i + 1) =~= self.entries().skip(i as int).skip(1));
                    assert(old(self).entries().skip(seen + 1) =~= old(self).entries().skip(
                        seen,
                    ).skip(1));
                    seen = seen + 1;
                }
                i += 1;
            }
        }
        proof {
            assert(self.entries().take(i as int) =~= self.entries());
            assert(old(self).entries().take(seen) =~= old(self).entries());
            lemma_filter_of_entries(old(self).entries(), sweep.keeps());
            lemma_filter_keeps_unique(old(self)@, sweep.keeps());
        }
    }

    /// Removes the window `id`, and lets its native handle go. The other
    /// windows stay as they are, with their handles, in their order. Nothing
    /// happens if no such window is live: to destroy twice is to destroy
    /// once.
    pub fn destroy_window(&mut self, id: usize)
        ensures
            final(self).entries() == old(self).entries().filter(entry_passes(other_than(id))),
            final(self)@ == old(self)@.filter(other_than(id)),
            !live_ids(old(self)@).contains(id) ==> final(self).entries() == old(self).entries(),
            final(self).native() == old(self).native(),
            old(self).wf() ==> final(self).wf(),
    {
        self.sweep(Sweep::Identity(id));
        proof {
            if !live_ids(old(self)@).contains(id) {
                assert forall|i: int| 0 <= i < old(self).entries().len() implies entry_passes::<
                    T::Window,
                >(other_than(id))(#[trigger] old(self).entries()[i]) by {
                    assert(old(self)@[i].id != id);
                }
                lemma_filter_all(old(self).entries(), entry_passes(other_than(id)));
            }
        }
    }

    /// Removes every window that is marked for removal, and lets their native
    /// handles go. The other windows stay as they are, with their handles, in
    /// their order.
    pub fn reap_closed(&mut self)
        ensures
            final(self).entries() == old(self).entries().filter(entry_passes(still_open())),
            final(self)@ == old(self)@.filter(still_open()),
            final(self).native() == old(self).native(),
            old(self).wf() ==> final(self).wf(),
    {
        self.sweep(Sweep::Closed);
    }
}

impl<T: Toolkit> AurenWindowManager<T> {
    /// The window `id`, if it is live.
    pub fn get_window_by_id(&self, id: usize) -> (found: Option<&AurenWindow<T::Window>>)
        ensures
            found is Some <==> live_ids(self@).contains(id),
            found matches Some(w) ==> exists|i: int|
                {
                    &&& 0 <= i < self.entries().len()
                    &&& #[trigger] self.entries()[i] == *w
                    &&& w.id == id
                    &&& forall|k: int| 0 <= k < i ==> (#[trigger] self@[k]).id != id
                },
    {
        let mut i: usize = 0;
        while i < self.windows.len()
            invariant
                i <= self.windows.len(),
                forall|k: int| 0 <= k < i ==> (#[trigger] self@[k]).id != id,
            decreases self.windows.len() - i,
        {
            if self.windows[i].id == id {
                assert(self@[i as int].id == id);
                assert(self.entries()[i as int] == self.windows[i as int]);
                return Some(&self.windows[i]);
            }
            i += 1;
        }
        None
    }

    /// The live windows, oldest first.
    pub fn windows(&self) -> (all: &Vec<AurenWindow<T::Window>>)
        ensures
            all@ == self.entries(),
    {
        &self.windows
    }

    /// The toolkit under the registry.
    pub fn toolkit(&self) -> (toolkit: &T)
        ensures
            *toolkit == self.native(),
    {
        &self.toolkit
    }

    /// The title of the window at `index`, counted from the oldest.
    pub fn title_at(&self, index: usize) -> (title: Option<&str>)
        ensures
            index < self@.len() ==> title is Some && title->0@ == self@[index as int].title,
            index >= self@.len() ==> title is None,
    {
        if index < self.windows.len() {
            Some(self.windows[index].title.as_str())
        } else {
            None
        }
    }

    /// Hands `event` to the window `id`, as if the toolkit had reported it,
    /// and says whether there is such a window.
    pub fn dispatch(&mut self, id: usize, event: WindowEvent) -> (reached: bool)
        ensures
            final(self)@ == delivered(old(self)@, id, event),
            final(self).entries().len() == old(self).entries().len(),
            forall|k: int|
                0 <= k < old(self).entries().len() ==> (#[trigger] final(self).entries()[k]).window
                    == old(self).entries()[k].window,
            reached == live_ids(old(self)@).contains(id),
            polled(old(self)@, final(self)@),
            final(self).native() == old(self).native(),
            old(self).wf() ==> final(self).wf(),
    {
        let mut reached = false;
        let mut i: usize = 0;
        while i < self.windows.len()
            invariant
                i <= self.windows.len(),
                self@.len() == old(self)@.len(),
                forall|k: int|
                    0 <= k < i ==> #[trigger] self@[k] == delivered(old(self)@, id, event)[k],
                forall|k: int| i <= k < self@.len() ==> #[trigger] self@[k] == old(self)@[k],
                reached <==> exists|k: int| 0 <= k < i && (#[trigger] old(self)@[k]).id == id,
                self.native() == old(self).native(),
                self.entries().len() == old(self).entries().len(),
                forall|k: int|
                    0 <= k < old(self).entries().len() ==> (#[trigger] self.entries()[k]).window
                        == old(self).entries()[k].window,
            decreases self.windows.len() - i,
        {
            let ghost before = self@;
            if self.windows[i].id == id {
                self.windows[i].handle_event(event);
                reached = true;
                assert(self@ =~= before.update(i as int, before[i as int].after(event)));
            }
            assert(old(self)@[i as int].id == before[i as int].id);
            i += 1;
        }
        proof {
            assert(self@ =~= delivered(old(self)@, id, event));
            lemma_delivered_is_polled(old(self)@, id, event);
            lemma_ids_after_poll(old(self)@, self@);
        }
        reached
    }

    /// The toolkit went from `before` to `after` by presenting the windows
    /// of `windows` one by one, oldest first, and left them as `left`: the
    /// same windows, with the handles as the toolkit left them. `steps` holds
    /// the toolkit before each of the calls, and after the last.
    pub open spec fn shown_in_turn(
        before: T,
        windows: Seq<AurenWindow<T::Window>>,
        after: T,
        left: Seq<AurenWindow<T::Window>>,
        steps: Seq<T>,
    ) -> bool {
        &&& left.len() == windows.len()
        &&& steps.len() == windows.len() + 1
        &&& steps[0] == before
        &&& steps[windows.len() as int] == after
        &&& forall|i: int|
            0 <= i < windows.len() ==> {
                &&& T::shown(steps[i], windows[i].window, steps[i + 1], (#[trigger] left[i]).window)
                &&& left[i]@ == windows[i]@
            }
    }

    /// The toolkit went from `before` to `after` by handing out the events
    /// that waited for the windows of `windows`, one window after the other,
    /// oldest first, and each window took its events in, first to last: that
    /// left the windows as `left`. `steps` holds the toolkit before each of
    /// the calls, and after the last; `events` holds what each call handed
    /// out.
    pub open spec fn flushed_in_turn(
        before: T,
        windows: Seq<AurenWindow<T::Window>>,
        after: T,
        left: Seq<AurenWindow<T::Window>>,
        steps: Seq<T>,
        events: Seq<Seq<WindowEvent>>,
    ) -> bool {
        &&& left.len() == windows.len()
        &&& events.len() == windows.len()
        &&& steps.len() == windows.len() + 1
        &&& steps[0] == before
        &&& steps[windows.len() as int] == after
        &&& forall|i: int|
            0 <= i < windows.len() ==> {
                &&& T::flushed(
                    steps[i],
                    windows[i].window,
                    steps[i + 1],
                    (#[trigger] left[i]).window,
                    events[i],
                )
                &&& left[i]@ == windows[i]@.after_all(events[i])
            }
    }

    /// `later` is the registry after one poll: the toolkit has pumped its
    /// queue once, and then every window, oldest first, was handed the events
    /// that waited for it and took them in.
    pub open spec fn updated(&self, later: &Self) -> bool {
        exists|steps: Seq<T>, events: Seq<Seq<WindowEvent>>|
            {
                &&& T::pumped(self.native(), steps[0])
                &&& #[trigger] Self::flushed_in_turn(
                    steps[0],
                    self.entries(),
                    later.native(),
                    later.entries(),
                    steps,
                    events,
                )
            }
    }

    /// `later` is the registry after every window, oldest first, was
    /// presented once.
    pub open spec fn presented(&self, later: &Self) -> bool {
        exists|steps: Seq<T>| #[trigger]
            Self::shown_in_turn(
                self.native(),
                self.entries(),
                later.native(),
                later.entries(),
                steps,
            )
    }

    /// `later` is the registry after the window at `index` was made the
    /// target of drawing; with an index past the last window, it is the
    /// registry itself.
    pub open spec fn made_current(&self, index: usize, later: &Self) -> bool {
        if index < self.entries().len() {
            &&& later.entries().len() == self.entries().len()
            &&& T::targeted(
                self.native(),
                self.entries()[index as int].window,
                later.native(),
                later.entries()[index as int].window,
            )
            &&& later.entries()[index as int]@ == self.entries()[index as int]@
            &&& forall|k: int|
                0 <= k < self.entries().len() && k != index ==> later.entries()[k]
                    == self.entries()[k]
        } else {
            later.entries() == self.entries() && later.native() == self.native()
        }
    }

    /// Pumps the toolkit once, then asks it, window by window from the
    /// oldest, for the events that wait, and has the window take them in.
    /// Which events those are is the toolkit's to say; whatever they are, no
    /// window comes or goes, none changes its identity or title, and a window
    /// that is marked for removal stays marked.
    pub fn update(&mut self)
        ensures
            old(self).updated(final(self)),
            polled(old(self)@, final(self)@),
            old(self).wf() ==> final(self).wf(),
    {
        self.toolkit.poll_events();
        let ghost mut steps: Seq<T> = seq![self.native()];
        let ghost mut handed: Seq<Seq<WindowEvent>> = Seq::empty();
        let mut i: usize = 0;
        while i < self.windows.len()
            invariant
                i <= self.windows.len(),
                self.entries().len() == old(self).entries().len(),
                T::pumped(old(self).native(), steps[0]),
                Self::flushed_in_turn(
                    steps[0],
                    old(self).entries().take(i as int),
                    self.native(),
                    self.entries().take(i as int),
                    steps,
                    handed,
                ),
                forall|k: int|
                    i <= k < self.entries().len() ==> self.entries()[k] == old(self).entries()[k],
                polled(old(self)@, self@),
            decreases self.windows.len() - i,
        {
            let ghost before = self@;
            let ghost entries = self.entries();
            let events = self.toolkit.flush_messages(&mut self.windows[i].window);
            assert(self@ =~= before);
            self.windows[i].handle_events(&events);
            proof {
                lemma_events_carry_on(before[i as int], events@);
                assert forall|k: int| 0 <= k < before.len() implies (#[trigger] old(
                    self,
                )@[k]).carried_on(self@[k]) by {
                    assert(old(self)@[k].carried_on(before[k]));
                    if k != i {
                        assert(self@[k] == before[k]);
                    }
                }
                let earlier = steps;
                let earlier_left = entries.take(i as int);
                steps = steps.push(self.native());
                handed = handed.push(events@);
                let done = old(self).entries().take(i + 1);
                let left = self.entries().take(i + 1);
                assert forall|k: int| 0 <= k < done.len() implies {
                    &&& T::flushed(
                        steps[k],
                        done[k].window,
                        steps[k + 1],
                        (#[trigger] left[k]).window,
                        handed[k],
                    )
                    &&& left[k]@ == done[k]@.after_all(handed[k])
                } by {
                    if k < i {
                        assert(left[k] == earlier_left[k]);
                    }
                }
            }
            i += 1;
        }
        proof {
            assert(old(self).entries().take(i as int) =~= old(self).entries());
            assert(self.entries().take(i as int) =~= self.entries());
            lemma_ids_after_poll(old(self)@, self@);
        }
    }

    /// Presents every live window once, oldest first. The windows are the
    /// same afterwards; what became of the toolkit and of the handles is the
    /// toolkit's to say.
    pub fn swap_buffers(&mut self)
        ensures
            old(self).presented(final(self)),
            final(self)@ == old(self)@,
    {
        let ghost mut steps: Seq<T> = seq![self.native()];
        let mut i: usize = 0;
        while i < self.windows.len()
            invariant
                i <= self.windows.len(),
                self.entries().len() == old(self).entries().len(),
                Self::shown_in_turn(
                    old(self).native(),
                    old(self).entries().take(i as int),
                    self.native(),
                    self.entries().take(i as int),
                    steps,
                ),
                forall|k: int|
                    i <= k < self.entries().len() ==> self.entries()[k] == old(self).entries()[k],
                self@ == old(self)@,
            decreases self.windows.len() - i,
        {
            let ghost before = self@;
            let ghost entries = self.entries();
            self.toolkit.swap_buffers(&mut self.windows[i].window);
            proof {
                assert(self@ =~= before);
                let earlier_left = entries.take(i as int);
                steps = steps.push(self.native());
                let done = old(self).entries().take(i + 1);
                let left = self.entries().take(i + 1);
                assert forall|k: int| 0 <= k < done.len() implies {
                    &&& T::shown(steps[k], done[k].window, steps[k + 1], (#[trigger] left[k]).window)
                    &&& left[k]@ == done[k]@
                } by {
                    if k < i {
                        assert(left[k] == earlier_left[k]);
                    }
                }
            }
            i += 1;
        }
        proof {
            assert(old(self).entries().take(i as int) =~= old(self).entries());
            assert(self.entries().take(i as int) =~= self.entries());
        }
    }

    /// Makes the window at `index`, counted from the oldest, the target of
    /// drawing. An index past the last window is passed over: nothing is
    /// done then.
    pub fn make_current(&mut self, index: usize)
        ensures
            old(self).made_current(index, final(self)),
            final(self)@ == old(self)@,
    {
        if index < self.windows.len() {
            self.toolkit.make_current(&mut self.windows[index].window);
            assert(self@ =~= old(self)@);
        }
    }
}

/// An event that is handed to one window is a poll that reported it.
proof fn lemma_delivered_is_polled(windows: Seq<WindowModel>, id: usize, event: WindowEvent)
    ensures
        polled(windows, delivered(windows, id, event)),
{
    let later = delivered(windows, id, event);
    assert forall|i: int| 0 <= i < windows.len() implies (#[trigger] windows[i]).carried_on(
        later[i],
    ) by {
        lemma_events_carry_on(windows[i], seq![event]);
        assert(seq![event].drop_last() =~= Seq::<WindowEvent>::empty());
        assert(windows[i].after_all(seq![event]) == windows[i].after(event)) by {
            reveal_with_fuel(WindowModel::after_all, 2);
        }
    }
}

/// A filter that every element passes changes nothing.
proof fn lemma_filter_all<A>(elements: Seq<A>, keep: spec_fn(A) -> bool)
    requires
        forall|i: int| 0 <= i < elements.len() ==> keep(#[trigger] elements[i]),
    ensures
        elements.filter(keep) == elements,
    decreases elements.len(),
{
    reveal(Seq::filter);
    if elements.len() > 0 {
        lemma_filter_all(elements.drop_last(), keep);
        assert(elements.drop_last().push(elements.last()) =~= elements);
    }
}

/// To filter the entries by their windows and then look at the windows is to
/// look at the windows and then filter.
proof fn lemma_filter_of_entries<H>(entries: Seq<AurenWindow<H>>, keep: spec_fn(WindowModel) -> bool)
    ensures
        entries.filter(entry_passes(keep)).map_values(|w: AurenWindow<H>| w@) == entries.map_values(
            |w: AurenWindow<H>| w@,
        ).filter(keep),
    decreases entries.len(),
{
    let look = |w: AurenWindow<H>| w@;
    if entries.len() == 0 {
        reveal(Seq::filter);
        assert(entries.filter(entry_passes(keep)).map_values(look) =~= entries.map_values(
            look,
        ).filter(keep));
    } else {
        let front = entries.drop_last();
        let last = entries.last();
        lemma_filter_of_entries(front, keep);
        assert(front.push(last) =~= entries);
        front.lemma_filter_push(last, entry_passes(keep));
        assert(entries.map_values(look) =~= front.map_values(look).push(last@));
        front.map_values(look).lemma_filter_push(last@, keep);
        if keep(last@) {
            assert(front.filter(entry_passes(keep)).push(last).map_values(look)
                =~= front.filter(entry_passes(keep)).map_values(look).push(last@));
        }
    }
}

/// What is left after a filter was there before, in the same order: so
/// unique identities stay unique.
proof fn lemma_filter_keeps_unique(windows: Seq<WindowModel>, keep: spec_fn(WindowModel) -> bool)
    ensures
        unique_ids(windows) ==> unique_ids(windows.filter(keep)),
        forall|id: usize|
            has_id(windows.filter(keep), id) ==> has_id(windows, id),
    decreases windows.len(),
{
    reveal(Seq::filter);
    if windows.len() > 0 {
        let front = windows.drop_last();
        let last = windows.last();
        lemma_filter_keeps_unique(front, keep);
        let kept = front.filter(keep);
        assert forall|id: usize| has_id(windows.filter(keep), id) implies has_id(windows, id) by {
            let i = choose|i: int|
                0 <= i < windows.filter(keep).len() && (#[trigger] windows.filter(keep)[i]).id
                    == id;
            if i < kept.len() {
                assert(kept[i].id == id);
                assert(has_id(front, id));
                let j = choose|j: int| 0 <= j < front.len() && (#[trigger] front[j]).id == id;
                assert(windows[j].id == id);
            } else {
                assert(windows[windows.len() - 1].id == id);
            }
        }
        if unique_ids(windows) {
            assert(unique_ids(front)) by {
                assert forall|i: int, j: int| 0 <= i < j < front.len() implies (
                #[trigger] front[i]).id != (#[trigger] front[j]).id by {
                    assert(windows[i].id != windows[j].id);
                }
            }
            if keep(last) {
                let next = kept.push(last);
                assert forall|i: int, j: int| 0 <= i < j < next.len() implies (
                #[trigger] next[i]).id != (#[trigger] next[j]).id by {
                    if j == kept.len() {
                        assert(has_id(kept, kept[i].id));
                        assert(has_id(front, kept[i].id));
                        let k = choose|k: int|
                            0 <= k < front.len() && (#[trigger] front[k]).id == kept[i].id;
                        assert(windows[k].id != windows[windows.len() - 1].id);
                    } else {
                        assert(kept[i].id != kept[j].id);
                    }
                }
            }
        }
    }
}

/// A filter keeps exactly the windows that pass it.
proof fn lemma_filter_members(windows: Seq<WindowModel>, keep: spec_fn(WindowModel) -> bool)
    ensures
        forall|w: WindowModel| #[trigger]
            windows.filter(keep).contains(w) <==> windows.contains(w) && keep(w),
    decreases windows.len(),
{
    reveal(Seq::filter);
    if windows.len() > 0 {
        let front = windows.drop_last();
        let last = windows.last();
        let kept = front.filter(keep);
        let out = windows.filter(keep);
        lemma_filter_members(front, keep);
        assert forall|w: WindowModel| #[trigger] out.contains(w) <==> windows.contains(w) && keep(
            w,
        ) by {
            if out.contains(w) {
                let j = choose|j: int| 0 <= j < out.len() && out[j] == w;
                if j < kept.len() {
                    assert(kept[j] == w);
                    assert(kept.contains(w));
                    let i = choose|i: int| 0 <= i < front.len() && front[i] == w;
                    assert(windows[i] == w);
                } else {
                    assert(windows[windows.len() - 1] == w);
                }
            }
            if windows.contains(w) && keep(w) {
                let i = choose|i: int| 0 <= i < windows.len() && windows[i] == w;
                if i < front.len() {
                    assert(front[i] == w);
                    assert(kept.contains(w));
                    let j = choose|j: int| 0 <= j < kept.len() && kept[j] == w;
                    assert(out[j] == w);
                } else {
                    assert(out[out.len() - 1] == w);
                }
            }
        }
    }
}

/// The identities after a window with a fresh identity has joined.
pub proof fn lemma_ids_after_push(windows: Seq<WindowModel>, w: WindowModel)
    requires
        !live_ids(windows).contains(w.id),
        !w.closing,
    ensures
        live_ids(windows.push(w)) == live_ids(windows).insert(w.id),
        closing_ids(windows.push(w)) == closing_ids(windows),
{
    let next = windows.push(w);
    lemma_push_keeps_unique(windows, w);
    assert forall|id: usize| closing_ids(next).contains(id) <==> closing_ids(windows).contains(
        id,
    ) by {
        if closing_ids(next).contains(id) {
            assert(id != w.id) by {
                assert(next[windows.len() as int].id == w.id);
            }
            assert(live_ids(next).contains(id));
            assert(has_id(windows, id));
            assert forall|i: int| 0 <= i < windows.len() && (#[trigger] windows[i]).id
                == id implies windows[i].closing by {
                assert(next[i].id == id);
            }
        }
        if closing_ids(windows).contains(id) {
            assert(live_ids(next).contains(id));
            assert forall|i: int| 0 <= i < next.len() && (#[trigger] next[i]).id
                == id implies next[i].closing by {
                if i < windows.len() {
                    assert(windows[i].id == id);
                }
            }
        }
    }
    assert(closing_ids(next) =~= closing_ids(windows));
}

/// Where identities are unique, there are as many of them as windows: the
/// count of the registry is the size of its live set.
pub proof fn lemma_count_is_cardinality(windows: Seq<WindowModel>)
    requires
        unique_ids(windows),
    ensures
        live_ids(windows).finite(),
        live_ids(windows).len() == windows.len(),
    decreases windows.len(),
{
    if windows.len() == 0 {
        assert(live_ids(windows) =~= Set::<usize>::empty());
    } else {
        let front = windows.drop_last();
        let last = windows.last();
        assert(unique_ids(front)) by {
            assert forall|i: int, j: int| 0 <= i < j < front.len() implies (#[trigger] front[i]).id
                != (#[trigger] front[j]).id by {
                assert(windows[i].id != windows[j].id);
            }
        }
        lemma_count_is_cardinality(front);
        assert(!live_ids(front).contains(last.id)) by {
            if has_id(front, last.id) {
                let i = choose|i: int| 0 <= i < front.len() && (#[trigger] front[i]).id == last.id;
                assert(windows[i].id != windows[windows.len() - 1].id);
            }
        }
        lemma_push_keeps_unique(front, last);
        assert(front.push(last) =~= windows);
    }
}

/// The identities after the window `id` was destroyed.
pub proof fn lemma_ids_after_destroy(windows: Seq<WindowModel>, id: usize)
    ensures
        live_ids(windows.filter(other_than(id))) == live_ids(windows).remove(id),
        closing_ids(windows.filter(other_than(id))) == closing_ids(windows).remove(id),
{
    let rest = windows.filter(other_than(id));
    lemma_filter_members(windows, other_than(id));
    assert forall|x: usize| has_id(rest, x) <==> has_id(windows, x) && x != id by {
        if has_id(rest, x) {
            let j = choose|j: int| 0 <= j < rest.len() && (#[trigger] rest[j]).id == x;
            assert(rest.contains(rest[j]));
            let i = choose|i: int| 0 <= i < windows.len() && windows[i] == rest[j];
            assert(windows[i].id == x);
        }
        if has_id(windows, x) && x != id {
            let i = choose|i: int| 0 <= i < windows.len() && (#[trigger] windows[i]).id == x;
            assert(windows.contains(windows[i]));
            assert(rest.contains(windows[i]));
            let j = choose|j: int| 0 <= j < rest.len() && rest[j] == windows[i];
            assert(rest[j].id == x);
        }
    }
    assert(live_ids(rest) =~= live_ids(windows).remove(id));
    assert forall|x: usize| closing_ids(rest).contains(x) <==> closing_ids(windows).remove(
        id,
    ).contains(x) by {
        if closing_ids(rest).contains(x) {
            assert(has_id(rest, x));
            assert forall|i: int| 0 <= i < windows.len() && (#[trigger] windows[i]).id
                == x implies windows[i].closing by {
                assert(windows.contains(windows[i]));
                assert(rest.contains(windows[i]));
                let j = choose|j: int| 0 <= j < rest.len() && rest[j] == windows[i];
                assert(rest[j].id == x);
            }
        }
        if closing_ids(windows).remove(id).contains(x) {
            assert(has_id(rest, x));
            assert forall|j: int| 0 <= j < rest.len() && (#[trigger] rest[j]).id
                == x implies rest[j].closing by {
                assert(rest.contains(rest[j]));
                let i = choose|i: int| 0 <= i < windows.len() && windows[i] == rest[j];
                assert(windows[i].id == x);
            }
        }
    }
    assert(closing_ids(rest) =~= closing_ids(windows).remove(id));
}

/// The identities after the closed windows were reaped.
pub proof fn lemma_ids_after_reap(windows: Seq<WindowModel>)
    ensures
        live_ids(windows.filter(still_open())) == live_ids(windows).difference(
            closing_ids(windows),
        ),
        closing_ids(windows.filter(still_open())) == Set::<usize>::empty(),
{
    let rest = windows.filter(still_open());
    lemma_filter_members(windows, still_open());
    assert forall|x: usize| has_id(rest, x) <==> live_ids(windows).difference(
        closing_ids(windows),
    ).contains(x) by {
        if has_id(rest, x) {
            let j = choose|j: int| 0 <= j < rest.len() && (#[trigger] rest[j]).id == x;
            assert(rest.contains(rest[j]));
            let i = choose|i: int| 0 <= i < windows.len() && windows[i] == rest[j];
            assert(windows[i].id == x && !windows[i].closing);
        }
        if live_ids(windows).difference(closing_ids(windows)).contains(x) {
            let i = choose|i: int|
                0 <= i < windows.len() && (#[trigger] windows[i]).id == x && !windows[i].closing;
            assert(windows.contains(windows[i]));
            assert(rest.contains(windows[i]));
            let j = choose|j: int| 0 <= j < rest.len() && rest[j] == windows[i];
            assert(rest[j].id == x);
        }
    }
    assert(live_ids(rest) =~= live_ids(windows).difference(closing_ids(windows)));
    assert forall|x: usize| !closing_ids(rest).contains(x) by {
        if has_id(rest, x) {
            let j = choose|j: int| 0 <= j < rest.len() && (#[trigger] rest[j]).id == x;
            assert(rest.contains(rest[j]));
            assert(!rest[j].closing);
        }
    }
    assert(closing_ids(rest) =~= Set::<usize>::empty());
}

/// Events neither bring a window nor take one away.
pub proof fn lemma_ids_after_poll(earlier: Seq<WindowModel>, later: Seq<WindowModel>)
    requires
        polled(earlier, later),
    ensures
        live_ids(later) == live_ids(earlier),
        unique_ids(earlier) ==> unique_ids(later),
{
    assert forall|x: usize| has_id(later, x) <==> has_id(earlier, x) by {
        if has_id(later, x) {
            let i = choose|i: int| 0 <= i < later.len() && (#[trigger] later[i]).id == x;
            assert(earlier[i].carried_on(later[i]));
        }
        if has_id(earlier, x) {
            let i = choose|i: int| 0 <= i < earlier.len() && (#[trigger] earlier[i]).id == x;
            assert(earlier[i].carried_on(later[i]));
            assert(later[i].id == x);
        }
    }
    assert(live_ids(later) =~= live_ids(earlier));
    if unique_ids(earlier) {
        assert forall|i: int, j: int| 0 <= i < j < later.len() implies (#[trigger] later[i]).id != (
        #[trigger] later[j]).id by {
            assert(earlier[i].carried_on(later[i]));
            assert(earlier[j].carried_on(later[j]));
        }
    }
}

/// Some window of `windows` has the identity `k`.
spec fn taken(windows: Seq<WindowModel>, k: int) -> bool {
    exists|i: int| 0 <= i < windows.len() && (#[trigger] windows[i]).id == k
}

/// Where every identity below `run` is taken, there are at least `run`
/// windows.
proof fn lemma_run_fits(windows: Seq<WindowModel>, run: int)
    requires
        0 <= run,
        forall|k: int| 0 <= k < run ==> #[trigger] taken(windows, k),
    ensures
        run <= windows.len(),
{
    let ids = windows.map_values(|w: WindowModel| w.id as int);
    lemma_int_range(0, run);
    seq_to_set_is_finite(ids);
    ids.lemma_cardinality_of_set();
    assert forall|k: int| set_int_range(0, run).contains(k) implies ids.to_set().contains(k) by {
        assert(taken(windows, k));
        let i = choose|i: int| 0 <= i < windows.len() && (#[trigger] windows[i]).id == k;
        assert(ids[i] == k);
    }
    lemma_len_subset(set_int_range(0, run), ids.to_set());
}

/// A window with a fresh identity keeps the identities unique.
proof fn lemma_push_keeps_unique(windows: Seq<WindowModel>, w: WindowModel)
    requires
        !live_ids(windows).contains(w.id),
    ensures
        unique_ids(windows) ==> unique_ids(windows.push(w)),
        live_ids(windows.push(w)) == live_ids(windows).insert(w.id),
{
    let next = windows.push(w);
    if unique_ids(windows) {
        assert forall|i: int, j: int| 0 <= i < j < next.len() implies (#[trigger] next[i]).id != (
        #[trigger] next[j]).id by {
            if j == windows.len() {
                assert(windows[i].id != w.id);
            } else {
                assert(windows[i].id != windows[j].id);
            }
        }
    }
    assert forall|id: usize| live_ids(next).contains(id) <==> live_ids(windows).insert(
        w.id,
    ).contains(id) by {
        if has_id(windows, id) {
            let i = choose|i: int| 0 <= i < windows.len() && (#[trigger] windows[i]).id == id;
            assert(next[i].id == id);
        }
        if id == w.id {
            assert(next[windows.len() as int].id == id);
        }
        if has_id(next, id) {
            let i = choose|i: int| 0 <= i < next.len() && (#[trigger] next[i]).id == id;
            if i < windows.len() {
                assert(windows[i].id == id);
            }
        }
    }
}

} // verus!
